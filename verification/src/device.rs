//! The data model: port descriptors discovered on the host, configured
//! device profiles, and the static matcher that decides whether a profile's
//! declared attributes are compatible with a port.

use vstd::prelude::*;
use crate::text::{escape_of, escape_str};

verus! {

/// Hardware metadata of one discovered serial-capable port.
pub struct UsbPortInfoWithPort {
    pub port: String,
    pub vid: u16,
    pub pid: u16,
    pub manufacturer: Option<String>,
    pub product: Option<String>,
    pub serial_number: Option<String>,
}

/// The mathematical value of a port descriptor.
#[verifier::ext_equal]
pub struct PortView {
    pub port: Seq<char>,
    pub vid: u16,
    pub pid: u16,
    pub manufacturer: Option<Seq<char>>,
    pub product: Option<Seq<char>>,
    pub serial_number: Option<Seq<char>>,
}

impl View for UsbPortInfoWithPort {
    type V = PortView;

    open spec fn view(&self) -> PortView {
        PortView {
            port: self.port@,
            vid: self.vid,
            pid: self.pid,
            manufacturer: self.manufacturer.deep_view(),
            product: self.product.deep_view(),
            serial_number: self.serial_number.deep_view(),
        }
    }
}

impl DeepView for UsbPortInfoWithPort {
    type V = PortView;

    open spec fn deep_view(&self) -> PortView {
        self.view()
    }
}

/// A configured device profile: optional static attributes, an optional
/// serial identification handshake, and optional follow-up command lists.
/// The two output fields start absent and are appended to by the action
/// runner after a successful identification.
pub struct USXDevice {
    pub baudrate: Option<u32>,
    pub vendor_id: Option<u16>,
    pub product_id: Option<u16>,
    pub manufacturer: Option<String>,
    pub product: Option<String>,
    pub serial_number: Option<String>,
    pub serial_identification_command: Option<String>,
    pub serial_identification_command_expected_response: Option<String>,
    pub serial_commands_after_identification: Option<Vec<String>>,
    pub system_commands_after_identification: Option<Vec<String>>,
    pub serial_commands_output: Option<String>,
    pub system_commands_output: Option<String>,
}

/// The mathematical value of a device profile.
#[verifier::ext_equal]
pub struct DeviceView {
    pub baudrate: Option<u32>,
    pub vendor_id: Option<u16>,
    pub product_id: Option<u16>,
    pub manufacturer: Option<Seq<char>>,
    pub product: Option<Seq<char>>,
    pub serial_number: Option<Seq<char>>,
    pub serial_identification_command: Option<Seq<char>>,
    pub serial_identification_command_expected_response: Option<Seq<char>>,
    pub serial_commands_after_identification: Option<Seq<Seq<char>>>,
    pub system_commands_after_identification: Option<Seq<Seq<char>>>,
    pub serial_commands_output: Option<Seq<char>>,
    pub system_commands_output: Option<Seq<char>>,
}

impl View for USXDevice {
    type V = DeviceView;

    open spec fn view(&self) -> DeviceView {
        DeviceView {
            baudrate: self.baudrate,
            vendor_id: self.vendor_id,
            product_id: self.product_id,
            manufacturer: self.manufacturer.deep_view(),
            product: self.product.deep_view(),
            serial_number: self.serial_number.deep_view(),
            serial_identification_command: self.serial_identification_command.deep_view(),
            serial_identification_command_expected_response: self
                .serial_identification_command_expected_response
                .deep_view(),
            serial_commands_after_identification: self
                .serial_commands_after_identification
                .deep_view(),
            system_commands_after_identification: self
                .system_commands_after_identification
                .deep_view(),
            serial_commands_output: self.serial_commands_output.deep_view(),
            system_commands_output: self.system_commands_output.deep_view(),
        }
    }
}

impl DeepView for USXDevice {
    type V = DeviceView;

    open spec fn deep_view(&self) -> DeviceView {
        self.view()
    }
}

/// A profile is criteria-free when all five static attributes are absent.
pub open spec fn criteria_free(d: DeviceView) -> bool {
    &&& d.manufacturer is None
    &&& d.product is None
    &&& d.serial_number is None
    &&& d.vendor_id is None
    &&& d.product_id is None
}

/// A profile supports active identification when command, expected response
/// and baud rate are all present.
pub open spec fn supports_serial_identification(d: DeviceView) -> bool {
    &&& d.serial_identification_command is Some
    &&& d.serial_identification_command_expected_response is Some
    &&& d.baudrate is Some
}

/// The static matcher: every attribute present on the profile must equal
/// the port's; an absent attribute is a wildcard.
pub open spec fn static_match(d: DeviceView, p: PortView) -> bool {
    &&& (d.manufacturer is None || d.manufacturer == p.manufacturer)
    &&& (d.product is None || d.product == p.product)
    &&& (d.serial_number is None || d.serial_number == p.serial_number)
    &&& (d.vendor_id is None || d.vendor_id == Some(p.vid))
    &&& (d.product_id is None || d.product_id == Some(p.pid))
}

/// A criteria-free profile is compatible with every port descriptor.
pub proof fn lemma_criteria_free_matches_all(d: DeviceView, p: PortView)
    requires
        criteria_free(d),
    ensures
        static_match(d, p),
{
}

/// The static matcher is a pure function of the two views: evaluating it
/// again on the same profile and port yields the same boolean, and nothing
/// in either value changes.
pub proof fn lemma_static_match_deterministic(
    d1: DeviceView,
    d2: DeviceView,
    p1: PortView,
    p2: PortView,
)
    requires
        d1 == d2,
        p1 == p2,
    ensures
        static_match(d1, p1) == static_match(d2, p2),
{
}

fn opt_str_eq(a: &Option<String>, b: &Option<String>) -> (r: bool)
    ensures
        r == (a.deep_view() == b.deep_view()),
{
    match a {
        Some(x) => match b {
            Some(y) => {
                let r = x.eq(y);
                proof {
                    assert(a.deep_view() == Some(x@));
                    assert(b.deep_view() == Some(y@));
                }
                r
            },
            None => false,
        },
        None => b.is_none(),
    }
}

fn clone_string_vec(v: &Vec<String>) -> (r: Vec<String>)
    ensures
        r.deep_view() == v.deep_view(),
{
    let mut r: Vec<String> = Vec::new();
    let mut i: usize = 0;
    while i < v.len()
        invariant
            i <= v.len(),
            r@.len() == i,
            r.deep_view() =~= v.deep_view().take(i as int),
        decreases v.len() - i,
    {
        r.push(v[i].clone());
        i = i + 1;
    }
    proof {
        assert(v.deep_view().take(v@.len() as int) =~= v.deep_view());
    }
    r
}

/// The separator appended after each follow-up command's captured output.
pub open spec fn output_separator() -> Seq<char> {
    seq!['\n', '-', '-', '-', '\n']
}

/// An output field after one more block is appended: the previous content
/// (empty if the field was absent), the new block, then the separator.
pub open spec fn appended_output(prev: Option<Seq<char>>, chunk: Seq<char>) -> Seq<char> {
    (match prev {
        Some(s) => s,
        None => Seq::empty(),
    }) + chunk + output_separator()
}

impl USXDevice {
    /// True when all five static attributes are absent.
    pub fn none_port_info(&self) -> (r: bool)
        ensures
            r == criteria_free(self@),
    {
        self.manufacturer.is_none() && self.product.is_none() && self.serial_number.is_none()
            && self.vendor_id.is_none() && self.product_id.is_none()
    }

    /// True when the profile can be confirmed by the serial handshake.
    pub fn can_identify_through_serial(&self) -> (r: bool)
        ensures
            r == supports_serial_identification(self@),
    {
        self.serial_identification_command.is_some()
            && self.serial_identification_command_expected_response.is_some()
            && self.baudrate.is_some()
    }

    /// The static matcher, executable form.
    pub fn matches_port(&self, port: &UsbPortInfoWithPort) -> (r: bool)
        ensures
            r == static_match(self@, port@),
    {
        let vid_ok = match self.vendor_id {
            None => true,
            Some(v) => v == port.vid,
        };
        let pid_ok = match self.product_id {
            None => true,
            Some(v) => v == port.pid,
        };
        (self.manufacturer.is_none() || opt_str_eq(&self.manufacturer, &port.manufacturer))
            && (self.product.is_none() || opt_str_eq(&self.product, &port.product))
            && (self.serial_number.is_none() || opt_str_eq(
            &self.serial_number,
            &port.serial_number,
        )) && vid_ok && pid_ok
    }

    /// A copy of the profile with the same value under the view.
    pub fn duplicate(&self) -> (r: USXDevice)
        ensures
            r@ == self@,
    {
        let r = USXDevice {
            baudrate: self.baudrate,
            vendor_id: self.vendor_id,
            product_id: self.product_id,
            manufacturer: clone_opt_string(&self.manufacturer),
            product: clone_opt_string(&self.product),
            serial_number: clone_opt_string(&self.serial_number),
            serial_identification_command: clone_opt_string(
                &self.serial_identification_command,
            ),
            serial_identification_command_expected_response: clone_opt_string(
                &self.serial_identification_command_expected_response,
            ),
            serial_commands_after_identification: clone_opt_string_vec(
                &self.serial_commands_after_identification,
            ),
            system_commands_after_identification: clone_opt_string_vec(
                &self.system_commands_after_identification,
            ),
            serial_commands_output: clone_opt_string(&self.serial_commands_output),
            system_commands_output: clone_opt_string(&self.system_commands_output),
        };
        proof {
            assert(r@ =~= self@);
        }
        r
    }

    /// Renders a configured string for display, escaping control characters.
    pub fn escape_string(&self, input: &str) -> (r: String)
        ensures
            r@ == escape_of(input@),
    {
        escape_str(input)
    }

    /// Appends one captured serial response to the serial output field,
    /// followed by the separator.
    pub fn append_serial_output(&mut self, chunk: &str)
        ensures
            (final(self)@ == DeviceView {
                serial_commands_output: Some(
                    appended_output(old(self)@.serial_commands_output, chunk@),
                ),
                ..old(self)@
            }),
    {
        let prev = self.serial_commands_output.take();
        let mut out = match prev {
            Some(s) => s,
            None => String::new(),
        };
        out.append(chunk);
        out.append("\n---\n");
        proof {
            reveal_strlit("\n---\n");
            assert(("\n---\n")@ =~= output_separator());
        }
        self.serial_commands_output = Some(out);
        proof {
            assert(self@ =~= DeviceView {
                serial_commands_output: Some(
                    appended_output(old(self)@.serial_commands_output, chunk@),
                ),
                ..old(self)@
            });
        }
    }

    /// Appends one captured process output to the system output field,
    /// followed by the separator.
    pub fn append_system_output(&mut self, chunk: &str)
        ensures
            (final(self)@ == DeviceView {
                system_commands_output: Some(
                    appended_output(old(self)@.system_commands_output, chunk@),
                ),
                ..old(self)@
            }),
    {
        let prev = self.system_commands_output.take();
        let mut out = match prev {
            Some(s) => s,
            None => String::new(),
        };
        out.append(chunk);
        out.append("\n---\n");
        proof {
            reveal_strlit("\n---\n");
            assert(("\n---\n")@ =~= output_separator());
        }
        self.system_commands_output = Some(out);
        proof {
            assert(self@ =~= DeviceView {
                system_commands_output: Some(
                    appended_output(old(self)@.system_commands_output, chunk@),
                ),
                ..old(self)@
            });
        }
    }
}

fn clone_opt_string(o: &Option<String>) -> (r: Option<String>)
    ensures
        r.deep_view() == o.deep_view(),
{
    match o {
        Some(s) => Some(s.clone()),
        None => None,
    }
}

fn clone_opt_string_vec(o: &Option<Vec<String>>) -> (r: Option<Vec<String>>)
    ensures
        r.deep_view() == o.deep_view(),
{
    match o {
        Some(v) => Some(clone_string_vec(v)),
        None => None,
    }
}

/// The configuration document's structured content: the connection timeout,
/// the listing-only flag, the initially excluded ports, and the profiles in
/// configured order.
pub struct USXConfig {
    pub serial_connection_timeout_ms: u64,
    pub list_only: Option<bool>,
    pub skip_ports: Option<Vec<String>>,
    pub devices: Option<Vec<USXDevice>>,
}

} // verus!
