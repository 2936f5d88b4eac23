//! The assignment coordinator: consumes the configured profiles in reverse
//! order, scans the candidate ports for each, applies the static matcher,
//! and maintains the exclusion set and the port-to-profile assignment.
//!
//! The serial handshake itself happens outside the library. The coordinator
//! is a state machine: [`ScanState::scan_advance`] runs every decision that
//! needs no hardware and either finishes or names a port to probe; the
//! caller performs the probe and reports its outcome through
//! [`ScanState::scan_probe_result`].

use vstd::prelude::*;
use crate::device::{
    DeviceView, PortView, USXConfig, USXDevice, UsbPortInfoWithPort, static_match,
    supports_serial_identification,
};

verus! {

/// One entry of the assignment result: a port identifier and the profile
/// identified on it.
pub struct Assignment {
    pub port: String,
    pub device: USXDevice,
}

/// The mathematical value of an assignment entry.
#[verifier::ext_equal]
pub struct AssignmentView {
    pub port: Seq<char>,
    pub device: DeviceView,
}

impl View for Assignment {
    type V = AssignmentView;

    open spec fn view(&self) -> AssignmentView {
        AssignmentView { port: self.port@, device: self.device@ }
    }
}

impl DeepView for Assignment {
    type V = AssignmentView;

    open spec fn deep_view(&self) -> AssignmentView {
        self.view()
    }
}

/// The mapping an assignment list stands for: each entry binds its port,
/// later entries taking precedence.
pub open spec fn results_map(s: Seq<AssignmentView>) -> Map<Seq<char>, DeviceView>
    decreases s.len(),
{
    if s.len() == 0 {
        Map::empty()
    } else {
        results_map(s.drop_last()).insert(s.last().port, s.last().device)
    }
}

/// No port identifier occurs twice in the assignment list.
pub open spec fn unique_ports(s: Seq<AssignmentView>) -> bool {
    forall|i: int, j: int| 0 <= i < j < s.len() ==> s[i].port != s[j].port
}

proof fn lemma_results_map_update(s: Seq<AssignmentView>, i: int, a: AssignmentView)
    requires
        0 <= i < s.len(),
        s[i].port == a.port,
        unique_ports(s),
    ensures
        results_map(s.update(i, a)) == results_map(s).insert(a.port, a.device),
    decreases s.len(),
{
    let t = s.update(i, a);
    if i == s.len() - 1 {
        assert(t.drop_last() =~= s.drop_last());
        assert(t.last() == a);
        assert(results_map(s.drop_last()).insert(s.last().port, s.last().device).insert(
            a.port,
            a.device,
        ) =~= results_map(s.drop_last()).insert(a.port, a.device));
    } else {
        assert(t.drop_last() =~= s.drop_last().update(i, a));
        assert(t.last() == s.last());
        assert forall|x: int, y: int|
            0 <= x < y < s.drop_last().len() implies s.drop_last()[x].port
            != s.drop_last()[y].port by {
            assert(s.drop_last()[x] == s[x]);
            assert(s.drop_last()[y] == s[y]);
        }
        assert(s.drop_last()[i] == s[i]);
        lemma_results_map_update(s.drop_last(), i, a);
        assert(a.port != s.last().port);
        assert(results_map(s.drop_last()).insert(a.port, a.device).insert(
            s.last().port,
            s.last().device,
        ) =~= results_map(s.drop_last()).insert(s.last().port, s.last().device).insert(
            a.port,
            a.device,
        ));
    }
}

/// The position of the entry for `port`, if the list has one.
fn find_port_index(results: &Vec<Assignment>, port: &String) -> (r: Option<usize>)
    ensures
        (match r {
            Some(i) => (i as int) < results@.len() && results.deep_view()[i as int].port == port@,
            None => forall|j: int|
                0 <= j < results@.len() ==> results.deep_view()[j].port != port@,
        }),
{
    let mut i: usize = 0;
    while i < results.len()
        invariant
            i <= results@.len(),
            forall|j: int| 0 <= j < i ==> results.deep_view()[j].port != port@,
        decreases results@.len() - i,
    {
        proof {
            assert(results.deep_view()[i as int] == results@[i as int]@);
        }
        if results[i].port.eq(port) {
            return Some(i);
        }
        i = i + 1;
    }
    None
}

/// Binds `port` to `device` in the assignment list, replacing an existing
/// entry for the same port so that port identifiers stay unique.
fn record_assignment(results: &mut Vec<Assignment>, port: &String, device: USXDevice)
    requires
        unique_ports(old(results).deep_view()),
    ensures
        unique_ports(final(results).deep_view()),
        results_map(final(results).deep_view()) == results_map(old(results).deep_view()).insert(
            port@,
            device@,
        ),
{
    let ghost av = AssignmentView { port: port@, device: device@ };
    let found = find_port_index(results, port);
    let entry = Assignment { port: port.clone(), device };
    proof {
        assert(entry@ == av);
    }
    match found {
        Some(i) => {
            results.set(i, entry);
            proof {
                assert(results.deep_view() =~= old(results).deep_view().update(i as int, av));
                lemma_results_map_update(old(results).deep_view(), i as int, av);
                assert forall|x: int, y: int|
                    0 <= x < y < results.deep_view().len() implies results.deep_view()[x].port
                    != results.deep_view()[y].port by {
                    let o = old(results).deep_view();
                    assert(o[x].port == results.deep_view()[x].port);
                    assert(o[y].port == results.deep_view()[y].port);
                }
            }
        },
        None => {
            results.push(entry);
            proof {
                let o = old(results).deep_view();
                let n = results.deep_view();
                assert(n.drop_last() =~= o);
                assert(n.last() == av);
                assert forall|x: int, y: int|
                    0 <= x < y < n.len() implies n[x].port != n[y].port by {
                    if y < n.len() - 1 {
                        assert(n[x] == o[x]);
                        assert(n[y] == o[y]);
                    } else {
                        assert(n[x] == o[x]);
                        assert(n[y] == av);
                    }
                }
            }
        },
    }
}

/// True when the vector holds a string equal to `x`.
fn contains_string(v: &Vec<String>, x: &String) -> (r: bool)
    ensures
        r == v.deep_view().contains(x@),
{
    let mut i: usize = 0;
    while i < v.len()
        invariant
            i <= v@.len(),
            forall|j: int| 0 <= j < i ==> v.deep_view()[j] != x@,
        decreases v@.len() - i,
    {
        proof {
            assert(v.deep_view()[i as int] == v@[i as int]@);
        }
        if v[i].eq(x) {
            return true;
        }
        i = i + 1;
    }
    proof {
        assert(forall|j: int| 0 <= j < v.deep_view().len() ==> v.deep_view()[j] != x@);
    }
    false
}

/// The coordinator's whole state: the profiles still to process (consumed
/// from the end), the candidate ports, the exclusion set, the assignment so
/// far, and the profile and port position under scan.
pub struct ScanState {
    pub devices: Vec<USXDevice>,
    pub ports: Vec<UsbPortInfoWithPort>,
    pub skip_ports: Vec<String>,
    pub results: Vec<Assignment>,
    pub current: Option<USXDevice>,
    pub port_idx: usize,
}

/// The mathematical value of the coordinator's state.
#[verifier::ext_equal]
pub struct ScanView {
    pub devices: Seq<DeviceView>,
    pub ports: Seq<PortView>,
    pub skip: Seq<Seq<char>>,
    pub results: Map<Seq<char>, DeviceView>,
    pub current: Option<DeviceView>,
    pub port_idx: int,
}

impl View for ScanState {
    type V = ScanView;

    open spec fn view(&self) -> ScanView {
        ScanView {
            devices: self.devices.deep_view(),
            ports: self.ports.deep_view(),
            skip: self.skip_ports.deep_view(),
            results: results_map(self.results.deep_view()),
            current: self.current.deep_view(),
            port_idx: self.port_idx as int,
        }
    }
}

/// What the caller must do next: probe the named candidate port with the
/// profile under scan, or nothing, the run being complete.
pub enum ScanAction {
    Probe(usize),
    Finished,
}

/// Where the coordinator comes to rest, starting from `s` and taking every
/// step that needs no hardware: the state reached, and the index of the
/// port to probe, or `None` when the run is complete.
///
/// A port in the exclusion set is skipped, as is one the static matcher
/// rejects. A profile that cannot identify through serial is assigned to
/// every port it statically matches, without probing and without claiming
/// the port. A profile that can identify stops at the first compatible
/// port, which is the probe the caller must perform.
pub open spec fn advance_spec(s: ScanView) -> (ScanView, Option<int>)
    decreases
            2 * s.devices.len() + (if s.current is Some {
                1int
            } else {
                0int
            }),
            (if s.port_idx <= s.ports.len() {
                s.ports.len() - s.port_idx
            } else {
                0int
            }),
{
    match s.current {
        None => {
            if s.devices.len() == 0 {
                (s, None)
            } else {
                advance_spec(
                    ScanView {
                        devices: s.devices.drop_last(),
                        current: Some(s.devices.last()),
                        port_idx: 0,
                        ..s
                    },
                )
            }
        },
        Some(d) => {
            if s.port_idx >= s.ports.len() {
                advance_spec(ScanView { current: None, ..s })
            } else {
                let p = s.ports[s.port_idx];
                if s.skip.contains(p.port) || !static_match(d, p) {
                    advance_spec(ScanView { port_idx: s.port_idx + 1, ..s })
                } else if !supports_serial_identification(d) {
                    advance_spec(
                        ScanView {
                            results: s.results.insert(p.port, d),
                            port_idx: s.port_idx + 1,
                            ..s
                        },
                    )
                } else {
                    (s, Some(s.port_idx))
                }
            }
        },
    }
}

/// Advancing never changes the candidate ports, the exclusion set, or the
/// profile under scan other than by consuming profiles from the stack.
pub proof fn lemma_advance_frame(s: ScanView)
    ensures
        advance_spec(s).0.ports == s.ports,
        advance_spec(s).0.skip == s.skip,
    decreases
            2 * s.devices.len() + (if s.current is Some {
                1int
            } else {
                0int
            }),
            (if s.port_idx <= s.ports.len() {
                s.ports.len() - s.port_idx
            } else {
                0int
            }),
{
    match s.current {
        None => {
            if s.devices.len() > 0 {
                lemma_advance_frame(
                    ScanView {
                        devices: s.devices.drop_last(),
                        current: Some(s.devices.last()),
                        port_idx: 0,
                        ..s
                    },
                );
            }
        },
        Some(d) => {
            if s.port_idx >= s.ports.len() {
                lemma_advance_frame(ScanView { current: None, ..s });
            } else {
                let p = s.ports[s.port_idx];
                if s.skip.contains(p.port) || !static_match(d, p) {
                    lemma_advance_frame(ScanView { port_idx: s.port_idx + 1, ..s });
                } else if !supports_serial_identification(d) {
                    lemma_advance_frame(
                        ScanView {
                            results: s.results.insert(p.port, d),
                            port_idx: s.port_idx + 1,
                            ..s
                        },
                    );
                }
            }
        },
    }
}

/// Once a port stands in the exclusion set, no later profile of the run is
/// evaluated against it: advancing never asks to probe it, never newly
/// assigns it, and never changes an assignment it already has.
pub proof fn lemma_excluded_port_left_alone(s: ScanView, p: Seq<char>)
    requires
        s.skip.contains(p),
    ensures
        (advance_spec(s).1 matches Some(i) ==> advance_spec(s).0.ports[i].port != p),
        advance_spec(s).0.results.contains_key(p) == s.results.contains_key(p),
        s.results.contains_key(p) ==> advance_spec(s).0.results[p] == s.results[p],
    decreases
            2 * s.devices.len() + (if s.current is Some {
                1int
            } else {
                0int
            }),
            (if s.port_idx <= s.ports.len() {
                s.ports.len() - s.port_idx
            } else {
                0int
            }),
{
    match s.current {
        None => {
            if s.devices.len() > 0 {
                lemma_excluded_port_left_alone(
                    ScanView {
                        devices: s.devices.drop_last(),
                        current: Some(s.devices.last()),
                        port_idx: 0,
                        ..s
                    },
                    p,
                );
            }
        },
        Some(d) => {
            if s.port_idx >= s.ports.len() {
                lemma_excluded_port_left_alone(ScanView { current: None, ..s }, p);
            } else {
                let q = s.ports[s.port_idx];
                if s.skip.contains(q.port) || !static_match(d, q) {
                    lemma_excluded_port_left_alone(ScanView { port_idx: s.port_idx + 1, ..s }, p);
                } else if !supports_serial_identification(d) {
                    assert(q.port != p);
                    lemma_excluded_port_left_alone(
                        ScanView {
                            results: s.results.insert(q.port, d),
                            port_idx: s.port_idx + 1,
                            ..s
                        },
                        p,
                    );
                } else {
                    lemma_advance_frame(s);
                    assert(q.port != p);
                }
            }
        },
    }
}

/// Profiles are consumed last-configured-first: with no profile under scan,
/// the coordinator continues exactly as if the last remaining profile had
/// been taken up, starting from the first candidate port.
pub proof fn lemma_profiles_taken_lifo(s: ScanView)
    requires
        s.current is None,
        s.devices.len() > 0,
    ensures
        (advance_spec(s) == advance_spec(
            ScanView {
                devices: s.devices.drop_last(),
                current: Some(s.devices.last()),
                port_idx: 0,
                ..s
            },
        )),
{
}

impl ScanState {
    /// The assignment list binds each port at most once.
    pub open spec fn wf(&self) -> bool {
        unique_ports(self.results.deep_view())
    }

    /// Builds the coordinator's starting state from a loaded configuration
    /// and the discovered candidate ports: no assignments yet, the
    /// configured exclusion list in force, no profile under scan.
    pub fn from_config(config: USXConfig, ports: Vec<UsbPortInfoWithPort>) -> (s: ScanState)
        ensures
            s.wf(),
            (s@ == ScanView {
                devices: (match config.devices {
                    Some(v) => v.deep_view(),
                    None => Seq::empty(),
                }),
                ports: ports.deep_view(),
                skip: (match config.skip_ports {
                    Some(v) => v.deep_view(),
                    None => Seq::empty(),
                }),
                results: Map::empty(),
                current: None,
                port_idx: 0,
            }),
    {
        let devices = match config.devices {
            Some(v) => v,
            None => Vec::new(),
        };
        let skip_ports = match config.skip_ports {
            Some(v) => v,
            None => Vec::new(),
        };
        let s = ScanState {
            devices,
            ports,
            skip_ports,
            results: Vec::new(),
            current: None,
            port_idx: 0,
        };
        proof {
            assert(s.results.deep_view() =~= Seq::<AssignmentView>::empty());
        }
        s
    }

    /// Takes every step that needs no hardware, as [`advance_spec`]
    /// describes, and returns the probe the caller must perform next, or
    /// `Finished` when every profile has been processed.
    pub fn scan_advance(&mut self) -> (a: ScanAction)
        requires
            old(self).wf(),
        ensures
            final(self).wf(),
            final(self)@ == advance_spec(old(self)@).0,
            (match a {
                ScanAction::Probe(i) => advance_spec(old(self)@).1 == Some(i as int),
                ScanAction::Finished => advance_spec(old(self)@).1 is None,
            }),
            (a matches ScanAction::Probe(i) ==> {
                &&& (i as int) < final(self)@.ports.len()
                &&& final(self)@.port_idx == i as int
                &&& final(self)@.current is Some
                &&& supports_serial_identification(final(self)@.current->0)
                &&& static_match(final(self)@.current->0, final(self)@.ports[i as int])
                &&& !final(self)@.skip.contains(final(self)@.ports[i as int].port)
            }),
    {
        loop
            invariant
                self.wf(),
                advance_spec(self@) == advance_spec(old(self)@),
            decreases
                    2 * self.devices@.len() + (if self.current is Some {
                        1int
                    } else {
                        0int
                    }),
                    (if self.port_idx <= self.ports@.len() {
                        self.ports@.len() - self.port_idx
                    } else {
                        0int
                    }),
        {
            let ghost pre = self@;
            if self.current.is_none() {
                if self.devices.len() == 0 {
                    proof {
                        assert(self.devices.deep_view() =~= Seq::<DeviceView>::empty());
                        assert(advance_spec(pre) == (pre, None::<int>));
                    }
                    return ScanAction::Finished;
                }
                let d = self.devices.pop().unwrap();
                self.current = Some(d);
                self.port_idx = 0;
                proof {
                    assert(self.devices.deep_view() =~= pre.devices.drop_last());
                    assert(d.deep_view() == pre.devices.last());
                    assert(self@ =~= ScanView {
                        devices: pre.devices.drop_last(),
                        current: Some(pre.devices.last()),
                        port_idx: 0,
                        ..pre
                    });
                }
            } else {
                if self.port_idx >= self.ports.len() {
                    self.current = None;
                    proof {
                        assert(self@ =~= ScanView { current: None, ..pre });
                    }
                } else {
                    let idx = self.port_idx;
                    proof {
                        assert(self.ports.deep_view()[idx as int] == self.ports@[idx as int]@);
                    }
                    let in_skip = contains_string(&self.skip_ports, &self.ports[idx].port);
                    let cur = self.current.as_ref().unwrap();
                    let ghost d = pre.current->0;
                    let ghost p = pre.ports[idx as int];
                    proof {
                        assert(cur@ == d);
                        assert(self.ports@[idx as int]@ == p);
                    }
                    let matched = cur.matches_port(&self.ports[idx]);
                    let can_serial = cur.can_identify_through_serial();
                    if in_skip || !matched {
                        self.port_idx = idx + 1;
                        proof {
                            assert(self@ =~= ScanView { port_idx: pre.port_idx + 1, ..pre });
                        }
                    } else if !can_serial {
                        let dup = self.current.as_ref().unwrap().duplicate();
                        record_assignment(&mut self.results, &self.ports[idx].port, dup);
                        self.port_idx = idx + 1;
                        proof {
                            assert(self@ =~= ScanView {
                                results: pre.results.insert(p.port, d),
                                port_idx: pre.port_idx + 1,
                                ..pre
                            });
                        }
                    } else {
                        proof {
                            assert(advance_spec(pre) == (pre, Some(idx as int)));
                        }
                        return ScanAction::Probe(idx);
                    }
                }
            }
        }
    }

    /// Records the outcome of the probe that [`ScanState::scan_advance`]
    /// asked for. On success the port joins the exclusion set, the profile
    /// under scan is assigned to it, and the profile is done (first
    /// successful match wins); on failure the scan moves to the next
    /// candidate port.
    pub fn scan_probe_result(&mut self, success: bool)
        requires
            old(self).wf(),
            old(self).current is Some,
            (old(self).port_idx as int) < old(self).ports@.len(),
        ensures
            final(self).wf(),
            (success ==> final(self)@ == ScanView {
                skip: old(self)@.skip.push(old(self)@.ports[old(self)@.port_idx].port),
                results: old(self)@.results.insert(
                    old(self)@.ports[old(self)@.port_idx].port,
                    old(self)@.current->0,
                ),
                current: None,
                port_idx: 0,
                ..old(self)@
            }),
            (!success ==> final(self)@ == ScanView { port_idx: old(self)@.port_idx + 1, ..old(
                self,
            )@ }),
    {
        let ghost pre = self@;
        if success {
            let idx = self.port_idx;
            proof {
                assert(self.ports.deep_view()[idx as int] == self.ports@[idx as int]@);
            }
            let d = self.current.take().unwrap();
            proof {
                assert(d@ == pre.current->0);
            }
            let claimed = self.ports[idx].port.clone();
            self.skip_ports.push(claimed);
            record_assignment(&mut self.results, &self.ports[idx].port, d);
            self.port_idx = 0;
            proof {
                assert(self.skip_ports.deep_view() =~= pre.skip.push(
                    pre.ports[pre.port_idx].port,
                ));
                assert(self@ =~= ScanView {
                    skip: pre.skip.push(pre.ports[pre.port_idx].port),
                    results: pre.results.insert(pre.ports[pre.port_idx].port, pre.current->0),
                    current: None,
                    port_idx: 0,
                    ..pre
                });
            }
        } else {
            let n = self.ports.len();
            proof {
                assert(self.port_idx < n);
            }
            self.port_idx = self.port_idx + 1;
            proof {
                assert(self@ =~= ScanView { port_idx: pre.port_idx + 1, ..pre });
            }
        }
    }
}

} // verus!
