use usx::device::{USXConfig, USXDevice, UsbPortInfoWithPort};
use usx::protocol::{decode_response, identification_outcome, read_step, ReadEvent};
use usx::scan::{ScanAction, ScanState};
use usx::text::{split_command_line, trim_str};

fn blank_device() -> USXDevice {
    USXDevice {
        baudrate: None,
        vendor_id: None,
        product_id: None,
        manufacturer: None,
        product: None,
        serial_number: None,
        serial_identification_command: None,
        serial_identification_command_expected_response: None,
        serial_commands_after_identification: None,
        system_commands_after_identification: None,
        serial_commands_output: None,
        system_commands_output: None,
    }
}

fn port(name: &str, vid: u16, pid: u16) -> UsbPortInfoWithPort {
    UsbPortInfoWithPort {
        port: name.to_string(),
        vid,
        pid,
        manufacturer: None,
        product: None,
        serial_number: None,
    }
}

fn state_of(devices: Vec<USXDevice>, skip: Option<Vec<String>>, ports: Vec<UsbPortInfoWithPort>) -> ScanState {
    let config = USXConfig {
        serial_connection_timeout_ms: 100,
        list_only: None,
        skip_ports: skip,
        devices: Some(devices),
    };
    ScanState::from_config(config, ports)
}

fn feed(buffer: &mut Vec<u8>, bytes: &[u8]) {
    for &b in bytes {
        if !read_step(buffer, ReadEvent::Byte(b)) {
            return;
        }
    }
}

#[test]
fn static_match_vendor_only() {
    let mut d = blank_device();
    d.vendor_id = Some(0x2341);
    let p = port("/dev/ttyACM0", 0x2341, 0x0043);
    assert!(d.matches_port(&p));
    let q = port("/dev/ttyACM1", 0x1a86, 0x7523);
    assert!(!d.matches_port(&q));
}

#[test]
fn static_match_wildcards_never_reject() {
    let d = blank_device();
    assert!(d.none_port_info());
    assert!(d.matches_port(&port("a", 1, 2)));
    assert!(d.matches_port(&port("b", 0xffff, 0)));
}

#[test]
fn static_match_string_attributes() {
    let mut d = blank_device();
    d.manufacturer = Some("Acme".to_string());
    let mut p = port("p", 1, 2);
    assert!(!d.matches_port(&p));
    p.manufacturer = Some("Acme".to_string());
    assert!(d.matches_port(&p));
    p.manufacturer = Some("acme".to_string());
    assert!(!d.matches_port(&p));
}

#[test]
fn static_match_idempotent() {
    let mut d = blank_device();
    d.product_id = Some(7);
    let p = port("p", 3, 7);
    let first = d.matches_port(&p);
    let second = d.matches_port(&p);
    assert_eq!(first, second);
    assert!(first);
}

#[test]
fn can_identify_needs_all_three() {
    let mut d = blank_device();
    assert!(!d.can_identify_through_serial());
    d.serial_identification_command = Some("ID?\n".to_string());
    d.serial_identification_command_expected_response = Some("ARDUINO".to_string());
    assert!(!d.can_identify_through_serial());
    d.baudrate = Some(9600);
    assert!(d.can_identify_through_serial());
}

#[test]
fn read_loop_stops_at_line_feed() {
    let mut buffer: Vec<u8> = Vec::new();
    feed(&mut buffer, b"ARDUINO\r\nEXTRA");
    assert_eq!(buffer, b"ARDUINO\r".to_vec());
}

#[test]
fn read_loop_stops_on_closed_and_failed() {
    let mut buffer: Vec<u8> = Vec::new();
    assert!(read_step(&mut buffer, ReadEvent::Byte(b'A')));
    assert!(!read_step(&mut buffer, ReadEvent::Closed));
    assert!(!read_step(&mut buffer, ReadEvent::Failed));
    assert_eq!(buffer, b"A".to_vec());
}

#[test]
fn response_is_decoded_and_trimmed() {
    let buffer = b"  ARDUINO\r".to_vec();
    assert_eq!(decode_response(&buffer), "ARDUINO");
}

#[test]
fn invalid_encoding_degrades_to_empty() {
    let buffer = vec![0xff, 0xfe, 0x41];
    assert_eq!(decode_response(&buffer), "");
    assert!(!identification_outcome(&buffer, "ARDUINO"));
}

#[test]
fn identification_compares_after_trim() {
    let buffer = b"ARDUINO\r".to_vec();
    assert!(identification_outcome(&buffer, "ARDUINO"));
    assert!(identification_outcome(&buffer, " ARDUINO \t"));
    assert!(!identification_outcome(&buffer, "UNKNOWN"));
    assert!(!identification_outcome(&b"ARDUIN".to_vec(), "ARDUINO"));
}

#[test]
fn trim_handles_edges() {
    assert_eq!(trim_str(""), "");
    assert_eq!(trim_str("   \t\r\n"), "");
    assert_eq!(trim_str("abc"), "abc");
    assert_eq!(trim_str(" a b "), "a b");
    assert_eq!(trim_str("\u{a0}x\u{3000}"), "x");
}

#[test]
fn split_command_line_words() {
    let toks = split_command_line("systemctl restart  foo.service");
    let toks: Vec<&str> = toks.iter().map(|s| s.as_str()).collect();
    assert_eq!(toks, vec!["systemctl", "restart", "foo.service"]);
    assert!(split_command_line("").is_empty());
    assert!(split_command_line("   ").is_empty());
    let toks = split_command_line("  one ");
    assert_eq!(toks.len(), 1);
    assert_eq!(toks[0], "one");
}

#[test]
fn escape_renders_control_characters() {
    let d = blank_device();
    assert_eq!(d.escape_string("ID?\n"), "ID?\\n");
    assert_eq!(d.escape_string("a\\b\"c'd\r\te"), "a\\\\b\\\"c\\'d\\r\\te");
    assert_eq!(d.escape_string("plain"), "plain");
}

#[test]
fn outputs_append_with_separator() {
    let mut d = blank_device();
    assert!(d.serial_commands_output.is_none());
    d.append_serial_output("OK");
    assert_eq!(d.serial_commands_output.as_deref(), Some("OK\n---\n"));
    d.append_serial_output("DONE");
    assert_eq!(d.serial_commands_output.as_deref(), Some("OK\n---\nDONE\n---\n"));
    d.append_system_output("out");
    assert_eq!(d.system_commands_output.as_deref(), Some("out\n---\n"));
}

#[test]
fn scenario_static_match_recorded_without_probing() {
    let mut d = blank_device();
    d.vendor_id = Some(0x2341);
    let ports = vec![port("/dev/ttyACM0", 0x2341, 0x0043)];
    let mut state = state_of(vec![d], None, ports);
    let action = state.scan_advance();
    assert!(matches!(action, ScanAction::Finished));
    assert_eq!(state.results.len(), 1);
    assert_eq!(state.results[0].port, "/dev/ttyACM0");
    assert_eq!(state.results[0].device.vendor_id, Some(0x2341));
    assert!(state.skip_ports.is_empty());
}

#[test]
fn scenario_serial_identification_success() {
    let mut d = blank_device();
    d.baudrate = Some(9600);
    d.serial_identification_command = Some("ID?\n".to_string());
    d.serial_identification_command_expected_response = Some("ARDUINO".to_string());
    let ports = vec![port("/dev/ttyUSB0", 0x1a86, 0x7523)];
    let mut state = state_of(vec![d], None, ports);

    let action = state.scan_advance();
    let idx = match action {
        ScanAction::Probe(i) => i,
        ScanAction::Finished => panic!("expected a probe"),
    };
    assert_eq!(idx, 0);

    let mut buffer: Vec<u8> = Vec::new();
    feed(&mut buffer, b"ARDUINO\r\n");
    let expected = state
        .current
        .as_ref()
        .unwrap()
        .serial_identification_command_expected_response
        .clone()
        .unwrap();
    let success = identification_outcome(&buffer, &expected);
    assert!(success);
    state.scan_probe_result(success);

    assert!(state.skip_ports.contains(&"/dev/ttyUSB0".to_string()));
    assert_eq!(state.results.len(), 1);
    assert_eq!(state.results[0].port, "/dev/ttyUSB0");
    assert!(matches!(state.scan_advance(), ScanAction::Finished));
}

#[test]
fn scenario_serial_identification_failure_moves_on() {
    let mut d = blank_device();
    d.baudrate = Some(9600);
    d.serial_identification_command = Some("ID?\n".to_string());
    d.serial_identification_command_expected_response = Some("ARDUINO".to_string());
    let ports = vec![port("/dev/ttyUSB0", 1, 2), port("/dev/ttyUSB1", 3, 4)];
    let mut state = state_of(vec![d], None, ports);

    let action = state.scan_advance();
    assert!(matches!(action, ScanAction::Probe(0)));
    let mut buffer: Vec<u8> = Vec::new();
    feed(&mut buffer, b"UNKNOWN\n");
    let success = identification_outcome(&buffer, "ARDUINO");
    assert!(!success);
    state.scan_probe_result(success);

    let action = state.scan_advance();
    assert!(matches!(action, ScanAction::Probe(1)));
    state.scan_probe_result(false);
    assert!(matches!(state.scan_advance(), ScanAction::Finished));
    assert!(state.results.is_empty());
    assert!(state.skip_ports.is_empty());
}

#[test]
fn scenario_wildcard_profile_takes_every_port() {
    let d = blank_device();
    let ports = vec![port("/dev/ttyUSB0", 1, 2), port("/dev/ttyUSB1", 3, 4)];
    let mut state = state_of(vec![d], None, ports);
    assert!(matches!(state.scan_advance(), ScanAction::Finished));
    assert_eq!(state.results.len(), 2);
    assert_eq!(state.results[0].port, "/dev/ttyUSB0");
    assert_eq!(state.results[1].port, "/dev/ttyUSB1");
}

#[test]
fn scenario_preconfigured_exclusion_blocks_only_match() {
    let mut d = blank_device();
    d.vendor_id = Some(5);
    let ports = vec![port("/dev/ttyS9", 5, 6)];
    let skip = Some(vec!["/dev/ttyS9".to_string()]);
    let mut state = state_of(vec![d], skip, ports);
    assert!(matches!(state.scan_advance(), ScanAction::Finished));
    assert!(state.results.is_empty());
}

#[test]
fn claimed_port_is_not_revisited() {
    // Configured order: wildcard first, serial profile last. The serial
    // profile is processed first (reverse order), claims the port, and the
    // wildcard profile processed afterwards must not see it.
    let wildcard = blank_device();
    let mut serial = blank_device();
    serial.baudrate = Some(9600);
    serial.serial_identification_command = Some("ID?\n".to_string());
    serial.serial_identification_command_expected_response = Some("OK".to_string());
    let ports = vec![port("/dev/ttyUSB0", 1, 2)];
    let mut state = state_of(vec![wildcard, serial], None, ports);

    let action = state.scan_advance();
    assert!(matches!(action, ScanAction::Probe(0)));
    assert!(state
        .current
        .as_ref()
        .unwrap()
        .can_identify_through_serial());
    state.scan_probe_result(true);

    assert!(matches!(state.scan_advance(), ScanAction::Finished));
    assert_eq!(state.results.len(), 1);
    assert_eq!(state.results[0].port, "/dev/ttyUSB0");
    assert!(state.results[0].device.can_identify_through_serial());
}

#[test]
fn profiles_processed_in_reverse_configured_order() {
    let mut a = blank_device();
    a.vendor_id = Some(1);
    a.baudrate = Some(9600);
    a.serial_identification_command = Some("A?\n".to_string());
    a.serial_identification_command_expected_response = Some("A".to_string());
    let mut b = blank_device();
    b.vendor_id = Some(1);
    b.baudrate = Some(9600);
    b.serial_identification_command = Some("B?\n".to_string());
    b.serial_identification_command_expected_response = Some("B".to_string());
    let ports = vec![port("/dev/ttyUSB0", 1, 2)];
    let mut state = state_of(vec![a, b], None, ports);

    // The profile configured last is attempted first.
    assert!(matches!(state.scan_advance(), ScanAction::Probe(0)));
    let cmd = state
        .current
        .as_ref()
        .unwrap()
        .serial_identification_command
        .clone()
        .unwrap();
    assert_eq!(cmd, "B?\n");
    state.scan_probe_result(false);
    assert!(matches!(state.scan_advance(), ScanAction::Probe(0)));
    let cmd = state
        .current
        .as_ref()
        .unwrap()
        .serial_identification_command
        .clone()
        .unwrap();
    assert_eq!(cmd, "A?\n");
    state.scan_probe_result(false);
    assert!(matches!(state.scan_advance(), ScanAction::Finished));
}

#[test]
fn replacing_an_assignment_keeps_ports_unique() {
    // Two wildcard profiles and one port: the later-processed profile
    // overwrites the earlier assignment instead of adding a second entry.
    let mut first = blank_device();
    first.product_id = Some(10);
    let mut second = blank_device();
    second.product_id = Some(10);
    second.manufacturer = None;
    let ports = vec![port("/dev/ttyUSB0", 9, 10)];
    let mut state = state_of(vec![first, second], None, ports);
    assert!(matches!(state.scan_advance(), ScanAction::Finished));
    assert_eq!(state.results.len(), 1);
    assert_eq!(state.results[0].port, "/dev/ttyUSB0");
}

#[test]
fn from_config_defaults_to_empty() {
    let config = USXConfig {
        serial_connection_timeout_ms: 500,
        list_only: Some(true),
        skip_ports: None,
        devices: None,
    };
    let mut state = ScanState::from_config(config, Vec::new());
    assert!(state.devices.is_empty());
    assert!(state.skip_ports.is_empty());
    assert!(matches!(state.scan_advance(), ScanAction::Finished));
    assert!(state.results.is_empty());
}
