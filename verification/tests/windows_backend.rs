use fastboot_flasher::winusb::{
    is_fastboot_interface, parse_current_slot_value, wide_slice_to_string, AdbWinApiFastbootOpenError,
    AdbWinApiProbeDetail, UsbInterfaceDescriptor, interface_name_from_entry};

#[test]
fn is_fastboot_interface_requires_the_expected_descriptor_shape() {
    let fastboot = UsbInterfaceDescriptor {
        b_length: 0,
        b_descriptor_type: 0,
        b_interface_number: 0,
        b_alternate_setting: 0,
        b_num_endpoints: 2,
        b_interface_class: 0xff,
        b_interface_sub_class: 0x42,
        b_interface_protocol: 0x03,
        i_interface: 0,
    };
    assert!(is_fastboot_interface(&fastboot));

    let mut not_fastboot = fastboot;
    not_fastboot.b_num_endpoints = 1;
    assert!(!is_fastboot_interface(&not_fastboot));
}

#[test]
fn wide_slice_to_string_stops_at_terminator_and_rejects_missing_null() {
    let decoded = wide_slice_to_string(&[0x41, 0x42, 0x00, 0x43]).unwrap();
    assert_eq!(decoded, "AB");

    let error = wide_slice_to_string(&[0x41, 0x42, 0x43]).unwrap_err();
    assert!(error.contains("unterminated"));
}

#[test]
fn wide_slice_to_string_decodes_pairs_and_rejects_lone_surrogates() {
    let decoded = wide_slice_to_string(&[0xD83D, 0xDE00, 0x0031, 0x0000]).unwrap();
    assert_eq!(decoded, "\u{1F600}1");

    let error = wide_slice_to_string(&[0xDC00, 0x0000]).unwrap_err();
    assert_eq!(error, "invalid utf-16: lone surrogate found");

    assert_eq!(wide_slice_to_string(&[0x0000]).unwrap(), "");
}

#[test]
fn interface_enumeration_failure_reports_probe_detail() {
    let error = AdbWinApiFastbootOpenError::InterfaceEnumerationFailed {
        path: r"C:\Android\platform-tools\AdbWinApi.dll".to_string(),
        error: "boom".to_string(),
    };

    let detail = error.detail().unwrap();
    assert_eq!(
        detail,
        AdbWinApiProbeDetail::EnumeratingInterfaces {
            source: r"C:\Android\platform-tools\AdbWinApi.dll".to_string(),
        }
    );
    assert!(error.message().contains("failed to enumerate Android USB interfaces"));
}

#[test]
fn probe_details_and_open_errors_have_fixed_messages() {
    let missing = AdbWinApiProbeDetail::DllMissing {
        searched: vec!["C:\\a\\AdbWinApi.dll".to_string(), "C:\\b\\AdbWinApi.dll".to_string()],
    };
    assert_eq!(
        missing.message(),
        "AdbWinApi.dll not found; searched C:\\a\\AdbWinApi.dll, C:\\b\\AdbWinApi.dll"
    );
    assert_eq!(
        AdbWinApiProbeDetail::NoFastbootInterface.message(),
        "AdbWinApi found Android USB interfaces but none matched fastboot"
    );
    let descriptor = AdbWinApiFastbootOpenError::DescriptorReadFailed { name: "usb0".to_string(), error: "gone".to_string() };
    assert!(descriptor.detail().is_none());
    assert_eq!(descriptor.message(), "failed to read USB descriptors for usb0: gone");
    let dll = AdbWinApiFastbootOpenError::DllMissing { searched: vec!["x".to_string()] };
    assert_eq!(dll.detail(), Some(AdbWinApiProbeDetail::DllMissing { searched: vec!["x".to_string()] }));
}

#[test]
fn parse_current_slot_value_accepts_common_variants() {
    assert_eq!(parse_current_slot_value("_A").unwrap(), "a");
    assert_eq!(parse_current_slot_value(" b ").unwrap(), "b");
    assert_eq!(parse_current_slot_value("__B").unwrap(), "b");
}

#[test]
fn parse_current_slot_value_rejects_unknown_values() {
    let error = parse_current_slot_value("other").unwrap_err();
    assert!(error.contains("unsupported slot value"));
    assert_eq!(parse_current_slot_value(" _Other ").unwrap_err(), "unsupported slot value: Other");
}

fn interface_record(name: &[u16], trailing: &[u8]) -> Vec<u8> {
    let mut entry = vec![0x11u8; 16];
    entry.extend_from_slice(&[1, 0, 0, 0]);
    for word in name {
        entry.extend_from_slice(&word.to_le_bytes());
    }
    entry.extend_from_slice(trailing);
    entry
}

#[test]
fn interface_names_are_read_up_to_their_terminator() {
    let name: Vec<u16> = "\\?\\usb#vid_0e8d".encode_utf16().chain([0u16, 0x41]).collect();
    let entry = interface_record(&name, &[]);
    assert_eq!(interface_name_from_entry(&entry), Ok("\\?\\usb#vid_0e8d".to_string()));
}

#[test]
fn interface_records_that_are_too_short_or_odd_are_refused() {
    assert_eq!(
        interface_name_from_entry(&[0u8; 23]),
        Err("interface info shorter than minimum size: 23 bytes".to_string())
    );
    let odd = interface_record(&[0x41, 0x42], &[7]);
    assert_eq!(
        interface_name_from_entry(&odd),
        Err("interface name buffer had odd length: 5 bytes".to_string())
    );
}

#[test]
fn interface_names_need_a_terminator_and_valid_utf16() {
    let unterminated = interface_record(&[0x41, 0x42], &[]);
    assert_eq!(
        interface_name_from_entry(&unterminated),
        Err("unterminated UTF-16 interface name".to_string())
    );
    let lone = interface_record(&[0xD800, 0x41, 0], &[]);
    assert_eq!(
        interface_name_from_entry(&lone),
        Err("invalid utf-16: lone surrogate found".to_string())
    );
}
