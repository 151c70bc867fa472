use serial_bridge::ports::PortInfo;
use serial_bridge::ports::PortKind;
use serial_bridge::ports::header_line;
use serial_bridge::ports::port_report;
use serial_bridge::text::dec_string;
use serial_bridge::text::hex4_string;

#[test]
fn dec_string_exact() {
    assert_eq!(dec_string(0), "0");
    assert_eq!(dec_string(7), "7");
    assert_eq!(dec_string(9090), "9090");
    assert_eq!(dec_string(250000), "250000");
    assert_eq!(dec_string(u64::MAX), "18446744073709551615");
}

#[test]
fn hex4_string_exact() {
    assert_eq!(hex4_string(0), "0000");
    assert_eq!(hex4_string(0x04d8), "04d8");
    assert_eq!(hex4_string(0xffff), "ffff");
    assert_eq!(hex4_string(0x1a2b), "1a2b");
}

#[test]
fn header_counts() {
    assert_eq!(header_line(0), "No ports found.");
    assert_eq!(header_line(1), "Found 1 port:");
    assert_eq!(header_line(2), "Found 2 ports:");
    assert_eq!(header_line(12), "Found 12 ports:");
}

#[test]
fn empty_report() {
    assert_eq!(port_report(&Vec::new()), vec!["No ports found.".to_string()]);
}

#[test]
fn usb_port_report_exact() {
    let ports = vec![PortInfo {
        name: "/dev/ttyUSB0".to_string(),
        kind: PortKind::Usb {
            vid: 0x04d8,
            pid: 0xf5fe,
            serial_number: Some("A1B2".to_string()),
            manufacturer: Some("Acme".to_string()),
            product: Some("Widget".to_string()),
        },
    }];
    let lines = port_report(&ports);
    assert_eq!(
        lines,
        vec![
            "Found 1 port:".to_string(),
            "  /dev/ttyUSB0".to_string(),
            "    Type: USB".to_string(),
            "    VID:04d8 PID:f5fe".to_string(),
            "     Serial Number: A1B2".to_string(),
            "      Manufacturer: Acme".to_string(),
            "           Product: Widget".to_string(),
        ]
    );
}

#[test]
fn usb_port_without_descriptor_fields() {
    let ports = vec![PortInfo {
        name: "/dev/ttyACM0".to_string(),
        kind: PortKind::Usb {
            vid: 0,
            pid: 1,
            serial_number: None,
            manufacturer: None,
            product: None,
        },
    }];
    let lines = port_report(&ports);
    assert_eq!(lines[3], "    VID:0000 PID:0001");
    assert_eq!(lines[4], "     Serial Number: ");
    assert_eq!(lines[5], "      Manufacturer: ");
    assert_eq!(lines[6], "           Product: ");
}

#[test]
fn mixed_ports_report() {
    let ports = vec![
        PortInfo { name: "/dev/rfcomm0".to_string(), kind: PortKind::Bluetooth },
        PortInfo { name: "/dev/ttyS0".to_string(), kind: PortKind::Pci },
        PortInfo { name: "/dev/ttyX".to_string(), kind: PortKind::Unknown },
    ];
    let lines = port_report(&ports);
    assert_eq!(
        lines,
        vec![
            "Found 3 ports:".to_string(),
            "  /dev/rfcomm0".to_string(),
            "    Type: Bluetooth".to_string(),
            "  /dev/ttyS0".to_string(),
            "    Type: PCI".to_string(),
            "  /dev/ttyX".to_string(),
            "    Type: Unknown".to_string(),
        ]
    );
}
