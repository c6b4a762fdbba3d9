use lvast::base::system::{
    filter_serial_and_bluetooth_ports, is_serial_or_bluetooth_port, HostPlatform, SerialPortEntry,
    SerialPortKind,
};

#[test]
fn known_port_types_are_always_usable() {
    for platform in [HostPlatform::Linux, HostPlatform::Windows, HostPlatform::Other] {
        assert!(is_serial_or_bluetooth_port(SerialPortKind::Usb, "/dev/ttyS0", platform));
        assert!(is_serial_or_bluetooth_port(SerialPortKind::Pci, "x", platform));
        assert!(is_serial_or_bluetooth_port(SerialPortKind::Bluetooth, "", platform));
    }
}

#[test]
fn linux_keeps_pluggable_device_names_only() {
    let linux = HostPlatform::Linux;
    assert!(is_serial_or_bluetooth_port(SerialPortKind::Unknown, "/dev/ttyUSB0", linux));
    assert!(is_serial_or_bluetooth_port(SerialPortKind::Unknown, "/dev/ttyACM1", linux));
    assert!(is_serial_or_bluetooth_port(SerialPortKind::Unknown, "/dev/rfcomm0", linux));
    assert!(!is_serial_or_bluetooth_port(SerialPortKind::Unknown, "/dev/ttyS0", linux));
    assert!(!is_serial_or_bluetooth_port(SerialPortKind::Unknown, "/dev/ttyAMA0", linux));
    assert!(!is_serial_or_bluetooth_port(SerialPortKind::Unknown, "/dev/ttyUS", linux));
    assert!(!is_serial_or_bluetooth_port(SerialPortKind::Unknown, "COM3", linux));
}

#[test]
fn windows_keeps_com_ports_in_any_case() {
    let windows = HostPlatform::Windows;
    assert!(is_serial_or_bluetooth_port(SerialPortKind::Unknown, "COM3", windows));
    assert!(is_serial_or_bluetooth_port(SerialPortKind::Unknown, "com10", windows));
    assert!(is_serial_or_bluetooth_port(SerialPortKind::Unknown, "cOm", windows));
    assert!(!is_serial_or_bluetooth_port(SerialPortKind::Unknown, "CO", windows));
    assert!(!is_serial_or_bluetooth_port(SerialPortKind::Unknown, "LPT1", windows));
    assert!(!is_serial_or_bluetooth_port(SerialPortKind::Unknown, "/dev/ttyUSB0", windows));
    assert!(!is_serial_or_bluetooth_port(SerialPortKind::Unknown, "COM3", HostPlatform::Other));
}

fn entry(name: &str, kind: SerialPortKind) -> SerialPortEntry {
    SerialPortEntry { port_name: name.to_string(), port_type: kind }
}

#[test]
fn port_filter_keeps_order_and_leaves_other_platforms_alone() {
    let ports = vec![
        entry("/dev/ttyS0", SerialPortKind::Unknown),
        entry("/dev/ttyUSB0", SerialPortKind::Unknown),
        entry("/dev/ttyAMA0", SerialPortKind::Unknown),
        entry("/dev/ttyS1", SerialPortKind::Bluetooth),
        entry("/dev/rfcomm0", SerialPortKind::Unknown),
    ];
    let kept = filter_serial_and_bluetooth_ports(ports.clone(), HostPlatform::Linux);
    let names: Vec<&str> = kept.iter().map(|p| p.port_name.as_str()).collect();
    assert_eq!(names, vec!["/dev/ttyUSB0", "/dev/ttyS1", "/dev/rfcomm0"]);

    let all = filter_serial_and_bluetooth_ports(ports, HostPlatform::Other);
    assert_eq!(all.len(), 5);
    assert_eq!(all[0].port_name, "/dev/ttyS0");
}
