use serial_mcp_server::serial::{
    describe_port, ensure_valid_baud_rate, format_hardware_id, ConnectionManager, PortInfo,
    PortKind, MAX_BAUD_RATE,
};
use serial_mcp_server::SerialError;

#[test]
fn baud_rate_zero_rejected() {
    assert!(matches!(
        ensure_valid_baud_rate(0),
        Err(SerialError::InvalidBaudRate(0))
    ));
}

#[test]
fn baud_rate_over_max_rejected() {
    assert!(matches!(
        ensure_valid_baud_rate(MAX_BAUD_RATE + 1),
        Err(SerialError::InvalidBaudRate(_))
    ));
}

#[test]
fn baud_rate_within_range_accepted() {
    assert!(ensure_valid_baud_rate(115200).is_ok());
    assert!(ensure_valid_baud_rate(1).is_ok());
    assert!(ensure_valid_baud_rate(MAX_BAUD_RATE).is_ok());
}

// ---- further cases ----------------------------------------------------------

#[test]
fn invalid_baud_rate_message_names_the_rate() {
    let e = ensure_valid_baud_rate(0).unwrap_err();
    assert_eq!(e.message(), "Invalid baud rate: 0");
    let e = ensure_valid_baud_rate(4_000_001).unwrap_err();
    assert_eq!(e.message(), "Invalid baud rate: 4000001");
}

#[test]
fn serial_error_messages() {
    assert_eq!(
        SerialError::PortAlreadyOpen("COM3".into()).message(),
        "Port already open: COM3"
    );
    assert_eq!(
        SerialError::ConnectionNotFound("abc".into()).message(),
        "Connection not found: abc"
    );
    assert_eq!(
        SerialError::OpenFailed("/dev/ttyX: busy".into()).message(),
        "Failed to open port: /dev/ttyX: busy"
    );
}

#[test]
fn usb_port_hardware_id_and_description() {
    let kind = PortKind::Usb {
        vid: 0x2341,
        pid: 0x0043,
        manufacturer: Some("Arduino".into()),
        product: None,
    };
    assert_eq!(
        format_hardware_id(&kind).unwrap(),
        "USB VID:2341 PID:0043"
    );
    assert_eq!(describe_port(&kind), "Arduino USB Serial Device");
    let kind = PortKind::Usb {
        vid: 0xABCD,
        pid: 0x00ef,
        manufacturer: None,
        product: Some("CP2102".into()),
    };
    assert_eq!(format_hardware_id(&kind).unwrap(), "USB VID:ABCD PID:00EF");
    assert_eq!(describe_port(&kind), "Unknown CP2102");
}

#[test]
fn other_port_kinds() {
    assert_eq!(format_hardware_id(&PortKind::Pci).unwrap(), "PCI");
    assert_eq!(format_hardware_id(&PortKind::Bluetooth).unwrap(), "Bluetooth");
    assert!(format_hardware_id(&PortKind::Unknown).is_none());
    assert_eq!(describe_port(&PortKind::Pci), "PCI Serial Port");
    assert_eq!(describe_port(&PortKind::Bluetooth), "Bluetooth Serial Port");
    assert_eq!(describe_port(&PortKind::Unknown), "Serial Port");
    let info = PortInfo::from_os("/dev/ttyS0".into(), &PortKind::Unknown);
    assert_eq!(info.name, "/dev/ttyS0");
    assert_eq!(info.description, "Serial Port");
    assert!(info.hardware_id.is_none());
}

#[test]
fn registry_refuses_second_open_of_a_port() {
    let mut m: ConnectionManager<u32> = ConnectionManager::new();
    assert_eq!(m.count(), 0);
    let id = m.open("COM3".into(), 7).unwrap();
    assert_eq!(id.len(), 36);
    assert!(m.is_port_in_use("COM3"));
    match m.open("COM3".into(), 8) {
        Err(SerialError::PortAlreadyOpen(p)) => assert_eq!(p, "COM3"),
        _ => panic!("second open of the same port must be refused"),
    }
    assert_eq!(m.count(), 1);
    assert_eq!(*m.get(&id).unwrap(), 7);
}

#[test]
fn registry_close_frees_the_port() {
    let mut m: ConnectionManager<u32> = ConnectionManager::new();
    let a = m.open("COM3".into(), 1).unwrap();
    let b = m.open("COM4".into(), 2).unwrap();
    assert_ne!(a, b);
    assert_eq!(m.count(), 2);
    assert!(m.close(&a).is_ok());
    assert!(!m.is_port_in_use("COM3"));
    assert!(matches!(m.get(&a), Err(SerialError::ConnectionNotFound(_))));
    assert_eq!(*m.get(&b).unwrap(), 2);
    match m.close(&a) {
        Err(SerialError::ConnectionNotFound(id)) => assert_eq!(id, a),
        _ => panic!("closing twice must fail"),
    }
    let c = m.open("COM3".into(), 3).unwrap();
    assert_eq!(*m.get(&c).unwrap(), 3);
    let open = m.list_open();
    assert_eq!(open.len(), 2);
    assert!(open.iter().any(|s| s.connection_id == b && s.port == "COM4"));
    assert!(open.iter().any(|s| s.connection_id == c && s.port == "COM3"));
    assert!(open.iter().all(|s| s.latest_read.is_none()));
}
