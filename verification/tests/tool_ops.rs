use serial_mcp_server::codec::Encoding;
use serial_mcp_server::security::SecurityManager;
use serial_mcp_server::serial::{FlushTarget, PortInfo, PortKind};
use serial_mcp_server::tools::control_ops::{break_tick, check_break_duration, BreakTick};
use serial_mcp_server::tools::helpers::WaitOutcome;
use serial_mcp_server::tools::io_ops::{check_read_args, decode_write_payload, encoding_from_str};
use serial_mcp_server::tools::pattern_ops::{
    build_wait_for_result, check_wait_limits, prepare_wait_for,
};
use serial_mcp_server::tools::port_ops::{
    close_failure_message, list_ports_result, open_failure_message, prepare_open,
};
use serial_mcp_server::tools::stream_ops::{
    check_subscribe_args, collected_subscribe_result, streaming_subscribe_result,
};
use serial_mcp_server::tools::types::{
    default_break_duration_ms, default_data_bits, default_encoding, default_flow_control,
    default_flush_target, default_max_bytes, default_parity, default_stop_bits,
    default_subscribe_chunk_bytes, default_subscribe_poll_ms, default_wait_max_bytes,
    default_wait_timeout_ms, OpenArgs,
};
use serial_mcp_server::SerialError;

fn open_args(port: &str) -> OpenArgs {
    OpenArgs {
        port: port.into(),
        baud_rate: 9600,
        data_bits: "8".into(),
        stop_bits: "1".into(),
        parity: "none".into(),
        flow_control: "none".into(),
    }
}

#[test]
fn defaults_of_tool_arguments() {
    assert_eq!(default_data_bits(), "8");
    assert_eq!(default_stop_bits(), "1");
    assert_eq!(default_parity(), "none");
    assert_eq!(default_flow_control(), "none");
    assert_eq!(default_encoding(), "utf8");
    assert_eq!(default_max_bytes(), 1024);
    assert_eq!(default_flush_target(), FlushTarget::Both);
    assert_eq!(default_break_duration_ms(), 250);
    assert_eq!(default_wait_timeout_ms(), 2000);
    assert_eq!(default_wait_max_bytes(), 4096);
    assert_eq!(default_subscribe_chunk_bytes(), 1024);
    assert_eq!(default_subscribe_poll_ms(), 200);
}

#[test]
fn open_is_refused_outside_the_allowlist() {
    let sec = SecurityManager::from_allowlist_value("/dev/ttyUSB*");
    assert!(prepare_open(&sec, open_args("/dev/ttyUSB3")).is_ok());
    assert_eq!(
        prepare_open(&sec, open_args("COM3")).err().unwrap(),
        "Port 'COM3' is not in the allowlist. Allowed patterns: /dev/ttyUSB*"
    );
    let open = SecurityManager::from_allowlist_value("");
    let c = prepare_open(&open, open_args("COM3")).unwrap();
    assert_eq!(c.port, "COM3");
    assert_eq!(c.baud_rate, 9600);
}

#[test]
fn open_and_close_failure_messages() {
    let e = SerialError::PortAlreadyOpen("COM3".into());
    assert_eq!(
        open_failure_message("COM3", &e),
        "Failed to open port COM3 - Port already open: COM3"
    );
    let e = SerialError::ConnectionNotFound("zz".into());
    assert_eq!(
        close_failure_message("zz", &e),
        "Failed to close connection zz - Connection not found: zz"
    );
}

#[test]
fn list_ports_counts_ports() {
    let ports = vec![
        PortInfo::from_os("COM1".into(), &PortKind::Pci),
        PortInfo::from_os("COM2".into(), &PortKind::Unknown),
    ];
    let r = list_ports_result(ports);
    assert_eq!(r.count, 2);
    assert_eq!(r.ports[0].name, "COM1");
    assert_eq!(r.ports[1].description, "Serial Port");
}

#[test]
fn write_payload_is_decoded_and_bounded() {
    assert_eq!(decode_write_payload(Encoding::Hex, "41 42").unwrap(), b"AB");
    assert!(decode_write_payload(Encoding::Hex, "4")
        .err().unwrap()
        .starts_with("Data decoding failed - "));
    let big = "A".repeat(1024 * 1024 + 1);
    assert_eq!(
        decode_write_payload(Encoding::Utf8, &big).err().unwrap(),
        "write.data.len()=1048577 exceeds maximum 1048576"
    );
    assert_eq!(encoding_from_str("Base64").unwrap(), Encoding::Base64);
}

#[test]
fn read_arguments_are_checked() {
    assert_eq!(
        check_read_args(0, None).err().unwrap(),
        "read.max_bytes=0 is below minimum 1"
    );
    assert_eq!(
        check_read_args(1024 * 1024 + 1, None).err().unwrap(),
        "read.max_bytes=1048577 exceeds maximum 1048576"
    );
    assert_eq!(
        check_read_args(16, Some(300_001)).err().unwrap(),
        "read.timeout_ms=300001ms exceeds maximum 300000ms"
    );
    assert_eq!(check_read_args(16, Some(300_000)).unwrap(), 16);
}

#[test]
fn break_duration_and_ticks() {
    assert_eq!(check_break_duration(250).unwrap(), 250);
    assert_eq!(
        check_break_duration(300_001).err().unwrap(),
        "send_break.duration_ms=300001ms exceeds maximum 300000ms"
    );
    assert_eq!(break_tick(0, 250), BreakTick::Hold { elapsed_ms: 0 });
    assert_eq!(break_tick(249, 250), BreakTick::Hold { elapsed_ms: 249 });
    assert_eq!(break_tick(250, 250), BreakTick::Release);
    assert_eq!(break_tick(7, 0), BreakTick::Release);
}

#[test]
fn wait_for_plan_and_limits() {
    let plan = prepare_wait_for("4f4b3e", "hex", "utf8").unwrap();
    assert_eq!(plan.pattern, b"OK>");
    assert_eq!(plan.response_encoding, Encoding::Utf8);
    assert_eq!(
        prepare_wait_for("", "utf8", "utf8").err().unwrap(),
        "Pattern must not be empty"
    );
    assert_eq!(
        prepare_wait_for("x", "rot13", "utf8").err().unwrap(),
        "Unsupported encoding - Unknown encoding: rot13"
    );
    assert_eq!(
        prepare_wait_for("x", "utf8", "nope").err().unwrap(),
        "Unsupported encoding - Unknown encoding: nope"
    );
    assert!(prepare_wait_for("zz", "hex", "utf8")
        .err().unwrap()
        .starts_with("Pattern decoding failed - "));
    assert!(check_wait_limits(4096, 2000).is_ok());
    assert_eq!(
        check_wait_limits(0, 2000).err().unwrap(),
        "wait_for.max_bytes=0 is below minimum 1"
    );
    assert_eq!(
        check_wait_limits(10, 300_001).err().unwrap(),
        "wait_for.timeout_ms=300001ms exceeds maximum 300000ms"
    );
}

#[test]
fn wait_for_results() {
    let outcome = WaitOutcome {
        bytes: b"junk OK>".to_vec(),
        match_index: Some(5),
        timed_out: false,
    };
    let r = build_wait_for_result("c1".into(), outcome, Encoding::Hex, 1000).unwrap();
    assert!(r.matched);
    assert_eq!(r.match_index, Some(5));
    assert_eq!(r.bytes_read, 8);
    assert_eq!(r.data, "6a 75 6e 6b 20 4f 4b 3e");
    assert_eq!(r.response_encoding, "hex");
    let outcome = WaitOutcome {
        bytes: b"noise".to_vec(),
        match_index: None,
        timed_out: true,
    };
    let e = build_wait_for_result("c1".into(), outcome, Encoding::Utf8, 60).err().unwrap();
    assert!(e.contains("timed out"));
    assert!(e.contains("60ms"));
    assert_eq!(e, "Pattern wait timed out after 60ms on c1");
    let outcome = WaitOutcome {
        bytes: vec![b'.'; 4],
        match_index: None,
        timed_out: false,
    };
    let r = build_wait_for_result("c1".into(), outcome, Encoding::Utf8, 60).unwrap();
    assert!(!r.matched);
    assert_eq!(r.data, "....");
}

#[test]
fn subscribe_arguments_and_results() {
    let limits = check_subscribe_args(1024, 200, None).unwrap();
    assert_eq!(limits.chunk_bytes, 1024);
    assert_eq!(limits.poll_ms, 200);
    assert_eq!(
        check_subscribe_args(0, 200, None).err().unwrap(),
        "subscribe.max_chunk_bytes=0 is below minimum 1"
    );
    assert_eq!(
        check_subscribe_args(65537, 200, None).err().unwrap(),
        "subscribe.max_chunk_bytes=65537 exceeds maximum 65536"
    );
    assert_eq!(
        check_subscribe_args(16, 9, None).err().unwrap(),
        "subscribe.poll_interval_ms=9ms is below minimum 10ms"
    );
    assert_eq!(
        check_subscribe_args(16, 10, Some(300_001)).err().unwrap(),
        "subscribe.timeout_ms=300001ms exceeds maximum 300000ms"
    );
    let s = streaming_subscribe_result("c9".into(), Encoding::Utf8, &limits, true);
    assert!(s.replaced_previous);
    assert!(s.data.is_none() && s.timeout_ms.is_none());
    assert_eq!(s.encoding, "utf8");
    let c = collected_subscribe_result("c9".into(), Encoding::Base64, &limits, false, b"hi", 12, 500)
        .unwrap();
    assert_eq!(c.data.as_deref(), Some("aGk="));
    assert_eq!(c.bytes_read, Some(2));
    assert_eq!(c.elapsed_ms, Some(12));
    assert_eq!(c.timeout_ms, Some(500));
    assert!(collected_subscribe_result("c9".into(), Encoding::Utf8, &limits, false, &[0xff], 1, 5)
        .err().unwrap()
        .starts_with("Data encoding failed - "));
}
