use serial_mcp_server::codec::Encoding;
use serial_mcp_server::serial::{DataBits, FlowControl, Parity, StopBits};
use serial_mcp_server::tools::helpers::{
    build_read_result, clamp_or_err, clamp_poll_interval_or_err, clamp_timeout_or_err,
    find_subslice, log_tool_err, lookup_failure_message, parse_data_bits, parse_encoding, parse_flow_control,
    parse_open_args, parse_parity, parse_stop_bits, require_min_or_err, ReadOutcome,
    DEFAULT_READ_TIMEOUT_MS, MAX_READ_BYTES, MAX_TIMEOUT_MS, MAX_WRITE_BYTES,
    MIN_POLL_INTERVAL_MS,
};
use serial_mcp_server::tools::types::OpenArgs;

#[test]
fn helpers_open_args_parsed_strictly() {
    let args = OpenArgs {
        port: "/dev/ttyUSB0".into(),
        baud_rate: 115200,
        data_bits: "8".into(),
        stop_bits: "1".into(),
        parity: "none".into(),
        flow_control: "none".into(),
    };
    let config = parse_open_args(args).unwrap();
    assert_eq!(config.port, "/dev/ttyUSB0");
    assert_eq!(config.baud_rate, 115200);
}

#[test]
fn helpers_open_args_reject_invalid_data_bits() {
    let args = OpenArgs {
        port: "X".into(),
        baud_rate: 9600,
        data_bits: "9".into(),
        stop_bits: "1".into(),
        parity: "none".into(),
        flow_control: "none".into(),
    };
    let err = parse_open_args(args).unwrap_err();
    assert!(err.contains("data_bits"));
}

#[test]
fn helpers_open_args_reject_invalid_parity() {
    assert!(parse_parity("weird").is_err());
    assert!(parse_parity("none").is_ok());
    assert!(parse_parity("Even").is_ok());
}

#[test]
fn helpers_parse_encoding_rejects_garbage() {
    assert!(parse_encoding("rot13").is_err());
    assert!(parse_encoding("utf-8").is_ok());
}

#[test]
fn build_read_result_timeout_returns_err() {
    let outcome = ReadOutcome {
        bytes: Vec::new(),
        timed_out: true,
        elapsed_ms: 250,
    };
    match build_read_result(outcome, "abc".into(), Encoding::Utf8, Some(250)) {
        Err(err) => {
            assert!(err.contains("timed out"));
            assert!(err.contains("250ms"));
        }
        Ok(_) => panic!("timeout must return Err"),
    }
}

#[test]
fn helpers_build_read_result_timeout_uses_default() {
    let outcome = ReadOutcome {
        bytes: Vec::new(),
        timed_out: true,
        elapsed_ms: DEFAULT_READ_TIMEOUT_MS,
    };
    match build_read_result(outcome, "abc".into(), Encoding::Hex, None) {
        Err(err) => {
            assert!(err.contains("timed out"));
            assert!(err.contains(&DEFAULT_READ_TIMEOUT_MS.to_string()));
        }
        Ok(_) => panic!("timeout must return Err"),
    }
}

#[test]
fn helpers_build_read_result_data_branch_encodes_hex() {
    let outcome = ReadOutcome {
        bytes: b"Hi".to_vec(),
        timed_out: false,
        elapsed_ms: 42,
    };
    let result = build_read_result(outcome, "abc".into(), Encoding::Hex, Some(500))
        .expect("data result must build");
    assert_eq!(result.bytes_read, 2);
    assert_eq!(result.encoding, "hex");
    assert_eq!(result.data, "48 69");
    assert_eq!(result.elapsed_ms, 42);
}

#[test]
fn helpers_find_subslice_locates_pattern() {
    assert_eq!(find_subslice(b"hello OK> world", b"OK>"), Some(6));
    assert_eq!(find_subslice(b"OK>at-start", b"OK>"), Some(0));
    assert_eq!(find_subslice(b"trailing OK>", b"OK>"), Some(9));
}

#[test]
fn helpers_find_subslice_missing_returns_none() {
    assert_eq!(find_subslice(b"hello world", b"OK>"), None);
    assert_eq!(find_subslice(b"", b"x"), None);
}

#[test]
fn helpers_find_subslice_empty_needle_returns_none() {
    assert_eq!(find_subslice(b"hello", b""), None);
}

#[test]
fn helpers_find_subslice_needle_longer_than_haystack() {
    assert_eq!(find_subslice(b"hi", b"hello"), None);
}

#[test]
fn clamp_or_err_rejects_oversized_values() {
    assert!(clamp_or_err("test.max_bytes", 1024 * 1024, MAX_READ_BYTES).is_ok());
    assert!(clamp_or_err("test.max_bytes", 1024 * 1024 + 1, MAX_READ_BYTES).is_err());
    assert!(clamp_or_err("test.max_bytes", usize::MAX, MAX_WRITE_BYTES).is_err());
}

#[test]
fn clamp_timeout_or_err_rejects_oversized_timeout() {
    assert!(clamp_timeout_or_err("test.timeout_ms", 1000, MAX_TIMEOUT_MS).is_ok());
    assert!(
        clamp_timeout_or_err("test.timeout_ms", MAX_TIMEOUT_MS + 1, MAX_TIMEOUT_MS).is_err()
    );
}

#[test]
fn clamp_poll_interval_or_err_rejects_undersized_interval() {
    assert!(clamp_poll_interval_or_err("test.poll_ms", 10, MIN_POLL_INTERVAL_MS).is_ok());
    assert!(clamp_poll_interval_or_err("test.poll_ms", 9, MIN_POLL_INTERVAL_MS).is_err());
    assert!(clamp_poll_interval_or_err("test.poll_ms", 0, MIN_POLL_INTERVAL_MS).is_err());
}

// ---- further cases ----------------------------------------------------------

#[test]
fn limit_messages_name_value_and_bound() {
    assert_eq!(
        clamp_or_err("read.max_bytes", 2_000_000, MAX_READ_BYTES).unwrap_err(),
        "read.max_bytes=2000000 exceeds maximum 1048576"
    );
    assert_eq!(
        clamp_timeout_or_err("read.timeout_ms", 300_001, MAX_TIMEOUT_MS).unwrap_err(),
        "read.timeout_ms=300001ms exceeds maximum 300000ms"
    );
    assert_eq!(
        clamp_poll_interval_or_err("subscribe.poll_interval_ms", 5, MIN_POLL_INTERVAL_MS)
            .unwrap_err(),
        "subscribe.poll_interval_ms=5ms is below minimum 10ms"
    );
    assert_eq!(
        require_min_or_err("read.max_bytes", 0, 1).unwrap_err(),
        "read.max_bytes=0 is below minimum 1"
    );
    assert_eq!(require_min_or_err("read.max_bytes", 1, 1).unwrap(), 1);
    assert_eq!(clamp_or_err("x", 7, 7).unwrap(), 7);
}

#[test]
fn find_subslice_reports_first_occurrence() {
    assert_eq!(find_subslice(b"abab", b"ab"), Some(0));
    assert_eq!(find_subslice(b"xxabab", b"ab"), Some(2));
    assert_eq!(find_subslice(b"aaa", b"aa"), Some(0));
    assert_eq!(find_subslice(b"ab", b"ab"), Some(0));
}

#[test]
fn line_settings_parse_each_value() {
    assert_eq!(parse_data_bits("5").unwrap(), DataBits::Five);
    assert_eq!(parse_data_bits("6").unwrap(), DataBits::Six);
    assert_eq!(parse_data_bits("7").unwrap(), DataBits::Seven);
    assert_eq!(parse_data_bits("8").unwrap(), DataBits::Eight);
    assert_eq!(parse_stop_bits("1").unwrap(), StopBits::One);
    assert_eq!(parse_stop_bits("2").unwrap(), StopBits::Two);
    assert_eq!(parse_parity("ODD").unwrap(), Parity::Odd);
    assert_eq!(parse_parity("even").unwrap(), Parity::Even);
    assert_eq!(parse_parity("None").unwrap(), Parity::NoParity);
    assert_eq!(parse_flow_control("none").unwrap(), FlowControl::NoFlowControl);
    assert_eq!(parse_flow_control("Software").unwrap(), FlowControl::Software);
    assert_eq!(parse_flow_control("HARDWARE").unwrap(), FlowControl::Hardware);
}

#[test]
fn line_setting_errors_quote_the_value() {
    assert_eq!(
        parse_data_bits("9").unwrap_err(),
        "Invalid data_bits \"9\" (expected 5/6/7/8)"
    );
    assert_eq!(
        parse_stop_bits("1.5").unwrap_err(),
        "Invalid stop_bits \"1.5\" (expected 1/2)"
    );
    assert_eq!(
        parse_parity("Mark").unwrap_err(),
        "Invalid parity \"mark\" (expected none/odd/even)"
    );
    assert_eq!(
        parse_flow_control("rts").unwrap_err(),
        "Invalid flow_control \"rts\" (expected none/software/hardware)"
    );
}

#[test]
fn open_args_first_bad_field_wins() {
    let args = OpenArgs {
        port: "COM1".into(),
        baud_rate: 9600,
        data_bits: "8".into(),
        stop_bits: "3".into(),
        parity: "weird".into(),
        flow_control: "none".into(),
    };
    assert!(parse_open_args(args).unwrap_err().contains("stop_bits"));
    let args = OpenArgs {
        port: "COM1".into(),
        baud_rate: 9600,
        data_bits: "7".into(),
        stop_bits: "2".into(),
        parity: "odd".into(),
        flow_control: "software".into(),
    };
    let c = parse_open_args(args).unwrap();
    assert_eq!(c.data_bits, DataBits::Seven);
    assert_eq!(c.stop_bits, StopBits::Two);
    assert_eq!(c.parity, Parity::Odd);
    assert_eq!(c.flow_control, FlowControl::Software);
}

#[test]
fn unsupported_encoding_message() {
    assert_eq!(
        parse_encoding("rot13").unwrap_err(),
        "Unsupported encoding - Unknown encoding: rot13"
    );
    assert_eq!(parse_encoding("HEX").unwrap(), Encoding::Hex);
}

#[test]
fn tool_error_text() {
    assert_eq!(
        log_tool_err("write", "Data sending failed on abc", "broken pipe"),
        "Data sending failed on abc - broken pipe"
    );
}

#[test]
fn read_result_reports_requested_timeout() {
    let outcome = ReadOutcome {
        bytes: b"ok".to_vec(),
        timed_out: false,
        elapsed_ms: 3,
    };
    let r = build_read_result(outcome, "id1".into(), Encoding::Base64, None).unwrap();
    assert_eq!(r.timeout_ms, DEFAULT_READ_TIMEOUT_MS);
    assert_eq!(r.data, "b2s=");
    assert_eq!(r.connection_id, "id1");
    assert_eq!(r.encoding, "base64");
    let outcome = ReadOutcome {
        bytes: vec![0xff],
        timed_out: false,
        elapsed_ms: 3,
    };
    let e = build_read_result(outcome, "id1".into(), Encoding::Utf8, Some(10)).unwrap_err();
    assert!(e.starts_with("Data encoding failed - Invalid UTF-8: "));
    let outcome = ReadOutcome {
        bytes: Vec::new(),
        timed_out: true,
        elapsed_ms: 10,
    };
    assert_eq!(
        build_read_result(outcome, "id1".into(), Encoding::Utf8, Some(10)).unwrap_err(),
        "Read timed out after 10ms on id1"
    );
}

#[test]
fn unknown_connection_message() {
    assert_eq!(lookup_failure_message("abc"), "Connection ID abc not found");
}
