use serial_mcp_server::tools::helpers::{
    find_subslice, parse_encoding, parse_open_args, parse_parity,
};
use serial_mcp_server::tools::types::OpenArgs;

#[test]
fn handler_open_args_parsed_strictly() {
    let args = OpenArgs {
        port: "/dev/ttyUSB0".into(),
        baud_rate: 115200,
        data_bits: "8".into(),
        stop_bits: "1".into(),
        parity: "none".into(),
        flow_control: "none".into(),
    };
    let config = parse_open_args(args).unwrap();
    assert_eq!(config.port, "/dev/ttyUSB0");
    assert_eq!(config.baud_rate, 115200);
}

#[test]
fn handler_open_args_reject_invalid_data_bits() {
    let args = OpenArgs {
        port: "X".into(),
        baud_rate: 9600,
        data_bits: "9".into(),
        stop_bits: "1".into(),
        parity: "none".into(),
        flow_control: "none".into(),
    };
    let err = parse_open_args(args).unwrap_err();
    assert!(err.contains("data_bits"));
}

#[test]
fn handler_open_args_reject_invalid_parity() {
    assert!(parse_parity("weird").is_err());
    assert!(parse_parity("none").is_ok());
    assert!(parse_parity("Even").is_ok());
}

#[test]
fn handler_parse_encoding_rejects_garbage() {
    assert!(parse_encoding("rot13").is_err());
    assert!(parse_encoding("utf-8").is_ok());
}

#[test]
fn handler_find_subslice_locates_pattern() {
    assert_eq!(find_subslice(b"hello OK> world", b"OK>"), Some(6));
    assert_eq!(find_subslice(b"OK>at-start", b"OK>"), Some(0));
    assert_eq!(find_subslice(b"trailing OK>", b"OK>"), Some(9));
}

#[test]
fn handler_find_subslice_missing_returns_none() {
    assert_eq!(find_subslice(b"hello world", b"OK>"), None);
    assert_eq!(find_subslice(b"", b"x"), None);
}

#[test]
fn handler_find_subslice_empty_needle_returns_none() {
    assert_eq!(find_subslice(b"hello", b""), None);
}

#[test]
fn handler_find_subslice_needle_longer_than_haystack() {
    assert_eq!(find_subslice(b"hi", b"hello"), None);
}
