use serial_mcp_server::transport::{http_bind, use_http_transport, DEFAULT_HTTP_BIND};

fn args(v: &[&str]) -> Vec<String> {
    v.iter().map(|s| s.to_string()).collect()
}

#[test]
fn http_is_chosen_by_flag_or_environment() {
    assert!(use_http_transport(&args(&["serial-mcp", "--transport=http"]), None));
    assert!(use_http_transport(&args(&["serial-mcp", "--transport", "http"]), None));
    assert!(!use_http_transport(&args(&["serial-mcp", "--transport", "stdio"]), None));
    assert!(!use_http_transport(&args(&["serial-mcp", "--transport"]), None));
    assert!(!use_http_transport(&args(&["serial-mcp"]), None));
    assert!(use_http_transport(&args(&["serial-mcp"]), Some("http")));
    assert!(!use_http_transport(&args(&["serial-mcp"]), Some("HTTP")));
    assert!(!use_http_transport(&args(&[]), None));
    assert!(use_http_transport(&args(&[]), Some("http")));
}

#[test]
fn value_after_transport_flag_is_consumed() {
    assert!(!use_http_transport(&args(&["x", "--transport", "--transport=http"]), None));
    assert!(use_http_transport(&args(&["x", "--transport", "stdio", "--transport=http"]), None));
    assert!(!use_http_transport(&args(&["--transport=http"]), None));
}

#[test]
fn bind_address_defaults() {
    assert_eq!(http_bind(None), DEFAULT_HTTP_BIND);
    assert_eq!(http_bind(None), "127.0.0.1:8000");
    assert_eq!(http_bind(Some("0.0.0.0:9000".into())), "0.0.0.0:9000");
}
