use serial_mcp_server::resources::{parse_resource_uri, ResourceUriKind};

#[test]
fn mod_resource_uri_known_targets() {
    assert_eq!(parse_resource_uri("serial://ports"), ResourceUriKind::Ports);
    assert_eq!(
        parse_resource_uri("serial://connections"),
        ResourceUriKind::ConnectionsList
    );
    assert_eq!(
        parse_resource_uri("serial://connections/abc-123"),
        ResourceUriKind::ConnectionDetail("abc-123".into())
    );
    assert_eq!(
        parse_resource_uri("serial://connections/abc-123/raw"),
        ResourceUriKind::ConnectionDetailRaw("abc-123".into())
    );
}

#[test]
fn mod_resource_uri_unknown_targets() {
    assert_eq!(
        parse_resource_uri("serial://other"),
        ResourceUriKind::Unknown
    );
    assert_eq!(
        parse_resource_uri("serial://connections/"),
        ResourceUriKind::Unknown
    );
    assert_eq!(
        parse_resource_uri("serial://connections//raw"),
        ResourceUriKind::Unknown
    );
    assert_eq!(
        parse_resource_uri("serial://connections/abc/extra"),
        ResourceUriKind::Unknown
    );
    assert_eq!(
        parse_resource_uri("https://example.com"),
        ResourceUriKind::Unknown
    );
}

#[test]
fn handler_resource_uri_known_targets() {
    assert_eq!(parse_resource_uri("serial://ports"), ResourceUriKind::Ports);
    assert_eq!(
        parse_resource_uri("serial://connections"),
        ResourceUriKind::ConnectionsList
    );
    assert_eq!(
        parse_resource_uri("serial://connections/abc-123"),
        ResourceUriKind::ConnectionDetail("abc-123".into())
    );
}

#[test]
fn handler_resource_uri_unknown_targets() {
    assert_eq!(
        parse_resource_uri("serial://other"),
        ResourceUriKind::Unknown
    );
    assert_eq!(
        parse_resource_uri("serial://connections/"),
        ResourceUriKind::Unknown
    );
    assert_eq!(
        parse_resource_uri("serial://connections/abc/extra"),
        ResourceUriKind::Unknown
    );
    assert_eq!(
        parse_resource_uri("https://example.com"),
        ResourceUriKind::Unknown
    );
}

// ---- further cases ----------------------------------------------------------

#[test]
fn raw_suffix_alone_is_not_an_id() {
    assert_eq!(
        parse_resource_uri("serial://connections/raw"),
        ResourceUriKind::ConnectionDetail("raw".into())
    );
    assert_eq!(
        parse_resource_uri("serial://connections/x/raw/raw"),
        ResourceUriKind::Unknown
    );
    assert_eq!(parse_resource_uri("serial://ports/"), ResourceUriKind::Unknown);
    assert_eq!(parse_resource_uri(""), ResourceUriKind::Unknown);
}
