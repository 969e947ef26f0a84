use serial_mcp_server::server::{
    completion_lists_ports, connection_uri, decode_cursor, page_at, paginate, parse_usize,
    CompletionRef, ResourceSubscribers, PAGE_SIZE,
};

#[test]
fn cursors_name_offsets() {
    assert_eq!(decode_cursor(None), 0);
    assert_eq!(decode_cursor(Some("MQ==")), 1);
    assert_eq!(decode_cursor(Some("MTAw")), 100);
    assert_eq!(decode_cursor(Some("not base64!")), 0);
    assert_eq!(decode_cursor(Some("YWJj")), 0);
    assert_eq!(decode_cursor(Some("")), 0);
}

#[test]
fn next_cursor_reads_back_as_next_offset() {
    let p = page_at(250, 100, PAGE_SIZE);
    assert_eq!(p.start, 100);
    assert_eq!(p.end, 200);
    let c = p.next_cursor.unwrap();
    assert_eq!(c, "MjAw");
    assert_eq!(decode_cursor(Some(&c)), 200);
    let last = page_at(250, 200, PAGE_SIZE);
    assert_eq!(last.end, 250);
    assert!(last.next_cursor.is_none());
}

#[test]
fn paginate_small_lists() {
    let p = paginate(2, None, PAGE_SIZE);
    assert_eq!((p.start, p.end), (0, 2));
    assert!(p.next_cursor.is_none());
    let p = paginate(3, Some("MQ=="), 1);
    assert_eq!((p.start, p.end), (1, 2));
    assert_eq!(p.next_cursor.as_deref(), Some("Mg=="));
    let p = paginate(0, None, PAGE_SIZE);
    assert_eq!((p.start, p.end), (0, 0));
    assert!(p.next_cursor.is_none());
}

#[test]
fn decimal_parsing_matches_std() {
    assert_eq!(parse_usize("0"), Some(0));
    assert_eq!(parse_usize("+42"), Some(42));
    assert_eq!(parse_usize("007"), Some(7));
    assert_eq!(parse_usize(""), None);
    assert_eq!(parse_usize("+"), None);
    assert_eq!(parse_usize("-1"), None);
    assert_eq!(parse_usize(" 1"), None);
    assert_eq!(parse_usize("1a"), None);
    let max = usize::MAX.to_string();
    assert_eq!(parse_usize(&max), Some(usize::MAX));
    let over = format!("{}0", usize::MAX);
    assert_eq!(parse_usize(&over), None);
}

#[test]
fn resource_subscriptions_count_and_undo() {
    let uri = connection_uri("abc");
    assert_eq!(uri, "serial://connections/abc");
    let mut s = ResourceSubscribers::new();
    assert!(!s.should_notify(&uri));
    s.subscribe(uri.clone());
    assert!(s.should_notify(&uri));
    s.subscribe(uri.clone());
    assert_eq!(s.count(&uri), 2);
    s.unsubscribe(&uri);
    assert_eq!(s.count(&uri), 1);
    assert!(s.should_notify(&uri));
    s.unsubscribe(&uri);
    assert_eq!(s.count(&uri), 0);
    assert!(!s.should_notify(&uri));
    s.unsubscribe(&uri);
    assert_eq!(s.count(&uri), 0);
    assert!(!s.should_notify("serial://connections/other"));
}

#[test]
fn completions_offer_ports_for_port_arguments() {
    let res = CompletionRef::Resource("serial://ports".into());
    let prompt = CompletionRef::Prompt("diagnose_port".into());
    assert!(completion_lists_ports(&res, "port"));
    assert!(completion_lists_ports(&prompt, "port"));
    assert!(!completion_lists_ports(&res, "baud"));
    assert!(!completion_lists_ports(&CompletionRef::Prompt("interactive_terminal".into()), "port"));
    assert!(!completion_lists_ports(&CompletionRef::Resource("serial://connections".into()), "port"));
}
