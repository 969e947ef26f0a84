use serial_mcp_server::security::SecurityManager;

fn from_str(env_val: &str) -> SecurityManager {
    SecurityManager::from_allowlist_value(env_val)
}

#[test]
fn empty_allowlist_allows_all() {
    let mgr = from_str("");
    assert!(mgr.is_port_allowed("/dev/ttyUSB0"));
    assert!(mgr.is_port_allowed("COM3"));
    assert_eq!(mgr.allowlist_summary(), "(all ports allowed)");
}

#[test]
fn pattern_in_allowlist_matches() {
    let mgr = from_str("/dev/ttyUSB*");
    assert!(mgr.is_port_allowed("/dev/ttyUSB0"));
    assert!(mgr.is_port_allowed("/dev/ttyUSB99"));
    assert!(!mgr.is_port_allowed("/dev/ttyS0"));
    assert!(!mgr.is_port_allowed("COM3"));
}

#[test]
fn allowlist_summary_shows_patterns() {
    let mgr = from_str("/dev/ttyUSB*,COM*");
    let summary = mgr.allowlist_summary();
    assert!(summary.contains("/dev/ttyUSB*"));
    assert!(summary.contains("COM*"));
}

#[test]
fn ignores_invalid_patterns() {
    let mgr = from_str("/dev/ttyUSB*,[invalid");
    assert_eq!(mgr.len(), 1);
    assert!(mgr.is_port_allowed("/dev/ttyUSB0"));
}

#[test]
fn all_invalid_patterns_yields_empty() {
    let mgr = from_str("[invalid,[also_broken");
    assert!(mgr.len() == 0);
    assert!(mgr.is_port_allowed("/dev/ttyUSB0"));
}

#[test]
fn multiple_valid_and_invalid() {
    let mgr = from_str("COM3,[bad,/dev/tty[a-z]*");
    assert_eq!(mgr.len(), 2);
    assert!(mgr.is_port_allowed("COM3"));
    assert!(mgr.is_port_allowed("/dev/ttyb"));
    assert!(!mgr.is_port_allowed("/dev/tty0"));
}

// ---- further cases ----------------------------------------------------------

#[test]
fn summary_joins_patterns_in_order() {
    let mgr = from_str(" /dev/ttyUSB* , ,COM3 ");
    assert_eq!(mgr.len(), 2);
    assert_eq!(mgr.allowlist_summary(), "/dev/ttyUSB*, COM3");
}

#[test]
fn explicit_patterns_constructor() {
    let mgr = SecurityManager::from_patterns(&vec!["COM1".to_string(), "[".to_string()]);
    assert_eq!(mgr.len(), 1);
    assert!(mgr.is_port_allowed("COM1"));
    assert!(!mgr.is_port_allowed("COM2"));
    let open = SecurityManager::from_patterns(&Vec::new());
    assert!(open.is_port_allowed("anything"));
}

#[test]
fn exact_pattern_blocks_others() {
    let mgr = from_str("/dev/ttyUSB0");
    assert!(mgr.is_port_allowed("/dev/ttyUSB0"));
    assert!(!mgr.is_port_allowed("/dev/ttyUSB1"));
}
