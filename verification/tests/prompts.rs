use serial_mcp_server::prompts::{build_interactive_prompt, InteractiveTerminalArgs};

#[test]
fn interactive_prompt_uses_defaults() {
    let t = build_interactive_prompt(&InteractiveTerminalArgs {
        connection_id: "c1".into(),
        line_ending: None,
        device_prompt: None,
    });
    assert_eq!(t.description, "Interactive REPL session over connection c1");
    assert!(t.user.starts_with("Act as a serial terminal client against connection `c1`."));
    assert!(t.user.contains("Append `\\r\\n` to every line"));
    assert!(t.user.contains("pattern=the device's prompt string (e.g. `OK>`, `$ `)"));
}

#[test]
fn interactive_prompt_uses_given_settings() {
    let t = build_interactive_prompt(&InteractiveTerminalArgs {
        connection_id: "dev".into(),
        line_ending: Some("\n".into()),
        device_prompt: Some("OK>".into()),
    });
    assert!(t.user.contains("wait_for(connection_id=\"dev\", pattern=`OK>`, timeout_ms=2000)"));
    assert!(t.user.contains("read the response up to `OK>`."));
    assert!(t.user.contains("Append `\n` to every line"));
}
