//! The arguments of the prompt templates and the text of the
//! `interactive_terminal` prompt.
use crate::text::push_str;
use vstd::prelude::*;
use vstd::string::*;

verus! {

#[derive(Debug, Clone)]
pub struct DiagnosePortArgs {
    /// OS-level port name to probe (e.g. "COM3", "/dev/ttyUSB0").
    pub port: String,
    /// Optional baud rate to try first. Defaults are tried otherwise.
    pub baud_rate: Option<u32>,
}

#[derive(Debug, Clone)]
pub struct InteractiveTerminalArgs {
    /// Existing connection_id returned by the `open` tool.
    pub connection_id: String,
    /// Optional line ending to append when writing user-typed lines.
    /// Defaults to `\r\n`.
    pub line_ending: Option<String>,
    /// Optional prompt the device emits at the end of each response
    /// (e.g. "OK>", "$ "). Used by `wait_for` between commands.
    pub device_prompt: Option<String>,
}

/// The text of an interactive prompt: the user message and its description.
pub struct PromptText {
    pub user: String,
    pub description: String,
}

/// The line ending shown in the prompt: the given one, or `\r\n` written
/// out as four characters.
pub open spec fn shown_line_ending(args: InteractiveTerminalArgs) -> Seq<char> {
    match args.line_ending {
        Some(l) => l@,
        None => "\\r\\n"@,
    }
}

/// How the device prompt is shown: the given one in backticks, or a
/// description with examples.
pub open spec fn shown_device_prompt(args: InteractiveTerminalArgs) -> Seq<char> {
    match args.device_prompt {
        Some(p) => "`"@ + p@ + "`"@,
        None => "the device's prompt string (e.g. `OK>`, `$ `)"@,
    }
}

/// The user message of the `interactive_terminal` prompt.
pub open spec fn interactive_user_text(id: Seq<char>, line_ending: Seq<char>, prompt: Seq<char>) -> Seq<
    char,
> {
    "Act as a serial terminal client against connection `"@ + id
        + "`. Use the serial MCP tools. Conventions:\n\n- Append `"@ + line_ending
        + "` to every line the user wants to send.\n- After each `write`, call `wait_for(connection_id=\""@
        + id + "\", pattern="@ + prompt + ", timeout_ms=2000)` to read the response up to "@
        + prompt
        + ".\n- If `wait_for` returns an error about timeout, surface the partial buffer and ask the user how to proceed instead of retrying blindly.\n- Decode the response data as UTF-8 unless it contains bytes the codec rejects, in which case fall back to hex and tell the user.\n- Never call `close` unless the user explicitly says so.\n- If the connection vanishes (tool returns Connection ID not found), tell the user and stop; do not silently reopen.\n\nBegin by sending an empty line (write `"@
        + line_ending
        + "` then wait_for) to surface the current prompt, then report back and wait for the user's first command."@
}

/// The user message names the chosen line ending wherever it names one:
/// in the convention of appending it to every line and in the closing
/// instruction to send an empty line, which ends the message.
pub proof fn law_line_ending_shown_consistently(args: InteractiveTerminalArgs)
    ensures
        ({
            let t = interactive_user_text(
                args.connection_id@,
                shown_line_ending(args),
                shown_device_prompt(args),
            );
            let le = shown_line_ending(args);
            let append = "`. Use the serial MCP tools. Conventions:\n\n- Append `"@ + le
                + "` to every line the user wants to send.\n- After each `write`, call `wait_for(connection_id=\""@;
            let closing = le
                + "` then wait_for) to surface the current prompt, then report back and wait for the user's first command."@;
            &&& exists|i: int| 0 <= i && i + append.len() <= t.len() && #[trigger] t.subrange(i, i + append.len()) == append
            &&& closing.is_suffix_of(t)
        }),
{
    let id = args.connection_id@;
    let le = shown_line_ending(args);
    let p = shown_device_prompt(args);
    let t = interactive_user_text(id, le, p);
    let head = "Act as a serial terminal client against connection `"@ + id;
    let append = "`. Use the serial MCP tools. Conventions:\n\n- Append `"@ + le
        + "` to every line the user wants to send.\n- After each `write`, call `wait_for(connection_id=\""@;
    let closing = le
        + "` then wait_for) to surface the current prompt, then report back and wait for the user's first command."@;
    let rest = id + "\", pattern="@ + p + ", timeout_ms=2000)` to read the response up to "@ + p
        + ".\n- If `wait_for` returns an error about timeout, surface the partial buffer and ask the user how to proceed instead of retrying blindly.\n- Decode the response data as UTF-8 unless it contains bytes the codec rejects, in which case fall back to hex and tell the user.\n- Never call `close` unless the user explicitly says so.\n- If the connection vanishes (tool returns Connection ID not found), tell the user and stop; do not silently reopen.\n\nBegin by sending an empty line (write `"@;
    assert(t =~= head + append + rest + closing);
    assert(t.subrange(head.len() as int, (head.len() + append.len()) as int) =~= append);
    assert(closing =~= t.subrange(t.len() - closing.len(), t.len() as int));
}

/// Builds the interactive terminal REPL prompt for an open serial
/// connection.
pub fn build_interactive_prompt(args: &InteractiveTerminalArgs) -> (t: PromptText)
    ensures
        t.user@ == interactive_user_text(
            args.connection_id@,
            shown_line_ending(*args),
            shown_device_prompt(*args),
        ),
        t.description@ == "Interactive REPL session over connection "@ + args.connection_id@,
{
    let line_ending = match &args.line_ending {
        Some(l) => l.clone(),
        None => String::from_str("\\r\\n"),
    };
    let prompt = match &args.device_prompt {
        Some(p) => {
            let mut s = String::from_str("`");
            push_str(&mut s, p.as_str());
            push_str(&mut s, "`");
            s
        },
        None => String::from_str("the device's prompt string (e.g. `OK>`, `$ `)"),
    };
    let id = args.connection_id.as_str();
    let mut user = String::from_str("Act as a serial terminal client against connection `");
    push_str(&mut user, id);
    push_str(&mut user, "`. Use the serial MCP tools. Conventions:\n\n- Append `");
    push_str(&mut user, line_ending.as_str());
    push_str(
        &mut user,
        "` to every line the user wants to send.\n- After each `write`, call `wait_for(connection_id=\"",
    );
    push_str(&mut user, id);
    push_str(&mut user, "\", pattern=");
    push_str(&mut user, prompt.as_str());
    push_str(&mut user, ", timeout_ms=2000)` to read the response up to ");
    push_str(&mut user, prompt.as_str());
    push_str(
        &mut user,
        ".\n- If `wait_for` returns an error about timeout, surface the partial buffer and ask the user how to proceed instead of retrying blindly.\n- Decode the response data as UTF-8 unless it contains bytes the codec rejects, in which case fall back to hex and tell the user.\n- Never call `close` unless the user explicitly says so.\n- If the connection vanishes (tool returns Connection ID not found), tell the user and stop; do not silently reopen.\n\nBegin by sending an empty line (write `",
    );
    push_str(&mut user, line_ending.as_str());
    push_str(
        &mut user,
        "` then wait_for) to surface the current prompt, then report back and wait for the user's first command.",
    );
    let mut description = String::from_str("Interactive REPL session over connection ");
    push_str(&mut description, id);
    PromptText { user, description }
}

} // verus!
