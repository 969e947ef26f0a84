//! The checks and results of the `list_ports`, `open` and `close` tools.
use crate::security::{allows, joined, SecurityManager};
use crate::serial::{ConnectionConfig, PortInfo};
use crate::text::push_str;
use crate::tools::helpers::{
    data_bits_error, data_bits_named, flow_control_error, flow_control_named, parity_error,
    parity_named, parse_open_args, stop_bits_error, stop_bits_named,
};
use crate::tools::types::{ListPortsResult, OpenArgs};
use crate::error::SerialError;
use crate::text::{ascii_lowercase, lowercase};
use vstd::utf8::is_ascii_chars;
use vstd::prelude::*;
use vstd::string::*;

verus! {

/// The text that lists the allowlist in a refusal.
pub open spec fn summary_text(patterns: Seq<Seq<char>>) -> Seq<char> {
    if patterns.len() == 0 {
        "(all ports allowed)"@
    } else {
        joined(patterns, ", "@)
    }
}

/// `Port 'P' is not in the allowlist. Allowed patterns: SUMMARY`.
pub open spec fn not_allowed_message(port: Seq<char>, patterns: Seq<Seq<char>>) -> Seq<char> {
    "Port '"@ + port + "' is not in the allowlist. Allowed patterns: "@ + summary_text(patterns)
}

/// The configuration that `open` uses: the arguments parsed strictly, and
/// the port checked against the allowlist.
pub fn prepare_open(security: &SecurityManager, args: OpenArgs) -> (r: Result<ConnectionConfig, String>)
    ensures
        match r {
            Ok(c) => {
                &&& c.port@ == args.port@
                &&& c.baud_rate == args.baud_rate
                &&& data_bits_named(args.data_bits@) == Some(c.data_bits)
                &&& stop_bits_named(args.stop_bits@) == Some(c.stop_bits)
                &&& parity_named(lowercase(args.parity@)) == Some(c.parity)
                &&& flow_control_named(lowercase(args.flow_control@)) == Some(c.flow_control)
                &&& allows(security.patterns(), args.port@)
            },
            Err(m) => if data_bits_named(args.data_bits@) is None {
                m@ == data_bits_error(args.data_bits@)
            } else if stop_bits_named(args.stop_bits@) is None {
                m@ == stop_bits_error(args.stop_bits@)
            } else if parity_named(lowercase(args.parity@)) is None {
                m@ == parity_error(lowercase(args.parity@))
            } else if flow_control_named(lowercase(args.flow_control@)) is None {
                m@ == flow_control_error(lowercase(args.flow_control@))
            } else {
                !allows(security.patterns(), args.port@) && m@ == not_allowed_message(
                    args.port@,
                    security.patterns(),
                )
            },
        },
        data_bits_named(args.data_bits@) is Some && stop_bits_named(args.stop_bits@) is Some
            && is_ascii_chars(args.parity@) ==> lowercase(args.parity@) == ascii_lowercase(
            args.parity@,
        ),
        data_bits_named(args.data_bits@) is Some && stop_bits_named(args.stop_bits@) is Some
            && parity_named(lowercase(args.parity@)) is Some && is_ascii_chars(args.flow_control@)
            ==> lowercase(args.flow_control@) == ascii_lowercase(args.flow_control@),
{
    let config = parse_open_args(args)?;
    if !security.is_port_allowed(config.port.as_str()) {
        let mut m = String::from_str("Port '");
        push_str(&mut m, config.port.as_str());
        push_str(&mut m, "' is not in the allowlist. Allowed patterns: ");
        let summary = security.allowlist_summary();
        push_str(&mut m, summary.as_str());
        return Err(m);
    }
    Ok(config)
}

/// `Failed to open port P - ERROR`.
pub fn open_failure_message(port: &str, err: &SerialError) -> (m: String)
    ensures
        ("Failed to open port "@ + port@ + " - "@ + err.message_prefix()).is_prefix_of(m@),
        err.known_message() matches Some(t) ==> m@ == "Failed to open port "@ + port@ + " - "@ + t,
{
    let mut m = String::from_str("Failed to open port ");
    push_str(&mut m, port);
    push_str(&mut m, " - ");
    let ghost head = m@;
    let t = err.message();
    push_str(&mut m, t.as_str());
    proof {
        let a = head + err.message_prefix();
        assert(a =~= m@.subrange(0, a.len() as int));
    }
    m
}

/// `Failed to close connection ID - ERROR`.
pub fn close_failure_message(id: &str, err: &SerialError) -> (m: String)
    ensures
        ("Failed to close connection "@ + id@ + " - "@ + err.message_prefix()).is_prefix_of(m@),
        err.known_message() matches Some(t) ==> m@ == "Failed to close connection "@ + id@ + " - "@ + t,
{
    let mut m = String::from_str("Failed to close connection ");
    push_str(&mut m, id);
    push_str(&mut m, " - ");
    let ghost head = m@;
    let t = err.message();
    push_str(&mut m, t.as_str());
    proof {
        let a = head + err.message_prefix();
        assert(a =~= m@.subrange(0, a.len() as int));
    }
    m
}

/// The result of `list_ports`: the ports and how many there are.
pub fn list_ports_result(ports: Vec<PortInfo>) -> (r: ListPortsResult)
    ensures
        r.count == ports@.len(),
        r.ports@ == ports@,
{
    ListPortsResult { count: ports.len(), ports }
}

} // verus!
