//! Input limits, argument parsers, pattern search and result builders
//! shared by the tools.
use crate::codec::{decoded, encode, encoded, encoding_for_name, Encoding};
use crate::serial::{ConnectionConfig, DataBits, FlowControl, Parity, StopBits};
use crate::text::{
    ascii_lowercase, chars_eq_str, chars_of, debug_plain, debug_quoted, debug_str, decimal, lowercase,
    push_str, to_lowercase, u64_decimal, usize_decimal,
};
use vstd::utf8::is_ascii_chars;
use crate::tools::types::{OpenArgs, ReadResult};
use vstd::prelude::*;
use vstd::string::*;

verus! {

pub const DEFAULT_READ_TIMEOUT_MS: u64 = 1000;

// Input validation limits
pub const MAX_READ_BYTES: usize = 1048576;

pub const MAX_WAIT_BYTES: usize = 1048576;

pub const MAX_STREAM_CHUNK_BYTES: usize = 65536;

pub const MAX_TIMEOUT_MS: u64 = 300000;

pub const MIN_POLL_INTERVAL_MS: u64 = 10;

pub const MAX_WRITE_BYTES: usize = 1048576;

pub const MIN_READ_BYTES: usize = 1;

pub const MIN_WAIT_BYTES: usize = 1;

pub const MIN_STREAM_CHUNK_BYTES: usize = 1;

// ---- Limits --------------------------------------------------------------------

/// `name=VALUEunit exceeds maximum MAXunit`.
pub open spec fn above_max_message(name: Seq<char>, value: nat, max: nat, unit: Seq<char>) -> Seq<
    char,
> {
    name + "="@ + decimal(value) + unit + " exceeds maximum "@ + decimal(max) + unit
}

/// `name=VALUEunit is below minimum MINunit`.
pub open spec fn below_min_message(name: Seq<char>, value: nat, min: nat, unit: Seq<char>) -> Seq<
    char,
> {
    name + "="@ + decimal(value) + unit + " is below minimum "@ + decimal(min) + unit
}

fn limit_message(name: &str, value: u64, middle: &str, bound: u64, unit: &str) -> (s: String)
    ensures
        s@ == name@ + "="@ + decimal(value as nat) + unit@ + middle@ + decimal(bound as nat)
            + unit@,
{
    let mut s = String::from_str(name);
    push_str(&mut s, "=");
    let v = u64_decimal(value);
    push_str(&mut s, v.as_str());
    push_str(&mut s, unit);
    push_str(&mut s, middle);
    let b = u64_decimal(bound);
    push_str(&mut s, b.as_str());
    push_str(&mut s, unit);
    s
}

/// Rejects a size above `max`.
pub fn clamp_or_err(name: &str, value: usize, max: usize) -> (r: Result<usize, String>)
    ensures
        match r {
            Ok(v) => value <= max && v == value,
            Err(m) => value > max && m@ == above_max_message(name@, value as nat, max as nat, ""@),
        },
{
    if value > max {
        Err(limit_message(name, value as u64, " exceeds maximum ", max as u64, ""))
    } else {
        Ok(value)
    }
}

/// Rejects a size below `min`.
pub fn require_min_or_err(name: &str, value: usize, min: usize) -> (r: Result<usize, String>)
    ensures
        match r {
            Ok(v) => value >= min && v == value,
            Err(m) => value < min && m@ == below_min_message(name@, value as nat, min as nat, ""@),
        },
{
    if value < min {
        Err(limit_message(name, value as u64, " is below minimum ", min as u64, ""))
    } else {
        Ok(value)
    }
}

/// Rejects a timeout above `max` milliseconds.
pub fn clamp_timeout_or_err(name: &str, value: u64, max: u64) -> (r: Result<u64, String>)
    ensures
        match r {
            Ok(v) => value <= max && v == value,
            Err(m) => value > max && m@ == above_max_message(name@, value as nat, max as nat, "ms"@),
        },
{
    if value > max {
        Err(limit_message(name, value, " exceeds maximum ", max, "ms"))
    } else {
        Ok(value)
    }
}

/// Rejects a poll interval below `min` milliseconds.
pub fn clamp_poll_interval_or_err(name: &str, value: u64, min: u64) -> (r: Result<u64, String>)
    ensures
        match r {
            Ok(v) => value >= min && v == value,
            Err(m) => value < min && m@ == below_min_message(name@, value as nat, min as nat, "ms"@),
        },
{
    if value < min {
        Err(limit_message(name, value, " is below minimum ", min, "ms"))
    } else {
        Ok(value)
    }
}

// ---- Pattern search ------------------------------------------------------------

/// Whether `needle` occurs in `haystack` starting at `i`.
pub open spec fn occurs_at(haystack: Seq<u8>, needle: Seq<u8>, i: int) -> bool {
    0 <= i && i + needle.len() <= haystack.len() && haystack.subrange(i, i + needle.len())
        == needle
}

/// The position of the first occurrence of a nonempty `needle`, or `None`
/// when the needle is empty or does not occur.
pub fn find_subslice(haystack: &[u8], needle: &[u8]) -> (r: Option<usize>)
    ensures
        match r {
            Some(i) => needle@.len() > 0 && occurs_at(haystack@, needle@, i as int) && forall|j: int|
                0 <= j < i ==> !#[trigger] occurs_at(haystack@, needle@, j),
            None => needle@.len() == 0 || forall|j: int| !#[trigger] occurs_at(haystack@, needle@, j),
        },
{
    let n = needle.len();
    if n == 0 || haystack.len() < n {
        return None;
    }
    let last = haystack.len() - n;
    let mut i: usize = 0;
    while i <= last
        invariant
            n == needle@.len(),
            n > 0,
            last + n == haystack@.len(),
            haystack@.len() == haystack.len(),
            forall|j: int| 0 <= j < i ==> !#[trigger] occurs_at(haystack@, needle@, j),
        decreases last + 1 - i,
    {
        let mut k: usize = 0;
        let mut same = true;
        while k < n
            invariant
                n == needle@.len(),
                i <= last,
                last + n == haystack@.len(),
                haystack@.len() == haystack.len(),
                k <= n,
                same == forall|t: int| 0 <= t < k ==> haystack@[i + t] == needle@[t],
            decreases n - k,
        {
            if haystack[i + k] != needle[k] {
                same = false;
            }
            k = k + 1;
        }
        if same {
            assert(haystack@.subrange(i as int, i + n) =~= needle@);
            return Some(i);
        }
        assert(!occurs_at(haystack@, needle@, i as int)) by {
            if occurs_at(haystack@, needle@, i as int) {
                assert forall|t: int| 0 <= t < n implies haystack@[i + t] == needle@[t] by {
                    assert(haystack@.subrange(i as int, i + n)[t] == haystack@[i + t]);
                }
            }
        }
        i = i + 1;
    }
    None
}

// ---- Argument parsers ------------------------------------------------------------

/// `Unsupported encoding - Unknown encoding: RAW`.
pub open spec fn unsupported_encoding_message(raw: Seq<char>) -> Seq<char> {
    "Unsupported encoding - "@ + "Unknown encoding: "@ + raw
}

/// Parses an encoding argument, with the tool's error message.
pub fn parse_encoding(raw: &str) -> (r: Result<Encoding, String>)
    ensures
        match r {
            Ok(e) => encoding_for_name(lowercase(raw@)) == Some(e),
            Err(m) => encoding_for_name(lowercase(raw@)) is None && m@
                == unsupported_encoding_message(raw@),
        },
{
    match Encoding::parse(raw) {
        Ok(e) => Ok(e),
        Err(e) => {
            let mut m = String::from_str("Unsupported encoding - ");
            let t = e.message();
            push_str(&mut m, t.as_str());
            Err(m)
        },
    }
}

/// The data bits that an argument names: `5`, `6`, `7` or `8`.
pub open spec fn data_bits_named(s: Seq<char>) -> Option<DataBits> {
    if s == "5"@ {
        Some(DataBits::Five)
    } else if s == "6"@ {
        Some(DataBits::Six)
    } else if s == "7"@ {
        Some(DataBits::Seven)
    } else if s == "8"@ {
        Some(DataBits::Eight)
    } else {
        None
    }
}

/// The stop bits that an argument names: `1` or `2`.
pub open spec fn stop_bits_named(s: Seq<char>) -> Option<StopBits> {
    if s == "1"@ {
        Some(StopBits::One)
    } else if s == "2"@ {
        Some(StopBits::Two)
    } else {
        None
    }
}

/// The parity that a lowercased argument names: `none`, `odd` or `even`.
pub open spec fn parity_named(lower: Seq<char>) -> Option<Parity> {
    if lower == "none"@ {
        Some(Parity::NoParity)
    } else if lower == "odd"@ {
        Some(Parity::Odd)
    } else if lower == "even"@ {
        Some(Parity::Even)
    } else {
        None
    }
}

/// The flow control that a lowercased argument names: `none`, `software`
/// or `hardware`.
pub open spec fn flow_control_named(lower: Seq<char>) -> Option<FlowControl> {
    if lower == "none"@ {
        Some(FlowControl::NoFlowControl)
    } else if lower == "software"@ {
        Some(FlowControl::Software)
    } else if lower == "hardware"@ {
        Some(FlowControl::Hardware)
    } else {
        None
    }
}

pub open spec fn data_bits_error(raw: Seq<char>) -> Seq<char> {
    "Invalid data_bits "@ + debug_quoted(raw) + " (expected 5/6/7/8)"@
}

pub open spec fn stop_bits_error(raw: Seq<char>) -> Seq<char> {
    "Invalid stop_bits "@ + debug_quoted(raw) + " (expected 1/2)"@
}

pub open spec fn parity_error(lower: Seq<char>) -> Seq<char> {
    "Invalid parity "@ + debug_quoted(lower) + " (expected none/odd/even)"@
}

pub open spec fn flow_control_error(lower: Seq<char>) -> Seq<char> {
    "Invalid flow_control "@ + debug_quoted(lower) + " (expected none/software/hardware)"@
}

fn invalid_message(head: &str, shown: &str, tail: &str) -> (s: String)
    ensures
        s@ == head@ + debug_quoted(shown@) + tail@,
        debug_plain(shown@) ==> s@ == head@ + seq!['"'] + shown@ + seq!['"'] + tail@,
{
    let mut s = String::from_str(head);
    let q = debug_str(shown);
    push_str(&mut s, q.as_str());
    push_str(&mut s, tail);
    s
}

pub fn parse_data_bits(raw: &str) -> (r: Result<DataBits, String>)
    ensures
        match r {
            Ok(d) => data_bits_named(raw@) == Some(d),
            Err(m) => data_bits_named(raw@) is None && m@ == data_bits_error(raw@) && (debug_plain(
                raw@,
            ) ==> m@ == "Invalid data_bits "@ + seq!['"'] + raw@ + seq!['"'] + " (expected 5/6/7/8)"@),
        },
{
    let v = chars_of(raw);
    if chars_eq_str(&v, "5") {
        Ok(DataBits::Five)
    } else if chars_eq_str(&v, "6") {
        Ok(DataBits::Six)
    } else if chars_eq_str(&v, "7") {
        Ok(DataBits::Seven)
    } else if chars_eq_str(&v, "8") {
        Ok(DataBits::Eight)
    } else {
        Err(invalid_message("Invalid data_bits ", raw, " (expected 5/6/7/8)"))
    }
}

pub fn parse_stop_bits(raw: &str) -> (r: Result<StopBits, String>)
    ensures
        match r {
            Ok(d) => stop_bits_named(raw@) == Some(d),
            Err(m) => stop_bits_named(raw@) is None && m@ == stop_bits_error(raw@) && (debug_plain(
                raw@,
            ) ==> m@ == "Invalid stop_bits "@ + seq!['"'] + raw@ + seq!['"'] + " (expected 1/2)"@),
        },
{
    let v = chars_of(raw);
    if chars_eq_str(&v, "1") {
        Ok(StopBits::One)
    } else if chars_eq_str(&v, "2") {
        Ok(StopBits::Two)
    } else {
        Err(invalid_message("Invalid stop_bits ", raw, " (expected 1/2)"))
    }
}

/// Parses a parity argument, case-insensitively.
pub fn parse_parity(raw: &str) -> (r: Result<Parity, String>)
    ensures
        match r {
            Ok(p) => parity_named(lowercase(raw@)) == Some(p),
            Err(m) => parity_named(lowercase(raw@)) is None && m@ == parity_error(lowercase(raw@))
                && (debug_plain(lowercase(raw@)) ==> m@ == "Invalid parity "@ + seq!['"'] + lowercase(
                raw@,
            ) + seq!['"'] + " (expected none/odd/even)"@),
        },
        is_ascii_chars(raw@) ==> lowercase(raw@) == ascii_lowercase(raw@),
{
    let lower = to_lowercase(raw);
    let v = chars_of(lower.as_str());
    if chars_eq_str(&v, "none") {
        Ok(Parity::NoParity)
    } else if chars_eq_str(&v, "odd") {
        Ok(Parity::Odd)
    } else if chars_eq_str(&v, "even") {
        Ok(Parity::Even)
    } else {
        Err(invalid_message("Invalid parity ", lower.as_str(), " (expected none/odd/even)"))
    }
}

/// Parses a flow-control argument, case-insensitively.
pub fn parse_flow_control(raw: &str) -> (r: Result<FlowControl, String>)
    ensures
        match r {
            Ok(f) => flow_control_named(lowercase(raw@)) == Some(f),
            Err(m) => flow_control_named(lowercase(raw@)) is None && m@ == flow_control_error(
                lowercase(raw@),
            ) && (debug_plain(lowercase(raw@)) ==> m@ == "Invalid flow_control "@ + seq!['"']
                + lowercase(raw@) + seq!['"'] + " (expected none/software/hardware)"@),
        },
        is_ascii_chars(raw@) ==> lowercase(raw@) == ascii_lowercase(raw@),
{
    let lower = to_lowercase(raw);
    let v = chars_of(lower.as_str());
    if chars_eq_str(&v, "none") {
        Ok(FlowControl::NoFlowControl)
    } else if chars_eq_str(&v, "software") {
        Ok(FlowControl::Software)
    } else if chars_eq_str(&v, "hardware") {
        Ok(FlowControl::Hardware)
    } else {
        Err(
            invalid_message(
                "Invalid flow_control ",
                lower.as_str(),
                " (expected none/software/hardware)",
            ),
        )
    }
}

/// Parses the arguments of `open` strictly: every setting must name a
/// supported value; the first one that does not is reported.
pub fn parse_open_args(args: OpenArgs) -> (r: Result<ConnectionConfig, String>)
    ensures
        match r {
            Ok(c) => {
                &&& c.port@ == args.port@
                &&& c.baud_rate == args.baud_rate
                &&& data_bits_named(args.data_bits@) == Some(c.data_bits)
                &&& stop_bits_named(args.stop_bits@) == Some(c.stop_bits)
                &&& parity_named(lowercase(args.parity@)) == Some(c.parity)
                &&& flow_control_named(lowercase(args.flow_control@)) == Some(c.flow_control)
            },
            Err(m) => if data_bits_named(args.data_bits@) is None {
                m@ == data_bits_error(args.data_bits@)
            } else if stop_bits_named(args.stop_bits@) is None {
                m@ == stop_bits_error(args.stop_bits@)
            } else if parity_named(lowercase(args.parity@)) is None {
                m@ == parity_error(lowercase(args.parity@))
            } else {
                flow_control_named(lowercase(args.flow_control@)) is None && m@
                    == flow_control_error(lowercase(args.flow_control@))
            },
        },
        data_bits_named(args.data_bits@) is Some && stop_bits_named(args.stop_bits@) is Some
            && is_ascii_chars(args.parity@) ==> lowercase(args.parity@) == ascii_lowercase(
            args.parity@,
        ),
        data_bits_named(args.data_bits@) is Some && stop_bits_named(args.stop_bits@) is Some
            && parity_named(lowercase(args.parity@)) is Some && is_ascii_chars(args.flow_control@)
            ==> lowercase(args.flow_control@) == ascii_lowercase(args.flow_control@),
{
    let data_bits = parse_data_bits(args.data_bits.as_str())?;
    let stop_bits = parse_stop_bits(args.stop_bits.as_str())?;
    let parity = parse_parity(args.parity.as_str())?;
    let flow_control = parse_flow_control(args.flow_control.as_str())?;
    Ok(ConnectionConfig {
        port: args.port,
        baud_rate: args.baud_rate,
        data_bits,
        stop_bits,
        parity,
        flow_control,
    })
}

// ---- Connection lookup ----------------------------------------------------------

/// The tool error for an unknown connection id: `Connection ID ID not found`.
pub fn lookup_failure_message(id: &str) -> (s: String)
    ensures
        s@ == "Connection ID "@ + id@ + " not found"@,
{
    let mut s = String::from_str("Connection ID ");
    push_str(&mut s, id);
    push_str(&mut s, " not found");
    s
}

// ---- Error helper ---------------------------------------------------------------

/// The tool error text for a failed operation: `CONTEXT - ERROR`. The
/// operation name is for the caller's log line.
pub fn log_tool_err(op: &str, context: &str, err: &str) -> (s: String)
    ensures
        s@ == context@ + " - "@ + err@,
{
    let mut s = String::from_str(context);
    push_str(&mut s, " - ");
    push_str(&mut s, err);
    s
}

// ---- Read result ----------------------------------------------------------------

/// Outcome of a read call. `timed_out` distinguishes the genuine
/// read-timeout case from a successful read of `bytes`.
pub struct ReadOutcome {
    pub bytes: Vec<u8>,
    pub timed_out: bool,
    pub elapsed_ms: u64,
}

/// Outcome of a pattern wait: the bytes gathered and, on a match, where it
/// starts.
pub struct WaitOutcome {
    pub bytes: Vec<u8>,
    pub match_index: Option<usize>,
    pub timed_out: bool,
}

/// `Read timed out after Tms on ID`.
pub open spec fn read_timeout_message(timeout_ms: nat, id: Seq<char>) -> Seq<char> {
    "Read timed out after "@ + decimal(timeout_ms) + "ms on "@ + id
}

/// The timeout a read uses: the requested one, or the default.
pub open spec fn effective_read_timeout(requested: Option<u64>) -> u64 {
    match requested {
        Some(t) => t,
        None => DEFAULT_READ_TIMEOUT_MS,
    }
}

/// Builds the result of `read`: a timeout is an error naming the timeout;
/// otherwise the bytes are encoded for the response.
pub fn build_read_result(
    outcome: ReadOutcome,
    connection_id: String,
    encoding: Encoding,
    requested_timeout_ms: Option<u64>,
) -> (r: Result<ReadResult, String>)
    requires
        outcome.bytes@.len() <= usize::MAX / 2,
    ensures
        ({
            let timeout_ms = effective_read_timeout(requested_timeout_ms);
            match r {
                Ok(res) => {
                    &&& !outcome.timed_out
                    &&& encoded(encoding, outcome.bytes@) == Some(res.data@)
                    &&& res.connection_id@ == connection_id@
                    &&& res.bytes_read == outcome.bytes@.len()
                    &&& res.encoding@ == encoding.name()
                    &&& res.timeout_ms == timeout_ms
                    &&& res.elapsed_ms == outcome.elapsed_ms
                },
                Err(m) => if outcome.timed_out {
                    m@ == read_timeout_message(timeout_ms as nat, connection_id@)
                } else {
                    encoded(encoding, outcome.bytes@) is None && ("Data encoding failed - "@
                        + "Invalid UTF-8: "@).is_prefix_of(m@)
                },
            }
        }),
{
    let timeout_ms = match requested_timeout_ms {
        Some(t) => t,
        None => DEFAULT_READ_TIMEOUT_MS,
    };
    if outcome.timed_out {
        let mut m = String::from_str("Read timed out after ");
        let t = u64_decimal(timeout_ms);
        push_str(&mut m, t.as_str());
        push_str(&mut m, "ms on ");
        push_str(&mut m, connection_id.as_str());
        return Err(m);
    }
    let bytes_read = outcome.bytes.len();
    let data = match encode(encoding, outcome.bytes.as_slice()) {
        Ok(d) => d,
        Err(e) => {
            let mut m = String::from_str("Data encoding failed - ");
            let t = e.message();
            push_str(&mut m, t.as_str());
            proof {
                let a = "Data encoding failed - "@;
                let b = e.message_prefix();
                assert(m@ == a + t@);
                assert((a + b) =~= m@.subrange(0, (a + b).len() as int));
            }
            return Err(m);
        },
    };
    Ok(ReadResult {
        connection_id,
        bytes_read,
        encoding: encoding.to_string(),
        data,
        timeout_ms,
        elapsed_ms: outcome.elapsed_ms,
    })
}

} // verus!
