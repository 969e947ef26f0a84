//! The checks and the result of the `wait_for` tool.
use crate::codec::{decode, decoded, encode, encoded, encoding_for_name, Encoding};
use crate::text::{decimal, lowercase, push_str, u64_decimal};
use crate::tools::helpers::{
    above_max_message, below_min_message, clamp_or_err, clamp_timeout_or_err, occurs_at,
    parse_encoding, require_min_or_err, unsupported_encoding_message, WaitOutcome, MAX_TIMEOUT_MS,
    MAX_WAIT_BYTES, MIN_WAIT_BYTES,
};
use crate::tools::types::WaitForResult;
use vstd::prelude::*;
use vstd::string::*;

verus! {

/// The pattern of a `wait_for` call and the encoding of its response.
pub struct WaitPlan {
    pub pattern: Vec<u8>,
    pub response_encoding: Encoding,
}

/// Parses the encodings of `wait_for` and decodes its pattern, which must
/// not be empty.
pub fn prepare_wait_for(pattern: &str, pattern_encoding: &str, response_encoding: &str) -> (r:
    Result<WaitPlan, String>)
    ensures
        match r {
            Ok(plan) => {
                &&& encoding_for_name(lowercase(response_encoding@)) == Some(plan.response_encoding)
                &&& encoding_for_name(lowercase(pattern_encoding@)) matches Some(pe)
                    && decoded(pe, pattern@) == Some(plan.pattern@)
                &&& plan.pattern@.len() > 0
            },
            Err(m) => match encoding_for_name(lowercase(pattern_encoding@)) {
                None => m@ == unsupported_encoding_message(pattern_encoding@),
                Some(pe) => match encoding_for_name(lowercase(response_encoding@)) {
                    None => m@ == unsupported_encoding_message(response_encoding@),
                    Some(_) => match decoded(pe, pattern@) {
                        None => ("Pattern decoding failed - "@).is_prefix_of(m@),
                        Some(p) => p.len() == 0 && m@ == "Pattern must not be empty"@,
                    },
                },
            },
        },
{
    let pe = parse_encoding(pattern_encoding)?;
    let re = parse_encoding(response_encoding)?;
    let bytes = match decode(pe, pattern) {
        Ok(b) => b,
        Err(e) => {
            let mut m = String::from_str("Pattern decoding failed - ");
            let t = e.message();
            push_str(&mut m, t.as_str());
            proof {
                assert("Pattern decoding failed - "@ =~= m@.subrange(0, "Pattern decoding failed - "@.len() as int));
            }
            return Err(m);
        },
    };
    if bytes.len() == 0 {
        return Err(String::from_str("Pattern must not be empty"));
    }
    Ok(WaitPlan { pattern: bytes, response_encoding: re })
}

/// Checks the limits of `wait_for`: `max_bytes` in `1..=MAX_WAIT_BYTES`
/// and a timeout of at most `MAX_TIMEOUT_MS`.
pub fn check_wait_limits(max_bytes: usize, timeout_ms: u64) -> (r: Result<(), String>)
    ensures
        match r {
            Ok(_) => MIN_WAIT_BYTES <= max_bytes <= MAX_WAIT_BYTES && timeout_ms <= MAX_TIMEOUT_MS,
            Err(m) => if max_bytes < MIN_WAIT_BYTES {
                m@ == below_min_message("wait_for.max_bytes"@, max_bytes as nat, MIN_WAIT_BYTES as nat, ""@)
            } else if max_bytes > MAX_WAIT_BYTES {
                m@ == above_max_message("wait_for.max_bytes"@, max_bytes as nat, MAX_WAIT_BYTES as nat, ""@)
            } else {
                timeout_ms > MAX_TIMEOUT_MS && m@ == above_max_message(
                    "wait_for.timeout_ms"@,
                    timeout_ms as nat,
                    MAX_TIMEOUT_MS as nat,
                    "ms"@,
                )
            },
        },
{
    require_min_or_err("wait_for.max_bytes", max_bytes, MIN_WAIT_BYTES)?;
    clamp_or_err("wait_for.max_bytes", max_bytes, MAX_WAIT_BYTES)?;
    clamp_timeout_or_err("wait_for.timeout_ms", timeout_ms, MAX_TIMEOUT_MS)?;
    Ok(())
}

/// `Pattern wait timed out after Tms on ID`.
pub open spec fn wait_timeout_message(timeout_ms: nat, id: Seq<char>) -> Seq<char> {
    "Pattern wait timed out after "@ + decimal(timeout_ms) + "ms on "@ + id
}

/// Builds the result of `wait_for`: a timeout is an error naming the
/// timeout; otherwise the gathered bytes are encoded for the response,
/// with the match position when the pattern was found.
pub fn build_wait_for_result(
    connection_id: String,
    outcome: WaitOutcome,
    response_encoding: Encoding,
    timeout_ms: u64,
) -> (r: Result<WaitForResult, String>)
    requires
        outcome.bytes@.len() <= usize::MAX / 2,
    ensures
        match r {
            Ok(res) => {
                &&& !outcome.timed_out
                &&& encoded(response_encoding, outcome.bytes@) == Some(res.data@)
                &&& res.connection_id@ == connection_id@
                &&& res.matched == (outcome.match_index is Some)
                &&& res.match_index == outcome.match_index
                &&& res.bytes_read == outcome.bytes@.len()
                &&& res.timeout_ms == timeout_ms
                &&& res.response_encoding@ == response_encoding.name()
            },
            Err(m) => if outcome.timed_out {
                m@ == wait_timeout_message(timeout_ms as nat, connection_id@)
            } else {
                encoded(response_encoding, outcome.bytes@) is None && ("Response encoding failed - "@).is_prefix_of(m@)
            },
        },
{
    if outcome.timed_out {
        let mut m = String::from_str("Pattern wait timed out after ");
        let t = u64_decimal(timeout_ms);
        push_str(&mut m, t.as_str());
        push_str(&mut m, "ms on ");
        push_str(&mut m, connection_id.as_str());
        return Err(m);
    }
    let bytes_read = outcome.bytes.len();
    let data = match encode(response_encoding, outcome.bytes.as_slice()) {
        Ok(d) => d,
        Err(e) => {
            let mut m = String::from_str("Response encoding failed - ");
            let t = e.message();
            push_str(&mut m, t.as_str());
            proof {
                assert("Response encoding failed - "@ =~= m@.subrange(0, "Response encoding failed - "@.len() as int));
            }
            return Err(m);
        },
    };
    let matched = outcome.match_index.is_some();
    Ok(WaitForResult {
        connection_id,
        matched,
        data,
        bytes_read,
        match_index: outcome.match_index,
        timeout_ms,
        response_encoding: response_encoding.to_string(),
    })
}

} // verus!
