//! The checks and conversions of the `write` and `read` tools.
use crate::codec::{decode, decoded, encoding_for_name, Encoding};
use crate::text::{lowercase, push_str};
use crate::tools::helpers::{
    above_max_message, below_min_message, clamp_or_err, clamp_timeout_or_err, parse_encoding,
    require_min_or_err, unsupported_encoding_message, MAX_READ_BYTES, MAX_TIMEOUT_MS,
    MAX_WRITE_BYTES, MIN_READ_BYTES,
};
use vstd::prelude::*;
use vstd::string::*;

verus! {

/// Parses an encoding argument (the `encoding` of `write` and `read`).
pub fn encoding_from_str(raw: &str) -> (r: Result<Encoding, String>)
    ensures
        match r {
            Ok(e) => encoding_for_name(lowercase(raw@)) == Some(e),
            Err(m) => encoding_for_name(lowercase(raw@)) is None && m@
                == unsupported_encoding_message(raw@),
        },
{
    parse_encoding(raw)
}

/// The bytes that `write` sends: the payload decoded, refused when it does
/// not decode or exceeds `MAX_WRITE_BYTES`.
pub fn decode_write_payload(encoding: Encoding, data: &str) -> (r: Result<Vec<u8>, String>)
    ensures
        match r {
            Ok(v) => decoded(encoding, data@) == Some(v@) && v@.len() <= MAX_WRITE_BYTES,
            Err(m) => match decoded(encoding, data@) {
                None => ("Data decoding failed - "@).is_prefix_of(m@),
                Some(b) => b.len() > MAX_WRITE_BYTES && m@ == above_max_message(
                    "write.data.len()"@,
                    b.len(),
                    MAX_WRITE_BYTES as nat,
                    ""@,
                ),
            },
        },
{
    let bytes = match decode(encoding, data) {
        Ok(b) => b,
        Err(e) => {
            let mut m = String::from_str("Data decoding failed - ");
            let t = e.message();
            push_str(&mut m, t.as_str());
            proof {
                assert("Data decoding failed - "@ =~= m@.subrange(0, "Data decoding failed - "@.len() as int));
            }
            return Err(m);
        },
    };
    clamp_or_err("write.data.len()", bytes.len(), MAX_WRITE_BYTES)?;
    Ok(bytes)
}

/// Checks the limits of `read`: `max_bytes` in `1..=MAX_READ_BYTES` and a
/// timeout, when given, of at most `MAX_TIMEOUT_MS`.
pub fn check_read_args(max_bytes: usize, timeout_ms: Option<u64>) -> (r: Result<usize, String>)
    ensures
        match r {
            Ok(n) => n == max_bytes && MIN_READ_BYTES <= max_bytes <= MAX_READ_BYTES && match timeout_ms {
                Some(t) => t <= MAX_TIMEOUT_MS,
                None => true,
            },
            Err(m) => if max_bytes < MIN_READ_BYTES {
                m@ == below_min_message("read.max_bytes"@, max_bytes as nat, MIN_READ_BYTES as nat, ""@)
            } else if max_bytes > MAX_READ_BYTES {
                m@ == above_max_message("read.max_bytes"@, max_bytes as nat, MAX_READ_BYTES as nat, ""@)
            } else {
                timeout_ms matches Some(t) && t > MAX_TIMEOUT_MS && m@ == above_max_message(
                    "read.timeout_ms"@,
                    t as nat,
                    MAX_TIMEOUT_MS as nat,
                    "ms"@,
                )
            },
        },
{
    let n = require_min_or_err("read.max_bytes", max_bytes, MIN_READ_BYTES)?;
    let n = clamp_or_err("read.max_bytes", n, MAX_READ_BYTES)?;
    match timeout_ms {
        Some(t) => {
            clamp_timeout_or_err("read.timeout_ms", t, MAX_TIMEOUT_MS)?;
        },
        None => {},
    }
    Ok(n)
}

} // verus!
