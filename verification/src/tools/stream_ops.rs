//! The checks and results of the `subscribe` tool.
use crate::codec::{encode, encoded, Encoding};
use crate::text::push_str;
use crate::tools::helpers::{
    above_max_message, below_min_message, clamp_or_err, clamp_poll_interval_or_err,
    clamp_timeout_or_err, require_min_or_err, MAX_STREAM_CHUNK_BYTES, MAX_TIMEOUT_MS,
    MIN_POLL_INTERVAL_MS, MIN_STREAM_CHUNK_BYTES,
};
use crate::tools::types::SubscribeResult;
use vstd::prelude::*;
use vstd::string::*;

verus! {

/// The chunk size and poll interval that a subscription uses.
pub struct SubscribeLimits {
    pub chunk_bytes: usize,
    pub poll_ms: u64,
}

/// Checks the limits of `subscribe`: a chunk size in
/// `1..=MAX_STREAM_CHUNK_BYTES`, a poll interval of at least
/// `MIN_POLL_INTERVAL_MS`, and a timeout, when given, of at most
/// `MAX_TIMEOUT_MS`.
pub fn check_subscribe_args(max_chunk_bytes: usize, poll_interval_ms: u64, timeout_ms: Option<u64>) -> (r:
    Result<SubscribeLimits, String>)
    ensures
        match r {
            Ok(l) => {
                &&& l.chunk_bytes == max_chunk_bytes
                &&& l.poll_ms == poll_interval_ms
                &&& MIN_STREAM_CHUNK_BYTES <= max_chunk_bytes <= MAX_STREAM_CHUNK_BYTES
                &&& poll_interval_ms >= MIN_POLL_INTERVAL_MS
                &&& (timeout_ms matches Some(t) ==> t <= MAX_TIMEOUT_MS)
            },
            Err(m) => if max_chunk_bytes < MIN_STREAM_CHUNK_BYTES {
                m@ == below_min_message(
                    "subscribe.max_chunk_bytes"@,
                    max_chunk_bytes as nat,
                    MIN_STREAM_CHUNK_BYTES as nat,
                    ""@,
                )
            } else if max_chunk_bytes > MAX_STREAM_CHUNK_BYTES {
                m@ == above_max_message(
                    "subscribe.max_chunk_bytes"@,
                    max_chunk_bytes as nat,
                    MAX_STREAM_CHUNK_BYTES as nat,
                    ""@,
                )
            } else if poll_interval_ms < MIN_POLL_INTERVAL_MS {
                m@ == below_min_message(
                    "subscribe.poll_interval_ms"@,
                    poll_interval_ms as nat,
                    MIN_POLL_INTERVAL_MS as nat,
                    "ms"@,
                )
            } else {
                timeout_ms matches Some(t) && t > MAX_TIMEOUT_MS && m@ == above_max_message(
                    "subscribe.timeout_ms"@,
                    t as nat,
                    MAX_TIMEOUT_MS as nat,
                    "ms"@,
                )
            },
        },
{
    let chunk_bytes = require_min_or_err(
        "subscribe.max_chunk_bytes",
        max_chunk_bytes,
        MIN_STREAM_CHUNK_BYTES,
    )?;
    let chunk_bytes = clamp_or_err("subscribe.max_chunk_bytes", chunk_bytes, MAX_STREAM_CHUNK_BYTES)?;
    let poll_ms = clamp_poll_interval_or_err(
        "subscribe.poll_interval_ms",
        poll_interval_ms,
        MIN_POLL_INTERVAL_MS,
    )?;
    match timeout_ms {
        Some(t) => {
            clamp_timeout_or_err("subscribe.timeout_ms", t, MAX_TIMEOUT_MS)?;
        },
        None => {},
    }
    Ok(SubscribeLimits { chunk_bytes, poll_ms })
}

/// The result of a background subscription.
pub fn streaming_subscribe_result(
    connection_id: String,
    encoding: Encoding,
    limits: &SubscribeLimits,
    replaced_previous: bool,
) -> (r: SubscribeResult)
    ensures
        r.connection_id@ == connection_id@,
        r.encoding@ == encoding.name(),
        r.max_chunk_bytes == limits.chunk_bytes,
        r.poll_interval_ms == limits.poll_ms,
        r.replaced_previous == replaced_previous,
        r.data is None && r.bytes_read is None && r.elapsed_ms is None && r.timeout_ms is None,
{
    SubscribeResult {
        connection_id,
        encoding: encoding.to_string(),
        max_chunk_bytes: limits.chunk_bytes,
        poll_interval_ms: limits.poll_ms,
        replaced_previous,
        data: None,
        bytes_read: None,
        elapsed_ms: None,
        timeout_ms: None,
    }
}

/// The result of a subscription with a timeout: the collected bytes,
/// encoded, with how many there were and how long the collection took.
pub fn collected_subscribe_result(
    connection_id: String,
    encoding: Encoding,
    limits: &SubscribeLimits,
    replaced_previous: bool,
    bytes: &[u8],
    elapsed_ms: u64,
    timeout_ms: u64,
) -> (r: Result<SubscribeResult, String>)
    requires
        bytes@.len() <= usize::MAX / 2,
    ensures
        match r {
            Ok(res) => {
                &&& res.connection_id@ == connection_id@
                &&& res.encoding@ == encoding.name()
                &&& res.max_chunk_bytes == limits.chunk_bytes
                &&& res.poll_interval_ms == limits.poll_ms
                &&& res.replaced_previous == replaced_previous
                &&& res.data matches Some(d) && encoded(encoding, bytes@) == Some(d@)
                &&& res.bytes_read == Some(bytes@.len() as usize)
                &&& res.elapsed_ms == Some(elapsed_ms)
                &&& res.timeout_ms == Some(timeout_ms)
            },
            Err(m) => encoded(encoding, bytes@) is None && ("Data encoding failed - "@).is_prefix_of(m@),
        },
{
    let data = match encode(encoding, bytes) {
        Ok(d) => d,
        Err(e) => {
            let mut m = String::from_str("Data encoding failed - ");
            let t = e.message();
            push_str(&mut m, t.as_str());
            proof {
                assert("Data encoding failed - "@ =~= m@.subrange(0, "Data encoding failed - "@.len() as int));
            }
            return Err(m);
        },
    };
    Ok(SubscribeResult {
        connection_id,
        encoding: encoding.to_string(),
        max_chunk_bytes: limits.chunk_bytes,
        poll_interval_ms: limits.poll_ms,
        replaced_previous,
        data: Some(data),
        bytes_read: Some(bytes.len()),
        elapsed_ms: Some(elapsed_ms),
        timeout_ms: Some(timeout_ms),
    })
}

} // verus!
