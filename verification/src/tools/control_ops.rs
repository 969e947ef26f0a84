//! The checks and decisions of the `send_break` tool: the duration it
//! accepts and what each tick of the hold does.
use crate::tools::helpers::{above_max_message, clamp_timeout_or_err, MAX_TIMEOUT_MS};
use vstd::prelude::*;

verus! {

/// Checks the BREAK duration: at most `MAX_TIMEOUT_MS`.
pub fn check_break_duration(duration_ms: u64) -> (r: Result<u64, String>)
    ensures
        match r {
            Ok(d) => d == duration_ms && duration_ms <= MAX_TIMEOUT_MS,
            Err(m) => duration_ms > MAX_TIMEOUT_MS && m@ == above_max_message(
                "send_break.duration_ms"@,
                duration_ms as nat,
                MAX_TIMEOUT_MS as nat,
                "ms"@,
            ),
        },
{
    clamp_timeout_or_err("send_break.duration_ms", duration_ms, MAX_TIMEOUT_MS)
}

/// Interval between two ticks of the BREAK hold, which is also the interval
/// of its progress reports.
pub const BREAK_TICK_MS: u64 = 250;

/// What one tick of the BREAK hold does.
#[derive(Debug, Clone, Copy, PartialEq, Eq, Structural)]
pub enum BreakTick {
    /// The requested duration has passed: release the line.
    Release,
    /// Keep holding, and report `elapsed_ms` as progress.
    Hold { elapsed_ms: u64 },
}

/// The decision at a tick, `elapsed_ms` after the BREAK was asserted.
pub fn break_tick(elapsed_ms: u64, duration_ms: u64) -> (t: BreakTick)
    ensures
        elapsed_ms >= duration_ms ==> t == BreakTick::Release,
        elapsed_ms < duration_ms ==> t == (BreakTick::Hold { elapsed_ms }),
{
    if elapsed_ms >= duration_ms {
        BreakTick::Release
    } else {
        BreakTick::Hold { elapsed_ms }
    }
}

} // verus!
