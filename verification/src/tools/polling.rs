//! The decisions of the reading loops. Each loop alternates a timed read
//! on the port (done by the caller) with a decision taken here: how much to
//! read next and for how long, or that the loop is over.
use crate::codec::{encode, encoded, Encoding};
use crate::tools::helpers::{find_subslice, occurs_at, ReadOutcome, WaitOutcome};
use vstd::prelude::*;

verus! {

/// Longest single poll while waiting, so progress can be reported.
pub const POLL_SLICE_MS: u64 = 250;

/// How long `read` keeps collecting after the first bytes arrived.
pub const SETTLE_MS: u64 = 50;

/// Largest single read while waiting for a pattern.
pub const WAIT_CHUNK_CAPACITY: usize = 256;

/// The next action of a reading loop.
#[derive(Debug, Clone, Copy, PartialEq, Eq, Structural)]
pub enum PollStep {
    /// Read at most `max_len` bytes, waiting at most `wait_ms`.
    Read { max_len: usize, wait_ms: u64 },
    /// The loop is over.
    Stop,
}

/// `remaining_ms` clamped to `1..=250`: the length of one poll slice.
pub open spec fn poll_slice(remaining_ms: u64) -> u64 {
    if remaining_ms < 1 {
        1
    } else if remaining_ms > POLL_SLICE_MS {
        POLL_SLICE_MS
    } else {
        remaining_ms
    }
}

/// The length of one poll slice.
pub fn poll_slice_ms(remaining_ms: u64) -> (w: u64)
    ensures
        w == poll_slice(remaining_ms),
{
    if remaining_ms < 1 {
        1
    } else if remaining_ms > POLL_SLICE_MS {
        POLL_SLICE_MS
    } else {
        remaining_ms
    }
}

/// The time spent so far, for a progress report: `total - remaining`, or 0.
pub fn progress_elapsed_ms(total_ms: u64, remaining_ms: u64) -> (e: u64)
    ensures
        e == if remaining_ms <= total_ms {
            total_ms - remaining_ms
        } else {
            0
        },
{
    if remaining_ms <= total_ms {
        total_ms - remaining_ms
    } else {
        0
    }
}

/// Appends `chunk` to `v`.
fn append_bytes(v: &mut Vec<u8>, chunk: &[u8])
    ensures
        final(v)@ == old(v)@ + chunk@,
{
    let mut i: usize = 0;
    while i < chunk.len()
        invariant
            i <= chunk@.len(),
            v@ == old(v)@ + chunk@.take(i as int),
        decreases chunk@.len() - i,
    {
        v.push(chunk[i]);
        assert(chunk@.take(i + 1) =~= chunk@.take(i as int).push(chunk@[i as int]));
        i = i + 1;
    }
    assert(chunk@.take(chunk@.len() as int) =~= chunk@);
}

// ---- read ------------------------------------------------------------------------

/// The state of a `read` call: it waits for the first bytes until the
/// deadline, then keeps reading while more arrive within short settle
/// windows, up to `max_bytes`.
pub struct ReadCollector {
    max_bytes: usize,
    bytes: Vec<u8>,
    finished: bool,
    timed_out: bool,
}

impl ReadCollector {
    #[verifier::type_invariant]
    spec fn consistent(self) -> bool {
        &&& self.bytes@.len() <= self.max_bytes
        &&& self.timed_out ==> self.finished && self.bytes@.len() == 0
    }

    pub closed spec fn limit(self) -> usize {
        self.max_bytes
    }

    pub closed spec fn received(self) -> Seq<u8> {
        self.bytes@
    }

    pub closed spec fn is_finished(self) -> bool {
        self.finished
    }

    pub closed spec fn is_timed_out(self) -> bool {
        self.timed_out
    }

    pub fn new(max_bytes: usize) -> (c: Self)
        ensures
            c.limit() == max_bytes,
            c.received() == Seq::<u8>::empty(),
            !c.is_finished(),
            !c.is_timed_out(),
    {
        ReadCollector { max_bytes, bytes: Vec::new(), finished: false, timed_out: false }
    }

    /// Decides the next read. `expired` tells that the deadline has passed;
    /// `remaining_ms` is the time left before it, in whole milliseconds.
    pub fn next(&mut self, expired: bool, remaining_ms: u64) -> (s: PollStep)
        ensures
            final(self).limit() == old(self).limit(),
            final(self).received() == old(self).received(),
            old(self).is_finished() ==> s is Stop && final(self).is_finished() && final(self).is_timed_out() == old(self).is_timed_out(),
            !old(self).is_finished() && old(self).received().len() == 0 ==> if expired {
                s is Stop && final(self).is_finished() && final(self).is_timed_out()
            } else {
                s == (PollStep::Read {
                    max_len: old(self).limit(),
                    wait_ms: poll_slice(remaining_ms),
                }) && !final(self).is_finished() && !final(self).is_timed_out()
            },
            !old(self).is_finished() && old(self).received().len() > 0 ==> ({
                let settle = if remaining_ms < SETTLE_MS {
                    remaining_ms
                } else {
                    SETTLE_MS
                };
                if old(self).received().len() >= old(self).limit() || settle == 0 {
                    s is Stop && final(self).is_finished() && !final(self).is_timed_out()
                } else {
                    s == (PollStep::Read {
                        max_len: (old(self).limit() - old(self).received().len()) as usize,
                        wait_ms: settle,
                    }) && !final(self).is_finished() && !final(self).is_timed_out()
                }
            }),
    {
        proof {
            use_type_invariant(&*self);
        }
        if self.finished {
            return PollStep::Stop;
        }
        if self.bytes.len() == 0 {
            if expired {
                self.finished = true;
                self.timed_out = true;
                return PollStep::Stop;
            }
            return PollStep::Read { max_len: self.max_bytes, wait_ms: poll_slice_ms(remaining_ms) };
        }
        let settle = if remaining_ms < SETTLE_MS {
            remaining_ms
        } else {
            SETTLE_MS
        };
        if self.bytes.len() >= self.max_bytes || settle == 0 {
            self.finished = true;
            return PollStep::Stop;
        }
        PollStep::Read { max_len: self.max_bytes - self.bytes.len(), wait_ms: settle }
    }

    /// Records bytes that a read returned.
    pub fn absorb(&mut self, chunk: &[u8])
        requires
            !old(self).is_finished(),
            chunk@.len() > 0,
            old(self).received().len() + chunk@.len() <= old(self).limit(),
        ensures
            final(self).limit() == old(self).limit(),
            final(self).received() == old(self).received() + chunk@,
            !final(self).is_finished(),
            !final(self).is_timed_out(),
    {
        proof {
            use_type_invariant(&*self);
        }
        let mut bytes = Vec::new();
        std::mem::swap(&mut bytes, &mut self.bytes);
        append_bytes(&mut bytes, chunk);
        self.bytes = bytes;
    }

    /// Records a read that returned nothing before its wait ran out. While
    /// waiting for the first bytes this changes nothing; once bytes arrived
    /// it ends the read.
    pub fn no_data(&mut self)
        ensures
            final(self).limit() == old(self).limit(),
            final(self).received() == old(self).received(),
            final(self).is_timed_out() == old(self).is_timed_out(),
            final(self).is_finished() == (old(self).is_finished() || old(self).received().len()
                > 0),
    {
        proof {
            use_type_invariant(&*self);
        }
        if self.bytes.len() > 0 {
            self.finished = true;
        }
    }

    /// The outcome of the read: what was received, and whether it timed out.
    pub fn outcome(self, elapsed_ms: u64) -> (o: ReadOutcome)
        ensures
            o.bytes@ == self.received(),
            o.timed_out == self.is_timed_out(),
            o.elapsed_ms == elapsed_ms,
            o.bytes@.len() <= self.limit(),
            o.timed_out ==> o.bytes@.len() == 0,
    {
        proof {
            use_type_invariant(&self);
        }
        ReadOutcome { bytes: self.bytes, timed_out: self.timed_out, elapsed_ms }
    }
}

// ---- wait_for ----------------------------------------------------------------

/// The next action while waiting for a pattern.
#[derive(Debug, Clone, Copy, PartialEq, Eq, Structural)]
pub enum WaitStep {
    /// Read at most `max_len` bytes, waiting at most `wait_ms`.
    Read { max_len: usize, wait_ms: u64 },
    /// The pattern occurs, first at this position.
    Matched(usize),
    /// `max_bytes` were gathered without a match.
    Full,
    /// The deadline passed without a match.
    TimedOut,
}

/// The state of a `wait_for` call: bytes gathered so far, checked for the
/// pattern before each read.
pub struct PatternWatch {
    pattern: Vec<u8>,
    max_bytes: usize,
    bytes: Vec<u8>,
}

impl PatternWatch {
    #[verifier::type_invariant]
    spec fn bounded(self) -> bool {
        self.bytes@.len() <= self.max_bytes
    }

    pub closed spec fn pattern(self) -> Seq<u8> {
        self.pattern@
    }

    pub closed spec fn limit(self) -> usize {
        self.max_bytes
    }

    pub closed spec fn received(self) -> Seq<u8> {
        self.bytes@
    }

    pub fn new(pattern: Vec<u8>, max_bytes: usize) -> (w: Self)
        ensures
            w.pattern() == pattern@,
            w.limit() == max_bytes,
            w.received() == Seq::<u8>::empty(),
    {
        PatternWatch { pattern, max_bytes, bytes: Vec::new() }
    }

    /// Decides what to do next: report a match, report that the buffer is
    /// full or that the deadline passed, or read more.
    pub fn next(&self, expired: bool, remaining_ms: u64) -> (s: WaitStep)
        ensures
            match s {
                WaitStep::Matched(i) => self.pattern().len() > 0 && occurs_at(
                    self.received(),
                    self.pattern(),
                    i as int,
                ) && forall|j: int| 0 <= j < i ==> !#[trigger] occurs_at(self.received(), self.pattern(), j),
                _ => self.pattern().len() == 0 || forall|j: int|
                    !#[trigger] occurs_at(self.received(), self.pattern(), j),
            },
            s is Full <==> !(s is Matched) && self.received().len() >= self.limit(),
            s is TimedOut <==> !(s is Matched) && self.received().len() < self.limit() && expired,
            s is Read ==> s == (WaitStep::Read {
                max_len: if self.limit() - self.received().len() < WAIT_CHUNK_CAPACITY {
                    (self.limit() - self.received().len()) as usize
                } else {
                    WAIT_CHUNK_CAPACITY
                },
                wait_ms: poll_slice(remaining_ms),
            }),
    {
        proof {
            use_type_invariant(self);
        }
        match find_subslice(self.bytes.as_slice(), self.pattern.as_slice()) {
            Some(i) => {
                return WaitStep::Matched(i);
            },
            None => {},
        }
        if self.bytes.len() >= self.max_bytes {
            return WaitStep::Full;
        }
        if expired {
            return WaitStep::TimedOut;
        }
        let room = self.max_bytes - self.bytes.len();
        let max_len = if room < WAIT_CHUNK_CAPACITY {
            room
        } else {
            WAIT_CHUNK_CAPACITY
        };
        WaitStep::Read { max_len, wait_ms: poll_slice_ms(remaining_ms) }
    }

    /// Records bytes that a read returned.
    pub fn absorb(&mut self, chunk: &[u8])
        requires
            old(self).received().len() + chunk@.len() <= old(self).limit(),
        ensures
            final(self).pattern() == old(self).pattern(),
            final(self).limit() == old(self).limit(),
            final(self).received() == old(self).received() + chunk@,
    {
        proof {
            use_type_invariant(&*self);
        }
        let mut bytes = Vec::new();
        std::mem::swap(&mut bytes, &mut self.bytes);
        append_bytes(&mut bytes, chunk);
        self.bytes = bytes;
    }

    /// The outcome once `next` ended the wait with `last`.
    pub fn outcome(self, last: WaitStep) -> (o: WaitOutcome)
        ensures
            o.bytes@ == self.received(),
            o.bytes@.len() <= self.limit(),
            o.match_index == match last {
                WaitStep::Matched(i) => Some(i),
                _ => None::<usize>,
            },
            o.timed_out == (last is TimedOut),
    {
        proof {
            use_type_invariant(&self);
        }
        let match_index = match last {
            WaitStep::Matched(i) => Some(i),
            _ => None,
        };
        let timed_out = match last {
            WaitStep::TimedOut => true,
            _ => false,
        };
        WaitOutcome { bytes: self.bytes, match_index, timed_out }
    }
}

// ---- subscribe with a timeout ----------------------------------------------------

/// The state of a blocking `subscribe`: bytes are collected until the
/// timeout or until `limit` bytes arrived.
pub struct ChunkCollector {
    limit: usize,
    timeout_ms: u64,
    poll_ms: u64,
    bytes: Vec<u8>,
}

impl ChunkCollector {
    #[verifier::type_invariant]
    spec fn bounded(self) -> bool {
        self.bytes@.len() <= self.limit
    }

    pub closed spec fn limit(self) -> usize {
        self.limit
    }

    pub closed spec fn timeout(self) -> u64 {
        self.timeout_ms
    }

    pub closed spec fn poll(self) -> u64 {
        self.poll_ms
    }

    pub closed spec fn received(self) -> Seq<u8> {
        self.bytes@
    }

    pub fn new(limit: usize, timeout_ms: u64, poll_ms: u64) -> (c: Self)
        ensures
            c.limit() == limit,
            c.timeout() == timeout_ms,
            c.poll() == poll_ms,
            c.received() == Seq::<u8>::empty(),
    {
        ChunkCollector { limit, timeout_ms, poll_ms, bytes: Vec::new() }
    }

    /// Decides the next read, `elapsed_ms` after the collection started:
    /// stop once a read filled the buffer or the timeout passed, else read
    /// into the rest of the buffer for at most one poll interval.
    pub fn next(&self, elapsed_ms: u64) -> (s: PollStep)
        ensures
            (self.received().len() > 0 && self.received().len() >= self.limit()) || elapsed_ms
                >= self.timeout() ==> s is Stop,
            !((self.received().len() > 0 && self.received().len() >= self.limit()) || elapsed_ms
                >= self.timeout()) ==> s == (PollStep::Read {
                max_len: (self.limit() - self.received().len()) as usize,
                wait_ms: if self.timeout() - elapsed_ms < self.poll() {
                    (self.timeout() - elapsed_ms) as u64
                } else {
                    self.poll()
                },
            }),
    {
        proof {
            use_type_invariant(self);
        }
        if (self.bytes.len() > 0 && self.bytes.len() >= self.limit) || elapsed_ms >= self.timeout_ms {
            return PollStep::Stop;
        }
        let left = self.timeout_ms - elapsed_ms;
        let wait_ms = if left < self.poll_ms {
            left
        } else {
            self.poll_ms
        };
        PollStep::Read { max_len: self.limit - self.bytes.len(), wait_ms }
    }

    /// Records bytes that a read returned.
    pub fn absorb(&mut self, chunk: &[u8])
        requires
            old(self).received().len() + chunk@.len() <= old(self).limit(),
        ensures
            final(self).limit() == old(self).limit(),
            final(self).timeout() == old(self).timeout(),
            final(self).poll() == old(self).poll(),
            final(self).received() == old(self).received() + chunk@,
    {
        proof {
            use_type_invariant(&*self);
        }
        let mut bytes = Vec::new();
        std::mem::swap(&mut bytes, &mut self.bytes);
        append_bytes(&mut bytes, chunk);
        self.bytes = bytes;
    }

    /// The bytes collected.
    pub fn into_bytes(self) -> (b: Vec<u8>)
        ensures
            b@ == self.received(),
            b@.len() <= self.limit(),
    {
        proof {
            use_type_invariant(&self);
        }
        self.bytes
    }
}

// ---- subscribe in the background -------------------------------------------------

/// What the background stream reports for a chunk of received bytes.
pub enum RxEvent {
    /// The chunk, encoded.
    Data { data: String, bytes_read: usize },
    /// The chunk could not be encoded and was dropped.
    Dropped { bytes_dropped: usize, reason: String },
}

/// The report for one chunk received by a background stream.
pub fn rx_event(encoding: Encoding, chunk: &[u8]) -> (e: RxEvent)
    requires
        chunk@.len() <= usize::MAX / 2,
    ensures
        match e {
            RxEvent::Data { data, bytes_read } => encoded(encoding, chunk@) == Some(data@)
                && bytes_read == chunk@.len(),
            RxEvent::Dropped { bytes_dropped, .. } => encoded(encoding, chunk@) is None
                && bytes_dropped == chunk@.len(),
        },
{
    match encode(encoding, chunk) {
        Ok(data) => RxEvent::Data { data, bytes_read: chunk.len() },
        Err(e) => RxEvent::Dropped { bytes_dropped: chunk.len(), reason: e.message() },
    }
}

} // verus!
