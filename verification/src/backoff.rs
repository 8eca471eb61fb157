use vstd::prelude::*;

verus! {

/// The wait before the first reconnect after a failure, in milliseconds.
pub const INITIAL_BACKOFF_MS: u64 = 250;

/// The longest wait between two reconnects, in milliseconds.
pub const MAX_BACKOFF_MS: u64 = 30_000;

/// The wait that follows a wait of `ms`: twice as long, but never over
/// thirty seconds.
pub open spec fn next_backoff(ms: u64) -> u64 {
    if 2 * ms <= 30_000 {
        (2 * ms) as u64
    } else {
        30_000
    }
}

/// The wait before the reconnect that follows the `n`-th failure in a row,
/// counting from zero.
pub open spec fn nth_wait(n: nat) -> u64
    decreases n,
{
    if n == 0 {
        250
    } else {
        next_backoff(nth_wait((n - 1) as nat))
    }
}

/// How a session ended.
#[derive(Debug, Clone, Copy, PartialEq, Eq, Structural)]
pub enum SessionEnd {
    /// The server closed the connection, or the stream ran out.
    Clean,
    /// The connection could not be made, or it broke.
    Failed,
}

/// The wait between reconnects. It starts at 250 ms, doubles with every
/// failure up to 30 s, and starts over after a session that ended cleanly.
#[derive(Debug, Clone, Copy, PartialEq, Eq, Structural)]
pub struct Backoff {
    pub wait_ms: u64,
}

impl Backoff {
    pub fn new() -> (b: Backoff)
        ensures
            b.wait_ms == 250,
    {
        Backoff { wait_ms: INITIAL_BACKOFF_MS }
    }

    /// Takes note of how a session ended and says how long to sleep before
    /// the next one: not at all after a clean end, the current wait after a
    /// failure.
    pub fn after_session(&mut self, end: SessionEnd) -> (sleep_ms: Option<u64>)
        ensures
            end == SessionEnd::Clean ==> sleep_ms is None && final(self).wait_ms == 250,
            end == SessionEnd::Failed ==> sleep_ms == Some(old(self).wait_ms),
            end == SessionEnd::Failed ==> final(self).wait_ms == next_backoff(old(self).wait_ms),
    {
        match end {
            SessionEnd::Clean => {
                self.wait_ms = INITIAL_BACKOFF_MS;
                None
            },
            SessionEnd::Failed => {
                let now = self.wait_ms;
                self.wait_ms = if now >= MAX_BACKOFF_MS / 2 + 1 {
                    MAX_BACKOFF_MS
                } else {
                    now * 2
                };
                Some(now)
            },
        }
    }
}

/// Backoff: on failure after failure the waits are 250 ms, 500 ms, 1 s,
/// 2 s, 4 s, 8 s, 16 s, and 30 s from then on.
pub proof fn lemma_backoff_sequence(n: nat)
    ensures
        n == 0 ==> nth_wait(n) == 250,
        n == 1 ==> nth_wait(n) == 500,
        n == 2 ==> nth_wait(n) == 1_000,
        n == 3 ==> nth_wait(n) == 2_000,
        n == 4 ==> nth_wait(n) == 4_000,
        n == 5 ==> nth_wait(n) == 8_000,
        n == 6 ==> nth_wait(n) == 16_000,
        n >= 7 ==> nth_wait(n) == 30_000,
    decreases n,
{
    if n > 0 {
        lemma_backoff_sequence((n - 1) as nat);
    }
}

/// The waits never shrink while failures go on, and none is over 30 s.
pub proof fn lemma_backoff_monotone(n: nat)
    ensures
        nth_wait(n) <= nth_wait(n + 1),
        250 <= nth_wait(n) <= 30_000,
{
    lemma_backoff_sequence(n);
    lemma_backoff_sequence(n + 1);
}

} // verus!
