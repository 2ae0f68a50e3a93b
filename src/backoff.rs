//! Reconnect backoff of the client: exponential while connecting keeps
//! failing, back to the start after a connection that was fully set up.
use vstd::prelude::*;
use vstd::arithmetic::power2::{pow2, lemma_pow2_unfold, lemma2_to64};

verus! {

pub const INITIAL_BACKOFF_SECS: u64 = 1;

pub const MAX_BACKOFF_SECS: u64 = 30;

/// The wait before the next attempt, after an attempt that ended;
/// `established` says whether the connection had been fully set up.
pub open spec fn spec_wait(next: u64, established: bool) -> u64 {
    if established {
        INITIAL_BACKOFF_SECS
    } else {
        next
    }
}

/// The wait held for the attempt after that one: double, at most the cap.
pub open spec fn spec_next(next: u64, established: bool) -> u64 {
    let w = spec_wait(next, established);
    if 2 * w > MAX_BACKOFF_SECS {
        MAX_BACKOFF_SECS
    } else {
        (2 * w) as u64
    }
}

/// The held wait after the attempts `ended`, from a fresh state.
pub open spec fn backoff_run(ended: Seq<bool>) -> u64
    decreases ended.len(),
{
    if ended.len() == 0 {
        INITIAL_BACKOFF_SECS
    } else {
        spec_next(backoff_run(ended.drop_last()), ended.last())
    }
}

/// Reconnect delay state.
#[derive(Debug, Clone, Copy, PartialEq, Eq, Structural)]
pub struct Backoff {
    /// Seconds to wait after the next failed attempt.
    pub next_secs: u64,
}

impl Backoff {
    pub open spec fn wf(&self) -> bool {
        INITIAL_BACKOFF_SECS <= self.next_secs <= MAX_BACKOFF_SECS
    }

    pub fn new() -> (r: Self)
        ensures
            r.wf(),
            r.next_secs == INITIAL_BACKOFF_SECS,
    {
        Backoff { next_secs: INITIAL_BACKOFF_SECS }
    }

    /// An attempt ended; returns the seconds to wait before the next one.
    pub fn after_attempt(&mut self, established: bool) -> (wait: u64)
        requires
            old(self).wf(),
        ensures
            final(self).wf(),
            wait == spec_wait(old(self).next_secs, established),
            final(self).next_secs == spec_next(old(self).next_secs, established),
    {
        let wait = if established {
            INITIAL_BACKOFF_SECS
        } else {
            self.next_secs
        };
        self.next_secs = if 2 * wait > MAX_BACKOFF_SECS {
            MAX_BACKOFF_SECS
        } else {
            2 * wait
        };
        wait
    }
}

pub open spec fn failures(k: nat) -> Seq<bool> {
    Seq::new(k, |i: int| false)
}

/// Consecutive failures from a fresh state wait 1, 2, 4, ... seconds,
/// up to the cap: the wait after the (k+1)-th is `min(2^k, 30)`.
pub proof fn lemma_backoff_doubles(k: nat)
    ensures
        spec_wait(backoff_run(failures(k)), false) == if pow2(k) > MAX_BACKOFF_SECS {
            MAX_BACKOFF_SECS as nat
        } else {
            pow2(k)
        },
    decreases k,
{
    lemma2_to64();
    if k > 0 {
        lemma_backoff_doubles((k - 1) as nat);
        assert(failures(k).drop_last() =~= failures((k - 1) as nat));
        lemma_pow2_unfold(k);
        if k > 5 {
            lemma_pow2_grows((k - 1) as nat);
        }
    }
}

proof fn lemma_pow2_grows(k: nat)
    requires
        k >= 5,
    ensures
        pow2(k) > MAX_BACKOFF_SECS,
    decreases k,
{
    lemma2_to64();
    if k > 5 {
        lemma_pow2_grows((k - 1) as nat);
        lemma_pow2_unfold(k);
    }
}

/// A connection that was fully set up and then dropped starts the sequence
/// again: whatever came before, the wait is 1 second and the next is 2.
pub proof fn lemma_backoff_resets(history: Seq<bool>)
    ensures
        spec_wait(backoff_run(history), true) == INITIAL_BACKOFF_SECS,
        backoff_run(history.push(true)) == 2,
{
    assert(history.push(true).drop_last() =~= history);
}

} // verus!
