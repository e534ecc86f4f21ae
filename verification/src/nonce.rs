//! Nonce generation.
//!
//! A nonce is a replay-prevention counter: unique and strictly increasing
//! within a process.  The generator keeps the last issued value and, given a
//! wall-clock reading in milliseconds, issues the clock value when the clock
//! has moved past the last nonce, and the successor of the last nonce
//! otherwise.  The clock is supplied by the caller, so a regressing clock can
//! never make a nonce repeat or decrease.

use vstd::prelude::*;

verus! {

/// What the generator issues for a given last-issued value and clock reading.
pub open spec fn spec_next_nonce(last: int, now_ms: u64) -> int {
    if now_ms > last {
        now_ms as int
    } else {
        last + 1
    }
}

/// The nonce generator.  `last` is the most recently issued nonce, or 0 if
/// none has been issued yet.
pub struct NonceGen {
    pub last: u64,
}

impl NonceGen {
    pub fn new() -> (r: NonceGen)
        ensures
            r.last == 0,
    {
        NonceGen { last: 0 }
    }

    /// Issue the next nonce given the current wall clock in milliseconds.
    pub fn next(&mut self, now_ms: u64) -> (n: u64)
        requires
            old(self).last < u64::MAX,
        ensures
            n == spec_next_nonce(old(self).last as int, now_ms),
            n > old(self).last,
            n >= now_ms,
            final(self).last == n,
    {
        let n: u64 = if now_ms > self.last {
            now_ms
        } else {
            self.last + 1
        };
        self.last = n;
        n
    }
}

/// The nonces issued by a run of the generator, one per clock reading.
pub open spec fn spec_nonce_run(last: int, clocks: Seq<u64>) -> Seq<int>
    decreases clocks.len(),
{
    if clocks.len() == 0 {
        Seq::empty()
    } else {
        let n = spec_next_nonce(last, clocks[0]);
        seq![n] + spec_nonce_run(n, clocks.drop_first())
    }
}

/// A run issues one nonce per clock reading.
pub proof fn lemma_nonce_run_len(last: int, clocks: Seq<u64>)
    ensures
        spec_nonce_run(last, clocks).len() == clocks.len(),
    decreases clocks.len(),
{
    if clocks.len() > 0 {
        lemma_nonce_run_len(spec_next_nonce(last, clocks[0]), clocks.drop_first());
    }
}

/// Every nonce of a run is strictly above the last value the run started from.
pub proof fn lemma_nonce_run_above(last: int, clocks: Seq<u64>)
    ensures
        forall|i: int|
            0 <= i < clocks.len() ==> #[trigger] spec_nonce_run(last, clocks)[i] > last,
    decreases clocks.len(),
{
    if clocks.len() > 0 {
        let n = spec_next_nonce(last, clocks[0]);
        let rest = spec_nonce_run(n, clocks.drop_first());
        lemma_nonce_run_above(n, clocks.drop_first());
        lemma_nonce_run_len(n, clocks.drop_first());
        assert(spec_nonce_run(last, clocks) == seq![n] + rest);
        assert forall|i: int| 0 <= i < clocks.len() implies #[trigger] spec_nonce_run(
            last,
            clocks,
        )[i] > last by {
            if i > 0 {
                assert(spec_nonce_run(last, clocks)[i] == (seq![n] + rest)[i]);
                assert((seq![n] + rest)[i] == rest[i - 1]);
            } else {
                assert(spec_nonce_run(last, clocks)[0] == n);
            }
        }
    }
}

/// Nonce monotonicity: in any run of the generator, a nonce issued later is
/// strictly greater than every nonce issued earlier, whatever the clock
/// readings were.  In particular all issued nonces are distinct.
pub proof fn lemma_nonce_run_strictly_increasing(last: int, clocks: Seq<u64>)
    ensures
        forall|i: int, j: int|
            0 <= i < j < clocks.len() ==> #[trigger] spec_nonce_run(last, clocks)[i]
                < #[trigger] spec_nonce_run(last, clocks)[j],
    decreases clocks.len(),
{
    if clocks.len() > 0 {
        let n = spec_next_nonce(last, clocks[0]);
        let rest = spec_nonce_run(n, clocks.drop_first());
        lemma_nonce_run_strictly_increasing(n, clocks.drop_first());
        lemma_nonce_run_above(n, clocks.drop_first());
        lemma_nonce_run_len(n, clocks.drop_first());
        assert(spec_nonce_run(last, clocks) == seq![n] + rest);
        assert forall|i: int, j: int| 0 <= i < j < clocks.len() implies #[trigger] spec_nonce_run(
            last,
            clocks,
        )[i] < #[trigger] spec_nonce_run(last, clocks)[j] by {
            assert(spec_nonce_run(last, clocks)[j] == (seq![n] + rest)[j]);
            assert((seq![n] + rest)[j] == rest[j - 1]);
            if i > 0 {
                assert(spec_nonce_run(last, clocks)[i] == (seq![n] + rest)[i]);
                assert((seq![n] + rest)[i] == rest[i - 1]);
            } else {
                assert(spec_nonce_run(last, clocks)[0] == n);
                assert(rest[j - 1] > n);
            }
        }
    }
}

/// No nonce of a run is ever issued twice.
pub proof fn lemma_nonce_run_distinct(last: int, clocks: Seq<u64>)
    ensures
        forall|i: int, j: int|
            0 <= i < clocks.len() && 0 <= j < clocks.len() && i != j
                ==> #[trigger] spec_nonce_run(last, clocks)[i] != #[trigger] spec_nonce_run(
                last,
                clocks,
            )[j],
{
    lemma_nonce_run_strictly_increasing(last, clocks);
}

} // verus!
