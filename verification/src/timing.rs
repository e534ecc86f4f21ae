//! Stage timing instrumentation.
//!
//! The pipeline can record how long each stage took.  The recorder is built
//! with a flag fixed at construction; when the flag is off, recording leaves
//! the recorder bit-for-bit unchanged and allocates nothing, so instrumented
//! and uninstrumented runs behave identically.  Durations are supplied by the
//! caller in nanoseconds: the recorder itself never reads a clock.

use vstd::prelude::*;

verus! {

/// Pipeline stages, in the order the orchestrator runs them.
#[derive(Clone, Copy, PartialEq, Eq, Structural, Debug)]
pub enum Stage {
    Encode,
    Digest,
    Sign,
    Envelope,
    Transport,
    Classify,
}

/// Records per-stage durations when enabled; inert when disabled.
pub struct StageTimer {
    pub enabled: bool,
    pub samples: Vec<(Stage, u64)>,
}

/// The sum of the recorded durations, as an unbounded integer.
pub open spec fn spec_total_ns(s: Seq<(Stage, u64)>) -> int
    decreases s.len(),
{
    if s.len() == 0 {
        0
    } else {
        spec_total_ns(s.drop_last()) + s.last().1
    }
}

impl StageTimer {
    pub fn new(enabled: bool) -> (r: StageTimer)
        ensures
            r.enabled == enabled,
            r.samples@ =~= Seq::<(Stage, u64)>::empty(),
    {
        StageTimer { enabled, samples: Vec::new() }
    }

    /// Record one stage duration.  When disabled this is a single branch and
    /// leaves the recorder unchanged.
    pub fn record(&mut self, stage: Stage, ns: u64)
        ensures
            old(self).enabled ==> final(self).samples@ == old(self).samples@.push((stage, ns)),
            !old(self).enabled ==> *final(self) == *old(self),
            final(self).enabled == old(self).enabled,
    {
        if self.enabled {
            self.samples.push((stage, ns));
        }
    }

    /// Total recorded time.  Saturates at `u64::MAX` instead of overflowing.
    pub fn total_ns(&self) -> (t: u64)
        ensures
            spec_total_ns(self.samples@) <= u64::MAX ==> t == spec_total_ns(self.samples@),
            spec_total_ns(self.samples@) > u64::MAX ==> t == u64::MAX,
    {
        let mut t: u64 = 0;
        let mut saturated = false;
        let mut i: usize = 0;
        while i < self.samples.len()
            invariant
                0 <= i <= self.samples.len(),
                !saturated ==> t == spec_total_ns(self.samples@.take(i as int)),
                saturated ==> t == u64::MAX && spec_total_ns(self.samples@.take(i as int))
                    > u64::MAX,
            decreases self.samples.len() - i,
        {
            let d = self.samples[i].1;
            proof {
                assert(self.samples@.take(i as int + 1).drop_last() =~= self.samples@.take(
                    i as int,
                ));
                assert(self.samples@.take(i as int + 1).last() == self.samples@[i as int]);
            }
            if !saturated {
                if t <= u64::MAX - d {
                    t = t + d;
                } else {
                    t = u64::MAX;
                    saturated = true;
                }
            }
            i = i + 1;
        }
        proof {
            assert(self.samples@.take(self.samples@.len() as int) =~= self.samples@);
        }
        t
    }
}

} // verus!
