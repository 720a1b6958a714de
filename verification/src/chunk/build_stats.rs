//! Counters that describe the throughput of the build pipeline.

use vstd::prelude::*;

verus! {

/// The sum of two counters, which stays at the largest value once it is
/// reached.
pub open spec fn spec_saturating_sum(a: u64, b: u64) -> u64 {
    if a + b > u64::MAX {
        u64::MAX
    } else {
        (a + b) as u64
    }
}

/// The sum of two counters, which stays at the largest value once it is
/// reached.
pub fn saturating_sum(a: u64, b: u64) -> (sum: u64)
    ensures
        sum == spec_saturating_sum(a, b),
{
    if a > u64::MAX - b {
        u64::MAX
    } else {
        a + b
    }
}

/// What the build pipeline has done so far. Each counter stops at
/// `u64::MAX`.
#[derive(Clone, Copy, Debug, PartialEq, Eq, Structural)]
pub struct BuildStats {
    /// Requests that put a job into the queue.
    pub requested: u64,
    /// Jobs handed to a worker.
    pub dispatched: u64,
    /// Builds that gave a chunk which the loader took.
    pub built: u64,
    /// Builds that gave an error which the loader took.
    pub failed: u64,
    /// Results that arrived and were dropped.
    pub discarded: u64,
    /// The time that the builds which the loader took have run, in
    /// milliseconds.
    pub build_time_ms: u64,
}

impl BuildStats {
    /// All counters at zero.
    pub open spec fn spec_new() -> BuildStats {
        BuildStats {
            requested: 0,
            dispatched: 0,
            built: 0,
            failed: 0,
            discarded: 0,
            build_time_ms: 0,
        }
    }

    /// The counters after one more request.
    pub open spec fn spec_request(self) -> BuildStats {
        BuildStats { requested: spec_saturating_sum(self.requested, 1), ..self }
    }

    /// The counters after one more job was handed out.
    pub open spec fn spec_dispatch(self) -> BuildStats {
        BuildStats { dispatched: spec_saturating_sum(self.dispatched, 1), ..self }
    }

    /// The counters after a build that ran for `elapsed_ms` gave a chunk.
    pub open spec fn spec_build(self, elapsed_ms: u64) -> BuildStats {
        BuildStats {
            built: spec_saturating_sum(self.built, 1),
            build_time_ms: spec_saturating_sum(self.build_time_ms, elapsed_ms),
            ..self
        }
    }

    /// The counters after a build that ran for `elapsed_ms` gave an error.
    pub open spec fn spec_failure(self, elapsed_ms: u64) -> BuildStats {
        BuildStats {
            failed: spec_saturating_sum(self.failed, 1),
            build_time_ms: spec_saturating_sum(self.build_time_ms, elapsed_ms),
            ..self
        }
    }

    /// The counters after one more result was dropped.
    pub open spec fn spec_discard(self) -> BuildStats {
        BuildStats { discarded: spec_saturating_sum(self.discarded, 1), ..self }
    }

    /// The mean time of a build that the loader took, rounded down, or
    /// `None` before the first.
    pub open spec fn spec_average_build_time_ms(self) -> Option<u64> {
        if spec_saturating_sum(self.built, self.failed) == 0 {
            None
        } else {
            Some((self.build_time_ms / spec_saturating_sum(self.built, self.failed)) as u64)
        }
    }

    pub fn new() -> (stats: BuildStats)
        ensures
            stats == BuildStats::spec_new(),
    {
        BuildStats {
            requested: 0,
            dispatched: 0,
            built: 0,
            failed: 0,
            discarded: 0,
            build_time_ms: 0,
        }
    }

    pub fn record_request(&mut self)
        ensures
            *final(self) == old(self).spec_request(),
    {
        self.requested = saturating_sum(self.requested, 1);
    }

    pub fn record_dispatch(&mut self)
        ensures
            *final(self) == old(self).spec_dispatch(),
    {
        self.dispatched = saturating_sum(self.dispatched, 1);
    }

    pub fn record_build(&mut self, elapsed_ms: u64)
        ensures
            *final(self) == old(self).spec_build(elapsed_ms),
    {
        self.built = saturating_sum(self.built, 1);
        self.build_time_ms = saturating_sum(self.build_time_ms, elapsed_ms);
    }

    pub fn record_failure(&mut self, elapsed_ms: u64)
        ensures
            *final(self) == old(self).spec_failure(elapsed_ms),
    {
        self.failed = saturating_sum(self.failed, 1);
        self.build_time_ms = saturating_sum(self.build_time_ms, elapsed_ms);
    }

    pub fn record_discard(&mut self)
        ensures
            *final(self) == old(self).spec_discard(),
    {
        self.discarded = saturating_sum(self.discarded, 1);
    }

    /// The mean time of a build that the loader took, rounded down, or
    /// `None` before the first.
    pub fn average_build_time_ms(&self) -> (mean: Option<u64>)
        ensures
            mean == self.spec_average_build_time_ms(),
    {
        let finished = saturating_sum(self.built, self.failed);
        if finished == 0 {
            None
        } else {
            Some(self.build_time_ms / finished)
        }
    }
}

} // verus!
