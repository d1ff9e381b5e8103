use vstd::prelude::*;

verus! {

/// A periodic tick source: one possible producer feeding a shared buffer.
///
/// The runtime side — sleeping and yielding timestamps — is a collaborator's
/// concern; what is stated here is the schedule itself. Spans of time are
/// carried as whole nanoseconds.
pub struct Interval {
    /// The period between consecutive ticks, in nanoseconds.
    pub dur: u64,
}

impl Interval {
    pub fn new(dur: u64) -> (r: Self)
        ensures
            r.dur == dur,
    {
        Interval { dur }
    }

    /// The instant of the `n`-th tick of a ticker started at `start`:
    /// `start + n * dur` nanoseconds, and nothing where that instant cannot
    /// be represented.
    pub fn nth_tick(&self, start: u64, n: u64) -> (r: Option<u64>)
        ensures
            r matches Some(t) ==> t == start + n * self.dur,
            r is None <==> start + n * self.dur > u64::MAX,
    {
        match n.checked_mul(self.dur) {
            Some(offset) => start.checked_add(offset),
            None => None,
        }
    }
}

/// A one-shot tick source: fires once, a fixed span after it starts.
pub struct Timeout {
    /// How long after the start the single tick fires, in nanoseconds.
    pub dur: u64,
}

impl Timeout {
    pub fn new(dur: u64) -> (r: Self)
        ensures
            r.dur == dur,
    {
        Timeout { dur }
    }

    /// The instant the timeout fires for a timer started at `start`:
    /// `start + dur` nanoseconds, and nothing where that instant cannot be
    /// represented.
    pub fn deadline(&self, start: u64) -> (r: Option<u64>)
        ensures
            r matches Some(t) ==> t == start + self.dur,
            r is None <==> start + self.dur > u64::MAX,
    {
        start.checked_add(self.dur)
    }
}

} // verus!
