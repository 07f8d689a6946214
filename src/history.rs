//! Windowed history of recent positions, used for lag-compensated hit tests.
use vstd::prelude::*;
use crate::geometry::Vec3;

verus! {

/// Samples per window: one per simulation tick, for one second.
pub const TICKS_PER_SECOND: usize = 64;

/// Length of one simulation tick, in nanoseconds.
pub const DURATION_PER_TICK: u64 = 15_625_000;

/// Time from `since` to `now`; zero if `now` is earlier.
pub open spec fn elapsed(since: u64, now: u64) -> int {
    if now >= since {
        now - since
    } else {
        0
    }
}

pub(crate) fn elapsed_exec(since: u64, now: u64) -> (r: u64)
    ensures
        r == elapsed(since, now),
{
    if now >= since {
        now - since
    } else {
        0
    }
}

/// Recent position samples. Once the window is full the next tick clears it
/// instead of evicting the oldest sample, then records its own sample.
pub struct TickHistory {
    samples: Vec<Option<Vec3>>,
}

impl View for TickHistory {
    type V = Seq<Option<Vec3>>;

    closed spec fn view(&self) -> Seq<Option<Vec3>> {
        self.samples@
    }
}

/// The window after one more tick that carries `sample`: a full window is
/// cleared and starts again with `sample`.
pub open spec fn window_after(w: Seq<Option<Vec3>>, sample: Option<Vec3>) -> Seq<Option<Vec3>> {
    if w.len() >= TICKS_PER_SECOND {
        seq![sample]
    } else {
        w.push(sample)
    }
}

impl TickHistory {
    /// The window never holds more than one second of samples.
    pub open spec fn wf(&self) -> bool {
        self@.len() <= TICKS_PER_SECOND
    }

    pub fn new() -> (r: TickHistory)
        ensures
            r@ == Seq::<Option<Vec3>>::empty(),
            r.wf(),
    {
        TickHistory { samples: Vec::new() }
    }

    /// Records one tick: appends `sample`, after clearing the window when it
    /// is already full.
    pub fn record(&mut self, sample: Option<Vec3>)
        requires
            old(self).wf(),
        ensures
            final(self)@ == window_after(old(self)@, sample),
            final(self).wf(),
    {
        if self.samples.len() >= TICKS_PER_SECOND {
            self.samples.clear();
        }
        self.samples.push(sample);
        proof {
            assert(self.samples@ =~= window_after(old(self)@, sample));
        }
    }

    pub fn len(&self) -> (r: usize)
        ensures
            r == self@.len(),
    {
        self.samples.len()
    }

    pub fn get(&self, i: usize) -> (r: Option<Vec3>)
        requires
            i < self@.len(),
        ensures
            r == self@[i as int],
    {
        self.samples[i]
    }
}

} // verus!
