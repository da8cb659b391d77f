use vstd::prelude::*;

verus! {

/// A repeating countdown: it finishes each time `duration` microseconds have
/// accumulated, and carries the remainder over into the next period.
#[derive(Clone, Copy, Debug, PartialEq, Eq, Structural)]
pub struct Timer {
    pub duration: u64,
    pub elapsed: u64,
    pub times_finished: u64,
}

impl Timer {
    pub open spec fn wf(self) -> bool {
        0 < self.duration <= u32::MAX && self.elapsed < self.duration
    }

    pub open spec fn new_spec(duration: u64) -> Timer {
        Timer { duration, elapsed: 0, times_finished: 0 }
    }

    /// A fresh timer of the given period, nothing elapsed.
    pub fn new(duration: u64) -> (t: Timer)
        requires
            0 < duration <= u32::MAX,
        ensures
            t.wf(),
            t == Timer::new_spec(duration),
    {
        Timer { duration, elapsed: 0, times_finished: 0 }
    }

    /// Advances the timer by `dt` microseconds.
    pub fn tick(&mut self, dt: u32)
        requires
            old(self).wf(),
        ensures
            final(self).wf(),
            final(self).duration == old(self).duration,
            final(self).times_finished == (old(self).elapsed + dt) / (old(self).duration as int),
            final(self).elapsed == (old(self).elapsed + dt) % (old(self).duration as int),
    {
        let total: u64 = self.elapsed + dt as u64;
        self.times_finished = total / self.duration;
        self.elapsed = total % self.duration;
    }

    /// The last tick completed at least one period.
    pub fn just_finished(&self) -> (r: bool)
        ensures
            r == (self.times_finished > 0),
    {
        self.times_finished > 0
    }

    /// Starts the current period over.
    pub fn reset(&mut self)
        requires
            old(self).wf(),
        ensures
            final(self).wf(),
            final(self).duration == old(self).duration,
            final(self).elapsed == 0,
            final(self).times_finished == 0,
    {
        self.elapsed = 0;
        self.times_finished = 0;
    }
}

} // verus!
