use vstd::prelude::*;

verus! {

/// The shortest oscillator period, in subsamples.
pub const MIN_PERIOD: i32 = 8;

/// The oscillator's position inside its current period.
pub struct PhaseClock {
    phase: i32,
    period: i32,
}

impl PhaseClock {
    pub closed spec fn spec_phase(self) -> int {
        self.phase as int
    }

    pub closed spec fn spec_period(self) -> int {
        self.period as int
    }

    /// The phase is never negative and can always count up once more.
    pub open spec fn wf(self) -> bool {
        0 <= self.spec_phase() < i32::MAX
    }

    /// A clock is determined by its phase and period.
    pub proof fn lemma_determined(a: PhaseClock, b: PhaseClock)
        requires
            a.spec_phase() == b.spec_phase(),
            a.spec_period() == b.spec_period(),
        ensures
            a == b,
    {
    }

    /// A clock at phase 0 with the given period.
    pub fn new(period: i32) -> (c: PhaseClock)
        ensures
            c.wf(),
            c.spec_phase() == 0,
            c.spec_period() == period,
    {
        PhaseClock { phase: 0, period }
    }

    pub fn phase(&self) -> (r: i32)
        ensures
            r == self.spec_phase(),
    {
        self.phase
    }

    pub fn period(&self) -> (r: i32)
        ensures
            r == self.spec_period(),
    {
        self.period
    }

    /// Moves the phase back to 0, keeping the period.
    pub fn rewind(&mut self)
        ensures
            final(self).wf(),
            final(self).spec_phase() == 0,
            final(self).spec_period() == old(self).spec_period(),
    {
        self.phase = 0;
    }

    /// Sets the period as given, keeping the phase.
    pub fn set_raw_period(&mut self, period: i32)
        requires
            old(self).wf(),
        ensures
            final(self).wf(),
            final(self).spec_phase() == old(self).spec_phase(),
            final(self).spec_period() == period,
    {
        self.period = period;
    }

    /// Sets the period, raised to at least `MIN_PERIOD`, keeping the phase.
    pub fn set_period(&mut self, period: i32)
        requires
            old(self).wf(),
        ensures
            final(self).wf(),
            final(self).spec_phase() == old(self).spec_phase(),
            final(self).spec_period() == if period < MIN_PERIOD {
                MIN_PERIOD as int
            } else {
                period as int
            },
            final(self).spec_period() >= MIN_PERIOD,
    {
        self.period = if period < MIN_PERIOD {
            MIN_PERIOD
        } else {
            period
        };
    }

    /// Counts the phase up by one subsample; when it reaches the period it
    /// wraps to its remainder by the period. Returns whether it wrapped.
    /// Afterwards the phase lies in `0..period`.
    pub fn advance(&mut self) -> (wrapped: bool)
        requires
            old(self).wf(),
            old(self).spec_period() > 0,
        ensures
            final(self).wf(),
            final(self).spec_period() == old(self).spec_period(),
            wrapped == (old(self).spec_phase() + 1 >= old(self).spec_period()),
            wrapped ==> final(self).spec_phase() == (old(self).spec_phase() + 1)
                % old(self).spec_period(),
            !wrapped ==> final(self).spec_phase() == old(self).spec_phase() + 1,
            0 <= final(self).spec_phase() < final(self).spec_period(),
    {
        let next = self.phase + 1;
        if next >= self.period {
            self.phase = next % self.period;
            true
        } else {
            self.phase = next;
            false
        }
    }
}

} // verus!
