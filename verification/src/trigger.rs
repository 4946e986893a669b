use vstd::prelude::*;

verus! {

/// A tick counter that fires once it reaches a limit; a limit of 0 never
/// fires. It drives both the repeat of a sound and its arpeggio jump.
pub struct Trigger {
    time: i32,
    limit: i32,
}

impl Trigger {
    pub closed spec fn spec_time(self) -> int {
        self.time as int
    }

    pub closed spec fn spec_limit(self) -> int {
        self.limit as int
    }

    /// Whether the next tick fires.
    pub open spec fn fires_next(self) -> bool {
        self.spec_limit() != 0 && self.spec_time() + 1 >= self.spec_limit()
    }

    /// A trigger is determined by its time and limit.
    pub proof fn lemma_determined(a: Trigger, b: Trigger)
        requires
            a.spec_time() == b.spec_time(),
            a.spec_limit() == b.spec_limit(),
        ensures
            a == b,
    {
    }

    /// An armed trigger at time 0 with the given limit.
    pub fn new(limit: i32) -> (t: Trigger)
        ensures
            t.spec_time() == 0,
            t.spec_limit() == limit,
    {
        Trigger { time: 0, limit }
    }

    pub fn time(&self) -> (r: i32)
        ensures
            r == self.spec_time(),
    {
        self.time
    }

    pub fn limit(&self) -> (r: i32)
        ensures
            r == self.spec_limit(),
    {
        self.limit
    }

    /// Starts over at time 0 with a new limit.
    pub fn rearm(&mut self, limit: i32)
        ensures
            final(self).spec_time() == 0,
            final(self).spec_limit() == limit,
    {
        self.time = 0;
        self.limit = limit;
    }

    /// Counts one tick; on reaching the limit it fires and the count
    /// starts again from 0, so a trigger with a positive limit fires on
    /// every `limit`-th tick.
    pub fn tick_cycle(&mut self) -> (fired: bool)
        requires
            old(self).spec_time() < i32::MAX,
        ensures
            fired == old(self).fires_next(),
            final(self).spec_limit() == old(self).spec_limit(),
            final(self).spec_time() == cycle_step(old(self).spec_limit(), old(self).spec_time()),
    {
        self.time = self.time + 1;
        if self.limit != 0 && self.time >= self.limit {
            self.time = 0;
            true
        } else {
            false
        }
    }

    /// Counts one tick; on reaching the limit it fires once and disarms
    /// itself (its limit becomes 0), so it never fires again until rearmed.
    pub fn tick_once(&mut self) -> (fired: bool)
        requires
            old(self).spec_time() < i32::MAX,
        ensures
            fired == old(self).fires_next(),
            final(self).spec_time() == old(self).spec_time() + 1,
            fired ==> final(self).spec_limit() == 0,
            !fired ==> final(self).spec_limit() == old(self).spec_limit(),
            old(self).spec_limit() == 0 ==> !fired && final(self).spec_limit() == 0,
    {
        self.time = self.time + 1;
        if self.limit != 0 && self.time >= self.limit {
            self.limit = 0;
            true
        } else {
            false
        }
    }
}

impl Trigger {
    /// A cycling trigger with a positive limit `L`, after `n - 1` ticks
    /// from time 0 (so its count is `(n - 1) % L`), reports on its `n`-th
    /// tick that it fired exactly when `L` divides `n`, and its count goes
    /// to `n % L`, whatever the size of `L`.
    pub proof fn lemma_cycle_flag(self, n: nat)
        requires
            self.spec_limit() > 0,
            n > 0,
            self.spec_time() == ((n - 1) as int) % self.spec_limit(),
        ensures
            self.fires_next() == ((n as int) % self.spec_limit() == 0),
            cycle_step(self.spec_limit(), self.spec_time()) == (n as int) % self.spec_limit(),
    {
        lemma_cycle_period(self.spec_limit(), n);
        lemma_cycle_period(self.spec_limit(), (n - 1) as nat);
    }

    /// A one-shot trigger armed with a positive limit `L` whose count `t`
    /// is below `L` fires on its next tick exactly when `t + 1 == L`, so on
    /// the `L`-th tick after arming, whatever the size of `L`.
    pub proof fn lemma_once_flag(self)
        requires
            self.spec_limit() > 0,
            0 <= self.spec_time() < self.spec_limit(),
        ensures
            self.fires_next() == (self.spec_time() + 1 == self.spec_limit()),
    {
    }
}

/// The counter of a cycling trigger after one tick from `time`.
pub open spec fn cycle_step(limit: int, time: int) -> int {
    if limit != 0 && time + 1 >= limit {
        0
    } else {
        time + 1
    }
}

/// The counter of a cycling trigger after `n` ticks from time 0.
pub open spec fn cycle_time(limit: int, n: nat) -> int
    decreases n,
{
    if n == 0 {
        0
    } else {
        cycle_step(limit, cycle_time(limit, (n - 1) as nat))
    }
}

/// A cycling trigger armed with a positive limit `limit` is at
/// `n % limit` after `n` ticks, and it fires on the `n`-th tick exactly
/// when `n` is a multiple of `limit`.
pub proof fn lemma_cycle_period(limit: int, n: nat)
    requires
        limit > 0,
    ensures
        cycle_time(limit, n) == (n as int) % limit,
        n > 0 ==> (cycle_time(limit, (n - 1) as nat) + 1 >= limit <==> (n as int) % limit == 0),
    decreases n,
{
    if n == 0 {
        vstd::arithmetic::div_mod::lemma_small_mod(0, limit as nat);
    } else {
        let m = (n - 1) as int;
        lemma_cycle_period(limit, (n - 1) as nat);
        let q = m / limit;
        let r = m % limit;
        vstd::arithmetic::div_mod::lemma_fundamental_div_mod(m, limit);
        vstd::arithmetic::div_mod::lemma_mod_bound(m, limit);
        assert(m == q * limit + r) by (nonlinear_arith)
            requires
                m == limit * q + r,
        ;
        if r + 1 < limit {
            vstd::arithmetic::div_mod::lemma_fundamental_div_mod_converse(n as int, limit, q, r + 1);
        } else {
            assert(n == (q + 1) * limit + 0) by (nonlinear_arith)
                requires
                    m == q * limit + r,
                    r + 1 == limit,
                    n == m + 1,
            ;
            vstd::arithmetic::div_mod::lemma_fundamental_div_mod_converse(n as int, limit, q + 1, 0);
        }
    }
}

} // verus!
