use vstd::prelude::*;

verus! {

/// Number of stages of the volume envelope: attack, sustain, decay.
pub const STAGES: usize = 3;

/// How many ticks a stage whose length is `len` lasts: the stage ends on
/// the tick that takes its clock past `len`, and a negative length ends it
/// on its first tick.
pub open spec fn stage_ticks(len: i32) -> int {
    if len < 0 {
        1
    } else {
        len + 1
    }
}

/// The three-stage volume envelope (attack, sustain, decay) of a voice.
/// `stage` is the running stage (3 once the sound has ended) and `time`
/// the ticks spent in it.
pub struct Envelope {
    stage: usize,
    time: i32,
    attack: i32,
    sustain: i32,
    decay: i32,
}

impl Envelope {
    pub closed spec fn spec_stage(self) -> nat {
        self.stage as nat
    }

    pub closed spec fn spec_time(self) -> int {
        self.time as int
    }

    /// The length of stage `i` (attack, sustain, decay).
    pub closed spec fn spec_length(self, i: int) -> i32 {
        if i == 0 {
            self.attack
        } else if i == 1 {
            self.sustain
        } else {
            self.decay
        }
    }

    /// Ticks the stages before `stage` take, in total.
    pub open spec fn ticks_before(self, stage: nat) -> int {
        (if stage > 0 { stage_ticks(self.spec_length(0)) } else { 0 })
            + (if stage > 1 { stage_ticks(self.spec_length(1)) } else { 0 })
            + (if stage > 2 { stage_ticks(self.spec_length(2)) } else { 0 })
    }

    /// Ticks since the envelope started.
    pub open spec fn elapsed(self) -> int {
        self.ticks_before(self.spec_stage()) + self.spec_time()
    }

    /// Ticks from start to end of the whole envelope.
    pub open spec fn total(self) -> int {
        self.ticks_before(3)
    }

    /// The clock never runs past the length of the running stage, and an
    /// ended envelope rests at time 0.
    pub open spec fn wf(self) -> bool {
        &&& self.spec_stage() <= 3
        &&& self.spec_stage() < 3 ==> 0 <= self.spec_time() < stage_ticks(
            self.spec_length(self.spec_stage() as int),
        )
        &&& self.spec_stage() == 3 ==> self.spec_time() == 0
    }

    /// The envelope one tick later.
    pub open spec fn tick_leads_to(self, stage: nat, time: int) -> bool {
        let i = self.spec_stage();
        if self.spec_time() + 1 > self.spec_length(i as int) {
            stage == i + 1 && time == 0
        } else {
            stage == i && time == self.spec_time() + 1
        }
    }

    /// An envelope is determined by its stage, time and stage lengths.
    pub proof fn lemma_determined(a: Envelope, b: Envelope)
        requires
            a.spec_stage() == b.spec_stage(),
            a.spec_time() == b.spec_time(),
            a.spec_length(0) == b.spec_length(0),
            a.spec_length(1) == b.spec_length(1),
            a.spec_length(2) == b.spec_length(2),
        ensures
            a == b,
    {
    }

    /// A fresh envelope at the start of its attack.
    pub fn new(attack: i32, sustain: i32, decay: i32) -> (e: Envelope)
        ensures
            e.wf(),
            e.spec_stage() == 0,
            e.spec_time() == 0,
            e.spec_length(0) == attack,
            e.spec_length(1) == sustain,
            e.spec_length(2) == decay,
            e.elapsed() == 0,
    {
        Envelope { stage: 0, time: 0, attack, sustain, decay }
    }

    /// The running stage: 0 attack, 1 sustain, 2 decay, 3 ended.
    pub fn stage(&self) -> (r: usize)
        ensures
            r == self.spec_stage(),
    {
        self.stage
    }

    /// Ticks spent in the running stage.
    pub fn time(&self) -> (r: i32)
        ensures
            r == self.spec_time(),
    {
        self.time
    }

    /// The length of stage `i`.
    pub fn length(&self, i: usize) -> (r: i32)
        requires
            i < STAGES,
        ensures
            r == self.spec_length(i as int),
    {
        if i == 0 {
            self.attack
        } else if i == 1 {
            self.sustain
        } else {
            self.decay
        }
    }

    /// Whether the envelope has run through all its stages.
    pub fn finished(&self) -> (r: bool)
        ensures
            r == (self.spec_stage() == 3),
    {
        self.stage == 3
    }

    /// Advances the envelope by one tick: the clock counts up, and when it
    /// passes the length of the running stage it restarts at 0 in the next
    /// stage. Returns whether the envelope has now ended. Every tick adds
    /// exactly one to `elapsed`.
    pub fn tick(&mut self) -> (ended: bool)
        requires
            old(self).wf(),
            old(self).spec_stage() < 3,
            old(self).spec_time() < i32::MAX,
        ensures
            final(self).wf(),
            old(self).tick_leads_to(final(self).spec_stage(), final(self).spec_time()),
            forall|i: int| #[trigger] final(self).spec_length(i) == old(self).spec_length(i),
            ended == (final(self).spec_stage() == 3),
            final(self).elapsed() == old(self).elapsed() + 1,
    {
        let t = self.time + 1;
        let len = self.length(self.stage);
        if t > len {
            self.time = 0;
            self.stage = self.stage + 1;
        } else {
            self.time = t;
        }
        self.stage == 3
    }

    /// While the envelope runs, `elapsed` stays below `total`; it has ended
    /// exactly when `elapsed` has reached `total`. Together with `tick`,
    /// which adds one to `elapsed`, a fresh envelope ends on its
    /// `total()`-th tick and not before.
    pub proof fn lemma_ends_at_total(self)
        requires
            self.wf(),
        ensures
            0 <= self.elapsed() <= self.total(),
            self.spec_stage() == 3 <==> self.elapsed() == self.total(),
    {
    }

    /// With no negative stage length, the whole envelope lasts
    /// `a + s + d + 3` ticks, whatever the size of the lengths.
    pub proof fn lemma_total_of_lengths(self)
        requires
            self.spec_length(0) >= 0,
            self.spec_length(1) >= 0,
            self.spec_length(2) >= 0,
        ensures
            self.total() == self.spec_length(0) + self.spec_length(1) + self.spec_length(2) + 3,
    {
    }

    /// One tick of a running envelope: while the clock is below the
    /// length of the running stage it counts up by one in the same stage;
    /// once it has reached it, the next stage begins at time 0.
    pub proof fn lemma_tick_arithmetic(self, stage: nat, time: int)
        requires
            self.wf(),
            self.spec_stage() < 3,
            self.tick_leads_to(stage, time),
        ensures
            self.spec_time() < self.spec_length(self.spec_stage() as int) ==> stage
                == self.spec_stage() && time == self.spec_time() + 1,
            self.spec_time() >= self.spec_length(self.spec_stage() as int) ==> stage
                == self.spec_stage() + 1 && time == 0,
    {
    }

    /// A tick keeps the envelope well formed and adds one to `elapsed`.
    pub proof fn lemma_tick_elapsed(self, next: Envelope)
        requires
            self.wf(),
            self.spec_stage() < 3,
            self.tick_leads_to(next.spec_stage(), next.spec_time()),
            forall|i: int| #[trigger] next.spec_length(i) == self.spec_length(i),
        ensures
            next.wf(),
            next.elapsed() == self.elapsed() + 1,
    {
        assert(next.spec_length(0) == self.spec_length(0));
        assert(next.spec_length(1) == self.spec_length(1));
        assert(next.spec_length(2) == self.spec_length(2));
    }

    /// A fresh envelope with lengths `a, s, d >= 0`, ticked along a run,
    /// has ended after `k` ticks exactly when `k == a + s + d + 3`: each
    /// stage lasts its length plus one tick, whatever the lengths.
    pub proof fn lemma_fresh_duration(run: Seq<Envelope>)
        requires
            run.len() >= 1,
            run[0].spec_stage() == 0,
            run[0].spec_time() == 0,
            run[0].spec_length(0) >= 0,
            run[0].spec_length(1) >= 0,
            run[0].spec_length(2) >= 0,
            forall|k: int|
                0 <= k < run.len() - 1 ==> #[trigger] run[k].spec_stage() < 3
                    && run[k].tick_leads_to(run[k + 1].spec_stage(), run[k + 1].spec_time())
                    && forall|i: int| #[trigger]
                    run[k + 1].spec_length(i) == run[k].spec_length(i),
        ensures
            forall|k: int|
                #![trigger run[k]]
                0 <= k < run.len() ==> (run[k].spec_stage() == 3 <==> k == run[0].spec_length(0)
                    + run[0].spec_length(1) + run[0].spec_length(2) + 3),
    {
        assert forall|k: int| #![trigger run[k]] 0 <= k < run.len() implies (run[k].spec_stage()
            == 3 <==> k == run[0].spec_length(0) + run[0].spec_length(1) + run[0].spec_length(2)
            + 3) by {
            Self::lemma_fresh_elapsed(run, k);
            run[k].lemma_ends_at_total();
            run[0].lemma_total_of_lengths();
        }
    }

    proof fn lemma_fresh_elapsed(run: Seq<Envelope>, k: int)
        requires
            0 <= k < run.len(),
            run[0].spec_stage() == 0,
            run[0].spec_time() == 0,
            forall|j: int|
                0 <= j < run.len() - 1 ==> #[trigger] run[j].spec_stage() < 3
                    && run[j].tick_leads_to(run[j + 1].spec_stage(), run[j + 1].spec_time())
                    && forall|i: int| #[trigger]
                    run[j + 1].spec_length(i) == run[j].spec_length(i),
        ensures
            run[k].wf(),
            run[k].elapsed() == k,
            run[k].total() == run[0].total(),
        decreases k,
    {
        if k > 0 {
            Self::lemma_fresh_elapsed(run, k - 1);
            let j = k - 1;
            assert(run[j].spec_stage() < 3);
            assert(j + 1 == k);
            run[j].lemma_tick_elapsed(run[j + 1]);
            assert(run[k].spec_length(0) == run[j].spec_length(0));
            assert(run[k].spec_length(1) == run[j].spec_length(1));
            assert(run[k].spec_length(2) == run[j].spec_length(2));
        }
    }

    /// Two envelopes with the same stage lengths and the same `elapsed` are
    /// at the same stage and time: the position of an envelope is a
    /// function of the ticks since it started.
    pub proof fn lemma_position_determined(a: Envelope, b: Envelope)
        requires
            a.wf(),
            b.wf(),
            forall|i: int| #[trigger] a.spec_length(i) == b.spec_length(i),
            a.elapsed() == b.elapsed(),
        ensures
            a.spec_stage() == b.spec_stage(),
            a.spec_time() == b.spec_time(),
    {
        assert(a.spec_length(0) == b.spec_length(0));
        assert(a.spec_length(1) == b.spec_length(1));
        assert(a.spec_length(2) == b.spec_length(2));
    }
}

} // verus!
