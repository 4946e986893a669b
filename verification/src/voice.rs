use vstd::prelude::*;
use crate::clock::PhaseClock;
use crate::envelope::Envelope;
use crate::clock::MIN_PERIOD;
use crate::phaser::{DelayLine, PHASER_LEN, MAX_PHASER_DELAY, pushed};
use crate::trigger::{Trigger, cycle_step};
use crate::wave::WaveType;

verus! {

/// The integer values a reset of a voice starts from. They are worked out
/// from the sound's parameters, outside this library.
#[derive(Clone, Copy, Debug)]
pub struct ResetPlan {
    /// The raw oscillator period.
    pub period: i32,
    /// Ticks until the arpeggio jump; 0 for none.
    pub arpeggio_limit: i32,
    /// Lengths of the attack, sustain and decay stages.
    pub attack: i32,
    pub sustain: i32,
    pub decay: i32,
    /// The raw phaser offset, whose magnitude is taken.
    pub phaser_offset: i32,
    /// Ticks between repeats of the sound; 0 for none.
    pub repeat_limit: i32,
}

/// What the start of a sample step decided.
#[derive(Clone, Copy, Debug)]
pub struct FrameStart {
    /// The repeat came due: the voice has restarted, and the rest of the
    /// sound is to restart with it.
    pub repeated: bool,
    /// The arpeggio jump came due in this sample.
    pub arpeggio: bool,
}

/// The integer state of a playing sound: whether it still plays, the
/// oscillator clock, the volume envelope, the repeat and arpeggio
/// triggers, and the phaser's offset and delay line of samples `T`.
pub struct Voice<T> {
    playing: bool,
    clock: PhaseClock,
    envelope: Envelope,
    repeat: Trigger,
    arpeggio: Trigger,
    phaser_offset: i32,
    phaser: DelayLine<T>,
    /// Samples since the last reset or repeat.
    since_restart: Ghost<nat>,
}

/// `|x|`, for any `i32` but the smallest.
pub open spec fn magnitude(x: i32) -> int {
    if x < 0 {
        -x
    } else {
        x as int
    }
}

impl<T: Copy> Voice<T> {
    pub closed spec fn spec_playing(self) -> bool {
        self.playing
    }

    pub closed spec fn spec_clock(self) -> PhaseClock {
        self.clock
    }

    pub closed spec fn spec_envelope(self) -> Envelope {
        self.envelope
    }

    pub closed spec fn spec_repeat(self) -> Trigger {
        self.repeat
    }

    pub closed spec fn spec_arpeggio(self) -> Trigger {
        self.arpeggio
    }

    pub closed spec fn spec_phaser_offset(self) -> int {
        self.phaser_offset as int
    }

    pub closed spec fn spec_phaser(self) -> DelayLine<T> {
        self.phaser
    }

    /// Samples begun since the last reset or repeat.
    pub closed spec fn since_restart(self) -> nat {
        self.since_restart@
    }

    /// The parts are well formed, the phaser offset is not negative, a
    /// sound whose envelope has ended no longer plays, neither the repeat
    /// nor the arpeggio count exceeds the samples since the last reset or
    /// repeat, and a positive repeat limit stays above the repeat count.
    pub open spec fn wf(self) -> bool {
        &&& self.spec_clock().wf()
        &&& self.spec_envelope().wf()
        &&& self.spec_phaser().wf()
        &&& 0 <= self.spec_phaser_offset()
        &&& self.spec_envelope().spec_stage() == 3 ==> !self.spec_playing()
        &&& 0 <= self.spec_repeat().spec_time() <= self.since_restart()
        &&& 0 <= self.spec_arpeggio().spec_time() <= self.since_restart()
        &&& self.spec_repeat().spec_limit() > 0 ==> self.spec_repeat().spec_time()
            < self.spec_repeat().spec_limit()
    }

    /// A sample step can begin: while the sound plays, none of its counters
    /// is at the top of its range.
    pub open spec fn frame_ready(self) -> bool {
        self.spec_playing() ==> {
            &&& self.spec_repeat().spec_time() < i32::MAX
            &&& self.spec_arpeggio().spec_time() < i32::MAX
            &&& self.spec_envelope().spec_time() < i32::MAX
        }
    }

    /// The envelope can take its tick of the sample step.
    pub open spec fn finish_ready(self) -> bool {
        &&& self.wf()
        &&& self.spec_envelope().spec_stage() < 3
        &&& self.spec_envelope().spec_time() < i32::MAX
    }

    /// The subsamples of a step can run: the period is positive and the
    /// phaser offset within the delay line.
    pub open spec fn subsample_ready(self) -> bool {
        &&& self.wf()
        &&& self.spec_clock().spec_period() >= MIN_PERIOD
        &&& self.spec_phaser_offset() <= MAX_PHASER_DELAY
    }

    /// After the subsamples of a step: ready for more, with the phase
    /// inside the period.
    pub open spec fn settled(self) -> bool {
        &&& self.subsample_ready()
        &&& self.spec_clock().spec_phase() < self.spec_clock().spec_period()
    }

    /// Samples the sound still has before its envelope ends.
    pub open spec fn frames_left(self) -> int {
        self.spec_envelope().total() - self.spec_envelope().elapsed()
    }

    /// The two voices are in the same state, part by part.
    pub open spec fn agrees(self, other: Voice<T>) -> bool {
        &&& self.spec_playing() == other.spec_playing()
        &&& self.spec_clock() == other.spec_clock()
        &&& self.spec_envelope() == other.spec_envelope()
        &&& self.spec_repeat() == other.spec_repeat()
        &&& self.spec_arpeggio() == other.spec_arpeggio()
        &&& self.spec_phaser_offset() == other.spec_phaser_offset()
        &&& self.spec_phaser().history() == other.spec_phaser().history()
        &&& self.spec_phaser().spec_pos() == other.spec_phaser().spec_pos()
        &&& self.since_restart() == other.since_restart()
    }

    /// What a whole sample step does to the sound's length and to whether
    /// it plays: one more tick of the envelope, which keeps its stage
    /// lengths, and the sound plays on only if it played, was not stopped,
    /// and the envelope has not run out.
    pub open spec fn sound_step(self, next: Voice<T>, stop: bool) -> bool {
        &&& next.spec_envelope().elapsed() == self.spec_envelope().elapsed() + 1
        &&& next.spec_envelope().total() == self.spec_envelope().total()
        &&& next.spec_playing() == (self.spec_playing() && !stop
            && next.spec_envelope().elapsed() < next.spec_envelope().total())
    }

    /// What `reset` leaves behind, whether a sound plays aside.
    pub open spec fn reset_to(self, plan: ResetPlan, zero: T) -> bool {
        &&& self.spec_clock().spec_phase() == 0
        &&& self.spec_clock().spec_period() == plan.period
        &&& self.spec_arpeggio().spec_time() == 0
        &&& self.spec_arpeggio().spec_limit() == plan.arpeggio_limit
        &&& self.spec_envelope().spec_stage() == 0
        &&& self.spec_envelope().spec_time() == 0
        &&& self.spec_envelope().spec_length(0) == plan.attack
        &&& self.spec_envelope().spec_length(1) == plan.sustain
        &&& self.spec_envelope().spec_length(2) == plan.decay
        &&& self.spec_phaser_offset() == magnitude(plan.phaser_offset)
        &&& self.spec_phaser().spec_pos() == 0
        &&& self.spec_phaser().history() == Seq::new(PHASER_LEN as nat, |k: int| zero)
        &&& self.spec_repeat().spec_time() == 0
        &&& self.spec_repeat().spec_limit() == plan.repeat_limit
        &&& self.since_restart() == 0
    }

    /// A voice that plays, freshly reset with `plan`; `zero` is the silent
    /// sample the phaser starts out holding.
    pub fn new(plan: &ResetPlan, zero: T) -> (v: Voice<T>)
        requires
            plan.phaser_offset != i32::MIN,
        ensures
            v.wf(),
            v.spec_playing(),
            v.reset_to(*plan, zero),
    {
        let offset = if plan.phaser_offset < 0 {
            -plan.phaser_offset
        } else {
            plan.phaser_offset
        };
        Voice {
            playing: true,
            clock: PhaseClock::new(plan.period),
            envelope: Envelope::new(plan.attack, plan.sustain, plan.decay),
            repeat: Trigger::new(plan.repeat_limit),
            arpeggio: Trigger::new(plan.arpeggio_limit),
            phaser_offset: offset,
            phaser: DelayLine::new(zero),
            since_restart: Ghost(0),
        }
    }

    /// Starts the sound over from `plan`: phase 0, the raw period, a fresh
    /// arpeggio, envelope, phaser and repeat count. Whether it plays is
    /// left as it was.
    pub fn reset(&mut self, plan: &ResetPlan, zero: T)
        requires
            old(self).wf(),
            plan.phaser_offset != i32::MIN,
        ensures
            final(self).wf(),
            final(self).reset_to(*plan, zero),
            final(self).spec_playing() == old(self).spec_playing(),
    {
        self.clock.rewind();
        self.restart(plan.period, plan.arpeggio_limit);
        self.envelope = Envelope::new(plan.attack, plan.sustain, plan.decay);
        self.phaser_offset = if plan.phaser_offset < 0 {
            -plan.phaser_offset
        } else {
            plan.phaser_offset
        };
        self.phaser.clear(zero);
        self.repeat.rearm(plan.repeat_limit);
        self.since_restart = Ghost(0);
    }

    /// Starts the sound over from the raw period and a fresh arpeggio; the
    /// phase, envelope, phaser and repeat count run on.
    pub fn restart(&mut self, period: i32, arpeggio_limit: i32)
        requires
            old(self).wf(),
        ensures
            final(self).wf(),
            final(self).spec_clock().spec_phase() == old(self).spec_clock().spec_phase(),
            final(self).spec_clock().spec_period() == period,
            final(self).spec_arpeggio().spec_time() == 0,
            final(self).spec_arpeggio().spec_limit() == arpeggio_limit,
            final(self).spec_playing() == old(self).spec_playing(),
            final(self).spec_envelope() == old(self).spec_envelope(),
            final(self).spec_repeat() == old(self).spec_repeat(),
            final(self).spec_phaser_offset() == old(self).spec_phaser_offset(),
            final(self).spec_phaser() == old(self).spec_phaser(),
            final(self).since_restart() == old(self).since_restart(),
    {
        self.clock.set_raw_period(period);
        self.arpeggio.rearm(arpeggio_limit);
    }

    /// Whether the sound still plays.
    pub fn is_playing(&self) -> (r: bool)
        ensures
            r == self.spec_playing(),
    {
        self.playing
    }

    pub fn clock(&self) -> (r: &PhaseClock)
        ensures
            *r == self.spec_clock(),
    {
        &self.clock
    }

    pub fn envelope(&self) -> (r: &Envelope)
        ensures
            *r == self.spec_envelope(),
    {
        &self.envelope
    }

    pub fn repeat(&self) -> (r: &Trigger)
        ensures
            *r == self.spec_repeat(),
    {
        &self.repeat
    }

    pub fn arpeggio(&self) -> (r: &Trigger)
        ensures
            *r == self.spec_arpeggio(),
    {
        &self.arpeggio
    }

    pub fn phaser_offset(&self) -> (r: i32)
        ensures
            r == self.spec_phaser_offset(),
    {
        self.phaser_offset
    }

    /// What `begin_frame` does to `old`, giving `new` and `start`.
    pub open spec fn began(
        old: Voice<T>,
        new: Voice<T>,
        restart_period: i32,
        restart_arpeggio_limit: i32,
        start: Option<FrameStart>,
    ) -> bool {
        &&& start is Some <==> old.spec_playing()
        &&& start is None ==> new == old
        &&& start matches Some(s) ==> ({
            let rep = old.spec_repeat();
            let arp_time = if s.repeated {
                0
            } else {
                old.spec_arpeggio().spec_time()
            };
            let arp_limit = if s.repeated {
                restart_arpeggio_limit as int
            } else {
                old.spec_arpeggio().spec_limit()
            };
            &&& s.repeated == rep.fires_next()
            &&& new.spec_repeat().spec_time() == cycle_step(rep.spec_limit(), rep.spec_time())
            &&& new.spec_repeat().spec_limit() == rep.spec_limit()
            &&& new.spec_clock().spec_phase() == old.spec_clock().spec_phase()
            &&& new.spec_clock().spec_period() == if s.repeated {
                restart_period as int
            } else {
                old.spec_clock().spec_period()
            }
            &&& s.arpeggio == (arp_limit != 0 && arp_time + 1 >= arp_limit)
            &&& new.spec_arpeggio().spec_time() == arp_time + 1
            &&& new.spec_arpeggio().spec_limit() == if s.arpeggio {
                0
            } else {
                arp_limit
            }
            &&& new.since_restart() == if s.repeated {
                1
            } else {
                old.since_restart() + 1
            }
            &&& new.spec_playing() == old.spec_playing()
            &&& new.spec_envelope() == old.spec_envelope()
            &&& new.spec_phaser_offset() == old.spec_phaser_offset()
            &&& new.spec_phaser() == old.spec_phaser()
        })
    }

    /// Begins a sample step. A sound that no longer plays takes no step
    /// (`None`, nothing changes). Otherwise the repeat count ticks; when
    /// the repeat comes due the voice restarts with `restart_period` and
    /// `restart_arpeggio_limit`. Then the arpeggio count ticks and may
    /// come due.
    pub fn begin_frame(&mut self, restart_period: i32, restart_arpeggio_limit: i32) -> (start:
        Option<FrameStart>)
        requires
            old(self).wf(),
            old(self).frame_ready(),
        ensures
            final(self).wf(),
            Self::began(
                *old(self),
                *final(self),
                restart_period,
                restart_arpeggio_limit,
                start,
            ),
            start is Some ==> final(self).finish_ready(),
    {
        if !self.playing {
            return None;
        }
        let repeated = self.repeat.tick_cycle();
        if repeated {
            self.clock.set_raw_period(restart_period);
            self.arpeggio.rearm(restart_arpeggio_limit);
            self.since_restart = Ghost(0);
        }
        let arpeggio = self.arpeggio.tick_once();
        self.since_restart = Ghost((self.since_restart@ + 1) as nat);
        Some(FrameStart { repeated, arpeggio })
    }

    /// What `finish_frame` does to `old`, giving `new` and `ended`.
    pub open spec fn finished(
        old: Voice<T>,
        new: Voice<T>,
        stop: bool,
        period: i32,
        phaser_offset: i32,
        ended: bool,
    ) -> bool {
        &&& new.spec_clock().spec_phase() == old.spec_clock().spec_phase()
        &&& new.spec_clock().spec_period() == if period < MIN_PERIOD {
            MIN_PERIOD as int
        } else {
            period as int
        }
        &&& old.spec_envelope().tick_leads_to(
            new.spec_envelope().spec_stage(),
            new.spec_envelope().spec_time(),
        )
        &&& forall|i: int| #[trigger]
            new.spec_envelope().spec_length(i) == old.spec_envelope().spec_length(i)
        &&& new.spec_envelope().elapsed() == old.spec_envelope().elapsed() + 1
        &&& ended == (new.spec_envelope().spec_stage() == 3)
        &&& new.spec_playing() == (old.spec_playing() && !stop && !ended)
        &&& new.spec_phaser_offset() == if phaser_offset > MAX_PHASER_DELAY {
            MAX_PHASER_DELAY as int
        } else {
            phaser_offset as int
        }
        &&& new.spec_repeat() == old.spec_repeat()
        &&& new.spec_arpeggio() == old.spec_arpeggio()
        &&& new.spec_phaser() == old.spec_phaser()
        &&& new.since_restart() == old.since_restart()
    }

    /// Finishes the integer part of a sample step: the sound stops if
    /// `stop` says so, the period is set from its raw value (at least
    /// `MIN_PERIOD`), the envelope ticks and, when it ends, the sound
    /// stops; the phaser offset is set from its raw value (at most
    /// `MAX_PHASER_DELAY`). Returns whether the envelope ended.
    pub fn finish_frame(&mut self, stop: bool, period: i32, phaser_offset: i32) -> (ended: bool)
        requires
            old(self).finish_ready(),
            phaser_offset >= 0,
        ensures
            final(self).wf(),
            final(self).subsample_ready(),
            Self::finished(*old(self), *final(self), stop, period, phaser_offset, ended),
            old(self).sound_step(*final(self), stop),
    {
        if stop {
            self.playing = false;
        }
        self.clock.set_period(period);
        let ended = self.envelope.tick();
        if ended {
            self.playing = false;
        }
        self.phaser_offset = if phaser_offset > MAX_PHASER_DELAY {
            MAX_PHASER_DELAY
        } else {
            phaser_offset
        };
        proof {
            self.envelope.lemma_ends_at_total();
            assert(self.envelope.total() == old(self).envelope.total()) by {
                assert(self.envelope.spec_length(0) == old(self).envelope.spec_length(0));
                assert(self.envelope.spec_length(1) == old(self).envelope.spec_length(1));
                assert(self.envelope.spec_length(2) == old(self).envelope.spec_length(2));
            }
        }
        ended
    }

    /// What `advance_phase` does to `old`, giving `new` and `refill_noise`.
    pub open spec fn advanced(
        old: Voice<T>,
        new: Voice<T>,
        wave: WaveType,
        refill_noise: bool,
    ) -> bool {
        let phase = old.spec_clock().spec_phase();
        let period = old.spec_clock().spec_period();
        &&& new.spec_clock().spec_period() == period
        &&& new.spec_clock().spec_phase() == if phase + 1 >= period {
            (phase + 1) % period
        } else {
            phase + 1
        }
        &&& refill_noise == (phase + 1 >= period && wave == WaveType::Noise)
        &&& new.spec_playing() == old.spec_playing()
        &&& new.spec_envelope() == old.spec_envelope()
        &&& new.spec_repeat() == old.spec_repeat()
        &&& new.spec_arpeggio() == old.spec_arpeggio()
        &&& new.spec_phaser_offset() == old.spec_phaser_offset()
        &&& new.spec_phaser() == old.spec_phaser()
        &&& new.since_restart() == old.since_restart()
    }

    /// Advances the oscillator by one subsample; returns whether a noise
    /// waveform needs fresh random values now, that is whether the phase
    /// wrapped while `wave` is `Noise`. The phase then lies inside the
    /// period.
    pub fn advance_phase(&mut self, wave: WaveType) -> (refill_noise: bool)
        requires
            old(self).wf(),
            old(self).spec_clock().spec_period() > 0,
        ensures
            final(self).wf(),
            Self::advanced(*old(self), *final(self), wave, refill_noise),
            0 <= final(self).spec_clock().spec_phase() < final(self).spec_clock().spec_period(),
            old(self).subsample_ready() ==> final(self).settled(),
    {
        let wrapped = self.clock.advance();
        wrapped && wave == WaveType::Noise
    }

    /// What `echo` does to `old` for the sample `x`, giving `new` and `r`.
    pub open spec fn echoed(old: Voice<T>, new: Voice<T>, x: T, r: T) -> bool {
        &&& new.spec_phaser().history() == pushed(old.spec_phaser().history(), x)
        &&& new.spec_phaser().spec_pos() == (old.spec_phaser().spec_pos() + 1) % (
        PHASER_LEN as nat)
        &&& r == new.spec_phaser().history()[old.spec_phaser_offset()]
        &&& new.spec_playing() == old.spec_playing()
        &&& new.spec_clock() == old.spec_clock()
        &&& new.spec_envelope() == old.spec_envelope()
        &&& new.spec_repeat() == old.spec_repeat()
        &&& new.spec_arpeggio() == old.spec_arpeggio()
        &&& new.spec_phaser_offset() == old.spec_phaser_offset()
        &&& new.since_restart() == old.since_restart()
    }

    /// Passes `x` through the phaser: writes it to the delay line, moves
    /// on to the next slot, and returns the sample written
    /// `phaser_offset` samples before it.
    pub fn echo(&mut self, x: T) -> (r: T)
        requires
            old(self).wf(),
            old(self).spec_phaser_offset() <= MAX_PHASER_DELAY,
        ensures
            final(self).wf(),
            Self::echoed(*old(self), *final(self), x, r),
            old(self).subsample_ready() ==> final(self).subsample_ready(),
            old(self).settled() ==> final(self).settled(),
    {
        let delay = self.phaser_offset as usize;
        self.phaser.process(x, delay)
    }

    /// A playing voice whose steps are not stopped from outside plays
    /// exactly `frames_left()` more steps: along a run of steps, the voice
    /// after `k` of them has `k` more ticks of envelope behind it and
    /// plays exactly when `k < frames_left()` of the first.
    pub proof fn lemma_sound_duration(run: Seq<Voice<T>>)
        requires
            run.len() >= 1,
            forall|k: int| 0 <= k < run.len() ==> #[trigger] run[k].wf(),
            run[0].spec_playing(),
            forall|k: int|
                0 <= k < run.len() - 1 ==> #[trigger] run[k].sound_step(run[k + 1], false),
        ensures
            forall|k: int|
                #![trigger run[k]]
                0 <= k < run.len() ==> {
                    &&& run[k].spec_envelope().elapsed() == run[0].spec_envelope().elapsed() + k
                    &&& run[k].spec_envelope().total() == run[0].spec_envelope().total()
                    &&& run[k].spec_playing() == (k < run[0].frames_left())
                },
    {
        assert forall|k: int| #![trigger run[k]] 0 <= k < run.len() implies {
            &&& run[k].spec_envelope().elapsed() == run[0].spec_envelope().elapsed() + k
            &&& run[k].spec_envelope().total() == run[0].spec_envelope().total()
            &&& run[k].spec_playing() == (k < run[0].frames_left())
        } by {
            Self::lemma_sound_duration_upto(run, k);
        }
    }

    proof fn lemma_sound_duration_upto(run: Seq<Voice<T>>, k: int)
        requires
            0 <= k < run.len(),
            forall|j: int| 0 <= j < run.len() ==> #[trigger] run[j].wf(),
            run[0].spec_playing(),
            forall|j: int|
                0 <= j < run.len() - 1 ==> #[trigger] run[j].sound_step(run[j + 1], false),
        ensures
            run[k].spec_envelope().elapsed() == run[0].spec_envelope().elapsed() + k,
            run[k].spec_envelope().total() == run[0].spec_envelope().total(),
            run[k].spec_playing() == (k < run[0].frames_left()),
        decreases k,
    {
        assert(run[0].wf());
        if k == 0 {
            run[0].spec_envelope().lemma_ends_at_total();
        } else {
            Self::lemma_sound_duration_upto(run, k - 1);
            let j = k - 1;
            assert(run[j].sound_step(run[j + 1], false));
            assert(j + 1 == k);
        }
    }

    /// The start of a sample step never moves the oscillator phase, also
    /// when the repeat comes due: a repeat changes only the period and the
    /// arpeggio.
    pub proof fn lemma_begin_keeps_phase(
        old: Voice<T>,
        new: Voice<T>,
        restart_period: i32,
        restart_arpeggio_limit: i32,
        start: Option<FrameStart>,
    )
        requires
            Self::began(old, new, restart_period, restart_arpeggio_limit, start),
        ensures
            new.spec_clock().spec_phase() == old.spec_clock().spec_phase(),
    {
    }

    /// With a positive repeat limit `L`, the repeat comes due on the `n`-th
    /// step since it was armed exactly when `L` divides `n`, whatever the
    /// size of `L`; the count goes on to `n % L`.
    pub proof fn lemma_repeat_due(
        old: Voice<T>,
        new: Voice<T>,
        restart_period: i32,
        restart_arpeggio_limit: i32,
        s: FrameStart,
        n: nat,
    )
        requires
            Self::began(old, new, restart_period, restart_arpeggio_limit, Some(s)),
            old.spec_repeat().spec_limit() > 0,
            n > 0,
            old.spec_repeat().spec_time() == ((n - 1) as int) % old.spec_repeat().spec_limit(),
        ensures
            s.repeated == ((n as int) % old.spec_repeat().spec_limit() == 0),
            new.spec_repeat().spec_time() == (n as int) % old.spec_repeat().spec_limit(),
    {
        old.spec_repeat().lemma_cycle_flag(n);
    }

    /// The arpeggio jump, armed with a positive limit `L` (by the last
    /// restart, or by this step's repeat), comes due exactly on the step
    /// that brings its count to `L`, whatever the size of `L`.
    pub proof fn lemma_arpeggio_due(
        old: Voice<T>,
        new: Voice<T>,
        restart_period: i32,
        restart_arpeggio_limit: i32,
        s: FrameStart,
    )
        requires
            Self::began(old, new, restart_period, restart_arpeggio_limit, Some(s)),
            s.repeated ==> restart_arpeggio_limit > 0,
            !s.repeated ==> old.spec_arpeggio().spec_limit() > 0 && 0 <= old.spec_arpeggio().spec_time()
                < old.spec_arpeggio().spec_limit(),
        ensures
            s.repeated ==> s.arpeggio == (restart_arpeggio_limit == 1),
            !s.repeated ==> s.arpeggio == (old.spec_arpeggio().spec_time() + 1
                == old.spec_arpeggio().spec_limit()),
            s.arpeggio ==> new.spec_arpeggio().spec_limit() == 0,
    {
    }

    /// The end of a sample step never moves the oscillator phase, whatever
    /// the new period, also one at or below the phase: the phase is
    /// brought back inside the period only by the next advance.
    pub proof fn lemma_finish_keeps_phase(
        old: Voice<T>,
        new: Voice<T>,
        stop: bool,
        period: i32,
        phaser_offset: i32,
        ended: bool,
    )
        requires
            Self::finished(old, new, stop, period, phaser_offset, ended),
        ensures
            new.spec_clock().spec_phase() == old.spec_clock().spec_phase(),
            new.spec_clock().spec_period() >= MIN_PERIOD,
            period >= MIN_PERIOD ==> new.spec_clock().spec_period() == period,
    {
    }

    /// One subsample advance with period `P > 0` takes the phase `p` to the
    /// one value in `0..P` that is congruent to `p + 1` modulo `P`; so to
    /// `p + 1` while that stays below `P`, and to `(p + 1) % P` when it
    /// wraps. Fresh noise is asked for exactly when it wraps on a noise
    /// wave.
    pub proof fn lemma_advance_wraps(old: Voice<T>, new: Voice<T>, wave: WaveType, refill_noise: bool)
        requires
            Self::advanced(old, new, wave, refill_noise),
            old.spec_clock().spec_period() > 0,
            old.spec_clock().spec_phase() >= 0,
        ensures
            0 <= new.spec_clock().spec_phase() < old.spec_clock().spec_period(),
            (new.spec_clock().spec_phase() - (old.spec_clock().spec_phase() + 1))
                % old.spec_clock().spec_period() == 0,
            new.spec_clock().spec_phase() == (old.spec_clock().spec_phase() + 1)
                % old.spec_clock().spec_period() || old.spec_clock().spec_phase() + 1
                < old.spec_clock().spec_period() && new.spec_clock().spec_phase()
                == old.spec_clock().spec_phase() + 1,
            refill_noise == (old.spec_clock().spec_phase() + 1 >= old.spec_clock().spec_period()
                && wave == WaveType::Noise),
    {
        let p = old.spec_clock().spec_phase() + 1;
        let m = old.spec_clock().spec_period();
        let r = new.spec_clock().spec_phase();
        if p >= m {
            vstd::arithmetic::div_mod::lemma_fundamental_div_mod(p, m);
            vstd::arithmetic::div_mod::lemma_mod_bound(p, m);
            let q = p / m;
            assert(r - p == (-q) * m) by (nonlinear_arith)
                requires
                    p == m * q + r,
            ;
            vstd::arithmetic::div_mod::lemma_mod_multiples_basic(-q, m);
        } else {
            vstd::arithmetic::div_mod::lemma_small_mod(0, m as nat);
        }
    }

    /// A whole sample step, `begin_frame` then `finish_frame`, is a
    /// `sound_step`: the subsamples in between leave the envelope and
    /// whether the sound plays alone.
    pub proof fn lemma_frame_is_sound_step(
        v0: Voice<T>,
        v1: Voice<T>,
        v2: Voice<T>,
        restart_period: i32,
        restart_arpeggio_limit: i32,
        start: Option<FrameStart>,
        stop: bool,
        period: i32,
        phaser_offset: i32,
        ended: bool,
    )
        requires
            start is Some,
            Self::began(v0, v1, restart_period, restart_arpeggio_limit, start),
            Self::finished(v1, v2, stop, period, phaser_offset, ended),
            v2.wf(),
        ensures
            v0.sound_step(v2, stop),
    {
        v2.spec_envelope().lemma_ends_at_total();
        assert(v2.spec_envelope().spec_length(0) == v1.spec_envelope().spec_length(0));
        assert(v2.spec_envelope().spec_length(1) == v1.spec_envelope().spec_length(1));
        assert(v2.spec_envelope().spec_length(2) == v1.spec_envelope().spec_length(2));
    }

    /// Two voices in the same state stay in the same state through every
    /// step of a sample, given the same inputs, and give the same answers:
    /// the integer state and what it decides are a function of the inputs.
    pub proof fn lemma_steps_deterministic(
        a: Voice<T>,
        b: Voice<T>,
        a_began: Voice<T>,
        b_began: Voice<T>,
        restart_period: i32,
        restart_arpeggio_limit: i32,
        a_start: Option<FrameStart>,
        b_start: Option<FrameStart>,
        a_finished: Voice<T>,
        b_finished: Voice<T>,
        stop: bool,
        period: i32,
        phaser_offset: i32,
        a_ended: bool,
        b_ended: bool,
    )
        requires
            a.agrees(b),
            Self::began(a, a_began, restart_period, restart_arpeggio_limit, a_start),
            Self::began(b, b_began, restart_period, restart_arpeggio_limit, b_start),
            Self::finished(a_began, a_finished, stop, period, phaser_offset, a_ended),
            Self::finished(b_began, b_finished, stop, period, phaser_offset, b_ended),
        ensures
            a_start == b_start,
            a_began.agrees(b_began),
            a_ended == b_ended,
            a_finished.agrees(b_finished),
    {
        Self::lemma_began_agrees(a, b, a_began, b_began, restart_period, restart_arpeggio_limit, a_start, b_start);
        Self::lemma_finished_agrees(a_began, b_began, a_finished, b_finished, stop, period, phaser_offset, a_ended, b_ended);
    }

    /// `begin_frame` takes voices in the same state to the same state,
    /// with the same answer.
    pub proof fn lemma_began_agrees(
        a: Voice<T>,
        b: Voice<T>,
        a_new: Voice<T>,
        b_new: Voice<T>,
        restart_period: i32,
        restart_arpeggio_limit: i32,
        a_start: Option<FrameStart>,
        b_start: Option<FrameStart>,
    )
        requires
            a.agrees(b),
            Self::began(a, a_new, restart_period, restart_arpeggio_limit, a_start),
            Self::began(b, b_new, restart_period, restart_arpeggio_limit, b_start),
        ensures
            a_start == b_start,
            a_new.agrees(b_new),
    {
        if a.spec_playing() {
            let sa = a_start.unwrap();
            let sb = b_start.unwrap();
            assert(sa == sb);
            PhaseClock::lemma_determined(a_new.spec_clock(), b_new.spec_clock());
            Trigger::lemma_determined(a_new.spec_repeat(), b_new.spec_repeat());
            Trigger::lemma_determined(a_new.spec_arpeggio(), b_new.spec_arpeggio());
        }
    }

    /// `finish_frame` takes voices in the same state to the same state,
    /// with the same answer.
    pub proof fn lemma_finished_agrees(
        a: Voice<T>,
        b: Voice<T>,
        a_new: Voice<T>,
        b_new: Voice<T>,
        stop: bool,
        period: i32,
        phaser_offset: i32,
        a_ended: bool,
        b_ended: bool,
    )
        requires
            a.agrees(b),
            Self::finished(a, a_new, stop, period, phaser_offset, a_ended),
            Self::finished(b, b_new, stop, period, phaser_offset, b_ended),
        ensures
            a_ended == b_ended,
            a_new.agrees(b_new),
    {
        PhaseClock::lemma_determined(a_new.spec_clock(), b_new.spec_clock());
        assert(a_new.spec_envelope().spec_length(0) == b_new.spec_envelope().spec_length(0));
        assert(a_new.spec_envelope().spec_length(1) == b_new.spec_envelope().spec_length(1));
        assert(a_new.spec_envelope().spec_length(2) == b_new.spec_envelope().spec_length(2));
        Envelope::lemma_determined(a_new.spec_envelope(), b_new.spec_envelope());
    }

    /// `advance_phase` takes voices in the same state to the same state,
    /// with the same answer.
    pub proof fn lemma_advanced_agrees(
        a: Voice<T>,
        b: Voice<T>,
        a_new: Voice<T>,
        b_new: Voice<T>,
        wave: WaveType,
        a_refill: bool,
        b_refill: bool,
    )
        requires
            a.agrees(b),
            Self::advanced(a, a_new, wave, a_refill),
            Self::advanced(b, b_new, wave, b_refill),
        ensures
            a_refill == b_refill,
            a_new.agrees(b_new),
    {
        PhaseClock::lemma_determined(a_new.spec_clock(), b_new.spec_clock());
    }

    /// `echo` takes voices in the same state to the same state, and
    /// returns the same sample for the same input.
    pub proof fn lemma_echoed_agrees(
        a: Voice<T>,
        b: Voice<T>,
        a_new: Voice<T>,
        b_new: Voice<T>,
        x: T,
        a_r: T,
        b_r: T,
    )
        requires
            a.agrees(b),
            Self::echoed(a, a_new, x, a_r),
            Self::echoed(b, b_new, x, b_r),
        ensures
            a_r == b_r,
            a_new.agrees(b_new),
    {
    }

    /// A sample step can always begin while fewer than `i32::MAX` samples
    /// have passed since the last reset or repeat and no envelope stage is
    /// `i32::MAX` long. Since `begin_frame` leaves the voice
    /// `finish_ready`, `finish_frame` leaves it `subsample_ready`, and
    /// `advance_phase` and `echo` keep it so, a whole step then runs
    /// without overflow, bad index or division by zero.
    pub proof fn lemma_frame_can_begin(self)
        requires
            self.wf(),
            self.since_restart() < i32::MAX,
            self.spec_envelope().spec_length(0) < i32::MAX,
            self.spec_envelope().spec_length(1) < i32::MAX,
            self.spec_envelope().spec_length(2) < i32::MAX,
        ensures
            self.frame_ready(),
    {
        let e = self.spec_envelope();
        if e.spec_stage() < 3 {
            assert(e.spec_length(e.spec_stage() as int) < i32::MAX);
        }
    }

    /// A reset fixes the whole state but whether the sound plays: two
    /// voices reset with the same plan and silent sample, which agree on
    /// whether they play, are alike in every part. Hence resetting twice
    /// does no more than resetting once, and a restart before a reset
    /// leaves no trace.
    pub proof fn lemma_reset_determines(a: Voice<T>, b: Voice<T>, plan: ResetPlan, zero: T)
        requires
            a.reset_to(plan, zero),
            b.reset_to(plan, zero),
            a.spec_playing() == b.spec_playing(),
        ensures
            a.spec_clock() == b.spec_clock(),
            a.spec_envelope() == b.spec_envelope(),
            a.spec_repeat() == b.spec_repeat(),
            a.spec_arpeggio() == b.spec_arpeggio(),
            a.spec_phaser_offset() == b.spec_phaser_offset(),
            a.spec_phaser().history() == b.spec_phaser().history(),
            a.spec_phaser().spec_pos() == b.spec_phaser().spec_pos(),
            a.since_restart() == b.since_restart(),
    {
        PhaseClock::lemma_determined(a.spec_clock(), b.spec_clock());
        Envelope::lemma_determined(a.spec_envelope(), b.spec_envelope());
        Trigger::lemma_determined(a.spec_repeat(), b.spec_repeat());
        Trigger::lemma_determined(a.spec_arpeggio(), b.spec_arpeggio());
    }
}

} // verus!
