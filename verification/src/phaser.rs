use vstd::prelude::*;

verus! {

/// Number of samples the phaser delay line holds.
pub const PHASER_LEN: usize = 1024;

/// The longest delay the phaser can apply, in samples.
pub const MAX_PHASER_DELAY: i32 = 1023;

/// The history after writing `x`: `x` is now the newest sample and the
/// oldest falls off.
pub open spec fn pushed<T>(history: Seq<T>, x: T) -> Seq<T> {
    seq![x] + history.take(PHASER_LEN as int - 1)
}

/// The history after writing each of `xs` in turn.
pub open spec fn pushed_all<T>(history: Seq<T>, xs: Seq<T>) -> Seq<T>
    decreases xs.len(),
{
    if xs.len() == 0 {
        history
    } else {
        pushed_all(pushed(history, xs[0]), xs.drop_first())
    }
}

/// The phaser's ring buffer. Its view is the history of written samples,
/// newest first: `view[k]` was written `k + 1` writes ago.
pub struct DelayLine<T> {
    buf: Vec<T>,
    pos: usize,
}

impl<T: Copy> DelayLine<T> {
    pub open spec fn wf(self) -> bool {
        &&& self.spec_len() == PHASER_LEN
        &&& self.spec_pos() < PHASER_LEN
    }

    pub closed spec fn spec_len(self) -> nat {
        self.buf@.len()
    }

    /// The slot the next write goes to.
    pub closed spec fn spec_pos(self) -> nat {
        self.pos as nat
    }

    /// The written samples, newest first.
    pub closed spec fn history(self) -> Seq<T> {
        Seq::new(
            PHASER_LEN as nat,
            |k: int| self.buf@[(self.pos + PHASER_LEN - 1 - k) % (PHASER_LEN as int)],
        )
    }

    /// A delay line whose every slot holds `zero`.
    pub fn new(zero: T) -> (d: DelayLine<T>)
        ensures
            d.wf(),
            d.spec_pos() == 0,
            d.history() == Seq::new(PHASER_LEN as nat, |k: int| zero),
    {
        let mut buf: Vec<T> = Vec::new();
        let mut i: usize = 0;
        while i < PHASER_LEN
            invariant
                i <= PHASER_LEN,
                buf@.len() == i,
                forall|j: int| 0 <= j < i ==> buf@[j] == zero,
            decreases PHASER_LEN - i,
        {
            buf.push(zero);
            i = i + 1;
        }
        let d = DelayLine { buf, pos: 0 };
        assert(d.history() =~= Seq::new(PHASER_LEN as nat, |k: int| zero));
        d
    }

    /// Fills every slot with `zero` and moves the write position to the
    /// first slot.
    pub fn clear(&mut self, zero: T)
        ensures
            final(self).wf(),
            final(self).spec_pos() == 0,
            final(self).history() == Seq::new(PHASER_LEN as nat, |k: int| zero),
    {
        *self = DelayLine::new(zero);
    }

    /// Writes `x` as the newest sample, then reads the sample written
    /// `delay` writes before it (`x` itself when `delay` is 0), and moves
    /// on to the next slot.
    pub fn process(&mut self, x: T, delay: usize) -> (r: T)
        requires
            old(self).wf(),
            delay < PHASER_LEN,
        ensures
            final(self).wf(),
            final(self).history() == pushed(old(self).history(), x),
            r == final(self).history()[delay as int],
            final(self).spec_pos() == (old(self).spec_pos() + 1) % (PHASER_LEN as nat),
    {
        let n = PHASER_LEN;
        let ghost old_hist = self.history();
        let ghost p = self.pos as int;
        self.buf[self.pos] = x;
        let r = self.buf[(self.pos + n - delay) % n];
        self.pos = (self.pos + 1) % n;
        proof {
            let h = self.history();
            let want = pushed(old_hist, x);
            assert forall|k: int| 0 <= k < PHASER_LEN implies #[trigger] h[k] == want[k] by {
                if k == 0 {
                    assert((self.pos + PHASER_LEN - 1 - k) % (PHASER_LEN as int) == p);
                } else {
                    assert((self.pos + PHASER_LEN - 1 - k) % (PHASER_LEN as int) == (p
                        + PHASER_LEN - 1 - (k - 1)) % (PHASER_LEN as int));
                    assert((p + PHASER_LEN - 1 - (k - 1)) % (PHASER_LEN as int) != p);
                }
            }
            assert(h =~= want);
            assert((self.pos + PHASER_LEN - 1 - delay) % (PHASER_LEN as int) == (p + n - delay)
                % (n as int));
        }
        r
    }
}

/// What a read returns of a write: when `x` is written and then `ys`, the
/// next `process` with delay `ys.len() + 1` hands `x` back, whatever the
/// history before and whatever sample `z` that call writes.
pub proof fn lemma_read_returns_write<T>(history: Seq<T>, x: T, ys: Seq<T>, z: T)
    requires
        history.len() == PHASER_LEN,
        ys.len() + 1 < PHASER_LEN,
    ensures
        pushed(pushed_all(pushed(history, x), ys), z)[ys.len() + 1 as int] == x,
{
    let h1 = pushed(history, x);
    lemma_pushed_all_shifts(h1, ys);
    let k0: int = 0;
    assert(pushed_all(h1, ys)[k0 + ys.len()] == h1[k0]);
    let hn = pushed_all(h1, ys);
    assert(pushed(hn, z)[ys.len() + 1 as int] == hn[ys.len() as int]);
}

/// Writing `ys` moves every sample of the history `ys.len()` places
/// older; the newest `ys.len()` places hold `ys`, newest first.
pub proof fn lemma_pushed_all_shifts<T>(history: Seq<T>, ys: Seq<T>)
    requires
        history.len() == PHASER_LEN,
        ys.len() <= PHASER_LEN,
    ensures
        pushed_all(history, ys).len() == PHASER_LEN,
        forall|k: int|
            0 <= k < PHASER_LEN - ys.len() ==> #[trigger] pushed_all(history, ys)[k + ys.len()]
                == history[k],
        forall|k: int|
            0 <= k < ys.len() ==> #[trigger] pushed_all(history, ys)[k] == ys[ys.len() - 1 - k],
    decreases ys.len(),
{
    if ys.len() > 0 {
        let h1 = pushed(history, ys[0]);
        assert(h1.len() == PHASER_LEN);
        let rest = ys.drop_first();
        lemma_pushed_all_shifts(h1, rest);
        assert forall|k: int| 0 <= k < PHASER_LEN - ys.len() implies #[trigger] pushed_all(
            history,
            ys,
        )[k + ys.len()] == history[k] by {
            assert(pushed_all(h1, rest)[(k + 1) + rest.len()] == h1[k + 1]);
        }
        assert forall|k: int| 0 <= k < ys.len() implies #[trigger] pushed_all(history, ys)[k]
            == ys[ys.len() - 1 - k] by {
            if k < rest.len() {
                assert(pushed_all(h1, rest)[k] == rest[rest.len() - 1 - k]);
            } else {
                let k0: int = 0;
                assert(pushed_all(h1, rest)[k0 + rest.len()] == h1[k0]);
            }
        }
    }
}

} // verus!
