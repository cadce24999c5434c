//! Fixed-capacity circular sample buffers for the two capture channels.
//!
//! Both channels are written in lockstep from interleaved stereo frames
//! and share one write cursor.  At any time each buffer holds exactly
//! the most recent `FFT_SIZE` samples of its channel; reading a channel
//! starting at the cursor yields them oldest first.

use vstd::prelude::*;

verus! {

/// The samples of `buf` in arrival order, oldest first, when `pos` is
/// the write cursor.
pub open spec fn in_order<T>(buf: Seq<T>, pos: int) -> Seq<T> {
    buf.subrange(pos, buf.len() as int) + buf.subrange(0, pos)
}

/// The samples at even interleave positions: channel 0 of a stereo
/// frame sequence.
pub open spec fn even_samples<T>(frames: Seq<T>) -> Seq<T> {
    Seq::new((frames.len() / 2) as nat, |i: int| frames[2 * i])
}

/// The samples at odd interleave positions: channel 1 of a stereo
/// frame sequence.
pub open spec fn odd_samples<T>(frames: Seq<T>) -> Seq<T> {
    Seq::new((frames.len() / 2) as nat, |i: int| frames[2 * i + 1])
}

/// One circular overwrite step: writing `x` at the cursor and advancing
/// the cursor drops the oldest sample and appends the newest.
proof fn lemma_ring_step<T>(buf: Seq<T>, pos: int, x: T)
    requires
        0 <= pos < buf.len(),
    ensures
        in_order(buf.update(pos, x), (pos + 1) % (buf.len() as int)) == in_order(
            buf,
            pos,
        ).drop_first().push(x),
{
    let n = buf.len() as int;
    let updated = buf.update(pos, x);
    if pos + 1 < n {
        assert((pos + 1) % n == pos + 1) by (nonlinear_arith)
            requires
                0 <= pos + 1 < n,
        ;
        assert(in_order(updated, pos + 1) =~= in_order(buf, pos).drop_first().push(x));
    } else {
        assert((pos + 1) % n == 0) by (nonlinear_arith)
            requires
                pos + 1 == n,
                0 < n,
        ;
        assert(in_order(updated, 0) =~= in_order(buf, pos).drop_first().push(x));
    }
}

/// Sliding a window one step: dropping the oldest element and appending
/// the next incoming one advances both the window into the old samples
/// and the prefix of new samples.
proof fn lemma_slide_window<T>(a: Seq<T>, e: Seq<T>, k: int)
    requires
        0 <= k < e.len(),
        e.len() <= a.len(),
    ensures
        (a.skip(k) + e.take(k)).drop_first().push(e[k]) =~= a.skip(k + 1) + e.take(k + 1),
{
    let lhs = (a.skip(k) + e.take(k)).drop_first().push(e[k]);
    let rhs = a.skip(k + 1) + e.take(k + 1);
    assert(lhs.len() == rhs.len());
    assert forall|i: int| 0 <= i < rhs.len() implies lhs[i] == rhs[i] by {
        if i < a.len() - k - 1 {
            assert(lhs[i] == a[k + 1 + i]);
            assert(rhs[i] == a[k + 1 + i]);
        } else if i < lhs.len() - 1 {
            assert(lhs[i] == e[i - (a.len() - k - 1)]);
            assert(rhs[i] == e[i - (a.len() - k - 1)]);
        } else {
            assert(lhs[i] == e[k]);
            assert(rhs[i] == e[k]);
        }
    }
}

/// The pair of per-channel ring buffers behind the transform stage.
pub struct ChannelRings<T> {
    pub left: Vec<T>,
    pub right: Vec<T>,
    pub pos: usize,
}

impl<T: Copy> ChannelRings<T> {
    /// Both buffers hold exactly `FFT_SIZE` samples and the shared
    /// cursor is inside them.
    pub open spec fn well_formed(&self) -> bool {
        &&& self.left.len() == crate::FFT_SIZE
        &&& self.right.len() == crate::FFT_SIZE
        &&& self.pos < crate::FFT_SIZE
    }

    /// The left channel's samples, oldest first.
    pub open spec fn left_in_order(&self) -> Seq<T> {
        in_order(self.left@, self.pos as int)
    }

    /// The right channel's samples, oldest first.
    pub open spec fn right_in_order(&self) -> Seq<T> {
        in_order(self.right@, self.pos as int)
    }

    /// Fresh rings holding `fill` everywhere, cursor at the start.
    pub fn new(fill: T) -> (r: Self)
        ensures
            r.well_formed(),
            r.left_in_order() == Seq::new(crate::FFT_SIZE as nat, |i: int| fill),
            r.right_in_order() == Seq::new(crate::FFT_SIZE as nat, |i: int| fill),
    {
        let mut left: Vec<T> = Vec::new();
        let mut right: Vec<T> = Vec::new();
        let mut i: usize = 0;
        while i < crate::FFT_SIZE
            invariant
                i <= crate::FFT_SIZE,
                left@ =~= Seq::new(i as nat, |k: int| fill),
                right@ =~= Seq::new(i as nat, |k: int| fill),
            decreases crate::FFT_SIZE - i,
        {
            left.push(fill);
            right.push(fill);
            i += 1;
        }
        let r = ChannelRings { left, right, pos: 0 };
        proof {
            assert(r.left_in_order() =~= Seq::new(crate::FFT_SIZE as nat, |i: int| fill));
            assert(r.right_in_order() =~= Seq::new(crate::FFT_SIZE as nat, |i: int| fill));
        }
        r
    }

    /// Consumes one hop of interleaved stereo frames: appends the
    /// even-position samples to the left channel and the odd-position
    /// samples to the right channel, each overwriting its oldest
    /// `HOP_SIZE` samples, and advances the shared cursor.
    pub fn push_hop_interleaved(&mut self, frames: &Vec<T>)
        requires
            old(self).well_formed(),
            frames@.len() == 2 * crate::HOP_SIZE,
        ensures
            final(self).well_formed(),
            final(self).pos == (old(self).pos + crate::HOP_SIZE) % (crate::FFT_SIZE as int),
            final(self).left_in_order() == old(self).left_in_order().skip(crate::HOP_SIZE as int)
                + even_samples(frames@),
            final(self).right_in_order() == old(self).right_in_order().skip(crate::HOP_SIZE as int)
                + odd_samples(frames@),
    {
        let mut k: usize = 0;
        while k < crate::HOP_SIZE
            invariant
                k <= crate::HOP_SIZE,
                frames@.len() == 2 * crate::HOP_SIZE,
                old(self).well_formed(),
                self.well_formed(),
                self.pos == (old(self).pos + k) % (crate::FFT_SIZE as int),
                self.left_in_order() =~= old(self).left_in_order().skip(k as int) + even_samples(
                    frames@,
                ).take(k as int),
                self.right_in_order() =~= old(self).right_in_order().skip(k as int) + odd_samples(
                    frames@,
                ).take(k as int),
            decreases crate::HOP_SIZE - k,
        {
            let ghost pre = *self;
            let l = frames[2 * k];
            let rr = frames[2 * k + 1];
            let p = self.pos;
            self.left.set(p, l);
            self.right.set(p, rr);
            self.pos = (p + 1) % crate::FFT_SIZE;
            proof {
                lemma_ring_step(pre.left@, pre.pos as int, l);
                lemma_ring_step(pre.right@, pre.pos as int, rr);
                assert(l == even_samples(frames@)[k as int]);
                assert(rr == odd_samples(frames@)[k as int]);
                lemma_slide_window(old(self).left_in_order(), even_samples(frames@), k as int);
                lemma_slide_window(old(self).right_in_order(), odd_samples(frames@), k as int);
                assert(self.left_in_order() =~= old(self).left_in_order().skip(
                    k + 1,
                ) + even_samples(frames@).take(k + 1));
                assert(self.right_in_order() =~= old(self).right_in_order().skip(
                    k + 1,
                ) + odd_samples(frames@).take(k + 1));
            }
            k += 1;
        }
        proof {
            assert(even_samples(frames@).take(crate::HOP_SIZE as int) =~= even_samples(frames@));
            assert(odd_samples(frames@).take(crate::HOP_SIZE as int) =~= odd_samples(frames@));
            assert(final(self).left_in_order() =~= old(self).left_in_order().skip(
                crate::HOP_SIZE as int,
            ) + even_samples(frames@));
            assert(final(self).right_in_order() =~= old(self).right_in_order().skip(
                crate::HOP_SIZE as int,
            ) + odd_samples(frames@));
        }
    }

    /// A snapshot of the left channel, oldest sample first.
    pub fn read_left(&self) -> (r: Vec<T>)
        requires
            self.well_formed(),
        ensures
            r@ == self.left_in_order(),
    {
        Self::read_from(&self.left, self.pos)
    }

    /// A snapshot of the right channel, oldest sample first.
    pub fn read_right(&self) -> (r: Vec<T>)
        requires
            self.well_formed(),
        ensures
            r@ == self.right_in_order(),
    {
        Self::read_from(&self.right, self.pos)
    }

    fn read_from(buf: &Vec<T>, pos: usize) -> (r: Vec<T>)
        requires
            buf.len() == crate::FFT_SIZE,
            pos < crate::FFT_SIZE,
        ensures
            r@ == in_order(buf@, pos as int),
    {
        let mut r: Vec<T> = Vec::new();
        let mut i: usize = 0;
        while i < crate::FFT_SIZE
            invariant
                i <= crate::FFT_SIZE,
                buf.len() == crate::FFT_SIZE,
                pos < crate::FFT_SIZE,
                r@ =~= in_order(buf@, pos as int).take(i as int),
            decreases crate::FFT_SIZE - i,
        {
            let idx = (pos + i) % crate::FFT_SIZE;
            r.push(buf[idx]);
            proof {
                assert(r@ =~= in_order(buf@, pos as int).take(i + 1));
            }
            i += 1;
        }
        proof {
            assert(in_order(buf@, pos as int).take(crate::FFT_SIZE as int) =~= in_order(
                buf@,
                pos as int,
            ));
        }
        r
    }
}

} // verus!
