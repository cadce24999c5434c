//! The scrolling waterfall history: a fixed-length circular buffer of
//! per-band magnitude rows with a single write position.
//!
//! Every update writes one combined row at the current position and
//! advances the position by exactly one, wrapping at the buffer length;
//! reading the row of age `r` indexes `(position + r) % length`, so a
//! renderer walking ages `0, 1, ...` sees the rows oldest first.

use vstd::prelude::*;

verus! {

/// The write position after `k` updates from a fresh history.
pub open spec fn position_after(k: nat) -> nat
    decreases k,
{
    if k == 0 {
        0
    } else {
        (position_after((k - 1) as nat) + 1) % (crate::WATERFALL_HISTORY as nat)
    }
}

/// Write positions wrap: after `k` updates from the start, the write
/// position is `k` modulo the history length.
pub proof fn lemma_position_after_wraps(k: nat)
    ensures
        position_after(k) == k % (crate::WATERFALL_HISTORY as nat),
    decreases k,
{
    if k > 0 {
        lemma_position_after_wraps((k - 1) as nat);
        assert(((k - 1) % 128 + 1) % 128 == k % 128) by (nonlinear_arith);
    }
}

/// The circular per-band row history behind the waterfall view.
pub struct WaterfallHistory<T> {
    pub rows: Vec<Vec<T>>,
    pub pos: usize,
}

impl<T: Copy> WaterfallHistory<T> {
    /// The history holds exactly `WATERFALL_HISTORY` rows of
    /// `NUM_BANDS` entries each, and the write position is inside it.
    pub open spec fn well_formed(&self) -> bool {
        &&& self.rows.len() == crate::WATERFALL_HISTORY
        &&& forall|i: int|
            0 <= i < self.rows.len() ==> (#[trigger] self.rows[i])@.len() == crate::NUM_BANDS
        &&& self.pos < crate::WATERFALL_HISTORY
    }

    /// A fresh history: every row holds `fill`, position at the start.
    pub fn new(fill: T) -> (r: Self)
        ensures
            r.well_formed(),
            r.pos == 0,
            forall|i: int, j: int|
                0 <= i < crate::WATERFALL_HISTORY && 0 <= j < crate::NUM_BANDS ==> (
                #[trigger] r.rows[i]@[j]) == fill,
    {
        let mut rows: Vec<Vec<T>> = Vec::new();
        let mut i: usize = 0;
        while i < crate::WATERFALL_HISTORY
            invariant
                i <= crate::WATERFALL_HISTORY,
                rows@.len() == i,
                forall|t: int|
                    0 <= t < i ==> (#[trigger] rows[t])@ == Seq::new(
                        crate::NUM_BANDS as nat,
                        |j: int| fill,
                    ),
            decreases crate::WATERFALL_HISTORY - i,
        {
            rows.push(Self::filled_row(fill));
            i += 1;
        }
        WaterfallHistory { rows, pos: 0 }
    }

    fn filled_row(fill: T) -> (r: Vec<T>)
        ensures
            r@ == Seq::new(crate::NUM_BANDS as nat, |j: int| fill),
    {
        let mut row: Vec<T> = Vec::new();
        let mut j: usize = 0;
        while j < crate::NUM_BANDS
            invariant
                j <= crate::NUM_BANDS,
                row@ =~= Seq::new(j as nat, |t: int| fill),
            decreases crate::NUM_BANDS - j,
        {
            row.push(fill);
            j += 1;
        }
        proof {
            assert(row@ =~= Seq::new(crate::NUM_BANDS as nat, |j: int| fill));
        }
        row
    }

    /// Writes `row` at the current position and advances the position
    /// by one, wrapping at the history length.  All other rows are
    /// untouched, so the new row is readable at the old position.
    pub fn push_row(&mut self, row: Vec<T>)
        requires
            old(self).well_formed(),
            row@.len() == crate::NUM_BANDS,
        ensures
            final(self).well_formed(),
            final(self).pos == (old(self).pos + 1) % (crate::WATERFALL_HISTORY as int),
            final(self).rows[old(self).pos as int]@ == row@,
            forall|i: int|
                0 <= i < crate::WATERFALL_HISTORY && i != old(self).pos
                    ==> (#[trigger] final(self).rows[i])@ == old(self).rows[i]@,
    {
        let p = self.pos;
        self.rows.set(p, row);
        self.pos = (p + 1) % crate::WATERFALL_HISTORY;
    }

    /// The row of age `age`: `0` is the oldest remembered row, and
    /// `WATERFALL_HISTORY - 1` the most recently written one.
    pub fn row_at(&self, age: usize) -> (r: &Vec<T>)
        requires
            self.well_formed(),
            age < crate::WATERFALL_HISTORY,
        ensures
            r == self.rows[((self.pos + age) % (crate::WATERFALL_HISTORY as int)) as int],
    {
        let idx = (self.pos + age) % crate::WATERFALL_HISTORY;
        &self.rows[idx]
    }
}

} // verus!
