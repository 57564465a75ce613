//! The Tally Tracker: running (count, total bytes) statistics per message
//! or request kind, indexed by the kind's slot.

use vstd::prelude::*;

verus! {

/// One kind's running statistic after one more item of `size` bytes.
/// Both totals saturate instead of wrapping; below saturation the count
/// grows by exactly one and the byte total by exactly `size`.
pub open spec fn tally_bump(e: (usize, usize), size: usize) -> (usize, usize) {
    (
        if e.0 == usize::MAX {
            usize::MAX
        } else {
            (e.0 + 1) as usize
        },
        if e.1 > usize::MAX - size {
            usize::MAX
        } else {
            (e.1 + size) as usize
        },
    )
}

/// Away from saturation, a bump is exactly (+1 item, +`size` bytes).
pub proof fn lemma_tally_bump_exact(e: (usize, usize), size: usize)
    requires
        e.0 < usize::MAX,
        e.1 + size <= usize::MAX,
    ensures
        tally_bump(e, size) == ((e.0 + 1) as usize, (e.1 + size) as usize),
{
}

/// A fixed-width table of (count, total bytes) pairs, one slot per kind.
/// Slots only ever grow, and only one slot changes per recorded item.
#[derive(Debug, PartialEq, Eq)]
pub struct Tally {
    entries: Vec<(usize, usize)>,
}

impl View for Tally {
    type V = Seq<(usize, usize)>;

    closed spec fn view(&self) -> Seq<(usize, usize)> {
        self.entries@
    }
}

impl Tally {
    /// A fresh tally: every slot at (0, 0).
    pub fn new(width: usize) -> (r: Tally)
        ensures
            r@.len() == width,
            forall|i: int| 0 <= i < width ==> r@[i] == (0usize, 0usize),
    {
        let mut entries: Vec<(usize, usize)> = Vec::new();
        let mut k: usize = 0;
        while k < width
            invariant
                k <= width,
                entries@.len() == k,
                forall|i: int| 0 <= i < k ==> entries@[i] == (0usize, 0usize),
            decreases width - k,
        {
            entries.push((0, 0));
            k = k + 1;
        }
        Tally { entries }
    }

    pub fn len(&self) -> (r: usize)
        ensures
            r == self@.len(),
    {
        self.entries.len()
    }

    /// The (count, total bytes) pair of one slot.
    pub fn get(&self, idx: usize) -> (r: (usize, usize))
        requires
            idx < self@.len(),
        ensures
            r == self@[idx as int],
    {
        self.entries[idx]
    }

    /// Records one more item of `size` bytes under the kind at `idx`:
    /// that slot is bumped, every other slot is untouched.
    pub fn record(&mut self, idx: usize, size: usize)
        requires
            idx < old(self)@.len(),
        ensures
            final(self)@ == old(self)@.update(idx as int, tally_bump(old(self)@[idx as int], size)),
    {
        let e = self.entries[idx];
        let count = if e.0 == usize::MAX {
            usize::MAX
        } else {
            e.0 + 1
        };
        let bytes = if e.1 > usize::MAX - size {
            usize::MAX
        } else {
            e.1 + size
        };
        self.entries.set(idx, (count, bytes));
    }
}

} // verus!
