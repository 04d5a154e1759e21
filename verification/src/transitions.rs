//! The transition cursor: a movable index over a reference line's
//! change-position list. Forward lookups resume from the index instead of
//! rescanning the list from its start, which makes the b1/b2 lookups of a
//! whole line amortized linear; an explicit rewind serves the one case where
//! a decoded position regresses (a negative Vertical delta).
use vstd::prelude::*;

use crate::Color;
use crate::decoder::find_b1_index;

verus! {

/// The element `next_color` finds from index `idx`: the first element at or
/// after `idx` of parity `target` (an even index is a transition to Black, an
/// odd one to White) lying strictly right of `a0`, together with the cursor
/// index just past it. At the start of a row with the reference's first
/// transition at position 0 and Black wanted, that first transition answers
/// directly.
pub open spec fn spec_next_color(
    t: Seq<u16>,
    idx: int,
    a0: u16,
    wanted: Color,
    start_of_row: bool,
) -> Option<(u16, int)> {
    if start_of_row && t.len() > 0 && t[0] == 0 && wanted == Color::Black {
        Some((t[0], 1))
    } else {
        let target: int = if wanted == Color::Black {
            0
        } else {
            1
        };
        match find_b1_index(t, target, a0, idx) {
            Some(j) => Some((t[j], j + 1)),
            None => None,
        }
    }
}

/// Law: the start-of-row fix-up fires only on a row's first lookup — with
/// the flag down the lookup is exactly the general opposite-color scan, and
/// a line decode raises the flag for its first mode alone.
pub proof fn lemma_fixup_needs_start_of_row(t: Seq<u16>, idx: int, a0: u16, wanted: Color)
    ensures
        spec_next_color(t, idx, a0, wanted, false) == (match find_b1_index(
            t,
            if wanted == Color::Black {
                0int
            } else {
                1int
            },
            a0,
            idx,
        ) {
            Some(j) => Some((t[j], j + 1)),
            None => None::<(u16, int)>,
        }),
{
}

/// Where `seek_back` leaves the cursor: rewound until every element before it
/// lies at or below `target`.
pub open spec fn spec_seek_back(t: Seq<u16>, idx: int, target: u16) -> int
    decreases idx,
{
    if 0 < idx <= t.len() && t[idx - 1] > target {
        spec_seek_back(t, idx - 1, target)
    } else {
        idx
    }
}

/// A cursor into a reference line's change-position list.
pub struct Transitions {
    pub idx: usize,
}

impl Transitions {
    pub fn new() -> (r: Transitions)
        ensures
            r.idx == 0,
    {
        Transitions { idx: 0 }
    }

    /// Find the next changing element of color `wanted` strictly right of
    /// `a0`, scanning forward from the cursor, and advance the cursor just
    /// past it; the cursor stays put when no element qualifies.
    pub fn next_color(
        &mut self,
        list: &Vec<u16>,
        a0: u16,
        wanted: Color,
        start_of_row: bool,
    ) -> (r: Option<u16>)
        requires
            old(self).idx <= list@.len(),
        ensures
            final(self).idx <= list@.len(),
            match spec_next_color(list@, old(self).idx as int, a0, wanted, start_of_row) {
                Some((b1, ni)) => r == Some(b1) && final(self).idx == ni,
                None => r == None::<u16> && final(self).idx == old(self).idx,
            },
    {
        if start_of_row && list.len() > 0 && wanted == Color::Black {
            if list[0] == 0 {
                self.idx = 1;
                return Some(list[0]);
            }
        }
        let target: usize = if wanted == Color::Black {
            0
        } else {
            1
        };
        let mut j: usize = self.idx;
        while j < list.len()
            invariant
                old(self).idx <= j <= list@.len(),
                self.idx == old(self).idx,
                find_b1_index(list@, target as int, a0, old(self).idx as int) == find_b1_index(
                    list@,
                    target as int,
                    a0,
                    j as int,
                ),
            decreases list@.len() - j,
        {
            if j % 2 == target && list[j] > a0 {
                self.idx = j + 1;
                return Some(list[j]);
            }
            j = j + 1;
        }
        None
    }

    /// Hand out the element under the cursor and advance past it, or nothing
    /// at the end of the list.
    pub fn next(&mut self, list: &Vec<u16>) -> (r: Option<u16>)
        requires
            old(self).idx <= list@.len(),
        ensures
            final(self).idx <= list@.len(),
            old(self).idx < list@.len() ==> r == Some(list@[old(self).idx as int])
                && final(self).idx == old(self).idx + 1,
            old(self).idx >= list@.len() ==> r == None::<u16> && final(self).idx == old(self).idx,
    {
        if self.idx < list.len() {
            let v = list[self.idx];
            self.idx = self.idx + 1;
            Some(v)
        } else {
            None
        }
    }

    /// Rewind the cursor until every element before it lies at or below
    /// `target`, so that a forward scan can find elements near `target`
    /// again.
    pub fn seek_back(&mut self, list: &Vec<u16>, target: u16)
        requires
            old(self).idx <= list@.len(),
        ensures
            final(self).idx == spec_seek_back(list@, old(self).idx as int, target),
            final(self).idx <= list@.len(),
    {
        while self.idx > 0 && list[self.idx - 1] > target
            invariant
                self.idx <= list@.len(),
                spec_seek_back(list@, old(self).idx as int, target) == spec_seek_back(
                    list@,
                    self.idx as int,
                    target,
                ),
            decreases self.idx,
        {
            self.idx = self.idx - 1;
        }
    }
}

} // verus!
