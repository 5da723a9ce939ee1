//! Selection state of the data table: which row of the arrival-ordered
//! series is highlighted. Navigation is single-step with wraparound; the
//! selection is `None` only while the series is empty.

use vstd::prelude::*;
use vstd::arithmetic::div_mod::{
    lemma_add_mod_noop_right,
    lemma_fundamental_div_mod_converse_mod,
    lemma_mod_add_multiples_vanish,
    lemma_small_mod,
};

verus! {

/// The highlighted row after one navigation command on a table of `len`
/// rows with row `i` selected: a positive delta advances modulo the row
/// count; any other delta steps back a single row, wrapping from row 0 to
/// the last row.
pub open spec fn sel_after_move(i: int, len: int, delta: int) -> int
    recommends
        0 <= i < len,
{
    if delta > 0 {
        (i + delta) % len
    } else if i == 0 {
        len - 1
    } else {
        i - 1
    }
}

/// One navigation command applied to an optional selection: a command on
/// an empty selection is a no-op.
pub open spec fn spec_move_selection(sel: Option<usize>, len: int, delta: int) -> Option<usize> {
    match sel {
        None => None,
        Some(i) => Some(sel_after_move(i as int, len, delta) as usize),
    }
}

/// The selection after `k` single-step forward moves.
pub open spec fn advance_n(i: int, len: int, k: nat) -> int
    decreases k,
{
    if k == 0 {
        i
    } else {
        sel_after_move(advance_n(i, len, (k - 1) as nat), len, 1)
    }
}

/// `k` single-step forward moves land on `(i + k) mod len`.
proof fn lemma_advance_n_mod(i: int, len: int, k: nat)
    requires
        0 <= i < len,
    ensures
        advance_n(i, len, k) == (i + k) % len,
    decreases k,
{
    if k == 0 {
        lemma_small_mod(i as nat, len as nat);
    } else {
        lemma_advance_n_mod(i, len, (k - 1) as nat);
        lemma_add_mod_noop_right(i + k - 1, 1, len);
        assert(advance_n(i, len, k) == ((i + k - 1) % len + 1) % len);
        assert(((i + k - 1) + 1) % len == ((i + k - 1) % len + 1) % len) by {
            lemma_add_mod_noop_right(1, i + k - 1, len);
            assert((1 + (i + k - 1) % len) % len == (1 + (i + k - 1)) % len);
        }
    }
}

/// Selection wraparound: on a table of `len >= 1` rows, `len` single-step
/// forward moves return the selection to where it started, and a single
/// step back from row 0 lands on the last row.
pub proof fn lemma_selection_wraparound(i: int, len: int)
    requires
        0 <= i < len,
    ensures
        advance_n(i, len, len as nat) == i,
        sel_after_move(0, len, -1) == len - 1,
{
    lemma_advance_n_mod(i, len, len as nat);
    lemma_mod_add_multiples_vanish(i, len);
    lemma_small_mod(i as nat, len as nat);
}

/// The table's cursor: the arrival-order index of the highlighted row, or
/// `None` while there is nothing to highlight.
pub struct SelectionState {
    pub selected: Option<usize>,
}

impl Default for SelectionState {
    /// The startup state: nothing highlighted.
    fn default() -> (r: Self)
        ensures
            r.selected is None,
    {
        SelectionState { selected: None }
    }
}

impl SelectionState {
    /// Moves the highlight to the given row (or clears it).
    pub fn select(&mut self, index: Option<usize>)
        ensures
            final(self).selected == index,
    {
        self.selected = index;
    }

    /// The highlighted row, if any.
    pub fn selected(&self) -> (r: Option<usize>)
        ensures
            r == self.selected,
    {
        self.selected
    }

    /// Points the highlight at the first row when the table has any rows,
    /// and clears it when the table is empty.
    pub fn select_initial(&mut self, len: usize)
        ensures
            final(self).selected == if len > 0 {
                Some(0usize)
            } else {
                None::<usize>
            },
    {
        if len > 0 {
            self.selected = Some(0);
        } else {
            self.selected = None;
        }
    }
}

/// Computes `sel_after_move` without overflow for any delta and any
/// selected row `selected < len`.
pub fn move_selection_index(selected: usize, len: usize, delta: isize) -> (r: usize)
    requires
        selected < len,
    ensures
        r == sel_after_move(selected as int, len as int, delta as int),
        r < len,
{
    if delta > 0 {
        let d: usize = (delta as usize) % len;
        if selected >= len - d {
            let r = selected - (len - d);
            proof {
                lemma_fundamental_div_mod_converse_mod(
                    selected + d,
                    len as int,
                    1,
                    selected + d - len,
                );
                lemma_add_mod_noop_right(selected as int, delta as int, len as int);
            }
            r
        } else {
            let r = selected + d;
            proof {
                lemma_small_mod(r as nat, len as nat);
                lemma_add_mod_noop_right(selected as int, delta as int, len as int);
            }
            r
        }
    } else if selected == 0 {
        len - 1
    } else {
        selected - 1
    }
}

} // verus!
