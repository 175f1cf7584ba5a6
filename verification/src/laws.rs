//! What holds of every grid: the shape of the checked lookup, how the
//! checked and the unchecked access agree, what a write changes, and how
//! the row-major walk covers the grid.

use crate::grid::Grid;
use vstd::arithmetic::div_mod::lemma_div_is_ordered;
use vstd::prelude::*;

verus! {

impl<const W: usize, const H: usize, T> Grid<W, H, T> {
    /// A checked lookup finds a cell exactly at the positions with
    /// `x < W` and `y < H`, and nothing anywhere else.
    pub proof fn lemma_lookup_shape(&self, x: int, y: int)
        ensures
            self.lookup(x, y).is_some() <==> 0 <= x < W && 0 <= y < H,
    {
    }

    /// Inside the grid the checked lookup finds the very cell that the
    /// unchecked access reads.
    pub proof fn lemma_checked_agrees_with_unchecked(&self, x: int, y: int)
        requires
            Self::in_bounds(x, y),
        ensures
            self.lookup(x, y) == Some(self.cell(x, y)),
    {
    }

    /// A grid filled with `v` answers every lookup inside it with `v`.
    pub proof fn lemma_filled_lookup(&self, v: T, x: int, y: int)
        requires
            self.filled_with(v),
            Self::in_bounds(x, y),
        ensures
            self.lookup(x, y) == Some(v),
    {
    }

    /// After `v` is written to the cell `(x, y)`, a lookup there finds `v`,
    /// and a lookup at any other position finds what it found before.
    pub proof fn lemma_write_is_seen_and_local(&self, before: &Self, x: int, y: int, v: T)
        requires
            Self::in_bounds(x, y),
            self.is_write_of(before, x, y, v),
        ensures
            self.lookup(x, y) == Some(v),
            forall|i: int, j: int|
                !(i == x && j == y) ==> #[trigger] self.lookup(i, j) == before.lookup(i, j),
    {
    }

    /// The rows and their cells are all there is to a grid: two grids
    /// with the same view are one and the same grid.
    pub proof fn lemma_view_fixes_the_grid(&self, other: &Self)
        requires
            self@ == other@,
        ensures
            *self == *other,
    {
        assert forall|j: int| 0 <= j < H implies self.data@[j] == other.data@[j] by {
            assert(self@[j] == other@[j]);
            assert(self.data@[j] =~= other.data@[j]);
        }
        assert(self.data =~= other.data);
    }

    /// Each step of the walk carries what a checked lookup finds at the
    /// step's own position.
    pub proof fn lemma_walk_agrees_with_lookup(&self, k: int)
        requires
            0 <= k < W * H,
        ensures
            self.lookup(self.cells()[k].0 as int, self.cells()[k].1 as int) == Some(
                self.cells()[k].2,
            ),
    {
        Self::lemma_step_inverts(k);
    }

    /// The walk visits every cell, once: the cell `(x, y)` is step
    /// `y * W + x` of it, and two different steps are two different positions.
    pub proof fn lemma_walk_is_complete(&self)
        ensures
            self.cells().len() == W * H,
            forall|x: int, y: int|
                Self::in_bounds(x, y) ==> {
                    let k = #[trigger] Self::rank(x, y);
                    &&& 0 <= k < self.cells().len()
                    &&& self.cells()[k] == (x as usize, y as usize, self.cell(x, y))
                },
            forall|k1: int, k2: int|
                0 <= k1 < k2 < W * H ==> !(#[trigger] self.cells()[k1].0
                    == #[trigger] self.cells()[k2].0 && self.cells()[k1].1 == self.cells()[k2].1),
    {
        assert forall|x: int, y: int| Self::in_bounds(x, y) implies {
            let k = #[trigger] Self::rank(x, y);
            &&& 0 <= k < self.cells().len()
            &&& self.cells()[k] == (x as usize, y as usize, self.cell(x, y))
        } by {
            Self::lemma_rank_inverts(x, y);
        }
        assert forall|k1: int, k2: int| 0 <= k1 < k2 < W * H implies !(
        #[trigger] self.cells()[k1].0 == #[trigger] self.cells()[k2].0 && self.cells()[k1].1
            == self.cells()[k2].1) by {
            Self::lemma_step_inverts(k1);
            Self::lemma_step_inverts(k2);
        }
    }

    /// The walk is row-major: of two steps the later one stands in a later
    /// row, or in the same row and a later column.
    pub proof fn lemma_walk_is_row_major(&self, k1: int, k2: int)
        requires
            0 <= k1 < k2 < W * H,
        ensures
            self.cells()[k1].1 < self.cells()[k2].1 || (self.cells()[k1].1 == self.cells()[k2].1
                && self.cells()[k1].0 < self.cells()[k2].0),
    {
        Self::lemma_step_inverts(k1);
        Self::lemma_step_inverts(k2);
        lemma_div_is_ordered(k1, k2, W as int);
    }
}

} // verus!
