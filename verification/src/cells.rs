//! Walking a grid cell by cell, row after row.

use crate::grid::Grid;
use vstd::arithmetic::div_mod::{
    lemma_fundamental_div_mod,
    lemma_fundamental_div_mod_converse,
    lemma_multiply_divide_lt,
};
use vstd::prelude::*;

verus! {

impl<const W: usize, const H: usize, T> Grid<W, H, T> {
    /// The column of the `k`-th cell in row-major order.
    pub open spec fn column_of(k: int) -> int {
        k % (W as int)
    }

    /// The row of the `k`-th cell in row-major order.
    pub open spec fn row_of(k: int) -> int {
        k / (W as int)
    }

    /// The place of the cell `(x, y)` in row-major order.
    pub open spec fn rank(x: int, y: int) -> int {
        y * W + x
    }

    /// Every cell with its position, in row-major order: row 0 from
    /// column 0 upwards, then row 1, and so on to the last row.
    pub open spec fn cells(&self) -> Seq<(usize, usize, T)> {
        Seq::new(
            (W * H) as nat,
            |k: int|
                (Self::column_of(k) as usize, Self::row_of(k) as usize, self.cell(
                    Self::column_of(k),
                    Self::row_of(k),
                )),
        )
    }

    /// A position inside the grid is the one that its rank leads back to,
    /// and its rank is below `W * H`.
    pub proof fn lemma_rank_inverts(x: int, y: int)
        requires
            Self::in_bounds(x, y),
        ensures
            0 <= Self::rank(x, y) < W * H,
            Self::column_of(Self::rank(x, y)) == x,
            Self::row_of(Self::rank(x, y)) == y,
    {
        lemma_fundamental_div_mod_converse(y * W + x, W as int, y, x);
        assert(y * W + x < W * H) by (nonlinear_arith)
            requires
                0 <= x < W,
                0 <= y < H,
        ;
        assert(0 <= y * W + x) by (nonlinear_arith)
            requires
                0 <= x < W,
                0 <= y < H,
        ;
    }

    /// A step below `W * H` leads to a position inside the grid, and
    /// the rank of that position is the step again.
    pub proof fn lemma_step_inverts(k: int)
        requires
            0 <= k < W * H,
        ensures
            Self::in_bounds(Self::column_of(k), Self::row_of(k)),
            Self::rank(Self::column_of(k), Self::row_of(k)) == k,
    {
        let w = W as int;
        assert(w > 0) by (nonlinear_arith)
            requires
                0 <= k < w * H,
                w >= 0,
        ;
        lemma_multiply_divide_lt(k, w, H as int);
        lemma_fundamental_div_mod(k, w);
    }

    /// Every cell with its position, in row-major order.
    pub fn iter(&self) -> (r: Vec<(usize, usize, &T)>)
        ensures
            r@.len() == W * H,
            forall|k: int|
                0 <= k < r@.len() ==> (#[trigger] r@[k]).0 == self.cells()[k].0 && r@[k].1
                    == self.cells()[k].1 && *r@[k].2 == self.cells()[k].2,
    {
        let mut out: Vec<(usize, usize, &T)> = Vec::new();
        let mut y: usize = 0;
        while y < H
            invariant
                y <= H,
                out@.len() == y * W,
                forall|k: int|
                    0 <= k < out@.len() ==> (#[trigger] out@[k]).0 == Self::column_of(k)
                        && out@[k].1 == Self::row_of(k) && *out@[k].2 == self.cell(
                        Self::column_of(k),
                        Self::row_of(k),
                    ),
            decreases H - y,
        {
            let mut x: usize = 0;
            while x < W
                invariant
                    x <= W,
                    y < H,
                    out@.len() == y * W + x,
                    forall|k: int|
                        0 <= k < out@.len() ==> (#[trigger] out@[k]).0 == Self::column_of(k)
                            && out@[k].1 == Self::row_of(k) && *out@[k].2 == self.cell(
                            Self::column_of(k),
                            Self::row_of(k),
                        ),
                decreases W - x,
            {
                proof {
                    Self::lemma_rank_inverts(x as int, y as int);
                }
                out.push((x, y, &self.data[y][x]));
                x += 1;
            }
            assert((y + 1) * W == y * W + W) by (nonlinear_arith);
            y += 1;
        }
        assert(y * W == W * H) by (nonlinear_arith)
            requires
                y == H,
        ;
        out
    }
}

/// Appends to `out` one entry for each cell of `row`, from column 0
/// upwards: the column, the row's number `y`, and the cell for writing.
fn push_row_mut<'a, T>(row: &'a mut [T], y: usize, out: &mut Vec<(usize, usize, &'a mut T)>)
    ensures
        final(out)@.len() == old(out)@.len() + old(row)@.len(),
        final(row)@.len() == old(row)@.len(),
        forall|k: int| 0 <= k < old(out)@.len() ==> final(out)@[k] == old(out)@[k],
        forall|i: int|
            0 <= i < old(row)@.len() ==> {
                let t = #[trigger] final(out)@[old(out)@.len() + i];
                &&& t.0 == i
                &&& t.1 == y
                &&& *t.2 == old(row)@[i]
                &&& *final(t.2) == final(row)@[i]
            },
{
    let ghost fin: Seq<T> = final(row)@;
    let n = row.len();
    let mut rest: &mut [T] = row;
    let mut x: usize = 0;
    while rest.len() > 0
        invariant
            x + rest@.len() == n,
            n == old(row)@.len(),
            rest@ == old(row)@.subrange(x as int, n as int),
            out@.len() == old(out)@.len() + x,
            forall|k: int| 0 <= k < old(out)@.len() ==> out@[k] == old(out)@[k],
            forall|i: int|
                0 <= i < x ==> {
                    let t = #[trigger] out@[old(out)@.len() + i];
                    &&& t.0 == i
                    &&& t.1 == y
                    &&& *t.2 == old(row)@[i]
                    &&& *final(t.2) == fin[i]
                },
            fin.len() == x + final(rest)@.len(),
            forall|j: int|
                0 <= j < final(rest)@.len() ==> fin[x + j] == #[trigger] final(rest)@[j],
        decreases rest.len(),
    {
        let ghost rest_fin = final(rest)@;
        let (head, tail) = rest.split_at_mut(1);
        let ghost head_fin = final(head)@;
        let ghost tail_fin = final(tail)@;
        rest = tail;
        out.push((x, y, &mut head[0]));
        proof {
            // What is left of the row ends up as the cell just borrowed,
            // followed by what the cells after it end up as.
            assert(rest_fin == head_fin + tail_fin);
            assert(rest_fin[0] == head_fin[0]);
            assert forall|j: int| 0 <= j < tail_fin.len() implies fin[x + 1 + j]
                == #[trigger] tail_fin[j] by {
                assert(rest_fin[j + 1] == tail_fin[j]);
            }
        }
        x += 1;
    }
}

impl<const W: usize, const H: usize, T> Grid<W, H, T> {
    /// Every cell with its position, in row-major order, each cell for
    /// writing: what the caller leaves in the `k`-th reference is what
    /// the `k`-th cell holds afterwards.
    pub fn iter_mut(&mut self) -> (r: Vec<(usize, usize, &mut T)>)
        ensures
            r@.len() == W * H,
            forall|k: int|
                0 <= k < r@.len() ==> {
                    let t = #[trigger] r@[k];
                    &&& t.0 == old(self).cells()[k].0
                    &&& t.1 == old(self).cells()[k].1
                    &&& *t.2 == old(self).cells()[k].2
                    &&& *final(t.2) == final(self).cells()[k].2
                },
    {
        let ghost fin: Seq<[T; W]> = final(self).data@;
        let mut out: Vec<(usize, usize, &mut T)> = Vec::new();
        let mut rows: &mut [[T; W]] = &mut self.data;
        let mut y: usize = 0;
        while rows.len() > 0
            invariant
                y + rows@.len() == H,
                rows@ == old(self).data@.subrange(y as int, H as int),
                out@.len() == y * W,
                forall|k: int|
                    0 <= k < out@.len() ==> {
                        let t = #[trigger] out@[k];
                        &&& t.0 == Self::column_of(k)
                        &&& t.1 == Self::row_of(k)
                        &&& *t.2 == old(self).cell(Self::column_of(k), Self::row_of(k))
                        &&& *final(t.2) == fin[Self::row_of(k)]@[Self::column_of(k)]
                    },
                fin.len() == y + final(rows)@.len(),
                forall|j: int|
                    0 <= j < final(rows)@.len() ==> fin[y + j] == #[trigger] final(rows)@[j],
            decreases rows.len(),
        {
            let ghost rows_fin = final(rows)@;
            let ghost prev = out@;
            let (head, tail) = rows.split_at_mut(1);
            let ghost head_fin = final(head)@;
            let ghost tail_fin = final(tail)@;
            rows = tail;
            push_row_mut(&mut head[0], y, &mut out);
            proof {
                assert(rows_fin == head_fin + tail_fin);
                assert(rows_fin[0] == head_fin[0]);
                assert forall|j: int| 0 <= j < tail_fin.len() implies fin[y + 1 + j]
                    == #[trigger] tail_fin[j] by {
                    assert(rows_fin[j + 1] == tail_fin[j]);
                }
                assert((y + 1) * W == y * W + W) by (nonlinear_arith);
                assert forall|k: int| 0 <= k < out@.len() implies {
                    let t = #[trigger] out@[k];
                    &&& t.0 == Self::column_of(k)
                    &&& t.1 == Self::row_of(k)
                    &&& *t.2 == old(self).cell(Self::column_of(k), Self::row_of(k))
                    &&& *final(t.2) == fin[Self::row_of(k)]@[Self::column_of(k)]
                } by {
                    if k >= prev.len() {
                        let i = k - prev.len();
                        Self::lemma_rank_inverts(i, y as int);
                        assert(out@[k] == out@[prev.len() + i]);
                        assert(old(self).cell(i, y as int) == old(self).data@[y as int]@[i]);
                    } else {
                        assert(out@[k] == prev[k]);
                    }
                }
            }
            y += 1;
        }
        proof {
            assert(y * W == W * H) by (nonlinear_arith)
                requires
                    y == H,
            ;
            assert forall|k: int| 0 <= k < out@.len() implies Self::in_bounds(
                Self::column_of(k),
                Self::row_of(k),
            ) by {
                Self::lemma_step_inverts(k);
            }
        }
        out
    }
}

} // verus!
