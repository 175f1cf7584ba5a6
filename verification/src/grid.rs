//! The grid type, its mathematical model and its accessors.

use vstd::prelude::*;

verus! {

/// A statically sized 2-dimensional array of `W` columns and `H` rows.
///
/// `data` is the block itself, row by row: `data[y][x]` is the cell in
/// column `x` of row `y`.
#[derive(Clone)]
pub struct Grid<const W: usize, const H: usize, T> {
    pub data: [[T; W]; H],
}

/// A statically sized 2-dimensional array with equal width and height.
pub type SquareGrid<const W: usize, T> = Grid<W, W, T>;

impl<const W: usize, const H: usize, T> View for Grid<W, H, T> {
    type V = Seq<Seq<T>>;

    /// The grid as `H` rows of `W` cells each: `self@[y][x]` is the cell
    /// in column `x` of row `y`.
    open spec fn view(&self) -> Seq<Seq<T>> {
        Seq::new(H as nat, |y: int| self.data@[y]@)
    }
}

impl<const W: usize, const H: usize, T: Default + Copy> Default for Grid<W, H, T> {
    /// The grid whose every cell holds one and the same default value of `T`.
    fn default() -> (r: Self)
        ensures
            exists|v: T| call_ensures(T::default, (), v) && r.filled_with(v),
    {
        let v = T::default();
        let r = Self { data: [[v; W]; H] };
        assert(r.filled_with(v));
        r
    }
}

impl<const W: usize, const H: usize, T> From<[[T; W]; H]> for Grid<W, H, T> {
    /// Wraps a block of `H` rows of `W` cells, as it stands.
    fn from(value: [[T; W]; H]) -> (r: Self) {
        Self { data: value }
    }
}

impl<const W: usize, const H: usize, T> vstd::std_specs::convert::FromSpecImpl<[[T; W]; H]> for Grid<W, H, T> {
    open spec fn obeys_from_spec() -> bool {
        true
    }

    open spec fn from_spec(value: [[T; W]; H]) -> Self {
        Grid { data: value }
    }
}

impl<const W: usize, const H: usize, T> Grid<W, H, T> {
    /// Whether `(x, y)` names a cell of the grid.
    pub open spec fn in_bounds(x: int, y: int) -> bool {
        0 <= x < W && 0 <= y < H
    }

    /// The cell in column `x` of row `y`.
    pub open spec fn cell(&self, x: int, y: int) -> T
        recommends
            Self::in_bounds(x, y),
    {
        self@[y][x]
    }

    /// Whether every cell of the grid holds `v`.
    pub open spec fn filled_with(&self, v: T) -> bool {
        forall|x: int, y: int| Self::in_bounds(x, y) ==> #[trigger] self.cell(x, y) == v
    }

    /// Whether `self` is `before` with `v` written to the cell `(x, y)`
    /// and nothing else changed.
    pub open spec fn is_write_of(&self, before: &Self, x: int, y: int, v: T) -> bool {
        self@ =~~= before@.update(y, before@[y].update(x, v))
    }

    /// What a checked lookup at `(x, y)` finds: the cell, or nothing
    /// when the position lies outside the grid.
    pub open spec fn lookup(&self, x: int, y: int) -> Option<T> {
        if Self::in_bounds(x, y) {
            Some(self.cell(x, y))
        } else {
            None
        }
    }

    /// The cell at `(x, y)`, or `None` when `y` is no row or `x` no column.
    #[must_use]
    pub fn get(&self, x: usize, y: usize) -> (r: Option<&T>)
        ensures
            r.is_some() <==> x < W && y < H,
            match r {
                Some(v) => Some(*v) == self.lookup(x as int, y as int),
                None => self.lookup(x as int, y as int).is_none(),
            },
    {
        self.data.get(y)?.get(x)
    }

    /// The cell at `(x, y)` for writing, or `None` when the position lies
    /// outside the grid. Whatever the caller writes through the reference
    /// becomes the cell's value; every other cell keeps its own.
    #[must_use]
    pub fn get_mut(&mut self, x: usize, y: usize) -> (r: Option<&mut T>)
        ensures
            r.is_some() <==> x < W && y < H,
            match r {
                Some(v) => {
                    &&& *v == old(self).cell(x as int, y as int)
                    &&& final(self).is_write_of(old(self), x as int, y as int, *final(v))
                },
                None => *final(self) == *old(self),
            },
    {
        if y < H && x < W {
            Some(&mut self.data[y][x])
        } else {
            None
        }
    }

    /// The cell at `(x, y)`, without a test of the position: the caller
    /// owes the proof that it lies inside the grid.
    #[must_use]
    pub fn get_unchecked(&self, x: usize, y: usize) -> (r: &T)
        requires
            x < W,
            y < H,
        ensures
            *r == self.cell(x as int, y as int),
            self.lookup(x as int, y as int) == Some(*r),
    {
        &self.data[y][x]
    }

    /// The cell at `(x, y)` for writing, without a test of the position:
    /// the caller owes the proof that it lies inside the grid.
    #[must_use]
    pub fn get_unchecked_mut(&mut self, x: usize, y: usize) -> (r: &mut T)
        requires
            x < W,
            y < H,
        ensures
            *r == old(self).cell(x as int, y as int),
            final(self).is_write_of(old(self), x as int, y as int, *final(r)),
    {
        &mut self.data[y][x]
    }
}

} // verus!
