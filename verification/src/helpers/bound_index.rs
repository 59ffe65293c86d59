use vstd::prelude::*;
use crate::helpers::data::{GRID_TOTAL, GRID_WIDTH, GRID_HEIGHT};
use crate::helpers::math::I2;

verus! {

/// a value that stands for a space of the grid: an index, a coordinate or a column / row pair
pub trait BoundIndex: Sized {
    /// the grid index the value stands for, without a bound check
    spec fn index_spec(self) -> int;

    /// the index can be computed without overflow
    spec fn index_fits(self) -> bool;

    /// the value lies inside the grid
    spec fn bounded(self) -> bool;

    /// a value inside the grid has an index of the grid
    proof fn lemma_bounded_index(self)
        requires
            self.bounded(),
        ensures
            self.index_fits(),
            0 <= self.index_spec() < GRID_TOTAL,
    ;

    /// the index, without a bound check
    fn raw(&self) -> (r: usize)
        requires
            self.index_fits(),
        ensures
            r == self.index_spec(),
    ;

    /// wether the value lies inside the grid
    fn in_bounds(&self) -> (r: bool)
        ensures
            r == self.bounded(),
    ;

    /// the index, if the value lies inside the grid
    fn to_index(&self) -> (r: Option<usize>)
        ensures
            r == if self.bounded() { Some(self.index_spec() as usize) } else { None },
    {
        if self.in_bounds() {
            proof {
                (*self).lemma_bounded_index();
            }
            Some(self.raw())
        } else {
            None
        }
    }
}

/// a coordinate clamped at 0, as a float coordinate converts into an index
pub open spec fn clamped(v: i32) -> int {
    if v < 0 {
        0
    } else {
        v as int
    }
}

impl BoundIndex for usize {
    open spec fn index_spec(self) -> int {
        self as int
    }

    open spec fn index_fits(self) -> bool {
        true
    }

    open spec fn bounded(self) -> bool {
        self < GRID_TOTAL
    }

    proof fn lemma_bounded_index(self) {
        assert(self.index_fits() && self.index_spec() == self as int);
    }

    fn raw(&self) -> (r: usize) {
        *self
    }

    fn in_bounds(&self) -> (r: bool) {
        *self < GRID_TOTAL
    }
}

impl BoundIndex for I2 {
    open spec fn index_spec(self) -> int {
        clamped(self.y) * 6 + clamped(self.x)
    }

    open spec fn index_fits(self) -> bool {
        clamped(self.y) * 6 + clamped(self.x) <= usize::MAX
    }

    open spec fn bounded(self) -> bool {
        0 <= self.x < GRID_WIDTH && 0 <= self.y < GRID_HEIGHT
    }

    proof fn lemma_bounded_index(self) {
        assert(self.bounded() && self.index_fits() == (self.index_spec() <= usize::MAX));
        let (x, y) = (clamped(self.x), clamped(self.y));
        assert(0 <= y * 6 + x < 72) by (nonlinear_arith)
            requires 0 <= x < 6, 0 <= y < 12;
    }

    fn raw(&self) -> (r: usize) {
        assert(self.index_fits());
        let x: usize = if self.x < 0 { 0 } else { self.x as usize };
        let y: usize = if self.y < 0 { 0 } else { self.y as usize };
        assert(y as int == clamped(self.y) && x as int == clamped(self.x));
        y * 6 + x
    }

    fn in_bounds(&self) -> (r: bool) {
        self.x >= 0 && self.x < GRID_WIDTH as i32 && self.y >= 0 && self.y < GRID_HEIGHT as i32
    }
}

impl BoundIndex for (i32, i32) {
    /// a negative part converts to nothing and counts as 0
    open spec fn index_spec(self) -> int {
        clamped(self.1) * 6 + clamped(self.0)
    }

    open spec fn index_fits(self) -> bool {
        clamped(self.1) * 6 + clamped(self.0) <= usize::MAX
    }

    open spec fn bounded(self) -> bool {
        0 <= self.0 < GRID_WIDTH && 0 <= self.1 < GRID_HEIGHT
    }

    proof fn lemma_bounded_index(self) {
        assert(self.bounded() && self.index_fits() == (self.index_spec() <= usize::MAX));
        let (x, y) = (clamped(self.0), clamped(self.1));
        assert(0 <= y * 6 + x < 72) by (nonlinear_arith)
            requires 0 <= x < 6, 0 <= y < 12;
    }

    fn raw(&self) -> (r: usize) {
        assert(self.index_fits());
        let x: usize = if self.0 < 0 { 0 } else { self.0 as usize };
        let y: usize = if self.1 < 0 { 0 } else { self.1 as usize };
        assert(y as int == clamped(self.1) && x as int == clamped(self.0));
        y * 6 + x
    }

    fn in_bounds(&self) -> (r: bool) {
        self.0 >= 0 && self.0 < GRID_WIDTH as i32 && self.1 >= 0 && self.1 < GRID_HEIGHT as i32
    }
}

impl BoundIndex for (usize, usize) {
    open spec fn index_spec(self) -> int {
        self.1 * 6 + self.0
    }

    open spec fn index_fits(self) -> bool {
        self.1 * 6 + self.0 <= usize::MAX
    }

    open spec fn bounded(self) -> bool {
        self.0 < GRID_WIDTH && self.1 < GRID_HEIGHT
    }

    proof fn lemma_bounded_index(self) {
        assert(self.bounded() && self.index_fits() == (self.index_spec() <= usize::MAX));
        let (x, y) = (self.0, self.1);
        assert(0 <= y * 6 + x < 72) by (nonlinear_arith)
            requires 0 <= x < 6, 0 <= y < 12;
    }

    fn raw(&self) -> (r: usize) {
        assert(self.index_fits());
        self.1 * 6 + self.0
    }

    fn in_bounds(&self) -> (r: bool) {
        self.0 < GRID_WIDTH && self.1 < GRID_HEIGHT
    }
}

} // verus!
