use vstd::prelude::*;
use crate::helpers::data::{GRID_WIDTH, GRID_HEIGHT};

verus! {

/// integer 2d vector, used for grid coordinates (x = column, y = row)
#[derive(Clone, Copy, PartialEq, Eq, Structural, Debug)]
pub struct I2 {
    pub x: i32,
    pub y: i32,
}

impl I2 {
    pub fn new(x: i32, y: i32) -> (r: I2)
        ensures
            r.x == x,
            r.y == y,
    {
        I2 { x, y }
    }

    pub fn zero() -> (r: I2)
        ensures
            r == I2::zero_spec(),
    {
        I2 { x: 0, y: 0 }
    }

    /// the origin
    pub open spec fn zero_spec() -> I2 {
        I2 { x: 0, y: 0 }
    }
}

/// shorthand constructor of an integer vector
pub fn i2(x: i32, y: i32) -> (r: I2)
    ensures
        r.x == x,
        r.y == y,
{
    I2 { x, y }
}

/// row major grid index of a column / row pair
pub open spec fn grid_index(x: int, y: int) -> int {
    y * GRID_WIDTH as int + x
}

/// wether a coordinate lies inside the visible grid
pub open spec fn in_grid(p: I2) -> bool {
    0 <= p.x < GRID_WIDTH as int && 0 <= p.y < GRID_HEIGHT as int
}

/// remainder of an integer division by the grid width with the sign of the dividend
pub open spec fn truncated_col(v: int) -> int {
    if v >= 0 || v % (GRID_WIDTH as int) == 0 {
        v % (GRID_WIDTH as int)
    } else {
        v % (GRID_WIDTH as int) - GRID_WIDTH as int
    }
}

/// conversion of a coordinate into a grid index, without any bound check
pub trait ToIndex: Sized {
    /// the coordinate can be converted without wrapping
    spec fn index_defined(self) -> bool;

    /// the index the coordinate stands for
    spec fn index_of(self) -> int;

    fn to_index(self) -> (r: usize)
        requires
            self.index_defined(),
        ensures
            r == self.index_of(),
    ;
}

impl ToIndex for I2 {
    open spec fn index_defined(self) -> bool {
        &&& self.x >= 0
        &&& self.y >= 0
        &&& grid_index(self.x as int, self.y as int) <= usize::MAX
    }

    open spec fn index_of(self) -> int {
        grid_index(self.x as int, self.y as int)
    }

    fn to_index(self) -> (r: usize) {
        assert(self.y as int * 6 <= self.y as int * 6 + self.x as int);
        self.y as usize * GRID_WIDTH + self.x as usize
    }
}

/// conversion of a grid index into a column / row pair
pub trait ToI2: Sized {
    /// the index can be converted without overflow
    spec fn i2_defined(self) -> bool;

    /// the column the index lies in
    spec fn col_of(self) -> int;

    /// the row the index lies in
    spec fn row_of(self) -> int;

    fn to_i2(&self) -> (r: I2)
        requires
            self.i2_defined(),
        ensures
            r.x == self.col_of(),
            r.y == self.row_of(),
    ;
}

impl ToI2 for usize {
    open spec fn i2_defined(self) -> bool {
        self <= i32::MAX
    }

    open spec fn col_of(self) -> int {
        self as int % GRID_WIDTH as int
    }

    open spec fn row_of(self) -> int {
        self as int / GRID_WIDTH as int
    }

    fn to_i2(&self) -> (r: I2) {
        let v = *self;
        I2 { x: (v % GRID_WIDTH) as i32, y: (v / GRID_WIDTH) as i32 }
    }
}

impl ToI2 for i32 {
    open spec fn i2_defined(self) -> bool {
        true
    }

    open spec fn col_of(self) -> int {
        truncated_col(self as int)
    }

    /// the row is the floored quotient
    open spec fn row_of(self) -> int {
        self as int / GRID_WIDTH as int
    }

    fn to_i2(&self) -> (r: I2) {
        let v = *self;
        if v >= 0 {
            I2 { x: v % 6, y: v / 6 }
        } else {
            let n: i32 = -(v + 1);
            let q: i32 = n / 6;
            let m: i32 = (n % 6 + 1) % 6;
            proof {
                assert(v as int == -(n as int) - 1);
                assert((v as int) / 6 == -(q as int) - 1) by (nonlinear_arith)
                    requires
                        v as int == -(n as int) - 1,
                        n >= 0,
                        q == n / 6,
                ;
                assert(truncated_col(v as int) == -(m as int)) by (nonlinear_arith)
                    requires
                        v as int == -(n as int) - 1,
                        n >= 0,
                        m == (n % 6 + 1) % 6,
                ;
            }
            I2 { x: -m, y: -q - 1 }
        }
    }
}

/// converting an index into a coordinate and back gives the index again
pub proof fn lemma_index_roundtrip(i: usize)
    requires
        i <= i32::MAX,
    ensures
        grid_index(i.col_of(), i.row_of()) == i,
        0 <= i.col_of() < GRID_WIDTH,
{
}

/// converting a coordinate of the grid into an index and back gives the coordinate again
pub proof fn lemma_coordinate_roundtrip(p: I2)
    requires
        0 <= p.x < GRID_WIDTH,
        0 <= p.y,
        grid_index(p.x as int, p.y as int) <= i32::MAX,
    ensures
        p.index_defined(),
        (p.index_of() as usize).col_of() == p.x,
        (p.index_of() as usize).row_of() == p.y,
{
    assert(grid_index(p.x as int, p.y as int) / 6 == p.y as int) by (nonlinear_arith)
        requires 0 <= p.x < 6, p.y >= 0;
    assert(grid_index(p.x as int, p.y as int) % 6 == p.x as int) by (nonlinear_arith)
        requires 0 <= p.x < 6, p.y >= 0;
}

} // verus!
