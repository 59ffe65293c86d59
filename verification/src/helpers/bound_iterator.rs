use vstd::prelude::*;
use crate::helpers::data::{GRID_TOTAL, GRID_WIDTH, GRID_HEIGHT};

verus! {

/// order in which the grid is walked
#[derive(Clone, Copy, PartialEq, Eq, Structural, Debug)]
enum IteratorFlow {
    /// row by row from the top left, the usual index order
    XY,
    /// column by column from the bottom right, each column from the bottom up
    YXReverse,
}

/// walks the grid giving column, row and index of each space
struct BoundIterator {
    x: usize,
    y: usize,
    i: usize,
    /// how many spaces were given
    steps: usize,
    flow: IteratorFlow,
}

/// the `k`th space of the row by row walk: column, row and index
pub open spec fn xy_at(k: int) -> (usize, usize, usize) {
    ((k % GRID_WIDTH as int) as usize, (k / GRID_WIDTH as int) as usize, k as usize)
}

/// the `k`th space of the walk column by column from the bottom right
pub open spec fn yx_rev_at(k: int) -> (usize, usize, usize) {
    let x = GRID_WIDTH - 1 - k / GRID_HEIGHT as int;
    let y = GRID_HEIGHT - 1 - k % GRID_HEIGHT as int;
    (x as usize, y as usize, (y * GRID_WIDTH + x) as usize)
}

/// both walks give every space of the grid once, with its column, its row and its index: the
/// row by row walk at step `i`, the column walk at the step given here, and no other step of the
/// column walk gives the same space
pub proof fn lemma_walks_cover_grid(i: int)
    requires
        0 <= i < GRID_TOTAL,
    ensures
        xy_at(i) == ((i % 6) as usize, (i / 6) as usize, i as usize),
        ({
            let k = (5 - i % 6) * 12 + (11 - i / 6);
            &&& 0 <= k < GRID_TOTAL
            &&& yx_rev_at(k) == ((i % 6) as usize, (i / 6) as usize, i as usize)
            &&& forall|k2: int| 0 <= k2 < GRID_TOTAL && #[trigger] yx_rev_at(k2).2 == i ==> k2 == k
        }),
{
    let k = (5 - i % 6) * 12 + (11 - i / 6);
    assert(0 <= k < 72 && k / 12 == 5 - i % 6 && k % 12 == 11 - i / 6 && (i / 6) * 6 + i % 6 == i) by (nonlinear_arith)
        requires 0 <= i < 72, k == (5 - i % 6) * 12 + (11 - i / 6);
    assert forall|k2: int| 0 <= k2 < GRID_TOTAL && #[trigger] yx_rev_at(k2).2 == i implies k2 == k by {
        let x2 = 5 - k2 / 12;
        let y2 = 11 - k2 % 12;
        assert(0 <= x2 < 6 && 0 <= y2 < 12 && k2 == (5 - x2) * 12 + (11 - y2)) by (nonlinear_arith)
            requires 0 <= k2 < 72, x2 == 5 - k2 / 12, y2 == 11 - k2 % 12;
        assert(y2 * 6 + x2 == i);
        assert(x2 == i % 6 && y2 == i / 6) by (nonlinear_arith)
            requires y2 * 6 + x2 == i, 0 <= x2 < 6, 0 <= y2;
    }
}

impl BoundIterator {
    /// the walk is at step `steps` of its flow
    spec fn walking(&self) -> bool {
        &&& self.steps <= GRID_TOTAL
        &&& match self.flow {
            IteratorFlow::XY => self.steps < GRID_TOTAL ==> (self.x == self.steps % GRID_WIDTH && self.y == self.steps / GRID_WIDTH),
            IteratorFlow::YXReverse => self.steps < GRID_TOTAL ==> (self.x == GRID_WIDTH - 1 - self.steps / GRID_HEIGHT
                && self.y == GRID_HEIGHT - 1 - self.steps % GRID_HEIGHT),
        }
    }

    /// the next space of the walk, nothing once all spaces were given
    fn next(&mut self) -> (r: Option<(usize, usize, usize)>)
        requires
            old(self).walking(),
        ensures
            final(self).walking(),
            final(self).flow == old(self).flow,
            old(self).steps == GRID_TOTAL ==> r is None && final(self).steps == old(self).steps,
            old(self).steps < GRID_TOTAL ==> final(self).steps == old(self).steps + 1 && r == Some(match old(self).flow {
                IteratorFlow::XY => xy_at(old(self).steps as int),
                IteratorFlow::YXReverse => yx_rev_at(old(self).steps as int),
            }),
    {
        match self.flow {
            IteratorFlow::XY => {
                if self.steps == GRID_TOTAL {
                    return None;
                }
                self.steps = self.steps + 1;
                let i = self.steps - 1;
                let x = self.x;
                let y = self.y;
                if self.x < GRID_WIDTH - 1 {
                    self.x = self.x + 1;
                } else {
                    self.y = self.y + 1;
                    self.x = 0;
                }
                Some((x, y, i))
            },
            IteratorFlow::YXReverse => {
                if self.steps == GRID_TOTAL {
                    return None;
                }
                self.steps = self.steps + 1;
                let x = self.x;
                let y = self.y;
                let i = y * GRID_WIDTH + x;
                if self.y != 0 {
                    self.y = self.y - 1;
                } else {
                    if self.x != 0 {
                        self.x = self.x - 1;
                    }
                    self.y = GRID_HEIGHT - 1;
                }
                Some((x, y, i))
            },
        }
    }
}

/// collects all spaces of a walk
fn collect(it: &mut BoundIterator) -> (r: Vec<(usize, usize, usize)>)
    requires
        old(it).walking(),
        old(it).steps == 0,
    ensures
        r@ == Seq::new(GRID_TOTAL as nat, |k: int| match old(it).flow {
            IteratorFlow::XY => xy_at(k),
            IteratorFlow::YXReverse => yx_rev_at(k),
        }),
{
    let ghost flow = it.flow;
    let mut out: Vec<(usize, usize, usize)> = Vec::new();
    loop
        invariant_except_break
            it.walking(),
            it.flow == flow,
            flow == old(it).flow,
            out@ == Seq::new(it.steps as nat, |k: int| match flow {
                IteratorFlow::XY => xy_at(k),
                IteratorFlow::YXReverse => yx_rev_at(k),
            }),
        ensures
            out@ == Seq::new(GRID_TOTAL as nat, |k: int| match flow {
                IteratorFlow::XY => xy_at(k),
                IteratorFlow::YXReverse => yx_rev_at(k),
            }),
        decreases GRID_TOTAL - it.steps,
    {
        match it.next() {
            Some(t) => {
                out.push(t);
                assert(out@ =~= Seq::new(it.steps as nat, |k: int| match flow {
                    IteratorFlow::XY => xy_at(k),
                    IteratorFlow::YXReverse => yx_rev_at(k),
                }));
            },
            None => {
                break;
            },
        }
    }
    out
}

/// all spaces of the grid row by row from the top left: column, row and index
pub fn iter_xy() -> (r: Vec<(usize, usize, usize)>)
    ensures
        r@ == Seq::new(GRID_TOTAL as nat, |k: int| xy_at(k)),
{
    let mut it = BoundIterator { x: 0, y: 0, i: 0, steps: 0, flow: IteratorFlow::XY };
    let r = collect(&mut it);
    assert(r@ =~= Seq::new(GRID_TOTAL as nat, |k: int| xy_at(k)));
    r
}

/// all spaces of the grid column by column from the bottom right, each column from the bottom
/// up: column, row and index
pub fn iter_yx_rev() -> (r: Vec<(usize, usize, usize)>)
    ensures
        r@ == Seq::new(GRID_TOTAL as nat, |k: int| yx_rev_at(k)),
{
    let mut it = BoundIterator { x: GRID_WIDTH - 1, y: GRID_HEIGHT - 1, i: 0, steps: 0, flow: IteratorFlow::YXReverse };
    let r = collect(&mut it);
    assert(r@ =~= Seq::new(GRID_TOTAL as nat, |k: int| yx_rev_at(k)));
    r
}

} // verus!
