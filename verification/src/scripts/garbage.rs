use vstd::prelude::*;
use crate::helpers::data::{CLEAR_TIME, GRID_WIDTH, ATLAS_GARBAGE_1D, ATLAS_GARBAGE_2D};

verus! {

/// garbage child data used mainly for unique animation
///
/// `y_offset` counts pixels and `scale` counts `1 / CLEAR_TIME` of the full size.
#[derive(Clone, Copy, PartialEq, Eq, Structural, Debug)]
pub struct Child {
    /// y pixel offset of child
    pub y_offset: i32,
    /// hframe horizontal position in the texture atlas
    pub hframe: u32,
    /// vframe vertical position in the texture atlas
    pub vframe: u32,
    /// clear animation counter
    pub counter: u32,
    /// clear start animation frame time
    pub start_time: u32,
    /// wether the child will be randomized into a block after clear animation
    pub randomize_at_end: bool,
    /// clear animation scale in `1 / CLEAR_TIME` units
    pub scale: u32,
    /// wether the clearing animation finished on this child
    pub finished: bool,
}

/// the child every new garbage child starts from
pub open spec fn default_child() -> Child {
    Child {
        y_offset: 0,
        hframe: 0,
        vframe: 0,
        counter: 0,
        start_time: 0,
        randomize_at_end: false,
        scale: CLEAR_TIME,
        finished: false,
    }
}

impl Default for Child {
    fn default() -> (r: Child)
        ensures
            r == default_child(),
    {
        Child {
            y_offset: 0,
            hframe: 0,
            vframe: 0,
            counter: 0,
            start_time: 0,
            randomize_at_end: false,
            scale: CLEAR_TIME,
            finished: false,
        }
    }
}


/// super state of a garbage and its children
#[derive(Clone, Copy, PartialEq, Eq, Structural, Debug)]
pub enum GarbageState {
    Idle,
    Fall,
    Hang { counter: u32 },
    Clear { counter: u32, end_time: u32, finished: bool },
}

/// hframe of a child of a one dimensional garbage at position `i` of `end` children
pub open spec fn frame_1d(i: usize, end: usize) -> u32 {
    if i == 0 {
        0
    } else if i == end - 1 {
        2
    } else {
        1
    }
}

/// hframe of a child of a two dimensional garbage at column `x`, row `y` of `height` rows
pub open spec fn frame_2d(x: usize, y: usize, height: usize) -> u32 {
    if x == 0 {
        if y == 0 {
            1
        } else if y == height - 1 {
            2
        } else {
            8
        }
    } else if y == 0 {
        if x == GRID_WIDTH - 1 {
            3
        } else {
            5
        }
    } else if x == GRID_WIDTH - 1 {
        if y == height - 1 {
            4
        } else {
            6
        }
    } else if y == height - 1 {
        7
    } else {
        0
    }
}

/// the (hframe, vframe) pair `Child::gen_2d_frames` gives
pub open spec fn frames_2d(x: usize, y: usize, height: usize) -> (u32, u32) {
    let h = if height < 1 { 1 } else { height };
    if h != 1 {
        (frame_2d(x, y, h), ATLAS_GARBAGE_2D)
    } else {
        (frame_1d(x, GRID_WIDTH), ATLAS_GARBAGE_1D)
    }
}

impl Child {
    /// generates the hframe / vframe of a child of a two dimensional garbage
    /// dependent on its position and the height of the garbage
    pub fn gen_2d_frames(x: usize, y: usize, height: usize) -> (r: (u32, u32))
        ensures
            r == frames_2d(x, y, height),
    {
        let mut height = height;
        if height < 1 {
            height = 1;
        }
        if height != 1 {
            let hframe = if x == 0 {
                if y == 0 {
                    1
                } else if y == height - 1 {
                    2
                } else {
                    8
                }
            } else {
                if y == 0 {
                    if x == GRID_WIDTH - 1 {
                        3
                    } else {
                        5
                    }
                } else {
                    if x == GRID_WIDTH - 1 {
                        if y == height - 1 {
                            4
                        } else {
                            6
                        }
                    } else {
                        if y == height - 1 {
                            7
                        } else {
                            // middle pieces
                            0
                        }
                    }
                }
            };
            (hframe, ATLAS_GARBAGE_2D)
        } else {
            Child::gen_1d_frames(x, GRID_WIDTH)
        }
    }

    /// generates the hframe / vframe of a child of a one dimensional garbage:
    /// the left end, the middle pieces and the right end differ
    pub fn gen_1d_frames(i: usize, end: usize) -> (r: (u32, u32))
        requires
            i == 0 || end >= 1,
        ensures
            r == (frame_1d(i, end), ATLAS_GARBAGE_1D),
    {
        let hframe = if i == 0 {
            0
        } else if i == end - 1 {
            2
        } else {
            1
        };
        (hframe, ATLAS_GARBAGE_1D)
    }
}

/// garbage that holds N indexes to garbage children in the grid
pub struct Garbage {
    /// will only update, when parent grid is calling update
    pub parent_id: usize,
    /// list of children indexes that exist in the grid
    pub children: Vec<usize>,
    /// list of children removed in clear, that have to be idled
    pub removed_children: Vec<usize>,
    /// amount of children the garbage is made of
    pub count: usize,
    /// wether the garbage has more than one row of children
    pub is_2d: bool,
    /// super state of the garbage and its children
    pub state: GarbageState,
}

/// index of the first child of the lowest row of a garbage
pub open spec fn lowest_start(is_2d: bool, count: usize) -> int {
    if is_2d {
        (count / GRID_WIDTH - 1) * GRID_WIDTH
    } else {
        0
    }
}

/// the first (at most) `GRID_WIDTH` elements of `s` from `start` on
pub open spec fn row_from(s: Seq<usize>, start: int) -> Seq<usize> {
    if start >= s.len() {
        Seq::empty()
    } else if start + GRID_WIDTH < s.len() {
        s.subrange(start, start + GRID_WIDTH)
    } else {
        s.subrange(start, s.len() as int)
    }
}

impl Garbage {
    /// the lowest row can be computed: a two dimensional garbage has a full row
    pub open spec fn lowest_defined(&self) -> bool {
        self.is_2d ==> self.count >= GRID_WIDTH
    }

    /// the children of the highest row
    pub open spec fn highest_spec(&self) -> Seq<usize> {
        row_from(self.children@, 0)
    }

    /// the children of the lowest row
    pub open spec fn lowest_spec(&self) -> Seq<usize> {
        row_from(self.children@, lowest_start(self.is_2d, self.count))
    }

    /// creates a garbage with an array of indexes that match the grid garbage children that were spawned
    pub fn new(parent_id: usize, children: Vec<usize>) -> (r: Garbage)
        ensures
            r.parent_id == parent_id,
            r.children@ == children@,
            r.count == children@.len(),
            r.state == GarbageState::Fall,
            r.is_2d == (children@.len() > GRID_WIDTH),
            r.removed_children@.len() == 0,
    {
        let count = children.len();
        Garbage {
            parent_id,
            children,
            count,
            state: GarbageState::Fall,
            is_2d: count > GRID_WIDTH,
            removed_children: Vec::new(),
        }
    }

    /// removes the lowest children and returns them, the count shrinks by a row
    pub fn drain_lowest(&mut self) -> (r: Vec<usize>)
        requires
            old(self).count >= GRID_WIDTH,
            old(self).children@.len() >= GRID_WIDTH,
            lowest_start(true, old(self).count) <= old(self).children@.len(),
        ensures
            ({
                let skip = lowest_start(true, old(self).count);
                &&& r@ == old(self).children@.subrange(skip, old(self).children@.len() as int)
                &&& final(self).children@ == old(self).children@.subrange(0, skip)
                &&& final(self).count == old(self).children@.len() - GRID_WIDTH
                &&& final(self).is_2d == (final(self).count > GRID_WIDTH)
                &&& final(self).parent_id == old(self).parent_id
                &&& final(self).state == old(self).state
                &&& final(self).removed_children == old(self).removed_children
            }),
    {
        let skip = (self.count / GRID_WIDTH - 1) * GRID_WIDTH;
        let len = self.children.len();
        self.count = len - GRID_WIDTH;
        self.is_2d = self.count > GRID_WIDTH;

        let mut drained: Vec<usize> = Vec::new();
        let mut i = skip;
        while i < len
            invariant
                skip <= i <= len,
                len == self.children@.len(),
                self.children@ == old(self).children@,
                drained@ == old(self).children@.subrange(skip as int, i as int),
            decreases len - i,
        {
            drained.push(self.children[i]);
            i = i + 1;
        }
        self.children.truncate(skip);
        drained
    }

    /// returns all the lowest children indexes, if 2d skip to the bottom row of children
    pub fn lowest(&self) -> (r: Vec<usize>)
        requires
            self.lowest_defined(),
        ensures
            r@ == self.lowest_spec(),
    {
        if self.is_2d {
            let skip = (self.count / GRID_WIDTH - 1) * GRID_WIDTH;
            copy_row(&self.children, skip)
        } else {
            self.highest()
        }
    }

    /// returns the highest existing children, will always work
    pub fn highest(&self) -> (r: Vec<usize>)
        ensures
            r@ == self.highest_spec(),
    {
        copy_row(&self.children, 0)
    }

    /// the row the lowest children live in
    pub fn lowest_y(&self) -> (r: usize)
        requires
            self.lowest_defined(),
            self.lowest_spec().len() > 0,
        ensures
            r == self.lowest_spec()[0] / GRID_WIDTH,
    {
        let lowest = self.lowest();
        lowest[0] / GRID_WIDTH
    }
}

/// system that holds all garbages of all grids
pub struct GarbageSystem {
    pub list: Vec<Garbage>,
}

impl Default for GarbageSystem {
    fn default() -> (r: GarbageSystem)
        ensures
            r.list@.len() == 0,
    {
        GarbageSystem { list: Vec::new() }
    }
}

/// every child index moved by a row, up or down
pub open spec fn shifted_children(s: Seq<usize>, down: bool) -> Seq<usize> {
    Seq::new(s.len(), |j: int| if down { (s[j] + GRID_WIDTH) as usize } else { (s[j] - GRID_WIDTH) as usize })
}

/// two garbages agree on everything but their children
pub open spec fn same_but_children(a: Garbage, b: Garbage) -> bool {
    &&& a.parent_id == b.parent_id
    &&& a.removed_children@ == b.removed_children@
    &&& a.count == b.count
    &&& a.is_2d == b.is_2d
    &&& a.state == b.state
}

/// two garbages agree on everything but their state
pub open spec fn same_but_state(a: Garbage, b: Garbage) -> bool {
    &&& a.parent_id == b.parent_id
    &&& a.children@ == b.children@
    &&& a.removed_children@ == b.removed_children@
    &&& a.count == b.count
    &&& a.is_2d == b.is_2d
}

/// moves the children of all garbages of a grid by a row
pub fn shift_children(list: &mut Vec<Garbage>, parent_id: usize, down: bool)
    requires
        forall|k: int, j: int| 0 <= k < old(list)@.len() && old(list)@[k].parent_id == parent_id && 0 <= j < old(list)@[k].children@.len() ==>
            if down { old(list)@[k].children@[j] + GRID_WIDTH <= usize::MAX } else { old(list)@[k].children@[j] >= GRID_WIDTH },
    ensures
        final(list)@.len() == old(list)@.len(),
        forall|k: int| 0 <= k < old(list)@.len() ==> same_but_children(#[trigger] final(list)@[k], old(list)@[k]),
        forall|k: int| 0 <= k < old(list)@.len() ==> (#[trigger] final(list)@[k]).children@ == if old(list)@[k].parent_id == parent_id {
            shifted_children(old(list)@[k].children@, down)
        } else {
            old(list)@[k].children@
        },
{
    let len = list.len();
    let mut k: usize = 0;
    while k < len
        invariant
            0 <= k <= len,
            len == list@.len(),
            len == old(list)@.len(),
            forall|kk: int, j: int| 0 <= kk < old(list)@.len() && old(list)@[kk].parent_id == parent_id && 0 <= j < old(list)@[kk].children@.len() ==>
                if down { old(list)@[kk].children@[j] + GRID_WIDTH <= usize::MAX } else { old(list)@[kk].children@[j] >= GRID_WIDTH },
            forall|kk: int| k <= kk < len ==> list@[kk] == old(list)@[kk],
            forall|kk: int| 0 <= kk < k ==> same_but_children(#[trigger] list@[kk], old(list)@[kk]),
            forall|kk: int| 0 <= kk < k ==> (#[trigger] list@[kk]).children@ == if old(list)@[kk].parent_id == parent_id {
                shifted_children(old(list)@[kk].children@, down)
            } else {
                old(list)@[kk].children@
            },
        decreases len - k,
    {
        if list[k].parent_id == parent_id {
            let mut g = Garbage::new(0, Vec::new());
            list.set_and_swap(k, &mut g);
            let n = g.children.len();
            let mut moved: Vec<usize> = Vec::new();
            let mut j: usize = 0;
            while j < n
                invariant
                    0 <= j <= n,
                    n == g.children@.len(),
                    g.children@ == old(list)@[k as int].children@,
                    forall|jj: int| 0 <= jj < n ==> if down { g.children@[jj] + GRID_WIDTH <= usize::MAX } else { g.children@[jj] >= GRID_WIDTH },
                    moved@.len() == j,
                    forall|jj: int| 0 <= jj < j ==> moved@[jj] == shifted_children(g.children@, down)[jj],
                decreases n - j,
            {
                let c = g.children[j];
                if down {
                    moved.push(c + GRID_WIDTH);
                } else {
                    moved.push(c - GRID_WIDTH);
                }
                j = j + 1;
            }
            assert(moved@ =~= shifted_children(g.children@, down));
            g.children = moved;
            list.set_and_swap(k, &mut g);
        }
        k = k + 1;
    }
}

/// moving the children of a garbage a row down and then a row up gives them back, as does
/// moving them up first
pub proof fn lemma_shift_children_undo(s: Seq<usize>)
    ensures
        (forall|j: int| 0 <= j < s.len() ==> #[trigger] s[j] + GRID_WIDTH <= usize::MAX)
            ==> shifted_children(shifted_children(s, true), false) == s,
        (forall|j: int| 0 <= j < s.len() ==> #[trigger] s[j] >= GRID_WIDTH)
            ==> shifted_children(shifted_children(s, false), true) == s,
{
    if forall|j: int| 0 <= j < s.len() ==> #[trigger] s[j] + GRID_WIDTH <= usize::MAX {
        assert(shifted_children(shifted_children(s, true), false) =~= s);
    }
    if forall|j: int| 0 <= j < s.len() ==> #[trigger] s[j] >= GRID_WIDTH {
        assert(shifted_children(shifted_children(s, false), true) =~= s);
    }
}

/// the children that `Garbage::drain_lowest` hands out and the ones it keeps make up the
/// children it had, in order
pub proof fn lemma_drain_splits(children: Seq<usize>, skip: int)
    requires
        0 <= skip <= children.len(),
    ensures
        children.subrange(0, skip) + children.subrange(skip, children.len() as int) == children,
{
    assert(children.subrange(0, skip) + children.subrange(skip, children.len() as int) =~= children);
}

/// copies at most one row of elements of `v`, starting at `start`
fn copy_row(v: &Vec<usize>, start: usize) -> (r: Vec<usize>)
    ensures
        r@ == row_from(v@, start as int),
{
    let mut result: Vec<usize> = Vec::new();
    let len = v.len();
    if start >= len {
        return result;
    }
    let end = if len - start > GRID_WIDTH { start + GRID_WIDTH } else { len };
    let mut i = start;
    while i < end
        invariant
            start <= i <= end <= len,
            len == v@.len(),
            result@ == v@.subrange(start as int, i as int),
        decreases end - i,
    {
        result.push(v[i]);
        i = i + 1;
    }
    assert(result@ == row_from(v@, start as int));
    result
}

} // verus!
