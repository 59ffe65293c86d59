use vstd::prelude::*;
use crate::helpers::data::GRID_WIDTH;

verus! {

/// head of a garbage that stays with the block that is its head; it knows all the parts of
/// the garbage
pub struct GarbageHead {
    pub clearing: bool,
    /// all garbage blocks of this head
    pub parts: Vec<usize>,
    pub highest_blocks: Vec<usize>,
    pub lowest_blocks: Vec<usize>,
    pub can_fall: bool,
    pub can_hang: (bool, u32),
    pub dimensions: (usize, usize),
    pub marked_clear: bool,
    pub hanged: bool,
    pub new_kinds: Vec<usize>,
}

/// every id of the list moved by `delta` rows
pub open spec fn moved_ids(s: Seq<usize>, delta: int) -> Seq<usize> {
    s.map_values(|id: usize| (id + delta * GRID_WIDTH) as usize)
}

/// every id of the list can move down a row without overflow
pub open spec fn ids_can_increase(s: Seq<usize>) -> bool {
    forall|j: int| 0 <= j < s.len() ==> #[trigger] s[j] + GRID_WIDTH <= usize::MAX
}

/// every id of the list can move up a row without going below 0
pub open spec fn ids_can_decrease(s: Seq<usize>) -> bool {
    forall|j: int| 0 <= j < s.len() ==> #[trigger] s[j] >= GRID_WIDTH
}

/// two heads agree on everything but their part ids
pub open spec fn same_but_ids(a: GarbageHead, b: GarbageHead) -> bool {
    &&& a.clearing == b.clearing
    &&& a.can_fall == b.can_fall
    &&& a.can_hang == b.can_hang
    &&& a.dimensions == b.dimensions
    &&& a.marked_clear == b.marked_clear
    &&& a.hanged == b.hanged
    &&& a.new_kinds@ == b.new_kinds@
}

/// moves every id of the list by a row, down or up
fn move_ids(v: &mut Vec<usize>, down: bool)
    requires
        down ==> ids_can_increase(old(v)@),
        !down ==> ids_can_decrease(old(v)@),
    ensures
        final(v)@ == moved_ids(old(v)@, if down { 1 } else { -1 }),
{
    let n = v.len();
    let mut j: usize = 0;
    while j < n
        invariant
            0 <= j <= n,
            n == v@.len(),
            n == old(v)@.len(),
            down ==> ids_can_increase(old(v)@),
            !down ==> ids_can_decrease(old(v)@),
            forall|k: int| 0 <= k < j ==> #[trigger] v@[k] == moved_ids(old(v)@, if down { 1 } else { -1 })[k],
            forall|k: int| j <= k < n ==> #[trigger] v@[k] == old(v)@[k],
        decreases n - j,
    {
        let id = v[j];
        assert(id == old(v)@[j as int]);
        if down {
            v.set(j, id + GRID_WIDTH);
        } else {
            v.set(j, id - GRID_WIDTH);
        }
        j = j + 1;
    }
    assert(v@ =~= moved_ids(old(v)@, if down { 1 } else { -1 }));
}

impl GarbageHead {
    /// a head of the given parts, nothing falling, hanging or clearing
    pub fn new(parts: Vec<usize>, highest_blocks: Vec<usize>, lowest_blocks: Vec<usize>, dimensions: (usize, usize)) -> (r: GarbageHead)
        ensures
            r.parts@ == parts@,
            r.highest_blocks@ == highest_blocks@,
            r.lowest_blocks@ == lowest_blocks@,
            r.dimensions == dimensions,
            !r.can_fall,
            r.can_hang == (false, 0u32),
            !r.clearing,
            !r.marked_clear,
            !r.hanged,
            r.new_kinds@.len() == 0,
    {
        GarbageHead {
            parts,
            lowest_blocks,
            highest_blocks,
            dimensions,
            can_fall: false,
            can_hang: (false, 0),
            clearing: false,
            marked_clear: false,
            hanged: false,
            new_kinds: Vec::new(),
        }
    }

    /// moves all ids a row down, without a bound check against the grid
    pub fn increase_block_ids(&mut self)
        requires
            ids_can_increase(old(self).parts@),
            ids_can_increase(old(self).lowest_blocks@),
            ids_can_increase(old(self).highest_blocks@),
        ensures
            final(self).parts@ == moved_ids(old(self).parts@, 1),
            final(self).lowest_blocks@ == moved_ids(old(self).lowest_blocks@, 1),
            final(self).highest_blocks@ == moved_ids(old(self).highest_blocks@, 1),
            same_but_ids(*final(self), *old(self)),
    {
        move_ids(&mut self.parts, true);
        move_ids(&mut self.lowest_blocks, true);
        move_ids(&mut self.highest_blocks, true);
    }

    /// moves all ids a row up, without a bound check against the grid
    pub fn decrease_block_ids(&mut self)
        requires
            ids_can_decrease(old(self).parts@),
            ids_can_decrease(old(self).lowest_blocks@),
            ids_can_decrease(old(self).highest_blocks@),
        ensures
            final(self).parts@ == moved_ids(old(self).parts@, -1),
            final(self).lowest_blocks@ == moved_ids(old(self).lowest_blocks@, -1),
            final(self).highest_blocks@ == moved_ids(old(self).highest_blocks@, -1),
            same_but_ids(*final(self), *old(self)),
    {
        move_ids(&mut self.parts, false);
        move_ids(&mut self.lowest_blocks, false);
        move_ids(&mut self.highest_blocks, false);
    }
}

/// moving ids a row down and then a row up gives the ids back; so does moving them up first
pub proof fn lemma_move_ids_undo(s: Seq<usize>)
    ensures
        ids_can_increase(s) ==> ids_can_decrease(moved_ids(s, 1)) && moved_ids(moved_ids(s, 1), -1) == s,
        ids_can_decrease(s) ==> ids_can_increase(moved_ids(s, -1)) && moved_ids(moved_ids(s, -1), 1) == s,
{
    if ids_can_increase(s) {
        assert(moved_ids(moved_ids(s, 1), -1) =~= s);
        assert forall|j: int| 0 <= j < moved_ids(s, 1).len() implies #[trigger] moved_ids(s, 1)[j] >= GRID_WIDTH by {
            assert(s[j] + GRID_WIDTH <= usize::MAX);
        }
    }
    if ids_can_decrease(s) {
        assert(moved_ids(moved_ids(s, -1), 1) =~= s);
        assert forall|j: int| 0 <= j < moved_ids(s, -1).len() implies #[trigger] moved_ids(s, -1)[j] + GRID_WIDTH <= usize::MAX by {
            assert(s[j] >= GRID_WIDTH);
        }
    }
}

} // verus!
