use vstd::prelude::*;
use crate::helpers::data::{CLEAR_TIME, GRID_WIDTH, ATLAS_GARBAGE_1D};
use crate::scripts::block::{Block, BlockState, default_block};
use crate::scripts::component::Component;
use crate::scripts::garbage::{Garbage, GarbageSystem, GarbageState, Child, frame_1d, frames_2d};
use crate::scripts::grid::Grid;
use crate::scripts::rng::{Rng, pcg_range};

verus! {

/// the smallest element of `s`, 0 for an empty sequence
pub open spec fn seq_min(s: Seq<usize>) -> usize
    decreases s.len(),
{
    if s.len() == 0 {
        0
    } else if s.len() == 1 {
        s[0]
    } else {
        let m = seq_min(s.drop_last());
        if s.last() < m {
            s.last()
        } else {
            m
        }
    }
}

/// one clear animation frame of a child at grid index `idx`; the flag says wether the child
/// turns into a block now
pub open spec fn child_tick(k: Child, idx: usize, is_2d: bool, count: usize, min_y: usize) -> (Child, bool) {
    if k.counter > k.start_time {
        let d = k.counter - k.start_time;
        if d < CLEAR_TIME {
            (Child { scale: (CLEAR_TIME - d) as u32, counter: (k.counter + 1) as u32, ..k }, false)
        } else if k.randomize_at_end {
            (Child { finished: true, counter: (k.counter + 1) as u32, ..k }, true)
        } else {
            let fr = if is_2d {
                frames_2d(
                    idx % GRID_WIDTH,
                    (idx / GRID_WIDTH - min_y) as usize,
                    (((count - GRID_WIDTH) as usize) / GRID_WIDTH) as usize,
                )
            } else {
                (frame_1d(idx % GRID_WIDTH, count), ATLAS_GARBAGE_1D)
            };
            (Child { hframe: fr.0, vframe: fr.1, scale: CLEAR_TIME, finished: true, counter: (k.counter + 1) as u32, ..k }, false)
        }
    } else {
        (Child { counter: (k.counter + 1) as u32, ..k }, false)
    }
}

/// the components after the first `n` children took a clear animation frame, and the position
/// of the child that turned into a block, after which the scan stops
pub open spec fn clear_scan(c: Seq<Component>, ch: Seq<usize>, is_2d: bool, count: usize, min_y: usize, n: nat) -> (Seq<Component>, Option<int>)
    decreases n,
{
    if n == 0 {
        (c, None)
    } else {
        let prev = clear_scan(c, ch, is_2d, count, min_y, (n - 1) as nat);
        if prev.1.is_some() {
            prev
        } else {
            let idx = ch[n - 1];
            match prev.0[idx as int] {
                Component::Child(k) => if k.finished {
                    prev
                } else {
                    let t = child_tick(k, idx, is_2d, count, min_y);
                    (prev.0.update(idx as int, Component::Child(t.0)), if t.1 { Some((n - 1) as int) } else { None })
                },
                _ => prev,
            }
        }
    }
}

/// the clear animation frame of all children of a garbage
pub open spec fn scan_of(g: Garbage, c: Seq<Component>) -> (Seq<Component>, Option<int>) {
    clear_scan(c, g.children@, g.is_2d, g.count, seq_min(g.children@) / GRID_WIDTH, g.children@.len())
}

/// the block a child turns into at the end of its clear animation: it may start a chain
pub open spec fn garbage_block(vframe: u32, push_amount: u32) -> Component {
    Component::Block {
        block: Block { offset_y: -push_amount as i32, vframe, saved_chain: Some(1), ..default_block() },
        state: BlockState::Spawned,
    }
}

/// a block put to idle, anything else as it is
pub open spec fn idled(c: Component) -> Component {
    match c {
        Component::Block { block, .. } => Component::Block { block, state: BlockState::Idle },
        _ => c,
    }
}

/// the components with the blocks at the removed children put to idle
pub open spec fn removed_idled(c: Seq<Component>, removed: Seq<usize>) -> Seq<Component> {
    Seq::new(c.len(), |i: int| if removed.contains(i as usize) { idled(c[i]) } else { c[i] })
}

/// a clearing garbage whose clear time has not ended
pub open spec fn clear_running(s: GarbageState) -> bool {
    match s {
        GarbageState::Clear { counter, end_time, .. } => counter < end_time,
        _ => false,
    }
}

/// a clearing garbage whose clear time ended
pub open spec fn clear_ending(s: GarbageState) -> bool {
    match s {
        GarbageState::Clear { counter, end_time, .. } => counter >= end_time,
        _ => false,
    }
}

/// the components after one update of the garbage
pub open spec fn step_comps(g: Garbage, c: Seq<Component>, r: Rng, push_amount: u32) -> Seq<Component> {
    if clear_running(g.state) {
        let s = scan_of(g, c);
        match s.1 {
            Some(i) => s.0.update(g.children@[i] as int, garbage_block(pcg_range(r.state, r.inc, 3, 8).0, push_amount)),
            None => s.0,
        }
    } else if clear_ending(g.state) {
        removed_idled(c, g.removed_children@)
    } else {
        c
    }
}

/// the random generator after one update of the garbage: a child that turns into a block draws
/// its vframe
pub open spec fn step_rng(g: Garbage, c: Seq<Component>, r: Rng) -> Rng {
    if clear_running(g.state) && scan_of(g, c).1.is_some() {
        Rng { state: pcg_range(r.state, r.inc, 3, 8).1, ..r }
    } else {
        r
    }
}

/// `after` is the garbage `before` after one update on the components `c`
pub open spec fn garbage_stepped(before: Garbage, c: Seq<Component>, after: Garbage) -> bool {
    &&& after.parent_id == before.parent_id
    &&& match before.state {
        GarbageState::Hang { counter } => {
            &&& after.state == GarbageState::Hang { counter: (counter + 1) as u32 }
            &&& after.children@ == before.children@
            &&& after.removed_children@ == before.removed_children@
            &&& after.count == before.count
            &&& after.is_2d == before.is_2d
        },
        GarbageState::Clear { counter, end_time, finished } => if counter < end_time {
            &&& after.state == GarbageState::Clear { counter: (counter + 1) as u32, end_time, finished }
            &&& after.is_2d == before.is_2d
            &&& match scan_of(before, c).1 {
                Some(i) => {
                    &&& after.children@ == before.children@.remove(i)
                    &&& after.removed_children@ == before.removed_children@.push(before.children@[i])
                    &&& after.count == before.count - 1
                },
                None => {
                    &&& after.children@ == before.children@
                    &&& after.removed_children@ == before.removed_children@
                    &&& after.count == before.count
                },
            }
        } else {
            &&& after.state == GarbageState::Clear { counter, end_time, finished: true }
            &&& after.children@ == before.children@
            &&& after.removed_children@.len() == 0
            &&& after.count == before.count
            &&& after.is_2d == (before.count > GRID_WIDTH)
        },
        _ => {
            &&& after.state == before.state
            &&& after.children@ == before.children@
            &&& after.removed_children@ == before.removed_children@
            &&& after.count == before.count
            &&& after.is_2d == before.is_2d
        },
    }
}

/// a child can take a clear animation frame: its counter can count up, and once its clear time
/// ran out the garbage still counts a child (a child that turns into a block counts it down) and
/// a two dimensional garbage, whose frames are computed then, has a full row
pub open spec fn tick_ok(k: Child, is_2d: bool, count: usize) -> bool {
    &&& k.counter < u32::MAX
    &&& k.counter > k.start_time && k.counter - k.start_time >= CLEAR_TIME ==> {
        &&& count >= 1
        &&& !k.randomize_at_end && is_2d ==> count >= GRID_WIDTH
    }
}

/// the first `n` children that the clear animation frame reaches can take their frame: the
/// scan stops at a child that turns into a block, and a child that occurs twice is ticked twice
pub open spec fn scan_ready(c: Seq<Component>, ch: Seq<usize>, is_2d: bool, count: usize, min_y: usize, n: nat) -> bool
    decreases n,
{
    n == 0 || {
        &&& scan_ready(c, ch, is_2d, count, min_y, (n - 1) as nat)
        &&& {
            let prev = clear_scan(c, ch, is_2d, count, min_y, (n - 1) as nat);
            prev.1.is_some() || match prev.0[ch[n - 1] as int] {
                Component::Child(k) => !k.finished ==> tick_ok(k, is_2d, count),
                _ => true,
            }
        }
    }
}

proof fn lemma_scan_ready_prefix(c: Seq<Component>, ch: Seq<usize>, is_2d: bool, count: usize, min_y: usize, a: nat, b: nat)
    requires
        a <= b,
        scan_ready(c, ch, is_2d, count, min_y, b),
    ensures
        scan_ready(c, ch, is_2d, count, min_y, a),
    decreases b,
{
    if a < b {
        lemma_scan_ready_prefix(c, ch, is_2d, count, min_y, a, (b - 1) as nat);
    }
}

/// the children of a clearing garbage can take a clear animation frame: each is a child of the
/// grid, and each child the frame reaches can take its tick
pub open spec fn children_clearable(g: Garbage, c: Seq<Component>) -> bool {
    &&& forall|j: int| 0 <= j < g.children@.len() ==> #[trigger] g.children@[j] < c.len()
    &&& forall|j: int| 0 <= j < g.children@.len() ==> #[trigger] c[g.children@[j] as int] is Child
    &&& scan_ready(c, g.children@, g.is_2d, g.count, seq_min(g.children@) / GRID_WIDTH, g.children@.len())
}

/// what one update of the garbage needs of the garbage and the grid
pub open spec fn step_ready(g: Garbage, c: Seq<Component>, push_amount: u32) -> bool {
    match g.state {
        GarbageState::Hang { counter } => counter < u32::MAX,
        GarbageState::Clear { counter, end_time, .. } => if counter < end_time {
            children_clearable(g, c) && push_amount <= i32::MAX
        } else {
            forall|j: int| 0 <= j < g.removed_children@.len() ==> #[trigger] g.removed_children@[j] < c.len()
        },
        _ => true,
    }
}

/// two grids agree on everything but their components and the state of their generator
pub open spec fn grid_rest_same(a: Grid, b: Grid) -> bool {
    &&& a.id == b.id
    &&& a.combo_highlight == b.combo_highlight
    &&& a.push_counter == b.push_counter
    &&& a.push_amount == b.push_amount
    &&& a.push_raise == b.push_raise
    &&& a.cursor == b.cursor
    &&& a.rng.inc == b.rng.inc
}

proof fn lemma_seq_min(s: Seq<usize>)
    ensures
        forall|j: int| 0 <= j < s.len() ==> seq_min(s) <= #[trigger] s[j],
    decreases s.len(),
{
    if s.len() > 1 {
        lemma_seq_min(s.drop_last());
        assert forall|j: int| 0 <= j < s.len() implies seq_min(s) <= #[trigger] s[j] by {
            if j < s.len() - 1 {
                assert(s.drop_last()[j] == s[j]);
            }
        }
    }
}

proof fn lemma_scan_stays(c: Seq<Component>, ch: Seq<usize>, is_2d: bool, count: usize, min_y: usize, a: nat, b: nat)
    requires
        a <= b,
        clear_scan(c, ch, is_2d, count, min_y, a).1.is_some(),
    ensures
        clear_scan(c, ch, is_2d, count, min_y, b) == clear_scan(c, ch, is_2d, count, min_y, a),
    decreases b,
{
    if b > a {
        lemma_scan_stays(c, ch, is_2d, count, min_y, a, (b - 1) as nat);
    }
}

proof fn lemma_scan_frame(c: Seq<Component>, ch: Seq<usize>, is_2d: bool, count: usize, min_y: usize, n: nat)
    requires
        n <= ch.len(),
        forall|k: int| 0 <= k < n ==> #[trigger] ch[k] < c.len(),
    ensures
        clear_scan(c, ch, is_2d, count, min_y, n).0.len() == c.len(),
        forall|x: int| 0 <= x < c.len() && (forall|k: int| 0 <= k < n ==> ch[k] != x) ==> #[trigger] clear_scan(c, ch, is_2d, count, min_y, n).0[x] == c[x],
        clear_scan(c, ch, is_2d, count, min_y, n).1 matches Some(i) ==> 0 <= i < n,
    decreases n,
{
    if n > 0 {
        lemma_scan_frame(c, ch, is_2d, count, min_y, (n - 1) as nat);
        assert forall|x: int| 0 <= x < c.len() && (forall|k: int| 0 <= k < n ==> ch[k] != x) implies #[trigger] clear_scan(c, ch, is_2d, count, min_y, n).0[x] == c[x] by {
            assert(ch[n - 1] != x);
            assert(clear_scan(c, ch, is_2d, count, min_y, (n - 1) as nat).0[x] == c[x]);
        }
    }
}

/// the smallest child index, 0 without children
fn min_child(v: &Vec<usize>) -> (r: usize)
    ensures
        r == seq_min(v@),
{
    let len = v.len();
    if len == 0 {
        return 0;
    }
    let mut m = v[0];
    let mut i: usize = 1;
    assert(v@.subrange(0, 1).len() == 1);
    while i < len
        invariant
            1 <= i <= len,
            len == v@.len(),
            m == seq_min(v@.subrange(0, i as int)),
        decreases len - i,
    {
        assert(v@.subrange(0, i + 1).drop_last() =~= v@.subrange(0, i as int));
        if v[i] < m {
            m = v[i];
        }
        i = i + 1;
    }
    assert(v@.subrange(0, len as int) =~= v@);
    m
}

/// one clear animation frame of a child of a garbage
fn tick_child(k: Child, idx: usize, is_2d: bool, count: usize, min_y: usize) -> (r: (Child, bool))
    requires
        tick_ok(k, is_2d, count),
        min_y <= idx / GRID_WIDTH,
    ensures
        r == child_tick(k, idx, is_2d, count, min_y),
{
    let mut c = k;
    let mut reset = false;
    if c.counter > c.start_time {
        if c.counter - c.start_time < CLEAR_TIME {
            c.scale = CLEAR_TIME - (c.counter - c.start_time);
        } else {
            if c.randomize_at_end {
                reset = true;
            } else {
                let x = idx % GRID_WIDTH;
                let y = idx / GRID_WIDTH;
                let (hframe, vframe) = if is_2d {
                    Child::gen_2d_frames(x, y - min_y, (count - GRID_WIDTH) / GRID_WIDTH)
                } else {
                    Child::gen_1d_frames(x, count)
                };
                c.vframe = vframe;
                c.hframe = hframe;
                c.scale = CLEAR_TIME;
            }
            c.finished = true;
        }
    }
    c.counter = c.counter + 1;
    (c, reset)
}

proof fn lemma_prefix_contains(r: Seq<usize>, j: int, v: usize)
    requires
        0 <= j < r.len(),
    ensures
        r.subrange(0, j + 1).contains(v) == (r.subrange(0, j).contains(v) || r[j] == v),
{
    if r.subrange(0, j).contains(v) {
        let w = choose|w: int| 0 <= w < r.subrange(0, j).len() && #[trigger] r.subrange(0, j)[w] == v;
        assert(r.subrange(0, j + 1)[w] == v);
    }
    if r[j] == v {
        assert(r.subrange(0, j + 1)[j] == v);
    }
    if r.subrange(0, j + 1).contains(v) {
        let w = choose|w: int| 0 <= w < r.subrange(0, j + 1).len() && #[trigger] r.subrange(0, j + 1)[w] == v;
        if w < j {
            assert(r.subrange(0, j)[w] == v);
        }
    }
}

/// an update keeps a garbage with its grid, and its count moves with its children: a child that
/// turns into a block leaves the children and the count together
pub proof fn lemma_update_keeps_count(before: Garbage, c: Seq<Component>, after: Garbage)
    requires
        garbage_stepped(before, c, after),
        forall|j: int| 0 <= j < before.children@.len() ==> #[trigger] before.children@[j] < c.len(),
    ensures
        after.parent_id == before.parent_id,
        after.count - after.children@.len() == before.count - before.children@.len(),
{
    if clear_running(before.state) {
        let g = before;
        lemma_scan_frame(c, g.children@, g.is_2d, g.count, seq_min(g.children@) / GRID_WIDTH, g.children@.len());
    }
}

/// wether `tick_ok` holds
fn tick_ok_check(k: Child, is_2d: bool, count: usize) -> (r: bool)
    ensures
        r == tick_ok(k, is_2d, count),
{
    k.counter < u32::MAX && (!(k.counter > k.start_time && k.counter - k.start_time >= CLEAR_TIME)
        || (count >= 1 && (k.randomize_at_end || !is_2d || count >= GRID_WIDTH)))
}

/// wether the clear animation frame of the children can run, see `scan_ready`: runs the frame
/// on a copy of the components
fn scan_ready_check(ch: &Vec<usize>, c: &Vec<Component>, is_2d: bool, count: usize) -> (r: bool)
    requires
        forall|i: int| 0 <= i < ch@.len() ==> #[trigger] ch@[i] < c@.len(),
    ensures
        r == scan_ready(c@, ch@, is_2d, count, seq_min(ch@) / GRID_WIDTH, ch@.len()),
{
    let min_y = min_child(ch) / GRID_WIDTH;
    proof {
        lemma_seq_min(ch@);
    }
    let len = c.len();
    let mut comps: Vec<Component> = Vec::new();
    let mut i: usize = 0;
    while i < len
        invariant
            0 <= i <= len,
            len == c@.len(),
            comps@ == c@.subrange(0, i as int),
        decreases len - i,
    {
        comps.push(c[i]);
        i = i + 1;
        assert(comps@ =~= c@.subrange(0, i as int));
    }
    assert(comps@ =~= c@);
    let n = ch.len();
    let mut stopped = false;
    let mut j: usize = 0;
    while j < n
        invariant
            0 <= j <= n,
            n == ch@.len(),
            len == c@.len(),
            min_y == seq_min(ch@) / GRID_WIDTH,
            forall|k: int| 0 <= k < n ==> seq_min(ch@) <= #[trigger] ch@[k],
            forall|k: int| 0 <= k < n ==> #[trigger] ch@[k] < c@.len(),
            comps@ == clear_scan(c@, ch@, is_2d, count, min_y, j as nat).0,
            stopped == clear_scan(c@, ch@, is_2d, count, min_y, j as nat).1.is_some(),
            scan_ready(c@, ch@, is_2d, count, min_y, j as nat),
        decreases n - j,
    {
        proof {
            lemma_scan_frame(c@, ch@, is_2d, count, min_y, j as nat);
        }
        if !stopped {
            let idx = ch[j];
            assert(seq_min(ch@) / GRID_WIDTH <= idx / GRID_WIDTH);
            match comps[idx] {
                Component::Child(k) => {
                    if !k.finished {
                        if !tick_ok_check(k, is_2d, count) {
                            proof {
                                if scan_ready(c@, ch@, is_2d, count, min_y, n as nat) {
                                    lemma_scan_ready_prefix(c@, ch@, is_2d, count, min_y, (j + 1) as nat, n as nat);
                                }
                            }
                            return false;
                        }
                        let (k2, reset) = tick_child(k, idx, is_2d, count, min_y);
                        comps.set(idx, Component::Child(k2));
                        stopped = reset;
                    }
                },
                _ => {},
            }
        }
        j = j + 1;
    }
    true
}

impl Garbage {
    /// updates the garbage variables based on each state, mostly animation based: a hanging
    /// garbage counts its hang frames; a clearing garbage runs one clear animation frame of its
    /// children, and the first child whose animation ended and that is to be randomized turns
    /// into a new block that may start a chain; once the clear time ended, the blocks of the
    /// removed children go idle and the clear finishes
    pub fn update(&mut self, grid: &mut Grid)
        requires
            step_ready(*old(self), old(grid).components@, old(grid).push_amount),
            old(grid).rng.valid(),
        ensures
            final(grid).components@ == step_comps(*old(self), old(grid).components@, old(grid).rng, old(grid).push_amount),
            final(grid).rng == step_rng(*old(self), old(grid).components@, old(grid).rng),
            // the vframe of a child that turns into a block lies in `3..8`
            clear_running(old(self).state) && scan_of(*old(self), old(grid).components@).1 is Some
                ==> 3 <= pcg_range(old(grid).rng.state, old(grid).rng.inc, 3, 8).0 < 8,
            grid_rest_same(*old(grid), *final(grid)),
            garbage_stepped(*old(self), old(grid).components@, *final(self)),
    {
        match self.state {
            GarbageState::Hang { counter } => {
                self.state = GarbageState::Hang { counter: counter + 1 };
            },
            GarbageState::Clear { counter, end_time, finished } => {
                if counter < end_time {
                    self.run_clear(grid);
                    self.state = GarbageState::Clear { counter: counter + 1, end_time, finished };
                } else {
                    idle_removed(&self.removed_children, grid);
                    self.is_2d = self.count > GRID_WIDTH;
                    self.removed_children.clear();
                    self.state = GarbageState::Clear { counter, end_time, finished: true };
                }
            },
            _ => {},
        }
    }

    /// one clear animation frame of all children, see `Garbage::update`
    fn run_clear(&mut self, grid: &mut Grid)
        requires
            children_clearable(*old(self), old(grid).components@),
            old(grid).push_amount <= i32::MAX,
            old(grid).rng.valid(),
        ensures
            ({
                let s = scan_of(*old(self), old(grid).components@);
                let drawn = pcg_range(old(grid).rng.state, old(grid).rng.inc, 3, 8);
                &&& grid_rest_same(*old(grid), *final(grid))
                &&& final(self).parent_id == old(self).parent_id
                &&& final(self).state == old(self).state
                &&& final(self).is_2d == old(self).is_2d
                &&& match s.1 {
                    Some(i) => {
                        &&& final(grid).components@ == s.0.update(old(self).children@[i] as int, garbage_block(drawn.0, old(grid).push_amount))
                        &&& final(grid).rng == (Rng { state: drawn.1, ..old(grid).rng })
                        &&& 3 <= drawn.0 < 8
                        &&& final(self).children@ == old(self).children@.remove(i)
                        &&& final(self).removed_children@ == old(self).removed_children@.push(old(self).children@[i])
                        &&& final(self).count == old(self).count - 1
                    },
                    None => {
                        &&& final(grid).components@ == s.0
                        &&& final(grid).rng == old(grid).rng
                        &&& final(self).children@ == old(self).children@
                        &&& final(self).removed_children@ == old(self).removed_children@
                        &&& final(self).count == old(self).count
                    },
                }
            }),
    {
        let min_pos = min_child(&self.children);
        let min_y = min_pos / GRID_WIDTH;
        let n = self.children.len();
        let ghost c0 = grid.components@;
        let ghost ch = self.children@;
        proof {
            lemma_seq_min(ch);
        }
        let mut remove: Option<usize> = None;
        let mut j: usize = 0;
        while j < n
            invariant
                0 <= j <= n,
                n == ch.len(),
                *self == *old(self),
                ch == old(self).children@,
                grid_rest_same(*old(grid), *grid),
                grid.rng == old(grid).rng,
                grid.rng.valid(),
                c0 == old(grid).components@,
                children_clearable(*old(self), c0),
                min_y == seq_min(ch) / GRID_WIDTH,
                forall|i: int| 0 <= i < n ==> seq_min(ch) <= #[trigger] ch[i],
                clear_scan(c0, ch, self.is_2d, self.count, min_y, j as nat).0 == grid.components@,
                clear_scan(c0, ch, self.is_2d, self.count, min_y, j as nat).1 == match remove {
                    Some(i) => Some(i as int),
                    None => None::<int>,
                },
                remove.is_some() ==> j == n,
                remove.is_some() ==> self.count >= 1,
                remove matches Some(i) ==> i < n,
            decreases n - j,
        {
            let idx = self.children[j];
            proof {
                assert forall|k: int| 0 <= k < j implies #[trigger] ch[k] < c0.len() by {
                    assert(ch[k] < c0.len());
                }
                lemma_scan_frame(c0, ch, self.is_2d, self.count, min_y, j as nat);
                assert(ch[j as int] < c0.len());
                lemma_scan_ready_prefix(c0, ch, self.is_2d, self.count, min_y, (j + 1) as nat, n as nat);
                assert(scan_ready(c0, ch, self.is_2d, self.count, min_y, (j + 1) as nat));
                assert(seq_min(ch) <= idx);
                assert(seq_min(ch) / GRID_WIDTH <= idx / GRID_WIDTH);
            }
            match grid.components[idx] {
                Component::Child(k) => {
                    if !k.finished {
                        let (k2, reset) = tick_child(k, idx, self.is_2d, self.count, min_y);
                        grid.components.set(idx, Component::Child(k2));
                        if reset {
                            remove = Some(j);
                            proof {
                                lemma_scan_stays(c0, ch, self.is_2d, self.count, min_y, (j + 1) as nat, n as nat);
                            }
                            j = n;
                        } else {
                            j = j + 1;
                        }
                    } else {
                        j = j + 1;
                    }
                },
                _ => {
                    j = j + 1;
                },
            }
        }
        proof {
            assert forall|k: int| 0 <= k < n implies #[trigger] ch[k] < c0.len() by {
                assert(ch[k] < c0.len());
            }
            lemma_scan_frame(c0, ch, self.is_2d, self.count, min_y, n as nat);
        }
        match remove {
            Some(i) => {
                let idx = self.children[i];
                assert(idx < c0.len());
                let vframe = Block::random_vframe(&mut grid.rng);
                let amount = grid.push_amount as i32;
                grid.components.set(idx, Component::Block {
                    block: Block { offset_y: -amount, vframe, saved_chain: Some(1), ..Block::default() },
                    state: BlockState::Spawned,
                });
                self.count = self.count - 1;
                let removed = self.children.remove(i);
                self.removed_children.push(removed);
            },
            None => {},
        }
    }

    /// wether one update of the garbage can run on the grid, see `step_ready`
    pub fn update_ready(&self, grid: &Grid) -> (r: bool)
        ensures
            r == step_ready(*self, grid.components@, grid.push_amount),
    {
        let c = &grid.components;
        match self.state {
            GarbageState::Hang { counter } => counter < u32::MAX,
            GarbageState::Clear { counter, end_time, finished } => if counter < end_time {
                if grid.push_amount > i32::MAX as u32 {
                    return false;
                }
                let n = self.children.len();
                let mut j: usize = 0;
                while j < n
                    invariant
                        0 <= j <= n,
                        n == self.children@.len(),
                        self.state == (GarbageState::Clear { counter, end_time, finished }),
                        counter < end_time,
                        grid.push_amount <= i32::MAX,
                        c@ == grid.components@,
                        forall|i: int| 0 <= i < j ==> #[trigger] self.children@[i] < c@.len(),
                        forall|i: int| 0 <= i < j ==> #[trigger] c@[self.children@[i] as int] is Child,
                    decreases n - j,
                {
                    let idx = self.children[j];
                    assert(self.children@[j as int] == idx);
                    if idx >= c.len() {
                        return false;
                    }
                    match c[idx] {
                        Component::Child(_) => {},
                        _ => {
                            assert(!(c@[self.children@[j as int] as int] is Child));
                            return false;
                        },
                    }
                    j = j + 1;
                }
                scan_ready_check(&self.children, c, self.is_2d, self.count)
            } else {
                let m = self.removed_children.len();
                let mut j: usize = 0;
                while j < m
                    invariant
                        0 <= j <= m,
                        m == self.removed_children@.len(),
                        self.state == (GarbageState::Clear { counter, end_time, finished }),
                        counter >= end_time,
                        c@ == grid.components@,
                        forall|i: int| 0 <= i < j ==> #[trigger] self.removed_children@[i] < c@.len(),
                    decreases m - j,
                {
                    if self.removed_children[j] >= c.len() {
                        return false;
                    }
                    j = j + 1;
                }
                true
            },
            _ => true,
        }
    }
}

/// puts the blocks at the given indexes to idle
fn idle_removed(removed: &Vec<usize>, grid: &mut Grid)
    requires
        forall|j: int| 0 <= j < removed@.len() ==> #[trigger] removed@[j] < old(grid).components@.len(),
    ensures
        final(grid).components@ == removed_idled(old(grid).components@, removed@),
        grid_rest_same(*old(grid), *final(grid)),
        final(grid).rng == old(grid).rng,
{
    let m = removed.len();
    let total = grid.components.len();
    let ghost c0 = grid.components@;
    let mut j: usize = 0;
    while j < m
        invariant
            0 <= j <= m,
            m == removed@.len(),
            grid_rest_same(*old(grid), *grid),
            grid.rng == old(grid).rng,
            c0 == old(grid).components@,
            c0.len() == total,
            forall|i: int| 0 <= i < m ==> #[trigger] removed@[i] < c0.len(),
            grid.components@ == Seq::new(c0.len(), |x: int| if removed@.subrange(0, j as int).contains(x as usize) { idled(c0[x]) } else { c0[x] }),
        decreases m - j,
    {
        let idx = removed[j];
        assert(idx < c0.len());
        let ghost prev = grid.components@;
        match grid.components[idx] {
            Component::Block { block, .. } => {
                grid.components.set(idx, Component::Block { block, state: BlockState::Idle });
            },
            _ => {},
        }
        proof {
            let r = removed@;
            assert forall|x: int| 0 <= x < c0.len() implies #[trigger] r.subrange(0, j + 1).contains(x as usize) == (r.subrange(0, j as int).contains(x as usize) || (x as usize) == idx) by {
                lemma_prefix_contains(r, j as int, x as usize);
            }
            let target = Seq::new(c0.len(), |x: int| if r.subrange(0, j + 1).contains(x as usize) { idled(c0[x]) } else { c0[x] });
            assert forall|x: int| 0 <= x < c0.len() implies #[trigger] grid.components@[x] == target[x] by {
                lemma_prefix_contains(r, j as int, x as usize);
                assert(prev[x] == (if r.subrange(0, j as int).contains(x as usize) { idled(c0[x]) } else { c0[x] }));
                if x == idx as int {
                    assert(r[j as int] == x as usize);
                    assert(grid.components@[x] == idled(prev[x]));
                } else {
                    assert(grid.components@[x] == prev[x]);
                }
            }
            assert(grid.components@ =~= target);
        }
        j = j + 1;
    }
    assert(removed@.subrange(0, m as int) =~= removed@);
    assert(grid.components@ =~= removed_idled(c0, removed@));
}

/// the components and the generator after the first `n` garbages of the list took their update
/// on the grid `id`; the garbages of other grids are skipped
pub open spec fn system_step(list: Seq<Garbage>, id: usize, c: Seq<Component>, r: Rng, push_amount: u32, n: nat) -> (Seq<Component>, Rng)
    decreases n,
{
    if n == 0 {
        (c, r)
    } else {
        let prev = system_step(list, id, c, r, push_amount, (n - 1) as nat);
        let g = list[n - 1];
        if g.parent_id == id {
            (step_comps(g, prev.0, prev.1, push_amount), step_rng(g, prev.0, prev.1))
        } else {
            prev
        }
    }
}

/// every garbage of the grid `id` among the first `n` of the list can take its update on the
/// components it meets
pub open spec fn system_ready(list: Seq<Garbage>, id: usize, c: Seq<Component>, r: Rng, push_amount: u32, n: nat) -> bool
    decreases n,
{
    n == 0 || (system_ready(list, id, c, r, push_amount, (n - 1) as nat) && (list[n - 1].parent_id == id ==> step_ready(
        list[n - 1],
        system_step(list, id, c, r, push_amount, (n - 1) as nat).0,
        push_amount,
    )))
}

/// the garbages of the list after the first `n` of them took their update on the grid `id`
pub open spec fn system_stepped(before: Seq<Garbage>, id: usize, c: Seq<Component>, r: Rng, push_amount: u32, after: Seq<Garbage>, n: nat) -> bool {
    &&& after.len() == before.len()
    &&& forall|k: int| 0 <= k < n && before[k].parent_id == id ==> garbage_stepped(
        before[k],
        system_step(before, id, c, r, push_amount, k as nat).0,
        #[trigger] after[k],
    )
    &&& forall|k: int| 0 <= k < before.len() && !(k < n && before[k].parent_id == id) ==> #[trigger] after[k] == before[k]
}

proof fn lemma_system_ready_prefix(list: Seq<Garbage>, id: usize, c: Seq<Component>, r: Rng, push_amount: u32, m: nat, n: nat)
    requires
        m <= n,
        system_ready(list, id, c, r, push_amount, n),
    ensures
        system_ready(list, id, c, r, push_amount, m),
    decreases n,
{
    if m < n {
        lemma_system_ready_prefix(list, id, c, r, push_amount, m, (n - 1) as nat);
    }
}

/// the garbage state looked for: clearing, or idle
pub open spec fn kind_matches(s: GarbageState, clear: bool) -> bool {
    if clear {
        s is Clear
    } else {
        s is Idle
    }
}

/// the smallest lowest row of the garbages of the grid `id` of the kind looked for among the
/// first `n` of the list, 100000 if there is none
pub open spec fn row_min(list: Seq<Garbage>, id: usize, clear: bool, n: nat) -> usize
    decreases n,
{
    if n == 0 {
        100_000
    } else {
        let m = row_min(list, id, clear, (n - 1) as nat);
        let g = list[n - 1];
        if g.parent_id == id && kind_matches(g.state, clear) && g.lowest_spec()[0] / GRID_WIDTH < m {
            g.lowest_spec()[0] / GRID_WIDTH
        } else {
            m
        }
    }
}

/// the lowest row a garbage of the grid `id` of the kind looked for lies in; nothing once a
/// garbage of the list lost all its children
pub open spec fn lowest_row(list: Seq<Garbage>, id: usize, clear: bool) -> Option<usize> {
    if exists|k: int| 0 <= k < list.len() && (#[trigger] list[k]).children@.len() == 0 {
        None
    } else if row_min(list, id, clear, list.len()) != 100_000 {
        Some(row_min(list, id, clear, list.len()))
    } else {
        None
    }
}

/// the lowest row of each garbage looked at by `lowest_row` can be computed
pub open spec fn rows_defined(list: Seq<Garbage>, id: usize, clear: bool) -> bool {
    forall|k: int| 0 <= k < list.len() && (forall|k2: int| 0 <= k2 <= k ==> (#[trigger] list[k2]).children@.len() > 0)
        && (#[trigger] list[k]).parent_id == id && kind_matches(list[k].state, clear)
        ==> list[k].lowest_defined() && list[k].lowest_spec().len() > 0
}

/// the grid and the garbage list after every garbage of the list took its update for the grid
pub open spec fn garbage_updated(l0: Seq<Garbage>, g0: Grid, l: Seq<Garbage>, g: Grid) -> bool {
    &&& g.components@ == system_step(l0, g0.id, g0.components@, g0.rng, g0.push_amount, l0.len()).0
    &&& g.rng == system_step(l0, g0.id, g0.components@, g0.rng, g0.push_amount, l0.len()).1
    &&& grid_rest_same(g0, g)
    &&& system_stepped(l0, g0.id, g0.components@, g0.rng, g0.push_amount, l, l0.len())
}

impl GarbageSystem {
    /// calls the update event on each garbage of the grid, in the order of the list
    pub fn update(&mut self, grid: &mut Grid)
        requires
            old(grid).rng.valid(),
            system_ready(old(self).list@, old(grid).id, old(grid).components@, old(grid).rng, old(grid).push_amount, old(self).list@.len()),
        ensures
            final(grid).components@ == system_step(old(self).list@, old(grid).id, old(grid).components@, old(grid).rng, old(grid).push_amount, old(self).list@.len()).0,
            final(grid).rng == system_step(old(self).list@, old(grid).id, old(grid).components@, old(grid).rng, old(grid).push_amount, old(self).list@.len()).1,
            grid_rest_same(*old(grid), *final(grid)),
            system_stepped(old(self).list@, old(grid).id, old(grid).components@, old(grid).rng, old(grid).push_amount, final(self).list@, old(self).list@.len()),
    {
        let done = self.update_checked(grid);
        assert(done);
    }

    /// the update of `GarbageSystem::update` that first tells wether each garbage can take its
    /// update; it stops at the first one that cannot and then returns false
    pub fn update_checked(&mut self, grid: &mut Grid) -> (r: bool)
        requires
            old(grid).rng.valid(),
        ensures
            r == system_ready(old(self).list@, old(grid).id, old(grid).components@, old(grid).rng, old(grid).push_amount, old(self).list@.len()),
            r ==> garbage_updated(old(self).list@, *old(grid), final(self).list@, *final(grid)),
    {
        let ghost l0 = self.list@;
        let ghost c0 = grid.components@;
        let ghost r0 = grid.rng;
        let ghost id = grid.id;
        let ghost push = grid.push_amount;
        let len = self.list.len();
        let mut k: usize = 0;
        while k < len
            invariant
                0 <= k <= len,
                len == l0.len(),
                l0 == old(self).list@,
                c0 == old(grid).components@,
                r0 == old(grid).rng,
                id == old(grid).id,
                push == old(grid).push_amount,
                grid_rest_same(*old(grid), *grid),
                system_ready(l0, id, c0, r0, push, k as nat),
                grid.components@ == system_step(l0, id, c0, r0, push, k as nat).0,
                grid.rng == system_step(l0, id, c0, r0, push, k as nat).1,
                grid.rng.valid(),
                system_stepped(l0, id, c0, r0, push, self.list@, k as nat),
            decreases len - k,
        {
            if self.list[k].parent_id == grid.id {
                if !self.list[k].update_ready(grid) {
                    proof {
                        if system_ready(l0, id, c0, r0, push, len as nat) {
                            lemma_system_ready_prefix(l0, id, c0, r0, push, (k + 1) as nat, len as nat);
                        }
                    }
                    return false;
                }
                let mut g = Garbage::new(0, Vec::new());
                self.list.set_and_swap(k, &mut g);
                g.update(grid);
                self.list.set_and_swap(k, &mut g);
            }
            proof {
                assert(system_step(l0, id, c0, r0, push, (k + 1) as nat) == if l0[k as int].parent_id == id {
                    (step_comps(l0[k as int], system_step(l0, id, c0, r0, push, k as nat).0, system_step(l0, id, c0, r0, push, k as nat).1, push),
                     step_rng(l0[k as int], system_step(l0, id, c0, r0, push, k as nat).0, system_step(l0, id, c0, r0, push, k as nat).1))
                } else {
                    system_step(l0, id, c0, r0, push, k as nat)
                });
            }
            k = k + 1;
        }
        true
    }

    /// the lowest row of an idle garbage of the grid, if any
    pub fn lowest_idle(&mut self, grid: &Grid) -> (r: Option<usize>)
        requires
            rows_defined(old(self).list@, grid.id, false),
        ensures
            r == lowest_row(old(self).list@, grid.id, false),
            *final(self) == *old(self),
    {
        lowest_row_of(&self.list, grid.id, false)
    }

    /// the lowest row of a clearing garbage of the grid, if any
    pub fn lowest_clear(&mut self, grid: &Grid) -> (r: Option<usize>)
        requires
            rows_defined(old(self).list@, grid.id, true),
        ensures
            r == lowest_row(old(self).list@, grid.id, true),
            *final(self) == *old(self),
    {
        lowest_row_of(&self.list, grid.id, true)
    }
}

/// wether `rows_defined` holds
#[verifier::spinoff_prover]
#[verifier::rlimit(30)]
pub fn rows_defined_check(list: &Vec<Garbage>, id: usize, clear: bool) -> (r: bool)
    ensures
        r == rows_defined(list@, id, clear),
{
    let len = list.len();
    let mut k: usize = 0;
    while k < len
        invariant
            0 <= k <= len,
            len == list@.len(),
            forall|k2: int| 0 <= k2 < k ==> (#[trigger] list@[k2]).children@.len() > 0,
            forall|k2: int| 0 <= k2 < k && (#[trigger] list@[k2]).parent_id == id && kind_matches(list@[k2].state, clear)
                ==> list@[k2].lowest_defined() && list@[k2].lowest_spec().len() > 0,
        decreases len - k,
    {
        let g = &list[k];
        let n = g.children.len();
        if n == 0 {
            assert forall|k1: int| 0 <= k1 < list@.len() && (forall|k2: int| 0 <= k2 <= k1 ==> (#[trigger] list@[k2]).children@.len() > 0)
                && (#[trigger] list@[k1]).parent_id == id && kind_matches(list@[k1].state, clear)
                implies list@[k1].lowest_defined() && list@[k1].lowest_spec().len() > 0 by {
                if k1 >= k {
                    assert(list@[k as int].children@.len() == 0);
                }
            }
            return true;
        }
        let wanted = if clear {
            match g.state {
                GarbageState::Clear { .. } => true,
                _ => false,
            }
        } else {
            match g.state {
                GarbageState::Idle => true,
                _ => false,
            }
        };
        if g.parent_id == id && wanted {
            if g.is_2d {
                if g.count < GRID_WIDTH {
                    return false;
                }
                let start = (g.count / GRID_WIDTH - 1) * GRID_WIDTH;
                if start >= n {
                    return false;
                }
            }
        }
        k = k + 1;
    }
    true
}

/// the lowest row of a garbage of the grid `id` of the kind looked for, see `lowest_row`
pub(crate) fn lowest_row_of(list: &Vec<Garbage>, id: usize, clear: bool) -> (r: Option<usize>)
    requires
        rows_defined(list@, id, clear),
    ensures
        r == lowest_row(list@, id, clear),
{
    let len = list.len();
    let mut min_y: usize = 100_000;
    let mut k: usize = 0;
    while k < len
        invariant
            0 <= k <= len,
            len == list@.len(),
            rows_defined(list@, id, clear),
            forall|k2: int| 0 <= k2 < k ==> (#[trigger] list@[k2]).children@.len() > 0,
            min_y == row_min(list@, id, clear, k as nat),
        decreases len - k,
    {
        let g = &list[k];
        if g.children.len() == 0 {
            assert(list@[k as int].children@.len() == 0);
            return None;
        }
        let wanted = if clear {
            match g.state {
                GarbageState::Clear { .. } => true,
                _ => false,
            }
        } else {
            match g.state {
                GarbageState::Idle => true,
                _ => false,
            }
        };
        if g.parent_id == id && wanted {
            assert(list@[k as int].lowest_defined() && list@[k as int].lowest_spec().len() > 0);
            let y = g.lowest_y();
            if y < min_y {
                min_y = y;
            }
        }
        k = k + 1;
    }
    assert(!exists|k: int| 0 <= k < list@.len() && (#[trigger] list@[k]).children@.len() == 0);
    if min_y != 100_000 {
        Some(min_y)
    } else {
        None
    }
}

} // verus!
