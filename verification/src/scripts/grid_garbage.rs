use vstd::prelude::*;
use crate::helpers::data::{GRID_TOTAL, GRID_WIDTH, HANG_TIME, CLEAR_TIME};
use crate::scripts::block::BlockState;
use crate::scripts::component::{Component, swap_components};
use crate::scripts::garbage::{Garbage, GarbageSystem, GarbageState, Child, same_but_state, same_but_children, shifted_children};
use crate::scripts::grid::Grid;
use crate::scripts::grid_blocks::contains_index;

verus! {

/// a hanging garbage whose hang time ended
pub open spec fn hang_done(s: GarbageState) -> bool {
    match s {
        GarbageState::Hang { counter } => counter >= HANG_TIME - 1,
        _ => false,
    }
}

/// every space below the lowest row of the garbage is empty
pub open spec fn lowest_empty_spec(c: Seq<Component>, g: Garbage) -> bool {
    forall|j: int| 0 <= j < g.lowest_spec().len() ==> #[trigger] c[g.lowest_spec()[j] + GRID_WIDTH] is Empty
}

proof fn lemma_marks_len(c: Seq<Component>, g: Garbage, n: int)
    requires
        n <= g.children@.len(),
        forall|k: int| 0 <= k < g.children@.len() ==> #[trigger] g.children@[k] < c.len(),
    ensures
        mark_children(c, g, n).len() == c.len(),
    decreases n,
{
    if n > 0 {
        lemma_marks_len(c, g, n - 1);
    }
}

proof fn lemma_marks_untouched(c: Seq<Component>, g: Garbage, n: int, x: int)
    requires
        n <= g.children@.len(),
        0 <= x < c.len(),
        forall|k: int| 0 <= k < g.children@.len() ==> #[trigger] g.children@[k] < c.len(),
        forall|k: int| 0 <= k < n ==> #[trigger] g.children@[k] != x,
    ensures
        mark_children(c, g, n)[x] == c[x],
    decreases n,
{
    if n > 0 {
        lemma_marks_len(c, g, n - 1);
        lemma_marks_untouched(c, g, n - 1, x);
        assert(g.children@[n - 1] != x);
    }
}

proof fn lemma_marks_child(c: Seq<Component>, g: Garbage, n: int, j: int, ch: Child)
    requires
        0 <= j < n <= g.children@.len(),
        forall|k: int| 0 <= k < g.children@.len() ==> #[trigger] g.children@[k] < c.len(),
        forall|a: int, b: int| 0 <= a < b < g.children@.len() ==> #[trigger] g.children@[a] != #[trigger] g.children@[b],
        c[g.children@[j] as int] == Component::Child(ch),
    ensures
        mark_children(c, g, n)[g.children@[j] as int] == Component::Child(marked_child(
            ch,
            g.is_2d,
            g.children@.len() as int,
            j,
            g.lowest_spec().contains(g.children@[j]),
        )),
    decreases n,
{
    let x = g.children@[j] as int;
    lemma_marks_len(c, g, n - 1);
    if n - 1 == j {
        assert forall|k: int| 0 <= k < j implies #[trigger] g.children@[k] != x by {
            assert(g.children@[k] != g.children@[j]);
        }
        lemma_marks_untouched(c, g, j, x);
    } else {
        lemma_marks_child(c, g, n - 1, j, ch);
        assert(g.children@[j] != g.children@[n - 1]);
    }
}

/// the garbage clears of the first `n` garbages from the end keep a space that is a child of no
/// garbage of the grid among the garbages looked at after the first `n0`
proof fn lemma_clears_upto_untouched(c: Seq<Component>, list: Seq<Garbage>, id: usize, n0: int, n: int, x: int)
    requires
        0 <= n0 <= n <= list.len(),
        c.len() == GRID_TOTAL,
        0 <= x < GRID_TOTAL,
        garbages_in_grid(list, id),
        forall|t: int, k: int| n0 < t <= n && list[list.len() - t].parent_id == id && 0 <= k < list[list.len() - t].children@.len()
            ==> #[trigger] list[list.len() - t].children@[k] != x,
    ensures
        garbage_clears_upto(c, list, id, n).len() == GRID_TOTAL,
        garbage_clears_upto(c, list, id, n)[x] == garbage_clears_upto(c, list, id, n0)[x],
    decreases n,
{
    if n > n0 {
        lemma_clears_upto_untouched(c, list, id, n0, n - 1, x);
        let prev = garbage_clears_upto(c, list, id, n - 1);
        let g = list[list.len() - n];
        if garbage_clears(c, g, id) {
            lemma_marks_len(prev, g, g.children@.len() as int);
            lemma_marks_untouched(prev, g, g.children@.len() as int, x);
        }
    } else {
        lemma_clears_upto_len(c, list, id, n);
    }
}

proof fn lemma_clears_upto_len(c: Seq<Component>, list: Seq<Garbage>, id: usize, n: int)
    requires
        0 <= n <= list.len(),
        c.len() == GRID_TOTAL,
        garbages_in_grid(list, id),
    ensures
        garbage_clears_upto(c, list, id, n).len() == GRID_TOTAL,
    decreases n,
{
    if n > 0 {
        lemma_clears_upto_len(c, list, id, n - 1);
        let g = list[list.len() - n];
        if garbage_clears(c, g, id) {
            lemma_marks_len(garbage_clears_upto(c, list, id, n - 1), g, g.children@.len() as int);
        }
    }
}

/// the children of a garbage that starts clearing start their clear animation: each takes the
/// clear frame of its garbage's shape, its counter and finish start over, the children clear one
/// clear time apart from the last child to the first, and the children of the lowest row turn
/// into blocks at the end; nothing else of the child changes. Asked: the garbage's children are
/// distinct and no other garbage of the grid shares them.
pub proof fn lemma_clearing_garbage_children(c: Seq<Component>, list: Seq<Garbage>, id: usize, k: int, j: int, ch: Child)
    requires
        c.len() == GRID_TOTAL,
        garbages_in_grid(list, id),
        0 <= k < list.len(),
        garbage_clears(c, list[k], id),
        forall|a: int, b: int| 0 <= a < b < list[k].children@.len() ==> #[trigger] list[k].children@[a] != #[trigger] list[k].children@[b],
        forall|k2: int, a: int, b: int| 0 <= k2 < list.len() && k2 != k && list[k2].parent_id == id
            && 0 <= a < list[k2].children@.len() && 0 <= b < list[k].children@.len()
            ==> #[trigger] list[k2].children@[a] != #[trigger] list[k].children@[b],
        0 <= j < list[k].children@.len(),
        c[list[k].children@[j] as int] == Component::Child(ch),
    ensures
        ({
            let g = list[k];
            let n = g.children@.len();
            garbage_clears_upto(c, list, id, list.len() as int)[g.children@[j] as int] == Component::Child(Child {
                hframe: if g.is_2d { 9 } else { 3 },
                counter: 0,
                finished: false,
                start_time: ((n - 1 - j) * CLEAR_TIME) as u32,
                randomize_at_end: g.lowest_spec().contains(g.children@[j]),
                ..ch
            })
        }),
{
    let len = list.len() as int;
    let g = list[k];
    let x = g.children@[j] as int;
    let m = len - k;
    assert(g.parent_id == id);
    assert(x < GRID_TOTAL);
    assert forall|t: int, kk: int| 0 < t <= m - 1 && list[len - t].parent_id == id && 0 <= kk < list[len - t].children@.len()
        implies #[trigger] list[len - t].children@[kk] != x by {
        assert(list[len - t].children@[kk] != list[k].children@[j]);
    }
    lemma_clears_upto_untouched(c, list, id, 0, m - 1, x);
    let prev = garbage_clears_upto(c, list, id, m - 1);
    assert(list[len - m] == g);
    assert forall|kk: int| 0 <= kk < g.children@.len() implies #[trigger] g.children@[kk] < prev.len() by {
        assert(list[k].children@[kk] < GRID_TOTAL);
    }
    lemma_marks_child(prev, g, g.children@.len() as int, j, ch);
    assert(garbage_clears_upto(c, list, id, m) == mark_children(prev, g, g.children@.len() as int));
    assert forall|t: int, kk: int| m < t <= len && list[len - t].parent_id == id && 0 <= kk < list[len - t].children@.len()
        implies #[trigger] list[len - t].children@[kk] != x by {
        assert(list[len - t].children@[kk] != list[k].children@[j]);
    }
    lemma_clears_upto_untouched(c, list, id, m, len, x);
}

/// the garbage is laid out so its lowest row and the row below it can be looked at
pub open spec fn garbage_placed(g: Garbage) -> bool {
    &&& g.lowest_defined()
    &&& forall|j: int| 0 <= j < g.children@.len() ==> #[trigger] g.children@[j] < GRID_TOTAL - GRID_WIDTH
}

/// all garbages of the grid are laid out so their lowest row and the row below can be looked at
pub open spec fn garbages_placed(list: Seq<Garbage>, id: usize) -> bool {
    forall|k: int| 0 <= k < list.len() && (#[trigger] list[k]).parent_id == id ==> garbage_placed(list[k])
}

proof fn lemma_lowest_in_children(g: Garbage)
    requires
        g.lowest_defined(),
    ensures
        forall|j: int| 0 <= j < g.lowest_spec().len() ==> g.children@.contains(#[trigger] g.lowest_spec()[j]),
{
    let s = g.children@;
    let start = crate::scripts::garbage::lowest_start(g.is_2d, g.count);
    assert forall|j: int| 0 <= j < g.lowest_spec().len() implies g.children@.contains(#[trigger] g.lowest_spec()[j]) by {
        assert(g.lowest_spec()[j] == s[start + j]);
    }
}

/// a child index moved a row down, its component traded with the one below
pub open spec fn swap_down(c: Seq<Component>, idx: int) -> Seq<Component> {
    c.update(idx, c[idx + GRID_WIDTH]).update(idx + GRID_WIDTH, c[idx])
}

/// the components after the last `n` children, from the last one on, moved a row down
pub open spec fn children_moved_down(c: Seq<Component>, ch: Seq<usize>, n: int) -> Seq<Component>
    decreases n,
{
    if n <= 0 {
        c
    } else {
        swap_down(children_moved_down(c, ch, n - 1), ch[ch.len() - n] as int)
    }
}

/// the garbage of the grid falls a row this frame
pub open spec fn garbage_falls(c: Seq<Component>, g: Garbage, id: usize) -> bool {
    g.parent_id == id && g.state is Fall && lowest_empty_spec(c, g)
}

/// the components after the falls of the first `n` garbages
pub open spec fn garbage_falls_upto(c: Seq<Component>, list: Seq<Garbage>, id: usize, n: int) -> Seq<Component>
    decreases n,
{
    if n <= 0 {
        c
    } else {
        let prev = garbage_falls_upto(c, list, id, n - 1);
        if garbage_falls(prev, list[n - 1], id) {
            children_moved_down(prev, list[n - 1].children@, list[n - 1].children@.len() as int)
        } else {
            prev
        }
    }
}

proof fn lemma_moved_down_len(c: Seq<Component>, ch: Seq<usize>, n: int)
    requires
        0 <= n <= ch.len(),
        forall|j: int| 0 <= j < ch.len() ==> #[trigger] ch[j] < c.len() - GRID_WIDTH,
    ensures
        children_moved_down(c, ch, n).len() == c.len(),
    decreases n,
{
    if n > 0 {
        lemma_moved_down_len(c, ch, n - 1);
    }
}

proof fn lemma_falls_upto_len(c: Seq<Component>, list: Seq<Garbage>, id: usize, n: int)
    requires
        0 <= n <= list.len(),
        c.len() == GRID_TOTAL,
        garbages_placed(list, id),
    ensures
        garbage_falls_upto(c, list, id, n).len() == GRID_TOTAL,
    decreases n,
{
    if n > 0 {
        lemma_falls_upto_len(c, list, id, n - 1);
        let prev = garbage_falls_upto(c, list, id, n - 1);
        if garbage_falls(prev, list[n - 1], id) {
            assert(garbage_placed(list[n - 1]));
            lemma_moved_down_len(prev, list[n - 1].children@, list[n - 1].children@.len() as int);
        }
    }
}

proof fn lemma_moved_down_keep(c: Seq<Component>, ch: Seq<usize>, n: int, x: int)
    requires
        0 <= n <= ch.len(),
        0 <= x < c.len(),
        forall|j: int| 0 <= j < ch.len() ==> #[trigger] ch[j] < c.len() - GRID_WIDTH,
        forall|j: int| 0 <= j < ch.len() ==> #[trigger] ch[j] != x && ch[j] + GRID_WIDTH != x,
    ensures
        children_moved_down(c, ch, n)[x] == c[x],
    decreases n,
{
    if n > 0 {
        lemma_moved_down_keep(c, ch, n - 1, x);
        lemma_moved_down_len(c, ch, n - 1);
        let j = ch.len() - n;
        assert(ch[j] != x && ch[j] + GRID_WIDTH != x);
    }
}

/// the garbage falls of grid `id` leave a space alone that holds no child of its garbages and
/// lies below none
pub(crate) proof fn lemma_garbage_falls_keep(c: Seq<Component>, list: Seq<Garbage>, id: usize, n: int, x: int)
    requires
        0 <= n <= list.len(),
        c.len() == GRID_TOTAL,
        0 <= x < GRID_TOTAL,
        garbages_placed(list, id),
        forall|k: int, j: int| 0 <= k < list.len() && list[k].parent_id == id && 0 <= j < list[k].children@.len()
            ==> #[trigger] list[k].children@[j] != x && list[k].children@[j] + GRID_WIDTH != x,
    ensures
        garbage_falls_upto(c, list, id, n)[x] == c[x],
    decreases n,
{
    if n > 0 {
        lemma_garbage_falls_keep(c, list, id, n - 1, x);
        lemma_falls_upto_len(c, list, id, n - 1);
        let prev = garbage_falls_upto(c, list, id, n - 1);
        let g = list[n - 1];
        if garbage_falls(prev, g, id) {
            assert(garbage_placed(g));
            assert forall|j: int| 0 <= j < g.children@.len() implies #[trigger] g.children@[j] != x && g.children@[j] + GRID_WIDTH != x by {
                assert(list[n - 1].children@[j] != x && list[n - 1].children@[j] + GRID_WIDTH != x);
            }
            lemma_moved_down_keep(prev, g.children@, g.children@.len() as int, x);
        }
    }
}

/// a block at the index just started clearing
pub open spec fn clear_started_at(c: Seq<Component>, i: int) -> bool {
    0 <= i < GRID_TOTAL && c[i] matches Component::Block { state: BlockState::Clear { counter: 0, .. }, .. }
}

/// a neighbor of the child just started clearing: above or below, for a one row garbage also
/// right or left
pub open spec fn child_touches_clear(c: Seq<Component>, i: int, is_2d: bool) -> bool {
    ||| clear_started_at(c, i + GRID_WIDTH)
    ||| clear_started_at(c, i - GRID_WIDTH)
    ||| (!is_2d && (clear_started_at(c, i + 1) || clear_started_at(c, i - 1)))
}

/// an idle garbage of the grid with a child next to a just started clear
pub open spec fn garbage_clears(c: Seq<Component>, g: Garbage, id: usize) -> bool {
    &&& g.parent_id == id
    &&& g.state is Idle
    &&& exists|j: int| 0 <= j < g.children@.len() && #[trigger] child_touches_clear(c, g.children@[j] as int, g.is_2d)
}

/// the states of the garbages after `Grid::garbage_detect_clear` on the components `c` of grid `id`
pub open spec fn clear_detected_states(c: Seq<Component>, id: usize, la: Seq<Garbage>, lb: Seq<Garbage>) -> bool {
    &&& lb.len() == la.len()
    &&& forall|k: int| 0 <= k < la.len() ==> (#[trigger] lb[k]).state == {
        let g = la[k];
        if garbage_clears(c, g, id) {
            GarbageState::Clear { counter: 0, end_time: ((g.children@.len() + 1) * CLEAR_TIME) as u32, finished: false }
        } else {
            g.state
        }
    }
}

/// a block of the grid that started its clear this frame
pub open spec fn started_clear(c: Seq<Component>, x: int) -> bool {
    0 <= x < GRID_TOTAL && c[x] matches Component::Block { state: BlockState::Clear { counter: 0, .. }, .. }
}

/// a clear next to a garbage clears it: an idle garbage of the grid with a child right below,
/// right above, or (for a one row garbage) beside a block that just started clearing starts
/// clearing, for one clear time per child and one more
pub proof fn lemma_clear_next_to_garbage(c: Seq<Component>, id: usize, la: Seq<Garbage>, lb: Seq<Garbage>, k: int, j: int, d: int)
    requires
        clear_detected_states(c, id, la, lb),
        0 <= k < la.len(),
        la[k].parent_id == id,
        la[k].state is Idle,
        0 <= j < la[k].children@.len(),
        d == GRID_WIDTH || d == -GRID_WIDTH || (!la[k].is_2d && (d == 1 || d == -1)),
        started_clear(c, la[k].children@[j] + d),
    ensures
        lb[k].state == (GarbageState::Clear {
            counter: 0,
            end_time: ((la[k].children@.len() + 1) * CLEAR_TIME) as u32,
            finished: false,
        }),
{
    let g = la[k];
    let x = g.children@[j] as int;
    assert(child_touches_clear(c, x, g.is_2d));
    assert(garbage_clears(c, g, id));
}

/// a garbage that is not an idle garbage of the grid, or that has no child right below, right
/// above or (for a one row garbage) beside a block that just started clearing, keeps its state
pub proof fn lemma_garbage_without_clear_stays(c: Seq<Component>, id: usize, la: Seq<Garbage>, lb: Seq<Garbage>, k: int)
    requires
        clear_detected_states(c, id, la, lb),
        0 <= k < la.len(),
        la[k].parent_id != id || !(la[k].state is Idle) || forall|j: int, d: int| 0 <= j < la[k].children@.len()
            && (d == GRID_WIDTH || d == -GRID_WIDTH || (!la[k].is_2d && (d == 1 || d == -1)))
            ==> !#[trigger] started_clear(c, la[k].children@[j] + d),
    ensures
        lb[k].state == la[k].state,
{
    let g = la[k];
    if garbage_clears(c, g, id) {
        let j = choose|j: int| 0 <= j < g.children@.len() && #[trigger] child_touches_clear(c, g.children@[j] as int, g.is_2d);
        let x = g.children@[j] as int;
        if clear_started_at(c, x + GRID_WIDTH) {
            assert(started_clear(c, g.children@[j] + GRID_WIDTH));
        } else if clear_started_at(c, x - GRID_WIDTH) {
            assert(started_clear(c, g.children@[j] + (-GRID_WIDTH)));
        } else if clear_started_at(c, x + 1) {
            assert(started_clear(c, g.children@[j] + 1));
        } else {
            assert(started_clear(c, g.children@[j] + (-1)));
        }
    }
}

/// a child starting the clear animation of its garbage: children clear from the last one to
/// the first, and the children of the lowest row turn into blocks at the end
pub open spec fn marked_child(ch: Child, is_2d: bool, len: int, j: int, randomize: bool) -> Child {
    Child {
        hframe: if is_2d { 9 } else { 3 },
        counter: 0,
        finished: false,
        start_time: ((len - 1 - j) * CLEAR_TIME) as u32,
        randomize_at_end: randomize,
        ..ch
    }
}

/// the components after the first `n` children of the garbage started their clear animation
pub open spec fn mark_children(c: Seq<Component>, g: Garbage, n: int) -> Seq<Component>
    decreases n,
{
    if n <= 0 {
        c
    } else {
        let prev = mark_children(c, g, n - 1);
        let idx = g.children@[n - 1] as int;
        match prev[idx] {
            Component::Child(ch) => prev.update(idx, Component::Child(marked_child(
                ch,
                g.is_2d,
                g.children@.len() as int,
                n - 1,
                g.lowest_spec().contains(idx as usize),
            ))),
            _ => prev,
        }
    }
}

/// the components after the last `n` garbages of the list checked for clears
pub open spec fn garbage_clears_upto(c: Seq<Component>, list: Seq<Garbage>, id: usize, n: int) -> Seq<Component>
    decreases n,
{
    if n <= 0 {
        c
    } else {
        let prev = garbage_clears_upto(c, list, id, n - 1);
        let g = list[list.len() - n];
        if garbage_clears(c, g, id) {
            mark_children(prev, g, g.children@.len() as int)
        } else {
            prev
        }
    }
}

/// the garbages of the grid can be cleared: their children lie in the grid
pub open spec fn garbages_in_grid(list: Seq<Garbage>, id: usize) -> bool {
    forall|k: int| 0 <= k < list.len() && (#[trigger] list[k]).parent_id == id ==> {
        &&& list[k].lowest_defined()
        &&& list[k].children@.len() <= GRID_TOTAL
        &&& forall|j: int| 0 <= j < list[k].children@.len() ==> #[trigger] list[k].children@[j] < GRID_TOTAL
    }
}

proof fn lemma_mark_children_keeps(c: Seq<Component>, g: Garbage, n: int)
    requires
        0 <= n <= g.children@.len(),
        c.len() == GRID_TOTAL,
        forall|j: int| 0 <= j < g.children@.len() ==> #[trigger] g.children@[j] < GRID_TOTAL,
    ensures
        mark_children(c, g, n).len() == GRID_TOTAL,
        forall|i: int| 0 <= i < GRID_TOTAL ==> ((#[trigger] mark_children(c, g, n)[i]) is Child <==> c[i] is Child),
        forall|i: int| 0 <= i < GRID_TOTAL && !(c[i] is Child) ==> #[trigger] mark_children(c, g, n)[i] == c[i],
    decreases n,
{
    if n > 0 {
        lemma_mark_children_keeps(c, g, n - 1);
    }
}

proof fn lemma_clears_upto_keeps(c: Seq<Component>, list: Seq<Garbage>, id: usize, n: int)
    requires
        0 <= n <= list.len(),
        c.len() == GRID_TOTAL,
        garbages_in_grid(list, id),
    ensures
        garbage_clears_upto(c, list, id, n).len() == GRID_TOTAL,
        forall|i: int| 0 <= i < GRID_TOTAL ==> ((#[trigger] garbage_clears_upto(c, list, id, n)[i]) is Child <==> c[i] is Child),
        forall|i: int| 0 <= i < GRID_TOTAL && !(c[i] is Child) ==> #[trigger] garbage_clears_upto(c, list, id, n)[i] == c[i],
    decreases n,
{
    if n > 0 {
        lemma_clears_upto_keeps(c, list, id, n - 1);
        let prev = garbage_clears_upto(c, list, id, n - 1);
        let g = list[list.len() - n];
        if garbage_clears(c, g, id) {
            assert(g.parent_id == id);
            lemma_mark_children_keeps(prev, g, g.children@.len() as int);
        }
    }
}

/// a clear of the grid started at the index, out of the grid counts as none
fn clear_started_index(components: &Vec<Component>, index: i64) -> (r: bool)
    requires
        components@.len() == GRID_TOTAL,
    ensures
        r == clear_started_at(components@, index as int),
{
    if index >= 0 && index < GRID_TOTAL as i64 {
        if let Component::Block { state: BlockState::Clear { counter, .. }, .. } = components[index as usize] {
            return counter == 0;
        }
    }
    false
}

/// a garbage of the grid whose clear animation finished
pub open spec fn clear_done(g: Garbage, id: usize) -> bool {
    g.parent_id == id && g.state matches GarbageState::Clear { finished: true, .. }
}

/// the first garbage of the grid with a finished clear and no children left, or the length
pub open spec fn first_cleared_out(list: Seq<Garbage>, id: usize) -> int
    decreases list.len(),
{
    if list.len() == 0 {
        0
    } else if clear_done(list[0], id) && list[0].children@.len() == 0 {
        0
    } else {
        1 + first_cleared_out(list.drop_first(), id)
    }
}

pub(crate) proof fn lemma_first_cleared_out(list: Seq<Garbage>, id: usize)
    ensures
        0 <= first_cleared_out(list, id) <= list.len(),
        forall|k: int| 0 <= k < first_cleared_out(list, id) ==> !(clear_done(#[trigger] list[k], id) && list[k].children@.len() == 0),
        first_cleared_out(list, id) < list.len() ==> clear_done(list[first_cleared_out(list, id)], id)
            && list[first_cleared_out(list, id)].children@.len() == 0,
    decreases list.len(),
{
    if list.len() > 0 && !(clear_done(list[0], id) && list[0].children@.len() == 0) {
        lemma_first_cleared_out(list.drop_first(), id);
        assert forall|k: int| 0 <= k < first_cleared_out(list, id) implies !(clear_done(#[trigger] list[k], id) && list[k].children@.len() == 0) by {
            if k > 0 {
                assert(list[k] == list.drop_first()[k - 1]);
            }
        }
    }
}

/// the state of a garbage after the clear resolve: a finished clear becomes idle
pub open spec fn clear_resolved_state(g: Garbage, id: usize) -> GarbageState {
    if clear_done(g, id) {
        GarbageState::Idle
    } else {
        g.state
    }
}

impl Garbage {
    /// checks wether the spaces below the lowest children are all empty
    pub fn lowest_empty(&self, grid: &Grid) -> (r: bool)
        requires
            grid.wf(),
            garbage_placed(*self),
        ensures
            r == lowest_empty_spec(grid.components@, *self),
    {
        proof {
            lemma_lowest_in_children(*self);
        }
        let lowest = self.lowest();
        let len = lowest.len();
        let mut can_hang = true;
        let mut i: usize = 0;
        while i < len
            invariant
                0 <= i <= len,
                len == lowest@.len(),
                lowest@ == self.lowest_spec(),
                grid.wf(),
                garbage_placed(*self),
                forall|j: int| 0 <= j < len ==> self.children@.contains(#[trigger] self.lowest_spec()[j]),
                can_hang == forall|j: int| 0 <= j < i ==> #[trigger] grid.components@[lowest@[j] + GRID_WIDTH] is Empty,
            decreases len - i,
        {
            let idx = lowest[i];
            assert(self.children@.contains(self.lowest_spec()[i as int]));
            match grid.components[idx + GRID_WIDTH] {
                Component::Block { .. } => can_hang = false,
                Component::Child(_) => can_hang = false,
                _ => {},
            }
            i = i + 1;
        }
        can_hang
    }
}

/// moves the components of the children a row down, from the last child on, and the child
/// indexes with them
fn move_children_down(components: &mut Vec<Component>, children: &mut Vec<usize>)
    requires
        old(components)@.len() == GRID_TOTAL,
        forall|j: int| 0 <= j < old(children)@.len() ==> #[trigger] old(children)@[j] < GRID_TOTAL - GRID_WIDTH,
    ensures
        final(components)@ == children_moved_down(old(components)@, old(children)@, old(children)@.len() as int),
        final(children)@ == shifted_children(old(children)@, true),
{
    let len = children.len();
    let ghost ch = children@;
    let mut n: usize = 0;
    while n < len
        invariant
            0 <= n <= len,
            len == ch.len(),
            forall|j: int| 0 <= j < ch.len() ==> #[trigger] ch[j] < GRID_TOTAL - GRID_WIDTH,
            components@.len() == GRID_TOTAL,
            components@ == children_moved_down(old(components)@, ch, n as int),
            children@.len() == len,
            forall|j: int| 0 <= j < len ==> #[trigger] children@[j] == if j >= len - n { (ch[j] + GRID_WIDTH) as usize } else { ch[j] },
        decreases len - n,
    {
        let k = len - 1 - n;
        let idx = children[k];
        swap_components(components, idx, idx + GRID_WIDTH);
        children.set(k, idx + GRID_WIDTH);
        n = n + 1;
    }
    assert(children@ =~= shifted_children(ch, true));
}

impl Grid {
    /// an idle garbage of the grid with only empty spaces below its lowest row starts to hang
    pub fn garbage_detect_hang(&mut self, garbage_system: &mut GarbageSystem)
        requires
            old(self).wf(),
            garbages_placed(old(garbage_system).list@, old(self).id),
        ensures
            *final(self) == *old(self),
            final(garbage_system).list@.len() == old(garbage_system).list@.len(),
            forall|k: int| 0 <= k < old(garbage_system).list@.len() ==> same_but_state(#[trigger] final(garbage_system).list@[k], old(garbage_system).list@[k]),
            forall|k: int| 0 <= k < old(garbage_system).list@.len() ==> (#[trigger] final(garbage_system).list@[k]).state == {
                let g = old(garbage_system).list@[k];
                if g.parent_id == old(self).id && g.state is Idle && lowest_empty_spec(old(self).components@, g) {
                    GarbageState::Hang { counter: 0 }
                } else {
                    g.state
                }
            },
    {
        let len = garbage_system.list.len();
        let ghost glist = garbage_system.list@;
        let mut k: usize = 0;
        while k < len
            invariant
                0 <= k <= len,
                len == glist.len(),
                self.wf(),
                garbages_placed(glist, self.id),
                garbage_system.list@.len() == len,
                forall|kk: int| 0 <= kk < len ==> same_but_state(#[trigger] garbage_system.list@[kk], glist[kk]),
                forall|kk: int| 0 <= kk < len ==> (#[trigger] garbage_system.list@[kk]).state == {
                    let g = glist[kk];
                    if kk < k && g.parent_id == self.id && g.state is Idle && lowest_empty_spec(self.components@, g) {
                        GarbageState::Hang { counter: 0 }
                    } else {
                        g.state
                    }
                },
            decreases len - k,
        {
            if garbage_system.list[k].parent_id == self.id {
                if let GarbageState::Idle = garbage_system.list[k].state {
                    assert(garbage_placed(glist[k as int]));
                    if garbage_system.list[k].lowest_empty(self) {
                        let mut g = Garbage::new(0, Vec::new());
                        garbage_system.list.set_and_swap(k, &mut g);
                        g.state = GarbageState::Hang { counter: 0 };
                        garbage_system.list.set_and_swap(k, &mut g);
                    }
                }
            }
            k = k + 1;
        }
    }

    /// a hanging garbage of the grid whose hang time ended starts to fall
    pub fn garbage_resolve_hang(&mut self, garbage_system: &mut GarbageSystem)
        ensures
            *final(self) == *old(self),
            final(garbage_system).list@.len() == old(garbage_system).list@.len(),
            forall|k: int| 0 <= k < old(garbage_system).list@.len() ==> same_but_state(#[trigger] final(garbage_system).list@[k], old(garbage_system).list@[k]),
            forall|k: int| 0 <= k < old(garbage_system).list@.len() ==> (#[trigger] final(garbage_system).list@[k]).state == {
                let g = old(garbage_system).list@[k];
                if g.parent_id == old(self).id && hang_done(g.state) {
                    GarbageState::Fall
                } else {
                    g.state
                }
            },
    {
        let len = garbage_system.list.len();
        let ghost glist = garbage_system.list@;
        let mut k: usize = 0;
        while k < len
            invariant
                0 <= k <= len,
                len == glist.len(),
                garbage_system.list@.len() == len,
                forall|kk: int| 0 <= kk < len ==> same_but_state(#[trigger] garbage_system.list@[kk], glist[kk]),
                forall|kk: int| 0 <= kk < len ==> (#[trigger] garbage_system.list@[kk]).state == {
                    let g = glist[kk];
                    if kk < k && g.parent_id == self.id && hang_done(g.state) {
                        GarbageState::Fall
                    } else {
                        g.state
                    }
                },
            decreases len - k,
        {
            if garbage_system.list[k].parent_id == self.id {
                if let GarbageState::Hang { counter } = garbage_system.list[k].state {
                    if counter >= HANG_TIME - 1 {
                        let mut g = Garbage::new(0, Vec::new());
                        garbage_system.list.set_and_swap(k, &mut g);
                        g.state = GarbageState::Fall;
                        garbage_system.list.set_and_swap(k, &mut g);
                    }
                }
            }
            k = k + 1;
        }
    }

    /// a falling garbage of the grid with only empty spaces below moves a row down, one garbage
    /// after another; a falling garbage that is blocked becomes idle
    pub fn garbage_resolve_fall(&mut self, garbage_system: &mut GarbageSystem)
        requires
            old(self).wf(),
            garbages_placed(old(garbage_system).list@, old(self).id),
        ensures
            final(self).wf(),
            final(self).components@ == garbage_falls_upto(old(self).components@, old(garbage_system).list@, old(self).id, old(garbage_system).list@.len() as int),
            final(garbage_system).list@.len() == old(garbage_system).list@.len(),
            forall|k: int| 0 <= k < old(garbage_system).list@.len() ==> ({
                let g = old(garbage_system).list@[k];
                let before = garbage_falls_upto(old(self).components@, old(garbage_system).list@, old(self).id, k);
                let after = #[trigger] final(garbage_system).list@[k];
                if g.parent_id == old(self).id && g.state is Fall {
                    if lowest_empty_spec(before, g) {
                        same_but_children(after, g) && after.children@ == shifted_children(g.children@, true)
                    } else {
                        same_but_state(after, g) && after.state is Idle
                    }
                } else {
                    after == g
                }
            }),
            final(self).id == old(self).id,
            final(self).combo_highlight == old(self).combo_highlight,
            final(self).push_counter == old(self).push_counter,
            final(self).push_amount == old(self).push_amount,
            final(self).push_raise == old(self).push_raise,
            final(self).cursor == old(self).cursor,
            final(self).rng == old(self).rng,
    {
        let len = garbage_system.list.len();
        let ghost glist = garbage_system.list@;
        let ghost before = self.components@;
        let mut k: usize = 0;
        while k < len
            invariant
                0 <= k <= len,
                len == glist.len(),
                before.len() == GRID_TOTAL,
                garbages_placed(glist, self.id),
                self.components@ == garbage_falls_upto(before, glist, self.id, k as int),
                self.components@.len() == GRID_TOTAL,
                garbage_system.list@.len() == len,
                forall|kk: int| k <= kk < len ==> garbage_system.list@[kk] == glist[kk],
                forall|kk: int| 0 <= kk < k ==> ({
                    let g = glist[kk];
                    let mid = garbage_falls_upto(before, glist, self.id, kk);
                    let after = #[trigger] garbage_system.list@[kk];
                    if g.parent_id == self.id && g.state is Fall {
                        if lowest_empty_spec(mid, g) {
                            same_but_children(after, g) && after.children@ == shifted_children(g.children@, true)
                        } else {
                            same_but_state(after, g) && after.state is Idle
                        }
                    } else {
                        after == g
                    }
                }),
                self.id == old(self).id,
                self.combo_highlight == old(self).combo_highlight,
                self.push_counter == old(self).push_counter,
                self.push_amount == old(self).push_amount,
                self.push_raise == old(self).push_raise,
                self.cursor == old(self).cursor,
                self.rng == old(self).rng,
                self.rng.valid(),
            decreases len - k,
        {
            proof {
                lemma_falls_upto_len(before, glist, self.id, k as int + 1);
            }
            if garbage_system.list[k].parent_id == self.id {
                if let GarbageState::Fall = garbage_system.list[k].state {
                    assert(garbage_placed(glist[k as int]));
                    let mut g = Garbage::new(0, Vec::new());
                    garbage_system.list.set_and_swap(k, &mut g);
                    if g.lowest_empty(self) {
                        move_children_down(&mut self.components, &mut g.children);
                    } else {
                        g.state = GarbageState::Idle;
                    }
                    garbage_system.list.set_and_swap(k, &mut g);
                }
            }
            k = k + 1;
        }
    }

    /// returns for each index wether a clear has started there, out of the grid counts as none
    fn clears_started(&self, indexes: &Vec<i32>) -> (r: Vec<bool>)
        requires
            self.wf(),
        ensures
            r@.len() == indexes@.len(),
            forall|j: int| 0 <= j < indexes@.len() ==> #[trigger] r@[j] == clear_started_at(self.components@, indexes@[j] as int),
    {
        let mut results: Vec<bool> = Vec::new();
        let len = indexes.len();
        let mut j: usize = 0;
        while j < len
            invariant
                0 <= j <= len,
                len == indexes@.len(),
                self.wf(),
                results@.len() == j,
                forall|jj: int| 0 <= jj < j ==> #[trigger] results@[jj] == clear_started_at(self.components@, indexes@[jj] as int),
            decreases len - j,
        {
            results.push(clear_started_index(&self.components, indexes[j] as i64));
            j = j + 1;
        }
        results
    }

    /// returns true if a clear has started anywhere in the grid
    fn any_clears_started(&self) -> (r: bool)
        requires
            self.wf(),
        ensures
            r == exists|i: int| 0 <= i < GRID_TOTAL && #[trigger] clear_started_at(self.components@, i),
    {
        let mut i: usize = 0;
        while i < GRID_TOTAL
            invariant
                0 <= i <= GRID_TOTAL,
                self.wf(),
                forall|j: int| 0 <= j < i ==> !#[trigger] clear_started_at(self.components@, j),
            decreases GRID_TOTAL - i,
        {
            if clear_started_index(&self.components, i as i64) {
                return true;
            }
            i = i + 1;
        }
        false
    }

    /// wether a child of the garbage lies next to a just started clear
    fn garbage_touches_clear(&self, g: &Garbage) -> (r: bool)
        requires
            self.wf(),
            forall|j: int| 0 <= j < g.children@.len() ==> #[trigger] g.children@[j] < GRID_TOTAL,
        ensures
            r == exists|j: int| 0 <= j < g.children@.len() && #[trigger] child_touches_clear(self.components@, g.children@[j] as int, g.is_2d),
    {
        let len = g.children.len();
        let mut j: usize = 0;
        while j < len
            invariant
                0 <= j <= len,
                len == g.children@.len(),
                self.wf(),
                forall|jj: int| 0 <= jj < len ==> #[trigger] g.children@[jj] < GRID_TOTAL,
                forall|jj: int| 0 <= jj < j ==> !#[trigger] child_touches_clear(self.components@, g.children@[jj] as int, g.is_2d),
            decreases len - j,
        {
            let i = g.children[j] as i32;
            let mut indexes: Vec<i32> = Vec::new();
            // above, below
            indexes.push(i + GRID_WIDTH as i32);
            indexes.push(i - GRID_WIDTH as i32);
            if !g.is_2d {
                // right, left
                indexes.push(i + 1);
                indexes.push(i - 1);
            }
            let neighbors = self.clears_started(&indexes);
            let found = if g.is_2d {
                neighbors[0] || neighbors[1]
            } else {
                neighbors[0] || neighbors[1] || neighbors[2] || neighbors[3]
            };
            assert(found == child_touches_clear(self.components@, g.children@[j as int] as int, g.is_2d));
            if found {
                return true;
            }
            j = j + 1;
        }
        false
    }

    /// an idle garbage of the grid with a child next to a just started clear starts clearing:
    /// its children start their clear animation one after another from the last one, and the
    /// children of its lowest row turn into blocks at the end. Garbages are checked from the
    /// last one of the list to the first.
    pub fn garbage_detect_clear(&mut self, garbage_system: &mut GarbageSystem)
        requires
            old(self).wf(),
            garbages_in_grid(old(garbage_system).list@, old(self).id),
        ensures
            final(self).wf(),
            final(self).components@ == garbage_clears_upto(old(self).components@, old(garbage_system).list@, old(self).id, old(garbage_system).list@.len() as int),
            final(garbage_system).list@.len() == old(garbage_system).list@.len(),
            forall|k: int| 0 <= k < old(garbage_system).list@.len() ==> same_but_state(#[trigger] final(garbage_system).list@[k], old(garbage_system).list@[k]),
            forall|k: int| 0 <= k < old(garbage_system).list@.len() ==> (#[trigger] final(garbage_system).list@[k]).state == {
                let g = old(garbage_system).list@[k];
                if garbage_clears(old(self).components@, g, old(self).id) {
                    GarbageState::Clear { counter: 0, end_time: ((g.children@.len() + 1) * CLEAR_TIME) as u32, finished: false }
                } else {
                    g.state
                }
            },
            clear_detected_states(old(self).components@, old(self).id, old(garbage_system).list@, final(garbage_system).list@),
            final(self).id == old(self).id,
            final(self).combo_highlight == old(self).combo_highlight,
            final(self).push_counter == old(self).push_counter,
            final(self).push_amount == old(self).push_amount,
            final(self).push_raise == old(self).push_raise,
            final(self).cursor == old(self).cursor,
            final(self).rng == old(self).rng,
    {
        let len = garbage_system.list.len();
        let ghost glist = garbage_system.list@;
        let ghost before = self.components@;
        let mut n: usize = 0;
        while n < len
            invariant
                0 <= n <= len,
                len == glist.len(),
                before.len() == GRID_TOTAL,
                garbages_in_grid(glist, self.id),
                self.components@ == garbage_clears_upto(before, glist, self.id, n as int),
                self.components@.len() == GRID_TOTAL,
                forall|i: int| 0 <= i < GRID_TOTAL ==> clear_started_at(self.components@, i) == #[trigger] clear_started_at(before, i),
                garbage_system.list@.len() == len,
                forall|kk: int| 0 <= kk < len - n ==> #[trigger] garbage_system.list@[kk] == glist[kk],
                forall|kk: int| 0 <= kk < len ==> same_but_state(#[trigger] garbage_system.list@[kk], glist[kk]),
                forall|kk: int| 0 <= kk < len ==> (#[trigger] garbage_system.list@[kk]).state == {
                    let g = glist[kk];
                    if kk >= len - n && garbage_clears(before, g, self.id) {
                        GarbageState::Clear { counter: 0, end_time: ((g.children@.len() + 1) * CLEAR_TIME) as u32, finished: false }
                    } else {
                        g.state
                    }
                },
                self.id == old(self).id,
                self.combo_highlight == old(self).combo_highlight,
                self.push_counter == old(self).push_counter,
                self.push_amount == old(self).push_amount,
                self.push_raise == old(self).push_raise,
                self.cursor == old(self).cursor,
                self.rng == old(self).rng,
                self.rng.valid(),
            decreases len - n,
        {
            let k = len - 1 - n;
            let ghost mid = self.components@;
            if garbage_system.list[k].parent_id == self.id {
                if let GarbageState::Idle = garbage_system.list[k].state {
                    let mut g = Garbage::new(0, Vec::new());
                    garbage_system.list.set_and_swap(k, &mut g);
                    proof {
                        assert(g == glist[k as int]);
                        assert forall|j: int| 0 <= j < g.children@.len() implies #[trigger] child_touches_clear(self.components@, g.children@[j] as int, g.is_2d)
                            == child_touches_clear(before, g.children@[j] as int, g.is_2d) by {
                            let i = g.children@[j] as int;
                            assert(clear_started_at(self.components@, i + GRID_WIDTH) == clear_started_at(before, i + GRID_WIDTH));
                            assert(clear_started_at(self.components@, i - GRID_WIDTH) == clear_started_at(before, i - GRID_WIDTH));
                            assert(clear_started_at(self.components@, i + 1) == clear_started_at(before, i + 1));
                            assert(clear_started_at(self.components@, i - 1) == clear_started_at(before, i - 1));
                        }
                    }
                    let touches = self.garbage_touches_clear(&g);
                    proof {
                        if touches {
                            let j = choose|j: int| 0 <= j < g.children@.len() && #[trigger] child_touches_clear(self.components@, g.children@[j] as int, g.is_2d);
                            assert(child_touches_clear(before, g.children@[j] as int, g.is_2d));
                        } else {
                            assert forall|j: int| 0 <= j < g.children@.len() implies !#[trigger] child_touches_clear(before, g.children@[j] as int, g.is_2d) by {
                                assert(!child_touches_clear(self.components@, g.children@[j] as int, g.is_2d));
                            }
                        }
                        assert(touches == garbage_clears(before, glist[k as int], self.id));
                    }
                    if touches {
                        let count = g.children.len();
                        let lowest = g.lowest();
                        let mut j: usize = 0;
                        while j < count
                            invariant
                                0 <= j <= count,
                                count == g.children@.len(),
                                count <= GRID_TOTAL,
                                g == glist[k as int],
                                lowest@ == g.lowest_spec(),
                                forall|jj: int| 0 <= jj < count ==> #[trigger] g.children@[jj] < GRID_TOTAL,
                                mid.len() == GRID_TOTAL,
                                self.components@ == mark_children(mid, g, j as int),
                                self.id == old(self).id,
                                self.combo_highlight == old(self).combo_highlight,
                                self.push_counter == old(self).push_counter,
                                self.push_amount == old(self).push_amount,
                                self.push_raise == old(self).push_raise,
                                self.cursor == old(self).cursor,
                                self.rng == old(self).rng,
                                self.rng.valid(),
                            decreases count - j,
                        {
                            proof {
                                lemma_mark_children_keeps(mid, g, j as int);
                            }
                            let child_index = g.children[j];
                            if let Component::Child(child) = self.components[child_index] {
                                let randomize = contains_index(&lowest, child_index);
                                self.components.set(child_index, Component::Child(Child {
                                    hframe: if g.is_2d { 9 } else { 3 },
                                    counter: 0,
                                    finished: false,
                                    start_time: (count - 1 - j) as u32 * CLEAR_TIME,
                                    randomize_at_end: randomize,
                                    ..child
                                }));
                            }
                            j = j + 1;
                        }
                        g.state = GarbageState::Clear { counter: 0, end_time: (count as u32 + 1) * CLEAR_TIME, finished: false };
                        proof {
                            lemma_mark_children_keeps(mid, g, count as int);
                        }
                    }
                    garbage_system.list.set_and_swap(k, &mut g);
                }
            }
            proof {
                lemma_clears_upto_keeps(before, glist, self.id, n as int + 1);
            }
            n = n + 1;
        }
    }

    /// a garbage of the grid whose clear finished becomes idle; the first such garbage with no
    /// children left is removed from the list, and the garbages after it stay as they are
    pub fn garbage_resolve_clear(&mut self, garbage_system: &mut GarbageSystem)
        ensures
            *final(self) == *old(self),
            ({
                let l = old(garbage_system).list@;
                let f = first_cleared_out(l, old(self).id);
                let nl = final(garbage_system).list@;
                &&& nl.len() == if f < l.len() { l.len() - 1 } else { l.len() as int }
                &&& forall|k: int| 0 <= k < f ==> same_but_state(#[trigger] nl[k], l[k]) && nl[k].state == clear_resolved_state(l[k], old(self).id)
                &&& forall|k: int| f <= k < nl.len() ==> #[trigger] nl[k] == l[k + 1]
            }),
    {
        let len = garbage_system.list.len();
        let ghost glist = garbage_system.list@;
        proof {
            lemma_first_cleared_out(glist, self.id);
        }
        let ghost f = first_cleared_out(glist, self.id);
        let mut k: usize = 0;
        while k < len
            invariant
                0 <= k <= len,
                len == glist.len(),
                f == first_cleared_out(glist, self.id),
                glist == old(garbage_system).list@,
                self == old(self),
                0 <= f <= len,
                forall|kk: int| 0 <= kk < f ==> !(clear_done(#[trigger] glist[kk], self.id) && glist[kk].children@.len() == 0),
                f < len ==> clear_done(glist[f], self.id) && glist[f].children@.len() == 0,
                k <= f,
                garbage_system.list@.len() == len,
                forall|kk: int| k <= kk < len ==> #[trigger] garbage_system.list@[kk] == glist[kk],
                forall|kk: int| 0 <= kk < k ==> same_but_state(#[trigger] garbage_system.list@[kk], glist[kk])
                    && garbage_system.list@[kk].state == clear_resolved_state(glist[kk], self.id),
            decreases len - k,
        {
            if garbage_system.list[k].parent_id == self.id {
                if let GarbageState::Clear { finished, .. } = garbage_system.list[k].state {
                    if finished {
                        if garbage_system.list[k].children.len() == 0 {
                            assert(k == f);
                            let ghost prev = garbage_system.list@;
                            garbage_system.list.remove(k);
                            assert(garbage_system.list@ == prev.remove(k as int));
                            assert(garbage_system.list@.len() == glist.len() - 1);
                            assert(f < glist.len());
                            assert(glist == old(garbage_system).list@);
                            assert forall|kk: int| f <= kk < garbage_system.list@.len() implies #[trigger] garbage_system.list@[kk] == glist[kk + 1] by {
                                assert(garbage_system.list@[kk] == prev[kk + 1]);
                            }
                            assert forall|kk: int| 0 <= kk < f implies same_but_state(#[trigger] garbage_system.list@[kk], glist[kk])
                                && garbage_system.list@[kk].state == clear_resolved_state(glist[kk], self.id) by {
                                assert(garbage_system.list@[kk] == prev[kk]);
                            }
                            return;
                        }
                        let mut g = Garbage::new(0, Vec::new());
                        garbage_system.list.set_and_swap(k, &mut g);
                        g.state = GarbageState::Idle;
                        garbage_system.list.set_and_swap(k, &mut g);
                    }
                }
            }
            k = k + 1;
        }
    }
}

} // verus!
