use vstd::prelude::*;
use crate::helpers::data::{GRID_TOTAL, GRID_WIDTH, GRID_HEIGHT, SWAP_TIME, LAND_TIME, HANG_TIME, CLEAR_TIME};
use crate::scripts::combo_highlight::{ComboData, ComboVariant, COMBO_APPEAR_TIME};
use crate::scripts::block::{Block, BlockState};
use crate::scripts::component::{Component, swap_components};
use crate::scripts::garbage::{Garbage, GarbageSystem, GarbageState, same_but_state};
use crate::scripts::grid::{Grid, field_valid, field_choice_spec};
use crate::scripts::component::spawned;

verus! {

/// a block whose swap animation ended
pub open spec fn swap_finished(c: Component) -> bool {
    c matches Component::Block { state: BlockState::Swap { counter, .. }, .. } && counter >= SWAP_TIME - 1
}

/// the direction of a swapping block, 0 for anything else
pub open spec fn swap_direction(c: Component) -> int {
    match c {
        Component::Block { state: BlockState::Swap { direction, .. }, .. } => direction as int,
        _ => 0,
    }
}

/// a block that is idle again with its swap offset back at 0, anything else stays
pub open spec fn settled(c: Component) -> Component {
    match c {
        Component::Block { block, .. } => Component::Block { block: Block { swap_offset: 0, ..block }, state: BlockState::Idle },
        _ => c,
    }
}

/// the swap of the component at `i` is resolved: it trades places with its neighbor in the
/// swap direction, and both end up idle with no swap offset
pub open spec fn swap_step(c: Seq<Component>, i: int) -> Seq<Component> {
    if swap_finished(c[i]) {
        let next = i + swap_direction(c[i]);
        let traded = c.update(i, c[next]).update(next, settled(c[i]));
        traded.update(i, settled(traded[i]))
    } else {
        c
    }
}

/// the components after the swaps of the first `n` spaces are resolved, in index order
pub open spec fn resolve_swaps(c: Seq<Component>, n: int) -> Seq<Component>
    decreases n,
{
    if n <= 0 {
        c
    } else {
        swap_step(resolve_swaps(c, n - 1), n - 1)
    }
}

/// every finished swap of the grid trades with a space of the grid
pub open spec fn swaps_in_bounds(c: Seq<Component>) -> bool {
    forall|i: int| 0 <= i < c.len() && #[trigger] swap_finished(c[i]) ==> 0 <= i + swap_direction(c[i]) < c.len()
}

/// an idle block
pub open spec fn is_idle_block(c: Component) -> bool {
    c matches Component::Block { state: BlockState::Idle, .. }
}

proof fn lemma_resolve_swaps_ahead(c: Seq<Component>, n: int)
    requires
        0 <= n <= c.len(),
        swaps_in_bounds(c),
    ensures
        resolve_swaps(c, n).len() == c.len(),
        forall|j: int| n <= j < c.len() ==> (#[trigger] resolve_swaps(c, n)[j] == c[j] || is_idle_block(resolve_swaps(c, n)[j])),
    decreases n,
{
    if n > 0 {
        lemma_resolve_swaps_ahead(c, n - 1);
        let prev = resolve_swaps(c, n - 1);
        let i = n - 1;
        if swap_finished(prev[i]) {
            assert(prev[i] == c[i] || is_idle_block(prev[i]));
            assert(prev[i] == c[i]);
            let next = i + swap_direction(prev[i]);
            let traded = prev.update(i, prev[next]).update(next, settled(prev[i]));
            assert forall|j: int| n <= j < c.len() implies (#[trigger] resolve_swaps(c, n)[j] == c[j] || is_idle_block(resolve_swaps(c, n)[j])) by {
                if j == next {
                    assert(is_idle_block(settled(prev[i])));
                } else {
                    assert(resolve_swaps(c, n)[j] == prev[j]);
                }
            }
        }
    }
}

/// the bottom-up, right-to-left scan order over all spaces but the bottom row:
/// columns from the right, each from the second lowest row upwards
pub open spec fn scan_index(p: int) -> int {
    (GRID_HEIGHT - 2 - p % (GRID_HEIGHT - 1)) * GRID_WIDTH + (GRID_WIDTH - 1 - p / (GRID_HEIGHT - 1))
}

/// amount of spaces in the scan order
pub open spec fn scan_len() -> int {
    (GRID_TOTAL - GRID_WIDTH) as int
}

/// a falling block falls into the empty space below it, taking the chain size of the empty
/// space along; a falling block with nothing empty below lands
pub open spec fn fall_step(c: Seq<Component>, i: int) -> Seq<Component> {
    match c[i] {
        Component::Block { block, state: BlockState::Fall } => match c[i + GRID_WIDTH] {
            Component::Empty { size, alive } => {
                let emptied = Component::Empty { size: 1, alive: if block.saved_chain.is_some() { false } else { alive } };
                c.update(i, emptied).update(
                    i + GRID_WIDTH,
                    Component::Block { block: Block { saved_chain: Some(size), ..block }, state: BlockState::Fall },
                )
            },
            _ => c.update(i, Component::Block { block, state: BlockState::Land { counter: 0 } }),
        },
        _ => c,
    }
}

/// the components after the first `n` spaces of the scan order are resolved by `step`
pub open spec fn resolve_falls(c: Seq<Component>, n: int) -> Seq<Component>
    decreases n,
{
    if n <= 0 {
        c
    } else {
        fall_step(resolve_falls(c, n - 1), scan_index(n - 1))
    }
}

/// wether the blocks at scan position `n` and above in its column fall: a finished hang starts
/// the fall of the idle blocks above it in its column, anything else but a garbage child stops
/// it, and each column starts without a fall
pub open spec fn fall_flag(c: Seq<Component>, n: int) -> bool
    decreases n,
{
    if n <= 0 || n % (GRID_HEIGHT - 1) as int == 0 {
        false
    } else {
        let prev = fall_flag(c, n - 1);
        match c[scan_index(n - 1)] {
            Component::Block { state: BlockState::Hang { counter }, .. } => if counter >= HANG_TIME { true } else { prev },
            Component::Block { state: BlockState::Idle, .. } => prev,
            Component::Block { .. } => false,
            Component::Child(_) => prev,
            _ => false,
        }
    }
}

/// a block after the hang resolve, given wether the blocks below it fall: a block falls once
/// it has hung for `HANG_TIME` frames
pub open spec fn hang_resolved(c: Component, falling_below: bool) -> Component {
    match c {
        Component::Block { block, state: BlockState::Hang { counter } } =>
            if counter >= HANG_TIME { Component::Block { block, state: BlockState::Fall } } else { c },
        Component::Block { block, state: BlockState::Idle } =>
            if falling_below { Component::Block { block, state: BlockState::Fall } } else { c },
        _ => c,
    }
}

/// the scan position of a space above the bottom row
pub open spec fn scan_position(i: int) -> int {
    (GRID_WIDTH - 1 - i % GRID_WIDTH as int) * (GRID_HEIGHT - 1) + (GRID_HEIGHT - 2 - i / GRID_WIDTH as int)
}

/// a garbage child at the scanned space is reached by a fall from below
pub open spec fn child_reached(c: Seq<Component>, i: int) -> bool {
    &&& 0 <= i < GRID_TOTAL - GRID_WIDTH
    &&& c[i] matches Component::Child(_)
    &&& fall_flag(c, scan_position(i))
}

proof fn lemma_scan_index(p: int)
    requires
        0 <= p < scan_len(),
    ensures
        0 <= scan_index(p) < GRID_TOTAL - GRID_WIDTH,
        scan_position(scan_index(p)) == p,
{
    let x = GRID_WIDTH - 1 - p / (GRID_HEIGHT - 1);
    let y = GRID_HEIGHT - 2 - p % (GRID_HEIGHT - 1);
    assert(0 <= x < 6 && 0 <= y < 11);
    assert((y * 6 + x) % 6 == x && (y * 6 + x) / 6 == y) by (nonlinear_arith)
        requires 0 <= x < 6, 0 <= y;
    assert(p == (p / 11) * 11 + p % 11) by (nonlinear_arith);
}

proof fn lemma_scan_position(i: int)
    requires
        0 <= i < GRID_TOTAL - GRID_WIDTH,
    ensures
        0 <= scan_position(i) < scan_len(),
        scan_index(scan_position(i)) == i,
{
    let x = i % 6;
    let y = i / 6;
    assert(i == y * 6 + x) by (nonlinear_arith)
        requires x == i % 6, y == i / 6;
    assert(0 <= y < 11);
    let p = (5 - x) * 11 + (10 - y);
    assert(p / 11 == 5 - x && p % 11 == 10 - y) by (nonlinear_arith)
        requires p == (5 - x) * 11 + (10 - y), 0 <= x < 6, 0 <= y < 11;
}

proof fn lemma_resolve_falls_len(c: Seq<Component>, n: int)
    requires
        c.len() == GRID_TOTAL,
        0 <= n <= scan_len(),
    ensures
        resolve_falls(c, n).len() == GRID_TOTAL,
    decreases n,
{
    if n > 0 {
        lemma_resolve_falls_len(c, n - 1);
        lemma_scan_index(n - 1);
    }
}

/// the space one row up from a scanned space is scanned right after it
proof fn lemma_scan_position_above(i: int)
    requires
        GRID_WIDTH <= i < GRID_TOTAL - GRID_WIDTH,
    ensures
        scan_position(i - GRID_WIDTH) == scan_position(i) + 1,
{
    assert((i - 6) % 6 == i % 6 && (i - 6) / 6 == i / 6 - 1) by (nonlinear_arith)
        requires i >= 6;
}

/// a space stays as the scan from position `m` left it up to position `n` when the scanned
/// space right above it holds no falling block when it is scanned, and when it is scanned itself
/// it holds no falling block
proof fn lemma_falls_keep(c: Seq<Component>, m: int, n: int, x: int)
    requires
        c.len() == GRID_TOTAL,
        0 <= m <= n <= scan_len(),
        0 <= x < GRID_TOTAL,
        forall|k: int| m <= k < n && #[trigger] scan_index(k) + GRID_WIDTH == x
            ==> !(resolve_falls(c, k)[x - GRID_WIDTH] matches Component::Block { state: BlockState::Fall, .. }),
        forall|k: int| m <= k < n && #[trigger] scan_index(k) == x
            ==> !(resolve_falls(c, m)[x] matches Component::Block { state: BlockState::Fall, .. }),
    ensures
        resolve_falls(c, n)[x] == resolve_falls(c, m)[x],
    decreases n - m,
{
    if n > m {
        lemma_falls_keep(c, m, n - 1, x);
        lemma_resolve_falls_len(c, n - 1);
        lemma_scan_index(n - 1);
        let r = resolve_falls(c, n - 1);
        let s = scan_index(n - 1);
        assert(resolve_falls(c, n) == fall_step(r, s));
    }
}

/// a space that holds no falling block and has no falling block right above it keeps what it
/// holds through the fall step
pub(crate) proof fn lemma_falls_keep_unmoved(c: Seq<Component>, i: int)
    requires
        c.len() == GRID_TOTAL,
        0 <= i < GRID_TOTAL,
        !(c[i] matches Component::Block { state: BlockState::Fall, .. }),
        i >= GRID_WIDTH ==> !(c[i - GRID_WIDTH] matches Component::Block { state: BlockState::Fall, .. }),
    ensures
        resolve_falls(c, scan_len())[i] == c[i],
{
    let w = GRID_WIDTH as int;
    if i >= w {
        let y = i - w;
        let q = scan_position(y);
        lemma_scan_position(y);
        assert forall|k: int| 0 <= k < q && #[trigger] scan_index(k) + w == y
            implies !(resolve_falls(c, k)[y - w] matches Component::Block { state: BlockState::Fall, .. }) by {
            lemma_scan_index(k);
            lemma_scan_position_above(y);
        }
        assert forall|k: int| 0 <= k < q && #[trigger] scan_index(k) == y
            implies !(resolve_falls(c, 0)[y] matches Component::Block { state: BlockState::Fall, .. }) by {
            lemma_scan_index(k);
        }
        lemma_falls_keep(c, 0, q, y);
        assert forall|k: int| 0 <= k < scan_len() && #[trigger] scan_index(k) + w == i
            implies !(resolve_falls(c, k)[i - w] matches Component::Block { state: BlockState::Fall, .. }) by {
            lemma_scan_index(k);
        }
    } else {
        assert forall|k: int| 0 <= k < scan_len() && #[trigger] scan_index(k) + w == i
            implies !(resolve_falls(c, k)[i - w] matches Component::Block { state: BlockState::Fall, .. }) by {
            lemma_scan_index(k);
        }
    }
    assert forall|k: int| 0 <= k < scan_len() && #[trigger] scan_index(k) == i
        implies !(resolve_falls(c, 0)[i] matches Component::Block { state: BlockState::Fall, .. }) by {
    }
    lemma_falls_keep(c, 0, scan_len(), i);
}

/// a falling block with an empty space below falls exactly one row in the fall step of a
/// frame: the scan runs bottom up, so the block lands in the space below, falling on and
/// carrying that space's chain size, and nothing moves it further in the same frame
pub proof fn lemma_fall_one_row(c: Seq<Component>, i: int)
    requires
        c.len() == GRID_TOTAL,
        0 <= i < GRID_TOTAL - GRID_WIDTH,
        c[i] is Block,
        c[i]->state == BlockState::Fall,
        c[i + GRID_WIDTH] is Empty,
    ensures
        resolve_falls(c, scan_len())[i + GRID_WIDTH] == (Component::Block {
            block: Block { saved_chain: Some(c[i + GRID_WIDTH]->size), ..c[i]->block },
            state: BlockState::Fall,
        }),
{
    let w = GRID_WIDTH as int;
    let p = scan_position(i);
    lemma_scan_position(i);
    assert forall|k: int| 0 <= k < p implies #[trigger] scan_index(k) + w != i by {
        lemma_scan_index(k);
        if scan_index(k) + w == i {
            lemma_scan_position_above(i);
        }
    }
    assert forall|k: int| 0 <= k < p && #[trigger] scan_index(k) == i
        implies !(resolve_falls(c, 0)[i] matches Component::Block { state: BlockState::Fall, .. }) by {
        lemma_scan_index(k);
    }
    lemma_falls_keep(c, 0, p, i);
    assert forall|k: int| 0 <= k < p implies #[trigger] scan_index(k) + w != i + w by {
        lemma_scan_index(k);
    }
    lemma_falls_keep(c, 0, p, i + w);
    lemma_resolve_falls_len(c, p);
    let r = resolve_falls(c, p);
    let moved = fall_step(r, i);
    assert(resolve_falls(c, p + 1) == moved);
    assert(moved[i + w] == (Component::Block {
        block: Block { saved_chain: Some(c[i + w]->size), ..c[i]->block },
        state: BlockState::Fall,
    }));
    assert forall|k: int| p + 1 <= k < scan_len() implies #[trigger] scan_index(k) + w != i + w by {
        lemma_scan_index(k);
    }
    assert forall|k: int| p + 1 <= k < scan_len() && #[trigger] scan_index(k) == i + w
        implies !(resolve_falls(c, p + 1)[i + w] matches Component::Block { state: BlockState::Fall, .. }) by {
        lemma_scan_index(k);
        lemma_scan_position(i + w);
        lemma_scan_position_above(i + w);
    }
    lemma_falls_keep(c, p + 1, scan_len(), i + w);
}

/// the space at scan position `q` holds a garbage child of the given children that a fall
/// from below reaches
pub open spec fn reaches_garbage(c: Seq<Component>, children: Seq<usize>, q: int) -> bool {
    &&& c[scan_index(q)] matches Component::Child(_)
    &&& fall_flag(c, q)
    &&& children.contains(scan_index(q) as usize)
}

/// the state of a garbage after the hang resolve of the grid scanned the first `n` positions:
/// an idle garbage of the grid with a child reached by a fall starts falling
pub open spec fn garbage_after_hangs(g: Garbage, id: usize, c: Seq<Component>, n: int) -> GarbageState {
    if g.parent_id == id && g.state is Idle && exists|q: int| 0 <= q < n && #[trigger] reaches_garbage(c, g.children@, q) {
        GarbageState::Fall
    } else {
        g.state
    }
}

/// sets every idle garbage of the grid that holds the child index to fall
fn fall_garbages_at(list: &mut Vec<Garbage>, id: usize, index: usize)
    ensures
        final(list)@.len() == old(list)@.len(),
        forall|k: int| 0 <= k < old(list)@.len() ==> same_but_state(#[trigger] final(list)@[k], old(list)@[k]),
        forall|k: int| 0 <= k < old(list)@.len() ==> (#[trigger] final(list)@[k]).state == if old(list)@[k].parent_id == id
            && old(list)@[k].state is Idle && old(list)@[k].children@.contains(index) {
            GarbageState::Fall
        } else {
            old(list)@[k].state
        },
{
    let len = list.len();
    let mut k: usize = 0;
    while k < len
        invariant
            0 <= k <= len,
            len == list@.len(),
            len == old(list)@.len(),
            forall|kk: int| 0 <= kk < len ==> same_but_state(#[trigger] list@[kk], old(list)@[kk]),
            forall|kk: int| 0 <= kk < len ==> (#[trigger] list@[kk]).state == if kk < k && old(list)@[kk].parent_id == id
                && old(list)@[kk].state is Idle && old(list)@[kk].children@.contains(index) {
                GarbageState::Fall
            } else {
                old(list)@[kk].state
            },
        decreases len - k,
    {
        if list[k].parent_id == id {
            if let GarbageState::Idle = list[k].state {
                if contains_index(&list[k].children, index) {
                    let mut g = Garbage::new(0, Vec::new());
                    list.set_and_swap(k, &mut g);
                    g.state = GarbageState::Fall;
                    list.set_and_swap(k, &mut g);
                }
            }
        }
        k = k + 1;
    }
}

/// wether the list holds the index
pub fn contains_index(v: &Vec<usize>, index: usize) -> (r: bool)
    ensures
        r == v@.contains(index),
{
    let len = v.len();
    let mut i: usize = 0;
    while i < len
        invariant
            0 <= i <= len,
            len == v@.len(),
            forall|j: int| 0 <= j < i ==> v@[j] != index,
        decreases len - i,
    {
        if v[i] == index {
            return true;
        }
        i = i + 1;
    }
    false
}

/// the components a grid is made of from a field
pub open spec fn field_components(field: Seq<Option<u32>>) -> Seq<Component> {
    field.map_values(|o: Option<u32>| spawned(o))
}

/// a freshly generated field holds no three matching blocks in a row or a column: a grid made
/// from it starts with nothing to clear
pub proof fn lemma_fresh_field_no_clears(field: Seq<Option<u32>>, skip_height: usize)
    requires
        field_valid(field, skip_height),
    ensures
        forall|j: int| 0 <= j < GRID_TOTAL ==> !#[trigger] clears(field_components(field), j),
{
    let c = field_components(field);
    let v = clear_vframes(c);
    assert forall|i: int| 0 <= i < GRID_TOTAL implies #[trigger] v[i] == match field[i] {
        Some(x) => x,
        None => 99u32,
    } by {
        assert(c[i] == spawned(field[i]));
    }
    assert forall|i: int| !#[trigger] h_match(v, i) && !v_match(v, i) by {
        if h_match(v, i) {
            assert(v[i] == match field[i] { Some(x) => x, None => 99u32 });
            assert(v[i - 1] == match field[i - 1] { Some(x) => x, None => 99u32 });
            assert(field[i] matches Some(x) && 3 <= x < 8);
            assert(i >= skip_height * GRID_WIDTH);
        }
        if v_match(v, i) {
            assert(v[i] == match field[i] { Some(x) => x, None => 99u32 });
            assert(v[i - GRID_WIDTH] == match field[i - GRID_WIDTH] { Some(x) => x, None => 99u32 });
            assert(field[i] matches Some(x) && 3 <= x < 8);
            assert(i >= skip_height * GRID_WIDTH);
        }
    }
}

pub(crate) proof fn lemma_swaps_untouched(c: Seq<Component>, n: int)
    requires
        0 <= n <= c.len(),
        forall|j: int| 0 <= j < n ==> !#[trigger] swap_finished(c[j]),
    ensures
        resolve_swaps(c, n) == c,
    decreases n,
{
    if n > 0 {
        lemma_swaps_untouched(c, n - 1);
    }
}

proof fn lemma_swaps_after(c: Seq<Component>, r: Seq<Component>, i: int, n: int)
    requires
        0 <= i,
        i + 2 <= n <= c.len(),
        resolve_swaps(c, i + 2) == r,
        r.len() == c.len(),
        forall|j: int| i + 2 <= j < c.len() ==> !#[trigger] swap_finished(r[j]),
    ensures
        resolve_swaps(c, n) == r,
    decreases n,
{
    if n > i + 2 {
        lemma_swaps_after(c, r, i, n - 1);
    }
}

/// two blocks swapping toward each other whose swaps ended trade places and go idle, and
/// nothing else moves
pub proof fn lemma_swap_pair_trades(c: Seq<Component>, i: int)
    requires
        c.len() == GRID_TOTAL,
        0 <= i,
        i + 1 < GRID_TOTAL,
        swap_finished(c[i]),
        swap_direction(c[i]) == 1,
        swap_finished(c[i + 1]),
        swap_direction(c[i + 1]) == -1,
        forall|j: int| 0 <= j < GRID_TOTAL && j != i && j != i + 1 ==> !#[trigger] swap_finished(c[j]),
    ensures
        resolve_swaps(c, GRID_TOTAL as int)[i] == settled(c[i + 1]),
        resolve_swaps(c, GRID_TOTAL as int)[i + 1] == settled(c[i]),
        forall|j: int| 0 <= j < GRID_TOTAL && j != i && j != i + 1 ==> #[trigger] resolve_swaps(c, GRID_TOTAL as int)[j] == c[j],
{
    lemma_swaps_untouched(c, i);
    let r = c.update(i, settled(c[i + 1])).update(i + 1, settled(c[i]));
    assert(resolve_swaps(c, i + 1) =~= c.update(i, settled(c[i + 1])).update(i + 1, settled(c[i])));
    assert(!swap_finished(r[i + 1]));
    assert(resolve_swaps(c, i + 2) == r);
    assert forall|j: int| i + 2 <= j < c.len() implies !#[trigger] swap_finished(r[j]) by {
        assert(r[j] == c[j]);
    }
    lemma_swaps_after(c, r, i, GRID_TOTAL as int);
}

/// the vframe a component takes part in clears with: idle blocks and blocks in the first
/// frame of their landing match by vframe, anything else is 99
pub open spec fn clear_vframe(c: Component) -> u32 {
    match c {
        Component::Block { block, state: BlockState::Idle } => block.vframe,
        Component::Block { block, state: BlockState::Land { counter } } => if counter == 1 { block.vframe } else { 99 },
        _ => 99,
    }
}

/// three matching spaces end at `i` in a row, left of it
pub open spec fn h_match(v: Seq<u32>, i: int) -> bool {
    &&& 0 <= i < GRID_TOTAL - GRID_WIDTH
    &&& i % GRID_WIDTH as int >= 2
    &&& v[i] != 99
    &&& v[i] == v[i - 1]
    &&& v[i] == v[i - 2]
}

/// three matching spaces end at `i` in a column, above it
pub open spec fn v_match(v: Seq<u32>, i: int) -> bool {
    &&& 0 <= i < GRID_TOTAL - GRID_WIDTH
    &&& i / GRID_WIDTH as int >= 2
    &&& v[i] != 99
    &&& v[i] == v[i - GRID_WIDTH]
    &&& v[i] == v[i - 2 * GRID_WIDTH]
}

/// the space is part of three matching spaces in a row or a column, above the bottom row
pub open spec fn in_match(v: Seq<u32>, j: int) -> bool {
    ||| h_match(v, j)
    ||| h_match(v, j + 1)
    ||| h_match(v, j + 2)
    ||| v_match(v, j)
    ||| v_match(v, j + GRID_WIDTH)
    ||| v_match(v, j + 2 * GRID_WIDTH)
}

/// the clear vframes of all components
pub open spec fn clear_vframes(c: Seq<Component>) -> Seq<u32> {
    c.map_values(|x: Component| clear_vframe(x))
}

/// the component at `j` is cleared
pub open spec fn clears(c: Seq<Component>, j: int) -> bool {
    in_match(clear_vframes(c), j)
}

/// a block of color `v` that can take part in a match: an idle block, or a block in the first
/// frame of its landing
pub open spec fn matchable(c: Component, v: u32) -> bool {
    match c {
        Component::Block { block, state: BlockState::Idle } => block.vframe == v,
        Component::Block { block, state: BlockState::Land { counter } } => counter == 1 && block.vframe == v,
        _ => false,
    }
}

/// three matchable blocks of color `v` from `s` on, in a row to the right (`d` is 1) or in a
/// column downwards (`d` is `GRID_WIDTH`), the last of them above the bottom row
pub open spec fn three_match(c: Seq<Component>, s: int, d: int, v: u32) -> bool {
    &&& v != 99
    &&& 0 <= s
    &&& ((d == 1 && s % GRID_WIDTH as int <= GRID_WIDTH - 3) || d == GRID_WIDTH)
    &&& s + 2 * d < GRID_TOTAL - GRID_WIDTH
    &&& matchable(c[s], v)
    &&& matchable(c[s + d], v)
    &&& matchable(c[s + 2 * d], v)
}

/// `after` holds the components `before` after `Grid::block_detect_clear`
pub open spec fn clears_detected(before: Seq<Component>, after: Seq<Component>) -> bool {
    &&& after.len() == GRID_TOTAL
    &&& forall|i: int| 0 <= i < GRID_TOTAL ==> #[trigger] after[i] == if clears(before, i) {
        cleared(before, i)
    } else {
        before[i]
    }
}

proof fn lemma_matchable_vframe(c: Component, v: u32)
    ensures
        matchable(c, v) ==> clear_vframe(c) == v,
        clear_vframe(c) == v && v != 99 ==> matchable(c, v),
{
}

/// three matching blocks in a row or a column all start clearing, keeping their blocks
pub proof fn lemma_three_match_clears(before: Seq<Component>, after: Seq<Component>, s: int, d: int, v: u32)
    requires
        before.len() == GRID_TOTAL,
        clears_detected(before, after),
        three_match(before, s, d, v),
    ensures
        forall|t: int| (t == s || t == s + d || t == s + 2 * d) ==> {
            &&& #[trigger] after[t] matches Component::Block { state: BlockState::Clear { counter: 0, .. }, .. }
            &&& after[t]->block == before[t]->block
        },
{
    let w = GRID_WIDTH as int;
    let vf = clear_vframes(before);
    lemma_matchable_vframe(before[s], v);
    lemma_matchable_vframe(before[s + d], v);
    lemma_matchable_vframe(before[s + 2 * d], v);
    assert(vf[s] == v && vf[s + d] == v && vf[s + 2 * d] == v);
    let e = s + 2 * d;
    if d == 1 {
        assert(e % w == s % w + 2) by (nonlinear_arith)
            requires e == s + 2, s >= 0, s % w <= w - 3, w == 6;
        assert(h_match(vf, e));
    } else {
        assert(e / w == s / w + 2) by (nonlinear_arith)
            requires e == s + 2 * w, s >= 0, w == 6;
        assert(h_match(vf, e) || v_match(vf, e));
        assert(v_match(vf, e));
    }
    assert(in_match(vf, s));
    assert(in_match(vf, s + d));
    assert(in_match(vf, e));
}

/// only blocks of three matching blocks in a row or a column change in a clear detection, and
/// each that changes starts clearing, keeping its block
pub proof fn lemma_clear_needs_match(before: Seq<Component>, after: Seq<Component>, j: int)
    requires
        before.len() == GRID_TOTAL,
        clears_detected(before, after),
        0 <= j < GRID_TOTAL,
        after[j] != before[j],
    ensures
        after[j] matches Component::Block { state: BlockState::Clear { counter: 0, .. }, .. },
        after[j]->block == before[j]->block,
        exists|s: int, d: int, v: u32| #[trigger] three_match(before, s, d, v) && (j == s || j == s + d || j == s + 2 * d),
{
    let w = GRID_WIDTH as int;
    let vf = clear_vframes(before);
    assert(clears(before, j));
    let v = vf[j];
    assert(v == clear_vframe(before[j]));
    if h_match(vf, j) || h_match(vf, j + 1) || h_match(vf, j + 2) {
        let e = if h_match(vf, j) { j } else if h_match(vf, j + 1) { j + 1 } else { j + 2 };
        let st = e - 2;
        assert(st % w <= w - 3) by (nonlinear_arith)
            requires st == e - 2, e >= 0, e % w >= 2, w == 6;
        assert(st >= 0) by (nonlinear_arith)
            requires st == e - 2, e >= 0, e % w >= 2, w == 6;
        lemma_matchable_vframe(before[st], v);
        lemma_matchable_vframe(before[st + 1], v);
        lemma_matchable_vframe(before[st + 2], v);
        assert(three_match(before, st, 1, v));
    } else {
        let e = if v_match(vf, j) { j } else if v_match(vf, j + w) { j + w } else { j + 2 * w };
        let st = e - 2 * w;
        assert(st >= 0) by (nonlinear_arith)
            requires st == e - 2 * w, e >= 0, e / w >= 2, w == 6;
        lemma_matchable_vframe(before[st], v);
        lemma_matchable_vframe(before[st + w], v);
        lemma_matchable_vframe(before[st + 2 * w], v);
        assert(three_match(before, st, w, v));
    }
}

/// a space changes in a clear detection exactly when it clears
proof fn lemma_changed_iff_clears(before: Seq<Component>, after: Seq<Component>, i: int)
    requires
        before.len() == GRID_TOTAL,
        clears_detected(before, after),
        0 <= i < GRID_TOTAL,
    ensures
        clears(before, i) <==> after[i] != before[i],
{
    let vf = clear_vframes(before);
    if clears(before, i) {
        assert(vf[i] != 99);
        assert(vf[i] == clear_vframe(before[i]));
    }
}

proof fn lemma_rank_step(c: Seq<Component>, j: int, k: int)
    requires
        0 <= j < k,
        clears(c, j),
        forall|i: int| j < i < k ==> !#[trigger] clears(c, i),
    ensures
        clear_rank(c, k) == clear_rank(c, j) + 1,
    decreases k,
{
    if k > j + 1 {
        lemma_rank_step(c, j, k - 1);
        assert(!clears(c, k - 1));
    }
}

proof fn lemma_rank_none(c: Seq<Component>, n: int)
    requires
        0 <= n,
        forall|i: int| 0 <= i < n ==> !#[trigger] clears(c, i),
    ensures
        clear_rank(c, n) == 0,
    decreases n,
{
    if n > 0 {
        lemma_rank_none(c, n - 1);
        assert(!clears(c, n - 1));
    }
}

/// the clear times of a clear detection: blocks start their clear one after another in index
/// order, one clear time apart, the first right away, and all end together one clear time after
/// the last one started
pub proof fn lemma_clear_times(before: Seq<Component>, after: Seq<Component>)
    requires
        before.len() == GRID_TOTAL,
        clears_detected(before, after),
    ensures
        forall|j: int| 0 <= j < GRID_TOTAL && #[trigger] after[j] != before[j]
            && (forall|i: int| 0 <= i < j ==> after[i] == before[i])
            ==> (after[j] matches Component::Block { state: BlockState::Clear { start_time, .. }, .. } && start_time == 0),
        forall|j: int, k: int| 0 <= j < k < GRID_TOTAL && #[trigger] after[j] != before[j] && #[trigger] after[k] != before[k]
            && (forall|i: int| j < i < k ==> after[i] == before[i])
            ==> (after[j] matches Component::Block { state: BlockState::Clear { start_time: sj, end_time: ej, .. }, .. }
                && after[k] matches Component::Block { state: BlockState::Clear { start_time: sk, end_time: ek, .. }, .. }
                && sk == sj + CLEAR_TIME && ek == ej),
        forall|m: int| 0 <= m < GRID_TOTAL && #[trigger] after[m] != before[m]
            && (forall|i: int| m < i < GRID_TOTAL ==> after[i] == before[i])
            ==> (after[m] matches Component::Block { state: BlockState::Clear { start_time, end_time, .. }, .. }
                && end_time == start_time + CLEAR_TIME),
{
    let t = GRID_TOTAL as int;
    lemma_clear_rank_bound(before, t);
    assert forall|j: int| 0 <= j < GRID_TOTAL && #[trigger] after[j] != before[j]
        && (forall|i: int| 0 <= i < j ==> after[i] == before[i])
        implies (after[j] matches Component::Block { state: BlockState::Clear { start_time, .. }, .. } && start_time == 0) by {
        lemma_changed_iff_clears(before, after, j);
        assert forall|i: int| 0 <= i < j implies !#[trigger] clears(before, i) by {
            lemma_changed_iff_clears(before, after, i);
        }
        lemma_rank_none(before, j);
    }
    assert forall|j: int, k: int| 0 <= j < k < GRID_TOTAL && #[trigger] after[j] != before[j] && #[trigger] after[k] != before[k]
        && (forall|i: int| j < i < k ==> after[i] == before[i])
        implies (after[j] matches Component::Block { state: BlockState::Clear { start_time: sj, end_time: ej, .. }, .. }
            && after[k] matches Component::Block { state: BlockState::Clear { start_time: sk, end_time: ek, .. }, .. }
            && sk == sj + CLEAR_TIME && ek == ej) by {
        lemma_changed_iff_clears(before, after, j);
        lemma_changed_iff_clears(before, after, k);
        assert forall|i: int| j < i < k implies !#[trigger] clears(before, i) by {
            lemma_changed_iff_clears(before, after, i);
        }
        lemma_rank_step(before, j, k);
        lemma_clear_rank_bound(before, k);
    }
    assert forall|m: int| 0 <= m < GRID_TOTAL && #[trigger] after[m] != before[m]
        && (forall|i: int| m < i < GRID_TOTAL ==> after[i] == before[i])
        implies (after[m] matches Component::Block { state: BlockState::Clear { start_time, end_time, .. }, .. }
            && end_time == start_time + CLEAR_TIME) by {
        lemma_changed_iff_clears(before, after, m);
        assert forall|i: int| m < i < t implies !#[trigger] clears(before, i) by {
            lemma_changed_iff_clears(before, after, i);
        }
        lemma_rank_step(before, m, t);
        lemma_clear_rank_bound(before, m);
    }
}

/// amount of cleared spaces before `n`
pub open spec fn clear_rank(c: Seq<Component>, n: int) -> nat
    decreases n,
{
    if n <= 0 {
        0
    } else {
        clear_rank(c, n - 1) + if clears(c, n - 1) { 1nat } else { 0nat }
    }
}

/// the saved chain of a component, if it is a block with one
pub open spec fn saved_chain_of(c: Component) -> Option<usize> {
    match c {
        Component::Block { block, .. } => block.saved_chain,
        _ => None,
    }
}

/// the largest saved chain of the cleared spaces before `n`
pub open spec fn clear_chain(c: Seq<Component>, n: int) -> Option<usize>
    decreases n,
{
    if n <= 0 {
        None
    } else {
        let prev = clear_chain(c, n - 1);
        if clears(c, n - 1) {
            match (saved_chain_of(c[n - 1]), prev) {
                (Some(a), Some(b)) => Some(if a >= b { a } else { b }),
                (Some(a), None) => Some(a),
                _ => prev,
            }
        } else {
            prev
        }
    }
}

/// a cleared component starts its clear animation after the ones before it
pub open spec fn cleared(c: Seq<Component>, j: int) -> Component {
    match c[j] {
        Component::Block { block, .. } => Component::Block {
            block,
            state: BlockState::Clear {
                counter: 0,
                start_time: (clear_rank(c, j) * CLEAR_TIME) as u32,
                end_time: (clear_rank(c, GRID_TOTAL as int) * CLEAR_TIME) as u32,
            },
        },
        _ => c[j],
    }
}

/// the combo list after a clear: a chain entry if a cleared block carried a chain, then in front
/// of it a combo entry if more than three blocks cleared
pub open spec fn combos_after_clear(c: Seq<Component>, list: Seq<ComboData>) -> Seq<ComboData> {
    let count = clear_rank(c, GRID_TOTAL as int);
    let with_chain = match clear_chain(c, GRID_TOTAL as int) {
        Some(size) => seq![(ComboData { size: (size + 1) as u32, counter: 0, variant: ComboVariant::Chain, sent: false })] + list,
        None => list,
    };
    if count > 3 {
        seq![(ComboData { size: count as u32, counter: 0, variant: ComboVariant::Combo, sent: false })] + with_chain
    } else {
        with_chain
    }
}

/// every saved chain of the components fits in a `u32` counted one up
pub open spec fn chains_fit(c: Seq<Component>) -> bool {
    forall|i: int| 0 <= i < c.len() ==> (#[trigger] saved_chain_of(c[i]) matches Some(s) ==> s < u32::MAX)
}

/// every clearing block has a clear end time of at least one frame
pub open spec fn clear_ends_set(c: Seq<Component>) -> bool {
    forall|i: int| 0 <= i < c.len() ==> (#[trigger] c[i] matches Component::Block { state: BlockState::Clear { end_time, .. }, .. } ==> end_time >= 1)
}

proof fn lemma_clear_rank_bound(c: Seq<Component>, n: int)
    requires
        0 <= n,
    ensures
        clear_rank(c, n) <= n,
    decreases n,
{
    if n > 0 {
        lemma_clear_rank_bound(c, n - 1);
    }
}

proof fn lemma_clear_chain_bound(c: Seq<Component>, n: int)
    requires
        0 <= n <= c.len(),
        chains_fit(c),
    ensures
        clear_chain(c, n) matches Some(s) ==> s < u32::MAX,
    decreases n,
{
    if n > 0 {
        lemma_clear_chain_bound(c, n - 1);
        assert(saved_chain_of(c[n - 1]) matches Some(s) ==> s < u32::MAX);
    }
}

proof fn lemma_no_clear_no_chain(c: Seq<Component>, n: int)
    requires
        0 <= n,
        clear_rank(c, n) == 0,
    ensures
        clear_chain(c, n) is None,
    decreases n,
{
    if n > 0 {
        lemma_no_clear_no_chain(c, n - 1);
    }
}

proof fn lemma_rank_counts(c: Seq<Component>, j: int, n: int)
    requires
        0 <= j < n,
        clears(c, j),
    ensures
        clear_rank(c, n) >= clear_rank(c, j) + 1,
    decreases n,
{
    if n > j + 1 {
        lemma_rank_counts(c, j, n - 1);
    }
}

/// wether the space is part of three matching clear vframes in a row or a column
fn matches_at(v: &Vec<u32>, j: usize) -> (r: bool)
    requires
        v@.len() == GRID_TOTAL,
        j < GRID_TOTAL,
    ensures
        r == in_match(v@, j as int),
{
    let h = |i: usize| -> (b: bool)
        requires
            i < GRID_TOTAL + 2,
        ensures
            b == h_match(v@, i as int),
    {
        i < GRID_TOTAL - GRID_WIDTH && i % GRID_WIDTH >= 2 && v[i] != 99 && v[i] == v[i - 1] && v[i] == v[i - 2]
    };
    let vm = |i: usize| -> (b: bool)
        requires
            i < GRID_TOTAL + 2 * GRID_WIDTH,
        ensures
            b == v_match(v@, i as int),
    {
        i < GRID_TOTAL - GRID_WIDTH && i / GRID_WIDTH >= 2 && v[i] != 99 && v[i] == v[i - GRID_WIDTH] && v[i] == v[i - 2 * GRID_WIDTH]
    };
    h(j) || h(j + 1) || h(j + 2) || vm(j) || vm(j + GRID_WIDTH) || vm(j + 2 * GRID_WIDTH)
}

impl Grid {
    /// swaps the two components of each finished swap and sets both to idle
    pub fn block_resolve_swap(&mut self)
        requires
            old(self).wf(),
            swaps_in_bounds(old(self).components@),
        ensures
            final(self).wf(),
            final(self).components@ == resolve_swaps(old(self).components@, GRID_TOTAL as int),
            final(self).id == old(self).id,
            final(self).combo_highlight == old(self).combo_highlight,
            final(self).push_counter == old(self).push_counter,
            final(self).push_amount == old(self).push_amount,
            final(self).push_raise == old(self).push_raise,
            final(self).cursor == old(self).cursor,
            final(self).rng == old(self).rng,
    {
        let ghost before = self.components@;
        let mut i: usize = 0;
        while i < GRID_TOTAL
            invariant
                0 <= i <= GRID_TOTAL,
                before.len() == GRID_TOTAL,
                swaps_in_bounds(before),
                self.components@ == resolve_swaps(before, i as int),
                self.id == old(self).id,
                self.combo_highlight == old(self).combo_highlight,
                self.push_counter == old(self).push_counter,
                self.push_amount == old(self).push_amount,
                self.push_raise == old(self).push_raise,
                self.cursor == old(self).cursor,
                self.rng == old(self).rng,
            decreases GRID_TOTAL - i,
        {
            proof {
                lemma_resolve_swaps_ahead(before, i as int);
            }
            let c = self.components[i];
            if let Component::Block { block, state: BlockState::Swap { counter, direction } } = c {
                if counter >= SWAP_TIME - 1 {
                    assert(c == before[i as int]);
                    assert(swap_finished(before[i as int]));
                    assert(0 <= i + direction < GRID_TOTAL);
                    let next = (i as i64 + direction as i64) as usize;
                    self.components.set(i, Component::Block { block: Block { swap_offset: 0, ..block }, state: BlockState::Idle });
                    swap_components(&mut self.components, i, next);
                    if let Component::Block { block, .. } = self.components[i] {
                        self.components.set(i, Component::Block { block: Block { swap_offset: 0, ..block }, state: BlockState::Idle });
                    }
                    assert(self.components@ =~= swap_step(resolve_swaps(before, i as int), i as int));
                }
            }
            i = i + 1;
        }
        proof {
            lemma_resolve_swaps_ahead(before, GRID_TOTAL as int);
        }
    }

    /// lets each falling block fall a row into an empty space, carrying the chain size of the
    /// space along; a falling block with no empty space below lands. Scans columns from the
    /// right, each bottom-up, so a falling stack falls together.
    pub fn block_resolve_fall(&mut self)
        requires
            old(self).wf(),
        ensures
            final(self).wf(),
            final(self).components@ == resolve_falls(old(self).components@, scan_len()),
            final(self).id == old(self).id,
            final(self).combo_highlight == old(self).combo_highlight,
            final(self).push_counter == old(self).push_counter,
            final(self).push_amount == old(self).push_amount,
            final(self).push_raise == old(self).push_raise,
            final(self).cursor == old(self).cursor,
            final(self).rng == old(self).rng,
    {
        let ghost before = self.components@;
        let mut p: usize = 0;
        while p < GRID_TOTAL - GRID_WIDTH
            invariant
                0 <= p <= scan_len(),
                before.len() == GRID_TOTAL,
                self.components@ == resolve_falls(before, p as int),
                self.id == old(self).id,
                self.combo_highlight == old(self).combo_highlight,
                self.push_counter == old(self).push_counter,
                self.push_amount == old(self).push_amount,
                self.push_raise == old(self).push_raise,
                self.cursor == old(self).cursor,
                self.rng == old(self).rng,
            decreases scan_len() - p,
        {
            proof {
                lemma_resolve_falls_len(before, p as int);
                lemma_scan_index(p as int);
            }
            let x = GRID_WIDTH - 1 - p / (GRID_HEIGHT - 1);
            let y = GRID_HEIGHT - 2 - p % (GRID_HEIGHT - 1);
            let i = y * GRID_WIDTH + x;
            assert(i == scan_index(p as int));
            if let Component::Block { block, state: BlockState::Fall } = self.components[i] {
                if let Component::Empty { size, alive } = self.components[i + GRID_WIDTH] {
                    let emptied = Component::Empty { size: 1, alive: if block.saved_chain.is_some() { false } else { alive } };
                    self.components.set(i, emptied);
                    self.components.set(
                        i + GRID_WIDTH,
                        Component::Block { block: Block { saved_chain: Some(size), ..block }, state: BlockState::Fall },
                    );
                } else {
                    self.components.set(i, Component::Block { block, state: BlockState::Land { counter: 0 } });
                }
            }
            p = p + 1;
        }
        proof {
            lemma_resolve_falls_len(before, scan_len());
        }
    }

    /// a landed block becomes idle once its land animation ended
    pub fn block_resolve_land(&mut self)
        requires
            old(self).wf(),
        ensures
            final(self).wf(),
            forall|i: int| 0 <= i < GRID_TOTAL ==> #[trigger] final(self).components@[i] == match old(self).components@[i] {
                Component::Block { block, state: BlockState::Land { counter } } =>
                    if i < GRID_TOTAL - GRID_WIDTH && counter >= LAND_TIME - 1 {
                        Component::Block { block, state: BlockState::Idle }
                    } else {
                        old(self).components@[i]
                    },
                _ => old(self).components@[i],
            },
            final(self).id == old(self).id,
            final(self).combo_highlight == old(self).combo_highlight,
            final(self).push_counter == old(self).push_counter,
            final(self).push_amount == old(self).push_amount,
            final(self).push_raise == old(self).push_raise,
            final(self).cursor == old(self).cursor,
            final(self).rng == old(self).rng,
    {
        let ghost before = self.components@;
        let mut i: usize = 0;
        while i < GRID_TOTAL - GRID_WIDTH
            invariant
                0 <= i <= GRID_TOTAL - GRID_WIDTH,
                before.len() == GRID_TOTAL,
                self.components@.len() == GRID_TOTAL,
                forall|j: int| 0 <= j < GRID_TOTAL ==> #[trigger] self.components@[j] == if j < i {
                    match before[j] {
                        Component::Block { block, state: BlockState::Land { counter } } =>
                            if counter >= LAND_TIME - 1 { Component::Block { block, state: BlockState::Idle } } else { before[j] },
                        _ => before[j],
                    }
                } else {
                    before[j]
                },
                self.id == old(self).id,
                self.combo_highlight == old(self).combo_highlight,
                self.push_counter == old(self).push_counter,
                self.push_amount == old(self).push_amount,
                self.push_raise == old(self).push_raise,
                self.cursor == old(self).cursor,
                self.rng == old(self).rng,
            decreases GRID_TOTAL - GRID_WIDTH - i,
        {
            if let Component::Block { block, state: BlockState::Land { counter } } = self.components[i] {
                if counter >= LAND_TIME - 1 {
                    self.components.set(i, Component::Block { block, state: BlockState::Idle });
                }
            }
            i = i + 1;
        }
    }

    /// an idle block with an empty space below starts to hang
    pub fn block_detect_hang(&mut self)
        requires
            old(self).wf(),
        ensures
            final(self).wf(),
            forall|i: int| 0 <= i < GRID_TOTAL ==> #[trigger] final(self).components@[i] == match old(self).components@[i] {
                Component::Block { block, state: BlockState::Idle } =>
                    if i < GRID_TOTAL - GRID_WIDTH && old(self).components@[i + GRID_WIDTH] is Empty {
                        Component::Block { block, state: BlockState::Hang { counter: 0 } }
                    } else {
                        old(self).components@[i]
                    },
                _ => old(self).components@[i],
            },
            final(self).id == old(self).id,
            final(self).combo_highlight == old(self).combo_highlight,
            final(self).push_counter == old(self).push_counter,
            final(self).push_amount == old(self).push_amount,
            final(self).push_raise == old(self).push_raise,
            final(self).cursor == old(self).cursor,
            final(self).rng == old(self).rng,
    {
        let ghost before = self.components@;
        let mut i: usize = 0;
        while i < GRID_TOTAL - GRID_WIDTH
            invariant
                0 <= i <= GRID_TOTAL - GRID_WIDTH,
                before.len() == GRID_TOTAL,
                self.components@.len() == GRID_TOTAL,
                forall|j: int| 0 <= j < GRID_TOTAL ==> #[trigger] self.components@[j] == if j < i {
                    match before[j] {
                        Component::Block { block, state: BlockState::Idle } =>
                            if before[j + GRID_WIDTH] is Empty { Component::Block { block, state: BlockState::Hang { counter: 0 } } } else { before[j] },
                        _ => before[j],
                    }
                } else {
                    before[j]
                },
                self.id == old(self).id,
                self.combo_highlight == old(self).combo_highlight,
                self.push_counter == old(self).push_counter,
                self.push_amount == old(self).push_amount,
                self.push_raise == old(self).push_raise,
                self.cursor == old(self).cursor,
                self.rng == old(self).rng,
            decreases GRID_TOTAL - GRID_WIDTH - i,
        {
            if let Component::Empty { .. } = self.components[i + GRID_WIDTH] {
                if let Component::Block { block, state: BlockState::Idle } = self.components[i] {
                    self.components.set(i, Component::Block { block, state: BlockState::Hang { counter: 0 } });
                }
            }
            i = i + 1;
        }
    }

    /// a block whose hang ended starts falling and lets the idle blocks above it fall too; a
    /// garbage child above a falling block lets its idle garbage fall. Scans columns from the
    /// right, each bottom-up; the fall goes on past garbage children and stops at anything
    /// else but an idle block.
    pub fn block_resolve_hang(&mut self, garbage_system: &mut GarbageSystem)
        requires
            old(self).wf(),
        ensures
            final(self).wf(),
            forall|i: int| 0 <= i < GRID_TOTAL ==> #[trigger] final(self).components@[i] == if i < GRID_TOTAL - GRID_WIDTH {
                hang_resolved(old(self).components@[i], fall_flag(old(self).components@, scan_position(i)))
            } else {
                old(self).components@[i]
            },
            final(garbage_system).list@.len() == old(garbage_system).list@.len(),
            forall|k: int| 0 <= k < old(garbage_system).list@.len() ==> same_but_state(#[trigger] final(garbage_system).list@[k], old(garbage_system).list@[k]),
            forall|k: int| 0 <= k < old(garbage_system).list@.len() ==> (#[trigger] final(garbage_system).list@[k]).state
                == garbage_after_hangs(old(garbage_system).list@[k], old(self).id, old(self).components@, scan_len()),
            final(self).id == old(self).id,
            final(self).combo_highlight == old(self).combo_highlight,
            final(self).push_counter == old(self).push_counter,
            final(self).push_amount == old(self).push_amount,
            final(self).push_raise == old(self).push_raise,
            final(self).cursor == old(self).cursor,
            final(self).rng == old(self).rng,
    {
        let ghost before = self.components@;
        let ghost glist = garbage_system.list@;
        let mut above_fall = false;
        let mut p: usize = 0;
        while p < GRID_TOTAL - GRID_WIDTH
            invariant
                0 <= p <= scan_len(),
                before.len() == GRID_TOTAL,
                self.components@.len() == GRID_TOTAL,
                above_fall == fall_flag(before, p as int),
                forall|i: int| 0 <= i < GRID_TOTAL ==> #[trigger] self.components@[i] == if i < GRID_TOTAL - GRID_WIDTH && scan_position(i) < p {
                    hang_resolved(before[i], fall_flag(before, scan_position(i)))
                } else {
                    before[i]
                },
                garbage_system.list@.len() == glist.len(),
                forall|k: int| 0 <= k < glist.len() ==> same_but_state(#[trigger] garbage_system.list@[k], glist[k]),
                forall|k: int| 0 <= k < glist.len() ==> (#[trigger] garbage_system.list@[k]).state
                    == garbage_after_hangs(glist[k], self.id, before, p as int),
                self.id == old(self).id,
                self.combo_highlight == old(self).combo_highlight,
                self.push_counter == old(self).push_counter,
                self.push_amount == old(self).push_amount,
                self.push_raise == old(self).push_raise,
                self.cursor == old(self).cursor,
                self.rng == old(self).rng,
            decreases scan_len() - p,
        {
            proof {
                lemma_scan_index(p as int);
            }
            let x = GRID_WIDTH - 1 - p / (GRID_HEIGHT - 1);
            let y = GRID_HEIGHT - 2 - p % (GRID_HEIGHT - 1);
            let i = y * GRID_WIDTH + x;
            assert(i == scan_index(p as int));
            assert(self.components@[i as int] == before[i as int]);
            let ghost list_before = garbage_system.list@;
            match self.components[i] {
                Component::Block { block, state } => {
                    match state {
                        // any hang finished, set to fall and let other normal blocks above it fall too
                        BlockState::Hang { counter } => {
                            if counter >= HANG_TIME {
                                self.components.set(i, Component::Block { block, state: BlockState::Fall });
                                above_fall = true;
                            }
                        },
                        // fall too if below was hang finished
                        BlockState::Idle => {
                            if above_fall {
                                self.components.set(i, Component::Block { block, state: BlockState::Fall });
                            }
                        },
                        // short circuit the fall loop
                        _ => {
                            above_fall = false;
                        },
                    }
                },
                // a garbage child lets its idle garbage fall
                Component::Child(_) => {
                    if above_fall {
                        fall_garbages_at(&mut garbage_system.list, self.id, i);
                    }
                },
                // on empty set to false
                _ => {
                    above_fall = false;
                },
            }
            // the next column starts without a fall from below
            if (p + 1) % (GRID_HEIGHT - 1) == 0 {
                above_fall = false;
            }
            proof {
                assert forall|k: int| 0 <= k < glist.len() implies (#[trigger] garbage_system.list@[k]).state
                    == garbage_after_hangs(glist[k], self.id, before, p + 1) by {
                    let g = glist[k];
                    if g.parent_id == self.id && g.state is Idle {
                        if reaches_garbage(before, g.children@, p as int) {
                            assert(before[scan_index(p as int)] is Child);
                        }
                        if exists|q: int| 0 <= q < p && #[trigger] reaches_garbage(before, g.children@, q) {
                            let q = choose|q: int| 0 <= q < p && #[trigger] reaches_garbage(before, g.children@, q);
                            assert(0 <= q < p + 1 && reaches_garbage(before, g.children@, q));
                        }
                    }
                }
                assert forall|j: int| 0 <= j < GRID_TOTAL implies #[trigger] self.components@[j] == if j < GRID_TOTAL - GRID_WIDTH && scan_position(j) < p + 1 {
                    hang_resolved(before[j], fall_flag(before, scan_position(j)))
                } else {
                    before[j]
                } by {
                    if j < GRID_TOTAL - GRID_WIDTH {
                        lemma_scan_position(j);
                    }
                }
            }
            p = p + 1;
        }
    }

    /// a block whose clear animation ended turns into an empty space that remembers the chain
    /// of the block, counted one up
    pub fn block_resolve_clear(&mut self)
        requires
            old(self).wf(),
            clear_ends_set(old(self).components@),
            chains_fit(old(self).components@),
        ensures
            final(self).wf(),
            forall|i: int| 0 <= i < GRID_TOTAL ==> #[trigger] final(self).components@[i] == match old(self).components@[i] {
                Component::Block { block, state: BlockState::Clear { counter, end_time, .. } } =>
                    if counter >= end_time - 1 {
                        Component::Empty {
                            size: (match block.saved_chain { Some(s) => s, None => 0 } + 1) as usize,
                            alive: true,
                        }
                    } else {
                        old(self).components@[i]
                    },
                _ => old(self).components@[i],
            },
            final(self).id == old(self).id,
            final(self).combo_highlight == old(self).combo_highlight,
            final(self).push_counter == old(self).push_counter,
            final(self).push_amount == old(self).push_amount,
            final(self).push_raise == old(self).push_raise,
            final(self).cursor == old(self).cursor,
            final(self).rng == old(self).rng,
    {
        let ghost before = self.components@;
        let mut i: usize = 0;
        while i < GRID_TOTAL
            invariant
                0 <= i <= GRID_TOTAL,
                before.len() == GRID_TOTAL,
                clear_ends_set(before),
                chains_fit(before),
                self.components@.len() == GRID_TOTAL,
                forall|j: int| 0 <= j < GRID_TOTAL ==> #[trigger] self.components@[j] == if j < i {
                    match before[j] {
                        Component::Block { block, state: BlockState::Clear { counter, end_time, .. } } =>
                            if counter >= end_time - 1 {
                                Component::Empty {
                                    size: (match block.saved_chain { Some(s) => s, None => 0 } + 1) as usize,
                                    alive: true,
                                }
                            } else {
                                before[j]
                            },
                        _ => before[j],
                    }
                } else {
                    before[j]
                },
                self.id == old(self).id,
                self.combo_highlight == old(self).combo_highlight,
                self.push_counter == old(self).push_counter,
                self.push_amount == old(self).push_amount,
                self.push_raise == old(self).push_raise,
                self.cursor == old(self).cursor,
                self.rng == old(self).rng,
            decreases GRID_TOTAL - i,
        {
            if let Component::Block { block, state: BlockState::Clear { counter, end_time, .. } } = self.components[i] {
                assert(end_time >= 1);
                if counter >= end_time - 1 {
                    assert(saved_chain_of(before[i as int]) matches Some(s) ==> s < u32::MAX);
                    let size = match block.saved_chain {
                        Some(s) => s,
                        None => 0,
                    } + 1;
                    self.components.set(i, Component::Empty { size, alive: true });
                }
            }
            i = i + 1;
        }
    }

    /// detects clears: every idle (or just landed) block that is part of three or more blocks
    /// of the same vframe in a row or a column, above the bottom row, starts clearing, one
    /// after another in index order; a chain entry is pushed if a cleared block carried a chain
    /// and a combo entry if more than three blocks cleared
    pub fn block_detect_clear(&mut self)
        requires
            old(self).wf(),
            chains_fit(old(self).components@),
        ensures
            final(self).wf(),
            forall|i: int| 0 <= i < GRID_TOTAL ==> #[trigger] final(self).components@[i] == if clears(old(self).components@, i) {
                cleared(old(self).components@, i)
            } else {
                old(self).components@[i]
            },
            clears_detected(old(self).components@, final(self).components@),
            final(self).combo_highlight.list@ == combos_after_clear(old(self).components@, old(self).combo_highlight.list@),
            final(self).combo_highlight.y_offset == if clear_chain(old(self).components@, GRID_TOTAL as int) is Some
                || clear_rank(old(self).components@, GRID_TOTAL as int) > 3 {
                COMBO_APPEAR_TIME
            } else {
                old(self).combo_highlight.y_offset
            },
            final(self).id == old(self).id,
            final(self).push_counter == old(self).push_counter,
            final(self).push_amount == old(self).push_amount,
            final(self).push_raise == old(self).push_raise,
            final(self).cursor == old(self).cursor,
            final(self).rng == old(self).rng,
    {
        let ghost before = self.components@;
        // the vframes taking part in clears, 99 for anything else
        let mut vframes: Vec<u32> = Vec::new();
        let mut i: usize = 0;
        while i < GRID_TOTAL
            invariant
                0 <= i <= GRID_TOTAL,
                self.components@ == before,
                before.len() == GRID_TOTAL,
                vframes@.len() == i,
                forall|j: int| 0 <= j < i ==> vframes@[j] == clear_vframe(before[j]),
            decreases GRID_TOTAL - i,
        {
            let v = match self.components[i] {
                Component::Block { block, state: BlockState::Idle } => block.vframe,
                Component::Block { block, state: BlockState::Land { counter } } => if counter == 1 { block.vframe } else { 99 },
                _ => 99,
            };
            vframes.push(v);
            i = i + 1;
        }
        assert(vframes@ =~= clear_vframes(before));

        // count the cleared spaces and their largest chain
        let mut length: usize = 0;
        let mut had_chainable: Option<usize> = None;
        let mut i: usize = 0;
        while i < GRID_TOTAL
            invariant
                0 <= i <= GRID_TOTAL,
                self.components@ == before,
                before.len() == GRID_TOTAL,
                vframes@ == clear_vframes(before),
                length == clear_rank(before, i as int),
                had_chainable == clear_chain(before, i as int),
            decreases GRID_TOTAL - i,
        {
            proof {
                lemma_clear_rank_bound(before, i as int);
            }
            if matches_at(&vframes, i) {
                length = length + 1;
                let saved = match self.components[i] {
                    Component::Block { block, .. } => block.saved_chain,
                    _ => None,
                };
                if let Some(new_size) = saved {
                    if let Some(existing_size) = had_chainable {
                        had_chainable = Some(if new_size >= existing_size { new_size } else { existing_size });
                    } else {
                        had_chainable = Some(new_size);
                    }
                }
            }
            i = i + 1;
        }

        if length != 0 {
            proof {
                lemma_clear_rank_bound(before, GRID_TOTAL as int);
                lemma_clear_chain_bound(before, GRID_TOTAL as int);
            }
            let end_time = (length as u32) * CLEAR_TIME;
            let mut rank: usize = 0;
            let mut i: usize = 0;
            while i < GRID_TOTAL
                invariant
                    0 <= i <= GRID_TOTAL,
                    before.len() == GRID_TOTAL,
                    self.components@.len() == GRID_TOTAL,
                    vframes@ == clear_vframes(before),
                    length == clear_rank(before, GRID_TOTAL as int),
                    length <= GRID_TOTAL,
                    end_time == length * CLEAR_TIME,
                    rank == clear_rank(before, i as int),
                    forall|j: int| 0 <= j < GRID_TOTAL ==> #[trigger] self.components@[j] == if j < i && clears(before, j) {
                        cleared(before, j)
                    } else {
                        before[j]
                    },
                    self.id == old(self).id,
                    self.combo_highlight == old(self).combo_highlight,
                    self.push_counter == old(self).push_counter,
                    self.push_amount == old(self).push_amount,
                    self.push_raise == old(self).push_raise,
                    self.cursor == old(self).cursor,
                    self.rng == old(self).rng,
                decreases GRID_TOTAL - i,
            {
                proof {
                    lemma_clear_rank_bound(before, i as int);
                }
                if matches_at(&vframes, i) {
                    if let Component::Block { block, .. } = self.components[i] {
                        self.components.set(i, Component::Block {
                            block,
                            state: BlockState::Clear {
                                counter: 0,
                                start_time: rank as u32 * CLEAR_TIME,
                                end_time,
                            },
                        });
                    }
                    rank = rank + 1;
                }
                i = i + 1;
            }

            // push chainable even if count was 3
            if let Some(size) = had_chainable {
                self.combo_highlight.push_chain(size as u32 + 1);
            }
            // only send combo info if larger than 3
            if length > 3 {
                self.combo_highlight.push_combo(length as u32);
            }
        } else {
            proof {
                assert(clear_chain(before, GRID_TOTAL as int) is None) by {
                    lemma_no_clear_no_chain(before, GRID_TOTAL as int);
                }
                assert forall|j: int| 0 <= j < GRID_TOTAL implies !clears(before, j) by {
                    if clears(before, j) {
                        lemma_rank_counts(before, j, GRID_TOTAL as int);
                    }
                }
                assert(combos_after_clear(before, old(self).combo_highlight.list@) == old(self).combo_highlight.list@);
            }
        }
    }
}

} // verus!
