use vstd::prelude::*;
use crate::helpers::data::{GRID_TOTAL, GRID_WIDTH, GRID_HEIGHT, ATLAS_TILE, PUSH_TIME};
use crate::helpers::math::I2;
use crate::scripts::rng::{Rng, pcg_seeded, pcg_range};
use crate::scripts::block::{Block, BlockState, default_block};
use crate::scripts::component::{Component, spawned};
use crate::scripts::combo_highlight::ComboHighlight;
use crate::scripts::cursor::Cursor;
use crate::scripts::garbage::{Garbage, GarbageSystem, GarbageState, Child, shift_children, same_but_children, shifted_children, default_child, frame_1d, frames_2d};
use crate::scripts::block::{block_step, counter_room};
use crate::helpers::data::{ATLAS_GARBAGE_1D};

verus! {

/// the grid holds all components and updates all the script logic of each component
pub struct Grid {
    pub id: usize,
    /// all components that the player can interact with
    pub components: Vec<Component>,
    /// rendering highlight for combo / chain appearing
    pub combo_highlight: ComboHighlight,
    /// counter till the push_amount is increased
    pub push_counter: u32,
    /// pixel amount of y offset of all pushable components
    pub push_amount: u32,
    /// manual input sent, till a push_upwards has been called
    pub push_raise: bool,
    /// cursor that the player controls inside the grid
    pub cursor: Cursor,
    /// random number generator, each grid has its own generator
    pub rng: Rng,
}

/// a new number of a generated bottom line is accepted: it differs from the block above it
/// and does not complete three equal numbers in a row
pub open spec fn line_choice_spec(i: usize, above: u32, prev1: u32, prev2: u32, candidate: u32) -> bool {
    candidate != above && (i <= 1 || prev1 != prev2 || prev1 != candidate)
}

/// the decision `gen_line` takes on each drawn number
pub fn line_choice_ok(i: usize, above: u32, prev1: u32, prev2: u32, candidate: u32) -> (r: bool)
    ensures
        r == line_choice_spec(i, above, prev1, prev2, candidate),
{
    if candidate != above {
        if i > 1 {
            if prev1 == prev2 {
                prev1 != candidate
            } else {
                true
            }
        } else {
            true
        }
    } else {
        false
    }
}

/// a generated bottom line fits below the given bottom row
pub open spec fn line_valid(bottom: Seq<Component>, line: Seq<u32>) -> bool {
    &&& line.len() == GRID_WIDTH
    &&& forall|i: int| 0 <= i < GRID_WIDTH ==> 3 <= #[trigger] line[i] < 8
    &&& forall|i: int| 0 <= i < GRID_WIDTH ==> (#[trigger] bottom[i] matches Component::Block { block, .. } ==> line_choice_spec(
        i as usize,
        block.vframe,
        if i >= 1 { line[i - 1] } else { 0 },
        if i >= 2 { line[i - 2] } else { 0 },
        line[i],
    ))
}

/// the bottom row of a grid
pub open spec fn bottom_row(comps: Seq<Component>) -> Seq<Component> {
    comps.subrange(GRID_TOTAL - GRID_WIDTH, GRID_TOTAL as int)
}

/// the number `draw_line_vframe` takes and the state it leaves the generator in: numbers in
/// `3..8` are drawn until one is accepted; should `tries` draws in a row be refused, the
/// smallest accepted number is taken without a draw
pub open spec fn line_draw(state: u64, inc: u64, i: usize, above: u32, prev1: u32, prev2: u32, tries: nat) -> (u32, u64)
    decreases tries,
{
    if tries == 0 {
        if line_choice_spec(i, above, prev1, prev2, 3) {
            (3, state)
        } else if line_choice_spec(i, above, prev1, prev2, 4) {
            (4, state)
        } else {
            (5, state)
        }
    } else {
        let d = pcg_range(state, inc, 3, 8);
        if line_choice_spec(i, above, prev1, prev2, d.0) {
            d
        } else {
            line_draw(d.1, inc, i, above, prev1, prev2, (tries - 1) as nat)
        }
    }
}

/// draws numbers in `3..8` until one is accepted by `line_choice_ok`; should `u64::MAX - 1`
/// draws in a row be refused, the smallest accepted number is taken
fn draw_line_vframe(rng: &mut Rng, i: usize, above: u32, prev1: u32, prev2: u32) -> (r: u32)
    requires
        old(rng).valid(),
    ensures
        3 <= r < 8,
        line_choice_spec(i, above, prev1, prev2, r),
        (r, final(rng).state) == line_draw(old(rng).state, old(rng).inc, i, above, prev1, prev2, u64::MAX as nat),
        final(rng).inc == old(rng).inc,
{
    let mut tries: u64 = 0;
    while tries < u64::MAX
        invariant
            rng.inc == old(rng).inc,
            rng.valid(),
            tries <= u64::MAX,
            line_draw(rng.state, rng.inc, i, above, prev1, prev2, (u64::MAX - tries) as nat)
                == line_draw(old(rng).state, old(rng).inc, i, above, prev1, prev2, u64::MAX as nat),
        decreases u64::MAX - tries,
    {
        let ghost before = *rng;
        let n = rng.rand_range(3, 8);
        if line_choice_ok(i, above, prev1, prev2, n) {
            return n;
        }
        assert(line_draw(before.state, before.inc, i, above, prev1, prev2, (u64::MAX - tries) as nat)
            == line_draw(rng.state, rng.inc, i, above, prev1, prev2, (u64::MAX - (tries + 1)) as nat));
        tries = tries + 1;
    }
    if line_choice_ok(i, above, prev1, prev2, 3) {
        3
    } else if line_choice_ok(i, above, prev1, prev2, 4) {
        4
    } else {
        5
    }
}

/// the numbers `gen_line` generates for the first `k` spaces below the bottom row `bottom`, and
/// the state it leaves the generator in: below a block, numbers are drawn until one is
/// accepted; below anything else the first number drawn is taken
pub open spec fn line_gen(bottom: Seq<Component>, state: u64, inc: u64, k: nat) -> (Seq<u32>, u64)
    decreases k,
{
    if k == 0 {
        (Seq::empty(), state)
    } else {
        let before = line_gen(bottom, state, inc, (k - 1) as nat);
        let prev = before.0;
        let i = k - 1;
        let d = match bottom[i] {
            Component::Block { block, .. } => line_draw(
                before.1,
                inc,
                i as usize,
                block.vframe,
                if i >= 1 { prev[i - 1] } else { 0 },
                if i >= 2 { prev[i - 2] } else { 0 },
                u64::MAX as nat,
            ),
            _ => pcg_range(before.1, inc, 3, 8),
        };
        (prev.push(d.0), d.1)
    }
}

/// a new number of a generated field is accepted: it differs from the number left of it and,
/// from the second row on, from the number above it
pub open spec fn field_choice_spec(i: usize, last: Option<u32>, above: Option<u32>, candidate: u32) -> bool {
    Some(candidate) != last && (i <= GRID_WIDTH || above.is_none() || above != Some(candidate))
}

/// the decision `gen_field` takes on each drawn number
pub fn field_choice_ok(i: usize, last: Option<u32>, above: Option<u32>, candidate: u32) -> (r: bool)
    ensures
        r == field_choice_spec(i, last, above, candidate),
{
    if Some(candidate) != last {
        if i > GRID_WIDTH {
            match above {
                Some(a) => a != candidate,
                None => true,
            }
        } else {
            true
        }
    } else {
        false
    }
}

/// the first `k` spaces of the field `gen_field` generates, and the state it leaves the
/// generator in: the skipped rows stay empty; below them a number is drawn until one differs
/// from the one left of it and the one above it, and a space past the first of the second row
/// whose space above is a hole becomes a hole itself when a further draw in `0..5` gives 1
pub open spec fn field_gen(state: u64, inc: u64, skip_height: usize, k: nat) -> (Seq<Option<u32>>, u64)
    decreases k,
{
    if k == 0 {
        (Seq::empty(), state)
    } else {
        let before = field_gen(state, inc, skip_height, (k - 1) as nat);
        let prev = before.0;
        let i = k - 1;
        if i >= skip_height * GRID_WIDTH {
            let last = if i >= 1 { prev[i - 1] } else { None };
            let above = if i > GRID_WIDTH { prev[i - GRID_WIDTH] } else { None };
            let d = field_draw(before.1, inc, i as usize, last, above, u64::MAX as nat);
            if i > GRID_WIDTH && above.is_none() {
                let h = pcg_range(d.1, inc, 0, 5);
                (prev.push(if h.0 == 1 { None } else { Some(d.0) }), h.1)
            } else {
                (prev.push(Some(d.0)), d.1)
            }
        } else {
            (prev.push(None), before.1)
        }
    }
}

/// a generated field: nothing above the skipped rows, numbers in `3..8` below, no number
/// equal to the one left of it or above it, and holes only below holes
pub open spec fn field_valid(field: Seq<Option<u32>>, skip_height: usize) -> bool {
    &&& field.len() == GRID_TOTAL
    &&& forall|i: int| 0 <= i < GRID_TOTAL && i < skip_height * GRID_WIDTH ==> (#[trigger] field[i]).is_none()
    &&& forall|i: int| 0 <= i < GRID_TOTAL ==> (#[trigger] field[i] matches Some(v) ==> 3 <= v < 8)
    &&& forall|i: int| 0 <= i < GRID_TOTAL && i >= skip_height * GRID_WIDTH ==> (#[trigger] field[i] matches Some(v) ==> field_choice_spec(
        i as usize,
        if i >= 1 { field[i - 1] } else { None },
        if i > GRID_WIDTH { field[i - GRID_WIDTH] } else { None },
        v,
    ))
    &&& forall|i: int| 0 <= i < GRID_TOTAL && i >= skip_height * GRID_WIDTH ==> ((#[trigger] field[i]).is_none() ==> (i > GRID_WIDTH && field[i - GRID_WIDTH].is_none()))
}

/// the number `draw_field_vframe` takes and the state it leaves the generator in: numbers in
/// `3..8` are drawn until one is accepted; should `tries` draws in a row be refused, the
/// smallest accepted number is taken without a draw
pub open spec fn field_draw(state: u64, inc: u64, i: usize, last: Option<u32>, above: Option<u32>, tries: nat) -> (u32, u64)
    decreases tries,
{
    if tries == 0 {
        if field_choice_spec(i, last, above, 3) {
            (3, state)
        } else if field_choice_spec(i, last, above, 4) {
            (4, state)
        } else {
            (5, state)
        }
    } else {
        let d = pcg_range(state, inc, 3, 8);
        if field_choice_spec(i, last, above, d.0) {
            d
        } else {
            field_draw(d.1, inc, i, last, above, (tries - 1) as nat)
        }
    }
}

/// draws numbers in `3..8` until one is accepted by `field_choice_ok`; should `u64::MAX - 1`
/// draws in a row be refused, the smallest accepted number is taken
fn draw_field_vframe(rng: &mut Rng, i: usize, last: Option<u32>, above: Option<u32>) -> (r: u32)
    requires
        old(rng).valid(),
    ensures
        3 <= r < 8,
        field_choice_spec(i, last, above, r),
        (r, final(rng).state) == field_draw(old(rng).state, old(rng).inc, i, last, above, u64::MAX as nat),
        final(rng).inc == old(rng).inc,
{
    let mut tries: u64 = 0;
    while tries < u64::MAX
        invariant
            rng.inc == old(rng).inc,
            rng.valid(),
            tries <= u64::MAX,
            field_draw(rng.state, rng.inc, i, last, above, (u64::MAX - tries) as nat)
                == field_draw(old(rng).state, old(rng).inc, i, last, above, u64::MAX as nat),
        decreases u64::MAX - tries,
    {
        let ghost before = *rng;
        let n = rng.rand_range(3, 8);
        if field_choice_ok(i, last, above, n) {
            return n;
        }
        assert(field_draw(before.state, before.inc, i, last, above, (u64::MAX - tries) as nat)
            == field_draw(rng.state, rng.inc, i, last, above, (u64::MAX - (tries + 1)) as nat));
        tries = tries + 1;
    }
    if field_choice_ok(i, last, above, 3) {
        3
    } else if field_choice_ok(i, last, above, 4) {
        4
    } else {
        5
    }
}

/// a component after the grid moved up a row: its vertical offset is back at 0
pub open spec fn lifted(c: Component) -> Component {
    match c {
        Component::Block { block, state } => Component::Block { block: Block { offset_y: 0, ..block }, state },
        Component::Child(ch) => Component::Child(Child { y_offset: 0, ..ch }),
        _ => c,
    }
}

/// a new idle block of the bottom line, offset by the current push amount
pub open spec fn pushed_block(vframe: u32, push_amount: u32) -> Component {
    Component::Block {
        block: Block { vframe, offset_y: -push_amount as i32, ..default_block() },
        state: BlockState::Idle,
    }
}

/// the vframe of a component, 0 for anything but a block
pub open spec fn vframe_of(c: Component) -> u32 {
    match c {
        Component::Block { block, .. } => block.vframe,
        _ => 0,
    }
}

/// a component moved up by the given pixel amount
pub open spec fn raised(c: Component, amount: u32) -> Component {
    match c {
        Component::Block { block, state } => Component::Block { block: Block { offset_y: -amount as i32, ..block }, state },
        Component::Child(ch) => Component::Child(Child { y_offset: -amount as i32, ..ch }),
        _ => c,
    }
}

/// a component after one animation frame
pub open spec fn animated(c: Component) -> Component {
    match c {
        Component::Block { block, state } => Component::Block {
            block: block_step(block, state).0,
            state: block_step(block, state).1,
        },
        _ => c,
    }
}

/// every block state counter can count up
pub open spec fn counters_have_room(comps: Seq<Component>) -> bool {
    forall|i: int| 0 <= i < comps.len() ==> (#[trigger] comps[i] matches Component::Block { state, .. } ==> counter_room(state))
}

/// a block of the grid is clearing
pub open spec fn any_clearing(comps: Seq<Component>) -> bool {
    exists|i: int| 0 <= i < comps.len() && #[trigger] comps[i] matches Component::Block { state: BlockState::Clear { .. }, .. }
}

/// the cursor coordinates can move up a row
pub open spec fn cursor_can_lift(c: Cursor) -> bool {
    c.position.y > 0 ==> (c.last_position.y > i32::MIN && c.goal_position.y >= i32::MIN + ATLAS_TILE)
}

/// the children of all garbages of a grid lie below the top row
pub open spec fn children_below_top(list: Seq<Garbage>, id: usize) -> bool {
    forall|k: int, j: int| 0 <= k < list.len() && list[k].parent_id == id && 0 <= j < list[k].children@.len() ==>
        list[k].children@[j] >= GRID_WIDTH
}

/// the grid after it moved up a row: the components move up with their vertical offset back at
/// 0, the bottom row is the new line of idle blocks offset by `amount` that `line_gen` draws
/// below the old bottom row, the children of the garbages of the grid move up a row and the
/// cursor follows
pub open spec fn pushed_up(before: Grid, before_list: Seq<Garbage>, after: Grid, after_list: Seq<Garbage>, amount: u32) -> bool {
    let bc = before.cursor;
    let ac = after.cursor;
    &&& after.wf()
    &&& forall|i: int| 0 <= i < GRID_TOTAL - GRID_WIDTH ==> #[trigger] after.components@[i] == lifted(before.components@[i + GRID_WIDTH])
    &&& forall|x: int| 0 <= x < GRID_WIDTH ==> #[trigger] after.components@[GRID_TOTAL - GRID_WIDTH + x] == pushed_block(
        vframe_of(after.components@[GRID_TOTAL - GRID_WIDTH + x]),
        amount,
    )
    &&& line_valid(bottom_row(before.components@), bottom_row(after.components@).map_values(|c: Component| vframe_of(c)))
    &&& (bottom_row(after.components@).map_values(|c: Component| vframe_of(c)), after.rng.state) == line_gen(
        bottom_row(before.components@),
        before.rng.state,
        before.rng.inc,
        GRID_WIDTH as nat,
    )
    &&& after_list.len() == before_list.len()
    &&& forall|k: int| 0 <= k < before_list.len() ==> same_but_children(#[trigger] after_list[k], before_list[k])
    &&& forall|k: int| 0 <= k < before_list.len() ==> (#[trigger] after_list[k]).children@ == if before_list[k].parent_id == before.id {
        shifted_children(before_list[k].children@, false)
    } else {
        before_list[k].children@
    }
    &&& ac.position == if bc.position.y > 0 { I2 { y: (bc.position.y - 1) as i32, ..bc.position } } else { bc.position }
    &&& ac.last_position == if bc.position.y > 0 { I2 { y: (bc.last_position.y - 1) as i32, ..bc.last_position } } else { bc.last_position }
    &&& ac.goal_position == if bc.position.y > 0 { I2 { y: (bc.goal_position.y - ATLAS_TILE) as i32, ..bc.goal_position } } else { bc.goal_position }
    &&& ac.y_offset == if bc.position.y > 0 { 0 } else { bc.y_offset }
    &&& ac.states@ == bc.states@
    &&& ac.ai == bc.ai
    &&& ac.counter == bc.counter
    &&& ac.goal_counter == bc.goal_counter
    &&& ac.start_delay == bc.start_delay
    &&& ac.end_delay == bc.end_delay
    &&& after.id == before.id
    &&& after.combo_highlight.list@ == before.combo_highlight.list@
    &&& after.combo_highlight.y_offset == before.combo_highlight.y_offset
    &&& after.rng.inc == before.rng.inc
}

/// wether any block of the components is clearing
fn block_clearing(components: &Vec<Component>) -> (r: bool)
    ensures
        r == any_clearing(components@),
{
    let len = components.len();
    let mut i: usize = 0;
    while i < len
        invariant
            0 <= i <= len,
            len == components@.len(),
            forall|j: int| 0 <= j < i ==> !(#[trigger] components@[j] matches Component::Block { state: BlockState::Clear { .. }, .. }),
        decreases len - i,
    {
        if let Component::Block { state: BlockState::Clear { .. }, .. } = components[i] {
            return true;
        }
        i = i + 1;
    }
    false
}

/// the push update of a frame moves the grid: no block is clearing, and the push counter ran
/// out or a raise was asked for
pub open spec fn push_counts_up(g: Grid) -> bool {
    !any_clearing(g.components@) && !(g.push_counter < PUSH_TIME && !g.push_raise)
}

/// the push update of a frame moves the grid a full row up
pub open spec fn push_lifts(g: Grid) -> bool {
    push_counts_up(g) && g.push_amount + 1 >= ATLAS_TILE
}

/// the randomization of grids can be linked: grids seeded alike draw the same numbers, so they
/// generate the same lines below the same bottom rows and the same fields
pub proof fn lemma_linked_generators(a: Grid, b: Grid, seed: u64)
    requires
        (a.rng.state, a.rng.inc) == pcg_seeded(seed),
        (b.rng.state, b.rng.inc) == pcg_seeded(seed),
    ensures
        a.rng == b.rng,
        forall|bottom: Seq<Component>| #[trigger] line_gen(bottom, a.rng.state, a.rng.inc, GRID_WIDTH as nat)
            == line_gen(bottom, b.rng.state, b.rng.inc, GRID_WIDTH as nat),
        forall|skip: usize| #[trigger] field_gen(a.rng.state, a.rng.inc, skip, GRID_TOTAL as nat)
            == field_gen(b.rng.state, b.rng.inc, skip, GRID_TOTAL as nat),
{
}

/// the grid after the push update of a frame: nothing moves while a block clears; else the
/// push counter counts up to its time unless a raise was asked for, and then the grid moves a
/// pixel up, and a full row up once it moved a tile
pub open spec fn push_updated(before: Grid, before_list: Seq<Garbage>, after: Grid, after_list: Seq<Garbage>) -> bool {
    &&& after.wf()
    &&& any_clearing(before.components@) ==> {
        &&& !after.push_raise
        &&& after.components@ == before.components@
        &&& after.push_counter == before.push_counter
        &&& after.push_amount == before.push_amount
        &&& after.cursor == before.cursor
        &&& after.rng == before.rng
        &&& after_list == before_list
    }
    &&& !any_clearing(before.components@) && before.push_counter < PUSH_TIME && !before.push_raise ==> {
        &&& after.push_counter == before.push_counter + 1
        &&& after.components@ == before.components@
        &&& after.push_amount == before.push_amount
        &&& after.push_raise == before.push_raise
        &&& after.cursor == before.cursor
        &&& after.rng == before.rng
        &&& after_list == before_list
    }
    &&& !any_clearing(before.components@) && !(before.push_counter < PUSH_TIME && !before.push_raise)
        && before.push_amount + 1 < ATLAS_TILE ==> {
        &&& after.push_counter == 0
        &&& after.push_amount == before.push_amount + 1
        &&& after.components@ == before.components@.map_values(|c: Component| raised(c, (before.push_amount + 1) as u32))
        &&& after.cursor.y_offset == -(before.push_amount + 1)
        &&& after.cursor.position == before.cursor.position
        &&& after.cursor.last_position == before.cursor.last_position
        &&& after.cursor.goal_position == before.cursor.goal_position
        &&& after.cursor.states@ == before.cursor.states@
        &&& after.cursor.counter == before.cursor.counter
        &&& after.cursor.goal_counter == before.cursor.goal_counter
        &&& after.cursor.ai == before.cursor.ai
        &&& after.cursor.start_delay == before.cursor.start_delay
        &&& after.cursor.end_delay == before.cursor.end_delay
        &&& after.push_raise == before.push_raise
        &&& after.rng == before.rng
        &&& after_list == before_list
    }
    &&& !any_clearing(before.components@) && !(before.push_counter < PUSH_TIME && !before.push_raise)
        && before.push_amount + 1 >= ATLAS_TILE ==> {
        &&& pushed_up(before, before_list, after, after_list, (before.push_amount + 1) as u32)
        &&& after.push_counter == 0
        &&& after.push_amount == 0
        &&& !after.push_raise
    }
    &&& after.id == before.id
    &&& after.combo_highlight.list@ == before.combo_highlight.list@
    &&& after.combo_highlight.y_offset == before.combo_highlight.y_offset
    &&& after.rng.inc == before.rng.inc
}

/// the stack stops while blocks clear: where any block of the grid is clearing, at any frame of
/// its clear, a push update moves nothing, counts nothing and ends a raise
pub proof fn lemma_push_stops_while_clearing(before: Grid, before_list: Seq<Garbage>, after: Grid, after_list: Seq<Garbage>, i: int)
    requires
        push_updated(before, before_list, after, after_list),
        0 <= i < before.components@.len(),
        before.components@[i] matches Component::Block { state: BlockState::Clear { .. }, .. },
    ensures
        after.components@ == before.components@,
        after.push_counter == before.push_counter,
        after.push_amount == before.push_amount,
        !after.push_raise,
        after.cursor == before.cursor,
        after.rng == before.rng,
        after_list == before_list,
{
    assert(any_clearing(before.components@));
}

/// without a clearing block, and before its time is up or a raise is asked for, a push update
/// only counts its counter up by one
pub proof fn lemma_push_counts_without_clears(before: Grid, before_list: Seq<Garbage>, after: Grid, after_list: Seq<Garbage>)
    requires
        push_updated(before, before_list, after, after_list),
        forall|i: int| 0 <= i < before.components@.len() ==> !(#[trigger] before.components@[i] matches Component::Block { state: BlockState::Clear { .. }, .. }),
        before.push_counter < PUSH_TIME,
        !before.push_raise,
    ensures
        after.push_counter == before.push_counter + 1,
        after.components@ == before.components@,
        after.push_amount == before.push_amount,
        !after.push_raise,
        after.cursor == before.cursor,
        after.rng == before.rng,
        after_list == before_list,
{
    assert(!any_clearing(before.components@));
}

/// a push update without a clearing block, whose time is up or that is asked to raise, and
/// that has not yet risen a full tile, raises the stack by one pixel: every block and garbage
/// child is drawn one pixel higher than before, as is the cursor, and the counter starts again
pub proof fn lemma_push_raises_a_pixel(before: Grid, before_list: Seq<Garbage>, after: Grid, after_list: Seq<Garbage>)
    requires
        push_updated(before, before_list, after, after_list),
        forall|i: int| 0 <= i < before.components@.len() ==> !(#[trigger] before.components@[i] matches Component::Block { state: BlockState::Clear { .. }, .. }),
        before.push_counter >= PUSH_TIME || before.push_raise,
        before.push_amount + 1 < ATLAS_TILE,
    ensures
        after.push_amount == before.push_amount + 1,
        after.push_counter == 0,
        after.push_raise == before.push_raise,
        after.cursor.y_offset == -(before.push_amount + 1),
        after.cursor.position == before.cursor.position,
        after.components@.len() == before.components@.len(),
        forall|i: int| 0 <= i < before.components@.len() ==> match #[trigger] before.components@[i] {
            Component::Block { block, state } => after.components@[i] matches Component::Block { block: b, state: s }
                && s == state && b.offset_y == -(before.push_amount + 1) && b == Block { offset_y: b.offset_y, ..block },
            Component::Child(ch) => after.components@[i] matches Component::Child(k)
                && k.y_offset == -(before.push_amount + 1) && k == Child { y_offset: k.y_offset, ..ch },
            _ => after.components@[i] == before.components@[i],
        },
        after.rng == before.rng,
        after_list == before_list,
{
    assert(!any_clearing(before.components@));
}

impl Grid {
    /// the grid has one component per space and a generator that can draw
    pub open spec fn wf(&self) -> bool {
        self.components@.len() == GRID_TOTAL && self.rng.valid()
    }

    /// generates a randomized new line of vframes for blocks, respecting the current bottom
    /// row of blocks to not generate the same as the above ones, and never three in a row
    pub fn gen_line(&mut self) -> (r: [u32; 6])
        requires
            old(self).wf(),
        ensures
            line_valid(bottom_row(old(self).components@), r@),
            (r@, final(self).rng.state) == line_gen(bottom_row(old(self).components@), old(self).rng.state, old(self).rng.inc, GRID_WIDTH as nat),
            final(self).components@ == old(self).components@,
            final(self).rng.inc == old(self).rng.inc,
            final(self).id == old(self).id,
            final(self).push_counter == old(self).push_counter,
            final(self).push_amount == old(self).push_amount,
            final(self).push_raise == old(self).push_raise,
            final(self).combo_highlight == old(self).combo_highlight,
            final(self).cursor == old(self).cursor,
    {
        let mut vframes: [u32; 6] = [0; 6];
        let ghost bottom = bottom_row(self.components@);
        let mut i: usize = 0;
        while i < GRID_WIDTH
            invariant
                0 <= i <= GRID_WIDTH,
                self.components@ == old(self).components@,
                bottom == bottom_row(self.components@),
                self.wf(),
                self.rng.inc == old(self).rng.inc,
                self.id == old(self).id,
                self.push_counter == old(self).push_counter,
                self.push_amount == old(self).push_amount,
                self.push_raise == old(self).push_raise,
                self.combo_highlight == old(self).combo_highlight,
                self.cursor == old(self).cursor,
                (vframes@.subrange(0, i as int), self.rng.state) == line_gen(bottom, old(self).rng.state, old(self).rng.inc, i as nat),
                forall|j: int| 0 <= j < i ==> 3 <= #[trigger] vframes@[j] < 8,
                forall|j: int| 0 <= j < i ==> (#[trigger] bottom[j] matches Component::Block { block, .. } ==> line_choice_spec(
                    j as usize,
                    block.vframe,
                    if j >= 1 { vframes@[j - 1] } else { 0 },
                    if j >= 2 { vframes@[j - 2] } else { 0 },
                    vframes@[j],
                )),
            decreases GRID_WIDTH - i,
        {
            let index = GRID_TOTAL - GRID_WIDTH + i;
            assert(self.components@[index as int] == bottom[i as int]);
            let ghost prev = vframes@.subrange(0, i as int);
            if let Component::Block { block, .. } = self.components[index] {
                let prev1 = if i >= 1 { vframes[i - 1] } else { 0 };
                let prev2 = if i >= 2 { vframes[i - 2] } else { 0 };
                let n = draw_line_vframe(&mut self.rng, i, block.vframe, prev1, prev2);
                vframes[i] = n;
            } else {
                // simply generate new number if block doesnt exist
                let n = self.rng.rand_range(3, 8);
                vframes[i] = n;
            }
            assert(vframes@.subrange(0, i + 1) =~= prev.push(vframes@[i as int]));
            i = i + 1;
        }
        assert(vframes@.subrange(0, GRID_WIDTH as int) =~= vframes@);
        vframes
    }

    /// non grid dependent way to generate a new field of vframes, the first `skip_height` rows
    /// stay empty
    pub fn gen_field(rng: &mut Rng, skip_height: usize) -> (r: [Option<u32>; 72])
        requires
            skip_height * GRID_WIDTH <= usize::MAX,
            old(rng).valid(),
        ensures
            field_valid(r@, skip_height),
            (r@, final(rng).state) == field_gen(old(rng).state, old(rng).inc, skip_height, GRID_TOTAL as nat),
            final(rng).inc == old(rng).inc,
    {
        let mut vframes: [Option<u32>; 72] = [None; 72];
        let mut last: Option<u32> = None;
        let mut num: Option<u32> = None;
        let mut i: usize = 0;
        while i < GRID_TOTAL
            invariant
                0 <= i <= GRID_TOTAL,
                skip_height * GRID_WIDTH <= usize::MAX,
                rng.inc == old(rng).inc,
                rng.valid(),
                (vframes@.subrange(0, i as int), rng.state) == field_gen(old(rng).state, old(rng).inc, skip_height, i as nat),
                i >= 1 ==> last == vframes@[i - 1],
                i == 0 ==> last.is_none(),
                forall|j: int| i <= j < GRID_TOTAL ==> (#[trigger] vframes@[j]).is_none(),
                forall|j: int| 0 <= j < i && j < skip_height * GRID_WIDTH ==> (#[trigger] vframes@[j]).is_none(),
                forall|j: int| 0 <= j < i ==> (#[trigger] vframes@[j] matches Some(v) ==> 3 <= v < 8),
                forall|j: int| 0 <= j < i && j >= skip_height * GRID_WIDTH ==> (#[trigger] vframes@[j] matches Some(v) ==> field_choice_spec(
                    j as usize,
                    if j >= 1 { vframes@[j - 1] } else { None },
                    if j > GRID_WIDTH { vframes@[j - GRID_WIDTH] } else { None },
                    v,
                )),
                forall|j: int| 0 <= j < i && j >= skip_height * GRID_WIDTH ==> ((#[trigger] vframes@[j]).is_none() ==> (j > GRID_WIDTH && vframes@[j - GRID_WIDTH].is_none())),
            decreases GRID_TOTAL - i,
        {
            let ghost prev = vframes@.subrange(0, i as int);
            if i >= skip_height * GRID_WIDTH {
                let above = if i > GRID_WIDTH { vframes[i - GRID_WIDTH] } else { None };
                let n = draw_field_vframe(rng, i, last, above);
                num = Some(n);
                if i > GRID_WIDTH && above.is_none() {
                    if rng.rand_range(0, 5) == 1 {
                        num = None;
                    }
                }
                vframes[i] = num;
            } else {
                num = None;
                vframes[i] = None;
            }
            assert(vframes@.subrange(0, i + 1) =~= prev.push(vframes@[i as int]));
            last = num;
            i = i + 1;
        }
        assert(vframes@.subrange(0, GRID_TOTAL as int) =~= vframes@);
        vframes
    }

    /// inits the grid with the given field of vframes and a seeded generator
    pub fn new(id: usize, seed: u64, vframes: &[Option<u32>; 72]) -> (r: Grid)
        ensures
            r.wf(),
            forall|i: int| 0 <= i < GRID_TOTAL ==> r.components@[i] == spawned(vframes@[i]),
            r.id == id,
            r.combo_highlight.list@.len() == 0,
            r.combo_highlight.y_offset == 0,
            r.push_counter == 0,
            r.push_amount == 0,
            !r.push_raise,
            r.cursor.ai == (id == 1),
            r.cursor.position == (I2 { x: 2, y: 7 }),
            r.cursor.states@.len() == 0,
            (r.rng.state, r.rng.inc) == pcg_seeded(seed),
    {
        let mut components: Vec<Component> = Vec::new();
        let mut i: usize = 0;
        while i < GRID_TOTAL
            invariant
                0 <= i <= GRID_TOTAL,
                components@.len() == i,
                forall|j: int| 0 <= j < i ==> components@[j] == spawned(vframes@[j]),
            decreases GRID_TOTAL - i,
        {
            components.push(Component::spawn(vframes[i]));
            i = i + 1;
        }
        Grid {
            id,
            components,
            combo_highlight: ComboHighlight::default(),
            push_counter: 0,
            push_amount: 0,
            push_raise: false,
            cursor: Cursor::new(id == 1),
            rng: Rng::new(seed),
        }
    }

    /// resets the grid and sets it to a new randomized field
    pub fn reset(&mut self)
        requires
            old(self).wf(),
        ensures
            final(self).wf(),
            field_valid(field_gen(old(self).rng.state, old(self).rng.inc, 5, GRID_TOTAL as nat).0, 5),
            forall|i: int| 0 <= i < GRID_TOTAL ==> #[trigger] final(self).components@[i] == spawned(
                field_gen(old(self).rng.state, old(self).rng.inc, 5, GRID_TOTAL as nat).0[i],
            ),
            final(self).rng.state == field_gen(old(self).rng.state, old(self).rng.inc, 5, GRID_TOTAL as nat).1,
            final(self).combo_highlight.list@.len() == 0,
            final(self).combo_highlight.y_offset == old(self).combo_highlight.y_offset,
            !final(self).push_raise,
            final(self).push_counter == 0,
            final(self).push_amount == old(self).push_amount,
            final(self).id == old(self).id,
            final(self).rng.inc == old(self).rng.inc,
            final(self).cursor.position == (I2 { x: 2, y: 7 }),
            final(self).cursor.ai == old(self).cursor.ai,
            final(self).cursor.states@ == old(self).cursor.states@,
    {
        let vframes = Grid::gen_field(&mut self.rng, 5);
        let mut i: usize = 0;
        while i < GRID_TOTAL
            invariant
                0 <= i <= GRID_TOTAL,
                self.components@.len() == GRID_TOTAL,
                forall|j: int| 0 <= j < i ==> self.components@[j] == spawned(vframes@[j]),
                self.id == old(self).id,
                self.rng.inc == old(self).rng.inc,
                (vframes@, self.rng.state) == field_gen(old(self).rng.state, old(self).rng.inc, 5, GRID_TOTAL as nat),
                self.cursor == old(self).cursor,
                self.combo_highlight == old(self).combo_highlight,
                self.push_amount == old(self).push_amount,
            decreases GRID_TOTAL - i,
        {
            self.components.set(i, Component::spawn(vframes[i]));
            i = i + 1;
        }
        self.combo_highlight.clear();
        self.push_raise = false;
        self.push_counter = 0;
        self.cursor.reset();
        assert(forall|i: int| 0 <= i < GRID_TOTAL ==> #[trigger] self.components@[i] == spawned(vframes@[i]));
    }

    /// moves all components a row up, resets their vertical offsets and fills the bottom row
    /// with a new generated line of blocks; garbage children indexes and the cursor follow
    pub fn push_upwards(&mut self, garbage_system: &mut GarbageSystem, reset: bool)
        requires
            old(self).wf(),
            old(self).push_amount <= i32::MAX,
            children_below_top(old(garbage_system).list@, old(self).id),
            cursor_can_lift(old(self).cursor),
        ensures
            pushed_up(*old(self), old(garbage_system).list@, *final(self), final(garbage_system).list@, old(self).push_amount),
            final(self).push_amount == old(self).push_amount,
            final(self).push_counter == old(self).push_counter,
            final(self).push_raise == old(self).push_raise,
    {
        let vframes = self.gen_line();
        let ghost old_comps = self.components@;
        let mut next: Vec<Component> = Vec::new();
        let mut i: usize = 0;
        while i < GRID_TOTAL - GRID_WIDTH
            invariant
                0 <= i <= GRID_TOTAL - GRID_WIDTH,
                self.components@ == old_comps,
                old_comps.len() == GRID_TOTAL,
                next@.len() == i,
                forall|j: int| 0 <= j < i ==> next@[j] == lifted(old_comps[j + GRID_WIDTH]),
            decreases GRID_TOTAL - GRID_WIDTH - i,
        {
            let c = match self.components[i + GRID_WIDTH] {
                Component::Block { block, state } => Component::Block { block: Block { offset_y: 0, ..block }, state },
                Component::Child(g) => Component::Child(Child { y_offset: 0, ..g }),
                other => other,
            };
            next.push(c);
            i = i + 1;
        }
        let amount = self.push_amount as i32;
        let mut x: usize = 0;
        while x < GRID_WIDTH
            invariant
                0 <= x <= GRID_WIDTH,
                amount == self.push_amount,
                self.push_amount <= i32::MAX,
                next@.len() == GRID_TOTAL - GRID_WIDTH + x,
                forall|j: int| 0 <= j < GRID_TOTAL - GRID_WIDTH ==> next@[j] == lifted(old_comps[j + GRID_WIDTH]),
                forall|j: int| 0 <= j < x ==> next@[GRID_TOTAL - GRID_WIDTH + j] == pushed_block(vframes@[j], self.push_amount),
            decreases GRID_WIDTH - x,
        {
            next.push(Component::Block {
                block: Block { vframe: vframes[x], offset_y: -amount, ..Block::default() },
                state: BlockState::Idle,
            });
            x = x + 1;
        }
        self.components = next;
        assert forall|x: int| 0 <= x < GRID_WIDTH implies #[trigger] self.components@[GRID_TOTAL - GRID_WIDTH + x] == pushed_block(
            vframe_of(self.components@[GRID_TOTAL - GRID_WIDTH + x]),
            self.push_amount,
        ) by {
            assert(self.components@[GRID_TOTAL - GRID_WIDTH + x] == pushed_block(vframes@[x], self.push_amount));
            assert(vframe_of(pushed_block(vframes@[x], self.push_amount)) == vframes@[x]);
        }
        assert(bottom_row(self.components@).map_values(|c: Component| vframe_of(c)) =~= vframes@);

        // shift up the garbage children indexes
        shift_children(&mut garbage_system.list, self.id, false);

        // shift up the cursor if still in grid range
        if self.cursor.position.y > 0 {
            self.cursor.position.y = self.cursor.position.y - 1;
            self.cursor.last_position.y = self.cursor.last_position.y - 1;
            self.cursor.goal_position.y = self.cursor.goal_position.y - ATLAS_TILE as i32;
            self.cursor.y_offset = 0;
        }
    }

    /// updates the push / raise data which offsets the grid components; a full tile of offset
    /// moves the grid up a row. Nothing moves while a block is clearing.
    pub fn push_update(&mut self, garbage_system: &mut GarbageSystem)
        requires
            old(self).wf(),
            push_counts_up(*old(self)) ==> old(self).push_amount < i32::MAX,
            push_lifts(*old(self)) ==> children_below_top(old(garbage_system).list@, old(self).id) && cursor_can_lift(old(self).cursor),
        ensures
            push_updated(*old(self), old(garbage_system).list@, *final(self), final(garbage_system).list@),
    {
        // stop pushing if any block is clearing
        if block_clearing(&self.components) {
            self.push_raise = false;
            return;
        }

        if self.push_counter < PUSH_TIME && !self.push_raise {
            self.push_counter = self.push_counter + 1;
        } else {
            self.push_amount = self.push_amount + 1;
            let amt = self.push_amount;
            self.push_counter = 0;

            if amt < ATLAS_TILE {
                let ghost before = self.components@;
                let mut i: usize = 0;
                while i < GRID_TOTAL
                    invariant
                        0 <= i <= GRID_TOTAL,
                        self.components@.len() == GRID_TOTAL,
                        before.len() == GRID_TOTAL,
                        amt < ATLAS_TILE,
                        forall|j: int| 0 <= j < i ==> self.components@[j] == raised(before[j], amt),
                        forall|j: int| i <= j < GRID_TOTAL ==> self.components@[j] == before[j],
                        self.id == old(self).id,
                        self.push_amount == amt,
                        self.push_counter == 0,
                        self.push_raise == old(self).push_raise,
                        self.cursor == old(self).cursor,
                        self.combo_highlight == old(self).combo_highlight,
                        self.rng == old(self).rng,
                    decreases GRID_TOTAL - i,
                {
                    match self.components[i] {
                        Component::Block { block, state } => {
                            self.components.set(i, Component::Block { block: Block { offset_y: -(amt as i32), ..block }, state });
                        },
                        Component::Child(g) => {
                            self.components.set(i, Component::Child(Child { y_offset: -(amt as i32), ..g }));
                        },
                        _ => {},
                    }
                    i = i + 1;
                }
                assert(self.components@ =~= before.map_values(|c: Component| raised(c, amt)));
                self.cursor.y_offset = -(amt as i32);
            } else {
                self.push_upwards(garbage_system, false);
                self.push_raise = false;
                self.push_amount = 0;
            }
        }
    }

    /// wether `push_update` can take its frame: the grid has all its components and a
    /// generator that can draw; when it moves, its push amount can count up; and when it moves
    /// a full row up, the children of its garbages lie below the top row and its cursor can move
    /// up a row
    pub fn push_update_ready(&self, garbage_system: &GarbageSystem) -> (r: bool)
        ensures
            r == (self.wf() && (push_counts_up(*self) ==> self.push_amount < i32::MAX) && (push_lifts(*self) ==> (
                children_below_top(garbage_system.list@, self.id) && cursor_can_lift(self.cursor)))),
    {
        if self.components.len() != GRID_TOTAL || self.rng.inc % 2 != 1 {
            return false;
        }
        if block_clearing(&self.components) || (self.push_counter < PUSH_TIME && !self.push_raise) {
            return true;
        }
        if self.push_amount >= i32::MAX as u32 {
            return false;
        }
        if self.push_amount + 1 < ATLAS_TILE {
            return true;
        }
        let c = &self.cursor;
        if c.position.y > 0 && !(c.last_position.y > i32::MIN && c.goal_position.y >= i32::MIN + ATLAS_TILE as i32) {
            return false;
        }
        let list = &garbage_system.list;
        let len = list.len();
        let mut k: usize = 0;
        while k < len
            invariant
                0 <= k <= len,
                len == list@.len(),
                list@ == garbage_system.list@,
                self.wf(),
                push_lifts(*self),
                self.push_amount < i32::MAX,
                cursor_can_lift(self.cursor),
                forall|a: int, j: int| 0 <= a < k && list@[a].parent_id == self.id && 0 <= j < list@[a].children@.len() ==>
                    list@[a].children@[j] >= GRID_WIDTH,
            decreases len - k,
        {
            if list[k].parent_id == self.id {
                let children = &list[k].children;
                let n = children.len();
                let mut j: usize = 0;
                while j < n
                    invariant
                        0 <= j <= n,
                        k < len,
                        len == list@.len(),
                        n == children@.len(),
                        children@ == list@[k as int].children@,
                        list@[k as int].parent_id == self.id,
                        list@ == garbage_system.list@,
                        self.wf(),
                        push_lifts(*self),
                        self.push_amount < i32::MAX,
                        cursor_can_lift(self.cursor),
                        forall|i: int| 0 <= i < j ==> children@[i] >= GRID_WIDTH,
                    decreases n - j,
                {
                    if children[j] < GRID_WIDTH {
                        assert(list@[k as int].parent_id == self.id && list@[k as int].children@[j as int] < GRID_WIDTH);
                        assert(!children_below_top(garbage_system.list@, self.id));
                        return false;
                    }
                    j = j + 1;
                }
            }
            k = k + 1;
        }
        true
    }

    /// updates all blocks in the grid for one animation frame
    pub fn update_components(&mut self)
        requires
            counters_have_room(old(self).components@),
        ensures
            final(self).components@ == old(self).components@.map_values(|c: Component| animated(c)),
            final(self).id == old(self).id,
            final(self).combo_highlight == old(self).combo_highlight,
            final(self).push_counter == old(self).push_counter,
            final(self).push_amount == old(self).push_amount,
            final(self).push_raise == old(self).push_raise,
            final(self).cursor == old(self).cursor,
            final(self).rng == old(self).rng,
    {
        let len = self.components.len();
        let ghost before = self.components@;
        let mut i: usize = 0;
        while i < len
            invariant
                0 <= i <= len,
                len == before.len(),
                self.components@.len() == len,
                counters_have_room(before),
                forall|j: int| 0 <= j < i ==> self.components@[j] == animated(before[j]),
                forall|j: int| i <= j < len ==> self.components@[j] == before[j],
                self.id == old(self).id,
                self.combo_highlight == old(self).combo_highlight,
                self.push_counter == old(self).push_counter,
                self.push_amount == old(self).push_amount,
                self.push_raise == old(self).push_raise,
                self.cursor == old(self).cursor,
                self.rng == old(self).rng,
            decreases len - i,
        {
            if let Component::Block { block, state } = self.components[i] {
                assert(counter_room(state));
                let mut b = block;
                let mut s = state;
                b.update(&mut s);
                self.components.set(i, Component::Block { block: b, state: s });
            }
            i = i + 1;
        }
        assert(self.components@ =~= before.map_values(|c: Component| animated(c)));
    }

    /// generates a line of garbage of the given width at a random position of the top row
    pub fn gen_1d_garbage(&mut self, garbage_system: &mut GarbageSystem, width: usize)
        requires
            old(self).wf(),
            3 <= width <= GRID_WIDTH,
        ensures
            final(self).wf(),
            final(garbage_system).list@.len() == old(garbage_system).list@.len() + 1,
            final(garbage_system).list@.drop_last() == old(garbage_system).list@,
            ({
                let children = final(garbage_system).list@.last().children@;
                let offset = children[0] as int;
                &&& offset == pcg_range(old(self).rng.state, old(self).rng.inc, 0, (GRID_WIDTH - width + 1) as u32).0
                &&& 0 <= offset <= GRID_WIDTH - width
                &&& children == Seq::new(width as nat, |j: int| (offset + j) as usize)
                &&& forall|i: int| 0 <= i < GRID_TOTAL ==> #[trigger] final(self).components@[i] == if offset <= i < offset + width {
                    Component::Child(Child { hframe: frame_1d((i - offset) as usize, width), vframe: ATLAS_GARBAGE_1D, ..default_child() })
                } else {
                    old(self).components@[i]
                }
            }),
            final(garbage_system).list@.last().parent_id == old(self).id,
            final(garbage_system).list@.last().count == width,
            final(garbage_system).list@.last().state == GarbageState::Fall,
            !final(garbage_system).list@.last().is_2d,
            final(garbage_system).list@.last().removed_children@.len() == 0,
            final(self).id == old(self).id,
            final(self).combo_highlight == old(self).combo_highlight,
            final(self).push_counter == old(self).push_counter,
            final(self).push_amount == old(self).push_amount,
            final(self).push_raise == old(self).push_raise,
            final(self).cursor == old(self).cursor,
            final(self).rng.inc == old(self).rng.inc,
            final(self).rng.state == pcg_range(old(self).rng.state, old(self).rng.inc, 0, (GRID_WIDTH - width + 1) as u32).1,
    {
        let offset = self.rng.rand_range(0, (GRID_WIDTH - width + 1) as u32) as usize;
        self.gen_1d_garbage_at(garbage_system, width, offset);
    }

    /// generates a line of garbage of the given width in the top row, starting at column `offset`
    pub fn gen_1d_garbage_at(&mut self, garbage_system: &mut GarbageSystem, width: usize, offset: usize)
        requires
            old(self).wf(),
            3 <= width <= GRID_WIDTH,
            offset + width <= GRID_WIDTH,
        ensures
            final(self).wf(),
            final(garbage_system).list@.len() == old(garbage_system).list@.len() + 1,
            final(garbage_system).list@.drop_last() == old(garbage_system).list@,
            final(garbage_system).list@.last().children@ == Seq::new(width as nat, |j: int| (offset + j) as usize),
            forall|i: int| 0 <= i < GRID_TOTAL ==> #[trigger] final(self).components@[i] == if offset <= i < offset + width {
                Component::Child(Child { hframe: frame_1d((i - offset) as usize, width), vframe: ATLAS_GARBAGE_1D, ..default_child() })
            } else {
                old(self).components@[i]
            },
            final(garbage_system).list@.last().parent_id == old(self).id,
            final(garbage_system).list@.last().count == width,
            final(garbage_system).list@.last().state == GarbageState::Fall,
            !final(garbage_system).list@.last().is_2d,
            final(garbage_system).list@.last().removed_children@.len() == 0,
            final(self).id == old(self).id,
            final(self).combo_highlight == old(self).combo_highlight,
            final(self).push_counter == old(self).push_counter,
            final(self).push_amount == old(self).push_amount,
            final(self).push_raise == old(self).push_raise,
            final(self).cursor == old(self).cursor,
            final(self).rng == old(self).rng,
    {
        let ghost before = self.components@;
        let mut children: Vec<usize> = Vec::new();
        let mut i: usize = 0;
        while i < width
            invariant
                0 <= i <= width,
                3 <= width <= GRID_WIDTH,
                offset + width <= GRID_WIDTH,
                self.components@.len() == GRID_TOTAL,
                before.len() == GRID_TOTAL,
                children@ == Seq::new(i as nat, |j: int| (offset + j) as usize),
                self.rng == old(self).rng,
                forall|k: int| 0 <= k < GRID_TOTAL ==> #[trigger] self.components@[k] == if offset <= k < offset + i {
                    Component::Child(Child { hframe: frame_1d((k - offset) as usize, width), vframe: ATLAS_GARBAGE_1D, ..default_child() })
                } else {
                    before[k]
                },
                self.id == old(self).id,
                self.combo_highlight == old(self).combo_highlight,
                self.push_counter == old(self).push_counter,
                self.push_amount == old(self).push_amount,
                self.push_raise == old(self).push_raise,
                self.cursor == old(self).cursor,
            decreases width - i,
        {
            let index = offset + i;
            children.push(index);
            let (hframe, vframe) = Child::gen_1d_frames(i, width);
            self.components.set(index, Component::Child(Child { hframe, vframe, ..Child::default() }));
            i = i + 1;
            assert(children@ =~= Seq::new(i as nat, |j: int| (offset + j) as usize));
        }
        garbage_system.list.push(Garbage::new(self.id, children));
        assert(garbage_system.list@.drop_last() =~= old(garbage_system).list@);
    }

    /// generates a garbage of the given amount of full rows at the top of the grid
    pub fn gen_2d_garbage(&mut self, garbage_system: &mut GarbageSystem, height: usize)
        requires
            old(self).wf(),
            1 <= height <= GRID_HEIGHT,
        ensures
            final(self).wf(),
            forall|i: int| 0 <= i < GRID_TOTAL ==> #[trigger] final(self).components@[i] == if i < height * GRID_WIDTH {
                Component::Child(Child {
                    hframe: frames_2d((i % GRID_WIDTH as int) as usize, (i / GRID_WIDTH as int) as usize, height).0,
                    vframe: frames_2d((i % GRID_WIDTH as int) as usize, (i / GRID_WIDTH as int) as usize, height).1,
                    ..default_child()
                })
            } else {
                old(self).components@[i]
            },
            final(garbage_system).list@.len() == old(garbage_system).list@.len() + 1,
            final(garbage_system).list@.drop_last() == old(garbage_system).list@,
            final(garbage_system).list@.last().children@ == Seq::new((height * GRID_WIDTH) as nat, |j: int| j as usize),
            final(garbage_system).list@.last().parent_id == old(self).id,
            final(garbage_system).list@.last().count == height * GRID_WIDTH,
            final(garbage_system).list@.last().state == GarbageState::Fall,
            final(garbage_system).list@.last().is_2d == (height > 1),
            final(garbage_system).list@.last().removed_children@.len() == 0,
            final(self).id == old(self).id,
            final(self).combo_highlight == old(self).combo_highlight,
            final(self).push_counter == old(self).push_counter,
            final(self).push_amount == old(self).push_amount,
            final(self).push_raise == old(self).push_raise,
            final(self).cursor == old(self).cursor,
            final(self).rng == old(self).rng,
    {
        let ghost before = self.components@;
        let mut children: Vec<usize> = Vec::new();
        let mut y: usize = 0;
        while y < height
            invariant
                0 <= y <= height,
                1 <= height <= GRID_HEIGHT,
                self.components@.len() == GRID_TOTAL,
                before.len() == GRID_TOTAL,
                children@ == Seq::new((y * GRID_WIDTH) as nat, |j: int| j as usize),
                forall|k: int| 0 <= k < GRID_TOTAL ==> #[trigger] self.components@[k] == if k < y * GRID_WIDTH {
                    Component::Child(Child {
                        hframe: frames_2d((k % GRID_WIDTH as int) as usize, (k / GRID_WIDTH as int) as usize, height).0,
                        vframe: frames_2d((k % GRID_WIDTH as int) as usize, (k / GRID_WIDTH as int) as usize, height).1,
                        ..default_child()
                    })
                } else {
                    before[k]
                },
                self.id == old(self).id,
                self.combo_highlight == old(self).combo_highlight,
                self.push_counter == old(self).push_counter,
                self.push_amount == old(self).push_amount,
                self.push_raise == old(self).push_raise,
                self.cursor == old(self).cursor,
                self.rng == old(self).rng,
            decreases height - y,
        {
            let mut x: usize = 0;
            while x < GRID_WIDTH
                invariant
                    0 <= x <= GRID_WIDTH,
                    0 <= y < height,
                    1 <= height <= GRID_HEIGHT,
                    self.components@.len() == GRID_TOTAL,
                    before.len() == GRID_TOTAL,
                    children@ == Seq::new((y * GRID_WIDTH + x) as nat, |j: int| j as usize),
                    forall|k: int| 0 <= k < GRID_TOTAL ==> #[trigger] self.components@[k] == if k < y * GRID_WIDTH + x {
                        Component::Child(Child {
                            hframe: frames_2d((k % GRID_WIDTH as int) as usize, (k / GRID_WIDTH as int) as usize, height).0,
                            vframe: frames_2d((k % GRID_WIDTH as int) as usize, (k / GRID_WIDTH as int) as usize, height).1,
                            ..default_child()
                        })
                    } else {
                        before[k]
                    },
                    self.id == old(self).id,
                    self.combo_highlight == old(self).combo_highlight,
                    self.push_counter == old(self).push_counter,
                    self.push_amount == old(self).push_amount,
                    self.push_raise == old(self).push_raise,
                    self.cursor == old(self).cursor,
                    self.rng == old(self).rng,
                decreases GRID_WIDTH - x,
            {
                let i = y * GRID_WIDTH + x;
                children.push(i);
                let (hframe, vframe) = Child::gen_2d_frames(x, y, height);
                assert((i as int) % 6 == x as int && (i as int) / 6 == y as int) by (nonlinear_arith)
                    requires i == y * 6 + x, 0 <= x < 6, y >= 0;
                self.components.set(i, Component::Child(Child { hframe, vframe, ..Child::default() }));
                x = x + 1;
                assert(children@ =~= Seq::new((y * GRID_WIDTH + x) as nat, |j: int| j as usize));
            }
            y = y + 1;
        }
        garbage_system.list.push(Garbage::new(self.id, children));
        assert(garbage_system.list@.drop_last() =~= old(garbage_system).list@);
    }
}

} // verus!
