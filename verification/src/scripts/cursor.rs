use vstd::prelude::*;
use std::collections::VecDeque;
use crate::helpers::data::{GRID_TOTAL, GRID_WIDTH, GRID_HEIGHT, ATLAS_TILE};
use crate::helpers::math::{I2, i2, ToIndex, grid_index};
use crate::scripts::block::BlockState;
use crate::scripts::component::{Component, swap_components};
use crate::engine::input::{Input, frames_of, down_frames, max_frames, KEY_LEFT, KEY_RIGHT, KEY_UP, KEY_DOWN, KEY_S, KEY_A, BUTTON_DPAD_LEFT, BUTTON_DPAD_RIGHT, BUTTON_DPAD_UP, BUTTON_DPAD_DOWN, BUTTON_SOUTH, BUTTON_EAST};

verus! {

/// amount of frames it takes for the fast cursor movement to happen
pub const FRAME_LIMIT: u32 = 25;
/// amount of frames it takes to animate till the next cursor vframe appears
pub const ANIMATION_TIME: u32 = 64;
/// amount of frames it takes to lerp from one to the other cursor position
pub const LERP_TIME: u32 = 8;
/// amount of frames it takes to start an ai step
pub const START_DELAY_TIME: u32 = 10;
/// amount of frames it takes after the end of an ai step
pub const END_DELAY_TIME: u32 = 10;

/// steps of the computer player
#[derive(Clone, Copy, PartialEq, Eq, Structural, Debug)]
pub enum CursorState {
    Idle,
    MoveSwap { counter: u32, goal: I2 },
    MoveTransport { counter: u32, reached: bool, swap_end: bool, start: I2, goal: I2 },
}

/// the player controls the cursor, holds position and animation data
pub struct Cursor {
    /// vertical pixel offset while the grid is pushed up
    pub y_offset: i32,
    pub position: I2,
    pub last_position: I2,
    /// cursor animation counter
    pub counter: u32,
    /// pixel position the cursor sprite moves to
    pub goal_position: I2,
    /// frames left of the move animation
    pub goal_counter: u32,
    pub ai: bool,
    /// ai states
    pub states: VecDeque<CursorState>,
    /// delay the ai for lower speed
    pub start_delay: u32,
    pub end_delay: u32,
}

/// one coordinate one step closer to the goal, rows first
pub open spec fn step_toward(current: I2, goal: I2) -> I2 {
    if current.y != goal.y {
        I2 { y: if current.y < goal.y { current.y + 1 } else { current.y - 1 } as i32, ..current }
    } else if current.x != goal.x {
        I2 { x: if current.x < goal.x { current.x + 1 } else { current.x - 1 } as i32, ..current }
    } else {
        current
    }
}

/// the number of single steps between two positions
pub open spec fn steps_between(a: I2, b: I2) -> int {
    (if a.x < b.x { b.x - a.x } else { a.x - b.x }) + (if a.y < b.y { b.y - a.y } else { a.y - b.y })
}

/// each step of the cursor toward a goal brings it one step closer, and a cursor at its goal
/// stays there; so `move_to` reaches any goal
pub proof fn lemma_step_toward_closer(current: I2, goal: I2)
    ensures
        current != goal ==> steps_between(step_toward(current, goal), goal) == steps_between(current, goal) - 1,
        current == goal ==> step_toward(current, goal) == current,
{
}

/// wether `move_to` moves at the given (already increased) counter
pub open spec fn moves_at(counter: u32) -> bool {
    counter == 1 || counter > FRAME_LIMIT
}

/// the position after a `move_to` with the given increased counter
pub open spec fn moved(counter: u32, current: I2, goal: I2) -> I2 {
    if moves_at(counter) {
        step_toward(current, goal)
    } else {
        current
    }
}

/// moves the current position one step closer to the goal on the first frame and after
/// `FRAME_LIMIT` frames, rows first; returns wether it moved
pub fn move_to(counter: &mut u32, current: &mut I2, goal: I2) -> (r: bool)
    requires
        *old(counter) < u32::MAX,
    ensures
        *final(counter) == *old(counter) + 1,
        *final(current) == moved(*final(counter), *old(current), goal),
        r == (moves_at(*final(counter)) && *old(current) != goal),
{
    *counter = *counter + 1;

    if *counter == 1 || *counter > FRAME_LIMIT {
        if current.y != goal.y {
            if current.y < goal.y {
                current.y = current.y + 1;
            } else {
                current.y = current.y - 1;
            }
            return true;
        }
        if current.x != goal.x {
            if current.x < goal.x {
                current.x = current.x + 1;
            } else {
                current.x = current.x - 1;
            }
            return true;
        }
    }
    false
}

/// a component a block can swap with: an idle block or an empty space
pub open spec fn can_swap_spec(c: Component) -> bool {
    match c {
        Component::Block { state: BlockState::Idle, .. } => true,
        Component::Empty { .. } => true,
        _ => false,
    }
}

/// an idle block starts swapping in the direction, anything else stays
pub open spec fn start_swap(c: Component, direction: i32) -> Component {
    match c {
        Component::Block { block, state: BlockState::Idle } => Component::Block {
            block,
            state: BlockState::Swap { counter: 0, direction },
        },
        _ => c,
    }
}

/// the cursor can swap at the position: the cursor and the space right of it lie in the list
pub open spec fn swap_position_ok(p: I2, len: int) -> bool {
    &&& p.index_defined()
    &&& p.index_of() + 1 < len
}

/// a block hangs in the space
pub open spec fn hangs_at(c: Component) -> bool {
    c matches Component::Block { state: BlockState::Hang { .. }, .. }
}

/// a block hangs in the space above the swap position or above the space right of it
pub open spec fn hang_above(comps: Seq<Component>, i: int) -> bool {
    i >= GRID_WIDTH && (hangs_at(comps[i - GRID_WIDTH]) || hangs_at(comps[i + 1 - GRID_WIDTH]))
}

/// the components after a swap at the given cursor position; nothing swaps under a hanging block
pub open spec fn swapped(comps: Seq<Component>, p: I2) -> Seq<Component> {
    let i = p.index_of();
    if hang_above(comps, i) {
        comps
    } else {
        swapped_pair(comps, i)
    }
}

/// the two spaces at `i` and right of it start swapping toward each other where they can
pub open spec fn swapped_pair(comps: Seq<Component>, i: int) -> Seq<Component> {
    let right = can_swap_spec(comps[i + 1]);
    let left = can_swap_spec(comps[i]);
    let after_left = if right { comps.update(i, start_swap(comps[i], 1i32)) } else { comps };
    if left {
        after_left.update(i + 1, start_swap(after_left[i + 1], -1i32))
    } else {
        after_left
    }
}

/// what a swap at the cursor does: the two spaces at the cursor and right of it start swapping
/// toward each other when each holds an idle block or nothing: an idle block on the left swaps
/// right, an idle block on the right swaps left, keeping the block it holds; when either space
/// holds anything else, or a block hangs above either, nothing changes; no other space changes
pub proof fn lemma_swap_blocks_law(comps: Seq<Component>, p: I2)
    requires
        swap_position_ok(p, comps.len() as int),
    ensures
        ({
            let i = p.index_of();
            let r = swapped(comps, p);
            let idle_l = comps[i] matches Component::Block { state: BlockState::Idle, .. };
            let idle_r = comps[i + 1] matches Component::Block { state: BlockState::Idle, .. };
            let free_l = idle_l || comps[i] is Empty;
            let free_r = idle_r || comps[i + 1] is Empty;
            let hung = i >= GRID_WIDTH && ((comps[i - GRID_WIDTH] matches Component::Block { state: BlockState::Hang { .. }, .. })
                || (comps[i + 1 - GRID_WIDTH] matches Component::Block { state: BlockState::Hang { .. }, .. }));
            &&& r.len() == comps.len()
            &&& forall|j: int| 0 <= j < comps.len() && j != i && j != i + 1 ==> #[trigger] r[j] == comps[j]
            &&& hung ==> r == comps
            &&& !hung ==> r[i] == if idle_l && free_r {
                Component::Block { block: comps[i]->block, state: BlockState::Swap { counter: 0, direction: 1i32 } }
            } else {
                comps[i]
            }
            &&& !hung ==> r[i + 1] == if idle_r && free_l {
                Component::Block { block: comps[i + 1]->block, state: BlockState::Swap { counter: 0, direction: -1i32 } }
            } else {
                comps[i + 1]
            }
        }),
{
}

/// what the arrow keys do to a player's cursor: a direction pressed on this frame, alone, moves
/// the cursor one space that way, up lowering the row and down raising it, as far as the cursor
/// can go; with no direction down the cursor stays; and the cursor never moves more than one
/// space in each direction, nor leaves the area it can reach
pub proof fn lemma_player_moves(input: &Input, p: I2)
    requires
        0 <= p.x <= GRID_WIDTH - 2,
        0 <= p.y <= GRID_HEIGHT - 2,
    ensures
        ({
            let k = input.key_downs@;
            let b = input.button_downs@;
            let r = player_moved(input, p);
            let no_left = frames_of(k, KEY_LEFT) == 0 && frames_of(b, BUTTON_DPAD_LEFT) == 0;
            let no_right = frames_of(k, KEY_RIGHT) == 0 && frames_of(b, BUTTON_DPAD_RIGHT) == 0;
            let no_up = frames_of(k, KEY_UP) == 0 && frames_of(b, BUTTON_DPAD_UP) == 0;
            let no_down = frames_of(k, KEY_DOWN) == 0 && frames_of(b, BUTTON_DPAD_DOWN) == 0;
            &&& (frames_of(k, KEY_UP) == 1 && frames_of(b, BUTTON_DPAD_UP) <= 1 && no_left && no_right && no_down)
                ==> r == (if p.y > 0 { I2 { x: p.x, y: (p.y - 1) as i32 } } else { p })
            &&& (frames_of(k, KEY_DOWN) == 1 && frames_of(b, BUTTON_DPAD_DOWN) <= 1 && no_left && no_right && no_up)
                ==> r == (if p.y < GRID_HEIGHT - 2 { I2 { x: p.x, y: (p.y + 1) as i32 } } else { p })
            &&& (frames_of(k, KEY_LEFT) == 1 && frames_of(b, BUTTON_DPAD_LEFT) <= 1 && no_right && no_up && no_down)
                ==> r == (if p.x > 0 { I2 { x: (p.x - 1) as i32, y: p.y } } else { p })
            &&& (frames_of(k, KEY_RIGHT) == 1 && frames_of(b, BUTTON_DPAD_RIGHT) <= 1 && no_left && no_up && no_down)
                ==> r == (if p.x < GRID_WIDTH - 2 { I2 { x: (p.x + 1) as i32, y: p.y } } else { p })
            &&& (no_left && no_right && no_up && no_down) ==> r == p
            &&& p.x - 1 <= r.x <= p.x + 1
            &&& p.y - 1 <= r.y <= p.y + 1
            &&& 0 <= r.x <= GRID_WIDTH - 2
            &&& 0 <= r.y <= GRID_HEIGHT - 2
        }),
{
}

/// what the action keys do for a player: the swap key pressed on this frame swaps at the cursor,
/// and without a swap or lift key pressed on this frame the components stay as they are
pub proof fn lemma_player_actions(input: &Input, p: I2, comps: Seq<Component>)
    ensures
        ({
            let k = input.key_downs@;
            let b = input.button_downs@;
            let no_lift = frames_of(k, KEY_A) != 1;
            &&& (frames_of(k, KEY_S) == 1 && no_lift) ==> player_components(input, p, comps) == swapped(comps, p)
            &&& (frames_of(k, KEY_S) != 1 && frames_of(b, BUTTON_SOUTH) != 1 && frames_of(b, BUTTON_EAST) != 1 && no_lift)
                ==> player_components(input, p, comps) == comps
        }),
{
}

/// helper to detect if a block is currently swappable - in idle state or empty
fn can_swap(components: &Vec<Component>, index: usize) -> (r: bool)
    requires
        index < components@.len(),
    ensures
        r == can_swap_spec(components@[index as int]),
{
    match components[index] {
        Component::Block { state, .. } => {
            if let BlockState::Idle = state {
                return true;
            }
        },
        Component::Empty { .. } => {
            return true;
        },
        _ => return false,
    }
    false
}

/// a clear started somewhere in the grid part of the components
pub open spec fn any_clear_started(comps: Seq<Component>) -> bool {
    exists|i: int|
        0 <= i < comps.len() && i < GRID_TOTAL && (#[trigger] comps[i] matches Component::Block {
            state: BlockState::Clear { counter: 0, .. },
            ..
        })
}

/// wether any block of the grid part of the components just started clearing
fn clear_started(components: &Vec<Component>) -> (r: bool)
    ensures
        r == any_clear_started(components@),
{
    let len = components.len();
    let mut i: usize = 0;
    while i < len && i < GRID_TOTAL
        invariant
            len == components@.len(),
            0 <= i <= len,
            forall|j: int| 0 <= j < i ==> !(#[trigger] components@[j] matches Component::Block {
                state: BlockState::Clear { counter: 0, .. },
                ..
            }),
        decreases len - i,
    {
        if let Component::Block { state: BlockState::Clear { counter, .. }, .. } = components[i] {
            if counter == 0 {
                return true;
            }
        }
        i = i + 1;
    }
    false
}

/// how the front of the state queue changes in an ai frame
#[derive(Clone, Copy, PartialEq, Eq, Structural, Debug)]
pub enum QueueChange {
    Keep,
    PopFront,
    Clear,
    SetFront(CursorState),
}

/// what an ai frame decides: new position and delays, the queue change and where a swap happens
#[derive(Clone, Copy, PartialEq, Eq, Structural, Debug)]
pub struct AiOutcome {
    pub position: I2,
    pub start_delay: u32,
    pub end_delay: u32,
    pub queue: QueueChange,
    pub swap_at: Option<I2>,
}

/// the state queue after a change
pub open spec fn apply_queue(s: Seq<CursorState>, q: QueueChange) -> Seq<CursorState> {
    match q {
        QueueChange::Keep => s,
        QueueChange::PopFront => s.drop_first(),
        QueueChange::Clear => Seq::empty(),
        QueueChange::SetFront(st) => s.update(0, st),
    }
}

/// one step of a position along a transport: rows first
pub open spec fn transport_step(position: I2, start: I2) -> I2 {
    if position.y != start.y {
        I2 { y: if position.y < start.y { position.y + 1 } else { position.y - 1 } as i32, ..position }
    } else {
        I2 { x: if position.x < start.x { position.x + 1 } else { position.x - 1 } as i32, ..position }
    }
}

/// the decisions of one ai frame
pub open spec fn ai_outcome(
    position: I2,
    start_delay: u32,
    end_delay: u32,
    states: Seq<CursorState>,
    comps: Seq<Component>,
) -> AiOutcome {
    let unchanged = AiOutcome {
        position,
        start_delay,
        end_delay,
        queue: QueueChange::Keep,
        swap_at: None,
    };
    if end_delay > 0 {
        AiOutcome { end_delay: (end_delay - 1) as u32, ..unchanged }
    } else if states.len() == 0 {
        unchanged
    } else if start_delay < START_DELAY_TIME {
        AiOutcome { start_delay: (start_delay + 1) as u32, ..unchanged }
    } else {
        match states[0] {
            CursorState::Idle => AiOutcome {
                end_delay: if states.len() == 1 { END_DELAY_TIME } else { end_delay },
                start_delay: 0,
                queue: QueueChange::PopFront,
                ..unchanged
            },
            CursorState::MoveSwap { counter, goal } => {
                let c = (counter + 1) as u32;
                let p = moved(c, position, goal);
                if p == goal {
                    AiOutcome {
                        position: p,
                        queue: QueueChange::SetFront(CursorState::Idle),
                        swap_at: Some(p),
                        ..unchanged
                    }
                } else {
                    AiOutcome {
                        position: p,
                        queue: QueueChange::SetFront(CursorState::MoveSwap { counter: c, goal }),
                        ..unchanged
                    }
                }
            },
            CursorState::MoveTransport { counter, reached, swap_end, start, goal } => {
                if any_clear_started(comps) {
                    AiOutcome { end_delay: END_DELAY_TIME, queue: QueueChange::Clear, ..unchanged }
                } else if !reached {
                    if position == goal {
                        AiOutcome {
                            start_delay: 0,
                            queue: QueueChange::SetFront(
                                CursorState::MoveTransport { counter: 0, reached: true, swap_end, start, goal },
                            ),
                            ..unchanged
                        }
                    } else {
                        let c = (counter + 1) as u32;
                        AiOutcome {
                            position: moved(c, position, goal),
                            queue: QueueChange::SetFront(
                                CursorState::MoveTransport { counter: c, reached, swap_end, start, goal },
                            ),
                            ..unchanged
                        }
                    }
                } else if counter < FRAME_LIMIT {
                    AiOutcome {
                        queue: QueueChange::SetFront(
                            CursorState::MoveTransport { counter: (counter + 1) as u32, reached, swap_end, start, goal },
                        ),
                        ..unchanged
                    }
                } else if position == start {
                    AiOutcome {
                        queue: QueueChange::SetFront(CursorState::Idle),
                        swap_at: if swap_end { Some(position) } else { None },
                        ..unchanged
                    }
                } else {
                    AiOutcome {
                        position: transport_step(position, start),
                        queue: QueueChange::SetFront(
                            CursorState::MoveTransport { counter: 0, reached, swap_end, start, goal },
                        ),
                        swap_at: Some(position),
                        ..unchanged
                    }
                }
            },
        }
    }
}

/// the computer player's frame counts up the counter of the state at the front of its queue:
/// no delay runs and the front state moves the cursor toward its goal
pub open spec fn ai_counts_up(c: Cursor, comps: Seq<Component>) -> bool {
    &&& c.end_delay == 0
    &&& c.states@.len() > 0
    &&& c.start_delay >= START_DELAY_TIME
    &&& match c.states@[0] {
        CursorState::MoveSwap { .. } => true,
        CursorState::MoveTransport { reached, goal, .. } => !any_clear_started(comps) && !reached && c.position != goal,
        CursorState::Idle => false,
    }
}

/// where the computer player's frame counts a counter up, it has room to
pub open spec fn ai_counter_room(c: Cursor, comps: Seq<Component>) -> bool {
    ai_counts_up(c, comps) ==> front_counter_room(c.states@)
}

/// the counters of the ai state at the front of the queue can still count up
pub open spec fn front_counter_room(states: Seq<CursorState>) -> bool {
    states.len() > 0 ==> match states[0] {
        CursorState::MoveSwap { counter, .. } => counter < u32::MAX,
        CursorState::MoveTransport { counter, .. } => counter < u32::MAX,
        _ => true,
    }
}

/// the cursor sits at a position the player can reach
pub open spec fn player_position(p: I2) -> bool {
    0 <= p.x <= GRID_WIDTH - 2 && 0 <= p.y <= GRID_HEIGHT - 2
}

/// a held direction moves the cursor on the first frame and after `FRAME_LIMIT` frames
pub open spec fn fast(frames: Option<u32>) -> bool {
    frames matches Some(f) && (f == 1 || f > FRAME_LIMIT)
}

/// frames a key or its gamepad button has been held for
pub open spec fn held(input: &Input, key: u32, button: u32) -> Option<u32> {
    max_frames(down_frames(input.key_downs@, key), down_frames(input.button_downs@, button))
}

/// the cursor position after the player moved it, inside the area the player can reach
pub open spec fn player_moved(input: &Input, p: I2) -> I2 {
    let x1 = if p.x > 0 && fast(held(input, KEY_LEFT, BUTTON_DPAD_LEFT)) { p.x - 1 } else { p.x as int };
    let x2 = if x1 < GRID_WIDTH - 2 && fast(held(input, KEY_RIGHT, BUTTON_DPAD_RIGHT)) { x1 + 1 } else { x1 };
    let y1 = if p.y > 0 && fast(held(input, KEY_UP, BUTTON_DPAD_UP)) { p.y - 1 } else { p.y as int };
    let y2 = if y1 < GRID_HEIGHT - 2 && fast(held(input, KEY_DOWN, BUTTON_DPAD_DOWN)) { y1 + 1 } else { y1 };
    I2 { x: x2 as i32, y: y2 as i32 }
}

/// the player asks for a swap
pub open spec fn player_swaps(input: &Input) -> bool {
    frames_of(input.key_downs@, KEY_S) == 1 || frames_of(input.button_downs@, BUTTON_SOUTH) == 1
        || frames_of(input.button_downs@, BUTTON_EAST) == 1
}

/// the player asks to lift the component at the cursor by a row
pub open spec fn key_lift(input: &Input) -> bool {
    frames_of(input.key_downs@, KEY_A) == 1
}

/// the component at the cursor and the one above it lie in the list
pub open spec fn lift_ok(p: I2, len: int) -> bool {
    &&& p.index_defined()
    &&& GRID_WIDTH <= p.index_of() < len
}

/// the components after the player acted at the (moved) cursor position
pub open spec fn player_components(input: &Input, p: I2, comps: Seq<Component>) -> Seq<Component> {
    let after_swap = if player_swaps(input) { swapped(comps, p) } else { comps };
    if key_lift(input) {
        let i = p.index_of();
        let j = i - GRID_WIDTH;
        after_swap.update(i, after_swap[j]).update(j, after_swap[i])
    } else {
        after_swap
    }
}

/// pixel position of a grid coordinate
pub open spec fn pixel_position(p: I2) -> I2 {
    I2 { x: (p.x * ATLAS_TILE) as i32, y: (p.y * ATLAS_TILE) as i32 }
}

/// the pixel position of the coordinate fits into an `i32`
pub open spec fn position_animatable(p: I2) -> bool {
    &&& -0x0400_0000 <= p.x < 0x0400_0000
    &&& -0x0400_0000 <= p.y < 0x0400_0000
}


/// the position the player moves the cursor to, see `player_moved`
pub fn player_target(input: &Input, position: I2) -> (r: I2)
    ensures
        r == player_moved(input, position),
{
    let left = input.kb_down_frames(KEY_LEFT, BUTTON_DPAD_LEFT);
    let right = input.kb_down_frames(KEY_RIGHT, BUTTON_DPAD_RIGHT);
    let up = input.kb_down_frames(KEY_UP, BUTTON_DPAD_UP);
    let down = input.kb_down_frames(KEY_DOWN, BUTTON_DPAD_DOWN);
    let mut p = position;
    if p.x > 0 {
        if let Some(frame) = left {
            if frame == 1 || frame > FRAME_LIMIT {
                p.x = p.x - 1;
            }
        }
    }
    if p.x < (GRID_WIDTH - 2) as i32 {
        if let Some(frame) = right {
            if frame == 1 || frame > FRAME_LIMIT {
                p.x = p.x + 1;
            }
        }
    }
    if p.y > 0 {
        if let Some(frame) = up {
            if frame == 1 || frame > FRAME_LIMIT {
                p.y = p.y - 1;
            }
        }
    }
    if p.y < (GRID_HEIGHT - 2) as i32 {
        if let Some(frame) = down {
            if frame == 1 || frame > FRAME_LIMIT {
                p.y = p.y + 1;
            }
        }
    }
    p
}

/// wether the cursor can swap at the position of a list of the given length
pub fn swap_position_fits(p: I2, len: usize) -> (r: bool)
    ensures
        r == swap_position_ok(p, len as int),
{
    if p.x < 0 || p.y < 0 {
        return false;
    }
    let x = p.x as u64;
    let y = p.y as u64;
    let i: u64 = y * 6 + x;
    if i > usize::MAX as u64 {
        return false;
    }
    (i as usize) < len && (i as usize) + 1 < len
}

/// wether the component at the position and the one above it lie in a list of the given length
pub fn lift_position_fits(p: I2, len: usize) -> (r: bool)
    ensures
        r == lift_ok(p, len as int),
{
    if p.x < 0 || p.y < 0 {
        return false;
    }
    let x = p.x as u64;
    let y = p.y as u64;
    let i: u64 = y * 6 + x;
    if i > usize::MAX as u64 {
        return false;
    }
    GRID_WIDTH <= (i as usize) && (i as usize) < len
}

/// what `Cursor::update` asks of the cursor, the input and the components
pub open spec fn cursor_ready(c: Cursor, input: &Input, comps: Seq<Component>) -> bool {
    &&& position_animatable(c.position)
    &&& c.ai ==> ai_counter_room(c, comps)
    &&& c.ai ==> (ai_outcome(c.position, c.start_delay, c.end_delay, c.states@, comps).swap_at matches Some(p)
        ==> swap_position_ok(p, comps.len() as int))
    &&& !c.ai ==> (player_swaps(input) ==> swap_position_ok(player_moved(input, c.position), comps.len() as int))
    &&& !c.ai ==> (key_lift(input) ==> lift_ok(player_moved(input, c.position), comps.len() as int))
}

impl Cursor {
    /// the cursor the grids start with
    pub fn default() -> (r: Cursor)
        ensures
            r.position == (I2 { x: 2, y: 7 }),
            r.goal_position == I2::zero_spec(),
            r.last_position == I2::zero_spec(),
            r.goal_counter == 0,
            r.counter == 0,
            r.y_offset == 0,
            r.states@.len() == 0,
            r.start_delay == 0,
            r.end_delay == 0,
            !r.ai,
    {
        Cursor {
            position: i2(2, 7),
            goal_position: I2::zero(),
            last_position: I2::zero(),
            goal_counter: 0,
            counter: 0,
            y_offset: 0,
            states: VecDeque::new(),
            start_delay: 0,
            end_delay: 0,
            ai: false,
        }
    }

    /// puts the cursor back to its start position
    pub fn reset(&mut self)
        ensures
            final(self).position == (I2 { x: 2, y: 7 }),
            final(self).last_position == old(self).last_position,
            final(self).goal_position == old(self).goal_position,
            final(self).goal_counter == old(self).goal_counter,
            final(self).counter == old(self).counter,
            final(self).y_offset == old(self).y_offset,
            final(self).states@ == old(self).states@,
            final(self).start_delay == old(self).start_delay,
            final(self).end_delay == old(self).end_delay,
            final(self).ai == old(self).ai,
    {
        self.position = i2(2, 7);
    }

    /// a default cursor, controlled by the computer if `ai` is set
    pub fn new(ai: bool) -> (r: Cursor)
        ensures
            r.ai == ai,
            r.position == (I2 { x: 2, y: 7 }),
            r.goal_position == I2::zero_spec(),
            r.last_position == I2::zero_spec(),
            r.goal_counter == 0,
            r.counter == 0,
            r.y_offset == 0,
            r.states@.len() == 0,
            r.start_delay == 0,
            r.end_delay == 0,
    {
        let mut c = Cursor::default();
        c.ai = ai;
        c
    }

    /// sets the blocks at the cursor and right of it to swap, if both sides can swap; nothing
    /// swaps while a block hangs above either of the two spaces
    pub fn swap_blocks(&self, components: &mut Vec<Component>)
        requires
            swap_position_ok(self.position, old(components)@.len() as int),
        ensures
            final(components)@ == swapped(old(components)@, self.position),
    {
        let i = self.position.to_index();
        assert(i + 1 < components.len());
        // no swap under a hanging block
        if i >= GRID_WIDTH {
            let above_left = match components[i - GRID_WIDTH] {
                Component::Block { state: BlockState::Hang { .. }, .. } => true,
                _ => false,
            };
            let above_right = match components[i + 1 - GRID_WIDTH] {
                Component::Block { state: BlockState::Hang { .. }, .. } => true,
                _ => false,
            };
            if above_left || above_right {
                return;
            }
        }
        let right = can_swap(components, i + 1);
        let left = can_swap(components, i);

        if right {
            if let Component::Block { block, state } = components[i] {
                if let BlockState::Idle = state {
                    components.set(i, Component::Block { block, state: BlockState::Swap { counter: 0, direction: 1 } });
                }
            }
        }
        if left {
            if let Component::Block { block, state } = components[i + 1] {
                if let BlockState::Idle = state {
                    components.set(i + 1, Component::Block { block, state: BlockState::Swap { counter: 0, direction: -1 } });
                }
            }
        }
        proof {
            let comps = old(components)@;
            let ii = self.position.index_of();
            let after_left = if can_swap_spec(comps[ii + 1]) { comps.update(ii, start_swap(comps[ii], 1i32)) } else { comps };
            assert(components@ =~= swapped(comps, self.position));
        }
    }


    /// where the computer player swaps this frame, see `ai_outcome`
    pub fn ai_swap_target(&self, components: &Vec<Component>) -> (r: Option<I2>)
        requires
            ai_counter_room(*self, components@),
        ensures
            r == ai_outcome(self.position, self.start_delay, self.end_delay, self.states@, components@).swap_at,
    {
        if self.end_delay > 0 || self.states.len() == 0 || self.start_delay < START_DELAY_TIME {
            return None;
        }
        match self.states[0] {
            CursorState::Idle => None,
            CursorState::MoveSwap { counter, goal } => {
                let mut c = counter;
                let mut p = self.position;
                move_to(&mut c, &mut p, goal);
                if p == goal {
                    Some(p)
                } else {
                    None
                }
            },
            CursorState::MoveTransport { counter, reached, swap_end, start, .. } => {
                if clear_started(components) {
                    None
                } else if !reached {
                    None
                } else if counter < FRAME_LIMIT {
                    None
                } else if self.position == start {
                    if swap_end {
                        Some(self.position)
                    } else {
                        None
                    }
                } else {
                    Some(self.position)
                }
            },
        }
    }

    /// wether a frame of the cursor can run, see `cursor_ready`
    pub fn update_ready(&self, input: &Input, components: &Vec<Component>) -> (r: bool)
        ensures
            r == cursor_ready(*self, input, components@),
    {
        let p = self.position;
        if !(-0x0400_0000 <= p.x && p.x < 0x0400_0000 && -0x0400_0000 <= p.y && p.y < 0x0400_0000) {
            return false;
        }
        let len = components.len();
        if self.ai {
            if self.end_delay == 0 && self.states.len() > 0 && self.start_delay >= START_DELAY_TIME {
                match self.states[0] {
                    CursorState::MoveSwap { counter, .. } => {
                        if counter == u32::MAX {
                            return false;
                        }
                    },
                    CursorState::MoveTransport { counter, reached, goal, .. } => {
                        if counter == u32::MAX && !reached && self.position != goal && !clear_started(components) {
                            return false;
                        }
                    },
                    _ => {},
                }
            }
            match self.ai_swap_target(components) {
                Some(q) => swap_position_fits(q, len),
                None => true,
            }
        } else {
            let target = player_target(input, p);
            let swaps = input.key_pressed(KEY_S) || input.button_pressed(BUTTON_SOUTH) || input.button_pressed(BUTTON_EAST);
            if swaps && !swap_position_fits(target, len) {
                return false;
            }
            if input.key_pressed(KEY_A) && !lift_position_fits(target, len) {
                return false;
            }
            true
        }
    }

    /// one frame of the computer player: works on the state at the front of the queue
    pub fn update_ai(&mut self, components: &mut Vec<Component>)
        requires
            ai_counter_room(*old(self), old(components)@),
            ({
                let out = ai_outcome(old(self).position, old(self).start_delay, old(self).end_delay, old(self).states@, old(components)@);
                out.swap_at matches Some(p) ==> swap_position_ok(p, old(components)@.len() as int)
            }),
        ensures
            ({
                let out = ai_outcome(old(self).position, old(self).start_delay, old(self).end_delay, old(self).states@, old(components)@);
                &&& final(self).position == out.position
                &&& final(self).start_delay == out.start_delay
                &&& final(self).end_delay == out.end_delay
                &&& final(self).states@ == apply_queue(old(self).states@, out.queue)
                &&& final(components)@ == match out.swap_at {
                    Some(p) => swapped(old(components)@, p),
                    None => old(components)@,
                }
            }),
            final(self).last_position == old(self).last_position,
            final(self).goal_position == old(self).goal_position,
            final(self).goal_counter == old(self).goal_counter,
            final(self).counter == old(self).counter,
            final(self).y_offset == old(self).y_offset,
            final(self).ai == old(self).ai,
    {
        if self.end_delay > 0 {
            self.end_delay = self.end_delay - 1;
            return;
        }
        if self.states.len() == 0 {
            return;
        }
        if self.start_delay < START_DELAY_TIME {
            self.start_delay = self.start_delay + 1;
            return;
        }
        let front = self.states[0];
        match front {
            CursorState::Idle => {
                if self.states.len() == 1 {
                    self.end_delay = END_DELAY_TIME;
                }
                self.states.pop_front();
                self.start_delay = 0;
            },
            CursorState::MoveSwap { counter, goal } => {
                let mut counter = counter;
                move_to(&mut counter, &mut self.position, goal);
                if self.position == goal {
                    self.set_front(CursorState::Idle);
                    self.swap_blocks(components);
                } else {
                    self.set_front(CursorState::MoveSwap { counter, goal });
                }
            },
            CursorState::MoveTransport { counter, reached, swap_end, start, goal } => {
                // restarts state to idle if any clear occurs
                if clear_started(components) {
                    self.states.clear();
                    self.end_delay = END_DELAY_TIME;
                    return;
                }
                if !reached {
                    if self.position == goal {
                        self.set_front(CursorState::MoveTransport { counter: 0, reached: true, swap_end, start, goal });
                        self.start_delay = 0;
                    } else {
                        let mut counter = counter;
                        move_to(&mut counter, &mut self.position, goal);
                        self.set_front(CursorState::MoveTransport { counter, reached, swap_end, start, goal });
                    }
                } else if counter < FRAME_LIMIT {
                    self.set_front(CursorState::MoveTransport { counter: counter + 1, reached, swap_end, start, goal });
                } else {
                    if self.position == start {
                        self.set_front(CursorState::Idle);
                        // only swap at end if wanted
                        if swap_end {
                            self.swap_blocks(components);
                        }
                        return;
                    }
                    self.set_front(CursorState::MoveTransport { counter: 0, reached, swap_end, start, goal });
                    if self.position.y != start.y {
                        self.swap_blocks(components);
                        if self.position.y < start.y {
                            self.position.y = self.position.y + 1;
                        } else {
                            self.position.y = self.position.y - 1;
                        }
                        return;
                    }
                    self.swap_blocks(components);
                    if self.position.x < start.x {
                        self.position.x = self.position.x + 1;
                    } else {
                        self.position.x = self.position.x - 1;
                    }
                }
            },
        }
    }

    /// replaces the state at the front of the queue
    fn set_front(&mut self, state: CursorState)
        requires
            old(self).states@.len() > 0,
        ensures
            final(self).states@ == old(self).states@.update(0, state),
            final(self).position == old(self).position,
            final(self).last_position == old(self).last_position,
            final(self).goal_position == old(self).goal_position,
            final(self).goal_counter == old(self).goal_counter,
            final(self).counter == old(self).counter,
            final(self).y_offset == old(self).y_offset,
            final(self).ai == old(self).ai,
            final(self).start_delay == old(self).start_delay,
            final(self).end_delay == old(self).end_delay,
    {
        self.states.pop_front();
        self.states.push_front(state);
        assert(self.states@ =~= old(self).states@.update(0, state));
    }

    /// input update which controls the movement of the cursor and also swapping of blocks in the grid
    fn update_player(&mut self, input: &Input, components: &mut Vec<Component>)
        requires
            (player_swaps(input) ==> swap_position_ok(player_moved(input, old(self).position), old(components)@.len() as int)),
            (key_lift(input) ==> lift_ok(player_moved(input, old(self).position), old(components)@.len() as int)),
        ensures
            final(self).position == player_moved(input, old(self).position),
            final(components)@ == player_components(input, player_moved(input, old(self).position), old(components)@),
            final(self).states@ == old(self).states@,
            final(self).start_delay == old(self).start_delay,
            final(self).end_delay == old(self).end_delay,
            final(self).last_position == old(self).last_position,
            final(self).goal_position == old(self).goal_position,
            final(self).goal_counter == old(self).goal_counter,
            final(self).counter == old(self).counter,
            final(self).y_offset == old(self).y_offset,
            final(self).ai == old(self).ai,
    {
        let left = input.kb_down_frames(KEY_LEFT, BUTTON_DPAD_LEFT);
        let right = input.kb_down_frames(KEY_RIGHT, BUTTON_DPAD_RIGHT);
        let up = input.kb_down_frames(KEY_UP, BUTTON_DPAD_UP);
        let down = input.kb_down_frames(KEY_DOWN, BUTTON_DPAD_DOWN);

        // movement dependant on how long a key down has been held for in frames
        if self.position.x > 0 {
            if let Some(frame) = left {
                if frame == 1 || frame > FRAME_LIMIT {
                    self.position.x = self.position.x - 1;
                }
            }
        }
        if self.position.x < (GRID_WIDTH - 2) as i32 {
            if let Some(frame) = right {
                if frame == 1 || frame > FRAME_LIMIT {
                    self.position.x = self.position.x + 1;
                }
            }
        }
        if self.position.y > 0 {
            if let Some(frame) = up {
                if frame == 1 || frame > FRAME_LIMIT {
                    self.position.y = self.position.y - 1;
                }
            }
        }
        if self.position.y < (GRID_HEIGHT - 2) as i32 {
            if let Some(frame) = down {
                if frame == 1 || frame > FRAME_LIMIT {
                    self.position.y = self.position.y + 1;
                }
            }
        }
        assert(self.position == player_moved(input, old(self).position));

        if input.key_pressed(KEY_S) || input.button_pressed(BUTTON_SOUTH) || input.button_pressed(BUTTON_EAST) {
            self.swap_blocks(components);
        }

        // lifts the component below the cursor up by a row, a debugging help
        if input.key_pressed(KEY_A) {
            let index = self.position.to_index();
            swap_components(components, index, index - GRID_WIDTH);
        }
    }

    /// one frame of the cursor: animation counters, then the player or the computer moves it
    pub fn update(&mut self, input: &Input, components: &mut Vec<Component>)
        requires
            position_animatable(old(self).position),
            old(self).ai ==> ai_counter_room(*old(self), old(components)@),
            old(self).ai ==> ({
                let out = ai_outcome(old(self).position, old(self).start_delay, old(self).end_delay, old(self).states@, old(components)@);
                out.swap_at matches Some(p) ==> swap_position_ok(p, old(components)@.len() as int)
            }),
            !old(self).ai ==> (player_swaps(input) ==> swap_position_ok(player_moved(input, old(self).position), old(components)@.len() as int)),
            !old(self).ai ==> (key_lift(input) ==> lift_ok(player_moved(input, old(self).position), old(components)@.len() as int)),
        ensures
            final(self).counter == if old(self).counter < ANIMATION_TIME - 1 { old(self).counter + 1 } else { 0 },
            final(self).goal_position == if old(self).last_position != old(self).position { pixel_position(old(self).position) } else { old(self).goal_position },
            final(self).goal_counter == if old(self).last_position != old(self).position { LERP_TIME - 1 } else if old(self).goal_counter > 0 { old(self).goal_counter - 1 } else { 0 },
            final(self).last_position == old(self).position,
            final(self).y_offset == old(self).y_offset,
            final(self).ai == old(self).ai,
            old(self).ai ==> ({
                let out = ai_outcome(old(self).position, old(self).start_delay, old(self).end_delay, old(self).states@, old(components)@);
                &&& final(self).position == out.position
                &&& final(self).start_delay == out.start_delay
                &&& final(self).end_delay == out.end_delay
                &&& final(self).states@ == apply_queue(old(self).states@, out.queue)
                &&& final(components)@ == match out.swap_at {
                    Some(p) => swapped(old(components)@, p),
                    None => old(components)@,
                }
            }),
            !old(self).ai ==> ({
                &&& final(self).position == player_moved(input, old(self).position)
                &&& final(components)@ == player_components(input, player_moved(input, old(self).position), old(components)@)
                &&& final(self).states@ == old(self).states@
                &&& final(self).start_delay == old(self).start_delay
                &&& final(self).end_delay == old(self).end_delay
            }),
    {
        if self.counter < ANIMATION_TIME - 1 {
            self.counter = self.counter + 1;
        } else {
            self.counter = 0;
        }

        // cursor lerp animation
        if self.last_position != self.position {
            let tile = ATLAS_TILE as i32;
            assert(tile == 32);
            let px = self.position.x * tile;
            let py = self.position.y * tile;
            self.goal_position = I2 { x: px, y: py };
            self.goal_counter = LERP_TIME;
        }
        if self.goal_counter > 0 {
            self.goal_counter = self.goal_counter - 1;
        }
        self.last_position = self.position;

        if self.ai {
            self.update_ai(components);
        } else {
            self.update_player(input, components);
        }
    }
}

} // verus!
