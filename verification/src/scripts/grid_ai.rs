use vstd::prelude::*;
use crate::helpers::data::{GRID_TOTAL, GRID_WIDTH, GRID_HEIGHT};
use crate::helpers::math::{I2, ToI2};
use crate::scripts::block::BlockState;
use crate::scripts::component::Component;
use crate::scripts::cursor::{Cursor, CursorState};
use crate::scripts::grid::Grid;

verus! {

/// wether the component is an idle block of the given vframe
pub open spec fn idle_of(c: Component, vframe: u32) -> bool {
    match c {
        Component::Block { block, state: BlockState::Idle } => block.vframe == vframe,
        _ => false,
    }
}

/// the absolute value of an integer
pub open spec fn abs_int(v: int) -> int {
    if v < 0 {
        -v
    } else {
        v
    }
}

/// a space of the grid that can not take a block moved over it: an empty space above an empty
/// space, or a clearing block
pub open spec fn gap_at(c: Seq<Component>, i: int) -> bool {
    ||| (c[i] is Empty && i < GRID_TOTAL - GRID_WIDTH && c[i + GRID_WIDTH] is Empty)
    ||| c[i] matches Component::Block { state: BlockState::Clear { .. }, .. }
}

/// an empty space above an empty space
pub open spec fn hole_at(c: Seq<Component>, i: int) -> bool {
    c[i] is Empty && i < GRID_TOTAL - GRID_WIDTH && c[i + GRID_WIDTH] is Empty
}

/// the first hole of row `y` from column `x` on
pub open spec fn first_hole(c: Seq<Component>, y: int, x: int) -> Option<usize>
    decreases GRID_WIDTH - x,
{
    if x >= GRID_WIDTH {
        None
    } else if hole_at(c, y * GRID_WIDTH + x) {
        Some((y * GRID_WIDTH + x) as usize)
    } else {
        first_hole(c, y, x + 1)
    }
}

/// the first row from `y` on in which column `x` holds a block
pub open spec fn top_block(c: Seq<Component>, x: int, y: int) -> Option<int>
    decreases GRID_HEIGHT - y,
{
    if y >= GRID_HEIGHT {
        None
    } else if c[y * GRID_WIDTH + x] is Block {
        Some(y)
    } else {
        top_block(c, x, y + 1)
    }
}

/// the highest top (smallest row), the lowest top (largest row) and the column of the highest
/// top among the first `n` columns, starting from `(GRID_HEIGHT, 0, 0)`; columns without a
/// block are skipped
pub open spec fn peaks(c: Seq<Component>, n: int) -> (int, int, int)
    decreases n,
{
    if n <= 0 {
        (GRID_HEIGHT as int, 0, 0)
    } else {
        let prev = peaks(c, n - 1);
        match top_block(c, n - 1, 0) {
            Some(y) => (
                if prev.0 > y { y } else { prev.0 },
                if prev.1 < y { y } else { prev.1 },
                if prev.0 > y { n - 1 } else { prev.2 },
            ),
            None => prev,
        }
    }
}

/// the first row below `y` (up to the second last row) in which column `x` holds a block
pub open spec fn peak_row(c: Seq<Component>, x: int, y: int) -> Option<int>
    decreases GRID_HEIGHT - 1 - y,
{
    if y >= GRID_HEIGHT - 1 {
        None
    } else if c[y * GRID_WIDTH + x] is Block {
        Some(y)
    } else {
        peak_row(c, x, y + 1)
    }
}

/// the scan of `peak_row` from row `y` on stays inside the grid
pub open spec fn peak_scan_in_grid(c: Seq<Component>, x: int, y: int) -> bool
    decreases GRID_HEIGHT - 1 - y,
{
    y >= GRID_HEIGHT - 1 || (y * GRID_WIDTH + x < GRID_TOTAL && (c[y * GRID_WIDTH + x] is Block || peak_scan_in_grid(c, x, y + 1)))
}

/// the move state the computer player takes to swap at a grid index
pub open spec fn swap_move(i: usize) -> CursorState {
    CursorState::MoveSwap { counter: 0, goal: I2 { x: i.col_of() as i32, y: i.row_of() as i32 } }
}

/// two cursors agree on everything but their queued states
pub open spec fn cursor_same_but_states(a: Cursor, b: Cursor) -> bool {
    &&& a.y_offset == b.y_offset
    &&& a.position == b.position
    &&& a.last_position == b.last_position
    &&& a.counter == b.counter
    &&& a.goal_position == b.goal_position
    &&& a.goal_counter == b.goal_counter
    &&& a.ai == b.ai
    &&& a.start_delay == b.start_delay
    &&& a.end_delay == b.end_delay
}

/// two grids agree on everything but the queued states of their cursors
pub open spec fn grid_same_but_states(a: Grid, b: Grid) -> bool {
    &&& a.id == b.id
    &&& a.components@ == b.components@
    &&& a.combo_highlight == b.combo_highlight
    &&& a.push_counter == b.push_counter
    &&& a.push_amount == b.push_amount
    &&& a.push_raise == b.push_raise
    &&& a.rng == b.rng
    &&& cursor_same_but_states(a.cursor, b.cursor)
}


/// the count, the summed distance and the moves of the idle blocks of the vframe among the first
/// `n` spaces of row `y`, measured from column `x`; a move is the index of `(x, y)` with the
/// distance, and none is kept for the space `(x, y)` itself
pub open spec fn row_candidate(c: Seq<Component>, vframe: u32, y: int, x: int, n: int) -> (int, int, Seq<(usize, i32)>)
    decreases n,
{
    if n <= 0 {
        (0, 0, Seq::empty())
    } else {
        let prev = row_candidate(c, vframe, y, x, n - 1);
        let x_off = n - 1;
        if idle_of(c[y * GRID_WIDTH + x_off], vframe) {
            let d = x - x_off;
            (prev.0 + 1, prev.1 + abs_int(d), if x != x_off { prev.2.push(((y * GRID_WIDTH + x) as usize, d as i32)) } else { prev.2 })
        } else {
            prev
        }
    }
}

/// a candidate of `goal` blocks replaces the best one found so far if its summed distance is
/// smaller, or if there is none yet
pub open spec fn consider(best: (Option<i32>, Seq<(usize, i32)>), count: int, sum: int, moves: Seq<(usize, i32)>, goal: int) -> (Option<i32>, Seq<(usize, i32)>) {
    if count == goal {
        match best.0 {
            Some(d) => if d > sum { (Some(sum as i32), moves) } else { best },
            None => (Some(sum as i32), moves),
        }
    } else {
        best
    }
}

/// the best horizontal candidate after the columns from `x` on of row `y` were looked at
pub open spec fn h_search_x(c: Seq<Component>, goal: int, vframe: u32, y: int, x: int, best: (Option<i32>, Seq<(usize, i32)>)) -> (Option<i32>, Seq<(usize, i32)>)
    decreases GRID_WIDTH - goal - x,
{
    if x >= GRID_WIDTH - goal {
        best
    } else {
        let cand = row_candidate(c, vframe, y, x, GRID_WIDTH as int);
        h_search_x(c, goal, vframe, y, x + 1, consider(best, cand.0, cand.1, cand.2, goal))
    }
}

/// the best horizontal candidate after the rows from `y` up to `y_end` were looked at
pub open spec fn h_search_y(c: Seq<Component>, goal: int, vframe: u32, y: int, y_end: int, best: (Option<i32>, Seq<(usize, i32)>)) -> (Option<i32>, Seq<(usize, i32)>)
    decreases y_end - y,
{
    if y >= y_end {
        best
    } else {
        h_search_y(c, goal, vframe, y + 1, y_end, h_search_x(c, goal, vframe, y, 0, best))
    }
}

/// the best horizontal candidate after the vframes from `v` up to 7 were looked at
pub open spec fn h_search(c: Seq<Component>, goal: int, v: int, y_start: int, y_end: int, best: (Option<i32>, Seq<(usize, i32)>)) -> (Option<i32>, Seq<(usize, i32)>)
    decreases 8 - v,
{
    if v >= 8 {
        best
    } else {
        h_search(c, goal, v + 1, y_start, y_end, h_search_y(c, goal, v as u32, y_start, y_end, best))
    }
}

/// the index a block is moved to: the distance past it, or one short of it
pub open spec fn transport_goal(start: usize, d: i32) -> int {
    if d > 0 {
        start - d
    } else {
        start - (d + 1)
    }
}

/// the move state the computer player takes to carry a block from an index by a distance
pub open spec fn transport_move(start: usize, d: i32, swap_end: bool) -> CursorState {
    let g = transport_goal(start, d) as i32;
    CursorState::MoveTransport {
        counter: 0,
        reached: false,
        swap_end,
        start: I2 { x: start.col_of() as i32, y: start.row_of() as i32 },
        goal: I2 { x: g.col_of() as i32, y: g.row_of() as i32 },
    }
}

/// the move states queued for the best candidate, none without one
pub open spec fn planned(best: (Option<i32>, Seq<(usize, i32)>), swap_end: bool) -> Seq<CursorState> {
    if best.0.is_some() {
        best.1.map_values(|m: (usize, i32)| transport_move(m.0, m.1, swap_end))
    } else {
        Seq::empty()
    }
}

/// the moves are index and distance pairs of the grid, as the searches make them
pub open spec fn moves_in_grid(moves: Seq<(usize, i32)>) -> bool {
    forall|k: int| 0 <= k < moves.len() ==> (#[trigger] moves[k]).0 < GRID_TOTAL && -(GRID_WIDTH as int) < moves[k].1 < GRID_TOTAL
}

/// the first column from `x_off` on of row `row` that holds an idle block of the vframe
pub open spec fn first_idle(c: Seq<Component>, vframe: u32, row: int, x_off: int) -> Option<int>
    decreases GRID_WIDTH - x_off,
{
    if x_off >= GRID_WIDTH {
        None
    } else if idle_of(c[row * GRID_WIDTH + x_off], vframe) {
        Some(x_off)
    } else {
        first_idle(c, vframe, row, x_off + 1)
    }
}

/// the count, the summed distance and the moves of the first idle block of the vframe of each of
/// the first `n` rows from `y` on, measured from column `x`; a move is the index of column `x`
/// in that row with the distance, and none is kept for a block in column `x` itself
pub open spec fn column_candidate(c: Seq<Component>, vframe: u32, y: int, x: int, n: int) -> (int, int, Seq<(usize, i32)>)
    decreases n,
{
    if n <= 0 {
        (0, 0, Seq::empty())
    } else {
        let prev = column_candidate(c, vframe, y, x, n - 1);
        let row = y + n - 1;
        match first_idle(c, vframe, row, 0) {
            Some(x_off) => {
                let d = x - x_off;
                (prev.0 + 1, prev.1 + abs_int(d), if x != x_off { prev.2.push(((row * GRID_WIDTH + x) as usize, d as i32)) } else { prev.2 })
            },
            None => prev,
        }
    }
}

/// column `x` holds an empty space in the `goal` rows from `y` on
pub open spec fn column_has_empty(c: Seq<Component>, y: int, x: int, goal: int) -> bool {
    exists|y_off: int| 0 <= y_off < goal && #[trigger] c[(y + y_off) * GRID_WIDTH + x] is Empty
}

/// the scan of column `x` from row `y + y_off` on, which stops at an empty space, stays inside
/// the grid
pub open spec fn column_scan_in_grid(c: Seq<Component>, y: int, x: int, goal: int, y_off: int) -> bool
    decreases goal - y_off,
{
    y_off >= goal || ((y + y_off) * GRID_WIDTH + x < GRID_TOTAL && (c[(y + y_off) * GRID_WIDTH + x] is Empty
        || column_scan_in_grid(c, y, x, goal, y_off + 1)))
}

/// the best vertical candidate after the vframes from `v` on were looked at in column `x`
pub open spec fn v_search_v(c: Seq<Component>, goal: int, y: int, x: int, v: int, best: (Option<i32>, Seq<(usize, i32)>)) -> (Option<i32>, Seq<(usize, i32)>)
    decreases 8 - v,
{
    if v >= 8 {
        best
    } else {
        let cand = column_candidate(c, v as u32, y, x, goal);
        v_search_v(c, goal, y, x, v + 1, consider(best, cand.0, cand.1, cand.2, goal))
    }
}

/// the best vertical candidate after the columns from `x` on were looked at in row `y`; the
/// search of the row ends at the first column that holds an empty space
pub open spec fn v_search_x(c: Seq<Component>, goal: int, y: int, x: int, x_end: int, best: (Option<i32>, Seq<(usize, i32)>)) -> (Option<i32>, Seq<(usize, i32)>)
    decreases x_end - x,
{
    if x >= x_end {
        best
    } else if column_has_empty(c, y, x, goal) {
        best
    } else {
        v_search_x(c, goal, y, x + 1, x_end, v_search_v(c, goal, y, x, 3, best))
    }
}

/// the best vertical candidate after the rows from `y` up to `y_last` were looked at
pub open spec fn v_search(c: Seq<Component>, goal: int, y: int, y_last: int, x_start: int, x_end: int, best: (Option<i32>, Seq<(usize, i32)>)) -> (Option<i32>, Seq<(usize, i32)>)
    decreases y_last - y,
{
    if y >= y_last {
        best
    } else {
        v_search(c, goal, y + 1, y_last, x_start, x_end, v_search_x(c, goal, y, x_start, x_end, best))
    }
}

/// the columns the vertical search looks at in row `y` stay inside the grid
pub open spec fn v_row_in_grid(c: Seq<Component>, goal: int, y: int, x: int, x_end: int) -> bool
    decreases x_end - x,
{
    x >= x_end || (column_scan_in_grid(c, y, x, goal, 0) && (column_has_empty(c, y, x, goal) || v_row_in_grid(c, goal, y, x + 1, x_end)))
}

/// the rows the vertical search looks at stay inside the grid
pub open spec fn v_in_grid(c: Seq<Component>, goal: int, y: int, y_last: int, x_start: int, x_end: int) -> bool
    decreases y_last - y,
{
    y >= y_last || (v_row_in_grid(c, goal, y, x_start, x_end) && v_in_grid(c, goal, y + 1, y_last, x_start, x_end))
}

proof fn lemma_column_rows(c: Seq<Component>, y: int, x: int, goal: int, k: int)
    requires
        0 <= k,
        column_scan_in_grid(c, y, x, goal, k),
        !column_has_empty(c, y, x, goal),
        x >= 0,
        y >= 0,
    ensures
        k < goal ==> (y + goal - 1) * GRID_WIDTH + x < GRID_TOTAL,
    decreases goal - k,
{
    if k < goal {
        if c[(y + k) * GRID_WIDTH + x] is Empty {
            assert(column_has_empty(c, y, x, goal));
        }
        lemma_column_rows(c, y, x, goal, k + 1);
    }
}

proof fn lemma_column_scan_in_grid(c: Seq<Component>, y: int, x: int, goal: int, k: int)
    requires
        0 <= k,
        0 <= x,
        0 <= y,
        goal > 0 ==> (y + goal - 1) * GRID_WIDTH + x < GRID_TOTAL,
    ensures
        column_scan_in_grid(c, y, x, goal, k),
    decreases goal - k,
{
    if k < goal {
        lemma_column_scan_in_grid(c, y, x, goal, k + 1);
    }
}

proof fn lemma_v_row_in_grid(c: Seq<Component>, goal: int, y: int, x: int, x_end: int)
    requires
        0 <= x,
        0 <= y,
        x_end <= GRID_WIDTH,
        goal > 0 ==> y + goal - 1 < GRID_HEIGHT,
    ensures
        v_row_in_grid(c, goal, y, x, x_end),
    decreases x_end - x,
{
    if x < x_end {
        lemma_column_scan_in_grid(c, y, x, goal, 0);
        lemma_v_row_in_grid(c, goal, y, x + 1, x_end);
    }
}

/// the vertical search stays inside the grid when its last row range ends in the grid and its
/// columns are columns of the grid
pub proof fn lemma_v_in_grid(c: Seq<Component>, goal: int, y: int, y_last: int, x_start: int, x_end: int)
    requires
        0 <= y,
        0 <= x_start,
        x_end <= GRID_WIDTH,
        goal > 0 ==> y_last + goal - 2 < GRID_HEIGHT,
    ensures
        v_in_grid(c, goal, y, y_last, x_start, x_end),
    decreases y_last - y,
{
    if y < y_last {
        lemma_v_row_in_grid(c, goal, y, x_start, x_end);
        lemma_v_in_grid(c, goal, y + 1, y_last, x_start, x_end);
    }
}

/// a hole found by `first_hole` lies in its row
pub proof fn lemma_first_hole_in_row(c: Seq<Component>, y: int, x: int)
    requires
        0 <= y,
        0 <= x,
    ensures
        first_hole(c, y, x) matches Some(i) ==> y * GRID_WIDTH <= i < y * GRID_WIDTH + GRID_WIDTH,
    decreases GRID_WIDTH - x,
{
    if x < GRID_WIDTH {
        lemma_first_hole_in_row(c, y, x + 1);
    }
}

/// the column of the highest top found by `peaks` is a column of the grid
pub proof fn lemma_peaks_column(c: Seq<Component>, n: int)
    requires
        0 <= n <= GRID_WIDTH,
    ensures
        0 <= peaks(c, n).2 < GRID_WIDTH,
    decreases n,
{
    if n > 0 {
        lemma_peaks_column(c, n - 1);
    }
}

/// a column of the grid keeps the scan of `peak_row` inside the grid
pub proof fn lemma_peak_scan_in_grid(c: Seq<Component>, x: int, y: int)
    requires
        0 <= x < GRID_WIDTH,
        0 <= y,
    ensures
        peak_scan_in_grid(c, x, y),
    decreases GRID_HEIGHT - 1 - y,
{
    if y < GRID_HEIGHT - 1 {
        lemma_peak_scan_in_grid(c, x, y + 1);
    }
}

/// the path between two columns of row `y` holds a gap, see `gap_at`
pub open spec fn path_gap(c: Seq<Component>, a: int, b: int, y: int) -> bool {
    exists|x: int| (if a < b { a } else { b }) <= x < (if a < b { b } else { a }) && #[trigger] gap_at(c, y * GRID_WIDTH + x)
}

/// the first column from `x_off` on of row `row` holding a block of the vframe that can be
/// carried to column `x` over a path without gaps
pub open spec fn spawn_match(c: Seq<Component>, row: int, x: int, vframe: u32, x_off: int) -> Option<int>
    decreases GRID_WIDTH - x_off,
{
    if x_off >= GRID_WIDTH {
        None
    } else if (match c[row * GRID_WIDTH + x_off] {
        Component::Block { block, .. } => !path_gap(c, x_off, x, row) && block.vframe == vframe,
        _ => false,
    }) {
        Some(x_off)
    } else {
        spawn_match(c, row, x, vframe, x_off + 1)
    }
}

/// the block of row `y_start + y_off` that can be carried below a spawned block of the vframe
/// in column `x`, as the index of column `x` in that row and the index of the block; none if
/// the space there already holds a block of the vframe
pub open spec fn row_pair(c: Seq<Component>, y_start: int, x: int, y_off: int, vframe: u32) -> Option<(usize, usize)> {
    let row = y_start + y_off;
    if (match c[row * GRID_WIDTH + x] {
        Component::Block { block, .. } => block.vframe == vframe,
        _ => false,
    }) {
        None
    } else {
        match spawn_match(c, row, x, vframe, 0) {
            Some(x_off) => Some(((row * GRID_WIDTH + x) as usize, (row * GRID_WIDTH + x_off) as usize)),
            None => None,
        }
    }
}

/// the first column from `x` on whose spawned block in row `y_start` gets a block of its vframe
/// from each of the two rows below, with the two carries
pub open spec fn spawn_search(c: Seq<Component>, y_start: int, x: int) -> Option<((usize, usize), (usize, usize))>
    decreases GRID_WIDTH - x,
{
    if x >= GRID_WIDTH {
        None
    } else {
        match c[y_start * GRID_WIDTH + x] {
            Component::Block { block, state: BlockState::Spawned } => match (row_pair(c, y_start, x, 1, block.vframe), row_pair(c, y_start, x, 2, block.vframe)) {
                (Some(p1), Some(p2)) => Some((p1, p2)),
                _ => spawn_search(c, y_start, x + 1),
            },
            _ => spawn_search(c, y_start, x + 1),
        }
    }
}

/// the move state the computer player takes to carry a block from one index to another
pub open spec fn carry_move(start: usize, end: usize) -> CursorState {
    CursorState::MoveTransport {
        counter: 0,
        reached: false,
        swap_end: false,
        start: I2 { x: start.col_of() as i32, y: start.row_of() as i32 },
        goal: I2 { x: end.col_of() as i32, y: end.row_of() as i32 },
    }
}

/// the number of entries among the first `n` of a pattern row that ask for a block, marked 1
/// (a block) or 2 (a block at the goal)
pub open spec fn pattern_row_count(row: Seq<u32>, n: int) -> int
    decreases n,
{
    if n <= 0 {
        0
    } else {
        pattern_row_count(row, n - 1) + if row[n - 1] == 1 || row[n - 1] == 2 { 1int } else { 0int }
    }
}

/// the number of entries of the first `n` pattern rows, each `width` long, that ask for a block
pub open spec fn pattern_count(f: Seq<Vec<u32>>, width: int, n: int) -> int
    decreases n,
{
    if n <= 0 {
        0
    } else {
        pattern_count(f, width, n - 1) + pattern_row_count(f[n - 1]@, width)
    }
}

/// the matches and the goal index after the first `n` entries of a pattern row laid over the
/// grid from index `i0` on: an entry asking for a block matches an idle block of the vframe,
/// and the goal is the last entry marked 2 or 3
pub open spec fn window_row(c: Seq<Component>, row: Seq<u32>, vframe: u32, i0: int, n: int, acc: (int, int)) -> (int, int)
    decreases n,
{
    if n <= 0 {
        acc
    } else {
        let prev = window_row(c, row, vframe, i0, n - 1, acc);
        let num = row[n - 1];
        let i = i0 + n - 1;
        (
            prev.0 + if (num == 1 || num == 2) && idle_of(c[i], vframe) { 1int } else { 0int },
            if num == 2 || num == 3 { i } else { prev.1 },
        )
    }
}

/// the matches and the goal index of the first `n` pattern rows laid over the grid at `(x, y)`
pub open spec fn window(c: Seq<Component>, f: Seq<Vec<u32>>, width: int, vframe: u32, y: int, x: int, n: int) -> (int, int)
    decreases n,
{
    if n <= 0 {
        (0, 0)
    } else {
        window_row(c, f[n - 1]@, vframe, (y + n - 1) * GRID_WIDTH + x, width, window(c, f, width, vframe, y, x, n - 1))
    }
}

/// the states queued after the pattern was laid at the rows from `y` on in column `x`
pub open spec fn format_y(c: Seq<Component>, f: Seq<Vec<u32>>, width: int, goal: int, vframe: u32, x: int, y: int, states: Seq<CursorState>) -> Seq<CursorState>
    decreases (GRID_HEIGHT - (f.len() - 1) - 1) - y,
{
    if y >= GRID_HEIGHT - (f.len() - 1) - 1 {
        states
    } else {
        let win = window(c, f, width, vframe, y, x, f.len() as int);
        format_y(c, f, width, goal, vframe, x, y + 1, if win.0 >= goal { states.push(swap_move(win.1 as usize)) } else { states })
    }
}

/// the states queued after the pattern was laid at the columns from `x` on
pub open spec fn format_x(c: Seq<Component>, f: Seq<Vec<u32>>, width: int, goal: int, vframe: u32, x: int, states: Seq<CursorState>) -> Seq<CursorState>
    decreases (GRID_WIDTH - (width - 1)) - x,
{
    if x >= GRID_WIDTH - (width - 1) {
        states
    } else {
        format_x(c, f, width, goal, vframe, x + 1, format_y(c, f, width, goal, vframe, x, 0, states))
    }
}

/// the states queued after the pattern was looked for with the vframes from `v` on
pub open spec fn format_v(c: Seq<Component>, f: Seq<Vec<u32>>, width: int, goal: int, v: int, states: Seq<CursorState>) -> Seq<CursorState>
    decreases 8 - v,
{
    if v >= 8 {
        states
    } else {
        format_v(c, f, width, goal, v + 1, format_x(c, f, width, goal, v as u32, 0, states))
    }
}

/// a pattern of rows that fits the grid: at least one row, no more rows than the grid, a first
/// row of at most one more entry than the grid is wide, and no row shorter than the first
pub open spec fn pattern_fits(f: Seq<Vec<u32>>) -> bool {
    &&& 1 <= f.len() <= GRID_HEIGHT
    &&& 1 <= f[0]@.len() <= GRID_WIDTH + 1
    &&& forall|y: int| 0 <= y < f.len() ==> (#[trigger] f[y])@.len() >= f[0]@.len()
}

/// the queue of the computer player is busy with a move
pub open spec fn ai_busy(states: Seq<CursorState>) -> bool {
    states.len() > 0 && states[0] != CursorState::Idle
}

fn is_empty(c: &Component) -> (r: bool)
    ensures
        r == (*c is Empty),
{
    match c {
        Component::Empty { .. } => true,
        _ => false,
    }
}

fn is_block(c: &Component) -> (r: bool)
    ensures
        r == (*c is Block),
{
    match c {
        Component::Block { .. } => true,
        _ => false,
    }
}

fn is_idle_of(c: &Component, vframe: u32) -> (r: bool)
    ensures
        r == idle_of(*c, vframe),
{
    match c {
        Component::Block { block, state: BlockState::Idle } => block.vframe == vframe,
        _ => false,
    }
}

/// the candidate of `row_candidate` for the whole row
fn row_candidate_of(c: &Vec<Component>, vframe: u32, y: usize, x: usize) -> (r: (usize, i32, Vec<(usize, i32)>))
    requires
        c@.len() == GRID_TOTAL,
        y < GRID_HEIGHT,
        x < GRID_WIDTH,
    ensures
        r.0 as int == row_candidate(c@, vframe, y as int, x as int, GRID_WIDTH as int).0,
        r.1 as int == row_candidate(c@, vframe, y as int, x as int, GRID_WIDTH as int).1,
        r.2@ == row_candidate(c@, vframe, y as int, x as int, GRID_WIDTH as int).2,
        0 <= r.1 <= 36,
        moves_in_grid(r.2@),
{
    let mut count: usize = 0;
    let mut sum: i32 = 0;
    let mut moves: Vec<(usize, i32)> = Vec::new();
    let i = y * GRID_WIDTH + x;
    let mut x_off: usize = 0;
    while x_off < GRID_WIDTH
        invariant
            0 <= x_off <= GRID_WIDTH,
            c@.len() == GRID_TOTAL,
            y < GRID_HEIGHT,
            x < GRID_WIDTH,
            i == y * GRID_WIDTH + x,
            count as int == row_candidate(c@, vframe, y as int, x as int, x_off as int).0,
            sum as int == row_candidate(c@, vframe, y as int, x as int, x_off as int).1,
            moves@ == row_candidate(c@, vframe, y as int, x as int, x_off as int).2,
            count <= x_off,
            0 <= sum <= 6 * x_off,
            moves_in_grid(moves@),
        decreases GRID_WIDTH - x_off,
    {
        let j = y * GRID_WIDTH + x_off;
        if is_idle_of(&c[j], vframe) {
            count = count + 1;
            let d = x as i32 - x_off as i32;
            sum = sum + if d < 0 { -d } else { d };
            if i != j {
                moves.push((i, d));
            }
        }
        x_off = x_off + 1;
    }
    (count, sum, moves)
}

/// the first column of the row holding an idle block of the vframe
fn first_idle_of(c: &Vec<Component>, vframe: u32, row: usize) -> (r: Option<usize>)
    requires
        c@.len() == GRID_TOTAL,
        row < GRID_HEIGHT,
    ensures
        r matches Some(x) ==> first_idle(c@, vframe, row as int, 0) == Some(x as int) && x < GRID_WIDTH,
        r is None ==> first_idle(c@, vframe, row as int, 0) is None,
{
    let mut x_off: usize = 0;
    while x_off < GRID_WIDTH
        invariant
            0 <= x_off <= GRID_WIDTH,
            c@.len() == GRID_TOTAL,
            row < GRID_HEIGHT,
            first_idle(c@, vframe, row as int, 0) == first_idle(c@, vframe, row as int, x_off as int),
        decreases GRID_WIDTH - x_off,
    {
        if is_idle_of(&c[row * GRID_WIDTH + x_off], vframe) {
            return Some(x_off);
        }
        x_off = x_off + 1;
    }
    None
}

/// wether column `x` holds an empty space in the `goal` rows from `y` on
fn column_empty(c: &Vec<Component>, y: usize, x: usize, goal: usize) -> (r: bool)
    requires
        c@.len() == GRID_TOTAL,
        column_scan_in_grid(c@, y as int, x as int, goal as int, 0),
    ensures
        r == column_has_empty(c@, y as int, x as int, goal as int),
{
    let mut y_off: usize = 0;
    while y_off < goal
        invariant
            0 <= y_off <= goal,
            c@.len() == GRID_TOTAL,
            column_scan_in_grid(c@, y as int, x as int, goal as int, y_off as int),
            forall|y2: int| 0 <= y2 < y_off ==> !(#[trigger] c@[(y + y2) * GRID_WIDTH + x] is Empty),
        decreases goal - y_off,
    {
        let i = (y + y_off) * GRID_WIDTH + x;
        if is_empty(&c[i]) {
            assert(c@[(y + y_off) * GRID_WIDTH + x] is Empty);
            return true;
        }
        y_off = y_off + 1;
    }
    false
}

/// the candidate of `column_candidate` for `goal` rows
fn column_candidate_of(c: &Vec<Component>, vframe: u32, y: usize, x: usize, goal: usize) -> (r: (usize, i32, Vec<(usize, i32)>))
    requires
        c@.len() == GRID_TOTAL,
        goal > 0 ==> (y + goal - 1) * GRID_WIDTH + x < GRID_TOTAL,
    ensures
        r.0 as int == column_candidate(c@, vframe, y as int, x as int, goal as int).0,
        r.1 as int == column_candidate(c@, vframe, y as int, x as int, goal as int).1,
        r.2@ == column_candidate(c@, vframe, y as int, x as int, goal as int).2,
        moves_in_grid(r.2@),
{
    let mut count: usize = 0;
    let mut sum: i32 = 0;
    let mut moves: Vec<(usize, i32)> = Vec::new();
    let mut y_off: usize = 0;
    while y_off < goal
        invariant
            0 <= y_off <= goal,
            c@.len() == GRID_TOTAL,
            goal > 0 ==> (y + goal - 1) * GRID_WIDTH + x < GRID_TOTAL,
            goal <= GRID_HEIGHT,
            count as int == column_candidate(c@, vframe, y as int, x as int, y_off as int).0,
            sum as int == column_candidate(c@, vframe, y as int, x as int, y_off as int).1,
            moves@ == column_candidate(c@, vframe, y as int, x as int, y_off as int).2,
            count <= y_off,
            0 <= sum <= GRID_TOTAL * y_off,
            moves_in_grid(moves@),
        decreases goal - y_off,
    {
        assert((y + y_off) * GRID_WIDTH + x < GRID_TOTAL);
        let row = y + y_off;
        let i = row * GRID_WIDTH + x;
        match first_idle_of(c, vframe, row) {
            Some(x_off) => {
                count = count + 1;
                let d = x as i32 - x_off as i32;
                sum = sum + if d < 0 { -d } else { d };
                if x != x_off {
                    moves.push((i, d));
                }
            },
            None => {},
        }
        y_off = y_off + 1;
    }
    (count, sum, moves)
}

/// the number of entries of the pattern asking for a block, see `pattern_count`
fn pattern_goal(format: &Vec<Vec<u32>>, width: usize) -> (r: usize)
    requires
        format@.len() <= GRID_HEIGHT,
        width <= GRID_WIDTH + 1,
        forall|y: int| 0 <= y < format@.len() ==> (#[trigger] format@[y])@.len() >= width,
    ensures
        r as int == pattern_count(format@, width as int, format@.len() as int),
{
    let height = format.len();
    let mut total: usize = 0;
    let mut y: usize = 0;
    while y < height
        invariant
            0 <= y <= height,
            height == format@.len(),
            height <= GRID_HEIGHT,
            width <= GRID_WIDTH + 1,
            forall|y2: int| 0 <= y2 < format@.len() ==> (#[trigger] format@[y2])@.len() >= width,
            total as int == pattern_count(format@, width as int, y as int),
            total <= 7 * y,
        decreases height - y,
    {
        let row = &format[y];
        let mut n: usize = 0;
        let mut x: usize = 0;
        while x < width
            invariant
                0 <= x <= width,
                width <= GRID_WIDTH + 1,
                y < height,
                height == format@.len(),
                height <= GRID_HEIGHT,
                total <= 7 * y,
                row@ == format@[y as int]@,
                row@.len() >= width,
                n as int == pattern_row_count(row@, x as int),
                n <= x,
            decreases width - x,
        {
            let num = row[x];
            if num == 1 || num == 2 {
                n = n + 1;
            }
            x = x + 1;
        }
        total = total + n;
        y = y + 1;
    }
    total
}

/// the matches and the goal index of the pattern laid at `(x, y)`, see `window`
fn window_of(c: &Vec<Component>, format: &Vec<Vec<u32>>, width: usize, vframe: u32, y: usize, x: usize) -> (r: (usize, usize))
    requires
        c@.len() == GRID_TOTAL,
        1 <= format@.len(),
        1 <= width,
        forall|y2: int| 0 <= y2 < format@.len() ==> (#[trigger] format@[y2])@.len() >= width,
        (y + format@.len() - 1) * GRID_WIDTH + x + width - 1 < GRID_TOTAL,
        x + width <= GRID_WIDTH,
    ensures
        r.0 as int == window(c@, format@, width as int, vframe, y as int, x as int, format@.len() as int).0,
        r.1 as int == window(c@, format@, width as int, vframe, y as int, x as int, format@.len() as int).1,
        r.1 < GRID_TOTAL,
{
    let height = format.len();
    let mut goal: usize = 0;
    let mut goal_index: usize = 0;
    let mut y_off: usize = 0;
    while y_off < height
        invariant
            0 <= y_off <= height,
            height == format@.len(),
            c@.len() == GRID_TOTAL,
            1 <= width,
            forall|y2: int| 0 <= y2 < format@.len() ==> (#[trigger] format@[y2])@.len() >= width,
            (y + height - 1) * GRID_WIDTH + x + width - 1 < GRID_TOTAL,
            x + width <= GRID_WIDTH,
            goal as int == window(c@, format@, width as int, vframe, y as int, x as int, y_off as int).0,
            goal_index as int == window(c@, format@, width as int, vframe, y as int, x as int, y_off as int).1,
            goal <= y_off * GRID_WIDTH,
            goal_index < GRID_TOTAL,
        decreases height - y_off,
    {
        let row = &format[y_off];
        let ghost acc = (goal as int, goal_index as int);
        let i0 = (y + y_off) * GRID_WIDTH + x;
        let mut x_off: usize = 0;
        while x_off < width
            invariant
                0 <= x_off <= width,
                y_off < height,
                c@.len() == GRID_TOTAL,
                row@ == format@[y_off as int]@,
                row@.len() >= width,
                i0 == (y + y_off) * GRID_WIDTH + x,
                i0 + width - 1 < GRID_TOTAL,
                x + width <= GRID_WIDTH,
                (goal as int, goal_index as int) == window_row(c@, row@, vframe, i0 as int, x_off as int, acc),
                goal <= y_off * GRID_WIDTH + x_off,
                goal_index < GRID_TOTAL,
            decreases width - x_off,
        {
            let num = row[x_off];
            let i = i0 + x_off;
            if num == 2 || num == 3 {
                goal_index = i;
            }
            if num == 1 || num == 2 {
                if is_idle_of(&c[i], vframe) {
                    goal = goal + 1;
                }
            }
            x_off = x_off + 1;
        }
        y_off = y_off + 1;
    }
    (goal, goal_index)
}

/// wether the scan of a column, see `column_scan_in_grid`, stays inside the grid
fn column_scan_check(c: &Vec<Component>, y: usize, x: usize, goal: usize) -> (r: bool)
    requires
        c@.len() == GRID_TOTAL,
        (y + goal) * GRID_WIDTH + x <= usize::MAX,
    ensures
        r == column_scan_in_grid(c@, y as int, x as int, goal as int, 0),
{
    let mut y_off: usize = 0;
    while y_off < goal
        invariant
            0 <= y_off <= goal,
            c@.len() == GRID_TOTAL,
            (y + goal) * GRID_WIDTH + x <= usize::MAX,
            column_scan_in_grid(c@, y as int, x as int, goal as int, 0) == column_scan_in_grid(c@, y as int, x as int, goal as int, y_off as int),
        decreases goal - y_off,
    {
        let i = (y + y_off) * GRID_WIDTH + x;
        if i >= GRID_TOTAL {
            return false;
        }
        if is_empty(&c[i]) {
            return true;
        }
        y_off = y_off + 1;
    }
    true
}

/// wether the vertical search stays inside the grid, see `v_in_grid`
pub fn v_in_grid_check(c: &Vec<Component>, goal: usize, y: usize, y_last: usize, x_start: usize, x_end: usize) -> (r: bool)
    requires
        c@.len() == GRID_TOTAL,
        (y_last + goal) * GRID_WIDTH + x_end <= usize::MAX,
    ensures
        r == v_in_grid(c@, goal as int, y as int, y_last as int, x_start as int, x_end as int),
{
    let mut yy = y;
    while yy < y_last
        invariant
            y <= yy,
            c@.len() == GRID_TOTAL,
            (y_last + goal) * GRID_WIDTH + x_end <= usize::MAX,
            v_in_grid(c@, goal as int, y as int, y_last as int, x_start as int, x_end as int) == v_in_grid(c@, goal as int, yy as int, y_last as int, x_start as int, x_end as int),
        decreases y_last - yy,
    {
        let mut x = x_start;
        let mut row_ok = true;
        let mut done = false;
        while x < x_end && !done
            invariant
                yy < y_last,
                c@.len() == GRID_TOTAL,
                (y_last + goal) * GRID_WIDTH + x_end <= usize::MAX,
                done ==> (row_ok == v_row_in_grid(c@, goal as int, yy as int, x_start as int, x_end as int)),
                !done ==> row_ok,
                !done ==> v_row_in_grid(c@, goal as int, yy as int, x_start as int, x_end as int) == v_row_in_grid(c@, goal as int, yy as int, x as int, x_end as int),
            decreases x_end - x, if done { 0int } else { 1int },
        {
            if !column_scan_check(c, yy, x, goal) {
                row_ok = false;
                done = true;
            } else if column_empty(c, yy, x, goal) {
                row_ok = true;
                done = true;
            } else {
                x = x + 1;
            }
        }
        if !row_ok {
            return false;
        }
        yy = yy + 1;
    }
    true
}

/// queues the transport moves of a candidate
fn queue_transports(cursor: &mut Cursor, moves: &Vec<(usize, i32)>, swap_end: bool)
    requires
        moves_in_grid(moves@),
    ensures
        cursor_same_but_states(*old(cursor), *final(cursor)),
        final(cursor).states@ == old(cursor).states@ + moves@.map_values(|m: (usize, i32)| transport_move(m.0, m.1, swap_end)),
{
    let n = moves.len();
    let mut k: usize = 0;
    while k < n
        invariant
            0 <= k <= n,
            n == moves@.len(),
            moves_in_grid(moves@),
            cursor_same_but_states(*old(cursor), *cursor),
            cursor.states@ == old(cursor).states@ + moves@.subrange(0, k as int).map_values(|m: (usize, i32)| transport_move(m.0, m.1, swap_end)),
        decreases n - k,
    {
        let (start_index, distance) = moves[k];
        assert(moves@[k as int].0 < GRID_TOTAL);
        let goal: i32 = if distance > 0 {
            start_index as i32 - distance
        } else {
            start_index as i32 - (distance + 1)
        };
        let s = start_index.to_i2();
        let g = goal.to_i2();
        cursor.states.push_back(CursorState::MoveTransport { counter: 0, reached: false, swap_end, start: s, goal: g });
        assert(moves@.subrange(0, k + 1) =~= moves@.subrange(0, k as int).push(moves@[k as int]));
        assert(cursor.states@ =~= old(cursor).states@ + moves@.subrange(0, k + 1).map_values(|m: (usize, i32)| transport_move(m.0, m.1, swap_end)));
        k = k + 1;
    }
    assert(moves@.subrange(0, n as int) =~= moves@);
}

impl Grid {
    /// checks wether an x path of a row has any empty space above an empty space, or any
    /// clearing block
    pub fn path_has_empty(&self, x_start: usize, x_end: usize, y_axis: usize) -> (r: bool)
        requires
            self.wf(),
            x_start != x_end ==> y_axis * GRID_WIDTH + if x_start < x_end { x_end } else { x_start } <= GRID_TOTAL,
        ensures
            r == exists|x: int| (if x_start < x_end { x_start } else { x_end }) <= x < (if x_start < x_end { x_end } else { x_start })
                && #[trigger] gap_at(self.components@, y_axis * GRID_WIDTH + x),
    {
        let min = if x_start < x_end { x_start } else { x_end };
        let max = if x_start < x_end { x_end } else { x_start };
        let mut x = min;
        while x < max
            invariant
                min <= x <= max,
                min == (if x_start < x_end { x_start } else { x_end }),
                max == (if x_start < x_end { x_end } else { x_start }),
                self.wf(),
                min < max ==> y_axis * GRID_WIDTH + max <= GRID_TOTAL,
                forall|x2: int| min <= x2 < x ==> !#[trigger] gap_at(self.components@, y_axis * GRID_WIDTH + x2),
            decreases max - x,
        {
            let i = y_axis * GRID_WIDTH + x;
            if is_empty(&self.components[i]) {
                if i < GRID_TOTAL - GRID_WIDTH {
                    if is_empty(&self.components[i + GRID_WIDTH]) {
                        assert(gap_at(self.components@, y_axis * GRID_WIDTH + x));
                        return true;
                    }
                }
            }
            if let Component::Block { state: BlockState::Clear { .. }, .. } = self.components[i] {
                assert(gap_at(self.components@, y_axis * GRID_WIDTH + x));
                return true;
            }
            x = x + 1;
        }
        false
    }

    /// the first space of a row that is empty above an empty space
    pub fn nearest_hole(&self, y_axis: usize) -> (r: Option<usize>)
        requires
            self.wf(),
            y_axis < GRID_HEIGHT,
        ensures
            r == first_hole(self.components@, y_axis as int, 0),
    {
        let mut x: usize = 0;
        while x < GRID_WIDTH
            invariant
                0 <= x <= GRID_WIDTH,
                self.wf(),
                y_axis < GRID_HEIGHT,
                first_hole(self.components@, y_axis as int, 0) == first_hole(self.components@, y_axis as int, x as int),
            decreases GRID_WIDTH - x,
        {
            let i = y_axis * GRID_WIDTH + x;
            if is_empty(&self.components[i]) {
                if i < GRID_TOTAL - GRID_WIDTH {
                    if is_empty(&self.components[i + GRID_WIDTH]) {
                        return Some(i);
                    }
                }
            }
            x = x + 1;
        }
        None
    }

    /// detects the highest and the lowest top block of the columns and returns the column of the
    /// highest one if their rows differ by exactly `height_difference`
    pub fn detect_difference(&self, height_difference: i32) -> (r: Option<usize>)
        requires
            self.wf(),
        ensures
            ({
                let p = peaks(self.components@, GRID_WIDTH as int);
                r == if abs_int(p.0 - p.1) == height_difference { Some(p.2 as usize) } else { None }
            }),
    {
        let mut y_min: usize = GRID_HEIGHT;
        let mut y_max: usize = 0;
        let mut x_axis: usize = 0;
        let mut x: usize = 0;
        while x < GRID_WIDTH
            invariant
                0 <= x <= GRID_WIDTH,
                self.wf(),
                (y_min as int, y_max as int, x_axis as int) == peaks(self.components@, x as int),
                y_min <= GRID_HEIGHT,
                y_max < GRID_HEIGHT,
                x_axis < GRID_WIDTH,
            decreases GRID_WIDTH - x,
        {
            let mut y: usize = 0;
            let mut found = false;
            while y < GRID_HEIGHT && !found
                invariant
                    0 <= y <= GRID_HEIGHT,
                    x < GRID_WIDTH,
                    self.wf(),
                    !found ==> top_block(self.components@, x as int, 0) == top_block(self.components@, x as int, y as int),
                    found ==> y >= 1 && top_block(self.components@, x as int, 0) == Some((y - 1) as int),
                    found ==> (y_min as int, y_max as int, x_axis as int) == ({
                        let prev = peaks(self.components@, x as int);
                        let ty = (y - 1) as int;
                        (
                            if prev.0 > ty { ty } else { prev.0 },
                            if prev.1 < ty { ty } else { prev.1 },
                            if prev.0 > ty { x as int } else { prev.2 },
                        )
                    }),
                    !found ==> (y_min as int, y_max as int, x_axis as int) == peaks(self.components@, x as int),
                    y_min <= GRID_HEIGHT,
                    y_max < GRID_HEIGHT,
                    x_axis < GRID_WIDTH,
                decreases GRID_HEIGHT - y,
            {
                let i = y * GRID_WIDTH + x;
                if is_block(&self.components[i]) {
                    if y > y_max {
                        y_max = y;
                    }
                    if y_min > y {
                        y_min = y;
                        x_axis = x;
                    }
                    found = true;
                }
                y = y + 1;
            }
            x = x + 1;
        }
        let diff = y_min as i32 - y_max as i32;
        let abs = if diff < 0 { -diff } else { diff };
        if abs == height_difference {
            Some(x_axis)
        } else {
            None
        }
    }

    /// searches the rows from `y_start` to `y_end` for `goal_amount` idle blocks of one vframe
    /// that can be moved next to each other with the smallest summed distance, and queues the
    /// moves that carry them there
    pub fn solve_horizontally(&mut self, goal_amount: usize, y_start: usize, y_end: usize)
        requires
            old(self).wf(),
            goal_amount != 0,
            y_start < y_end ==> goal_amount <= GRID_WIDTH,
            y_start < y_end && goal_amount < GRID_WIDTH ==> y_end <= GRID_HEIGHT,
        ensures
            grid_same_but_states(*old(self), *final(self)),
            final(self).cursor.states@ == old(self).cursor.states@ + planned(
                h_search(old(self).components@, goal_amount as int, 3, y_start as int, y_end as int, (None, Seq::empty())),
                false,
            ),
    {
        let ghost c = self.components@;
        let ghost g = goal_amount as int;
        let ghost total = h_search(c, g, 3, y_start as int, y_end as int, (None, Seq::empty()));
        let mut smallest: Option<i32> = None;
        let mut searched: Vec<(usize, i32)> = Vec::new();
        let mut v: u32 = 3;
        while v < 8
            invariant
                3 <= v <= 8,
                *self == *old(self),
                c == self.components@,
                self.wf(),
                g == goal_amount,
                goal_amount != 0,
                y_start < y_end ==> goal_amount <= GRID_WIDTH,
                y_start < y_end && goal_amount < GRID_WIDTH ==> y_end <= GRID_HEIGHT,
                total == h_search(c, g, v as int, y_start as int, y_end as int, (smallest, searched@)),
                moves_in_grid(searched@),
            decreases 8 - v,
        {
            let mut y = y_start;
            while y < y_end
                invariant
                    3 <= v < 8,
                    y_start <= y,
                    *self == *old(self),
                    c == self.components@,
                    self.wf(),
                    g == goal_amount,
                    y_start < y_end ==> goal_amount <= GRID_WIDTH,
                    y_start < y_end && goal_amount < GRID_WIDTH ==> y_end <= GRID_HEIGHT,
                    total == h_search(c, g, v + 1, y_start as int, y_end as int, h_search_y(c, g, v, y as int, y_end as int, (smallest, searched@))),
                    moves_in_grid(searched@),
                decreases y_end - y,
            {
                let mut x: usize = 0;
                while x < GRID_WIDTH - goal_amount
                    invariant
                        3 <= v < 8,
                        y_start <= y < y_end,
                        *self == *old(self),
                        c == self.components@,
                        self.wf(),
                        g == goal_amount,
                        goal_amount <= GRID_WIDTH,
                        x < GRID_WIDTH - goal_amount ==> y < GRID_HEIGHT,
                        goal_amount < GRID_WIDTH ==> y_end <= GRID_HEIGHT,
                        total == h_search(c, g, v + 1, y_start as int, y_end as int, h_search_y(c, g, v, y + 1, y_end as int, h_search_x(c, g, v, y as int, x as int, (smallest, searched@)))),
                        moves_in_grid(searched@),
                    decreases GRID_WIDTH - goal_amount - x,
                {
                    let (count, sum, moves) = row_candidate_of(&self.components, v, y, x);
                    if count == goal_amount {
                        match smallest {
                            Some(d) => {
                                if d > sum {
                                    smallest = Some(sum);
                                    searched = moves;
                                }
                            },
                            None => {
                                smallest = Some(sum);
                                searched = moves;
                            },
                        }
                    }
                    x = x + 1;
                }
                y = y + 1;
            }
            v = v + 1;
        }
        if smallest.is_some() {
            queue_transports(&mut self.cursor, &searched, false);
        }
    }

    /// searches the `goal_amount` rows from each row between `y_start` and `y_end - goal_amount`
    /// for a column between `x_start` and `x_end` next to which idle blocks of one vframe can be
    /// moved, one per row, with the smallest summed distance, and queues the moves that carry
    /// them there; a row is left at the first column that holds an empty space
    pub fn solve_vertically(&mut self, goal_amount: usize, x_start: usize, x_end: usize, y_start: usize, y_end: usize)
        requires
            old(self).wf(),
            goal_amount != 0,
            goal_amount <= y_end,
            v_in_grid(old(self).components@, goal_amount as int, y_start as int, (y_end - goal_amount) as int, x_start as int, x_end as int),
        ensures
            grid_same_but_states(*old(self), *final(self)),
            final(self).cursor.states@ == old(self).cursor.states@ + planned(
                v_search(old(self).components@, goal_amount as int, y_start as int, (y_end - goal_amount) as int, x_start as int, x_end as int, (None, Seq::empty())),
                true,
            ),
    {
        let ghost c = self.components@;
        let ghost g = goal_amount as int;
        let y_last = y_end - goal_amount;
        let ghost total = v_search(c, g, y_start as int, y_last as int, x_start as int, x_end as int, (None, Seq::empty()));
        let mut smallest: Option<i32> = None;
        let mut searched: Vec<(usize, i32)> = Vec::new();
        let mut y = y_start;
        while y < y_last
            invariant
                *self == *old(self),
                c == self.components@,
                self.wf(),
                g == goal_amount,
                goal_amount != 0,
                v_in_grid(c, g, y as int, y_last as int, x_start as int, x_end as int),
                total == v_search(c, g, y as int, y_last as int, x_start as int, x_end as int, (smallest, searched@)),
                moves_in_grid(searched@),
            decreases y_last - y,
        {
            let mut x = x_start;
            let mut skip = false;
            while x < x_end && !skip
                invariant
                    y < y_last,
                    *self == *old(self),
                    c == self.components@,
                    self.wf(),
                    g == goal_amount,
                    goal_amount != 0,
                    v_in_grid(c, g, y + 1, y_last as int, x_start as int, x_end as int),
                    !skip ==> v_row_in_grid(c, g, y as int, x as int, x_end as int),
                    skip ==> x < x_end && column_has_empty(c, y as int, x as int, g),
                    total == v_search(c, g, y + 1, y_last as int, x_start as int, x_end as int, v_search_x(c, g, y as int, x as int, x_end as int, (smallest, searched@))),
                    moves_in_grid(searched@),
                decreases x_end - x, if skip { 0int } else { 1int },
            {
                if column_empty(&self.components, y, x, goal_amount) {
                    skip = true;
                } else {
                    proof {
                        lemma_column_rows(c, y as int, x as int, g, 0);
                    }
                    let mut v: u32 = 3;
                    while v < 8
                        invariant
                            3 <= v <= 8,
                            y < y_last,
                            x < x_end,
                            goal_amount != 0,
                            *self == *old(self),
                            c == self.components@,
                            self.wf(),
                            g == goal_amount,
                            (y + goal_amount - 1) * GRID_WIDTH + x < GRID_TOTAL,
                            total == v_search(c, g, y + 1, y_last as int, x_start as int, x_end as int,
                                v_search_x(c, g, y as int, x + 1, x_end as int, v_search_v(c, g, y as int, x as int, v as int, (smallest, searched@)))),
                            moves_in_grid(searched@),
                        decreases 8 - v,
                    {
                        let (count, sum, moves) = column_candidate_of(&self.components, v, y, x, goal_amount);
                        if count == goal_amount {
                            match smallest {
                                Some(d) => {
                                    if d > sum {
                                        smallest = Some(sum);
                                        searched = moves;
                                    }
                                },
                                None => {
                                    smallest = Some(sum);
                                    searched = moves;
                                },
                            }
                        }
                        v = v + 1;
                    }
                    x = x + 1;
                }
            }
            y = y + 1;
        }
        if smallest.is_some() {
            queue_transports(&mut self.cursor, &searched, true);
        }
    }

    /// the carry of `row_pair`
    fn spawn_row_pair(&self, y_start: usize, x: usize, y_off: usize, vframe: u32) -> (r: Option<(usize, usize)>)
        requires
            self.wf(),
            y_start + y_off < GRID_HEIGHT,
            x < GRID_WIDTH,
        ensures
            r == row_pair(self.components@, y_start as int, x as int, y_off as int, vframe),
            r matches Some(p) ==> p.0 < GRID_TOTAL && p.1 < GRID_TOTAL,
    {
        let row = y_start + y_off;
        let below = self.components[row * GRID_WIDTH + x];
        if let Component::Block { block, .. } = below {
            if block.vframe == vframe {
                return None;
            }
        }
        let mut x_off: usize = 0;
        while x_off < GRID_WIDTH
            invariant
                0 <= x_off <= GRID_WIDTH,
                self.wf(),
                row == y_start + y_off,
                row < GRID_HEIGHT,
                x < GRID_WIDTH,
                !(match self.components@[row * GRID_WIDTH + x] {
                    Component::Block { block, .. } => block.vframe == vframe,
                    _ => false,
                }),
                spawn_match(self.components@, row as int, x as int, vframe, 0) == spawn_match(self.components@, row as int, x as int, vframe, x_off as int),
            decreases GRID_WIDTH - x_off,
        {
            let j = row * GRID_WIDTH + x_off;
            if let Component::Block { block, .. } = self.components[j] {
                if !self.path_has_empty(x_off, x, row) && block.vframe == vframe {
                    return Some((row * GRID_WIDTH + x, j));
                }
            }
            x_off = x_off + 1;
        }
        None
    }

    /// searches row `y_start` for a spawned block that gets a block of its vframe from each of the
    /// two rows below, and queues the moves that carry them below it
    pub fn solve_spawn_vertically(&mut self, y_start: usize)
        requires
            old(self).wf(),
            y_start < GRID_HEIGHT,
            forall|x: int| 0 <= x < GRID_WIDTH && (#[trigger] old(self).components@[y_start * GRID_WIDTH + x] matches Component::Block { state: BlockState::Spawned, .. })
                ==> y_start + 2 < GRID_HEIGHT,
        ensures
            grid_same_but_states(*old(self), *final(self)),
            final(self).cursor.states@ == match spawn_search(old(self).components@, y_start as int, 0) {
                Some((p1, p2)) => old(self).cursor.states@.push(carry_move(p1.0, p1.1)).push(carry_move(p2.0, p2.1)),
                None => old(self).cursor.states@,
            },
    {
        let mut x: usize = 0;
        while x < GRID_WIDTH
            invariant
                0 <= x <= GRID_WIDTH,
                *self == *old(self),
                self.wf(),
                y_start < GRID_HEIGHT,
                forall|x2: int| 0 <= x2 < GRID_WIDTH && (#[trigger] self.components@[y_start * GRID_WIDTH + x2] matches Component::Block { state: BlockState::Spawned, .. })
                    ==> y_start + 2 < GRID_HEIGHT,
                spawn_search(self.components@, y_start as int, 0) == spawn_search(self.components@, y_start as int, x as int),
            decreases GRID_WIDTH - x,
        {
            let i = y_start * GRID_WIDTH + x;
            if let Component::Block { block, state: BlockState::Spawned } = self.components[i] {
                assert(self.components@[y_start * GRID_WIDTH + x] matches Component::Block { state: BlockState::Spawned, .. });
                let first = self.spawn_row_pair(y_start, x, 1, block.vframe);
                let second = self.spawn_row_pair(y_start, x, 2, block.vframe);
                match (first, second) {
                    (Some(p1), Some(p2)) => {
                        let s1 = p1.0.to_i2();
                        let g1 = p1.1.to_i2();
                        self.cursor.states.push_back(CursorState::MoveTransport { counter: 0, reached: false, swap_end: false, start: s1, goal: g1 });
                        let s2 = p2.0.to_i2();
                        let g2 = p2.1.to_i2();
                        self.cursor.states.push_back(CursorState::MoveTransport { counter: 0, reached: false, swap_end: false, start: s2, goal: g2 });
                        return;
                    },
                    _ => {},
                }
            }
            x = x + 1;
        }
    }

    /// looks for the pattern of the format at every place of the grid with every vframe, and
    /// queues a swap at the goal of each place where it finds enough matching idle blocks; does
    /// nothing while the computer player is busy with a move
    pub fn solve_format(&mut self, format: &Vec<Vec<u32>>)
        requires
            old(self).wf(),
            !ai_busy(old(self).cursor.states@) ==> pattern_fits(format@),
        ensures
            grid_same_but_states(*old(self), *final(self)),
            final(self).cursor.states@ == if ai_busy(old(self).cursor.states@) {
                old(self).cursor.states@
            } else {
                format_v(
                    old(self).components@,
                    format@,
                    format@[0]@.len() as int,
                    pattern_count(format@, format@[0]@.len() as int, format@.len() as int),
                    3,
                    old(self).cursor.states@,
                )
            },
    {
        if self.cursor.states.len() > 0 {
            match self.cursor.states[0] {
                CursorState::Idle => {},
                _ => {
                    return;
                },
            }
        }
        let width = format[0].len();
        let height = format.len();
        let goal_amount = pattern_goal(format, width);
        let ghost c = self.components@;
        let ghost f = format@;
        let ghost total = format_v(c, f, width as int, goal_amount as int, 3, self.cursor.states@);
        let mut v: u32 = 3;
        while v < 8
            invariant
                3 <= v <= 8,
                grid_same_but_states(*old(self), *self),
                c == self.components@,
                f == format@,
                self.wf(),
                pattern_fits(f),
                width == f[0]@.len(),
                height == f.len(),
                total == format_v(c, f, width as int, goal_amount as int, v as int, self.cursor.states@),
            decreases 8 - v,
        {
            let mut x: usize = 0;
            while x < GRID_WIDTH - (width - 1)
                invariant
                    3 <= v < 8,
                    grid_same_but_states(*old(self), *self),
                    c == self.components@,
                    f == format@,
                    self.wf(),
                    pattern_fits(f),
                    width == f[0]@.len(),
                    height == f.len(),
                    total == format_v(c, f, width as int, goal_amount as int, v + 1, format_x(c, f, width as int, goal_amount as int, v, x as int, self.cursor.states@)),
                decreases GRID_WIDTH - (width - 1) - x,
            {
                let mut y: usize = 0;
                while y < GRID_HEIGHT - (height - 1) - 1
                    invariant
                        3 <= v < 8,
                        x < GRID_WIDTH - (width - 1),
                        grid_same_but_states(*old(self), *self),
                        c == self.components@,
                        f == format@,
                        self.wf(),
                        pattern_fits(f),
                        width == f[0]@.len(),
                        height == f.len(),
                        total == format_v(c, f, width as int, goal_amount as int, v + 1,
                            format_x(c, f, width as int, goal_amount as int, v, x + 1,
                                format_y(c, f, width as int, goal_amount as int, v, x as int, y as int, self.cursor.states@))),
                    decreases GRID_HEIGHT - (height - 1) - 1 - y,
                {
                    let (goal, goal_index) = window_of(&self.components, format, width, v, y, x);
                    if goal >= goal_amount {
                        let g = goal_index.to_i2();
                        self.cursor.states.push_back(CursorState::MoveSwap { counter: 0, goal: g });
                    }
                    y = y + 1;
                }
                x = x + 1;
            }
            v = v + 1;
        }
    }

    /// queues a swap at the highest block of the column
    pub fn remove_peaks(&mut self, x_axis: usize)
        requires
            old(self).wf(),
            peak_scan_in_grid(old(self).components@, x_axis as int, 0),
        ensures
            grid_same_but_states(*old(self), *final(self)),
            final(self).cursor.states@ == match peak_row(old(self).components@, x_axis as int, 0) {
                Some(y) => old(self).cursor.states@.push(swap_move((y * GRID_WIDTH + x_axis) as usize)),
                None => old(self).cursor.states@,
            },
    {
        let mut y: usize = 0;
        while y < GRID_HEIGHT - 1
            invariant
                0 <= y <= GRID_HEIGHT - 1,
                *self == *old(self),
                self.wf(),
                peak_scan_in_grid(self.components@, x_axis as int, y as int),
                peak_row(self.components@, x_axis as int, 0) == peak_row(self.components@, x_axis as int, y as int),
            decreases GRID_HEIGHT - 1 - y,
        {
            let i = y * GRID_WIDTH + x_axis;
            if is_block(&self.components[i]) {
                let goal = i.to_i2();
                self.cursor.states.push_back(CursorState::MoveSwap { counter: 0, goal });
                return;
            }
            y = y + 1;
        }
    }
}

} // verus!
