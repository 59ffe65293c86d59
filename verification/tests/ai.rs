use everpuzzle::helpers::data::{GRID_TOTAL, GRID_WIDTH};
use everpuzzle::helpers::math::I2;
use everpuzzle::scripts::block::{Block, BlockState};
use everpuzzle::scripts::component::Component;
use everpuzzle::scripts::cursor::CursorState;
use everpuzzle::scripts::garbage::GarbageSystem;
use everpuzzle::scripts::grid::Grid;

fn empty_grid() -> Grid {
    Grid::new(1, 1, &[None; GRID_TOTAL])
}

fn idle_block(vframe: u32) -> Component {
    Component::Block { block: Block { vframe, ..Block::default() }, state: BlockState::Idle }
}

fn fill_row(grid: &mut Grid, y: usize, vframes: [u32; 6]) {
    for x in 0..GRID_WIDTH {
        grid.components[y * GRID_WIDTH + x] = idle_block(vframes[x]);
    }
}

#[test]
fn horizontal_solve_carries_blocks_together() {
    let mut grid = empty_grid();
    fill_row(&mut grid, 11, [3, 4, 3, 5, 6, 3]);
    grid.solve_horizontally(3, 11, 12);
    // the best place gathers the three blocks of vframe 3 with the smallest summed distance
    assert!(!grid.cursor.states.is_empty());
    for s in grid.cursor.states.iter() {
        match s {
            CursorState::MoveTransport { counter, reached, swap_end, start, .. } => {
                assert_eq!((*counter, *reached, *swap_end), (0, false, false));
                assert_eq!(start.y, 11);
            },
            _ => panic!("expected a transport"),
        }
    }
}

#[test]
fn horizontal_solve_without_candidates_queues_nothing() {
    let mut grid = empty_grid();
    fill_row(&mut grid, 11, [3, 4, 5, 6, 7, 3]);
    grid.solve_horizontally(3, 11, 12);
    assert!(grid.cursor.states.is_empty());
}

#[test]
fn vertical_solve_finds_a_column() {
    let mut grid = empty_grid();
    fill_row(&mut grid, 9, [4, 5, 3, 6, 7, 4]);
    fill_row(&mut grid, 10, [3, 4, 5, 6, 7, 4]);
    fill_row(&mut grid, 11, [5, 6, 7, 3, 4, 5]);
    grid.solve_vertically(3, 0, GRID_WIDTH, 9, 13);
    assert!(!grid.cursor.states.is_empty());
    for s in grid.cursor.states.iter() {
        assert!(matches!(s, CursorState::MoveTransport { swap_end: true, .. }));
    }
}

#[test]
fn vertical_solve_stops_at_empty_columns() {
    let mut grid = empty_grid();
    grid.solve_vertically(3, 0, GRID_WIDTH, 0, 12);
    assert!(grid.cursor.states.is_empty());
}

#[test]
fn peaks_and_holes() {
    let mut grid = empty_grid();
    fill_row(&mut grid, 11, [3, 4, 5, 6, 7, 3]);
    for y in 2..11 {
        grid.components[y * GRID_WIDTH + 1] = idle_block(3 + (y as u32 % 5));
    }
    // the tops differ by exactly 9 rows
    assert_eq!(grid.detect_difference(9), Some(1));
    assert_eq!(grid.detect_difference(5), None);
    assert_eq!(grid.detect_difference(10), None);
    grid.remove_peaks(1);
    assert_eq!(grid.cursor.states.len(), 1);
    assert_eq!(grid.cursor.states[0], CursorState::MoveSwap { counter: 0, goal: I2::new(1, 2) });

    assert_eq!(grid.nearest_hole(9), Some(9 * GRID_WIDTH));
    assert_eq!(grid.nearest_hole(10), None);
    assert!(grid.path_has_empty(0, 3, 9));
    assert!(!grid.path_has_empty(0, 3, 11));
    assert!(!grid.path_has_empty(2, 2, 9));
}

#[test]
fn spawn_solve_prepares_a_chain() {
    let mut grid = empty_grid();
    fill_row(&mut grid, 11, [4, 5, 3, 6, 7, 4]);
    fill_row(&mut grid, 10, [4, 3, 5, 6, 7, 5]);
    grid.components[9 * GRID_WIDTH] = Component::Block { block: Block { vframe: 3, ..Block::default() }, state: BlockState::Spawned };
    grid.solve_spawn_vertically(9);
    assert_eq!(grid.cursor.states.len(), 2);
    assert!(matches!(grid.cursor.states[0], CursorState::MoveTransport { swap_end: false, .. }));
}

#[test]
fn format_solve_waits_while_busy() {
    let mut grid = empty_grid();
    fill_row(&mut grid, 11, [3, 3, 4, 3, 5, 6]);
    grid.cursor.states.push_back(CursorState::MoveSwap { counter: 0, goal: I2::new(0, 0) });
    let format = vec![vec![1, 1, 3, 1]];
    grid.solve_format(&format);
    assert_eq!(grid.cursor.states.len(), 1);
    grid.cursor.states.clear();
    grid.solve_format(&format);
    assert!(grid.cursor.states.iter().all(|s| matches!(s, CursorState::MoveSwap { .. })));
}

#[test]
fn ai_step_plans_below_idle_garbage() {
    let mut grid = empty_grid();
    let mut garbage_system = GarbageSystem::default();
    fill_row(&mut grid, 11, [3, 4, 3, 5, 3, 6]);
    assert!(grid.ai_step(&mut garbage_system));
    assert!(grid.push_raise);
}
