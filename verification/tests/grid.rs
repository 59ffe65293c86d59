use everpuzzle::helpers::data::{GRID_TOTAL, GRID_WIDTH, HANG_TIME, SWAP_TIME, CLEAR_TIME};
use everpuzzle::helpers::math::I2;
use everpuzzle::scripts::block::{Block, BlockState};
use everpuzzle::scripts::component::Component;
use everpuzzle::scripts::cursor::Cursor;
use everpuzzle::scripts::garbage::{GarbageSystem, GarbageState};
use everpuzzle::scripts::grid::Grid;
use everpuzzle::scripts::rng::Rng;
use everpuzzle::engine::input::Input;

fn empty_grid(id: usize) -> Grid {
    Grid::new(id, 1, &[None; GRID_TOTAL])
}

fn idle_block(vframe: u32) -> Component {
    Component::Block { block: Block { vframe, ..Block::default() }, state: BlockState::Idle }
}

fn is_child(c: &Component) -> bool {
    matches!(c, Component::Child(_))
}

fn is_empty(c: &Component) -> bool {
    matches!(c, Component::Empty { .. })
}

fn is_block(c: &Component) -> bool {
    matches!(c, Component::Block { .. })
}

fn state_of(c: &Component) -> Option<BlockState> {
    match c {
        Component::Block { state, .. } => Some(*state),
        _ => None,
    }
}

/// showcase gen_1d working
#[test]
fn grid_gen_1d() {
    let mut grid = empty_grid(0);
    let mut garbage_system = GarbageSystem::default();

    grid.gen_1d_garbage_at(&mut garbage_system, 3, 0);
    assert!(is_child(&grid.components[0]));
    assert!(is_child(&grid.components[1]));
    assert!(is_child(&grid.components[2]));
    assert!(is_empty(&grid.components[3]));

    grid.gen_1d_garbage_at(&mut garbage_system, 4, 0);
    assert!(is_child(&grid.components[0]));
    assert!(is_child(&grid.components[1]));
    assert!(is_child(&grid.components[2]));
    assert!(is_child(&grid.components[3]));
    assert!(is_empty(&grid.components[4]));

    grid = empty_grid(0);
    grid.gen_1d_garbage_at(&mut garbage_system, 3, 1);
    assert!(is_empty(&grid.components[0]));
    assert!(is_child(&grid.components[1]));
    assert!(is_child(&grid.components[2]));
    assert!(is_child(&grid.components[3]));
    assert!(is_empty(&grid.components[4]));
}

#[test]
fn gen_1d_at_a_drawn_offset() {
    let mut grid = empty_grid(0);
    let mut garbage_system = GarbageSystem::default();

    grid.gen_1d_garbage(&mut garbage_system, 3);
    let children = garbage_system.list[0].children.clone();
    assert_eq!(children.len(), 3);
    let offset = children[0];
    assert!(offset + 3 <= GRID_WIDTH);
    for i in 0..GRID_WIDTH {
        if i >= offset && i < offset + 3 {
            assert!(is_child(&grid.components[i]));
        } else {
            assert!(is_empty(&grid.components[i]));
        }
    }
    assert_eq!(garbage_system.list[0].count, 3);
    assert!(!garbage_system.list[0].is_2d);
    assert_eq!(garbage_system.list[0].state, GarbageState::Fall);
}

/// check if hang to fall works in the wanted frame times
#[test]
fn block_hang_and_fall() {
    let mut grid = empty_grid(0);
    let mut garbage_system = GarbageSystem::default();
    grid.components[0] = idle_block(3);

    // hang state setting
    assert_eq!(state_of(&grid.components[0]), Some(BlockState::Idle));
    grid.block_detect_hang();
    assert_eq!(state_of(&grid.components[0]), Some(BlockState::Hang { counter: 0 }));

    // hang state updating
    for _ in 0..HANG_TIME {
        grid.update_components();
        grid.block_resolve_fall();
        grid.block_resolve_hang(&mut garbage_system);
    }

    // is in fall state now
    assert_eq!(state_of(&grid.components[0]), Some(BlockState::Fall));

    // check if fall succeeds to swap components around
    assert!(is_block(&grid.components[0]));
    assert!(is_empty(&grid.components[GRID_WIDTH]));
    grid.update_components();
    grid.block_resolve_fall();
    assert!(is_empty(&grid.components[0]));
    assert!(is_block(&grid.components[GRID_WIDTH]));
}

/// check if swap to idle works in the wanted frame times
#[test]
fn block_swap() {
    let mut grid = empty_grid(0);
    let mut cursor = Cursor::default();
    cursor.position = I2::new(0, 0);

    assert!(is_empty(&grid.components[0]));
    assert!(is_empty(&grid.components[1]));
    cursor.swap_blocks(&mut grid.components);
    assert!(is_empty(&grid.components[0]));
    assert!(is_empty(&grid.components[1]));

    grid.components[0] = idle_block(3);

    assert!(is_block(&grid.components[0]));
    assert!(is_empty(&grid.components[1]));
    cursor.swap_blocks(&mut grid.components);
    assert!(is_block(&grid.components[0]));
    assert!(is_empty(&grid.components[1]));
    assert!(matches!(state_of(&grid.components[0]), Some(BlockState::Swap { .. })));

    // swap state updating
    for _ in 0..SWAP_TIME {
        grid.update_components();
    }
    match state_of(&grid.components[0]) {
        Some(BlockState::Swap { counter, .. }) => assert!(counter >= SWAP_TIME - 1),
        _ => panic!("not swapping"),
    }
    grid.update_components();

    // matches the resolve / detect order of the grid update
    grid.block_resolve_swap();
    grid.block_detect_hang();

    assert!(is_empty(&grid.components[0]));
    assert!(is_block(&grid.components[1]));

    // block should transition to hang immediatly
    assert!(matches!(state_of(&grid.components[1]), Some(BlockState::Hang { .. })));
}

#[test]
fn fresh_field_has_no_equal_neighbors() {
    let mut rng = Rng::new(5);
    let field = Grid::gen_field(&mut rng, 5);
    for i in 0..GRID_TOTAL {
        if i < 5 * GRID_WIDTH {
            assert_eq!(field[i], None);
        }
        if let Some(v) = field[i] {
            assert!((3..8).contains(&v));
            if i >= 1 {
                assert_ne!(field[i - 1], Some(v));
            }
            if i > GRID_WIDTH {
                assert_ne!(field[i - GRID_WIDTH], Some(v));
            }
        } else if i >= 5 * GRID_WIDTH {
            assert!(i > GRID_WIDTH && field[i - GRID_WIDTH].is_none());
        }
    }
}

#[test]
fn fresh_grid_detects_no_clear() {
    let mut rng = Rng::new(7);
    let field = Grid::gen_field(&mut rng, 4);
    let mut grid = Grid::new(0, 3, &field);
    let before = grid.components.clone();
    grid.block_detect_clear();
    assert_eq!(grid.components, before);
    assert_eq!(grid.combo_highlight.list.len(), 0);
}

#[test]
fn generated_line_fits_below_bottom_row() {
    let mut rng = Rng::new(9);
    let field = Grid::gen_field(&mut rng, 5);
    let mut grid = Grid::new(0, 11, &field);
    let line = grid.gen_line();
    for x in 0..GRID_WIDTH {
        assert!((3..8).contains(&line[x]));
        if let Component::Block { block, .. } = grid.components[GRID_TOTAL - GRID_WIDTH + x] {
            assert_ne!(block.vframe, line[x]);
        }
        if x >= 2 {
            assert!(!(line[x] == line[x - 1] && line[x] == line[x - 2]));
        }
    }
}

#[test]
fn three_in_a_row_clear() {
    let mut grid = empty_grid(0);
    // a row of three matching idle blocks standing on a row of other blocks
    for x in 0..GRID_WIDTH {
        grid.components[GRID_TOTAL - GRID_WIDTH + x] = idle_block(4 + (x as u32 % 2));
    }
    let row = GRID_TOTAL - 2 * GRID_WIDTH;
    grid.components[row] = idle_block(3);
    grid.components[row + 1] = idle_block(3);
    grid.components[row + 2] = idle_block(3);
    grid.block_detect_clear();
    for x in 0..3 {
        assert!(matches!(state_of(&grid.components[row + x]), Some(BlockState::Clear { .. })));
    }
    assert!(matches!(state_of(&grid.components[row + 3]), None));
    assert_eq!(grid.combo_highlight.list.len(), 0);
}

#[test]
fn frame_update_runs_on_fresh_grids() {
    let mut rng = Rng::new(5);
    let field = Grid::gen_field(&mut rng, 5);
    let mut grids = vec![Grid::new(0, 1, &field), Grid::new(1, 2, &field)];
    let mut garbage_system = GarbageSystem::default();
    let input = Input::default();
    for _ in 0..30 {
        for grid in grids.iter_mut() {
            assert!(grid.update(&input, &mut garbage_system));
            assert_eq!(grid.components.len(), GRID_TOTAL);
        }
    }
}

#[test]
fn frame_update_refuses_broken_grid() {
    let mut grid = empty_grid(0);
    grid.components.pop();
    let mut garbage_system = GarbageSystem::default();
    assert!(!grid.update(&Input::default(), &mut garbage_system));
}

#[test]
fn push_upwards_lifts_everything() {
    let mut rng = Rng::new(5);
    let field = Grid::gen_field(&mut rng, 5);
    let mut grid = Grid::new(0, 1, &field);
    let mut garbage_system = GarbageSystem::default();
    let before = grid.components.clone();
    grid.push_upwards(&mut garbage_system, false);
    for i in 0..GRID_TOTAL - GRID_WIDTH {
        match (&before[i + GRID_WIDTH], &grid.components[i]) {
            (Component::Block { block: a, state: sa }, Component::Block { block: b, state: sb }) => {
                assert_eq!(a.vframe, b.vframe);
                assert_eq!(sa, sb);
            },
            (Component::Empty { .. }, Component::Empty { .. }) => {},
            _ => panic!("component did not move up"),
        }
    }
    for x in 0..GRID_WIDTH {
        assert!(matches!(state_of(&grid.components[GRID_TOTAL - GRID_WIDTH + x]), Some(BlockState::Idle)));
    }
    assert_eq!(grid.cursor.position, I2::new(2, 6));
}

#[test]
fn garbage_clear_frames_turn_children_into_blocks() {
    let mut grid = empty_grid(0);
    let mut garbage_system = GarbageSystem::default();
    grid.gen_1d_garbage(&mut garbage_system, 3);
    let children = garbage_system.list[0].children.clone();
    // mark the last child to turn into a block at the end of its animation
    for (j, &c) in children.iter().enumerate() {
        if let Component::Child(ch) = &mut grid.components[c] {
            ch.start_time = 0;
            ch.randomize_at_end = j == 2;
        }
    }
    garbage_system.list[0].state = GarbageState::Clear { counter: 0, end_time: 4 * CLEAR_TIME, finished: false };
    for _ in 0..CLEAR_TIME + 2 {
        assert!(garbage_system.update_checked(&mut grid));
    }
    assert_eq!(garbage_system.list[0].children.len(), 2);
    assert_eq!(garbage_system.list[0].removed_children.len(), 1);
    assert_eq!(garbage_system.list[0].count, 2);
    let turned = garbage_system.list[0].removed_children[0];
    assert_eq!(turned, children[2]);
    match grid.components[turned] {
        Component::Block { block, state } => {
            assert_eq!(state, BlockState::Spawned);
            assert_eq!(block.saved_chain, Some(1));
            assert!((3..8).contains(&block.vframe));
        },
        _ => panic!("child did not turn into a block"),
    }
    for &c in &children[0..2] {
        match grid.components[c] {
            Component::Child(ch) => {
                assert!(ch.finished);
                assert_eq!(ch.scale, CLEAR_TIME);
            },
            _ => panic!("child went away"),
        }
    }
    // end of the clear: the new block goes idle
    garbage_system.list[0].state = GarbageState::Clear { counter: 4 * CLEAR_TIME, end_time: 4 * CLEAR_TIME, finished: false };
    assert!(garbage_system.update_checked(&mut grid));
    assert_eq!(state_of(&grid.components[turned]), Some(BlockState::Idle));
    assert_eq!(garbage_system.list[0].removed_children.len(), 0);
    assert_eq!(garbage_system.list[0].state, GarbageState::Clear { counter: 4 * CLEAR_TIME, end_time: 4 * CLEAR_TIME, finished: true });
}

#[test]
fn garbage_update_refuses_missing_child() {
    let mut grid = empty_grid(0);
    let mut garbage_system = GarbageSystem::default();
    grid.gen_1d_garbage(&mut garbage_system, 3);
    let c = garbage_system.list[0].children[0];
    grid.components[c] = Component::Empty { size: 0, alive: false };
    garbage_system.list[0].state = GarbageState::Clear { counter: 0, end_time: 10, finished: false };
    assert!(!garbage_system.update_checked(&mut grid));
}

#[test]
fn lowest_rows_of_garbages() {
    let grid = empty_grid(0);
    let mut garbage_system = GarbageSystem::default();
    let mut grid2 = empty_grid(0);
    grid2.gen_2d_garbage(&mut garbage_system, 2);
    assert_eq!(garbage_system.lowest_idle(&grid), None);
    garbage_system.list[0].state = GarbageState::Idle;
    assert_eq!(garbage_system.lowest_idle(&grid), Some(1));
    assert_eq!(garbage_system.lowest_clear(&grid), None);
    garbage_system.list[0].state = GarbageState::Clear { counter: 0, end_time: 1, finished: false };
    assert_eq!(garbage_system.lowest_clear(&grid), Some(1));
    garbage_system.list[0].children.clear();
    assert_eq!(garbage_system.lowest_clear(&grid), None);
}

#[test]
fn no_swap_under_a_hanging_block() {
    let mut grid = empty_grid(0);
    let mut cursor = Cursor::default();
    cursor.position = I2::new(0, 5);
    let i = 5 * GRID_WIDTH;
    grid.components[i] = idle_block(3);
    grid.components[i + 1 - GRID_WIDTH] = Component::Block {
        block: Block { vframe: 4, ..Block::default() },
        state: BlockState::Hang { counter: 2 },
    };
    cursor.swap_blocks(&mut grid.components);
    assert_eq!(state_of(&grid.components[i]), Some(BlockState::Idle));

    // without the hanging block the swap starts
    grid.components[i + 1 - GRID_WIDTH] = idle_block(4);
    cursor.swap_blocks(&mut grid.components);
    assert!(matches!(state_of(&grid.components[i]), Some(BlockState::Swap { .. })));
}

#[test]
fn a_finished_hang_lets_only_its_column_fall() {
    let mut grid = empty_grid(0);
    let mut garbage_system = GarbageSystem::default();
    // a finished hang at the top of the last column
    grid.components[5] = Component::Block {
        block: Block { vframe: 3, ..Block::default() },
        state: BlockState::Hang { counter: HANG_TIME },
    };
    // an idle block low in the column left of it
    grid.components[64] = idle_block(4);
    grid.block_resolve_hang(&mut garbage_system);
    assert_eq!(state_of(&grid.components[5]), Some(BlockState::Fall));
    assert_eq!(state_of(&grid.components[64]), Some(BlockState::Idle));
}

#[test]
fn clearing_garbage_ticks_a_repeated_child_twice() {
    let mut grid = empty_grid(0);
    let mut garbage_system = GarbageSystem::default();
    grid.gen_1d_garbage(&mut garbage_system, 3);
    let children = garbage_system.list[0].children.clone();
    let counter_at = |grid: &Grid, c: usize| match grid.components[c] {
        Component::Child(ch) => ch.counter,
        _ => panic!("not a child"),
    };
    let before0 = counter_at(&grid, children[0]);
    let before1 = counter_at(&grid, children[1]);
    garbage_system.list[0].children = vec![children[0], children[0], children[1], children[2]];
    garbage_system.list[0].state = GarbageState::Clear { counter: 0, end_time: 100, finished: false };
    assert!(garbage_system.update_checked(&mut grid));
    assert_eq!(counter_at(&grid, children[0]), before0 + 2);
    assert_eq!(counter_at(&grid, children[1]), before1 + 1);
    assert_eq!(garbage_system.list[0].children.len(), 4);
    assert_eq!(garbage_system.list[0].state, GarbageState::Clear { counter: 1, end_time: 100, finished: false });
}

#[test]
fn falling_block_moves_one_row_per_update() {
    let mut grid = empty_grid(0);
    let mut garbage_system = GarbageSystem::default();
    // a column of two falling blocks over empty spaces
    grid.components[GRID_WIDTH] = Component::Block { block: Block { vframe: 3, ..Block::default() }, state: BlockState::Fall };
    grid.components[0] = Component::Block { block: Block { vframe: 4, ..Block::default() }, state: BlockState::Fall };
    let size = match grid.components[2 * GRID_WIDTH] {
        Component::Empty { size, .. } => size,
        _ => panic!("not empty"),
    };
    assert!(grid.update(&Input::default(), &mut garbage_system));
    match grid.components[2 * GRID_WIDTH] {
        Component::Block { block, state } => {
            assert_eq!(state, BlockState::Fall);
            assert_eq!(block.vframe, 3);
            assert_eq!(block.saved_chain, Some(size));
        },
        _ => panic!("the lower block did not fall one row"),
    }
    match grid.components[GRID_WIDTH] {
        Component::Block { block, state } => {
            assert_eq!(state, BlockState::Fall);
            assert_eq!(block.vframe, 4);
        },
        _ => panic!("the upper block did not fall one row"),
    }
    assert!(is_empty(&grid.components[0]));
    assert!(is_empty(&grid.components[3 * GRID_WIDTH]));
}
