use everpuzzle::helpers::data::{GRID_TOTAL, GRID_WIDTH, HANG_TIME};
use everpuzzle::scripts::block::{Block, BlockState};
use everpuzzle::scripts::combo_highlight::{ComboHighlight, ComboVariant, COMBO_APPEAR_TIME, COMBO_DISAPPEAR_TIME};
use everpuzzle::scripts::component::Component;
use everpuzzle::scripts::garbage::{Child, Garbage, GarbageSystem, GarbageState};
use everpuzzle::scripts::grid::Grid;

fn empty_grid() -> Grid {
    Grid::new(0, 1, &[None; GRID_TOTAL])
}

/// an empty grid but for a bottom row of blocks that do not match
fn floored_grid() -> Grid {
    let mut vframes = [None; GRID_TOTAL];
    for x in 0..GRID_WIDTH {
        vframes[GRID_TOTAL - GRID_WIDTH + x] = Some(3 + (x as u32 % 2));
    }
    Grid::new(0, 1, &vframes)
}

#[test]
fn garbage_rows() {
    let g = Garbage::new(0, (0..12).collect());
    assert!(g.is_2d);
    assert_eq!(g.count, 12);
    assert_eq!(g.state, GarbageState::Fall);
    assert_eq!(g.highest(), vec![0, 1, 2, 3, 4, 5]);
    assert_eq!(g.lowest(), vec![6, 7, 8, 9, 10, 11]);
    assert_eq!(g.lowest_y(), 1);
    let one = Garbage::new(1, vec![3, 4, 5]);
    assert!(!one.is_2d);
    assert_eq!(one.lowest(), vec![3, 4, 5]);
    assert_eq!(one.lowest_y(), 0);

    let mut three = Garbage::new(0, (0..18).collect());
    let drained = three.drain_lowest();
    assert_eq!(drained, vec![12, 13, 14, 15, 16, 17]);
    assert_eq!(three.children, (0..12).collect::<Vec<usize>>());
    assert_eq!(three.count, 12);
    assert!(three.is_2d);
    let drained = three.drain_lowest();
    assert_eq!(drained, vec![6, 7, 8, 9, 10, 11]);
    assert_eq!(three.count, 6);
    assert!(!three.is_2d);
}

#[test]
fn child_frames() {
    assert_eq!(Child::gen_1d_frames(0, 4), (0, 9));
    assert_eq!(Child::gen_1d_frames(1, 4), (1, 9));
    assert_eq!(Child::gen_1d_frames(3, 4), (2, 9));
    assert_eq!(Child::gen_2d_frames(0, 0, 3), (1, 10));
    assert_eq!(Child::gen_2d_frames(0, 2, 3), (2, 10));
    assert_eq!(Child::gen_2d_frames(0, 1, 3), (8, 10));
    assert_eq!(Child::gen_2d_frames(5, 0, 3), (3, 10));
    assert_eq!(Child::gen_2d_frames(2, 0, 3), (5, 10));
    assert_eq!(Child::gen_2d_frames(5, 2, 3), (4, 10));
    assert_eq!(Child::gen_2d_frames(5, 1, 3), (6, 10));
    assert_eq!(Child::gen_2d_frames(2, 2, 3), (7, 10));
    assert_eq!(Child::gen_2d_frames(2, 1, 3), (0, 10));
    // a height of one is a one dimensional garbage
    assert_eq!(Child::gen_2d_frames(0, 0, 1), (0, 9));
    assert_eq!(Child::gen_2d_frames(3, 0, 0), (1, 9));
    assert_eq!(Child::default().scale, 40);
}

#[test]
fn two_dimensional_garbage_spawns_at_the_top() {
    let mut grid = empty_grid();
    let mut garbage_system = GarbageSystem::default();
    grid.gen_2d_garbage(&mut garbage_system, 2);
    let g = &garbage_system.list[0];
    assert_eq!(g.children, (0..12).collect::<Vec<usize>>());
    assert!(g.is_2d);
    assert_eq!(g.count, 12);
    for i in 0..GRID_TOTAL {
        assert_eq!(matches!(grid.components[i], Component::Child(_)), i < 12);
    }
    match grid.components[0] {
        Component::Child(c) => assert_eq!((c.hframe, c.vframe), (1, 10)),
        _ => panic!(),
    }
}

#[test]
fn garbage_falls_to_the_bottom_and_idles() {
    let mut grid = floored_grid();
    let mut garbage_system = GarbageSystem::default();
    grid.gen_1d_garbage(&mut garbage_system, 3);
    let offset = garbage_system.list[0].children[0];
    for _ in 0..10 {
        grid.garbage_resolve_fall(&mut garbage_system);
    }
    assert_eq!(garbage_system.list[0].children[0], 10 * GRID_WIDTH + offset);
    assert!(matches!(grid.components[10 * GRID_WIDTH + offset], Component::Child(_)));
    assert!(matches!(grid.components[offset], Component::Empty { .. }));
    assert_eq!(garbage_system.list[0].state, GarbageState::Fall);
    // the blocks of the lowest row end the fall
    grid.garbage_resolve_fall(&mut garbage_system);
    assert_eq!(garbage_system.list[0].state, GarbageState::Idle);
}

#[test]
fn idle_garbage_hangs_over_a_hole() {
    let mut grid = empty_grid();
    let mut garbage_system = GarbageSystem::default();
    grid.gen_1d_garbage(&mut garbage_system, 3);
    garbage_system.list[0].state = GarbageState::Idle;
    grid.garbage_detect_hang(&mut garbage_system);
    assert_eq!(garbage_system.list[0].state, GarbageState::Hang { counter: 0 });
    for _ in 0..HANG_TIME {
        assert!(garbage_system.update_checked(&mut grid));
        grid.garbage_resolve_hang(&mut garbage_system);
    }
    assert_eq!(garbage_system.list[0].state, GarbageState::Fall);
}

#[test]
fn block_lands_on_garbage() {
    let mut grid = floored_grid();
    let mut garbage_system = GarbageSystem::default();
    grid.gen_1d_garbage(&mut garbage_system, 6);
    for _ in 0..10 {
        grid.garbage_resolve_fall(&mut garbage_system);
    }
    grid.garbage_resolve_fall(&mut garbage_system);
    assert_eq!(garbage_system.list[0].state, GarbageState::Idle);
    grid.components[9 * GRID_WIDTH] = Component::Block { block: Block { vframe: 3, ..Block::default() }, state: BlockState::Fall };
    grid.block_resolve_fall();
    assert!(matches!(grid.components[9 * GRID_WIDTH], Component::Block { state: BlockState::Land { counter: 0 }, .. }));
}

#[test]
fn combo_list_counts_down() {
    let mut combos = ComboHighlight::default();
    combos.push_combo(4);
    combos.push_chain(2);
    assert_eq!(combos.list.len(), 2);
    assert_eq!(combos.list[0].variant, ComboVariant::Chain);
    assert_eq!(combos.list[1].size, 4);
    assert_eq!(combos.y_offset, COMBO_APPEAR_TIME);
    combos.advance();
    assert_eq!(combos.list[0].counter, 1);
    assert_eq!(combos.visible_count(), 2);
    combos.list[1].counter = COMBO_DISAPPEAR_TIME;
    combos.advance();
    assert_eq!(combos.list.len(), 1);
    combos.clear();
    assert!(combos.list.is_empty());
}
