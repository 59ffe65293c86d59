use everpuzzle::engine::input::Input;
use everpuzzle::helpers::data::{ATLAS_TILE, GRID_TOTAL, GRID_WIDTH};
use everpuzzle::scripts::block::{Block, BlockState};
use everpuzzle::scripts::combo_highlight::ComboVariant;
use everpuzzle::scripts::component::Component;
use everpuzzle::scripts::garbage::{GarbageState, GarbageSystem};
use everpuzzle::scripts::grid::Grid;

fn empty_grid(id: usize) -> Grid {
    Grid::new(id, 1 + id as u64, &[None; GRID_TOTAL])
}

fn is_child(c: &Component) -> bool {
    matches!(c, Component::Child(_))
}

#[test]
fn combos_send_garbage_to_the_other_grids() {
    let mut grids = vec![empty_grid(0), empty_grid(1), empty_grid(2)];
    grids[1].combo_highlight.push_combo(4);
    grids[1].combo_highlight.push_chain(2);
    let mut garbage_system = GarbageSystem::default();

    assert!(Grid::send_combos(&mut grids, &mut garbage_system, 1));

    // the chain is first in the list, then the combo; each goes to grid 0, then to grid 2
    let shapes: Vec<(usize, usize, bool)> = garbage_system.list.iter().map(|g| (g.parent_id, g.count, g.is_2d)).collect();
    assert_eq!(shapes, vec![(0, 12, true), (2, 12, true), (0, 4, false), (2, 4, false)]);
    assert!(garbage_system.list.iter().all(|g| g.state == GarbageState::Fall && g.removed_children.is_empty()));
    assert!(grids[1].combo_highlight.list.iter().all(|c| c.sent));
    assert_eq!(grids[1].combo_highlight.list.len(), 2);
    assert!(grids[1].components.iter().all(|c| !is_child(c)));

    // the chain's rows lie at the top, the combo's line where its garbage says
    for target in [0, 2] {
        let comps = &grids[target].components;
        assert!(comps[..2 * GRID_WIDTH].iter().all(is_child));
        let line = garbage_system.list.iter().find(|g| g.parent_id == target && !g.is_2d).unwrap();
        assert_eq!(line.children.len(), 4);
        assert!(line.children.iter().all(|i| is_child(&comps[*i])));
        assert!(comps[2 * GRID_WIDTH..].iter().all(|c| !is_child(c)));
    }

    // a combo sends its garbage once
    assert!(Grid::send_combos(&mut grids, &mut garbage_system, 1));
    assert_eq!(garbage_system.list.len(), 4);
}

#[test]
fn combos_too_large_are_not_sent() {
    let mut grids = vec![empty_grid(0), empty_grid(1)];
    grids[0].combo_highlight.push_combo(7);
    let mut garbage_system = GarbageSystem::default();
    assert!(!Grid::send_combos(&mut grids, &mut garbage_system, 0));
    assert!(garbage_system.list.is_empty());
    assert!(!grids[0].combo_highlight.list[0].sent);
    assert!(grids[1].components.iter().all(|c| !is_child(c)));

    // with no other grid nothing is sent, and the combo counts as sent
    let mut alone = vec![empty_grid(0)];
    alone[0].combo_highlight.push_combo(7);
    assert!(Grid::send_combos(&mut alone, &mut garbage_system, 0));
    assert!(garbage_system.list.is_empty());
    assert!(alone[0].combo_highlight.list[0].sent);
    assert_eq!(alone[0].combo_highlight.list[0].variant, ComboVariant::Combo);
}

#[test]
fn push_ready_checks() {
    let mut grid = empty_grid(0);
    let mut garbage_system = GarbageSystem::default();
    assert!(grid.push_update_ready(&garbage_system));

    // a garbage of the grid in the top row does not stop a push that only counts
    grid.gen_2d_garbage(&mut garbage_system, 1);
    assert!(grid.push_update_ready(&garbage_system));

    // it stops a push that moves the grid a row up
    grid.push_raise = true;
    grid.push_amount = ATLAS_TILE - 1;
    assert!(!grid.push_update_ready(&garbage_system));

    // one of another grid does not
    let mut other = empty_grid(1);
    other.push_raise = true;
    other.push_amount = ATLAS_TILE - 1;
    assert!(other.push_update_ready(&garbage_system));

    grid.components.pop();
    assert!(!grid.push_update_ready(&GarbageSystem::default()));
}

#[test]
fn garbage_stuck_in_the_top_row_does_not_stop_the_frame() {
    let mut grids = vec![empty_grid(0), empty_grid(1)];
    let mut garbage_system = GarbageSystem::default();
    // a full stack below the top row keeps the garbage from falling
    for i in GRID_WIDTH..GRID_TOTAL {
        grids[0].components[i] = Component::Block {
            block: Block { vframe: 3 + ((i % GRID_WIDTH + i / GRID_WIDTH) % 2) as u32 * 2, ..Block::default() },
            state: BlockState::Idle,
        };
    }
    grids[0].gen_2d_garbage(&mut garbage_system, 1);
    let input = Input::default();
    assert!(Grid::update_all(&mut grids, &input, &mut garbage_system));
    assert!(Grid::update_all(&mut grids, &input, &mut garbage_system));
}

#[test]
fn all_grids_take_a_frame() {
    let mut grids = vec![empty_grid(0), empty_grid(1)];
    grids[0].combo_highlight.push_combo(3);
    let mut garbage_system = GarbageSystem::default();
    let input = Input::default();
    assert!(Grid::update_all(&mut grids, &input, &mut garbage_system));
    // the first grid sent its combo to the second one
    assert_eq!(garbage_system.list.len(), 1);
    assert_eq!(garbage_system.list[0].parent_id, 1);
    assert_eq!(garbage_system.list[0].count, 3);
    assert!(grids[0].combo_highlight.list[0].sent);
    // after the frame no combo of any grid waits to be sent
    assert!(grids.iter().all(|g| g.combo_highlight.list.iter().all(|c| c.sent)));
    // nothing clears and no raise was asked for, so the first grid's push counter counted a frame
    assert_eq!(grids[0].push_counter, 1);
    assert_eq!(grids[0].push_amount, 0);
}

#[test]
fn a_frame_stops_on_a_combo_that_does_not_fit() {
    let mut grids = vec![empty_grid(0), empty_grid(1)];
    grids[0].combo_highlight.push_combo(7);
    let mut garbage_system = GarbageSystem::default();
    let input = Input::default();
    assert!(!Grid::update_all(&mut grids, &input, &mut garbage_system));
    assert_eq!(grids.len(), 2);
    assert!(garbage_system.list.is_empty());
    assert!(!grids[0].combo_highlight.list[0].sent);
}

#[test]
fn line_garbage_lies_where_the_generator_says() {
    let mut grid = empty_grid(0);
    let mut garbage_system = GarbageSystem::default();
    let mut reference = oorandom::Rand32::from_state((grid.rng.state, grid.rng.inc));
    let offset = reference.rand_range(0..(GRID_WIDTH as u32 - 4 + 1)) as usize;
    grid.gen_1d_garbage(&mut garbage_system, 4);
    assert_eq!(garbage_system.list[0].children, (offset..offset + 4).collect::<Vec<usize>>());
    assert_eq!(grid.rng.state, reference.state().0);
}

#[test]
fn new_lines_follow_the_generator() {
    let mut grid = empty_grid(0);
    let mut reference = oorandom::Rand32::from_state((grid.rng.state, grid.rng.inc));
    // below empty spaces every number drawn is taken
    let expected: Vec<u32> = (0..GRID_WIDTH).map(|_| reference.rand_range(3..8)).collect();
    let line = grid.gen_line();
    assert_eq!(line.to_vec(), expected);
    assert_eq!(grid.rng.state, reference.state().0);
}

#[test]
fn a_frame_keeps_the_garbages_of_other_grids() {
    let mut grid = empty_grid(0);
    let mut other = empty_grid(1);
    let mut garbage_system = GarbageSystem::default();
    other.gen_2d_garbage(&mut garbage_system, 1);
    grid.gen_2d_garbage(&mut garbage_system, 1);
    other.gen_1d_garbage_at(&mut garbage_system, 3, 0);
    let before: Vec<(usize, Vec<usize>, usize, GarbageState)> = garbage_system
        .list
        .iter()
        .filter(|g| g.parent_id == 1)
        .map(|g| (g.parent_id, g.children.clone(), g.count, g.state))
        .collect();
    let input = Input::default();
    assert!(grid.update(&input, &mut garbage_system));
    let after: Vec<(usize, Vec<usize>, usize, GarbageState)> = garbage_system
        .list
        .iter()
        .filter(|g| g.parent_id == 1)
        .map(|g| (g.parent_id, g.children.clone(), g.count, g.state))
        .collect();
    assert_eq!(before, after);
    // the grid's own garbage fell a row
    assert_eq!(garbage_system.list[1].children, (GRID_WIDTH..2 * GRID_WIDTH).collect::<Vec<usize>>());
}

#[test]
fn a_hang_that_ends_falls_the_next_frame() {
    let mut grid = empty_grid(0);
    let mut garbage_system = GarbageSystem::default();
    let i = 5 * GRID_WIDTH + 2;
    grid.components[i] = Component::Block {
        block: Block { vframe: 3, ..Block::default() },
        state: BlockState::Hang { counter: everpuzzle::helpers::data::HANG_TIME },
    };
    let input = Input::default();
    assert!(grid.update(&input, &mut garbage_system));
    // set to fall this frame, but still in its space
    assert!(matches!(grid.components[i], Component::Block { state: BlockState::Fall, .. }));
    assert!(grid.update(&input, &mut garbage_system));
    // the next frame it moved a row down
    assert!(matches!(grid.components[i + GRID_WIDTH], Component::Block { state: BlockState::Fall, .. }));
}

#[test]
fn grids_seeded_alike_generate_alike() {
    let mut a = Grid::new(0, 3, &[None; GRID_TOTAL]);
    let mut b = Grid::new(1, 3, &[None; GRID_TOTAL]);
    assert_eq!(a.gen_line(), b.gen_line());
    assert_eq!(Grid::gen_field(&mut a.rng, 5), Grid::gen_field(&mut b.rng, 5));
    let mut c = Grid::new(0, 4, &[None; GRID_TOTAL]);
    let mut d = Grid::new(0, 3, &[None; GRID_TOTAL]);
    assert_ne!(c.gen_line(), d.gen_line());
}

#[test]
fn a_stopped_frame_keeps_the_garbages_of_other_grids() {
    let mut grid = empty_grid(0);
    let mut other = empty_grid(1);
    let mut garbage_system = GarbageSystem::default();
    other.gen_1d_garbage_at(&mut garbage_system, 3, 0);
    grid.gen_1d_garbage_at(&mut garbage_system, 4, 0);
    // a child of the grid's garbage in the bottom row has no row below to look at: the frame stops
    garbage_system.list[1].children[0] = GRID_TOTAL - 1;
    let before: Vec<(usize, Vec<usize>, usize, GarbageState)> = garbage_system
        .list
        .iter()
        .filter(|g| g.parent_id == 1)
        .map(|g| (g.parent_id, g.children.clone(), g.count, g.state))
        .collect();
    assert!(!grid.update(&Input::default(), &mut garbage_system));
    let after: Vec<(usize, Vec<usize>, usize, GarbageState)> = garbage_system
        .list
        .iter()
        .filter(|g| g.parent_id == 1)
        .map(|g| (g.parent_id, g.children.clone(), g.count, g.state))
        .collect();
    assert_eq!(before, after);
}
