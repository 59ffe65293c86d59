use everpuzzle::components::garbage_head::GarbageHead;
use everpuzzle::components::key_hash_map::KeyHashMap;
use everpuzzle::components::playfield_id::PlayfieldId;
use everpuzzle::components::playfield::{Clear, Lose, GarbageMaster};
use everpuzzle::engine::ui::{UiContext, UiItem};
use everpuzzle::helpers::bound_index::BoundIndex;
use everpuzzle::helpers::bound_iterator::{iter_xy, iter_yx_rev};
use everpuzzle::helpers::math::I2;
use everpuzzle::scripts::adaptors::{OptionBlock, OptionMutComponent};
use everpuzzle::scripts::block::Block;
use everpuzzle::scripts::component::Component;

#[test]
fn garbage_head_ids_move_and_come_back() {
    let mut head = GarbageHead::new(vec![0, 1, 2, 6, 7, 8], vec![0, 1, 2], vec![6, 7, 8], (3, 2));
    assert!(!head.can_fall && !head.clearing && !head.hanged && !head.marked_clear);
    assert_eq!(head.can_hang, (false, 0));
    assert!(head.new_kinds.is_empty());
    head.increase_block_ids();
    assert_eq!(head.parts, vec![6, 7, 8, 12, 13, 14]);
    assert_eq!(head.highest_blocks, vec![6, 7, 8]);
    assert_eq!(head.lowest_blocks, vec![12, 13, 14]);
    head.decrease_block_ids();
    assert_eq!(head.parts, vec![0, 1, 2, 6, 7, 8]);
    assert_eq!(head.highest_blocks, vec![0, 1, 2]);
    assert_eq!(head.lowest_blocks, vec![6, 7, 8]);
    assert_eq!(head.dimensions, (3, 2));
}

#[test]
fn key_hash_map_ticks() {
    let mut keys = KeyHashMap::new(1);
    assert_eq!(keys.key_presses.len(), 6);
    for code in 6..12u32 {
        assert_eq!(keys.key_presses.get(&code), Some(&0));
    }
    assert!(KeyHashMap::new(0).key_presses.contains_key(&0));
    assert!(KeyHashMap::default().key_presses.is_empty());

    // press counts once per hold
    assert!(keys.press(true, 10));
    assert!(!keys.press(true, 10));
    assert!(!keys.press(false, 10));
    assert!(keys.press(true, 10));

    // hold counts on the first frame and after 16 frames
    let mut held = Vec::new();
    for _ in 0..20 {
        held.push(keys.hold(true, 6));
    }
    assert!(held[0]);
    assert!(held[1..17].iter().all(|h| !h));
    assert!(held[17..].iter().all(|h| *h));
    assert!(!keys.hold(false, 6));
    assert_eq!(keys.key_presses.get(&6), Some(&0));

    // down is true on the first frame only
    assert!(keys.down(true, 7));
    assert!(keys.down(true, 7));
    assert!(!keys.down(false, 7));
}

#[test]
fn playfield_parts_start_empty() {
    assert_eq!(PlayfieldId::new(3).id(), 3);
    let clear = Clear::default();
    assert!(clear.clear_queue.is_empty());
    assert_eq!((clear.combo_counter, clear.chain, clear.last_chain, clear.blocks_cleared), (0, 1, 1, 0));
    let lose = Lose::default();
    assert!(!lose.lost);
    assert_eq!(lose.counter, 0);
    let master = GarbageMaster::default();
    assert_eq!(master.last_dimensions, (0, 0));
    assert!(!master.offset);
}

#[test]
fn button_click_counts_when_pressed_and_released_over_it() {
    let mut ui = UiContext::default();
    assert_eq!(ui.hot, UiItem::Empty);
    // away from the button
    assert_eq!(ui.draw_button(false, false, false, false), (false, 2));
    // hovering makes it hot
    assert_eq!(ui.draw_button(true, false, false, false), (false, 3));
    assert_eq!(ui.hot, UiItem::Button);
    // pressing makes it active
    assert_eq!(ui.draw_button(true, false, true, true), (false, 4));
    assert_eq!(ui.active, UiItem::Button);
    // releasing over it counts
    assert_eq!(ui.draw_button(true, true, false, false), (true, 3));
    assert_eq!(ui.active, UiItem::Empty);
    // a release without a press does not count
    assert_eq!(ui.draw_button(true, true, false, false), (false, 3));
}

#[test]
fn bound_index_checks_the_grid() {
    assert_eq!(5usize.to_index(), Some(5));
    assert_eq!(72usize.to_index(), None);
    assert_eq!(I2::new(3, 2).to_index(), Some(15));
    assert_eq!(I2::new(6, 0).to_index(), None);
    assert_eq!(I2::new(-1, 0).to_index(), None);
    assert_eq!(I2::new(-1, 2).raw(), 12);
    assert_eq!((5i32, 11i32).to_index(), Some(71));
    assert_eq!((5i32, 12i32).to_index(), None);
    assert_eq!((-3i32, 1i32).raw(), 6);
    assert_eq!((2usize, 1usize).to_index(), Some(8));
    assert_eq!((2usize, 1usize).in_bounds(), true);
    assert_eq!((7usize, 1usize).in_bounds(), false);
}

#[test]
fn walks_cover_the_grid() {
    let xy = iter_xy();
    assert_eq!(xy.len(), 72);
    assert_eq!(xy[0], (0, 0, 0));
    assert_eq!(xy[7], (1, 1, 7));
    assert_eq!(xy[71], (5, 11, 71));
    let rev = iter_yx_rev();
    assert_eq!(rev.len(), 72);
    assert_eq!(rev[0], (5, 11, 71));
    assert_eq!(rev[1], (5, 10, 65));
    assert_eq!(rev[12], (4, 11, 70));
    assert_eq!(rev[71], (0, 0, 0));
    let mut seen = vec![false; 72];
    for &(x, y, i) in &rev {
        assert_eq!(y * 6 + x, i);
        assert!(!seen[i]);
        seen[i] = true;
    }
    assert!(seen.iter().all(|s| *s));
}

#[test]
fn adaptors_read_and_write_options() {
    let block = Block { saved_chain: Some(3), ..Block::default() };
    assert_eq!(Some(&block).get_chain(), Some(3));
    assert_eq!(None::<&Block>.get_chain(), None);
    let mut c = Component::Empty { size: 0, alive: false };
    Some(&mut c).to_chainable(4);
    assert_eq!(c, Component::Empty { size: 4, alive: true });
    None::<&mut Component>.to_chainable(2);
}
