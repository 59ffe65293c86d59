use vstd::prelude::*;
use crate::helpers::data::{GRID_TOTAL, GRID_WIDTH, LAND_TIME, SWAP_TIME, CLEAR_TIME};
use crate::scripts::block::{Block, BlockState, counter_room};
use crate::scripts::component::Component;
use crate::scripts::garbage::{Garbage, GarbageSystem, GarbageState, same_but_state, same_but_children, shifted_children};
use crate::scripts::grid::{Grid, animated, counters_have_room};
use crate::scripts::grid_blocks::{resolve_swaps, resolve_falls, scan_len, hang_resolved, fall_flag, scan_position, garbage_after_hangs, swaps_in_bounds, swap_finished, swap_direction, clears, cleared, combos_after_clear, clear_chain, clear_rank, chains_fit, clear_ends_set, saved_chain_of, clear_vframes, lemma_fall_one_row, lemma_swaps_untouched, lemma_falls_keep_unmoved};
use crate::scripts::grid_garbage::{lemma_first_cleared_out, lemma_garbage_falls_keep, clear_done, mark_children, garbage_falls_upto, lowest_empty_spec, hang_done, first_cleared_out, clear_resolved_state, garbage_clears_upto, garbage_clears, garbages_placed, garbage_placed, garbages_in_grid};
use crate::scripts::combo_highlight::COMBO_APPEAR_TIME;
use crate::scripts::cursor::{Cursor, CursorState, cursor_ready, ai_outcome, apply_queue, swapped, player_moved, player_components, player_swaps, key_lift, pixel_position, LERP_TIME, ANIMATION_TIME};
use crate::scripts::grid_ai::{peaks, peak_row, swap_move, abs_int, planned, v_search, h_search, spawn_search, carry_move, first_hole, grid_same_but_states, cursor_same_but_states, v_in_grid, v_in_grid_check, lemma_v_in_grid, lemma_peak_scan_in_grid, lemma_peaks_column, lemma_first_hole_in_row};
use crate::scripts::garbage_update::{lowest_row, rows_defined, rows_defined_check};
use crate::helpers::data::GRID_HEIGHT;
use crate::helpers::math::{I2, ToI2};
use crate::engine::input::Input;

verus! {

/// `b` is the grid `a` after `Grid::update_components`
pub open spec fn animated_phase(a: Grid, b: Grid) -> bool {
    &&& b.components@ == a.components@.map_values(|c: Component| animated(c))
    &&& b.id == a.id
    &&& b.combo_highlight == a.combo_highlight
    &&& b.push_counter == a.push_counter
    &&& b.push_amount == a.push_amount
    &&& b.push_raise == a.push_raise
    &&& b.cursor == a.cursor
    &&& b.rng == a.rng
}

/// `b` is the grid `a` after `Grid::block_resolve_swap`
pub open spec fn swaps_phase(a: Grid, b: Grid) -> bool {
    &&& b.wf()
    &&& b.components@ == resolve_swaps(a.components@, GRID_TOTAL as int)
    &&& b.id == a.id
    &&& b.combo_highlight == a.combo_highlight
    &&& b.push_counter == a.push_counter
    &&& b.push_amount == a.push_amount
    &&& b.push_raise == a.push_raise
    &&& b.cursor == a.cursor
    &&& b.rng == a.rng
}

/// `b` is the grid `a` after `Grid::block_resolve_land`
pub open spec fn lands_phase(a: Grid, b: Grid) -> bool {
    &&& b.wf()
    &&& forall|i: int| 0 <= i < GRID_TOTAL ==> #[trigger] b.components@[i] == match a.components@[i] {
        Component::Block { block, state: BlockState::Land { counter } } =>
            if i < GRID_TOTAL - GRID_WIDTH && counter >= LAND_TIME - 1 {
                Component::Block { block, state: BlockState::Idle }
            } else {
                a.components@[i]
            },
        _ => a.components@[i],
    }
    &&& b.id == a.id
    &&& b.combo_highlight == a.combo_highlight
    &&& b.push_counter == a.push_counter
    &&& b.push_amount == a.push_amount
    &&& b.push_raise == a.push_raise
    &&& b.cursor == a.cursor
    &&& b.rng == a.rng
}

/// `b` is the grid `a` after `Grid::block_resolve_fall`
pub open spec fn falls_phase(a: Grid, b: Grid) -> bool {
    &&& b.wf()
    &&& b.components@ == resolve_falls(a.components@, scan_len())
    &&& b.id == a.id
    &&& b.combo_highlight == a.combo_highlight
    &&& b.push_counter == a.push_counter
    &&& b.push_amount == a.push_amount
    &&& b.push_raise == a.push_raise
    &&& b.cursor == a.cursor
    &&& b.rng == a.rng
}

/// `b` is the grid `a` after `Grid::garbage_resolve_fall` on the garbage list `la`, which it leaves as `lb`
pub open spec fn garbage_falls_phase(a: Grid, b: Grid, la: Seq<Garbage>, lb: Seq<Garbage>) -> bool {
    &&& b.wf()
    &&& b.components@ == garbage_falls_upto(a.components@, la, a.id, la.len() as int)
    &&& lb.len() == la.len()
    &&& forall|k: int| 0 <= k < la.len() ==> ({
        let g = la[k];
        let before = garbage_falls_upto(a.components@, la, a.id, k);
        let after = #[trigger] lb[k];
        if g.parent_id == a.id && g.state is Fall {
            if lowest_empty_spec(before, g) {
                same_but_children(after, g) && after.children@ == shifted_children(g.children@, true)
            } else {
                same_but_state(after, g) && after.state is Idle
            }
        } else {
            after == g
        }
    })
    &&& b.id == a.id
    &&& b.combo_highlight == a.combo_highlight
    &&& b.push_counter == a.push_counter
    &&& b.push_amount == a.push_amount
    &&& b.push_raise == a.push_raise
    &&& b.cursor == a.cursor
    &&& b.rng == a.rng
}

/// `b` is the grid `a` after `Grid::block_resolve_hang` on the garbage list `la`, which it leaves as `lb`
pub open spec fn hangs_phase(a: Grid, b: Grid, la: Seq<Garbage>, lb: Seq<Garbage>) -> bool {
    &&& b.wf()
    &&& forall|i: int| 0 <= i < GRID_TOTAL ==> #[trigger] b.components@[i] == if i < GRID_TOTAL - GRID_WIDTH {
        hang_resolved(a.components@[i], fall_flag(a.components@, scan_position(i)))
    } else {
        a.components@[i]
    }
    &&& lb.len() == la.len()
    &&& forall|k: int| 0 <= k < la.len() ==> same_but_state(#[trigger] lb[k], la[k])
    &&& forall|k: int| 0 <= k < la.len() ==> (#[trigger] lb[k]).state
        == garbage_after_hangs(la[k], a.id, a.components@, scan_len())
    &&& b.id == a.id
    &&& b.combo_highlight == a.combo_highlight
    &&& b.push_counter == a.push_counter
    &&& b.push_amount == a.push_amount
    &&& b.push_raise == a.push_raise
    &&& b.cursor == a.cursor
    &&& b.rng == a.rng
}

/// `b` is the grid `a` after `Grid::garbage_resolve_hang` on the garbage list `la`, which it leaves as `lb`
pub open spec fn garbage_hangs_phase(a: Grid, b: Grid, la: Seq<Garbage>, lb: Seq<Garbage>) -> bool {
    &&& b == a
    &&& lb.len() == la.len()
    &&& forall|k: int| 0 <= k < la.len() ==> same_but_state(#[trigger] lb[k], la[k])
    &&& forall|k: int| 0 <= k < la.len() ==> (#[trigger] lb[k]).state == {
        let g = la[k];
        if g.parent_id == a.id && hang_done(g.state) {
            GarbageState::Fall
        } else {
            g.state
        }
    }
}

/// `b` is the grid `a` after `Grid::block_detect_hang`
pub open spec fn hang_detect_phase(a: Grid, b: Grid) -> bool {
    &&& b.wf()
    &&& forall|i: int| 0 <= i < GRID_TOTAL ==> #[trigger] b.components@[i] == match a.components@[i] {
        Component::Block { block, state: BlockState::Idle } =>
            if i < GRID_TOTAL - GRID_WIDTH && a.components@[i + GRID_WIDTH] is Empty {
                Component::Block { block, state: BlockState::Hang { counter: 0 } }
            } else {
                a.components@[i]
            },
        _ => a.components@[i],
    }
    &&& b.id == a.id
    &&& b.combo_highlight == a.combo_highlight
    &&& b.push_counter == a.push_counter
    &&& b.push_amount == a.push_amount
    &&& b.push_raise == a.push_raise
    &&& b.cursor == a.cursor
    &&& b.rng == a.rng
}

/// `b` is the grid `a` after `Grid::garbage_detect_hang` on the garbage list `la`, which it leaves as `lb`
pub open spec fn garbage_hang_detect_phase(a: Grid, b: Grid, la: Seq<Garbage>, lb: Seq<Garbage>) -> bool {
    &&& b == a
    &&& lb.len() == la.len()
    &&& forall|k: int| 0 <= k < la.len() ==> same_but_state(#[trigger] lb[k], la[k])
    &&& forall|k: int| 0 <= k < la.len() ==> (#[trigger] lb[k]).state == {
        let g = la[k];
        if g.parent_id == a.id && g.state is Idle && lowest_empty_spec(a.components@, g) {
            GarbageState::Hang { counter: 0 }
        } else {
            g.state
        }
    }
}

/// `b` is the grid `a` after `Grid::block_resolve_clear`
pub open spec fn clears_phase(a: Grid, b: Grid) -> bool {
    &&& b.wf()
    &&& forall|i: int| 0 <= i < GRID_TOTAL ==> #[trigger] b.components@[i] == match a.components@[i] {
        Component::Block { block, state: BlockState::Clear { counter, end_time, .. } } =>
            if counter >= end_time - 1 {
                Component::Empty {
                    size: (match block.saved_chain { Some(s) => s, None => 0 } + 1) as usize,
                    alive: true,
                }
            } else {
                a.components@[i]
            },
        _ => a.components@[i],
    }
    &&& b.id == a.id
    &&& b.combo_highlight == a.combo_highlight
    &&& b.push_counter == a.push_counter
    &&& b.push_amount == a.push_amount
    &&& b.push_raise == a.push_raise
    &&& b.cursor == a.cursor
    &&& b.rng == a.rng
}

/// `b` is the grid `a` after `Grid::garbage_resolve_clear` on the garbage list `la`, which it leaves as `lb`
pub open spec fn garbage_clears_phase(a: Grid, b: Grid, la: Seq<Garbage>, lb: Seq<Garbage>) -> bool {
    &&& b == a
    &&& ({
        let l = la;
        let f = first_cleared_out(l, a.id);
        let nl = lb;
        &&& nl.len() == if f < l.len() { l.len() - 1 } else { l.len() as int }
        &&& forall|k: int| 0 <= k < f ==> same_but_state(#[trigger] nl[k], l[k]) && nl[k].state == clear_resolved_state(l[k], a.id)
        &&& forall|k: int| f <= k < nl.len() ==> #[trigger] nl[k] == l[k + 1]
    })
}

/// `b` is the grid `a` after `Grid::block_detect_clear`
pub open spec fn clear_detect_phase(a: Grid, b: Grid) -> bool {
    &&& b.wf()
    &&& forall|i: int| 0 <= i < GRID_TOTAL ==> #[trigger] b.components@[i] == if clears(a.components@, i) {
        cleared(a.components@, i)
    } else {
        a.components@[i]
    }
    &&& b.combo_highlight.list@ == combos_after_clear(a.components@, a.combo_highlight.list@)
    &&& b.combo_highlight.y_offset == if clear_chain(a.components@, GRID_TOTAL as int) is Some
        || clear_rank(a.components@, GRID_TOTAL as int) > 3 {
        COMBO_APPEAR_TIME
    } else {
        a.combo_highlight.y_offset
    }
    &&& b.id == a.id
    &&& b.push_counter == a.push_counter
    &&& b.push_amount == a.push_amount
    &&& b.push_raise == a.push_raise
    &&& b.cursor == a.cursor
    &&& b.rng == a.rng
}

/// `b` is the grid `a` after `Grid::garbage_detect_clear` on the garbage list `la`, which it leaves as `lb`
pub open spec fn garbage_clear_detect_phase(a: Grid, b: Grid, la: Seq<Garbage>, lb: Seq<Garbage>) -> bool {
    &&& b.wf()
    &&& b.components@ == garbage_clears_upto(a.components@, la, a.id, la.len() as int)
    &&& lb.len() == la.len()
    &&& forall|k: int| 0 <= k < la.len() ==> same_but_state(#[trigger] lb[k], la[k])
    &&& forall|k: int| 0 <= k < la.len() ==> (#[trigger] lb[k]).state == {
        let g = la[k];
        if garbage_clears(a.components@, g, a.id) {
            GarbageState::Clear { counter: 0, end_time: ((g.children@.len() + 1) * CLEAR_TIME) as u32, finished: false }
        } else {
            g.state
        }
    }
    &&& b.id == a.id
    &&& b.combo_highlight == a.combo_highlight
    &&& b.push_counter == a.push_counter
    &&& b.push_amount == a.push_amount
    &&& b.push_raise == a.push_raise
    &&& b.cursor == a.cursor
    &&& b.rng == a.rng
}

/// the steps of a frame after the cursor and the computer player: the animation frame, then
/// the resolves and detections of blocks and garbages, each on what the one before left
pub open spec fn frame_chain(
    g0: Grid,
    l0: Seq<Garbage>,
    g1: Grid,
    g2: Grid,
    g3: Grid,
    g4: Grid,
    g5: Grid,
    l5: Seq<Garbage>,
    g6: Grid,
    l6: Seq<Garbage>,
    l7: Seq<Garbage>,
    g8: Grid,
    l9: Seq<Garbage>,
    g10: Grid,
    l11: Seq<Garbage>,
    g12: Grid,
    g13: Grid,
    l13: Seq<Garbage>,
) -> bool {
    &&& animated_phase(g0, g1)
    &&& swaps_phase(g1, g2)
    &&& lands_phase(g2, g3)
    &&& falls_phase(g3, g4)
    &&& garbage_falls_phase(g4, g5, l0, l5)
    &&& hangs_phase(g5, g6, l5, l6)
    &&& garbage_hangs_phase(g6, g6, l6, l7)
    &&& hang_detect_phase(g6, g8)
    &&& garbage_hang_detect_phase(g8, g8, l7, l9)
    &&& clears_phase(g8, g10)
    &&& garbage_clears_phase(g10, g10, l9, l11)
    &&& clear_detect_phase(g10, g12)
    &&& garbages_in_grid(l11, g12.id)
    &&& garbage_clear_detect_phase(g12, g13, l11, l13)
}

/// what a garbage is, as plain values: its grid, children, removed children, count, shape and
/// state
pub open spec fn garbage_view(g: Garbage) -> (usize, Seq<usize>, Seq<usize>, usize, bool, GarbageState) {
    (g.parent_id, g.children@, g.removed_children@, g.count, g.is_2d, g.state)
}

/// the garbages of the list that belong to other grids than `id`, in list order
pub open spec fn other_garbages(l: Seq<Garbage>, id: usize) -> Seq<(usize, Seq<usize>, Seq<usize>, usize, bool, GarbageState)>
    decreases l.len(),
{
    if l.len() == 0 {
        Seq::empty()
    } else if l.last().parent_id != id {
        other_garbages(l.drop_last(), id).push(garbage_view(l.last()))
    } else {
        other_garbages(l.drop_last(), id)
    }
}

/// two lists of the same length whose garbages keep their grid, and whose garbages of other
/// grids than `id` stay as they are
pub open spec fn others_kept(la: Seq<Garbage>, lb: Seq<Garbage>, id: usize) -> bool {
    &&& lb.len() == la.len()
    &&& forall|k: int| 0 <= k < la.len() ==> (#[trigger] lb[k]).parent_id == la[k].parent_id
    &&& forall|k: int| 0 <= k < la.len() && la[k].parent_id != id ==> garbage_view(#[trigger] lb[k]) == garbage_view(la[k])
}

proof fn lemma_others_kept(la: Seq<Garbage>, lb: Seq<Garbage>, id: usize)
    requires
        others_kept(la, lb, id),
    ensures
        other_garbages(lb, id) == other_garbages(la, id),
    decreases la.len(),
{
    if la.len() > 0 {
        let n = la.len() - 1;
        assert(others_kept(la.drop_last(), lb.drop_last(), id)) by {
            assert forall|k: int| 0 <= k < n implies (#[trigger] lb.drop_last()[k]).parent_id == la.drop_last()[k].parent_id by {
                assert(lb[k].parent_id == la[k].parent_id);
            }
            assert forall|k: int| 0 <= k < n && la.drop_last()[k].parent_id != id implies garbage_view(#[trigger] lb.drop_last()[k]) == garbage_view(la.drop_last()[k]) by {
                assert(garbage_view(lb[k]) == garbage_view(la[k]));
            }
        }
        lemma_others_kept(la.drop_last(), lb.drop_last(), id);
        assert(lb.last().parent_id == la.last().parent_id);
        if la.last().parent_id != id {
            assert(garbage_view(lb.last()) == garbage_view(la.last()));
        }
    }
}

/// removing a garbage of grid `id` from a list keeps the garbages of the other grids
proof fn lemma_others_removed(la: Seq<Garbage>, lb: Seq<Garbage>, id: usize, f: int)
    requires
        0 <= f < la.len(),
        la[f].parent_id == id,
        lb.len() == la.len() - 1,
        forall|k: int| 0 <= k < f ==> (#[trigger] lb[k]).parent_id == la[k].parent_id,
        forall|k: int| 0 <= k < f && la[k].parent_id != id ==> garbage_view(#[trigger] lb[k]) == garbage_view(la[k]),
        forall|k: int| f <= k < lb.len() ==> #[trigger] lb[k] == la[k + 1],
    ensures
        other_garbages(lb, id) == other_garbages(la, id),
    decreases la.len(),
{
    if f == la.len() - 1 {
        assert(others_kept(la.drop_last(), lb, id)) by {
            assert forall|k: int| 0 <= k < lb.len() implies (#[trigger] lb[k]).parent_id == la.drop_last()[k].parent_id by {
                assert(la.drop_last()[k] == la[k]);
            }
            assert forall|k: int| 0 <= k < lb.len() && la.drop_last()[k].parent_id != id implies garbage_view(#[trigger] lb[k]) == garbage_view(la.drop_last()[k]) by {
                assert(la.drop_last()[k] == la[k]);
            }
        }
        lemma_others_kept(la.drop_last(), lb, id);
    } else {
        let n = lb.len() - 1;
        assert(lb.last() == la.last());
        assert forall|k: int| f <= k < lb.drop_last().len() implies #[trigger] lb.drop_last()[k] == la.drop_last()[k + 1] by {
            assert(lb[k] == la[k + 1]);
        }
        assert forall|k: int| 0 <= k < f implies (#[trigger] lb.drop_last()[k]).parent_id == la.drop_last()[k].parent_id by {
            assert(lb[k].parent_id == la[k].parent_id);
        }
        assert forall|k: int| 0 <= k < f && la.drop_last()[k].parent_id != id implies garbage_view(#[trigger] lb.drop_last()[k]) == garbage_view(la.drop_last()[k]) by {
            assert(garbage_view(lb[k]) == garbage_view(la[k]));
        }
        lemma_others_removed(la.drop_last(), lb.drop_last(), id, f);
    }
}

/// the falls and hang resolves of a frame of grid `id` keep the garbages of the other grids
proof fn lemma_others_through_hangs(id: usize, g4: Grid, g5: Grid, l0: Seq<Garbage>, l5: Seq<Garbage>, g6: Grid, l6: Seq<Garbage>, l7: Seq<Garbage>)
    requires
        g4.id == id,
        garbage_falls_phase(g4, g5, l0, l5),
        hangs_phase(g5, g6, l5, l6),
        garbage_hangs_phase(g6, g6, l6, l7),
    ensures
        other_garbages(l7, id) == other_garbages(l0, id),
{
    assert(g5.id == id && g6.id == id);
    assert(others_kept(l0, l5, id));
    lemma_others_kept(l0, l5, id);
    assert(others_kept(l5, l6, id));
    lemma_others_kept(l5, l6, id);
    assert(others_kept(l6, l7, id));
    lemma_others_kept(l6, l7, id);
}

/// the garbage hang detection of grid `id` keeps the garbages of the other grids
proof fn lemma_others_through_hang_detect(id: usize, g8: Grid, l7: Seq<Garbage>, l9: Seq<Garbage>)
    requires
        g8.id == id,
        garbage_hang_detect_phase(g8, g8, l7, l9),
    ensures
        other_garbages(l9, id) == other_garbages(l7, id),
{
    assert(others_kept(l7, l9, id));
    lemma_others_kept(l7, l9, id);
}

/// the garbage clear resolve of grid `id` keeps the garbages of the other grids
proof fn lemma_others_through_clears(id: usize, g10: Grid, l9: Seq<Garbage>, l11: Seq<Garbage>)
    requires
        g10.id == id,
        garbage_clears_phase(g10, g10, l9, l11),
    ensures
        other_garbages(l11, id) == other_garbages(l9, id),
{
    let f = first_cleared_out(l9, id);
    lemma_first_cleared_out(l9, id);
    if f < l9.len() {
        lemma_others_removed(l9, l11, id, f);
    } else {
        assert(others_kept(l9, l11, id));
        lemma_others_kept(l9, l11, id);
    }
}

/// the steps of a frame of a grid leave the garbages of the other grids as they are
proof fn lemma_frame_keeps_other_garbages(g0: Grid, l0: Seq<Garbage>, g: Grid, l: Seq<Garbage>)
    requires
        frame_resolved(g0, l0, g, l),
    ensures
        other_garbages(l, g0.id) == other_garbages(l0, g0.id),
{
    let (h1, h2, h3, h4, h5, l5, h6, l6, l7, h8, l9, h10, l11, h12) = choose|h1: Grid, h2: Grid, h3: Grid, h4: Grid, h5: Grid, l5: Seq<Garbage>, h6: Grid, l6: Seq<Garbage>, l7: Seq<Garbage>, h8: Grid, l9: Seq<Garbage>, h10: Grid, l11: Seq<Garbage>, h12: Grid|
        #[trigger] frame_chain(g0, l0, h1, h2, h3, h4, h5, l5, h6, l6, l7, h8, l9, h10, l11, h12, g, l);
    assert(frame_chain(g0, l0, h1, h2, h3, h4, h5, l5, h6, l6, l7, h8, l9, h10, l11, h12, g, l));
    let id = g0.id;
    assert(h4.id == id && h5.id == id && h6.id == id && h8.id == id && h10.id == id && h12.id == id);
    lemma_others_through_hangs(id, h4, h5, l0, l5, h6, l6, l7);
    lemma_others_through_hang_detect(id, h8, l7, l9);
    lemma_others_through_clears(id, h10, l9, l11);
    assert(others_kept(l11, l, id));
    lemma_others_kept(l11, l, id);
}

/// a frame of a grid leaves the garbages of the other grids as they are, in their order: only
/// the garbages of the grid itself change or leave the list
pub proof fn lemma_update_keeps_other_garbages(g0: Grid, input: &Input, l0: Seq<Garbage>, g: Grid, l: Seq<Garbage>)
    requires
        grid_updated(g0, input, l0, g, l),
    ensures
        other_garbages(l, g0.id) == other_garbages(l0, g0.id),
{
    let (g1, g2) = choose|g1: Grid, g2: Grid| #![trigger cursor_phase(g0, input, g1), frame_resolved(g2, l0, g, l)]
        cursor_phase(g0, input, g1)
        && (if ai_thinks(g1) { ai_phase(g1, l0, g2) } else { g2 == g1 })
        && frame_resolved(g2, l0, g, l);
    assert(g2.id == g0.id);
    lemma_frame_keeps_other_garbages(g2, l0, g, l);
}

/// marking the children of a garbage for its clear leaves every block where it is
proof fn lemma_marks_keep_blocks(c: Seq<Component>, g: Garbage, n: int, j: int)
    requires
        0 <= j < c.len(),
        c[j] is Block,
        n <= g.children@.len(),
        forall|k: int| 0 <= k < g.children@.len() ==> #[trigger] g.children@[k] < c.len(),
    ensures
        mark_children(c, g, n)[j] == c[j],
        mark_children(c, g, n).len() == c.len(),
    decreases n,
{
    if n > 0 {
        lemma_marks_keep_blocks(c, g, n - 1, j);
    }
}

/// the garbage clear detection leaves every block where it is
proof fn lemma_garbage_clears_keep_blocks(c: Seq<Component>, list: Seq<Garbage>, id: usize, n: int, j: int)
    requires
        0 <= j < c.len(),
        c.len() == GRID_TOTAL,
        c[j] is Block,
        n <= list.len(),
        garbages_in_grid(list, id),
    ensures
        garbage_clears_upto(c, list, id, n)[j] == c[j],
        garbage_clears_upto(c, list, id, n).len() == c.len(),
    decreases n,
{
    if n > 0 {
        lemma_garbage_clears_keep_blocks(c, list, id, n - 1, j);
        let prev = garbage_clears_upto(c, list, id, n - 1);
        let g = list[list.len() - n];
        if garbage_clears(c, g, id) {
            assert(list[list.len() - n].parent_id == id);
            lemma_marks_keep_blocks(prev, g, g.children@.len() as int, j);
        }
    }
}

/// a falling block after the frame's hang resolve stays as it is up to the end of the frame
proof fn lemma_falling_block_stays(
    g0: Grid,
    l0: Seq<Garbage>,
    g1: Grid,
    g2: Grid,
    g3: Grid,
    g4: Grid,
    g5: Grid,
    l5: Seq<Garbage>,
    g6: Grid,
    l6: Seq<Garbage>,
    l7: Seq<Garbage>,
    g8: Grid,
    l9: Seq<Garbage>,
    g10: Grid,
    l11: Seq<Garbage>,
    g12: Grid,
    g: Grid,
    l: Seq<Garbage>,
    i: int,
)
    requires
        frame_chain(g0, l0, g1, g2, g3, g4, g5, l5, g6, l6, l7, g8, l9, g10, l11, g12, g, l),
        0 <= i < GRID_TOTAL,
        g6.components@[i] matches Component::Block { state: BlockState::Fall, .. },
    ensures
        g.components@[i] == g6.components@[i],
{
    assert(g8.components@[i] == g6.components@[i]);
    assert(g10.components@[i] == g8.components@[i]);
    let v = clear_vframes(g10.components@);
    assert(v[i] == 99);
    assert(!clears(g10.components@, i));
    assert(g12.components@[i] == g10.components@[i]);
    assert(g12.wf());
    lemma_garbage_clears_keep_blocks(g12.components@, l11, g12.id, l11.len() as int, i);
}

/// a fall set in a frame acts at the earliest in the next frame: the falls of a frame run
/// before its hang resolve, and a block that the hang resolve sets to fall stays in its space,
/// falling, up to the end of the frame
pub proof fn lemma_new_falls_wait(
    g0: Grid,
    l0: Seq<Garbage>,
    g1: Grid,
    g2: Grid,
    g3: Grid,
    g4: Grid,
    g5: Grid,
    l5: Seq<Garbage>,
    g6: Grid,
    l6: Seq<Garbage>,
    l7: Seq<Garbage>,
    g8: Grid,
    l9: Seq<Garbage>,
    g10: Grid,
    l11: Seq<Garbage>,
    g12: Grid,
    g: Grid,
    l: Seq<Garbage>,
)
    requires
        frame_chain(g0, l0, g1, g2, g3, g4, g5, l5, g6, l6, l7, g8, l9, g10, l11, g12, g, l),
    ensures
        g4.components@ == resolve_falls(g3.components@, scan_len()),
        forall|i: int| 0 <= i < GRID_TOTAL && (#[trigger] g6.components@[i] matches Component::Block { state: BlockState::Fall, .. })
            && !(g5.components@[i] matches Component::Block { state: BlockState::Fall, .. })
            ==> g.components@[i] == g6.components@[i],
{
    assert forall|i: int| 0 <= i < GRID_TOTAL && (#[trigger] g6.components@[i] matches Component::Block { state: BlockState::Fall, .. })
        && !(g5.components@[i] matches Component::Block { state: BlockState::Fall, .. })
        implies g.components@[i] == g6.components@[i] by {
        lemma_falling_block_stays(g0, l0, g1, g2, g3, g4, g5, l5, g6, l6, l7, g8, l9, g10, l11, g12, g, l, i);
    }
}

/// resolves run before detections: a block that falls at the start of a frame, with an empty
/// space below and no swap running on the grid, is one row lower after the frame's fall step,
/// still falling, and carries the chain size of the space it fell into; where no garbage of the
/// grid has a child in either space, it is there, unchanged, at the end of the frame
pub proof fn lemma_frame_falls_one_row(
    g0: Grid,
    l0: Seq<Garbage>,
    g1: Grid,
    g2: Grid,
    g3: Grid,
    g4: Grid,
    g5: Grid,
    l5: Seq<Garbage>,
    g6: Grid,
    l6: Seq<Garbage>,
    l7: Seq<Garbage>,
    g8: Grid,
    l9: Seq<Garbage>,
    g10: Grid,
    l11: Seq<Garbage>,
    g12: Grid,
    g: Grid,
    l: Seq<Garbage>,
    i: int,
)
    requires
        frame_chain(g0, l0, g1, g2, g3, g4, g5, l5, g6, l6, l7, g8, l9, g10, l11, g12, g, l),
        g0.wf(),
        forall|j: int| 0 <= j < GRID_TOTAL ==> !(#[trigger] g0.components@[j] matches Component::Block { state: BlockState::Swap { .. }, .. }),
        0 <= i < GRID_TOTAL - GRID_WIDTH,
        g0.components@[i] is Block,
        g0.components@[i]->state == BlockState::Fall,
        g0.components@[i + GRID_WIDTH] is Empty,
    ensures
        g4.components@[i + GRID_WIDTH] == (Component::Block {
            block: Block { saved_chain: Some(g0.components@[i + GRID_WIDTH]->size), ..g0.components@[i]->block },
            state: BlockState::Fall,
        }),
        garbages_placed(l0, g0.id) && (forall|k: int, j: int| 0 <= k < l0.len() && l0[k].parent_id == g0.id && 0 <= j < l0[k].children@.len()
            ==> #[trigger] l0[k].children@[j] != i + GRID_WIDTH && l0[k].children@[j] != i)
            ==> g.components@[i + GRID_WIDTH] == g4.components@[i + GRID_WIDTH],
{
    let w = GRID_WIDTH as int;
    let c1 = g1.components@;
    assert(c1[i] == g0.components@[i]);
    assert(c1[i + w] == g0.components@[i + w]);
    assert forall|j: int| 0 <= j < c1.len() implies !#[trigger] swap_finished(c1[j]) by {
        assert(c1[j] == animated(g0.components@[j]));
        assert(!(g0.components@[j] matches Component::Block { state: BlockState::Swap { .. }, .. }));
    }
    lemma_swaps_untouched(c1, GRID_TOTAL as int);
    assert(g2.components@ == c1);
    assert(g3.components@[i] == c1[i]);
    assert(g3.components@[i + w] == c1[i + w]);
    lemma_fall_one_row(g3.components@, i);
    let x = i + w;
    if garbages_placed(l0, g0.id) && (forall|k: int, j: int| 0 <= k < l0.len() && l0[k].parent_id == g0.id && 0 <= j < l0[k].children@.len()
        ==> #[trigger] l0[k].children@[j] != i + GRID_WIDTH && l0[k].children@[j] != i) {
        assert(g4.id == g0.id);
        assert forall|k: int, j: int| 0 <= k < l0.len() && l0[k].parent_id == g4.id && 0 <= j < l0[k].children@.len()
            implies #[trigger] l0[k].children@[j] != x && l0[k].children@[j] + GRID_WIDTH != x by {
            assert(l0[k].children@[j] != i + GRID_WIDTH && l0[k].children@[j] != i);
        }
        lemma_garbage_falls_keep(g4.components@, l0, g4.id, l0.len() as int, x);
        assert(g5.components@[x] == g4.components@[x]);
        assert(g6.components@[x] == g5.components@[x]);
        lemma_falling_block_stays(g0, l0, g1, g2, g3, g4, g5, l5, g6, l6, l7, g8, l9, g10, l11, g12, g, l, x);
    }
}

/// the garbage clear detection turns nothing into a block
proof fn lemma_garbage_clears_no_new_blocks(c: Seq<Component>, list: Seq<Garbage>, id: usize, n: int, j: int)
    requires
        0 <= j < c.len(),
        c.len() == GRID_TOTAL,
        n <= list.len(),
        garbages_in_grid(list, id),
        garbage_clears_upto(c, list, id, n)[j] is Block,
    ensures
        c[j] is Block,
    decreases n,
{
    if n > 0 {
        lemma_garbage_clears_len(c, list, id, n - 1);
        let prev = garbage_clears_upto(c, list, id, n - 1);
        let g = list[list.len() - n];
        if garbage_clears(c, g, id) {
            assert(list[list.len() - n].parent_id == id);
            lemma_marks_no_new_blocks(prev, g, g.children@.len() as int, j);
        }
        lemma_garbage_clears_no_new_blocks(c, list, id, n - 1, j);
    }
}

/// the garbage clear detection keeps the number of spaces
proof fn lemma_garbage_clears_len(c: Seq<Component>, list: Seq<Garbage>, id: usize, n: int)
    requires
        c.len() == GRID_TOTAL,
        n <= list.len(),
        garbages_in_grid(list, id),
    ensures
        garbage_clears_upto(c, list, id, n).len() == c.len(),
    decreases n,
{
    if n > 0 {
        lemma_garbage_clears_len(c, list, id, n - 1);
        let g = list[list.len() - n];
        if garbage_clears(c, g, id) {
            assert(list[list.len() - n].parent_id == id);
            lemma_marks_keep_len(garbage_clears_upto(c, list, id, n - 1), g, g.children@.len() as int);
        }
    }
}

/// marking the children of a garbage turns nothing into a block
proof fn lemma_marks_no_new_blocks(c: Seq<Component>, g: Garbage, n: int, j: int)
    requires
        0 <= j < c.len(),
        n <= g.children@.len(),
        forall|k: int| 0 <= k < g.children@.len() ==> #[trigger] g.children@[k] < c.len(),
        mark_children(c, g, n)[j] is Block,
    ensures
        c[j] is Block,
    decreases n,
{
    if n > 0 {
        lemma_marks_keep_len(c, g, n - 1);
        lemma_marks_no_new_blocks(c, g, n - 1, j);
    }
}

/// marking the children of a garbage keeps the number of spaces
proof fn lemma_marks_keep_len(c: Seq<Component>, g: Garbage, n: int)
    requires
        n <= g.children@.len(),
        forall|k: int| 0 <= k < g.children@.len() ==> #[trigger] g.children@[k] < c.len(),
    ensures
        mark_children(c, g, n).len() == c.len(),
    decreases n,
{
    if n > 0 {
        lemma_marks_keep_len(c, g, n - 1);
    }
}

/// a block that falls at the end of a frame, where neither it nor the space above it fell at the
/// frame's start, was set to fall by the frame's hang resolve: it is the block that was in its
/// space at the frame's start, of the same color, and did not move
pub proof fn lemma_frame_new_fall_in_place(
    g0: Grid,
    l0: Seq<Garbage>,
    g1: Grid,
    g2: Grid,
    g3: Grid,
    g4: Grid,
    g5: Grid,
    l5: Seq<Garbage>,
    g6: Grid,
    l6: Seq<Garbage>,
    l7: Seq<Garbage>,
    g8: Grid,
    l9: Seq<Garbage>,
    g10: Grid,
    l11: Seq<Garbage>,
    g12: Grid,
    g: Grid,
    l: Seq<Garbage>,
    i: int,
)
    requires
        frame_chain(g0, l0, g1, g2, g3, g4, g5, l5, g6, l6, l7, g8, l9, g10, l11, g12, g, l),
        g0.wf(),
        forall|j: int| 0 <= j < GRID_TOTAL ==> !(#[trigger] g0.components@[j] matches Component::Block { state: BlockState::Swap { .. }, .. }),
        garbages_placed(l0, g0.id),
        forall|k: int, j: int| 0 <= k < l0.len() && l0[k].parent_id == g0.id && 0 <= j < l0[k].children@.len()
            ==> #[trigger] l0[k].children@[j] != i && l0[k].children@[j] + GRID_WIDTH != i,
        0 <= i < GRID_TOTAL,
        !(g0.components@[i] matches Component::Block { state: BlockState::Fall, .. }),
        i >= GRID_WIDTH ==> !(g0.components@[i - GRID_WIDTH] matches Component::Block { state: BlockState::Fall, .. }),
        g.components@[i] matches Component::Block { state: BlockState::Fall, .. },
    ensures
        g0.components@[i] is Block,
        g.components@[i]->block.vframe == g0.components@[i]->block.vframe,
        g.components@[i] == g6.components@[i],
        g5.components@[i] != g6.components@[i],
{
    let w = GRID_WIDTH as int;
    let c1 = g1.components@;
    assert forall|j: int| 0 <= j < c1.len() implies !#[trigger] swap_finished(c1[j]) by {
        assert(c1[j] == animated(g0.components@[j]));
        assert(!(g0.components@[j] matches Component::Block { state: BlockState::Swap { .. }, .. }));
    }
    lemma_swaps_untouched(c1, GRID_TOTAL as int);
    assert(g2.components@ == c1);
    let c3 = g3.components@;
    assert(c1[i] == animated(g0.components@[i]));
    assert(!(c3[i] matches Component::Block { state: BlockState::Fall, .. }));
    if i >= w {
        assert(c1[i - w] == animated(g0.components@[i - w]));
        assert(!(c3[i - w] matches Component::Block { state: BlockState::Fall, .. }));
    }
    lemma_falls_keep_unmoved(c3, i);
    assert(g4.components@[i] == c3[i]);
    assert(g4.id == g0.id);
    assert forall|k: int, j: int| 0 <= k < l0.len() && l0[k].parent_id == g4.id && 0 <= j < l0[k].children@.len()
        implies #[trigger] l0[k].children@[j] != i && l0[k].children@[j] + GRID_WIDTH != i by {
        assert(l0[k].children@[j] != i && l0[k].children@[j] + GRID_WIDTH != i);
    }
    lemma_garbage_falls_keep(g4.components@, l0, g4.id, l0.len() as int, i);
    assert(g5.components@[i] == c3[i]);
    // nothing after the hang resolve sets a fall
    assert(g12.wf());
    lemma_garbage_clears_no_new_blocks(g12.components@, l11, g12.id, l11.len() as int, i);
    lemma_garbage_clears_keep_blocks(g12.components@, l11, g12.id, l11.len() as int, i);
    assert(g12.components@[i] == g.components@[i]);
    assert(g10.components@[i] == g.components@[i]);
    assert(g8.components@[i] == g.components@[i]);
    assert(g6.components@[i] == g.components@[i]);
    assert(g6.components@[i] != g5.components@[i]);
}

/// a block that falls at the end of an update, where neither it nor the space above it fell at
/// the start, with no swap running on the grid and none started in the update, was set to fall
/// in the update and has not moved: it is the block that was in its space at the start, of the
/// same color (resolves run before detections, so a fall set in an update acts at the earliest
/// in the next one). Asked of the garbages: they are laid out so the frame looks at them, and
/// none of the grid has a child in the block's space or right above it.
pub proof fn lemma_update_new_fall_in_place(g0: Grid, input: &Input, l0: Seq<Garbage>, g: Grid, l: Seq<Garbage>, i: int)
    requires
        grid_updated(g0, input, l0, g, l),
        g0.wf(),
        cursor_keeps_components(g0, input),
        forall|j: int| 0 <= j < GRID_TOTAL ==> !(#[trigger] g0.components@[j] matches Component::Block { state: BlockState::Swap { .. }, .. }),
        garbages_placed(l0, g0.id),
        forall|k: int, j: int| 0 <= k < l0.len() && l0[k].parent_id == g0.id && 0 <= j < l0[k].children@.len()
            ==> #[trigger] l0[k].children@[j] != i && l0[k].children@[j] + GRID_WIDTH != i,
        0 <= i < GRID_TOTAL,
        !(g0.components@[i] matches Component::Block { state: BlockState::Fall, .. }),
        i >= GRID_WIDTH ==> !(g0.components@[i - GRID_WIDTH] matches Component::Block { state: BlockState::Fall, .. }),
        g.components@[i] matches Component::Block { state: BlockState::Fall, .. },
    ensures
        g0.components@[i] is Block,
        g.components@[i]->block.vframe == g0.components@[i]->block.vframe,
{
    let (g1, g2) = choose|g1: Grid, g2: Grid| #![trigger cursor_phase(g0, input, g1), frame_resolved(g2, l0, g, l)]
        cursor_phase(g0, input, g1)
        && (if ai_thinks(g1) { ai_phase(g1, l0, g2) } else { g2 == g1 })
        && frame_resolved(g2, l0, g, l);
    assert(g1.components@ == g0.components@);
    assert(g2.components@ == g0.components@);
    assert(g2.id == g0.id);
    let (h1, h2, h3, h4, h5, l5, h6, l6, l7, h8, l9, h10, l11, h12) = choose|h1: Grid, h2: Grid, h3: Grid, h4: Grid, h5: Grid, l5: Seq<Garbage>, h6: Grid, l6: Seq<Garbage>, l7: Seq<Garbage>, h8: Grid, l9: Seq<Garbage>, h10: Grid, l11: Seq<Garbage>, h12: Grid|
        #[trigger] frame_chain(g2, l0, h1, h2, h3, h4, h5, l5, h6, l6, l7, h8, l9, h10, l11, h12, g, l);
    assert(frame_chain(g2, l0, h1, h2, h3, h4, h5, l5, h6, l6, l7, h8, l9, h10, l11, h12, g, l));
    lemma_frame_new_fall_in_place(g2, l0, h1, h2, h3, h4, h5, l5, h6, l6, l7, h8, l9, h10, l11, h12, g, l, i);
}

/// the steps of a frame from the animation frame up to the block falls
pub open spec fn steps_to_falls(g0: Grid, g1: Grid, g2: Grid, g3: Grid, g4: Grid) -> bool {
    &&& animated_phase(g0, g1)
    &&& swaps_phase(g1, g2)
    &&& lands_phase(g2, g3)
    &&& falls_phase(g3, g4)
}

/// the steps of a frame from the animation frame up to the garbage hang resolves
pub open spec fn steps_to_hangs(
    g0: Grid,
    l0: Seq<Garbage>,
    g4: Grid,
    g5: Grid,
    l5: Seq<Garbage>,
    g6: Grid,
    l6: Seq<Garbage>,
    l7: Seq<Garbage>,
) -> bool {
    &&& exists|g1: Grid, g2: Grid, g3: Grid| #[trigger] steps_to_falls(g0, g1, g2, g3, g4)
    &&& garbage_falls_phase(g4, g5, l0, l5)
    &&& hangs_phase(g5, g6, l5, l6)
    &&& garbage_hangs_phase(g6, g6, l6, l7)
}

/// the steps of a frame from the animation frame up to the garbage hang detection
pub open spec fn steps_to_hang_detect(g0: Grid, l0: Seq<Garbage>, g6: Grid, l7: Seq<Garbage>, g8: Grid, l9: Seq<Garbage>) -> bool {
    &&& exists|g4: Grid, g5: Grid, l5: Seq<Garbage>, l6: Seq<Garbage>| #[trigger] steps_to_hangs(g0, l0, g4, g5, l5, g6, l6, l7)
    &&& hang_detect_phase(g6, g8)
    &&& garbage_hang_detect_phase(g8, g8, l7, l9)
}

/// the steps of a frame from the animation frame up to the garbage clear resolves
pub open spec fn steps_to_clears(g0: Grid, l0: Seq<Garbage>, g8: Grid, l9: Seq<Garbage>, g10: Grid, l11: Seq<Garbage>) -> bool {
    &&& exists|g6: Grid, l7: Seq<Garbage>| #[trigger] steps_to_hang_detect(g0, l0, g6, l7, g8, l9)
    &&& clears_phase(g8, g10)
    &&& garbage_clears_phase(g10, g10, l9, l11)
}

/// the steps of a frame stop before their end: the requirement of a step fails on what the
/// steps before it left
pub open spec fn frame_blocked(g0: Grid, l0: Seq<Garbage>) -> bool {
    ||| !g0.wf()
    ||| !counters_have_room(g0.components@)
    ||| exists|g1: Grid| #[trigger] animated_phase(g0, g1) && !swaps_in_bounds(g1.components@)
    ||| !garbages_placed(l0, g0.id)
    ||| exists|g4: Grid, g5: Grid, l5: Seq<Garbage>, g6: Grid, l6: Seq<Garbage>, l7: Seq<Garbage>|
        #[trigger] steps_to_hangs(g0, l0, g4, g5, l5, g6, l6, l7) && !garbages_placed(l7, g0.id)
    ||| exists|g6: Grid, l7: Seq<Garbage>, g8: Grid, l9: Seq<Garbage>|
        #[trigger] steps_to_hang_detect(g0, l0, g6, l7, g8, l9) && (!clear_ends_set(g8.components@) || !chains_fit(g8.components@))
    ||| exists|g8: Grid, l9: Seq<Garbage>, g10: Grid, l11: Seq<Garbage>|
        #[trigger] steps_to_clears(g0, l0, g8, l9, g10, l11) && !chains_fit(g10.components@)
    ||| exists|g8: Grid, l9: Seq<Garbage>, g10: Grid, l11: Seq<Garbage>|
        #[trigger] steps_to_clears(g0, l0, g8, l9, g10, l11) && !garbages_in_grid(l11, g0.id)
}

/// `g` and `l` are the grid `g0` and the garbage list `l0` after the steps of `frame_chain`
pub open spec fn frame_resolved(g0: Grid, l0: Seq<Garbage>, g: Grid, l: Seq<Garbage>) -> bool {
    exists|g1: Grid, g2: Grid, g3: Grid, g4: Grid, g5: Grid, l5: Seq<Garbage>, g6: Grid, l6: Seq<Garbage>, l7: Seq<Garbage>, g8: Grid, l9: Seq<Garbage>, g10: Grid, l11: Seq<Garbage>, g12: Grid|
        #[trigger] frame_chain(g0, l0, g1, g2, g3, g4, g5, l5, g6, l6, l7, g8, l9, g10, l11, g12, g, l)
}

/// a frame keeps the grid's spaces and its id, and the pixel amount it is pushed up by
pub proof fn lemma_frame_keeps_grid(g0: Grid, l0: Seq<Garbage>, g: Grid, l: Seq<Garbage>)
    requires
        frame_resolved(g0, l0, g, l),
    ensures
        g.wf(),
        g.id == g0.id,
        g.push_amount == g0.push_amount,
{
    let (g1, g2, g3, g4, g5, l5, g6, l6, l7, g8, l9, g10, l11, g12) = choose|g1: Grid, g2: Grid, g3: Grid, g4: Grid, g5: Grid, l5: Seq<Garbage>, g6: Grid, l6: Seq<Garbage>, l7: Seq<Garbage>, g8: Grid, l9: Seq<Garbage>, g10: Grid, l11: Seq<Garbage>, g12: Grid|
        #[trigger] frame_chain(g0, l0, g1, g2, g3, g4, g5, l5, g6, l6, l7, g8, l9, g10, l11, g12, g, l);
    assert(frame_chain(g0, l0, g1, g2, g3, g4, g5, l5, g6, l6, l7, g8, l9, g10, l11, g12, g, l));
}

/// the cursor moves no component in the frame: the player asks for no swap and no lift, or the
/// computer player's frame swaps nothing
pub open spec fn cursor_keeps_components(g: Grid, input: &Input) -> bool {
    if g.cursor.ai {
        ai_outcome(g.cursor.position, g.cursor.start_delay, g.cursor.end_delay, g.cursor.states@, g.components@).swap_at is None
    } else {
        !player_swaps(input) && !key_lift(input)
    }
}

/// a block that falls when an update starts, with an empty space below, no swap running on the
/// grid and none started in the update, is one row lower at the end of the update, still
/// falling, and carries the chain size of the space it fell into: resolves run before
/// detections, and a fall moves a block by one row per frame. Asked of the garbages: they are
/// laid out so the frame looks at them, and none of the grid has a child in either space.
pub proof fn lemma_update_falls_one_row(g0: Grid, input: &Input, l0: Seq<Garbage>, g: Grid, l: Seq<Garbage>, i: int)
    requires
        grid_updated(g0, input, l0, g, l),
        g0.wf(),
        cursor_keeps_components(g0, input),
        forall|j: int| 0 <= j < GRID_TOTAL ==> !(#[trigger] g0.components@[j] matches Component::Block { state: BlockState::Swap { .. }, .. }),
        0 <= i < GRID_TOTAL - GRID_WIDTH,
        g0.components@[i] is Block,
        g0.components@[i]->state == BlockState::Fall,
        g0.components@[i + GRID_WIDTH] is Empty,
        garbages_placed(l0, g0.id),
        forall|k: int, j: int| 0 <= k < l0.len() && l0[k].parent_id == g0.id && 0 <= j < l0[k].children@.len()
            ==> #[trigger] l0[k].children@[j] != i + GRID_WIDTH && l0[k].children@[j] != i,
    ensures
        g.components@[i + GRID_WIDTH] == (Component::Block {
            block: Block { saved_chain: Some(g0.components@[i + GRID_WIDTH]->size), ..g0.components@[i]->block },
            state: BlockState::Fall,
        }),
{
    let (g1, g2) = choose|g1: Grid, g2: Grid| #![trigger cursor_phase(g0, input, g1), frame_resolved(g2, l0, g, l)]
        cursor_phase(g0, input, g1)
        && (if ai_thinks(g1) { ai_phase(g1, l0, g2) } else { g2 == g1 })
        && frame_resolved(g2, l0, g, l);
    assert(g1.components@ == g0.components@);
    assert(g2.components@ == g0.components@);
    assert(g2.id == g0.id);
    let (h1, h2, h3, h4, h5, l5, h6, l6, l7, h8, l9, h10, l11, h12) = choose|h1: Grid, h2: Grid, h3: Grid, h4: Grid, h5: Grid, l5: Seq<Garbage>, h6: Grid, l6: Seq<Garbage>, l7: Seq<Garbage>, h8: Grid, l9: Seq<Garbage>, h10: Grid, l11: Seq<Garbage>, h12: Grid|
        #[trigger] frame_chain(g2, l0, h1, h2, h3, h4, h5, l5, h6, l6, l7, h8, l9, h10, l11, h12, g, l);
    assert(frame_chain(g2, l0, h1, h2, h3, h4, h5, l5, h6, l6, l7, h8, l9, h10, l11, h12, g, l));
    lemma_frame_falls_one_row(g2, l0, h1, h2, h3, h4, h5, l5, h6, l6, l7, h8, l9, h10, l11, h12, g, l, i);
}

/// wether every block state counter of the components can count up
fn counters_room_check(c: &Vec<Component>) -> (r: bool)
    ensures
        r == counters_have_room(c@),
{
    let len = c.len();
    let mut i: usize = 0;
    while i < len
        invariant
            0 <= i <= len,
            len == c@.len(),
            forall|j: int| 0 <= j < i ==> (#[trigger] c@[j] matches Component::Block { state, .. } ==> counter_room(state)),
        decreases len - i,
    {
        if let Component::Block { state, .. } = c[i] {
            let room = match state {
                BlockState::Hang { counter } => counter < u32::MAX,
                BlockState::Swap { counter, .. } => counter < u32::MAX,
                BlockState::Clear { counter, .. } => counter < u32::MAX,
                BlockState::Land { counter } => counter < u32::MAX,
                _ => true,
            };
            if !room {
                assert(!(c@[i as int] matches Component::Block { state, .. } ==> counter_room(state)));
                return false;
            }
        }
        i = i + 1;
    }
    true
}

/// wether every finished swap of the components trades with a space of the list
fn swaps_bounds_check(c: &Vec<Component>) -> (r: bool)
    ensures
        r == swaps_in_bounds(c@),
{
    let len = c.len();
    let mut i: usize = 0;
    while i < len
        invariant
            0 <= i <= len,
            len == c@.len(),
            forall|j: int| 0 <= j < i && #[trigger] swap_finished(c@[j]) ==> 0 <= j + swap_direction(c@[j]) < len,
        decreases len - i,
    {
        if let Component::Block { state: BlockState::Swap { counter, direction }, .. } = c[i] {
            if counter >= SWAP_TIME - 1 {
                let target = i as i128 + direction as i128;
                if target < 0 || target >= len as i128 {
                    assert(swap_finished(c@[i as int]));
                    return false;
                }
            }
        }
        i = i + 1;
    }
    true
}

/// wether every clearing block has a clear end time of at least one frame
fn clear_ends_check(c: &Vec<Component>) -> (r: bool)
    ensures
        r == clear_ends_set(c@),
{
    let len = c.len();
    let mut i: usize = 0;
    while i < len
        invariant
            0 <= i <= len,
            len == c@.len(),
            forall|j: int| 0 <= j < i ==> (#[trigger] c@[j] matches Component::Block { state: BlockState::Clear { end_time, .. }, .. } ==> end_time >= 1),
        decreases len - i,
    {
        if let Component::Block { state: BlockState::Clear { end_time, .. }, .. } = c[i] {
            if end_time < 1 {
                return false;
            }
        }
        i = i + 1;
    }
    true
}

/// wether every saved chain of the components can count up
fn chains_fit_check(c: &Vec<Component>) -> (r: bool)
    ensures
        r == chains_fit(c@),
{
    let len = c.len();
    let mut i: usize = 0;
    while i < len
        invariant
            0 <= i <= len,
            len == c@.len(),
            forall|j: int| 0 <= j < i ==> (#[trigger] saved_chain_of(c@[j]) matches Some(s) ==> s < u32::MAX),
        decreases len - i,
    {
        if let Component::Block { block, .. } = c[i] {
            if let Some(s) = block.saved_chain {
                if s >= u32::MAX as usize {
                    assert(saved_chain_of(c@[i as int]) == Some(s));
                    return false;
                }
            }
        }
        i = i + 1;
    }
    true
}

/// wether the lowest row of each garbage of the grid and the row below it lie in the grid
fn garbages_placed_check(list: &Vec<Garbage>, id: usize) -> (r: bool)
    ensures
        r == garbages_placed(list@, id),
{
    let len = list.len();
    let mut k: usize = 0;
    while k < len
        invariant
            0 <= k <= len,
            len == list@.len(),
            forall|k2: int| 0 <= k2 < k && (#[trigger] list@[k2]).parent_id == id ==> garbage_placed(list@[k2]),
        decreases len - k,
    {
        let g = &list[k];
        if g.parent_id == id {
            if g.is_2d && g.count < GRID_WIDTH {
                assert(!garbage_placed(list@[k as int]));
                return false;
            }
            let n = g.children.len();
            let mut j: usize = 0;
            while j < n
                invariant
                    0 <= j <= n,
                    k < len,
                    len == list@.len(),
                    n == list@[k as int].children@.len(),
                    *g == list@[k as int],
                    g.parent_id == id,
                    forall|j2: int| 0 <= j2 < j ==> #[trigger] list@[k as int].children@[j2] < GRID_TOTAL - GRID_WIDTH,
                decreases n - j,
            {
                if g.children[j] >= GRID_TOTAL - GRID_WIDTH {
                    assert(list@[k as int].children@[j as int] >= GRID_TOTAL - GRID_WIDTH);
                    assert(!garbage_placed(list@[k as int]));
                    return false;
                }
                j = j + 1;
            }
        }
        k = k + 1;
    }
    true
}

/// wether each garbage of the grid has a computable lowest row and all its children in the grid
fn garbages_in_grid_check(list: &Vec<Garbage>, id: usize) -> (r: bool)
    ensures
        r == garbages_in_grid(list@, id),
{
    let len = list.len();
    let mut k: usize = 0;
    while k < len
        invariant
            0 <= k <= len,
            len == list@.len(),
            forall|k2: int| 0 <= k2 < k && (#[trigger] list@[k2]).parent_id == id ==> {
                &&& list@[k2].lowest_defined()
                &&& list@[k2].children@.len() <= GRID_TOTAL
                &&& forall|j: int| 0 <= j < list@[k2].children@.len() ==> #[trigger] list@[k2].children@[j] < GRID_TOTAL
            },
        decreases len - k,
    {
        let g = &list[k];
        if g.parent_id == id {
            let n = g.children.len();
            if (g.is_2d && g.count < GRID_WIDTH) || n > GRID_TOTAL {
                return false;
            }
            let mut j: usize = 0;
            while j < n
                invariant
                    0 <= j <= n,
                    k < len,
                    len == list@.len(),
                    n == list@[k as int].children@.len(),
                    *g == list@[k as int],
                    g.parent_id == id,
                    forall|j2: int| 0 <= j2 < j ==> #[trigger] list@[k as int].children@[j2] < GRID_TOTAL,
                decreases n - j,
            {
                if g.children[j] >= GRID_TOTAL {
                    assert(list@[k as int].children@[j as int] >= GRID_TOTAL);
                    return false;
                }
                j = j + 1;
            }
        }
        k = k + 1;
    }
    true
}

impl Grid {
    /// the animation frame of all blocks, then all resolves and detections of blocks and
    /// garbages in their order (see `frame_chain`); returns false, and stops, at the first step
    /// whose requirement on what the steps before left does not hold
    pub fn resolve_frame(&mut self, garbage_system: &mut GarbageSystem) -> (r: bool)
        ensures
            r ==> frame_resolved(*old(self), old(garbage_system).list@, *final(self), final(garbage_system).list@),
            !r ==> frame_blocked(*old(self), old(garbage_system).list@),
            other_garbages(final(garbage_system).list@, old(self).id) == other_garbages(old(garbage_system).list@, old(self).id),
    {
        if self.components.len() != GRID_TOTAL || self.rng.inc % 2 != 1 || !counters_room_check(&self.components) {
            return false;
        }
        let ghost g0 = *self;
        let ghost l0 = garbage_system.list@;
        self.update_components();
        let ghost g1 = *self;
        if !swaps_bounds_check(&self.components) {
            assert(animated_phase(g0, g1));
            return false;
        }
        self.block_resolve_swap();
        let ghost g2 = *self;
        self.block_resolve_land();
        let ghost g3 = *self;
        self.block_resolve_fall();
        let ghost g4 = *self;
        if !garbages_placed_check(&garbage_system.list, self.id) {
            return false;
        }
        self.garbage_resolve_fall(garbage_system);
        let ghost g5 = *self;
        let ghost l5 = garbage_system.list@;
        self.block_resolve_hang(garbage_system);
        let ghost g6 = *self;
        let ghost l6 = garbage_system.list@;
        self.garbage_resolve_hang(garbage_system);
        let ghost l7 = garbage_system.list@;
        self.block_detect_hang();
        let ghost g8 = *self;
        if !garbages_placed_check(&garbage_system.list, self.id) {
            assert(steps_to_falls(g0, g1, g2, g3, g4));
            assert(steps_to_hangs(g0, l0, g4, g5, l5, g6, l6, l7));
            proof {
                lemma_others_through_hangs(g0.id, g4, g5, l0, l5, g6, l6, l7);
            }
            return false;
        }
        self.garbage_detect_hang(garbage_system);
        let ghost l9 = garbage_system.list@;
        proof {
            lemma_others_through_hangs(g0.id, g4, g5, l0, l5, g6, l6, l7);
            lemma_others_through_hang_detect(g0.id, g8, l7, l9);
        }
        if !clear_ends_check(&self.components) || !chains_fit_check(&self.components) {
            assert(steps_to_falls(g0, g1, g2, g3, g4));
            assert(steps_to_hangs(g0, l0, g4, g5, l5, g6, l6, l7));
            assert(steps_to_hang_detect(g0, l0, g6, l7, g8, l9));
            return false;
        }
        self.block_resolve_clear();
        let ghost g10 = *self;
        self.garbage_resolve_clear(garbage_system);
        let ghost l11 = garbage_system.list@;
        proof {
            lemma_others_through_clears(g0.id, g10, l9, l11);
        }
        if !chains_fit_check(&self.components) {
            assert(steps_to_falls(g0, g1, g2, g3, g4));
            assert(steps_to_hangs(g0, l0, g4, g5, l5, g6, l6, l7));
            assert(steps_to_hang_detect(g0, l0, g6, l7, g8, l9));
            assert(steps_to_clears(g0, l0, g8, l9, g10, l11));
            return false;
        }
        self.block_detect_clear();
        let ghost g12 = *self;
        if !garbages_in_grid_check(&garbage_system.list, self.id) {
            assert(steps_to_falls(g0, g1, g2, g3, g4));
            assert(steps_to_hangs(g0, l0, g4, g5, l5, g6, l6, l7));
            assert(steps_to_hang_detect(g0, l0, g6, l7, g8, l9));
            assert(steps_to_clears(g0, l0, g8, l9, g10, l11));
            return false;
        }
        self.garbage_detect_clear(garbage_system);
        assert(frame_chain(g0, l0, g1, g2, g3, g4, g5, l5, g6, l6, l7, g8, l9, g10, l11, g12, *self, garbage_system.list@));
        proof {
            lemma_frame_keeps_other_garbages(g0, l0, *self, garbage_system.list@);
        }
        true
    }
}

/// the number of blocks among the first `n` components
pub open spec fn block_count(c: Seq<Component>, n: int) -> int
    decreases n,
{
    if n <= 0 {
        0
    } else {
        block_count(c, n - 1) + if c[n - 1] is Block { 1int } else { 0int }
    }
}

/// the first column from `x` on of row `row` that holds a block
pub open spec fn first_block_from(c: Seq<Component>, row: int, x: int) -> Option<int>
    decreases GRID_WIDTH - x,
{
    if x >= GRID_WIDTH {
        None
    } else if c[row * GRID_WIDTH + x] is Block {
        Some(x)
    } else {
        first_block_from(c, row, x + 1)
    }
}

/// the move state that carries the block at index `i` (in column `x`) over to the hole at
/// `start`, stopping one space short when the cursor is not right of it
pub open spec fn hole_move(start: usize, i: int, cursor_x: i32, x: int) -> CursorState {
    let goal = (if cursor_x <= x { i - 1 } else { i }) as usize;
    CursorState::MoveTransport {
        counter: 0,
        reached: false,
        swap_end: true,
        start: I2 { x: start.col_of() as i32, y: start.row_of() as i32 },
        goal: I2 { x: goal.col_of() as i32, y: goal.row_of() as i32 },
    }
}

/// no candidate found yet
pub open spec fn no_search() -> (Option<i32>, Seq<(usize, i32)>) {
    (None, Seq::empty())
}

/// the states the computer player queues in a frame: it takes down a peak that stands exactly
/// 5 rows over the lowest column top, then prepares a chain below a clearing garbage, or
/// works its way down to an idle garbage, filling a hole below it when there is one
pub open spec fn ai_states(c: Seq<Component>, list: Seq<Garbage>, id: usize, cursor_x: i32, s: Seq<CursorState>) -> Seq<CursorState> {
    let p = peaks(c, GRID_WIDTH as int);
    let s1 = if abs_int(p.0 - p.1) == 5 {
        let x = p.2;
        let after_peak = match peak_row(c, x, 0) {
            Some(y) => s.push(swap_move((y * GRID_WIDTH + x) as usize)),
            None => s,
        };
        let xm = if x >= 1 { x - 1 } else { 0 };
        after_peak + planned(v_search(c, 3, 0, 9, xm, xm + 1, no_search()), true)
    } else {
        s
    };
    match lowest_row(list, id, true) {
        Some(y) => match spawn_search(c, y + 1, 0) {
            Some((p1, p2)) => s1.push(carry_move(p1.0, p1.1)).push(carry_move(p2.0, p2.1)),
            None => s1,
        },
        None => match lowest_row(list, id, false) {
            Some(y) => {
                let s2 = s1 + planned(h_search(c, 3, 3, y + 1, y + 2, no_search()), false)
                    + planned(v_search(c, 3, y as int, y + 2, 0, GRID_WIDTH as int, no_search()), true);
                match first_hole(c, y + 1, 0) {
                    Some(start) => match first_block_from(c, y + 1, 1) {
                        Some(x) => s2.push(hole_move(start, (y + 1) * GRID_WIDTH + x, cursor_x, x)),
                        None => s2,
                    },
                    None => s2 + planned(h_search(c, 3, 3, 0, GRID_HEIGHT - 1, no_search()), false)
                        + planned(v_search(c, 4, 0, 8, 0, GRID_WIDTH as int, no_search()), true)
                        + planned(v_search(c, 3, 0, 9, 0, GRID_WIDTH as int, no_search()), true),
                }
            },
            None => s1,
        },
    }
}

/// what the computer player's frame asks: the lowest garbage rows can be computed, and the
/// searches below them stay inside the grid
pub open spec fn ai_ready(c: Seq<Component>, list: Seq<Garbage>, id: usize) -> bool {
    &&& rows_defined(list, id, true)
    &&& match lowest_row(list, id, true) {
        Some(y) => y + 1 < GRID_HEIGHT && forall|x: int| 0 <= x < GRID_WIDTH
            && (#[trigger] c[(y + 1) * GRID_WIDTH + x] matches Component::Block { state: BlockState::Spawned, .. }) ==> y + 3 < GRID_HEIGHT,
        None => rows_defined(list, id, false) && match lowest_row(list, id, false) {
            Some(y) => y + 2 <= GRID_HEIGHT && v_in_grid(c, 3, y as int, y + 2, 0, GRID_WIDTH as int),
            None => true,
        },
    }
}

/// `b` is the grid `a` after the computer player's frame on the garbage list `list`
pub open spec fn ai_phase(a: Grid, list: Seq<Garbage>, b: Grid) -> bool {
    &&& b.components@ == a.components@
    &&& b.cursor.states@ == ai_states(a.components@, list, a.id, a.cursor.position.x, a.cursor.states@)
    &&& cursor_same_but_states(a.cursor, b.cursor)
    &&& b.push_raise == (a.push_raise || block_count(a.components@, a.components@.len() as int) <= GRID_WIDTH * 4)
    &&& b.id == a.id
    &&& b.combo_highlight == a.combo_highlight
    &&& b.push_counter == a.push_counter
    &&& b.push_amount == a.push_amount
    &&& b.rng == a.rng
}

/// `b` is the grid `a` after a frame of its cursor on the input
pub open spec fn cursor_phase(a: Grid, input: &Input, b: Grid) -> bool {
    let ac = a.cursor;
    let bc = b.cursor;
    &&& bc.counter == if ac.counter < ANIMATION_TIME - 1 { ac.counter + 1 } else { 0 }
    &&& bc.goal_position == if ac.last_position != ac.position { pixel_position(ac.position) } else { ac.goal_position }
    &&& bc.goal_counter == if ac.last_position != ac.position { LERP_TIME - 1 } else if ac.goal_counter > 0 { ac.goal_counter - 1 } else { 0 }
    &&& bc.last_position == ac.position
    &&& bc.y_offset == ac.y_offset
    &&& bc.ai == ac.ai
    &&& ac.ai ==> ({
        let out = ai_outcome(ac.position, ac.start_delay, ac.end_delay, ac.states@, a.components@);
        &&& bc.position == out.position
        &&& bc.start_delay == out.start_delay
        &&& bc.end_delay == out.end_delay
        &&& bc.states@ == apply_queue(ac.states@, out.queue)
        &&& b.components@ == match out.swap_at {
            Some(p) => swapped(a.components@, p),
            None => a.components@,
        }
    })
    &&& !ac.ai ==> ({
        &&& bc.position == player_moved(input, ac.position)
        &&& b.components@ == player_components(input, player_moved(input, ac.position), a.components@)
        &&& bc.states@ == ac.states@
        &&& bc.start_delay == ac.start_delay
        &&& bc.end_delay == ac.end_delay
    })
    &&& b.id == a.id
    &&& b.combo_highlight == a.combo_highlight
    &&& b.push_counter == a.push_counter
    &&& b.push_amount == a.push_amount
    &&& b.push_raise == a.push_raise
    &&& b.rng == a.rng
}

/// the computer player of grid 1 thinks when its queue is empty and no end delay runs
pub open spec fn ai_thinks(g: Grid) -> bool {
    g.id == 1 && !(g.cursor.states@.len() > 0 || g.cursor.end_delay != 0)
}

/// the grid and the garbage list after the update of a frame: the cursor takes the input, the
/// computer player of the second grid plans when it has nothing left to do, and then the blocks
/// and garbages resolve the frame
pub open spec fn grid_updated(g0: Grid, input: &Input, l0: Seq<Garbage>, g: Grid, l: Seq<Garbage>) -> bool {
    exists|g1: Grid, g2: Grid| #![trigger cursor_phase(g0, input, g1), frame_resolved(g2, l0, g, l)]
        cursor_phase(g0, input, g1)
        && (if ai_thinks(g1) { ai_phase(g1, l0, g2) } else { g2 == g1 })
        && frame_resolved(g2, l0, g, l)
}

/// the update of a frame stops before its end: the grid lacks spaces, the cursor cannot take
/// its frame, the computer player cannot plan, or the steps of the frame stop
pub open spec fn update_blocked(g0: Grid, input: &Input, l0: Seq<Garbage>) -> bool {
    ||| !g0.wf()
    ||| !cursor_ready(g0.cursor, input, g0.components@)
    ||| exists|g1: Grid| #[trigger] cursor_phase(g0, input, g1) && ai_thinks(g1) && !ai_ready(g1.components@, l0, g1.id)
    ||| exists|g1: Grid, g2: Grid| #![trigger cursor_phase(g0, input, g1), frame_blocked(g2, l0)]
        cursor_phase(g0, input, g1)
        && (if ai_thinks(g1) { ai_phase(g1, l0, g2) } else { g2 == g1 })
        && frame_blocked(g2, l0)
}

/// wether `ai_ready` holds
fn ai_ready_check(c: &Vec<Component>, list: &Vec<Garbage>, id: usize) -> (r: bool)
    requires
        c@.len() == GRID_TOTAL,
    ensures
        r == ai_ready(c@, list@, id),
{
    if !rows_defined_check(list, id, true) {
        return false;
    }
    match crate::scripts::garbage_update::lowest_row_of(list, id, true) {
        Some(y) => {
            if y >= GRID_HEIGHT - 1 {
                return false;
            }
            let mut x: usize = 0;
            while x < GRID_WIDTH
                invariant
                    0 <= x <= GRID_WIDTH,
                    y + 1 < GRID_HEIGHT,
                    c@.len() == GRID_TOTAL,
                    rows_defined(list@, id, true),
                    lowest_row(list@, id, true) == Some(y),
                    y + 3 >= GRID_HEIGHT ==> forall|x2: int| 0 <= x2 < x ==>
                        !(#[trigger] c@[(y + 1) * GRID_WIDTH + x2] matches Component::Block { state: BlockState::Spawned, .. }),
                decreases GRID_WIDTH - x,
            {
                if let Component::Block { state: BlockState::Spawned, .. } = c[(y + 1) * GRID_WIDTH + x] {
                    if y + 3 >= GRID_HEIGHT {
                        return false;
                    }
                }
                x = x + 1;
            }
            true
        },
        None => {
            if !rows_defined_check(list, id, false) {
                return false;
            }
            match crate::scripts::garbage_update::lowest_row_of(list, id, false) {
                Some(y) => {
                    if y > GRID_HEIGHT - 2 {
                        return false;
                    }
                    v_in_grid_check(c, 3, y, y + 2, 0, GRID_WIDTH)
                },
                None => true,
            }
        },
    }
}

impl Grid {
    /// the computer player's frame, see `ai_states`: returns false, and does nothing, when
    /// `ai_ready` does not hold
    pub fn ai_step(&mut self, garbage_system: &mut GarbageSystem) -> (r: bool)
        requires
            old(self).wf(),
        ensures
            r == ai_ready(old(self).components@, old(garbage_system).list@, old(self).id),
            r ==> ai_phase(*old(self), old(garbage_system).list@, *final(self)),
            !r ==> *final(self) == *old(self),
            *final(garbage_system) == *old(garbage_system),
    {
        if !ai_ready_check(&self.components, &garbage_system.list, self.id) {
            return false;
        }
        let ghost c = self.components@;
        let ghost s0 = self.cursor.states@;
        let ghost g0 = *self;
        // if the block amount is lower than four rows of blocks, raise
        let mut amount: usize = 0;
        let mut i: usize = 0;
        while i < GRID_TOTAL
            invariant
                0 <= i <= GRID_TOTAL,
                *self == g0,
                self.wf(),
                amount as int == block_count(self.components@, i as int),
                amount <= i,
            decreases GRID_TOTAL - i,
        {
            if let Component::Block { .. } = self.components[i] {
                amount = amount + 1;
            }
            i = i + 1;
        }
        if amount <= GRID_WIDTH * 4 {
            self.push_raise = true;
        }
        let ghost g1 = *self;
        // if the top has big peaks, take them down by vertical solves
        proof {
            lemma_peaks_column(c, GRID_WIDTH as int);
        }
        if let Some(x) = self.detect_difference(5) {
            proof {
                lemma_peak_scan_in_grid(c, x as int, 0);
            }
            self.remove_peaks(x);
            let xm: usize = if x >= 1 { x - 1 } else { 0 };
            proof {
                lemma_v_in_grid(c, 3, 0, 9, xm as int, xm + 1);
            }
            self.solve_vertically(3, xm, xm + 1, 0, GRID_HEIGHT);
        }
        let ghost s1 = self.cursor.states@;
        assert(grid_same_but_states(g1, *self));
        match garbage_system.lowest_clear(self) {
            Some(y) => {
                // prefer preparing a chain
                self.solve_spawn_vertically(y + 1);
            },
            None => {
                match garbage_system.lowest_idle(self) {
                    Some(y) => {
                        self.solve_horizontally(3, y + 1, y + 2);
                        self.solve_vertically(3, 0, GRID_WIDTH, y, y + 5);
                        let ghost s2 = self.cursor.states@;
                        proof {
                            lemma_first_hole_in_row(c, y + 1, 0);
                        }
                        match self.nearest_hole(y + 1) {
                            Some(start_index) => {
                                let mut x: usize = 1;
                                let mut done = false;
                                while x < GRID_WIDTH && !done
                                    invariant
                                        1 <= x <= GRID_WIDTH,
                                        y + 2 <= GRID_HEIGHT,
                                        self.wf(),
                                        start_index < GRID_TOTAL,
                                        self.components@ == c,
                                        grid_same_but_states(g1, *self),
                                        !done ==> self.cursor.states@ == s2,
                                        !done ==> first_block_from(c, y + 1, 1) == first_block_from(c, y + 1, x as int),
                                        done ==> match first_block_from(c, y + 1, 1) {
                                            Some(bx) => self.cursor.states@ == s2.push(hole_move(start_index, (y + 1) * GRID_WIDTH + bx, g1.cursor.position.x, bx)),
                                            None => false,
                                        },
                                    decreases GRID_WIDTH - x, if done { 0int } else { 1int },
                                {
                                    let i = (y + 1) * GRID_WIDTH + x;
                                    if let Component::Block { .. } = self.components[i] {
                                        let goal: usize = if self.cursor.position.x <= x as i32 { i - 1 } else { i };
                                        let s = start_index.to_i2();
                                        let g = goal.to_i2();
                                        self.cursor.states.push_back(CursorState::MoveTransport { counter: 0, reached: false, swap_end: true, start: s, goal: g });
                                        done = true;
                                    } else {
                                        x = x + 1;
                                    }
                                }
                            },
                            None => {
                                // solve normally
                                proof {
                                    lemma_v_in_grid(c, 4, 0, 8, 0, 6);
                                    lemma_v_in_grid(c, 3, 0, 9, 0, 6);
                                }
                                self.solve_horizontally(3, 0, GRID_HEIGHT - 1);
                                self.solve_vertically(4, 0, GRID_WIDTH, 0, GRID_HEIGHT);
                                self.solve_vertically(3, 0, GRID_WIDTH, 0, GRID_HEIGHT);
                            },
                        }
                    },
                    None => {},
                }
            },
        }
        true
    }

    /// updates all components in the grid and the garbage system for a frame: the cursor (or
    /// the computer player's moves), the computer player's planning on grid 1, the animation
    /// frame, then all resolves and detections; returns false, and stops, at the first step
    /// whose requirements do not hold, where the game cannot go on. Either way the garbages of
    /// the other grids stay as they are, in their order.
    pub fn update(&mut self, input: &Input, garbage_system: &mut GarbageSystem) -> (r: bool)
        ensures
            r ==> grid_updated(*old(self), input, old(garbage_system).list@, *final(self), final(garbage_system).list@),
            !r ==> update_blocked(*old(self), input, old(garbage_system).list@),
            other_garbages(final(garbage_system).list@, old(self).id) == other_garbages(old(garbage_system).list@, old(self).id),
    {
        if self.components.len() != GRID_TOTAL || self.rng.inc % 2 != 1 {
            return false;
        }
        if !self.cursor.update_ready(input, &self.components) {
            return false;
        }
        self.cursor.update(input, &mut self.components);
        let ghost g1 = *self;
        assert(cursor_phase(*old(self), input, g1));
        if self.id == 1 && !(self.cursor.states.len() > 0 || self.cursor.end_delay != 0) {
            if !self.ai_step(garbage_system) {
                assert(cursor_phase(*old(self), input, g1));
                return false;
            }
        }
        let ghost g2 = *self;
        let ghost l0 = garbage_system.list@;
        let done = self.resolve_frame(garbage_system);
        if !done {
            assert(cursor_phase(*old(self), input, g1) && frame_blocked(g2, l0));
        }
        if done {
            assert(frame_resolved(g2, old(garbage_system).list@, *self, garbage_system.list@));
            assert(grid_updated(*old(self), input, old(garbage_system).list@, *self, garbage_system.list@));
        }
        done
    }
}

} // verus!
