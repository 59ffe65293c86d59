use vstd::prelude::*;
use crate::helpers::data::{GRID_WIDTH, GRID_HEIGHT, ATLAS_GARBAGE_1D};
use crate::scripts::combo_highlight::{ComboData, ComboVariant};
use crate::scripts::component::Component;
use crate::scripts::garbage::{Garbage, GarbageSystem, GarbageState, Child, default_child, frame_1d, frames_2d};
use crate::scripts::grid::{Grid, push_updated, push_counts_up, push_lifts, children_below_top, cursor_can_lift};
use crate::scripts::grid_update::{grid_updated, update_blocked, cursor_phase, ai_thinks, ai_phase, frame_resolved, lemma_frame_keeps_grid};
use crate::scripts::garbage_update::{garbage_updated, system_ready};
use crate::engine::input::Input;

verus! {

/// the garbage of a combo fits into a grid: a combo sends a line as wide as the combo, at
/// least three and at most a row wide; a chain sends as many full rows as it is long
pub open spec fn combo_fits(c: ComboData) -> bool {
    match c.variant {
        ComboVariant::Combo => 3 <= c.size <= GRID_WIDTH,
        ComboVariant::Chain => 1 <= c.size <= GRID_HEIGHT,
    }
}

/// every combo of the list that was not sent yet fits into a grid
pub open spec fn unsent_fit(list: Seq<ComboData>) -> bool {
    forall|k: int| 0 <= k < list.len() && !list[k].sent ==> combo_fits(#[trigger] list[k])
}

/// a garbage apart from where its children lie: its grid, its amount of children and its shape
pub open spec fn garbage_shape(g: Garbage) -> (usize, usize, bool) {
    (g.parent_id, g.count, g.is_2d)
}

/// the garbage a combo sends to the grid of the given id
pub open spec fn sent_shape(c: ComboData, id: usize) -> (usize, usize, bool) {
    match c.variant {
        ComboVariant::Combo => (id, c.size as usize, false),
        ComboVariant::Chain => (id, (c.size * GRID_WIDTH) as usize, c.size > 1),
    }
}

/// the garbages a combo sends: one to each of the other grids, in their order, or none once
/// it was sent
pub open spec fn combo_sends(c: ComboData, ids: Seq<usize>) -> Seq<(usize, usize, bool)> {
    if c.sent {
        Seq::empty()
    } else {
        ids.map_values(|id: usize| sent_shape(c, id))
    }
}

/// the garbages a list of combos sends, the combos taken in list order
pub open spec fn list_sends(list: Seq<ComboData>, ids: Seq<usize>) -> Seq<(usize, usize, bool)>
    decreases list.len(),
{
    if list.len() == 0 {
        Seq::empty()
    } else {
        list_sends(list.drop_last(), ids) + combo_sends(list.last(), ids)
    }
}

/// the combo list once every combo was sent
pub open spec fn all_sent(list: Seq<ComboData>) -> Seq<ComboData> {
    list.map_values(|c: ComboData| ComboData { sent: true, ..c })
}

/// combos that were all sent send nothing
proof fn lemma_all_sent_sends_nothing(list: Seq<ComboData>, ids: Seq<usize>)
    ensures
        list_sends(all_sent(list), ids) == Seq::<(usize, usize, bool)>::empty(),
    decreases list.len(),
{
    if list.len() > 0 {
        lemma_all_sent_sends_nothing(list.drop_last(), ids);
        assert(all_sent(list).drop_last() =~= all_sent(list.drop_last()));
        assert(list_sends(all_sent(list), ids) =~= Seq::<(usize, usize, bool)>::empty());
    } else {
        assert(all_sent(list) =~= Seq::<ComboData>::empty());
    }
}

/// a grid that took garbage keeps all but its components and the state of its random numbers
pub open spec fn grid_kept(before: Grid, after: Grid) -> bool {
    &&& after.wf()
    &&& after.id == before.id
    &&& after.combo_highlight == before.combo_highlight
    &&& after.push_counter == before.push_counter
    &&& after.push_amount == before.push_amount
    &&& after.push_raise == before.push_raise
    &&& after.cursor == before.cursor
    &&& after.rng.inc == before.rng.inc
}

/// a garbage as it is made: falling, with no child removed
pub open spec fn fresh_garbage(g: Garbage) -> bool {
    g.state == GarbageState::Fall && g.removed_children@.len() == 0
}

/// `after` is `before` followed by fresh garbages of the given shapes, in order
pub open spec fn appended(before: Seq<Garbage>, after: Seq<Garbage>, shapes: Seq<(usize, usize, bool)>) -> bool {
    &&& after.len() == before.len() + shapes.len()
    &&& after.subrange(0, before.len() as int) == before
    &&& forall|k: int| 0 <= k < shapes.len() ==> #[trigger] garbage_shape(after[before.len() + k]) == shapes[k]
    &&& forall|k: int| 0 <= k < shapes.len() ==> fresh_garbage(#[trigger] after[before.len() + k])
}

/// the components of a grid once the garbage `g` of a combo was placed into them: a combo's
/// line lies where the children of `g` start, a chain's rows at the top
pub open spec fn placed(comps: Seq<Component>, c: ComboData, g: Garbage) -> Seq<Component> {
    Seq::new(comps.len(), |i: int| match c.variant {
        ComboVariant::Combo => {
            let offset = g.children@[0] as int;
            if offset <= i < offset + c.size {
                Component::Child(Child { hframe: frame_1d((i - offset) as usize, c.size as usize), vframe: ATLAS_GARBAGE_1D, ..default_child() })
            } else {
                comps[i]
            }
        },
        ComboVariant::Chain => {
            if i < c.size * GRID_WIDTH {
                Component::Child(Child {
                    hframe: frames_2d((i % GRID_WIDTH as int) as usize, (i / GRID_WIDTH as int) as usize, c.size as usize).0,
                    vframe: frames_2d((i % GRID_WIDTH as int) as usize, (i / GRID_WIDTH as int) as usize, c.size as usize).1,
                    ..default_child()
                })
            } else {
                comps[i]
            }
        },
    })
}

/// the components of the grid at position `t` of the other grids once the garbages of a list
/// of combos were placed; the garbages sent lie in `sent` from `base` on, in order
pub open spec fn placed_upto(
    comps: Seq<Component>,
    list: Seq<ComboData>,
    sent: Seq<Garbage>,
    base: int,
    ids: Seq<usize>,
    t: int,
) -> Seq<Component>
    decreases list.len(),
{
    if list.len() == 0 {
        comps
    } else {
        let prev = placed_upto(comps, list.drop_last(), sent, base, ids, t);
        if list.last().sent {
            prev
        } else {
            placed(prev, list.last(), sent[base + list_sends(list.drop_last(), ids).len() + t])
        }
    }
}

/// `placed_upto` reads the garbages sent only up to the end of what the list sends
proof fn lemma_placed_upto_prefix(
    comps: Seq<Component>,
    list: Seq<ComboData>,
    s1: Seq<Garbage>,
    s2: Seq<Garbage>,
    base: int,
    ids: Seq<usize>,
    t: int,
)
    requires
        0 <= base,
        0 <= t < ids.len(),
        base + list_sends(list, ids).len() <= s1.len() <= s2.len(),
        s2.subrange(0, s1.len() as int) == s1,
    ensures
        placed_upto(comps, list, s1, base, ids, t) == placed_upto(comps, list, s2, base, ids, t),
    decreases list.len(),
{
    if list.len() > 0 {
        let prev = list.drop_last();
        assert(list_sends(list, ids) == list_sends(prev, ids) + combo_sends(list.last(), ids));
        lemma_placed_upto_prefix(comps, prev, s1, s2, base, ids, t);
        if !list.last().sent {
            let k = base + list_sends(prev, ids).len() + t;
            assert(k < s1.len());
            assert(s2[k] == s2.subrange(0, s1.len() as int)[k]);
        }
    }
}

/// the grids and the garbage list once grid `from` sent the garbage of its combos that were not
/// sent yet to each other grid, in their order, and marked these combos as sent
pub open spec fn combos_sent(g0: Seq<Grid>, l0: Seq<Garbage>, from: int, g: Seq<Grid>, l: Seq<Garbage>) -> bool {
    let src = g0[from];
    let list0 = src.combo_highlight.list@;
    let ids = g0.remove(from).map_values(|x: Grid| x.id);
    &&& g.len() == g0.len()
    &&& appended(l0, l, list_sends(list0, ids))
    &&& forall|t: int| 0 <= t < g0.len() && t != from ==> grid_kept(g0[t], #[trigger] g[t])
    &&& forall|t: int| 0 <= t < g0.len() && t != from ==> (#[trigger] g[t]).components@ == placed_upto(
        g0[t].components@,
        list0,
        l,
        l0.len() as int,
        ids,
        if t < from { t } else { t - 1 },
    )
    &&& g[from].combo_highlight.list@ == all_sent(list0)
    &&& g[from].combo_highlight.y_offset == src.combo_highlight.y_offset
    &&& g[from].components@ == src.components@
    &&& g[from].id == src.id
    &&& g[from].push_counter == src.push_counter
    &&& g[from].push_amount == src.push_amount
    &&& g[from].push_raise == src.push_raise
    &&& g[from].cursor == src.cursor
    &&& g[from].rng == src.rng
}

/// one grid's share of a frame: the grid at `i` takes its update, sends the garbage of its new
/// combos to the other grids, lets its garbages take their update and is pushed
#[verifier::opaque]
pub open spec fn grid_frame(g0: Seq<Grid>, l0: Seq<Garbage>, input: &Input, i: int, g: Seq<Grid>, l: Seq<Garbage>) -> bool {
    exists|a: Grid, la: Seq<Garbage>, gb: Seq<Grid>, lb: Seq<Garbage>, c: Grid, lc: Seq<Garbage>|
        #![trigger grid_updated(g0[i], input, l0, a, la), combos_sent(g0.update(i, a), la, i, gb, lb), garbage_updated(lb, gb[i], lc, c)]
        grid_updated(g0[i], input, l0, a, la)
        && combos_sent(g0.update(i, a), la, i, gb, lb)
        && garbage_updated(lb, gb[i], lc, c)
        && push_updated(c, lc, g[i], l)
        && g == gb.update(i, g[i])
}

/// the grids and the garbage list once the first `n` grids took their share of a frame, one
/// after the other
pub open spec fn grids_framed(g0: Seq<Grid>, l0: Seq<Garbage>, input: &Input, n: nat, g: Seq<Grid>, l: Seq<Garbage>) -> bool
    decreases n,
{
    if n == 0 {
        g == g0 && l == l0
    } else {
        exists|gm: Seq<Grid>, lm: Seq<Garbage>| #![trigger grid_frame(gm, lm, input, n - 1, g, l)]
            grids_framed(g0, l0, input, (n - 1) as nat, gm, lm) && grid_frame(gm, lm, input, n - 1, g, l)
    }
}

/// the push of a grid can take its frame
pub open spec fn push_ready(g: Grid, l: Seq<Garbage>) -> bool {
    &&& g.wf()
    &&& push_counts_up(g) ==> g.push_amount < i32::MAX
    &&& push_lifts(g) ==> children_below_top(l, g.id) && cursor_can_lift(g.cursor)
}

/// the share of grid `i` of a frame stops before its end: its update stops, a combo to send does
/// not fit into a grid, one of its garbages cannot take its update, or it cannot be pushed
#[verifier::opaque]
pub open spec fn grid_frame_blocked(g0: Seq<Grid>, l0: Seq<Garbage>, input: &Input, i: int) -> bool {
    ||| update_blocked(g0[i], input, l0)
    ||| exists|a: Grid, la: Seq<Garbage>| #[trigger] grid_updated(g0[i], input, l0, a, la)
        && g0.len() > 1 && !unsent_fit(a.combo_highlight.list@)
    ||| exists|a: Grid, la: Seq<Garbage>, gb: Seq<Grid>, lb: Seq<Garbage>|
        #![trigger grid_updated(g0[i], input, l0, a, la), combos_sent(g0.update(i, a), la, i, gb, lb)]
        grid_updated(g0[i], input, l0, a, la) && combos_sent(g0.update(i, a), la, i, gb, lb)
        && !system_ready(lb, gb[i].id, gb[i].components@, gb[i].rng, gb[i].push_amount, lb.len())
    ||| exists|a: Grid, la: Seq<Garbage>, gb: Seq<Grid>, lb: Seq<Garbage>, c: Grid, lc: Seq<Garbage>|
        #![trigger grid_updated(g0[i], input, l0, a, la), combos_sent(g0.update(i, a), la, i, gb, lb), garbage_updated(lb, gb[i], lc, c)]
        grid_updated(g0[i], input, l0, a, la) && combos_sent(g0.update(i, a), la, i, gb, lb)
        && garbage_updated(lb, gb[i], lc, c) && !push_ready(c, lc)
}

/// a frame of all grids stops before its end: after the shares of the grids before it, the
/// share of a grid stops
pub open spec fn frame_stopped(g0: Seq<Grid>, l0: Seq<Garbage>, input: &Input) -> bool {
    exists|i: int, gm: Seq<Grid>, lm: Seq<Garbage>| #![trigger grid_frame_blocked(gm, lm, input, i)]
        0 <= i < g0.len() && grids_framed(g0, l0, input, i as nat, gm, lm) && grid_frame_blocked(gm, lm, input, i)
}

/// the update of a grid stops its share of the frame
proof fn lemma_blocked_update(gm: Seq<Grid>, lm: Seq<Garbage>, input: &Input, i: int)
    requires
        update_blocked(gm[i], input, lm),
    ensures
        grid_frame_blocked(gm, lm, input, i),
{
    reveal(grid_frame_blocked);
}

/// a combo that does not fit stops the share of its grid
proof fn lemma_blocked_send(gm: Seq<Grid>, lm: Seq<Garbage>, input: &Input, i: int, a: Grid, la: Seq<Garbage>)
    requires
        grid_updated(gm[i], input, lm, a, la),
        gm.len() > 1,
        !unsent_fit(a.combo_highlight.list@),
    ensures
        grid_frame_blocked(gm, lm, input, i),
{
    reveal(grid_frame_blocked);
}

/// a garbage that cannot take its update stops the share of its grid
proof fn lemma_blocked_garbage(
    gm: Seq<Grid>,
    lm: Seq<Garbage>,
    input: &Input,
    i: int,
    a: Grid,
    la: Seq<Garbage>,
    gb: Seq<Grid>,
    lb: Seq<Garbage>,
)
    requires
        grid_updated(gm[i], input, lm, a, la),
        combos_sent(gm.update(i, a), la, i, gb, lb),
        !system_ready(lb, gb[i].id, gb[i].components@, gb[i].rng, gb[i].push_amount, lb.len()),
    ensures
        grid_frame_blocked(gm, lm, input, i),
{
    reveal(grid_frame_blocked);
}

/// a grid that cannot be pushed stops its share of the frame
proof fn lemma_blocked_push(
    gm: Seq<Grid>,
    lm: Seq<Garbage>,
    input: &Input,
    i: int,
    a: Grid,
    la: Seq<Garbage>,
    gb: Seq<Grid>,
    lb: Seq<Garbage>,
    c: Grid,
    lc: Seq<Garbage>,
)
    requires
        grid_updated(gm[i], input, lm, a, la),
        combos_sent(gm.update(i, a), la, i, gb, lb),
        garbage_updated(lb, gb[i], lc, c),
        !push_ready(c, lc),
    ensures
        grid_frame_blocked(gm, lm, input, i),
{
    reveal(grid_frame_blocked);
}

/// a grid that took its update keeps its spaces and its id
proof fn lemma_updated_keeps_grid(g0: Grid, input: &Input, l0: Seq<Garbage>, g: Grid, l: Seq<Garbage>)
    requires
        grid_updated(g0, input, l0, g, l),
    ensures
        g.wf(),
{
    let (g1, g2) = choose|g1: Grid, g2: Grid| #![trigger cursor_phase(g0, input, g1), frame_resolved(g2, l0, g, l)]
        cursor_phase(g0, input, g1)
        && (if ai_thinks(g1) { ai_phase(g1, l0, g2) } else { g2 == g1 })
        && frame_resolved(g2, l0, g, l);
    lemma_frame_keeps_grid(g2, l0, g, l);
}

/// the parts of a grid's share of a frame make up that share
proof fn lemma_grid_frame(
    gm: Seq<Grid>,
    lm: Seq<Garbage>,
    input: &Input,
    i: int,
    a: Grid,
    la: Seq<Garbage>,
    gb: Seq<Grid>,
    lb: Seq<Garbage>,
    c: Grid,
    lc: Seq<Garbage>,
    g: Seq<Grid>,
    l: Seq<Garbage>,
)
    requires
        grid_updated(gm[i], input, lm, a, la),
        combos_sent(gm.update(i, a), la, i, gb, lb),
        garbage_updated(lb, gb[i], lc, c),
        push_updated(c, lc, g[i], l),
        g == gb.update(i, g[i]),
    ensures
        grid_frame(gm, lm, input, i, g, l),
{
    reveal(grid_frame);
}

/// a grid's share of a frame after the shares of the grids before it
proof fn lemma_frame_step(g0: Seq<Grid>, l0: Seq<Garbage>, input: &Input, i: int, gm: Seq<Grid>, lm: Seq<Garbage>, g: Seq<Grid>, l: Seq<Garbage>)
    requires
        0 <= i,
        grids_framed(g0, l0, input, i as nat, gm, lm),
        grid_frame(gm, lm, input, i, g, l),
    ensures
        grids_framed(g0, l0, input, (i + 1) as nat, g, l),
{
    let n1 = (i + 1) as nat;
    assert((n1 - 1) as nat == i as nat);
    assert(grid_frame(gm, lm, input, n1 - 1, g, l));
}

/// after a grid's share of a frame every grid still has all its spaces
proof fn lemma_frame_wf(gm: Seq<Grid>, i: int, a: Grid, la: Seq<Garbage>, gb: Seq<Grid>, lb: Seq<Garbage>, g: Seq<Grid>, l: Seq<Garbage>, c: Grid, lc: Seq<Garbage>)
    requires
        0 <= i < gm.len(),
        forall|t: int| 0 <= t < gm.len() ==> (#[trigger] gm[t]).wf(),
        combos_sent(gm.update(i, a), la, i, gb, lb),
        push_updated(c, lc, g[i], l),
        g == gb.update(i, g[i]),
    ensures
        g.len() == gm.len(),
        forall|t: int| 0 <= t < g.len() ==> (#[trigger] g[t]).wf(),
{
    assert forall|t: int| 0 <= t < g.len() implies (#[trigger] g[t]).wf() by {
        if t != i {
            assert(grid_kept(gm.update(i, a)[t], gb[t]));
        }
    }
}

/// a combo sends its garbage once: right after grid `from` sent its combos, sending them again
/// adds no garbage
pub proof fn lemma_combos_sent_once(
    g0: Seq<Grid>,
    l0: Seq<Garbage>,
    from: int,
    g1: Seq<Grid>,
    l1: Seq<Garbage>,
    g2: Seq<Grid>,
    l2: Seq<Garbage>,
)
    requires
        0 <= from < g0.len(),
        combos_sent(g0, l0, from, g1, l1),
        combos_sent(g1, l1, from, g2, l2),
    ensures
        l2 == l1,
{
    lemma_all_sent_sends_nothing(g0[from].combo_highlight.list@, g1.remove(from).map_values(|x: Grid| x.id));
    assert(l2.subrange(0, l1.len() as int) == l1);
    assert(l2 =~= l2.subrange(0, l1.len() as int));
}

/// every combo a grid has once its share of a frame is done is sent, and stays so for the rest
/// of the frame: after a frame of all grids no combo of any grid waits to be sent
pub proof fn lemma_frame_sends_all(g0: Seq<Grid>, l0: Seq<Garbage>, input: &Input, n: nat, g: Seq<Grid>, l: Seq<Garbage>)
    requires
        n <= g0.len(),
        grids_framed(g0, l0, input, n, g, l),
    ensures
        g.len() == g0.len(),
        forall|t: int, k: int| 0 <= t < n && 0 <= k < g[t].combo_highlight.list@.len() ==> (#[trigger] g[t].combo_highlight.list@[k]).sent,
    decreases n,
{
    if n > 0 {
        let i = n - 1;
        let (gm, lm) = choose|gm: Seq<Grid>, lm: Seq<Garbage>| #![trigger grid_frame(gm, lm, input, n - 1, g, l)]
            grids_framed(g0, l0, input, (n - 1) as nat, gm, lm) && grid_frame(gm, lm, input, n - 1, g, l);
        lemma_frame_sends_all(g0, l0, input, (n - 1) as nat, gm, lm);
        reveal(grid_frame);
        let (a, la, gb, lb, c, lc) = choose|a: Grid, la: Seq<Garbage>, gb: Seq<Grid>, lb: Seq<Garbage>, c: Grid, lc: Seq<Garbage>|
            #![trigger grid_updated(gm[i], input, lm, a, la), combos_sent(gm.update(i, a), la, i, gb, lb), garbage_updated(lb, gb[i], lc, c)]
            grid_updated(gm[i], input, lm, a, la)
            && combos_sent(gm.update(i, a), la, i, gb, lb)
            && garbage_updated(lb, gb[i], lc, c)
            && push_updated(c, lc, g[i], l)
            && g == gb.update(i, g[i]);
        assert forall|t: int, k: int| 0 <= t < n && 0 <= k < g[t].combo_highlight.list@.len() implies (#[trigger] g[t].combo_highlight.list@[k]).sent by {
            if t < i {
                assert(grid_kept(gm.update(i, a)[t], gb[t]));
                assert(g[t] == gb[t]);
                assert(gm[t].combo_highlight.list@[k].sent);
            } else {
                assert(g[t].combo_highlight.list@ == c.combo_highlight.list@);
                assert(c.combo_highlight == gb[i].combo_highlight);
                assert(gb[i].combo_highlight.list@ == all_sent(a.combo_highlight.list@));
            }
        }
    }
}

/// wether every combo of the list that was not sent yet fits into a grid
fn unsent_fit_check(list: &std::collections::VecDeque<ComboData>) -> (r: bool)
    ensures
        r == unsent_fit(list@),
{
    let len = list.len();
    let mut k: usize = 0;
    while k < len
        invariant
            0 <= k <= len,
            len == list@.len(),
            forall|j: int| 0 <= j < k && !list@[j].sent ==> combo_fits(#[trigger] list@[j]),
        decreases len - k,
    {
        let c = list[k];
        if !c.sent {
            let fits = match c.variant {
                ComboVariant::Combo => 3 <= c.size && c.size as usize <= GRID_WIDTH,
                ComboVariant::Chain => 1 <= c.size && c.size as usize <= GRID_HEIGHT,
            };
            if !fits {
                assert(!combo_fits(list@[k as int]));
                return false;
            }
        }
        k = k + 1;
    }
    true
}

/// sends the garbage of one combo to each grid of the list, in list order
fn send_to_all(grids: &mut Vec<Grid>, garbage_system: &mut GarbageSystem, c: ComboData)
    requires
        combo_fits(c),
        forall|t: int| 0 <= t < old(grids)@.len() ==> (#[trigger] old(grids)@[t]).wf(),
    ensures
        final(grids)@.len() == old(grids)@.len(),
        forall|t: int| 0 <= t < old(grids)@.len() ==> grid_kept(old(grids)@[t], #[trigger] final(grids)@[t]),
        forall|t: int| 0 <= t < old(grids)@.len() ==> (#[trigger] final(grids)@[t]).components@ == placed(
            old(grids)@[t].components@,
            c,
            final(garbage_system).list@[old(garbage_system).list@.len() + t],
        ),
        appended(
            old(garbage_system).list@,
            final(garbage_system).list@,
            old(grids)@.map_values(|g: Grid| g.id).map_values(|id: usize| sent_shape(c, id)),
        ),
{
    let ghost g0 = grids@;
    let ghost l0 = garbage_system.list@;
    let ghost ids = g0.map_values(|g: Grid| g.id);
    let m = grids.len();
    let mut j: usize = 0;
    assert(l0.subrange(0, l0.len() as int) =~= l0);
    assert(ids.take(0).map_values(|id: usize| sent_shape(c, id)) =~= Seq::<(usize, usize, bool)>::empty());
    while j < m
        invariant
            0 <= j <= m,
            m == g0.len(),
            g0 == old(grids)@,
            l0 == old(garbage_system).list@,
            ids == g0.map_values(|g: Grid| g.id),
            combo_fits(c),
            grids@.len() == m,
            forall|t: int| 0 <= t < j ==> grid_kept(g0[t], #[trigger] grids@[t]),
            forall|t: int| 0 <= t < j ==> (#[trigger] grids@[t]).components@ == placed(g0[t].components@, c, garbage_system.list@[l0.len() + t]),
            forall|t: int| j <= t < m ==> #[trigger] grids@[t] == g0[t],
            forall|t: int| 0 <= t < m ==> (#[trigger] g0[t]).wf(),
            appended(l0, garbage_system.list@, ids.take(j as int).map_values(|id: usize| sent_shape(c, id))),
        decreases m - j,
    {
        let ghost before = garbage_system.list@;
        let mut g = grids.remove(j);
        assert(g == g0[j as int]);
        match c.variant {
            ComboVariant::Combo => g.gen_1d_garbage(garbage_system, c.size as usize),
            ComboVariant::Chain => g.gen_2d_garbage(garbage_system, c.size as usize),
        }
        proof {
            let gl = garbage_system.list@.last();
            assert(garbage_system.list@[l0.len() + j] == gl);
            assert(g.components@ =~= placed(g0[j as int].components@, c, gl));
        }
        grids.insert(j, g);
        proof {
            assert forall|t: int| 0 <= t < j implies (#[trigger] grids@[t]).components@ == placed(g0[t].components@, c, garbage_system.list@[l0.len() + t]) by {
                assert(garbage_system.list@[l0.len() + t] == before[l0.len() + t]);
            }
            let shapes = ids.take(j as int).map_values(|id: usize| sent_shape(c, id));
            let next = ids.take(j + 1).map_values(|id: usize| sent_shape(c, id));
            assert(next =~= shapes.push(sent_shape(c, g0[j as int].id)));
            assert(garbage_system.list@.drop_last() == before);
            assert(garbage_system.list@.subrange(0, l0.len() as int) =~= before.subrange(0, l0.len() as int));
            assert forall|k: int| 0 <= k < next.len() implies #[trigger] garbage_shape(garbage_system.list@[l0.len() + k]) == next[k] by {
                if k < shapes.len() {
                    assert(garbage_system.list@[l0.len() + k] == before[l0.len() + k]);
                }
            }
            assert forall|k: int| 0 <= k < next.len() implies fresh_garbage(#[trigger] garbage_system.list@[l0.len() + k]) by {
                if k < shapes.len() {
                    assert(garbage_system.list@[l0.len() + k] == before[l0.len() + k]);
                }
            }
            assert forall|t: int| j + 1 <= t < m implies #[trigger] grids@[t] == g0[t] by {}
        }
        j = j + 1;
    }
    assert(ids.take(m as int) =~= ids);
}

impl Grid {
    /// sends the garbage of every combo of grid `from` that was not sent yet to each other
    /// grid, in their order, and marks these combos as sent; a combo sends a line as wide as it
    /// is, a chain as many rows as it is long. Returns false, and changes nothing, where a
    /// combo to send does not fit into a grid.
    pub fn send_combos(grids: &mut Vec<Grid>, garbage_system: &mut GarbageSystem, from: usize) -> (r: bool)
        requires
            from < old(grids)@.len(),
            forall|t: int| 0 <= t < old(grids)@.len() ==> (#[trigger] old(grids)@[t]).wf(),
        ensures
            r == (old(grids)@.len() <= 1 || unsent_fit(old(grids)@[from as int].combo_highlight.list@)),
            !r ==> final(grids)@ == old(grids)@ && final(garbage_system).list@ == old(garbage_system).list@,
            r ==> combos_sent(old(grids)@, old(garbage_system).list@, from as int, final(grids)@, final(garbage_system).list@),
    {
        if grids.len() > 1 && !unsent_fit_check(&grids[from].combo_highlight.list) {
            return false;
        }
        let ghost g0 = grids@;
        let ghost l0 = garbage_system.list@;
        let ghost list0 = g0[from as int].combo_highlight.list@;
        let ghost ids = g0.remove(from as int).map_values(|g: Grid| g.id);
        let mut source = grids.remove(from);
        let ghost others = grids@;
        assert(others == g0.remove(from as int));
        let n = source.combo_highlight.list.len();
        let mut ci: usize = 0;
        assert(l0.subrange(0, l0.len() as int) =~= l0);
        assert(list0.take(0) =~= Seq::<ComboData>::empty());
        assert(list_sends(list0.take(0), ids) =~= Seq::<(usize, usize, bool)>::empty());
        while ci < n
            invariant
                0 <= ci <= n,
                n == list0.len(),
                from < g0.len(),
                g0 == old(grids)@,
                l0 == old(garbage_system).list@,
                others == g0.remove(from as int),
                ids == others.map_values(|g: Grid| g.id),
                list0 == g0[from as int].combo_highlight.list@,
                g0.len() <= 1 || unsent_fit(list0),
                forall|t: int| 0 <= t < others.len() ==> (#[trigger] others[t]).wf(),
                grids@.len() == others.len(),
                forall|t: int| 0 <= t < others.len() ==> grid_kept(others[t], #[trigger] grids@[t]),
                forall|t: int| 0 <= t < others.len() ==> (#[trigger] grids@[t]).components@ == placed_upto(
                    others[t].components@,
                    list0.take(ci as int),
                    garbage_system.list@,
                    l0.len() as int,
                    ids,
                    t,
                ),
                ci == 0 ==> grids@ == others && garbage_system.list@ == l0,
                appended(l0, garbage_system.list@, list_sends(list0.take(ci as int), ids)),
                source.combo_highlight.list@.len() == n,
                forall|k: int| 0 <= k < ci ==> #[trigger] source.combo_highlight.list@[k] == (ComboData { sent: true, ..list0[k] }),
                forall|k: int| ci <= k < n ==> #[trigger] source.combo_highlight.list@[k] == list0[k],
                source.combo_highlight.y_offset == g0[from as int].combo_highlight.y_offset,
                source.components@ == g0[from as int].components@,
                source.id == g0[from as int].id,
                source.push_counter == g0[from as int].push_counter,
                source.push_amount == g0[from as int].push_amount,
                source.push_raise == g0[from as int].push_raise,
                source.cursor == g0[from as int].cursor,
                source.rng == g0[from as int].rng,
            decreases n - ci,
        {
            let c = source.combo_highlight.list[ci];
            assert(c == list0[ci as int]);
            let ghost before = garbage_system.list@;
            let ghost gs_before = grids@;
            if !c.sent {
                if grids.len() > 0 {
                    assert(combo_fits(list0[ci as int]));
                    send_to_all(grids, garbage_system, c);
                }
                let old_c = source.combo_highlight.list.remove(ci).unwrap();
                source.combo_highlight.list.insert(ci, ComboData { sent: true, ..old_c });
            }
            proof {
                let prev = list_sends(list0.take(ci as int), ids);
                let next = list_sends(list0.take(ci + 1), ids);
                assert(list0.take(ci + 1).drop_last() =~= list0.take(ci as int));
                assert(list0.take(ci + 1).last() == c);
                assert(next == prev + combo_sends(c, ids));
                if !c.sent {
                    if gs_before.len() > 0 {
                        assert(gs_before.map_values(|g: Grid| g.id) =~= ids);
                        assert(combo_sends(c, ids) == ids.map_values(|id: usize| sent_shape(c, id)));
                        let shapes = combo_sends(c, ids);
                        assert forall|k: int| 0 <= k < next.len() implies #[trigger] garbage_shape(garbage_system.list@[l0.len() + k]) == next[k] by {
                            if k < prev.len() {
                                assert(garbage_system.list@[l0.len() + k] == garbage_system.list@.subrange(0, before.len() as int)[l0.len() + k]);
                            } else {
                                assert(garbage_system.list@[before.len() + (k - prev.len())] == garbage_system.list@[l0.len() + k]);
                            }
                        }
                        assert forall|k: int| 0 <= k < next.len() implies fresh_garbage(#[trigger] garbage_system.list@[l0.len() + k]) by {
                            if k < prev.len() {
                                assert(garbage_system.list@[l0.len() + k] == garbage_system.list@.subrange(0, before.len() as int)[l0.len() + k]);
                            } else {
                                assert(garbage_system.list@[before.len() + (k - prev.len())] == garbage_system.list@[l0.len() + k]);
                            }
                        }
                        assert(garbage_system.list@.subrange(0, l0.len() as int) =~= garbage_system.list@.subrange(0, before.len() as int).subrange(0, l0.len() as int));
                        assert forall|t: int| 0 <= t < others.len() implies grid_kept(others[t], #[trigger] grids@[t]) by {
                            assert(grid_kept(gs_before[t], grids@[t]));
                        }
                        assert forall|t: int| 0 <= t < others.len() implies (#[trigger] grids@[t]).components@ == placed_upto(
                            others[t].components@,
                            list0.take(ci + 1),
                            garbage_system.list@,
                            l0.len() as int,
                            ids,
                            t,
                        ) by {
                            assert(ids.len() == others.len());
                            lemma_placed_upto_prefix(others[t].components@, list0.take(ci as int), before, garbage_system.list@, l0.len() as int, ids, t);
                            assert(gs_before[t].components@ == placed_upto(others[t].components@, list0.take(ci as int), before, l0.len() as int, ids, t));
                        }
                    } else {
                        assert(ids.len() == 0);
                        assert(combo_sends(c, ids) =~= Seq::<(usize, usize, bool)>::empty());
                        assert(next =~= prev);
                    }
                } else {
                    assert(next =~= prev);
                }
            }
            ci = ci + 1;
        }
        proof {
            assert(list0.take(n as int) =~= list0);
            assert(others.len() == ids.len());
            assert(source.combo_highlight.list@ =~= all_sent(list0));
        }
        let ghost gl = grids@;
        grids.insert(from, source);
        proof {
            assert forall|t: int| 0 <= t < g0.len() && t != from implies grid_kept(g0[t], #[trigger] grids@[t]) by {
                if t < from {
                    assert(grids@[t] == gl[t]);
                    assert(others[t] == g0[t]);
                    assert(grid_kept(others[t], gl[t]));
                } else {
                    assert(others[t - 1] == g0[t]);
                    assert(grids@[t] == gl[t - 1]);
                    assert(grid_kept(others[t - 1], gl[t - 1]));
                }
            }
            assert forall|t: int| 0 <= t < g0.len() && t != from implies (#[trigger] grids@[t]).components@ == placed_upto(
                g0[t].components@,
                list0,
                garbage_system.list@,
                l0.len() as int,
                ids,
                if t < from { t } else { t - 1 },
            ) by {
                if t < from {
                    assert(grids@[t] == gl[t]);
                    assert(others[t] == g0[t]);
                } else {
                    assert(others[t - 1] == g0[t]);
                    assert(grids@[t] == gl[t - 1]);
                }
            }
        }
        true
    }

    /// the update of all grids for a frame, one grid after the other: each grid takes its
    /// update, sends the garbage of its new combos to the other grids, lets its garbages take
    /// their update and is pushed. Returns false, with the grids taken so far, where a grid
    /// cannot take its part of the frame.
    pub fn update_all(grids: &mut Vec<Grid>, input: &Input, garbage_system: &mut GarbageSystem) -> (r: bool)
        requires
            forall|t: int| 0 <= t < old(grids)@.len() ==> (#[trigger] old(grids)@[t]).wf(),
        ensures
            r ==> grids_framed(old(grids)@, old(garbage_system).list@, input, old(grids)@.len() as nat, final(grids)@, final(garbage_system).list@),
            !r ==> frame_stopped(old(grids)@, old(garbage_system).list@, input),
            final(grids)@.len() == old(grids)@.len(),
    {
        let ghost g0 = grids@;
        let ghost l0 = garbage_system.list@;
        let len = grids.len();
        let mut i: usize = 0;
        while i < len
            invariant
                0 <= i <= len,
                len == g0.len(),
                g0 == old(grids)@,
                l0 == old(garbage_system).list@,
                grids@.len() == len,
                forall|t: int| 0 <= t < len ==> (#[trigger] grids@[t]).wf(),
                grids_framed(g0, l0, input, i as nat, grids@, garbage_system.list@),
            decreases len - i,
        {
            let ghost gm = grids@;
            let ghost lm = garbage_system.list@;
            let mut g = grids.remove(i);
            assert(g == gm[i as int]);
            if !g.update(input, garbage_system) {
                proof { lemma_blocked_update(gm, lm, input, i as int); }
                grids.insert(i, g);
                return false;
            }
            let ghost a = g;
            let ghost la = garbage_system.list@;
            proof { lemma_updated_keeps_grid(gm[i as int], input, lm, a, la); }
            grids.insert(i, g);
            assert(grids@ =~= gm.update(i as int, a));
            if !Grid::send_combos(grids, garbage_system, i) {
                proof { lemma_blocked_send(gm, lm, input, i as int, a, la); }
                return false;
            }
            let ghost gb = grids@;
            let ghost lb = garbage_system.list@;
            let mut g = grids.remove(i);
            assert(g == gb[i as int]);
            if !garbage_system.update_checked(&mut g) {
                proof { lemma_blocked_garbage(gm, lm, input, i as int, a, la, gb, lb); }
                grids.insert(i, g);
                return false;
            }
            let ghost c = g;
            let ghost lc = garbage_system.list@;
            if !g.push_update_ready(garbage_system) {
                proof { lemma_blocked_push(gm, lm, input, i as int, a, la, gb, lb, c, lc); }
                grids.insert(i, g);
                return false;
            }
            g.push_update(garbage_system);
            grids.insert(i, g);
            proof {
                assert(grids@ =~= gb.update(i as int, grids@[i as int]));
                lemma_grid_frame(gm, lm, input, i as int, a, la, gb, lb, c, lc, grids@, garbage_system.list@);
                lemma_frame_step(g0, l0, input, i as int, gm, lm, grids@, garbage_system.list@);
                lemma_frame_wf(gm, i as int, a, la, gb, lb, grids@, garbage_system.list@, c, lc);
            }
            i = i + 1;
        }
        true
    }
}

} // verus!
