//! Laws of the manage sequence: what running it twice in a row asks of the
//! compositor.
use crate::config::{lemma_last_index_bounds, lemma_last_index_same_ids, lemma_last_index_unique, spec_last_index_with};
use crate::geometry::{Rect, WindowState};
use crate::output::{Output, OutputId};
use crate::tree::LayoutTree;
use crate::tree_laws::law_arrange_idempotent;
use crate::pointer::spec_op_transition;
use crate::scene::Effect;
use crate::seat::{Seat, SeatId};
use crate::sequences::{
    lemma_floated_keys, spec_float_target, spec_floated_seat, spec_floated_trees, spec_synced_tree, spec_synced_trees,
    spec_synced_windows, spec_with_layout_rects,
};
use crate::window::Window;
use crate::wm::{WMState, output_key, seat_key, spec_distinct, tree_key, window_key};
use vstd::prelude::*;

verus! {

/// The rect of the last entry of `es` for window `id`.
pub open spec fn spec_last_rect(es: Seq<(u32, Rect, WindowState)>, id: u32) -> Option<Rect>
    decreases es.len(),
{
    if es.len() == 0 {
        None
    } else if es.last().0 == id {
        Some(es.last().1)
    } else {
        spec_last_rect(es.drop_last(), id)
    }
}

/// Window `w` after the entries `es` are recorded.
pub open spec fn spec_recorded(w: Window, es: Seq<(u32, Rect, WindowState)>) -> Window {
    match spec_last_rect(es, w.id.0) {
        Some(r) => Window { layout_rect: Some(r), ..w },
        None => w,
    }
}

/// With distinct window identifiers, recording entries sets each window's
/// layout rect to the last entry for it, and touches nothing else.
pub proof fn lemma_layout_rects_pointwise(ws: Seq<Window>, es: Seq<(u32, Rect, WindowState)>)
    requires
        spec_distinct(ws, window_key()),
    ensures
        spec_with_layout_rects(ws, es).len() == ws.len(),
        forall|i: int| 0 <= i < ws.len() ==> #[trigger] spec_with_layout_rects(ws, es)[i] == spec_recorded(ws[i], es),
    decreases es.len(),
{
    if es.len() == 0 {
        assert forall|i: int| 0 <= i < ws.len() implies #[trigger] spec_with_layout_rects(ws, es)[i] == spec_recorded(ws[i], es) by {}
    } else {
        let prev = es.drop_last();
        lemma_layout_rects_pointwise(ws, prev);
        let wp = spec_with_layout_rects(ws, prev);
        let (k, rect, st) = es.last();
        assert(wp.map_values(window_key()) =~= ws.map_values(window_key())) by {
            assert forall|i: int| 0 <= i < ws.len() implies #[trigger] wp.map_values(window_key())[i] == ws.map_values(window_key())[i] by {
                assert(wp[i] == spec_recorded(ws[i], prev));
            }
        }
        lemma_last_index_same_ids(wp, ws, k, window_key());
        lemma_last_index_bounds(ws, k, window_key());
        crate::config::lemma_last_index_none(ws, k, window_key());
        match spec_last_index_with(ws, k, window_key()) {
            Some(j) => {
                assert forall|i: int| 0 <= i < ws.len() implies #[trigger] spec_with_layout_rects(ws, es)[i] == spec_recorded(ws[i], es) by {
                    assert(wp[i] == spec_recorded(ws[i], prev));
                    if i == j {
                        assert(ws[j].id.0 == k);
                    } else {
                        assert(ws[i].id.0 != ws[j].id.0) by {
                            if i < j {
                                assert(window_key()(ws[i]) != window_key()(ws[j]));
                            } else {
                                assert(window_key()(ws[j]) != window_key()(ws[i]));
                            }
                        }
                    }
                }
            },
            None => {
                assert forall|i: int| 0 <= i < ws.len() implies #[trigger] spec_with_layout_rects(ws, es)[i] == spec_recorded(ws[i], es) by {
                    assert(wp[i] == spec_recorded(ws[i], prev));
                    assert(window_key()(ws[i]) != k);
                }
            },
        }
    }
}

/// Recording the same entries twice is recording them once.
pub proof fn lemma_layout_rects_idempotent(ws: Seq<Window>, es: Seq<(u32, Rect, WindowState)>)
    requires
        spec_distinct(ws, window_key()),
    ensures
        spec_with_layout_rects(spec_with_layout_rects(ws, es), es) == spec_with_layout_rects(ws, es),
{
    lemma_layout_rects_pointwise(ws, es);
    let w1 = spec_with_layout_rects(ws, es);
    assert(spec_distinct(w1, window_key())) by {
        assert forall|a: int, b: int| 0 <= a < b < w1.len() implies window_key()(#[trigger] w1[a]) != window_key()(#[trigger] w1[b]) by {
            assert(w1[a] == spec_recorded(ws[a], es));
            assert(w1[b] == spec_recorded(ws[b], es));
            assert(window_key()(ws[a]) != window_key()(ws[b]));
        }
    }
    lemma_layout_rects_pointwise(w1, es);
    assert(spec_with_layout_rects(w1, es) =~= w1) by {
        assert forall|i: int| 0 <= i < w1.len() implies #[trigger] spec_with_layout_rects(w1, es)[i] == w1[i] by {
            assert(w1[i] == spec_recorded(ws[i], es));
        }
    }
}

/// Recording `a` then `b` is recording `a` followed by `b`.
pub proof fn lemma_layout_rects_concat(
    ws: Seq<Window>,
    a: Seq<(u32, Rect, WindowState)>,
    b: Seq<(u32, Rect, WindowState)>,
)
    ensures
        spec_with_layout_rects(spec_with_layout_rects(ws, a), b) == spec_with_layout_rects(ws, a + b),
    decreases b.len(),
{
    if b.len() == 0 {
        assert(a + b =~= a);
    } else {
        lemma_layout_rects_concat(ws, a, b.drop_last());
        assert((a + b).drop_last() =~= a + b.drop_last());
        assert((a + b).last() == b.last());
    }
}

/// The arranged entries of the trees of known outputs (among `outs`), tree
/// by tree.
pub open spec fn spec_synced_entries(outs: Seq<Output>, synced: Seq<(OutputId, LayoutTree)>) -> Seq<
    (u32, Rect, WindowState),
>
    decreases synced.len(),
{
    if synced.len() == 0 {
        Seq::empty()
    } else {
        spec_synced_entries(outs, synced.drop_last()) + if spec_last_index_with(
            outs,
            synced.last().0.0,
            output_key(),
        ) is Some {
            synced.last().1.entries()
        } else {
            Seq::empty()
        }
    }
}

/// Recording the synced trees tree by tree is recording all their entries
/// at once.
pub proof fn lemma_synced_windows_flat(ws: Seq<Window>, outs: Seq<Output>, synced: Seq<(OutputId, LayoutTree)>)
    ensures
        spec_synced_windows(ws, outs, synced) == spec_with_layout_rects(ws, spec_synced_entries(outs, synced)),
    decreases synced.len(),
{
    if synced.len() == 0 {
    } else {
        lemma_synced_windows_flat(ws, outs, synced.drop_last());
        let prev = spec_synced_entries(outs, synced.drop_last());
        if spec_last_index_with(outs, synced.last().0.0, output_key()) is Some {
            lemma_layout_rects_concat(ws, prev, synced.last().1.entries());
        } else {
            assert(prev + Seq::<(u32, Rect, WindowState)>::empty() =~= prev);
        }
    }
}

/// Syncing a tree twice is syncing it once.
pub proof fn lemma_synced_tree_idempotent(out: Output, t: LayoutTree)
    ensures
        spec_synced_tree(out, spec_synced_tree(out, t)) == spec_synced_tree(out, t),
{
    match out.spec_tiling_rect() {
        Some(r) => {
            let sized = (LayoutTree { raw_output_rect: r, output_rect: crate::tree::spec_margin_rect(r, t.layout_config), ..t }).arranged();
            law_arrange_idempotent(LayoutTree { raw_output_rect: r, output_rect: crate::tree::spec_margin_rect(r, t.layout_config), ..t });
            law_arrange_idempotent(sized);
            let t1 = sized.arranged();
            assert(t1 == sized);
            assert((LayoutTree { raw_output_rect: r, output_rect: crate::tree::spec_margin_rect(r, t1.layout_config), ..t1 }) == t1);
        },
        None => {
            law_arrange_idempotent(t);
        },
    }
}

/// Syncing the trees twice is syncing them once.
pub proof fn lemma_synced_trees_idempotent(outs: Seq<Output>, ts: Seq<(OutputId, LayoutTree)>)
    ensures
        spec_synced_trees(outs, spec_synced_trees(outs, ts)) == spec_synced_trees(outs, ts),
{
    let s1 = spec_synced_trees(outs, ts);
    assert(spec_synced_trees(outs, s1) =~= s1) by {
        assert forall|i: int| 0 <= i < s1.len() implies #[trigger] spec_synced_trees(outs, s1)[i] == s1[i] by {
            match spec_last_index_with(outs, ts[i].0.0, output_key()) {
                Some(oi) => {
                    lemma_synced_tree_idempotent(outs[oi], ts[i].1);
                },
                None => {},
            }
        }
    }
}

/// A seat whose pointer operation has just advanced has nothing more to
/// announce: advancing it again asks nothing and changes nothing.
pub proof fn lemma_transition_settles(id: SeatId, seat: Seat, later: Seat)
    requires
        later.op == spec_op_transition(id, seat).1.op,
        later.op_started == spec_op_transition(id, seat).1.op_started,
        later.op_ending == spec_op_transition(id, seat).1.op_ending,
    ensures
        spec_op_transition(id, later).0 == Seq::<Effect>::empty(),
        spec_op_transition(id, later).1 == later,
{
    assert(spec_op_transition(id, later).0 =~= Seq::<Effect>::empty());
}

/// Seats with nothing to announce give no pointer requests.
pub proof fn lemma_transition_effects_empty(seats: Seq<(SeatId, Seat)>)
    requires
        forall|i: int| 0 <= i < seats.len() ==> (#[trigger] spec_op_transition(seats[i].0, seats[i].1)).0 == Seq::<Effect>::empty(),
    ensures
        WMState::spec_transition_effects(seats) == Seq::<Effect>::empty(),
    decreases seats.len(),
{
    if seats.len() > 0 {
        assert forall|i: int| 0 <= i < seats.drop_last().len() implies (#[trigger] spec_op_transition(
            seats.drop_last()[i].0,
            seats.drop_last()[i].1,
        )).0 == Seq::<Effect>::empty() by {
            assert(seats.drop_last()[i] == seats[i]);
        }
        lemma_transition_effects_empty(seats.drop_last());
        assert(spec_op_transition(seats[seats.len() - 1].0, seats[seats.len() - 1].1).0 == Seq::<Effect>::empty());
        assert(WMState::spec_transition_effects(seats) =~= Seq::<Effect>::empty());
    }
}

/// Floats that land nowhere leave the trees as they are.
pub proof fn lemma_floated_none(ws: Seq<Window>, ts: Seq<(OutputId, LayoutTree)>, seats: Seq<(SeatId, Seat)>)
    requires
        forall|i: int| 0 <= i < seats.len() ==> (#[trigger] spec_float_target(ws, ts, seats[i].1)) is None,
    ensures
        spec_floated_trees(ws, ts, seats) == ts,
    decreases seats.len(),
{
    if seats.len() > 0 {
        assert forall|i: int| 0 <= i < seats.drop_last().len() implies (#[trigger] spec_float_target(
            ws,
            ts,
            seats.drop_last()[i].1,
        )) is None by {
            assert(seats.drop_last()[i] == seats[i]);
        }
        lemma_floated_none(ws, ts, seats.drop_last());
        assert(spec_float_target(ws, ts, seats[seats.len() - 1].1) is None);
    }
}

/// Where a float lands depends only on the windows' identifiers and
/// outputs and on the trees' outputs.
pub proof fn lemma_float_target_same(
    ws1: Seq<Window>,
    ts1: Seq<(OutputId, LayoutTree)>,
    ws2: Seq<Window>,
    ts2: Seq<(OutputId, LayoutTree)>,
    seat: Seat,
)
    requires
        ws1.len() == ws2.len(),
        forall|i: int| 0 <= i < ws1.len() ==> (#[trigger] ws1[i]).id == ws2[i].id && ws1[i].output_id == ws2[i].output_id,
        ts1.map_values(tree_key()) == ts2.map_values(tree_key()),
    ensures
        spec_float_target(ws1, ts1, seat) == spec_float_target(ws2, ts2, seat),
{
    assert(ws1.map_values(window_key()) =~= ws2.map_values(window_key())) by {
        assert forall|i: int| 0 <= i < ws1.len() implies #[trigger] ws1.map_values(window_key())[i] == ws2.map_values(window_key())[i] by {
            assert(ws1[i].id == ws2[i].id);
        }
    }
    match seat.pending_float {
        Some((wid, rect)) => {
            lemma_last_index_same_ids(ws1, ws2, wid.0, window_key());
            lemma_last_index_bounds(ws1, wid.0, window_key());
            match spec_last_index_with(ws1, wid.0, window_key()) {
                Some(wi) => {
                    assert(ws1[wi].output_id == ws2[wi].output_id);
                    lemma_last_index_same_ids(ts1, ts2, ws1[wi].output_id.0, tree_key());
                },
                None => {},
            }
        },
        None => {},
    }
}

/// A window's identity is kept by recording layout rects.
pub proof fn lemma_recorded_keeps_identity(ws: Seq<Window>, es: Seq<(u32, Rect, WindowState)>)
    requires
        spec_distinct(ws, window_key()),
    ensures
        spec_with_layout_rects(ws, es).len() == ws.len(),
        forall|i: int| 0 <= i < ws.len() ==> (#[trigger] spec_with_layout_rects(ws, es)[i]).id == ws[i].id
            && spec_with_layout_rects(ws, es)[i].output_id == ws[i].output_id,
        spec_with_layout_rects(ws, es).map_values(window_key()) == ws.map_values(window_key()),
{
    lemma_layout_rects_pointwise(ws, es);
    let w1 = spec_with_layout_rects(ws, es);
    assert forall|i: int| 0 <= i < ws.len() implies (#[trigger] w1[i]).id == ws[i].id && w1[i].output_id == ws[i].output_id by {
        assert(w1[i] == spec_recorded(ws[i], es));
    }
    assert(w1.map_values(window_key()) =~= ws.map_values(window_key())) by {
        assert forall|i: int| 0 <= i < ws.len() implies #[trigger] w1.map_values(window_key())[i] == ws.map_values(window_key())[i] by {
            assert(w1[i].id == ws[i].id);
        }
    }
}

/// Syncing keeps the trees' outputs at their positions.
pub proof fn lemma_synced_keys(outs: Seq<Output>, ts: Seq<(OutputId, LayoutTree)>)
    ensures
        spec_synced_trees(outs, ts).map_values(tree_key()) == ts.map_values(tree_key()),
{
    assert(spec_synced_trees(outs, ts).map_values(tree_key()) =~= ts.map_values(tree_key()));
}

/// A manage sequence run right after another one, with nothing happening
/// in between and the same compositor handles present, asks nothing of the
/// compositor: only what changed between two manage sequences is sent.
/// This holds when no window shows up twice in the scene (a window in the
/// trees of two outputs would be diffed against its other entry).
pub proof fn law_second_manage_is_quiet(
    s0: WMState,
    s1: WMState,
    e1: Seq<Effect>,
    s2: WMState,
    e2: Seq<Effect>,
    bound_windows: Seq<u32>,
    bound_seats: Seq<u32>,
    layer_outputs: Seq<u32>,
)
    requires
        s0.wf(),
        s0.spec_managed(bound_windows, bound_seats, layer_outputs, s1, e1),
        s1.spec_managed(bound_windows, bound_seats, layer_outputs, s2, e2),
        forall|a: int, b: int|
            0 <= a < b < s1.last_manage_scene@.len() ==> (#[trigger] s1.last_manage_scene@[a]).window_id
                != (#[trigger] s1.last_manage_scene@[b]).window_id,
    ensures
        e2 == Seq::<Effect>::empty(),
{
    let r0 = s0.spec_focus_repaired();
    let n = r0.seats@.len();
    let seats2 = Seq::new(n, |i: int| (r0.seats@[i].0, spec_op_transition(r0.seats@[i].0, r0.seats@[i].1).1));
    let floated = spec_floated_trees(r0.windows@, r0.output_trees@, seats2);
    let synced = spec_synced_trees(r0.outputs@, floated);
    assert(r0.wf());

    // The first sequence left a repaired focused output.
    let r1 = s1.spec_focus_repaired();
    assert(r1 == s1);

    // Windows after the first sequence: layout rects recorded, identities kept.
    lemma_synced_windows_flat(r0.windows@, r0.outputs@, synced);
    let es = spec_synced_entries(r0.outputs@, synced);
    lemma_recorded_keeps_identity(r0.windows@, es);
    lemma_floated_keys(r0.windows@, r0.output_trees@, seats2);
    lemma_synced_keys(r0.outputs@, floated);
    assert(s1.output_trees@.map_values(tree_key()) == r0.output_trees@.map_values(tree_key()));

    // Seats: nothing left to announce, no float left to land.
    let seats3 = Seq::new(n, |i: int| (s1.seats@[i].0, spec_op_transition(s1.seats@[i].0, s1.seats@[i].1).1));
    assert forall|i: int| 0 <= i < n implies (#[trigger] spec_op_transition(s1.seats@[i].0, s1.seats@[i].1)).0
        == Seq::<Effect>::empty() && spec_op_transition(s1.seats@[i].0, s1.seats@[i].1).1 == s1.seats@[i].1
        && spec_float_target(s1.windows@, s1.output_trees@, s1.seats@[i].1) is None by {
        let tr = spec_op_transition(r0.seats@[i].0, r0.seats@[i].1).1;
        assert(s1.seats@[i] == (seats2[i].0, spec_floated_seat(r0.windows@, r0.output_trees@, seats2[i].1)));
        lemma_transition_settles(r0.seats@[i].0, r0.seats@[i].1, s1.seats@[i].1);
        lemma_float_target_same(s1.windows@, s1.output_trees@, r0.windows@, r0.output_trees@, s1.seats@[i].1);
        lemma_float_target_same(s1.windows@, s1.output_trees@, r0.windows@, r0.output_trees@, tr);
    }
    lemma_transition_effects_empty(s1.seats@);
    assert(seats3 =~= s1.seats@);
    lemma_floated_none(s1.windows@, s1.output_trees@, seats3);

    // The trees and windows come out as they were.
    lemma_synced_trees_idempotent(r0.outputs@, floated);
    lemma_synced_windows_flat(s1.windows@, s1.outputs@, s1.output_trees@);
    lemma_layout_rects_idempotent(r0.windows@, es);
    assert(s2.output_trees@ == s1.output_trees@);
    assert(s2.windows@ == s1.windows@);

    // So the desired scene is the one just sent.
    crate::sequences::lemma_scene_fields(s2, s1, s1.output_trees@);
    assert(s2.last_manage_scene@ == s1.last_manage_scene@);
    crate::sequences::law_manage_diff_of_unchanged_scene_is_empty(s1.last_manage_scene@);

    // No focus, close or layer-shell request is left to send.
    let fr0 = r0.spec_focus_request(bound_windows, bound_seats);
    assert(s1.focus.pending_focus == fr0.1);
    lemma_last_index_same_ids(s1.windows@, r0.windows@, 0u32, window_key());
    assert forall|k: u32| #[trigger] spec_last_index_with(s1.windows@, k, window_key()) == spec_last_index_with(
        r0.windows@,
        k,
        window_key(),
    ) by {
        lemma_last_index_same_ids(s1.windows@, r0.windows@, k, window_key());
    }
    assert(s1.seats@.map_values(seat_key()) =~= r0.seats@.map_values(seat_key())) by {
        assert forall|i: int| 0 <= i < n implies #[trigger] s1.seats@.map_values(seat_key())[i] == r0.seats@.map_values(seat_key())[i] by {
            assert(s1.seats@[i].0 == r0.seats@[i].0);
        }
    }
    assert forall|k: u32| #[trigger] spec_last_index_with(s1.seats@, k, seat_key()) == spec_last_index_with(
        r0.seats@,
        k,
        seat_key(),
    ) by {
        lemma_last_index_same_ids(s1.seats@, r0.seats@, k, seat_key());
    }
    let fr1 = s1.spec_focus_request(bound_windows, bound_seats);
    assert(fr1.0 == Seq::<Effect>::empty());
    assert(s1.spec_close_requests(s1.pending_closes@) == Seq::<Effect>::empty());
    assert(s1.spec_layer_request(layer_outputs) == Seq::<Effect>::empty());
    assert(e2 =~= Seq::<Effect>::empty());
}

/// A render sequence run right after another one, with nothing happening
/// in between, asks nothing of the compositor once every window with a
/// compositor handle has its render node.
pub proof fn law_second_render_is_quiet(
    s0: WMState,
    s1: WMState,
    e1: Seq<Effect>,
    s2: WMState,
    e2: Seq<Effect>,
    bound_windows: Seq<u32>,
    nodes: Seq<u32>,
)
    requires
        s0.spec_rendered(bound_windows, nodes, s1, e1),
        s1.spec_rendered(bound_windows, nodes, s2, e2),
        forall|id: u32| #[trigger] bound_windows.contains(id) ==> nodes.contains(id),
    ensures
        e2 == Seq::<Effect>::empty(),
{
    crate::sequences::lemma_scene_fields(s1, s0, s1.output_trees@);
    assert(s2.last_render_scene@ == s1.last_render_scene@);
    crate::sequences::law_render_pass_of_unchanged_scene_is_empty(
        s1.windows@,
        s2.render_order_cache@,
        bound_windows,
        nodes,
        s1.last_render_scene@,
    );
}


/// In render order (bottom to top) a fullscreen window comes after, so is
/// drawn over, every window that is not fullscreen, and a floating window
/// after every tiled or pseudo-tiled one, whatever the focus.
pub proof fn law_render_order_stacks_by_mode(s: WMState, order: Seq<u32>, i: int, j: int)
    requires
        s.spec_in_render_order(order),
        0 <= i < order.len(),
        0 <= j < order.len(),
        ({
            let a = s.spec_window_state_for(crate::window::WindowId(order[i]));
            let b = s.spec_window_state_for(crate::window::WindowId(order[j]));
            ||| (a matches Some(WindowState::Fullscreen { .. }) && !(b matches Some(WindowState::Fullscreen { .. })))
            ||| (a matches Some(WindowState::Floating { .. }) && (b is None || b matches Some(WindowState::Tiled)
                || b matches Some(WindowState::PseudoTiled { .. })))
        }),
    ensures
        j < i,
{
    if i < j {
        assert(!crate::scene::spec_z_above(s.spec_render_key(order[i]), s.spec_render_key(order[j])));
    }
    if i == j {
        assert(false);
    }
}

} // verus!
