//! What events keep true of the window manager's focus (the focus stack
//! and the focused window name known windows only; the focused window, the
//! focused output and the trees' own foci stay in step), and how an
//! operation's pointer movements combine.
use crate::config::{lemma_last_index_same_ids, spec_last_index_with};
use crate::focus::lemma_without_contains;
use crate::output::OutputId;
use crate::seat::SeatId;
use crate::tree::LayoutTree;
use crate::tree_laws::{law_insert_window, law_remove_window, spec_removal_keeps_others};
use crate::wm::{Event, WMState, lemma_found_at, seat_key, spec_distinct, spec_moved, tree_key, window_key};
use crate::window::{Window, WindowId};
use vstd::prelude::*;

verus! {

/// Whether window `w` is known to `s`.
pub open spec fn spec_known(s: WMState, w: u32) -> bool {
    s.window(WindowId(w)) is Some
}

/// The focus stack and the focused window name known windows only.
pub open spec fn spec_focus_fresh(s: WMState) -> bool {
    &&& forall|i: int| 0 <= i < s.focus.stack@.len() ==> spec_known(s, #[trigger] s.focus.stack@[i])
    &&& s.focus.focused_window matches Some(f) ==> spec_known(s, f)
}

/// Every window known to `a` is known to `b`.
pub open spec fn spec_keeps_known(a: WMState, b: WMState) -> bool {
    forall|w: u32| spec_known(a, w) ==> #[trigger] spec_known(b, w)
}

/// A window is known exactly when some record carries its identifier.
proof fn lemma_known_iff(s: Seq<Window>, w: u32)
    ensures
        (spec_last_index_with(s, w, window_key()) is Some) == (exists|j: int|
            0 <= j < s.len() && (#[trigger] s[j]).id.0 == w),
{
    lemma_found_at(s, w, window_key());
    if spec_last_index_with(s, w, window_key()) is Some {
        let j = spec_last_index_with(s, w, window_key())->0;
        assert(s[j].id.0 == w);
    }
}

/// Records with the same identifiers in the same places know the same
/// windows.
proof fn lemma_same_ids_keep_known(a: WMState, b: WMState)
    requires
        b.windows@.map_values(window_key()) == a.windows@.map_values(window_key()),
    ensures
        spec_keeps_known(a, b),
{
    assert forall|w: u32| spec_known(a, w) implies #[trigger] spec_known(b, w) by {
        lemma_last_index_same_ids(b.windows@, a.windows@, w, window_key());
    }
}

/// Knowing every window of another state is transitive.
proof fn lemma_keeps_trans(a: WMState, b: WMState, c: WMState)
    requires
        spec_keeps_known(a, b),
        spec_keeps_known(b, c),
    ensures
        spec_keeps_known(a, c),
{
    assert forall|w: u32| spec_known(a, w) implies #[trigger] spec_known(c, w) by {
        assert(spec_known(b, w));
    }
}

/// Keeping every known window and the focus keeps the focus fresh.
proof fn lemma_fresh_transfer(a: WMState, b: WMState)
    requires
        spec_focus_fresh(a),
        spec_keeps_known(a, b),
        b.focus.stack@ == a.focus.stack@,
        b.focus.focused_window == a.focus.focused_window,
    ensures
        spec_focus_fresh(b),
{
    assert forall|i: int| 0 <= i < b.focus.stack@.len() implies spec_known(b, #[trigger] b.focus.stack@[i]) by {
        assert(spec_known(a, a.focus.stack@[i]));
    }
}

/// Replacing a window's record by one with its identifier keeps the known
/// windows.
proof fn lemma_with_window_keeps_known(a: WMState, b: WMState, id: WindowId, w: Window)
    requires
        a.window(id) matches Some(x) ==> x.id == w.id,
        b.windows@ == a.with_window(id, w),
    ensures
        spec_keeps_known(a, b),
{
    match a.window_index(id) {
        Some(i) => {
            lemma_found_at(a.windows@, id.0, window_key());
            assert(b.windows@.map_values(window_key()) =~= a.windows@.map_values(window_key()));
        },
        None => {
            assert(b.windows@.map_values(window_key()) =~= a.windows@.map_values(window_key()));
        },
    }
    lemma_same_ids_keep_known(a, b);
}

/// Focusing a window keeps the focus fresh.
proof fn lemma_focused_fresh(a: WMState, id: WindowId, b: WMState)
    requires
        spec_focus_fresh(a),
        a.spec_focused(id, b),
    ensures
        spec_focus_fresh(b),
        spec_keeps_known(a, b),
{
    if a.window(id) is Some {
        assert(b.windows == a.windows);
        assert forall|i: int| 0 <= i < b.focus.stack@.len() implies spec_known(b, #[trigger] b.focus.stack@[i]) by {
            let x = b.focus.stack@[i];
            if i > 0 {
                let rest = crate::focus::spec_without(a.focus.stack@, id.0);
                assert(x == rest[i - 1]);
                assert(rest.contains(x));
                lemma_without_contains(a.focus.stack@, id.0, x);
                let j = choose|j: int| 0 <= j < a.focus.stack@.len() && a.focus.stack@[j] == x;
                assert(spec_known(a, a.focus.stack@[j]));
            }
        }
    }
}

/// Moving the windows of one output to another keeps the focus fresh.
proof fn lemma_reassigned_fresh(a: WMState, from: crate::output::OutputId, to: crate::output::OutputId, b: WMState)
    requires
        spec_focus_fresh(a),
        a.spec_reassigned(from, to, b),
    ensures
        spec_focus_fresh(b),
        spec_keeps_known(a, b),
{
    if !(a.output_index(to) is None || a.tree_index(from) is None) {
        let from_tree = a.output_trees@[a.tree_index(from)->0].1;
        let dx = crate::geometry::spec_sat(a.spec_position(to).0 - a.spec_position(from).0);
        let dy = crate::geometry::spec_sat(a.spec_position(to).1 - a.spec_position(from).1);
        let (mid, placed, remembered, refocused) = choose|
            mid: WMState,
            placed: WMState,
            remembered: Option<u32>,
            refocused: WMState,
        |
            {
                &&& a.spec_reassign_moved(from, to, mid)
                &&& mid.spec_reassign_placed(from_tree, to, dx, dy, placed, remembered)
                &&& placed.spec_reassign_refocused(to, a.focus.focused_window, remembered, refocused)
                &&& b == (WMState { manage_requested: true, ..refocused })
            };
        let ids = from_tree.windows();
        assert(mid.windows@.map_values(window_key()) =~= a.windows@.map_values(window_key()));
        lemma_same_ids_keep_known(a, mid);
        lemma_fresh_transfer(a, mid);
        assert(placed.windows == mid.windows && placed.focus == mid.focus);
        lemma_fresh_transfer(mid, placed);
        match a.focus.focused_window {
            Some(f) => if placed.window(WindowId(f)) matches Some(w) && w.output_id == to {
                lemma_focused_fresh(placed, WindowId(f), refocused);
            } else {
                assert(refocused.windows == placed.windows && refocused.focus == placed.focus);
                lemma_fresh_transfer(placed, refocused);
            },
            None => {},
        }
        assert(b.windows == refocused.windows);
        assert(placed.windows == mid.windows);
        assert(spec_keeps_known(mid, placed));
        assert(refocused.windows == placed.windows);
        assert(spec_keeps_known(placed, refocused));
        assert(spec_keeps_known(refocused, b));
        lemma_keeps_trans(a, mid, placed);
        lemma_keeps_trans(a, placed, refocused);
        lemma_keeps_trans(a, refocused, b);
        lemma_fresh_transfer(refocused, b);
    }
}

/// Running the window rules for a window keeps the focus fresh.
proof fn lemma_rules_fresh(a: WMState, id: WindowId, b: WMState)
    requires
        spec_focus_fresh(a),
        a.spec_rules_evaluated(id, b),
    ensures
        spec_focus_fresh(b),
        spec_keeps_known(a, b),
{
    match a.window(id) {
        Some(w) => match (a.window_rules, a.output(w.output_id), a.tree(w.output_id)) {
            (Some(rules), Some(o), Some(t)) => match o.spec_rect() {
                Some(rect) => {
                    let (w2, t2, changed) = rules.spec_evaluate(w, t, rect, a.float_ratio as int);
                    assert(w2.id == w.id);
                    lemma_with_window_keeps_known(a, b, id, w2);
                    lemma_fresh_transfer(a, b);
                },
                None => {},
            },
            _ => {},
        },
        None => {},
    }
}

/// Running the window rules along a trace keeps the focus fresh.
proof fn lemma_rules_trace_fresh(a: WMState, ids: Seq<WindowId>, b: WMState, tr: Seq<WMState>, k: int)
    requires
        spec_focus_fresh(a),
        a.spec_rules_trace(ids, b, tr),
        0 <= k <= ids.len(),
    ensures
        spec_focus_fresh(tr[k]),
        spec_keeps_known(a, tr[k]),
    decreases k,
{
    if k > 0 {
        let i = k - 1;
        lemma_rules_trace_fresh(a, ids, b, tr, i);
        assert(tr[i].spec_rules_evaluated(ids[i], tr[i + 1]));
        assert(i + 1 == k);
        lemma_rules_fresh(tr[i], ids[i], tr[k]);
        lemma_keeps_trans(a, tr[i], tr[k]);
    }
}

/// Moving the trees of orphaned outputs along a trace keeps the focus
/// fresh.
proof fn lemma_orphan_trace_fresh(
    a: WMState,
    os: Seq<crate::output::OutputId>,
    to: crate::output::OutputId,
    b: WMState,
    tr: Seq<WMState>,
    k: int,
)
    requires
        spec_focus_fresh(a),
        a.spec_orphan_trace(os, to, b, tr),
        0 <= k <= os.len(),
    ensures
        spec_focus_fresh(tr[k]),
        spec_keeps_known(a, tr[k]),
    decreases k,
{
    if k > 0 {
        let i = k - 1;
        lemma_orphan_trace_fresh(a, os, to, b, tr, i);
        let s = tr[i];
        assert(tr[i].spec_orphan_moved(os[i], to, tr[i + 1]));
        assert(i + 1 == k);
        let s1 = if s.focused_output == Some(os[k - 1]) {
            s.spec_output_focused(to)
        } else {
            s
        };
        assert(s1.windows == s.windows && s1.focus == s.focus);
        lemma_fresh_transfer(s, s1);
        lemma_reassigned_fresh(s1, os[k - 1], to, tr[k]);
        lemma_keeps_trans(a, s, s1);
        lemma_keeps_trans(a, s1, tr[k]);
    }
}

/// Closing a window keeps the focus fresh.
proof fn lemma_closed_fresh(a: WMState, id: WindowId, b: WMState)
    requires
        a.wf(),
        spec_focus_fresh(a),
        a.spec_closed(id, b),
    ensures
        spec_focus_fresh(b),
{
    let mid = choose|mid: WMState| #[trigger] a.spec_close_removed(id, mid) && {
        if a.focus.focused_window == Some(id.0) {
            let lf = a.spec_layout_focus_after_close(id);
            let ff = mid.focus.focused_window;
            let next = crate::focus::spec_next_focus(
                lf,
                lf is Some && mid.window(WindowId(lf->0)) is Some,
                ff,
                ff is Some && mid.window(WindowId(ff->0)) is Some,
            );
            let mid2 = WMState { pending_split: None, ..mid };
            match next {
                Some(nf) => mid2.spec_focused(WindowId(nf), b),
                None => b == (WMState {
                    focus: crate::focus::FocusState { pending_focus: mid.focus.focused_window, ..mid.focus },
                    ..mid2
                }),
            }
        } else {
            b == mid
        }
    };
    // Every window other than `id` that `a` knows, `mid` knows.
    assert forall|w: u32| w != id.0 && spec_known(a, w) implies #[trigger] spec_known(mid, w) by {
        lemma_known_iff(a.windows@, w);
        lemma_known_iff(mid.windows@, w);
        let j = choose|j: int| 0 <= j < a.windows@.len() && (#[trigger] a.windows@[j]).id.0 == w;
        match a.window_index(id) {
            Some(i) => {
                lemma_found_at(a.windows@, id.0, window_key());
                assert(j != i);
                let j2 = if j < i { j } else { j - 1 };
                assert(mid.windows@[j2] == a.windows@[j]);
            },
            None => {
                assert(mid.windows@[j] == a.windows@[j]);
            },
        }
    }
    assert forall|i: int| 0 <= i < mid.focus.stack@.len() implies spec_known(mid, #[trigger] mid.focus.stack@[i]) by {
        let x = mid.focus.stack@[i];
        assert(crate::focus::spec_without(a.focus.stack@, id.0).contains(x));
        lemma_without_contains(a.focus.stack@, id.0, x);
        let j = choose|j: int| 0 <= j < a.focus.stack@.len() && a.focus.stack@[j] == x;
        assert(spec_known(a, a.focus.stack@[j]));
    }
    if mid.focus.focused_window is Some {
        if a.focus.focused_window == Some(id.0) {
            assert(mid.focus.stack@.len() > 0);
            assert(spec_known(mid, mid.focus.stack@[0]));
        } else {
            assert(spec_known(a, a.focus.focused_window->0));
        }
    }
    assert(spec_focus_fresh(mid));
    if a.focus.focused_window == Some(id.0) {
        let mid2 = WMState { pending_split: None, ..mid };
        assert(mid2.windows == mid.windows && mid2.focus == mid.focus);
        lemma_fresh_transfer(mid, mid2);
        let lf = a.spec_layout_focus_after_close(id);
        let ff = mid.focus.focused_window;
        let next = crate::focus::spec_next_focus(
            lf,
            lf is Some && mid.window(WindowId(lf->0)) is Some,
            ff,
            ff is Some && mid.window(WindowId(ff->0)) is Some,
        );
        match next {
            Some(nf) => {
                lemma_focused_fresh(mid2, WindowId(nf), b);
            },
            None => {
                assert(b.windows == mid2.windows);
                assert(b.focus.stack == mid2.focus.stack);
                assert(b.focus.focused_window == mid2.focus.focused_window);
                assert forall|w: u32| spec_known(mid2, w) implies #[trigger] spec_known(b, w) by {}
                lemma_fresh_transfer(mid2, b);
            },
        }
    }
}

/// Every event keeps the focus stack and the focused window naming known
/// windows only: a focus that starts fresh never goes stale.
pub proof fn law_handle_event_keeps_focus_fresh(s: WMState, event: Event, new: WMState)
    requires
        s.wf(),
        spec_focus_fresh(s),
        s.spec_handled(event, new),
    ensures
        spec_focus_fresh(new),
{
    match event {
        Event::WindowCreated { window_id, target_output } => {
            let w = crate::wm::spec_new_window(window_id, target_output);
            match s.window_index(window_id) {
                Some(i) => {
                    lemma_found_at(s.windows@, window_id.0, window_key());
                    assert(new.windows@.map_values(window_key()) =~= s.windows@.map_values(window_key()));
                    lemma_same_ids_keep_known(s, new);
                    assert(spec_known(new, window_id.0));
                },
                None => {
                    assert forall|x: u32| spec_known(s, x) implies #[trigger] spec_known(new, x) by {
                        lemma_known_iff(s.windows@, x);
                        lemma_known_iff(new.windows@, x);
                        let j = choose|j: int| 0 <= j < s.windows@.len() && (#[trigger] s.windows@[j]).id.0 == x;
                        assert(new.windows@[j] == s.windows@[j]);
                    }
                    lemma_known_iff(new.windows@, window_id.0);
                    assert(new.windows@[s.windows@.len() as int] == w);
                },
            }
            assert forall|i: int| 0 <= i < new.focus.stack@.len() implies spec_known(new, #[trigger] new.focus.stack@[i]) by {
                let x = new.focus.stack@[i];
                if i > 0 {
                    let rest = crate::focus::spec_without(s.focus.stack@, window_id.0);
                    assert(x == rest[i - 1]);
                    assert(rest.contains(x));
                    lemma_without_contains(s.focus.stack@, window_id.0, x);
                    let j = choose|j: int| 0 <= j < s.focus.stack@.len() && s.focus.stack@[j] == x;
                    assert(spec_known(s, s.focus.stack@[j]));
                }
            }
        },
        Event::OutputCreated { output_id } => {
            let (added, moved) = choose|added: WMState, moved: WMState|
                {
                    &&& s.spec_output_added(output_id, added)
                    &&& added.spec_orphans_moved(added.spec_orphans(added.output_trees@), output_id, moved)
                    &&& new == (if moved.focused_output is None {
                        moved.spec_output_focused(output_id)
                    } else {
                        moved
                    })
                };
            assert(added.windows == s.windows && added.focus == s.focus);
            lemma_fresh_transfer(s, added);
            let os = added.spec_orphans(added.output_trees@);
            let tr = choose|tr: Seq<WMState>| #[trigger] added.spec_orphan_trace(os, output_id, moved, tr);
            lemma_orphan_trace_fresh(added, os, output_id, moved, tr, os.len() as int);
            assert(new.windows == moved.windows && new.focus == moved.focus);
            lemma_fresh_transfer(moved, new);
        },
        Event::WindowClosed { window_id } => {
            let mid = choose|mid: WMState| #[trigger] s.spec_closed(window_id, mid) && mid.spec_ops_cancelled(
                window_id,
                new,
            );
            lemma_closed_fresh(s, window_id, mid);
            assert(new.windows == mid.windows && new.focus == mid.focus);
            lemma_fresh_transfer(mid, new);
        },
        Event::WindowInteraction { window_id } => {
            if s.focus.focused_window != Some(window_id.0) {
                lemma_focused_fresh(s, window_id, new);
            }
        },
        Event::DimensionsHint { window_id, min_w, min_h, max_w, max_h } => {
            if let Some(w) = s.window(window_id) {
                lemma_with_window_keeps_known(
                    s,
                    new,
                    window_id,
                    Window {
                        dimensions_hint: crate::window::DimensionsHint {
                            min_width: min_w,
                            min_height: min_h,
                            max_width: max_w,
                            max_height: max_h,
                        },
                        ..w
                    },
                );
                lemma_fresh_transfer(s, new);
            }
        },
        Event::AppIdUpdated { window_id, app_id } => {
            let mid = choose|mid: WMState| #[trigger] s.spec_app_id_stored(window_id, app_id, mid)
                && mid.spec_rules_evaluated(window_id, new);
            if let Some(w) = s.window(window_id) {
                lemma_with_window_keeps_known(s, mid, window_id, Window { app_id, ..w });
            }
            lemma_fresh_transfer(s, mid);
            lemma_rules_fresh(mid, window_id, new);
        },
        Event::TitleUpdated { window_id, title } => {
            let mid = choose|mid: WMState| #[trigger] s.spec_title_stored(window_id, title, mid)
                && mid.spec_rules_evaluated(window_id, new);
            if let Some(w) = s.window(window_id) {
                lemma_with_window_keeps_known(s, mid, window_id, Window { title, ..w });
            }
            lemma_fresh_transfer(s, mid);
            lemma_rules_fresh(mid, window_id, new);
        },
        Event::ParentUpdated { window_id, parent_id } => {
            if let Some(w) = s.window(window_id) {
                lemma_with_window_keeps_known(s, new, window_id, Window { parent: parent_id, ..w });
                lemma_fresh_transfer(s, new);
            }
        },
        Event::DecorationHintUpdated { window_id, hint } => {
            if let Some(w) = s.window(window_id) {
                lemma_with_window_keeps_known(s, new, window_id, Window { decoration_hint: Some(hint), ..w });
                lemma_fresh_transfer(s, new);
            }
        },
        Event::PidUpdated { window_id, pid } => {
            if let Some(w) = s.window(window_id) {
                lemma_with_window_keeps_known(s, new, window_id, Window { pid: pid as i32, ..w });
                lemma_fresh_transfer(s, new);
            }
        },
        Event::OutputRemoved { output_id } => {
            let target = WMState::spec_other_output(s.outputs@, output_id);
            let moved = choose|moved: WMState| #[trigger] s.spec_output_moved_out(output_id, target, moved) && {
                let outs = match moved.output_index(output_id) {
                    Some(i) => moved.outputs@.remove(i),
                    None => moved.outputs@,
                };
                &&& new.outputs@ == outs
                &&& new == (WMState {
                    outputs: new.outputs,
                    focused_output: if moved.focused_output == Some(output_id) {
                        match target {
                            Some(t) => Some(t),
                            None => if outs.len() > 0 {
                                Some(outs[0].id)
                            } else {
                                None
                            },
                        }
                    } else {
                        moved.focused_output
                    },
                    manage_requested: true,
                    ..moved
                })
            };
            match target {
                Some(t) => lemma_reassigned_fresh(s, output_id, t, moved),
                None => {},
            }
            assert(new.windows == moved.windows && new.focus == moved.focus);
            lemma_fresh_transfer(moved, new);
        },
        Event::OutputDimensionsUpdated { output_id, w, h } => {
            let (sized, tr) = choose|sized: WMState, tr: Seq<WMState>|
                {
                    &&& match s.output(output_id) {
                        Some(o) => {
                            &&& sized == (WMState { outputs: sized.outputs, manage_requested: true, ..s })
                            &&& sized.outputs@ == s.with_output(
                                output_id,
                                crate::output::Output {
                                    dimensions: Some(crate::window::Dimensions { width: w, height: h }),
                                    ..o
                                },
                            )
                        },
                        None => sized == s,
                    }
                    &&& sized.spec_rules_trace(WMState::spec_windows_on(sized.windows@, output_id), new, tr)
                };
            assert(sized.windows == s.windows && sized.focus == s.focus);
            lemma_fresh_transfer(s, sized);
            let ids = WMState::spec_windows_on(sized.windows@, output_id);
            lemma_rules_trace_fresh(sized, ids, new, tr, ids.len() as int);
        },
        Event::SeatLayerShellFocus { seat_id, mode } => {
            lemma_fresh_transfer(s, new);
        },
        _ => {
            assert(new.windows == s.windows && new.focus.stack == s.focus.stack
                && new.focus.focused_window == s.focus.focused_window);
            lemma_fresh_transfer(s, new);
        },
    }
}


/// Seat `seat_id` of `mid` is its seat of `s` but for the pending floating
/// rectangle, when `mid` follows `s` by a pointer movement.
proof fn lemma_op_moved_keeps_op(s: WMState, seat_id: SeatId, dx: i32, dy: i32, mid: WMState)
    requires
        s.wf(),
        s.spec_op_moved(seat_id, dx, dy, mid),
    ensures
        mid.windows == s.windows,
        mid.outputs == s.outputs,
        mid.seat_index(seat_id) == s.seat_index(seat_id),
        mid.seat(seat_id) is Some == s.seat(seat_id) is Some,
        s.seat(seat_id) is Some ==> mid.seat(seat_id)->0 == (crate::seat::Seat {
            pending_float: mid.seat(seat_id)->0.pending_float,
            ..s.seat(seat_id)->0
        }),
        forall|dx2: i32, dy2: i32| #[trigger] mid.spec_state_op_rect(seat_id, dx2, dy2) == s.spec_state_op_rect(seat_id, dx2, dy2),
        mid.seats@.len() == s.seats@.len(),
        forall|k: int| 0 <= k < mid.seats@.len() ==> #[trigger] mid.seats@[k].0 == s.seats@[k].0,
{
    lemma_found_at(s.seats@, seat_id.0, seat_key());
    if mid != s {
        let i = s.seat_index(seat_id)->0;
        let seat = s.seat(seat_id)->0;
        let p = mid.seats@[i].1.pending_float;
        assert(mid.seats@ == s.seats@.update(i, (seat_id, crate::seat::Seat { pending_float: p, ..seat })));
        assert(s.seats@[i].0 == seat_id);
        assert(mid.seats@.map_values(seat_key()) =~= s.seats@.map_values(seat_key()));
        lemma_last_index_same_ids(mid.seats@, s.seats@, seat_id.0, seat_key());
    }
}

/// An operation's pointer movement is a total since the operation began,
/// not a step: two movements in a row leave the state that the second
/// alone leaves, with its rectangle pending on the seat, whenever that
/// second movement gives the operation's window a rectangle.
pub proof fn law_op_delta_is_total(
    s: WMState,
    seat_id: SeatId,
    dx1: i32,
    dy1: i32,
    dx2: i32,
    dy2: i32,
    mid: WMState,
    new: WMState,
)
    requires
        s.wf(),
        s.spec_handled(Event::OpDelta { seat_id, dx: dx1, dy: dy1 }, mid),
        mid.spec_handled(Event::OpDelta { seat_id, dx: dx2, dy: dy2 }, new),
        s.spec_state_op_rect(seat_id, dx2, dy2) is Some,
    ensures
        s.spec_handled(Event::OpDelta { seat_id, dx: dx2, dy: dy2 }, new),
        new.seat(seat_id) is Some,
        new.seat(seat_id)->0.pending_float == s.spec_state_op_rect(seat_id, dx2, dy2),
{
    lemma_op_moved_keeps_op(s, seat_id, dx1, dy1, mid);
    assert(mid.wf()) by {
        if mid != s {
            let i = s.seat_index(seat_id)->0;
            assert forall|a: int, b: int| 0 <= a < b < mid.seats@.len() implies seat_key()(
                #[trigger] mid.seats@[a],
            ) < seat_key()(#[trigger] mid.seats@[b]) by {
                assert(mid.seats@[a].0 == s.seats@[a].0);
                assert(mid.seats@[b].0 == s.seats@[b].0);
                assert(seat_key()(s.seats@[a]) < seat_key()(s.seats@[b]));
            }
        }
    }
    lemma_op_moved_keeps_op(mid, seat_id, dx2, dy2, new);
    lemma_found_at(s.seats@, seat_id.0, seat_key());
    let i = s.seat_index(seat_id)->0;
    let seat = s.seat(seat_id)->0;
    let pending = s.spec_state_op_rect(seat_id, dx2, dy2)->0;
    assert(new.seats@ =~= s.seats@.update(i, (seat_id, crate::seat::Seat { pending_float: Some(pending), ..seat })));
    assert(new.seats@ == s.with_seat(seat_id, crate::seat::Seat { pending_float: Some(pending), ..seat }));
}


/// A tree focuses one of its own windows, or nothing.
pub open spec fn spec_tree_focus_inside(t: LayoutTree) -> bool {
    t.focused matches Some(g) ==> t.has_window(g)
}

/// The focus of `s` is in step: a focused window is known and lies on the
/// focused output; the tree of the focused output focuses that very window
/// (and nothing when no window is focused, the output having no tree only
/// then); every tree focuses one of its own windows, or nothing.
pub open spec fn spec_focus_consistent(s: WMState) -> bool {
    &&& (s.focus.focused_window matches Some(f) ==> (s.window(WindowId(f)) matches Some(w)
        && s.focused_output == Some(w.output_id)))
    &&& (s.focused_output matches Some(o) ==> match s.tree(o) {
        Some(t) => t.focused == s.focus.focused_window,
        None => s.focus.focused_window is None,
    })
    &&& forall|i: int| 0 <= i < s.output_trees@.len() ==> spec_tree_focus_inside(#[trigger] s.output_trees@[i].1)
}

/// The trees and the window records of `s` agree: a window of a tree is a
/// known window on that tree's output, and a known window lies in the
/// tree of its output, a known output.
pub open spec fn spec_trees_agree(s: WMState) -> bool {
    &&& forall|i: int, w: u32|
        0 <= i < s.output_trees@.len() && #[trigger] s.output_trees@[i].1.has_window(w) ==> (s.window(
            WindowId(w),
        ) matches Some(x) && x.output_id == s.output_trees@[i].0)
    &&& forall|w: u32| #[trigger]
        s.window(WindowId(w)) matches Some(x) ==> (s.output(x.output_id) is Some && (s.tree(
            x.output_id,
        ) matches Some(t) && t.has_window(w)))
}

/// In a sequence whose keys are distinct, the entry with key `k` at `j` is
/// the one found.
proof fn lemma_found_unique<T>(s: Seq<T>, k: u32, key: spec_fn(T) -> u32, j: int)
    requires
        spec_distinct(s, key),
        0 <= j < s.len(),
        key(s[j]) == k,
    ensures
        spec_last_index_with(s, k, key) == Some(j),
{
    lemma_found_at(s, k, key);
    let i = spec_last_index_with(s, k, key)->0;
    if i < j {
        assert(key(s[i]) != key(s[j]));
    } else if j < i {
        assert(key(s[j]) != key(s[i]));
    }
}

/// Dropping window `id`'s record leaves every other window as it was.
proof fn lemma_window_dropped(a: WMState, id: WindowId, b: WMState)
    requires
        a.wf(),
        b.windows@ == (match a.window_index(id) {
            Some(i) => a.windows@.remove(i),
            None => a.windows@,
        }),
    ensures
        b.window(id) is None,
        forall|w: u32| w != id.0 ==> #[trigger] b.window(WindowId(w)) == a.window(WindowId(w)),
        spec_distinct(b.windows@, window_key()),
{
    lemma_found_at(a.windows@, id.0, window_key());
    match a.window_index(id) {
        Some(i) => {
            let ws = a.windows@;
            let bs = b.windows@;
            assert forall|x: int, y: int| 0 <= x < y < bs.len() implies window_key()(#[trigger] bs[x])
                != window_key()(#[trigger] bs[y]) by {
                let x0 = if x < i { x } else { x + 1 };
                let y0 = if y < i { y } else { y + 1 };
                assert(bs[x] == ws[x0]);
                assert(bs[y] == ws[y0]);
            }
            lemma_found_at(bs, id.0, window_key());
            if b.window_index(id) is Some {
                let j = b.window_index(id)->0;
                let j0 = if j < i { j } else { j + 1 };
                assert(bs[j] == ws[j0]);
                assert(j0 != i);
                assert(window_key()(ws[j0]) != window_key()(ws[i]));
            }
            assert forall|w: u32| w != id.0 implies #[trigger] b.window(WindowId(w)) == a.window(WindowId(w)) by {
                lemma_found_at(ws, w, window_key());
                lemma_found_at(bs, w, window_key());
                match a.window_index(WindowId(w)) {
                    Some(k) => {
                        assert(k != i);
                        let k1 = if k < i { k } else { k - 1 };
                        assert(bs[k1] == ws[k]);
                        lemma_found_unique(bs, w, window_key(), k1);
                    },
                    None => {
                        if b.window_index(WindowId(w)) is Some {
                            let j = b.window_index(WindowId(w))->0;
                            let j0 = if j < i { j } else { j + 1 };
                            assert(bs[j] == ws[j0]);
                        }
                    },
                }
            }
        },
        None => {},
    }
}

/// Replacing the tree of output `o` (which has one) by `t` changes the
/// tree found for `o` only.
proof fn lemma_tree_replaced(a: WMState, o: OutputId, t: LayoutTree, b: WMState)
    requires
        a.wf(),
        a.tree_index(o) is Some,
        b.output_trees@ == a.with_tree(o, t),
    ensures
        spec_distinct(b.output_trees@, tree_key()),
        forall|p: OutputId| #[trigger] b.tree_index(p) == a.tree_index(p),
        forall|p: OutputId| #[trigger] b.tree(p) == (if p == o { Some(t) } else { a.tree(p) }),
        forall|k: int| 0 <= k < b.output_trees@.len() ==> #[trigger] b.output_trees@[k] == (if k == a.tree_index(o)->0 {
            (o, t)
        } else {
            a.output_trees@[k]
        }),
{
    lemma_found_at(a.output_trees@, o.0, tree_key());
    let i = a.tree_index(o)->0;
    assert(b.output_trees@.map_values(tree_key()) =~= a.output_trees@.map_values(tree_key()));
    assert forall|p: OutputId| #[trigger] b.tree_index(p) == a.tree_index(p) by {
        lemma_last_index_same_ids(b.output_trees@, a.output_trees@, p.0, tree_key());
    }
    assert forall|x: int, y: int| 0 <= x < y < b.output_trees@.len() implies tree_key()(
        #[trigger] b.output_trees@[x],
    ) != tree_key()(#[trigger] b.output_trees@[y]) by {
        assert(tree_key()(b.output_trees@[x]) == tree_key()(a.output_trees@[x]));
        assert(tree_key()(b.output_trees@[y]) == tree_key()(a.output_trees@[y]));
    }
    assert forall|p: OutputId| #[trigger] b.tree(p) == (if p == o { Some(t) } else { a.tree(p) }) by {
        lemma_found_at(a.output_trees@, p.0, tree_key());
        assert(b.tree_index(p) == a.tree_index(p));
        if p != o && a.tree_index(p) is Some {
            assert(a.tree_index(p)->0 != i);
        }
    }
}


/// After window `id`'s removal (`mid`, see
/// [`WMState::spec_close_removed`]) every tree still focuses one of its
/// own windows, and the tree of the closed window's output is what it
/// became.
proof fn lemma_close_removed_trees(s: WMState, id: WindowId, mid: WMState)
    requires
        s.wf(),
        spec_focus_consistent(s),
        s.window(id) matches Some(x) ==> (s.tree(x.output_id) matches Some(t) ==> spec_removal_keeps_others(
            t,
            id.0,
        )),
        s.spec_close_removed(id, mid),
    ensures
        spec_distinct(mid.output_trees@, tree_key()),
        forall|i: int| 0 <= i < mid.output_trees@.len() ==> spec_tree_focus_inside(#[trigger] mid.output_trees@[i].1),
        forall|p: OutputId| #[trigger] mid.tree_index(p) == s.tree_index(p),
        forall|p: OutputId| #[trigger] mid.tree(p) == (match s.window(id) {
            Some(x) => if p == x.output_id && s.tree(p) is Some {
                Some(s.tree(p)->0.after_remove(id.0).0)
            } else {
                s.tree(p)
            },
            None => s.tree(p),
        }),
{
    match s.window(id) {
        Some(x) => match s.tree(x.output_id) {
            Some(t) => {
                let o = x.output_id;
                let u = t.after_remove(id.0).0;
                lemma_tree_replaced(s, o, u, mid);
                lemma_found_at(s.output_trees@, o.0, tree_key());
                let ti = s.tree_index(o)->0;
                assert(s.output_trees@[ti].1 == t);
                law_remove_window(t, id.0);
                assert(spec_removal_keeps_others(t, id.0));
                assert(spec_tree_focus_inside(s.output_trees@[ti].1));
                assert(spec_tree_focus_inside(u)) by {
                    if u.focused is Some {
                        let g = u.focused->0;
                        if t.focused != Some(id.0) {
                            match t.root {
                                Some(r) => {
                                    let (m, out) = crate::layout::spec_remove(*r, id.0);
                                    match out {
                                        crate::layout::RemoveOutcome::LeafRemoved => {},
                                        _ => {
                                            assert(t.focused == Some(g));
                                            assert(t.has_window(g));
                                        },
                                    }
                                },
                                None => {},
                            }
                        }
                    }
                }
                assert forall|i: int| 0 <= i < mid.output_trees@.len() implies spec_tree_focus_inside(
                    #[trigger] mid.output_trees@[i].1,
                ) by {
                    if i != ti {
                        assert(mid.output_trees@[i] == s.output_trees@[i]);
                    }
                }
            },
            None => {
                assert(mid.output_trees@ == s.output_trees@);
            },
        },
        None => {
            assert(mid.output_trees@ == s.output_trees@);
        },
    }
}

/// Closing a window keeps the focus in step (see [`spec_focus_consistent`]):
/// the focused window stays the focus of its own output's tree, that
/// output stays the focused output, and every tree keeps focusing one of
/// its own windows. Taken from a state whose focus is fresh and in step,
/// whose trees agree with the window records, and in which removing the
/// closed window from its tree loses no other window (as when that tree
/// holds tiled windows only, with its tiling flags up to date: see
/// [`crate::tree_laws::law_remove_window_keeps_others`]).
pub proof fn law_close_keeps_focus_consistent(s: WMState, id: WindowId, new: WMState)
    requires
        s.wf(),
        spec_focus_fresh(s),
        spec_focus_consistent(s),
        spec_trees_agree(s),
        s.window(id) matches Some(x) ==> (s.tree(x.output_id) matches Some(t) ==> spec_removal_keeps_others(
            t,
            id.0,
        )),
        s.spec_closed(id, new),
    ensures
        spec_focus_consistent(new),
{
    let mid = choose|mid: WMState| #[trigger] s.spec_close_removed(id, mid) && {
        if s.focus.focused_window == Some(id.0) {
            let lf = s.spec_layout_focus_after_close(id);
            let ff = mid.focus.focused_window;
            let next = crate::focus::spec_next_focus(
                lf,
                lf is Some && mid.window(WindowId(lf->0)) is Some,
                ff,
                ff is Some && mid.window(WindowId(ff->0)) is Some,
            );
            let mid2 = WMState { pending_split: None, ..mid };
            match next {
                Some(nf) => mid2.spec_focused(WindowId(nf), new),
                None => new == (WMState {
                    focus: crate::focus::FocusState { pending_focus: mid.focus.focused_window, ..mid.focus },
                    ..mid2
                }),
            }
        } else {
            new == mid
        }
    };
    lemma_window_dropped(s, id, mid);
    lemma_close_removed_trees(s, id, mid);
    if s.focus.focused_window != Some(id.0) {
        assert(new == mid);
        if s.focus.focused_window is Some {
            let f = s.focus.focused_window->0;
            assert(mid.window(WindowId(f)) == s.window(WindowId(f)));
        }
        if s.focused_output is Some {
            let o = s.focused_output->0;
            match s.window(id) {
                Some(x) => {
                    if o == x.output_id && s.tree(o) is Some {
                        let t = s.tree(o)->0;
                        lemma_found_at(s.output_trees@, o.0, tree_key());
                        assert(s.output_trees@[s.tree_index(o)->0].1.wf());
                        assert(spec_removal_keeps_others(t, id.0));
                        assert(spec_tree_focus_inside(s.output_trees@[s.tree_index(o)->0].1));
                        let u = t.after_remove(id.0).0;
                        if t.focused is Some {
                            let g = t.focused->0;
                            assert(t.has_window(g));
                            assert(u.has_window(g));
                        }
                        assert(u.focused == t.focused);
                    }
                },
                None => {},
            }
        }
    } else {
        let x = s.window(id)->0;
        let o = x.output_id;
        assert(s.focused_output == Some(o));
        let t = s.tree(o)->0;
        assert(t.has_window(id.0));
        assert(t.focused == Some(id.0));
        let u = t.after_remove(id.0).0;
        lemma_found_at(s.output_trees@, o.0, tree_key());
        let ti = s.tree_index(o)->0;
        assert(s.output_trees@[ti].1.wf());
        law_remove_window(t, id.0);
        assert(spec_removal_keeps_others(t, id.0));
        assert(mid.tree(o) == Some(u));
        assert(s.output_trees@[ti].0 == o);
        let lf = s.spec_layout_focus_after_close(id);
        assert(lf == u.focused);
        let ff = mid.focus.focused_window;
        let stack = mid.focus.stack@;
        assert(stack == crate::focus::spec_without(s.focus.stack@, id.0));
        if ff is Some {
            assert(stack.len() > 0 && ff == Some(stack[0]));
            lemma_without_contains(s.focus.stack@, id.0, stack[0]);
            assert(stack.contains(stack[0]));
            let j = choose|j: int| 0 <= j < s.focus.stack@.len() && s.focus.stack@[j] == stack[0];
            assert(spec_known(s, s.focus.stack@[j]));
            assert(mid.window(WindowId(stack[0])) == s.window(WindowId(stack[0])));
        }
        if lf is Some {
            let g = lf->0;
            assert(u.has_window(g));
            assert(t.has_window(g));
            assert(s.output_trees@[ti].1.has_window(g));
            assert(g != id.0);
            assert(mid.window(WindowId(g)) == s.window(WindowId(g)));
            assert(s.window(WindowId(g))->0.output_id == o);
        }
        let next = crate::focus::spec_next_focus(
            lf,
            lf is Some && mid.window(WindowId(lf->0)) is Some,
            ff,
            ff is Some && mid.window(WindowId(ff->0)) is Some,
        );
        let mid2 = WMState { pending_split: None, ..mid };
        match next {
            Some(nf) => {
                assert(mid2.spec_focused(WindowId(nf), new));
                assert(nf != id.0);
                let w = mid.window(WindowId(nf))->0;
                assert(w == s.window(WindowId(nf))->0);
                let out = w.output_id;
                assert(s.output(out) is Some);
                assert(s.tree(out) is Some && s.tree(out)->0.has_window(nf));
                let t2 = mid.tree(out)->0;
                assert(t2.has_window(nf)) by {
                    if out == o {
                        assert(t2 == u);
                    }
                }
                assert(mid2.wf()) by {
                    assert forall|k: int| 0 <= k < mid2.output_trees@.len() implies (
                    #[trigger] mid2.output_trees@[k]).1.wf() by {
                        assert(mid.output_trees@[k] == mid2.output_trees@[k]);
                        if k == ti {
                            assert(mid.output_trees@[k].1 == u);
                        } else {
                            assert(mid.output_trees@[k] == s.output_trees@[k]);
                        }
                    }
                }
                lemma_focused_consistent(mid2, nf, new);
            },
            None => {
                assert(lf is None);
                assert(ff is None);
                assert(new.focus.focused_window is None);
                assert(new.focused_output == Some(o));
                assert(new.output_trees == mid.output_trees);
                assert(new.tree(o) == Some(u));
            },
        }
    }
}


/// Focusing a known window that lies in the tree of its output, a known
/// output, puts the focus in step (see [`spec_focus_consistent`]) when every
/// tree focused one of its own windows.
proof fn lemma_focused_consistent(a: WMState, nf: u32, new: WMState)
    requires
        a.wf(),
        forall|i: int| 0 <= i < a.output_trees@.len() ==> spec_tree_focus_inside(#[trigger] a.output_trees@[i].1),
        a.spec_focused(WindowId(nf), new),
        a.window(WindowId(nf)) matches Some(w) && a.output(w.output_id) is Some && (a.tree(
            w.output_id,
        ) matches Some(t) && t.has_window(nf)),
    ensures
        spec_focus_consistent(new),
{
    let w = a.window(WindowId(nf))->0;
    let out = w.output_id;
    let t2 = a.tree(out)->0;
    assert(a.spec_trees_ensured(out) == a.output_trees@);
    lemma_found_at(a.output_trees@, out.0, tree_key());
    let i2 = a.tree_index(out)->0;
    assert(a.output_trees@[i2].1 == t2);
    let t3 = LayoutTree { focused: Some(nf), ..t2 };
    assert(new.output_trees@ == a.with_tree(out, t3));
    lemma_tree_replaced(a, out, t3, new);
    assert(new.window(WindowId(nf)) == a.window(WindowId(nf)));
    assert forall|k: int| 0 <= k < new.output_trees@.len() implies spec_tree_focus_inside(
        #[trigger] new.output_trees@[k].1,
    ) by {
        if k != i2 {
            assert(new.output_trees@[k] == a.output_trees@[k]);
        } else {
            assert(t3.has_window(nf));
        }
    }
}

/// Every event but the creation and the removal of an output keeps the
/// focus in step (see
/// [`spec_focus_consistent`]; for a closed window see
/// [`law_close_keeps_focus_consistent`]; creation and interaction focus the
/// window, see [`WMState::spec_window_created`] and
/// [`WMState::spec_focused`]), from a state whose focus is fresh and in
/// step and whose trees agree with the window records, when a created
/// window is new and removing a closed window from its tree loses no other
/// window.
pub proof fn law_events_keep_focus_consistent(s: WMState, event: Event, new: WMState)
    requires
        s.wf(),
        spec_focus_fresh(s),
        spec_focus_consistent(s),
        spec_trees_agree(s),
        !(event is OutputCreated || event is OutputRemoved),
        event matches Event::WindowCreated { window_id, target_output } ==> s.window(window_id) is None,
        event matches Event::WindowClosed { window_id } ==> (s.window(window_id) matches Some(x) ==> (s.tree(
            x.output_id,
        ) matches Some(t) ==> spec_removal_keeps_others(t, window_id.0))),
        s.spec_handled(event, new),
    ensures
        spec_focus_consistent(new),
{
    match event {
        Event::WindowClosed { window_id } => {
            let mid = choose|mid: WMState| #[trigger] s.spec_closed(window_id, mid) && mid.spec_ops_cancelled(
                window_id,
                new,
            );
            law_close_keeps_focus_consistent(s, window_id, mid);
            assert(new.focus == mid.focus && new.focused_output == mid.focused_output);
            assert(new.windows == mid.windows && new.output_trees == mid.output_trees);
        },
        Event::WindowCreated { window_id, target_output } => {
            lemma_created_consistent(s, window_id, target_output, new);
        },
        Event::WindowInteraction { window_id } => {
            if s.focus.focused_window != Some(window_id.0) && s.window(window_id) is Some {
                lemma_focused_consistent(s, window_id.0, new);
            }
        },
        Event::DimensionsHint { window_id, min_w, min_h, max_w, max_h } => {
            lemma_window_changed_consistent(
                s,
                window_id,
                |w: Window|
                    Window {
                        dimensions_hint: crate::window::DimensionsHint {
                            min_width: min_w,
                            min_height: min_h,
                            max_width: max_w,
                            max_height: max_h,
                        },
                        ..w
                    },
                new,
            );
        },
        Event::ParentUpdated { window_id, parent_id } => {
            lemma_window_changed_consistent(s, window_id, |w: Window| Window { parent: parent_id, ..w }, new);
        },
        Event::DecorationHintUpdated { window_id, hint } => {
            lemma_window_changed_consistent(
                s,
                window_id,
                |w: Window| Window { decoration_hint: Some(hint), ..w },
                new,
            );
        },
        Event::PidUpdated { window_id, pid } => {
            lemma_window_changed_consistent(s, window_id, |w: Window| Window { pid: pid as i32, ..w }, new);
        },
        Event::AppIdUpdated { window_id, app_id } => {
            let mid = choose|mid: WMState| #[trigger] s.spec_app_id_stored(window_id, app_id, mid)
                && mid.spec_rules_evaluated(window_id, new);
            let f = |w: Window| Window { app_id, ..w };
            lemma_window_changed_consistent(s, window_id, f, mid);
            lemma_rules_consistent(mid, window_id, new);
        },
        Event::TitleUpdated { window_id, title } => {
            let mid = choose|mid: WMState| #[trigger] s.spec_title_stored(window_id, title, mid)
                && mid.spec_rules_evaluated(window_id, new);
            let f = |w: Window| Window { title, ..w };
            lemma_window_changed_consistent(s, window_id, f, mid);
            lemma_rules_consistent(mid, window_id, new);
        },
        Event::OutputDimensionsUpdated { output_id, w, h } => {
            lemma_output_dimensions_consistent(s, output_id, w, h, new);
        },
        Event::FullscreenRequested { window_id } => {
            lemma_fullscreen_consistent(s, window_id, new);
        },
        Event::ExitFullscreenRequested { window_id } => {
            lemma_fullscreen_consistent(s, window_id, new);
        },
        Event::OpDelta { seat_id, dx, dy } => {
            if new != s {
                lemma_found_at(s.seats@, seat_id.0, seat_key());
            }
        },
        _ => {},
    }
    assert(spec_focus_consistent(new));
}

/// Changing window `id`'s record by `f`, which keeps its identifier and
/// output, keeps the focus in step.
proof fn lemma_window_changed_consistent(s: WMState, id: WindowId, f: spec_fn(Window) -> Window, new: WMState)
    requires
        s.wf(),
        spec_focus_consistent(s),
        forall|w: Window| #![trigger f(w)] f(w).output_id == w.output_id && f(w).id == w.id,
        s.spec_window_changed(id, f, new),
    ensures
        new.wf(),
        spec_focus_consistent(new),
{
    if s.window(id) is Some {
        let w = s.window(id)->0;
        lemma_found_at(s.windows@, id.0, window_key());
        let i = s.window_index(id)->0;
        assert(f(w).id == w.id);
        assert(new.windows@ == s.windows@.update(i, f(w)));
        assert(new.windows@.map_values(window_key()) =~= s.windows@.map_values(window_key()));
        assert forall|a: int, b: int| 0 <= a < b < new.windows@.len() implies window_key()(#[trigger] new.windows@[a])
            != window_key()(#[trigger] new.windows@[b]) by {
            assert(new.windows@.map_values(window_key())[a] == s.windows@.map_values(window_key())[a]);
            assert(new.windows@.map_values(window_key())[b] == s.windows@.map_values(window_key())[b]);
        }
        if s.focus.focused_window is Some {
            let x = s.focus.focused_window->0;
            lemma_last_index_same_ids(new.windows@, s.windows@, x, window_key());
            lemma_found_at(s.windows@, x, window_key());
            let j = s.window_index(WindowId(x))->0;
            assert(new.window(WindowId(x))->0.output_id == s.window(WindowId(x))->0.output_id) by {
                if j == i {
                    assert(new.windows@[j] == f(w));
                } else {
                    assert(new.windows@[j] == s.windows@[j]);
                }
            }
        }
    }
}

/// Toggling a window's fullscreen state keeps the focus in step: the
/// trees keep their windows and their foci.
proof fn lemma_fullscreen_consistent(s: WMState, id: WindowId, new: WMState)
    requires
        s.wf(),
        spec_focus_consistent(s),
        s.spec_fullscreen_toggled(id, new),
    ensures
        spec_focus_consistent(new),
{
    if s.window(id) is Some && s.output_index(s.window(id)->0.output_id) is Some {
        let o = s.window(id)->0.output_id;
        let ts = s.spec_trees_ensured(o);
        lemma_found_at(s.output_trees@, o.0, tree_key());
        match s.tree_index(o) {
            Some(ti) => {
                let t = s.output_trees@[ti].1;
                assert(t.wf());
                assert(ts == s.output_trees@);
                let t2 = t.after_toggle_fullscreen(id.0).0;
                if t.state_of(id.0) is Some {
                    crate::tree::lemma_after_set_state(
                        t,
                        id.0,
                        crate::tree::spec_toggled_fullscreen(t.state_of(id.0)->0),
                    );
                }
                assert(t2.focused == t.focused);
                assert(forall|y: u32| #[trigger] t2.has_window(y) == t.has_window(y));
                assert(new.output_trees@ == s.with_tree(o, t2));
                lemma_tree_replaced(s, o, t2, new);
                assert(spec_tree_focus_inside(s.output_trees@[ti].1));
                assert forall|k: int| 0 <= k < new.output_trees@.len() implies spec_tree_focus_inside(
                    #[trigger] new.output_trees@[k].1,
                ) by {
                    if k != ti {
                        assert(new.output_trees@[k] == s.output_trees@[k]);
                    }
                }
            },
            None => {
                let nt = s.spec_new_tree(o);
                let n = s.output_trees@.len();
                assert(ts == s.output_trees@.push((o, nt)));
                assert(nt.state_of(id.0) is None);
                assert(new.output_trees@ == s.output_trees@.push((o, nt)));
                assert(new.output_trees@.drop_last() == s.output_trees@);
                assert forall|p: OutputId| #[trigger] new.tree(p) == (if p == o { Some(nt) } else { s.tree(p) }) by {
                    if p != o {
                        assert(p.0 != o.0);
                        assert(new.tree_index(p) == s.tree_index(p));
                        lemma_found_at(s.output_trees@, p.0, tree_key());
                        if s.tree_index(p) is Some {
                            assert(new.output_trees@[s.tree_index(p)->0] == s.output_trees@[s.tree_index(p)->0]);
                        }
                    }
                }
                assert forall|k: int| 0 <= k < new.output_trees@.len() implies spec_tree_focus_inside(
                    #[trigger] new.output_trees@[k].1,
                ) by {
                    if k < n {
                        assert(new.output_trees@[k] == s.output_trees@[k]);
                    }
                }
            },
        }
    }
}

/// Creating a new window keeps the focus in step: the new window, inserted
/// into its output's tree, is focused there and everywhere.
proof fn lemma_created_consistent(s: WMState, id: WindowId, out: OutputId, new: WMState)
    requires
        s.wf(),
        spec_focus_consistent(s),
        spec_trees_agree(s),
        s.window(id) is None,
        s.spec_window_created(id, out, new),
    ensures
        spec_focus_consistent(new),
{
    let w = crate::wm::spec_new_window(id, out);
    let ts = s.spec_trees_ensured(out);
    lemma_found_at(s.windows@, id.0, window_key());
    assert(new.windows@ == s.windows@.push(w));
    assert(new.windows@.drop_last() == s.windows@);
    assert(new.window(id) == Some(w));
    lemma_found_at(s.output_trees@, out.0, tree_key());
    match s.tree_index(out) {
        Some(ti) => {
            let t = s.output_trees@[ti].1;
            assert(t.wf());
            assert(!t.has_window(id.0)) by {
                if t.has_window(id.0) {
                    assert(s.output_trees@[ti].1.has_window(id.0));
                }
            }
            assert(spec_tree_focus_inside(s.output_trees@[ti].1));
            law_insert_window(t, id.0);
            let u = t.after_insert(id.0).0;
            assert(ts == s.output_trees@);
            assert(new.output_trees@ == s.with_tree(out, u));
            lemma_tree_replaced(s, out, u, new);
            assert forall|k: int| 0 <= k < new.output_trees@.len() implies spec_tree_focus_inside(
                #[trigger] new.output_trees@[k].1,
            ) by {
                if k != ti {
                    assert(new.output_trees@[k] == s.output_trees@[k]);
                }
            }
        },
        None => {
            let nt = s.spec_new_tree(out);
            assert(nt.wf());
            law_insert_window(nt, id.0);
            let u = nt.after_insert(id.0).0;
            let n = s.output_trees@.len();
            assert(ts == s.output_trees@.push((out, nt)));
            assert(new.output_trees@ == s.output_trees@.push((out, u)));
            assert(new.output_trees@.drop_last() == s.output_trees@);
            assert(new.tree(out) == Some(u));
            assert forall|k: int| 0 <= k < new.output_trees@.len() implies spec_tree_focus_inside(
                #[trigger] new.output_trees@[k].1,
            ) by {
                if k < n {
                    assert(new.output_trees@[k] == s.output_trees@[k]);
                }
            }
        },
    }
}


/// What a focus move makes of a tree `t` (`r`, the tree and whether it
/// moved): the same windows, in a well-formed tree that still focuses one
/// of its own windows when `t` did; the focus changes only to a window,
/// on a move.
pub open spec fn spec_focus_move_ok(t: LayoutTree, r: (LayoutTree, bool)) -> bool {
    &&& r.0.wf()
    &&& forall|y: u32| #[trigger] r.0.has_window(y) == t.has_window(y)
    &&& (spec_tree_focus_inside(t) ==> spec_tree_focus_inside(r.0))
    &&& ((r.1 && r.0.focused is Some) || r.0.focused == t.focused)
}

/// A directional focus move is a focus move (see [`spec_focus_move_ok`]).
proof fn lemma_direction_move_ok(t: LayoutTree, direction: crate::geometry::FocusDirection)
    requires
        t.wf(),
    ensures
        spec_focus_move_ok(t, t.after_focus_direction(direction)),
{
    crate::tree::lemma_arranged_keeps(t);
    let a = t.arranged();
    let r = t.after_focus_direction(direction);
    assert(a.wf());
    if let Some(f) = a.focused {
        crate::tree::lemma_best_target_is_window(a, f, direction);
        if let Some(w) = a.best_target(f, direction) {
            assert(r.0 == LayoutTree { focused: Some(w), ..a });
            assert(r.0.has_window(w));
            assert(r.0.wf());
            assert(forall|y: u32| #[trigger] r.0.has_window(y) == a.has_window(y));
        } else {
            assert(r.0 == a);
        }
    } else {
        assert(r.0 == a);
    }
    assert(r.0.wf());
    assert(forall|y: u32| #[trigger] r.0.has_window(y) == t.has_window(y));
    assert(spec_tree_focus_inside(t) ==> spec_tree_focus_inside(r.0));
}

/// A step to the next or previous window is a focus move (see
/// [`spec_focus_move_ok`]).
proof fn lemma_step_move_ok(t: LayoutTree, forward: bool)
    requires
        t.wf(),
    ensures
        spec_focus_move_ok(t, t.after_focus_step(forward)),
{
    crate::tree::lemma_tree_windows(t);
    let ws = t.windows();
    if ws.len() > 0 {
        let i = crate::tree::spec_focus_index(ws, t.focused);
        let n = ws.len() as int;
        let k = if forward { (i + 1) % n } else { (i + n - 1) % n };
        assert(0 <= k < n) by {
            vstd::arithmetic::div_mod::lemma_mod_bound(if forward { i + 1 } else { i + n - 1 }, n);
        }
        assert(ws.contains(ws[k]));
    }
}

/// A focus move in the focused tree keeps the focus in step, when the
/// focused output is a known output.
proof fn lemma_focus_moved_consistent(
    s: WMState,
    step: spec_fn(LayoutTree) -> (LayoutTree, bool),
    new: WMState,
)
    requires
        s.wf(),
        spec_focus_consistent(s),
        spec_trees_agree(s),
        s.focused_output matches Some(o) && s.output(o) is Some,
        forall|t: LayoutTree| t.wf() ==> spec_focus_move_ok(t, #[trigger] step(t)),
        s.spec_focus_moved(step, new),
    ensures
        spec_focus_consistent(new),
{
    let o = s.focused_output->0;
    assert(s.spec_focus_repaired() == s);
    let (s1, r) = choose|s1: WMState, r: Option<usize>|
        #[trigger] s.spec_focused_tree(s1, r) && match r {
            None => new == s1,
            Some(ti) => {
                let (t2, moved) = step(s1.output_trees@[ti as int].1);
                exists|s2: WMState|
                    #[trigger] s1.spec_tree_replaced(ti, t2, s2) && if moved && t2.focused is Some {
                        s2.spec_focused(WindowId(t2.focused->0), new)
                    } else {
                        new == s2
                    }
            },
        };
    let i = r->0 as int;
    lemma_found_at(s.output_trees@, o.0, tree_key());
    let n = s.output_trees@.len();
    let existed = s.tree_index(o) is Some;
    assert(s1.wf() && s1.output_trees@[i].0 == o && (existed ==> s1.output_trees@[i] == s.output_trees@[i])
        && forall|k: int| 0 <= k < n ==> #[trigger] s1.output_trees@[k] == s.output_trees@[k]) by {
        if !existed {
            let nt = s.spec_new_tree(o);
            assert(s1.output_trees@ == s.output_trees@.push((o, nt)));
            assert(s1.output_trees@.drop_last() == s.output_trees@);
            assert(s1.tree_index(o) == Some(n as int));
            assert(nt.wf());
            assert forall|a: int, b: int| 0 <= a < b < s1.output_trees@.len() implies tree_key()(
                #[trigger] s1.output_trees@[a],
            ) != tree_key()(#[trigger] s1.output_trees@[b]) by {
                if b == n {
                    assert(tree_key()(s.output_trees@[a]) != o.0);
                }
            }
            assert forall|k: int| 0 <= k < s1.output_trees@.len() implies (#[trigger] s1.output_trees@[k]).1.wf() by {
                if k < n {
                    assert(s1.output_trees@[k] == s.output_trees@[k]);
                }
            }
        } else {
            assert(s1.output_trees@ == s.output_trees@);
        }
    }
    let t = s1.output_trees@[i].1;
    assert(t.wf());
    let (t2, moved) = step(t);
    assert(spec_focus_move_ok(t, step(t)));
    let s2 = choose|s2: WMState| #[trigger] s1.spec_tree_replaced(r->0, t2, s2) && if moved && t2.focused is Some {
        s2.spec_focused(WindowId(t2.focused->0), new)
    } else {
        new == s2
    };
    assert(s1.tree_index(o) == Some(i));
    assert(s2.output_trees@ == s1.with_tree(o, t2));
    lemma_tree_replaced(s1, o, t2, s2);
    assert(spec_tree_focus_inside(t)) by {
        if existed {
            assert(spec_tree_focus_inside(s.output_trees@[i].1));
        } else {
            assert(t.root is None);
        }
    }
    assert forall|k: int| 0 <= k < s2.output_trees@.len() implies spec_tree_focus_inside(
        #[trigger] s2.output_trees@[k].1,
    ) by {
        if k != i {
            assert(s2.output_trees@[k] == s1.output_trees@[k]);
            assert(s1.output_trees@[k] == s.output_trees@[k]);
        }
    }
    if moved && t2.focused is Some {
        let g = t2.focused->0;
        assert(t.has_window(g));
        assert(existed) by {
            if !existed {
                assert(t.root is None);
            }
        }
        assert(s.output_trees@[i].1.has_window(g));
        let w = s.window(WindowId(g))->0;
        assert(w.output_id == o);
        assert(s2.window(WindowId(g)) == s.window(WindowId(g)));
        assert(s2.wf()) by {
            assert forall|k: int| 0 <= k < s2.output_trees@.len() implies (#[trigger] s2.output_trees@[k]).1.wf() by {
                if k != i {
                    assert(s2.output_trees@[k] == s1.output_trees@[k]);
                }
            }
        }
        lemma_focused_consistent(s2, g, new);
    } else {
        assert(new == s2);
        assert(t2.focused == t.focused);
        if !existed {
            assert(s.tree(o) is None);
            assert(s.focus.focused_window is None);
            assert(t.focused is None);
        } else {
            assert(s.tree(o) == Some(t));
        }
        if s.focus.focused_window is Some {
            assert(new.window(WindowId(s.focus.focused_window->0)) == s.window(WindowId(s.focus.focused_window->0)));
        }
    }
}

/// The focus commands (next, previous and the four directions) keep the
/// focus in step (see [`spec_focus_consistent`]), from a state whose focus is
/// in step, whose trees agree with the window records, and whose focused
/// output is a known output.
pub proof fn law_focus_commands_keep_focus_consistent(s: WMState, command: crate::command::Command, new: WMState)
    requires
        s.wf(),
        spec_focus_consistent(s),
        spec_trees_agree(s),
        s.focused_output matches Some(o) && s.output(o) is Some,
        command is FocusNext || command is FocusPrevious || command is FocusUp || command is FocusDown
            || command is FocusLeft || command is FocusRight,
        match command {
            crate::command::Command::FocusNext => s.spec_focus_moved(|t: LayoutTree| t.after_focus_step(true), new),
            crate::command::Command::FocusPrevious => s.spec_focus_moved(|t: LayoutTree| t.after_focus_step(false), new),
            crate::command::Command::FocusUp => s.spec_focus_moved(
                |t: LayoutTree| t.after_focus_direction(crate::geometry::FocusDirection::Up),
                new,
            ),
            crate::command::Command::FocusDown => s.spec_focus_moved(
                |t: LayoutTree| t.after_focus_direction(crate::geometry::FocusDirection::Down),
                new,
            ),
            crate::command::Command::FocusLeft => s.spec_focus_moved(
                |t: LayoutTree| t.after_focus_direction(crate::geometry::FocusDirection::Left),
                new,
            ),
            crate::command::Command::FocusRight => s.spec_focus_moved(
                |t: LayoutTree| t.after_focus_direction(crate::geometry::FocusDirection::Right),
                new,
            ),
            _ => true,
        },
    ensures
        spec_focus_consistent(new),
{
    match command {
        crate::command::Command::FocusNext | crate::command::Command::FocusPrevious => {
            let forward = command is FocusNext;
            let step = |t: LayoutTree| t.after_focus_step(forward);
            assert forall|t: LayoutTree| t.wf() implies spec_focus_move_ok(t, #[trigger] step(t)) by {
                lemma_step_move_ok(t, forward);
            }
            lemma_focus_moved_consistent(s, step, new);
        },
        _ => {
            let direction = match command {
                crate::command::Command::FocusUp => crate::geometry::FocusDirection::Up,
                crate::command::Command::FocusDown => crate::geometry::FocusDirection::Down,
                crate::command::Command::FocusLeft => crate::geometry::FocusDirection::Left,
                _ => crate::geometry::FocusDirection::Right,
            };
            let step = |t: LayoutTree| t.after_focus_direction(direction);
            assert forall|t: LayoutTree| t.wf() implies spec_focus_move_ok(t, #[trigger] step(t)) by {
                lemma_direction_move_ok(t, direction);
            }
            lemma_focus_moved_consistent(s, step, new);
        },
    }
}


/// Replacing window `id`'s record by one with the same identifier and
/// output, and the tree of that output (which has one) by `t2` with the
/// same windows and focus, keeps the state well formed and the focus in
/// step.
proof fn lemma_window_and_tree_replaced(s: WMState, id: WindowId, w2: Window, t2: LayoutTree, new: WMState)
    requires
        s.wf(),
        spec_focus_consistent(s),
        s.window(id) matches Some(w) && w2.id == w.id && w2.output_id == w.output_id && (s.tree(
            w.output_id,
        ) matches Some(t) && t.focused == t2.focused && t2.wf() && forall|y: u32| #[trigger] t2.has_window(y) == t.has_window(y)),
        new == (WMState { windows: new.windows, output_trees: new.output_trees, manage_requested: new.manage_requested, ..s }),
        new.windows@ == s.with_window(id, w2),
        new.output_trees@ == s.with_tree(s.window(id)->0.output_id, t2),
    ensures
        new.wf(),
        spec_focus_consistent(new),
{
    let w = s.window(id)->0;
    let o = w.output_id;
    let t = s.tree(o)->0;
    lemma_found_at(s.windows@, id.0, window_key());
    let i = s.window_index(id)->0;
    assert(new.windows@ == s.windows@.update(i, w2));
    assert(new.windows@.map_values(window_key()) =~= s.windows@.map_values(window_key()));
    assert forall|a: int, b: int| 0 <= a < b < new.windows@.len() implies window_key()(#[trigger] new.windows@[a])
        != window_key()(#[trigger] new.windows@[b]) by {
        assert(new.windows@.map_values(window_key())[a] == s.windows@.map_values(window_key())[a]);
        assert(new.windows@.map_values(window_key())[b] == s.windows@.map_values(window_key())[b]);
    }
    lemma_found_at(s.output_trees@, o.0, tree_key());
    let ti = s.tree_index(o)->0;
    assert(s.output_trees@[ti].1 == t);
    lemma_tree_replaced(s, o, t2, new);
    assert forall|k: int| 0 <= k < new.output_trees@.len() implies (#[trigger] new.output_trees@[k]).1.wf()
        && spec_tree_focus_inside(new.output_trees@[k].1) by {
        if k != ti {
            assert(new.output_trees@[k] == s.output_trees@[k]);
        } else {
            assert(spec_tree_focus_inside(s.output_trees@[ti].1));
        }
    }
    if s.focus.focused_window is Some {
        let x = s.focus.focused_window->0;
        lemma_last_index_same_ids(new.windows@, s.windows@, x, window_key());
        lemma_found_at(s.windows@, x, window_key());
        let j = s.window_index(WindowId(x))->0;
        assert(new.window(WindowId(x))->0.output_id == s.window(WindowId(x))->0.output_id) by {
            if j == i {
                assert(new.windows@[j] == w2);
            } else {
                assert(new.windows@[j] == s.windows@[j]);
            }
        }
    }
}

/// Running the window rules for a window keeps the state well formed and
/// the focus in step: the window keeps its identifier and output, and its
/// tree keeps its windows and its focus.
proof fn lemma_rules_consistent(s: WMState, id: WindowId, new: WMState)
    requires
        s.wf(),
        spec_focus_consistent(s),
        s.spec_rules_evaluated(id, new),
    ensures
        new.wf(),
        spec_focus_consistent(new),
{
    if new != s {
        let w = s.window(id)->0;
        let rules = s.window_rules->0;
        let o = s.output(w.output_id)->0;
        let t = s.tree(w.output_id)->0;
        let rect = o.spec_rect()->0;
        let (w2, t2, changed) = rules.spec_evaluate(w, t, rect, s.float_ratio as int);
        lemma_found_at(s.output_trees@, w.output_id.0, tree_key());
        lemma_found_at(s.windows@, id.0, window_key());
        assert(w.id.0 == id.0);
        assert(t.wf());
        if !w.rules_applied {
            let app_id = crate::schema::opt_string_view(w.app_id);
            let title = crate::schema::opt_string_view(w.title);
            let pseudo = w.spec_pseudo_tiled_rect(rect, s.float_ratio as int);
            crate::window_rules::lemma_apply_rules_keeps(rules.rules@, app_id, title, pseudo, t, id.0);
            let t1 = crate::window_rules::spec_apply_rules(rules.rules@, app_id, title, pseudo, t, id.0).0;
            let before = t.state_of(id.0);
            match t1.state_of(id.0) {
                Some(crate::geometry::WindowState::Fullscreen { restore }) => {
                    if before matches Some(crate::geometry::WindowState::Fullscreen { .. }) {
                        crate::tree::lemma_after_set_state(t1, id.0, crate::geometry::WindowState::Fullscreen { restore });
                    } else {
                        crate::tree::lemma_after_set_state(
                            t1,
                            id.0,
                            crate::geometry::WindowState::Fullscreen {
                                restore: Box::new(
                                    match before {
                                        Some(b) => b,
                                        None => crate::geometry::WindowState::Tiled,
                                    },
                                ),
                            },
                        );
                    }
                },
                _ => {},
            }
        }
        lemma_window_and_tree_replaced(s, id, w2, t2, new);
    }
}

/// Running the window rules along a trace keeps every state of it well
/// formed with its focus in step.
proof fn lemma_rules_trace_consistent(s: WMState, ids: Seq<WindowId>, new: WMState, tr: Seq<WMState>, k: int)
    requires
        s.wf(),
        spec_focus_consistent(s),
        s.spec_rules_trace(ids, new, tr),
        0 <= k <= ids.len(),
    ensures
        tr[k].wf(),
        spec_focus_consistent(tr[k]),
    decreases k,
{
    if k > 0 {
        lemma_rules_trace_consistent(s, ids, new, tr, k - 1);
        let i = k - 1;
        assert(tr[i].spec_rules_evaluated(ids[i], tr[i + 1]));
        lemma_rules_consistent(tr[i], ids[i], tr[i + 1]);
    }
}



/// New dimensions of an output keep the focus in step: the output's
/// record changes, then the window rules run for its windows.
proof fn lemma_output_dimensions_consistent(s: WMState, output_id: OutputId, w: i32, h: i32, new: WMState)
    requires
        s.wf(),
        spec_focus_consistent(s),
        s.spec_output_dimensions_updated(output_id, w, h, new),
    ensures
        spec_focus_consistent(new),
{
            let (sized, tr) = choose|sized: WMState, tr: Seq<WMState>|
                {
                    &&& match s.output(output_id) {
                        Some(o) => {
                            &&& sized == (WMState { outputs: sized.outputs, manage_requested: true, ..s })
                            &&& sized.outputs@ == s.with_output(
                                output_id,
                                crate::output::Output { dimensions: Some(crate::window::Dimensions { width: w, height: h }), ..o },
                            )
                        },
                        None => sized == s,
                    }
                    &&& #[trigger] sized.spec_rules_trace(WMState::spec_windows_on(sized.windows@, output_id), new, tr)
                };
            assert(sized.wf()) by {
                if s.output(output_id) is Some {
                    lemma_found_at(s.outputs@, output_id.0, crate::wm::output_key());
                    let oi = s.output_index(output_id)->0;
                    assert forall|a: int, b: int| 0 <= a < b < sized.outputs@.len() implies crate::wm::output_key()(
                        #[trigger] sized.outputs@[a],
                    ) != crate::wm::output_key()(#[trigger] sized.outputs@[b]) by {
                        assert(crate::wm::output_key()(sized.outputs@[a]) == crate::wm::output_key()(s.outputs@[a]));
                        assert(crate::wm::output_key()(sized.outputs@[b]) == crate::wm::output_key()(s.outputs@[b]));
                    }
                }
            }
            let ids = WMState::spec_windows_on(sized.windows@, output_id);
            lemma_rules_trace_consistent(sized, ids, new, tr, ids.len() as int);
        }

} // verus!
