//! The manage and render sequences: each time the compositor lets the
//! window manager change windows, it brings its state up to date and diffs
//! the scene it wants shown against the scene it last sent, producing only
//! the requests that changed.
//!
//! Which compositor objects exist (a window's handle, its render node, a
//! seat's handle, an output's layer-shell handle) is known only to the
//! caller, who passes the identifiers that have one.
use crate::config::{lemma_last_index_bounds, lemma_last_index_same_ids, spec_last_index_with};
use crate::geometry::{Rect, WindowState};
use crate::output::{Output, OutputId};
use crate::scene::{
    Effect, SceneEntry, manage_effects, spec_manage_effects, spec_render_effects, spec_render_stack_priority, spec_z_above,
};
use crate::seat::{LayerShellFocus, Seat, SeatId};
use crate::tree::{LayoutTree, spec_margin_rect};
use crate::focus::FocusState;
use crate::pointer::spec_op_transition;
use crate::window::{Window, WindowId};
use crate::wm::{WMState, lemma_found_at, lemma_replace_keeps_keys, output_key, seat_key, tree_key, window_key};
use vstd::prelude::*;

verus! {

/// A scene entry's window identifier as a number.
pub open spec fn entry_key() -> spec_fn(SceneEntry) -> u32 {
    |e: SceneEntry| e.window_id.0
}

/// The entry of window `id` in `scene` (the last one, should it occur
/// twice).
pub open spec fn spec_scene_lookup(scene: Seq<SceneEntry>, id: u32) -> Option<SceneEntry> {
    match spec_last_index_with(scene, id, entry_key()) {
        Some(i) => Some(scene[i]),
        None => None,
    }
}

/// Find the entry of window `id` in `scene` (see [`spec_scene_lookup`]).
pub fn scene_lookup(scene: &Vec<SceneEntry>, id: u32) -> (r: Option<&SceneEntry>)
    ensures
        match r {
            Some(e) => spec_scene_lookup(scene@, id) == Some(*e),
            None => spec_scene_lookup(scene@, id) is None,
        },
{
    proof {
        lemma_last_index_bounds(scene@, id, entry_key());
    }
    let mut i = scene.len();
    assert(scene@.take(i as int) =~= scene@);
    while i > 0
        invariant
            i <= scene@.len(),
            spec_last_index_with(scene@, id, entry_key()) == spec_last_index_with(
                scene@.take(i as int),
                id,
                entry_key(),
            ),
        decreases i,
    {
        assert(scene@.take(i as int).drop_last() =~= scene@.take(i - 1));
        if scene[i - 1].window_id.0 == id {
            return Some(&scene[i - 1]);
        }
        i = i - 1;
    }
    None
}

/// The manage-phase requests for the windows of `desired`, in order, each
/// diffed against its entry in the last managed scene `last` (see
/// [`spec_manage_effects`]).
pub open spec fn spec_manage_diff(last: Seq<SceneEntry>, desired: Seq<SceneEntry>) -> Seq<Effect>
    decreases desired.len(),
{
    if desired.len() == 0 {
        Seq::empty()
    } else {
        spec_manage_diff(last, desired.drop_last()) + spec_manage_effects(
            spec_scene_lookup(last, desired.last().window_id.0),
            desired.last(),
        )
    }
}

/// Compute the manage-phase requests of a scene change (see
/// [`spec_manage_diff`]).
pub fn manage_diff(last: &Vec<SceneEntry>, desired: &Vec<SceneEntry>) -> (r: Vec<Effect>)
    ensures
        r@ == spec_manage_diff(last@, desired@),
{
    let mut effects: Vec<Effect> = Vec::new();
    let mut i: usize = 0;
    while i < desired.len()
        invariant
            i <= desired@.len(),
            effects@ == spec_manage_diff(last@, desired@.take(i as int)),
        decreases desired@.len() - i,
    {
        let entry = &desired[i];
        let prev = scene_lookup(last, entry.window_id.0);
        let mut more = manage_effects(prev, entry);
        proof {
            assert(desired@.take(i + 1).drop_last() =~= desired@.take(i as int));
            assert(desired@.take(i + 1).last() == desired@[i as int]);
            assert(match prev {
                Some(l) => Some(*l),
                None => None,
            } == spec_scene_lookup(last@, entry.window_id.0));
        }
        effects.append(&mut more);
        i = i + 1;
    }
    assert(desired@.take(desired@.len() as int) =~= desired@);
    effects
}

/// Where the pending float of `seat` lands, given windows `ws` and trees
/// `ts`: the position of the tree of the window's output, the window and
/// the rect. Nothing lands when the window or its tree is unknown.
pub open spec fn spec_float_target(ws: Seq<Window>, ts: Seq<(OutputId, LayoutTree)>, seat: Seat) -> Option<
    (int, u32, Rect),
> {
    match seat.pending_float {
        Some((wid, rect)) => match spec_last_index_with(ws, wid.0, window_key()) {
            Some(wi) => match spec_last_index_with(ts, ws[wi].output_id.0, tree_key()) {
                Some(ti) => Some((ti, wid.0, rect)),
                None => None,
            },
            None => None,
        },
        None => None,
    }
}

/// The trees `ts` once the pending floats of `seats` are applied in order:
/// each landing float makes its window floating at its rect.
pub open spec fn spec_floated_trees(
    ws: Seq<Window>,
    ts: Seq<(OutputId, LayoutTree)>,
    seats: Seq<(SeatId, Seat)>,
) -> Seq<(OutputId, LayoutTree)>
    decreases seats.len(),
{
    if seats.len() == 0 {
        ts
    } else {
        let tp = spec_floated_trees(ws, ts, seats.drop_last());
        match spec_float_target(ws, tp, seats.last().1) {
            Some((ti, id, rect)) => tp.update(
                ti,
                (tp[ti].0, tp[ti].1.after_set_state(id, WindowState::Floating { rect }).0),
            ),
            None => tp,
        }
    }
}

/// A seat once its pending float has been applied: the float is gone when
/// it landed, and stays otherwise.
pub open spec fn spec_floated_seat(ws: Seq<Window>, ts: Seq<(OutputId, LayoutTree)>, seat: Seat) -> Seat {
    if spec_float_target(ws, ts, seat) is Some {
        Seat { pending_float: None, ..seat }
    } else {
        seat
    }
}

/// A landing float lands on one of the trees.
pub proof fn lemma_float_target_bounds(ws: Seq<Window>, ts: Seq<(OutputId, LayoutTree)>, seat: Seat)
    ensures
        spec_float_target(ws, ts, seat) matches Some((ti, _, _)) ==> 0 <= ti < ts.len(),
{
    match seat.pending_float {
        Some((wid, rect)) => match spec_last_index_with(ws, wid.0, window_key()) {
            Some(wi) => {
                lemma_last_index_bounds(ts, ws[wi].output_id.0, tree_key());
            },
            None => {},
        },
        None => {},
    }
}

/// Applying floats keeps the trees' output identifiers at their positions.
pub proof fn lemma_floated_keys(ws: Seq<Window>, ts: Seq<(OutputId, LayoutTree)>, seats: Seq<(SeatId, Seat)>)
    ensures
        spec_floated_trees(ws, ts, seats).map_values(tree_key()) == ts.map_values(tree_key()),
        spec_floated_trees(ws, ts, seats).len() == ts.len(),
    decreases seats.len(),
{
    if seats.len() > 0 {
        lemma_floated_keys(ws, ts, seats.drop_last());
        let tp = spec_floated_trees(ws, ts, seats.drop_last());
        assert(tp.len() == tp.map_values(tree_key()).len());
        lemma_float_target_bounds(ws, tp, seats.last().1);
        match spec_float_target(ws, tp, seats.last().1) {
            Some((ti, id, rect)) => {
                let x = (tp[ti].0, tp[ti].1.after_set_state(id, WindowState::Floating { rect }).0);
                assert(tp.update(ti, x).map_values(tree_key()) =~= tp.map_values(tree_key()));
            },
            None => {},
        }
    }
}

impl WMState {
    /// Apply the pending floats that seats recorded during pointer drags:
    /// seat by seat, a float whose window and tree are known makes the
    /// window floating at its rect and is consumed.
    pub fn apply_pending_floats(&mut self)
        requires
            old(self).wf(),
        ensures
            final(self).wf(),
            *final(self) == (WMState { output_trees: final(self).output_trees, seats: final(self).seats, ..*old(self) }),
            final(self).output_trees@ == spec_floated_trees(old(self).windows@, old(self).output_trees@, old(self).seats@),
            final(self).seats@.len() == old(self).seats@.len(),
            forall|i: int|
                0 <= i < old(self).seats@.len() ==> #[trigger] final(self).seats@[i] == (
                    old(self).seats@[i].0,
                    spec_floated_seat(old(self).windows@, old(self).output_trees@, old(self).seats@[i].1),
                ),
    {
        let ghost s0 = *self;
        let mut j: usize = 0;
        assert(s0.seats@.take(0) =~= Seq::<(SeatId, Seat)>::empty());
        while j < self.seats.len()
            invariant
                s0.wf(),
                self.wf(),
                j <= self.seats@.len(),
                self.seats@.len() == s0.seats@.len(),
                *self == (WMState { output_trees: self.output_trees, seats: self.seats, ..s0 }),
                self.output_trees@ == spec_floated_trees(s0.windows@, s0.output_trees@, s0.seats@.take(j as int)),
                forall|i: int|
                    0 <= i < j ==> #[trigger] self.seats@[i] == (
                        s0.seats@[i].0,
                        spec_floated_seat(s0.windows@, s0.output_trees@, s0.seats@[i].1),
                    ),
                forall|i: int| j <= i < self.seats@.len() ==> #[trigger] self.seats@[i] == s0.seats@[i],
            decreases self.seats@.len() - j,
        {
            let ghost before = *self;
            proof {
                assert(s0.seats@.take(j + 1).drop_last() =~= s0.seats@.take(j as int));
                assert(s0.seats@.take(j + 1).last() == s0.seats@[j as int]);
                lemma_floated_keys(s0.windows@, s0.output_trees@, s0.seats@.take(j as int));
                lemma_last_index_same_ids(self.output_trees@, s0.output_trees@, 0u32, tree_key());
                assert forall|k: u32| #[trigger] spec_last_index_with(self.output_trees@, k, tree_key())
                    == spec_last_index_with(s0.output_trees@, k, tree_key()) by {
                    lemma_last_index_same_ids(self.output_trees@, s0.output_trees@, k, tree_key());
                }
            }
            let seat = self.seats[j].1;
            match seat.pending_float {
                Some((wid, rect)) => {
                    match self.find_window(wid) {
                        Some(wi) => {
                            let o = self.windows[wi].output_id;
                            match self.find_tree(o) {
                                Some(ti) => {
                                    proof {
                                        lemma_found_at(self.output_trees@, o.0, tree_key());
                                    }
                                    let mut t = self.swap_tree(ti, Self::placeholder_tree());
                                    let _ = t.set_window_state(wid.0, WindowState::Floating { rect });
                                    let _ = self.swap_tree(ti, t);
                                    proof {
                                        assert(self.output_trees@ =~= before.output_trees@.update(
                                            ti as int,
                                            (before.output_trees@[ti as int].0, t),
                                        ));
                                    }
                                    self.replace_seat(j, Seat { pending_float: None, ..seat });
                                },
                                None => {},
                            }
                        },
                        None => {},
                    }
                },
                None => {},
            }
            j = j + 1;
        }
        assert(s0.seats@.take(s0.seats@.len() as int) =~= s0.seats@);
    }
}

/// Tree `t` of output `out` made ready for a manage sequence: sized to the
/// output's tiling area when the output has one, then arranged.
pub open spec fn spec_synced_tree(out: Output, t: LayoutTree) -> LayoutTree {
    let sized = match out.spec_tiling_rect() {
        Some(r) => (LayoutTree { raw_output_rect: r, output_rect: spec_margin_rect(r, t.layout_config), ..t }).arranged(),
        None => t,
    };
    sized.arranged()
}

/// Trees `ts` with the tree of every output known in `outs` synced (see
/// [`spec_synced_tree`]); trees of unknown outputs stay as they are.
pub open spec fn spec_synced_trees(outs: Seq<Output>, ts: Seq<(OutputId, LayoutTree)>) -> Seq<(OutputId, LayoutTree)> {
    Seq::new(
        ts.len(),
        |i: int|
            match spec_last_index_with(outs, ts[i].0.0, output_key()) {
                Some(oi) => (ts[i].0, spec_synced_tree(outs[oi], ts[i].1)),
                None => ts[i],
            },
    )
}

/// Windows `ws` with the rects of the arranged entries `es` recorded as
/// their layout rects, in order; entries of unknown windows are skipped.
pub open spec fn spec_with_layout_rects(ws: Seq<Window>, es: Seq<(u32, Rect, WindowState)>) -> Seq<Window>
    decreases es.len(),
{
    if es.len() == 0 {
        ws
    } else {
        let wp = spec_with_layout_rects(ws, es.drop_last());
        match spec_last_index_with(wp, es.last().0, window_key()) {
            Some(i) => wp.update(i, Window { layout_rect: Some(es.last().1), ..wp[i] }),
            None => wp,
        }
    }
}

/// Windows `ws` with the layout rects of the synced trees `synced` of
/// known outputs (among `outs`) recorded, tree by tree.
pub open spec fn spec_synced_windows(
    ws: Seq<Window>,
    outs: Seq<Output>,
    synced: Seq<(OutputId, LayoutTree)>,
) -> Seq<Window>
    decreases synced.len(),
{
    if synced.len() == 0 {
        ws
    } else {
        let wp = spec_synced_windows(ws, outs, synced.drop_last());
        if spec_last_index_with(outs, synced.last().0.0, output_key()) is Some {
            spec_with_layout_rects(wp, synced.last().1.entries())
        } else {
            wp
        }
    }
}

impl WMState {
    /// Record the rects of arranged entries `es` as the layout rects of
    /// their windows (see [`spec_with_layout_rects`]).
    fn record_layout_rects(&mut self, es: &Vec<(u32, Rect, WindowState)>)
        requires
            old(self).wf(),
        ensures
            final(self).wf(),
            *final(self) == (WMState { windows: final(self).windows, ..*old(self) }),
            final(self).windows@ == spec_with_layout_rects(old(self).windows@, es@),
    {
        let ghost s0 = *self;
        let mut k: usize = 0;
        assert(es@.take(0) =~= Seq::<(u32, Rect, WindowState)>::empty());
        while k < es.len()
            invariant
                self.wf(),
                k <= es@.len(),
                *self == (WMState { windows: self.windows, ..s0 }),
                self.windows@ == spec_with_layout_rects(s0.windows@, es@.take(k as int)),
            decreases es@.len() - k,
        {
            proof {
                assert(es@.take(k + 1).drop_last() =~= es@.take(k as int));
                assert(es@.take(k + 1).last() == es@[k as int]);
            }
            let id = es[k].0;
            let rect = es[k].1;
            match self.find_window(WindowId(id)) {
                Some(wi) => {
                    let ghost before = self.windows@;
                    let mut w = self.windows.remove(wi);
                    w.layout_rect = Some(rect);
                    self.windows.insert(wi, w);
                    proof {
                        crate::wm::lemma_remove_insert(before, wi as int, w);
                        lemma_replace_keeps_keys(before, wi as int, w, window_key());
                        assert(w == (Window { layout_rect: Some(rect), ..before[wi as int] }));
                    }
                },
                None => {},
            }
            k = k + 1;
        }
        assert(es@.take(es@.len() as int) =~= es@);
    }

    /// Size every tree of a known output to the output's tiling area,
    /// arrange it, and record the arranged rects as the windows' layout
    /// rects (see [`spec_synced_trees`] and [`spec_synced_windows`]).
    pub fn sync_layout(&mut self)
        requires
            old(self).wf(),
        ensures
            final(self).wf(),
            *final(self) == (WMState {
                windows: final(self).windows,
                output_trees: final(self).output_trees,
                ..*old(self)
            }),
            final(self).output_trees@ == spec_synced_trees(old(self).outputs@, old(self).output_trees@),
            final(self).windows@ == spec_synced_windows(old(self).windows@, old(self).outputs@, final(self).output_trees@),
    {
        let ghost s0 = *self;
        let ghost target = spec_synced_trees(s0.outputs@, s0.output_trees@);
        let mut i: usize = 0;
        assert(target.take(0) =~= Seq::<(OutputId, LayoutTree)>::empty());
        while i < self.output_trees.len()
            invariant
                self.wf(),
                s0.wf(),
                target == spec_synced_trees(s0.outputs@, s0.output_trees@),
                i <= self.output_trees@.len(),
                self.output_trees@.len() == s0.output_trees@.len(),
                *self == (WMState { windows: self.windows, output_trees: self.output_trees, ..s0 }),
                forall|k: int| 0 <= k < i ==> #[trigger] self.output_trees@[k] == target[k],
                forall|k: int| i <= k < self.output_trees@.len() ==> #[trigger] self.output_trees@[k] == s0.output_trees@[k],
                self.windows@ == spec_synced_windows(s0.windows@, s0.outputs@, target.take(i as int)),
            decreases self.output_trees@.len() - i,
        {
            proof {
                assert(target.take(i + 1).drop_last() =~= target.take(i as int));
                assert(target.take(i + 1).last() == target[i as int]);
                assert(self.output_trees@[i as int] == s0.output_trees@[i as int]);
            }
            let o = self.output_trees[i].0;
            match self.find_output(o) {
                Some(oi) => {
                    let ghost before = self.output_trees@;
                    let rect = self.outputs[oi].tiling_rect();
                    let mut t = self.swap_tree(i, Self::placeholder_tree());
                    match rect {
                        Some(r) => t.set_output_rect(r),
                        None => {},
                    }
                    let es = t.arranged_windows();
                    let _ = self.swap_tree(i, t);
                    proof {
                        assert(t == spec_synced_tree(s0.outputs@[oi as int], s0.output_trees@[i as int].1));
                        assert(self.output_trees@[i as int] == target[i as int]);
                        assert forall|k: int| 0 <= k < self.output_trees@.len() && k != i implies #[trigger] self.output_trees@[k] == before[k] by {}
                    }
                    self.record_layout_rects(&es);
                },
                None => {
                    proof {
                        assert(self.output_trees@[i as int] == target[i as int]);
                    }
                },
            }
            i = i + 1;
        }
        assert(self.output_trees@ =~= target);
        assert(target.take(target.len() as int) =~= target);
    }
}

/// Whether `ids` holds `id`.
fn holds(ids: &Vec<u32>, id: u32) -> (r: bool)
    ensures
        r == ids@.contains(id),
{
    let mut i: usize = 0;
    while i < ids.len()
        invariant
            i <= ids@.len(),
            forall|k: int| 0 <= k < i ==> ids@[k] != id,
        decreases ids@.len() - i,
    {
        if ids[i] == id {
            assert(ids@[i as int] == id);
            return true;
        }
        i = i + 1;
    }
    false
}

impl WMState {
    /// Whether a focus request may be sent to the compositor: not while a
    /// layer surface holds exclusive keyboard focus on the current seat,
    /// since the compositor ignores the window manager's focus then.
    pub open spec fn spec_focus_request_allowed(self) -> bool {
        match self.current_seat {
            Some(sid) => match self.seat(sid) {
                Some(seat) => !(seat.layer_shell_focus is Exclusive),
                None => true,
            },
            None => true,
        }
    }

    /// Whether a focus request may be sent (see
    /// [`WMState::spec_focus_request_allowed`]).
    pub fn focus_request_allowed(&self) -> (r: bool)
        ensures
            r == self.spec_focus_request_allowed(),
    {
        match self.current_seat {
            Some(sid) => match self.find_seat(sid) {
                Some(i) => match self.seats[i].1.layer_shell_focus {
                    LayerShellFocus::Exclusive => false,
                    _ => true,
                },
                None => true,
            },
            None => true,
        }
    }

    /// The focus request of a manage sequence and the pending focus left
    /// after it: a pending focus on an unknown window is dropped; one on a
    /// known window is no longer pending once the current seat is known and
    /// both it and the window have compositor handles (their identifiers
    /// are in `bound_seats` and `bound_windows`), and is then sent unless a
    /// layer surface holds exclusive focus on that seat (see
    /// [`WMState::spec_focus_request_allowed`]).
    pub open spec fn spec_focus_request(self, bound_windows: Seq<u32>, bound_seats: Seq<u32>) -> (Seq<Effect>, Option<u32>) {
        match self.focus.pending_focus {
            Some(w) => if self.window(WindowId(w)) is None {
                (Seq::empty(), None)
            } else {
                match self.current_seat {
                    Some(sid) => if self.seat(sid) is Some && bound_seats.contains(sid.0) && bound_windows.contains(w) {
                        if self.spec_focus_request_allowed() {
                            (seq![Effect::FocusWindow { window_id: WindowId(w) }], None)
                        } else {
                            (Seq::empty(), None)
                        }
                    } else {
                        (Seq::empty(), Some(w))
                    },
                    None => (Seq::empty(), Some(w)),
                }
            },
            None => (Seq::empty(), None),
        }
    }

    /// The close requests for windows `ids`, in order, leaving out unknown
    /// windows.
    pub open spec fn spec_close_requests(self, ids: Seq<u32>) -> Seq<Effect>
        decreases ids.len(),
    {
        if ids.len() == 0 {
            Seq::empty()
        } else {
            self.spec_close_requests(ids.drop_last()) + if self.window(WindowId(ids.last())) is Some {
                seq![Effect::Close { window_id: WindowId(ids.last()) }]
            } else {
                Seq::empty()
            }
        }
    }

    /// The layer-shell default request: sent when it is due, for the
    /// focused output, once that output is known and has its layer-shell
    /// handle (its identifier is in `layer_outputs`).
    pub open spec fn spec_layer_request(self, layer_outputs: Seq<u32>) -> Seq<Effect> {
        match self.focused_output {
            Some(o) => if self.layer_shell_default_dirty && self.output(o) is Some && layer_outputs.contains(o.0) {
                seq![Effect::SetLayerShellDefault { output_id: o }]
            } else {
                Seq::empty()
            },
            None => Seq::empty(),
        }
    }

    /// Decide the focus request (see [`WMState::spec_focus_request`]).
    fn take_focus_request(&mut self, bound_windows: &Vec<u32>, bound_seats: &Vec<u32>) -> (r: Vec<Effect>)
        ensures
            r@ == old(self).spec_focus_request(bound_windows@, bound_seats@).0,
            *final(self) == (WMState {
                focus: crate::focus::FocusState {
                    pending_focus: old(self).spec_focus_request(bound_windows@, bound_seats@).1,
                    ..old(self).focus
                },
                ..*old(self)
            }),
    {
        let mut effects: Vec<Effect> = Vec::new();
        match self.focus.pending_focus {
            Some(w) => {
                if self.find_window(WindowId(w)).is_none() {
                    self.focus.pending_focus = None;
                } else {
                    match self.current_seat {
                        Some(sid) => {
                            if self.find_seat(sid).is_some() && holds(bound_seats, sid.0) && holds(bound_windows, w) {
                                let allowed = self.focus_request_allowed();
                                self.focus.pending_focus = None;
                                if allowed {
                                    effects.push(Effect::FocusWindow { window_id: WindowId(w) });
                                }
                            }
                        },
                        None => {},
                    }
                }
            },
            None => {},
        }
        assert(effects@ =~= old(self).spec_focus_request(bound_windows@, bound_seats@).0);
        effects
    }

    /// Take the pending closes and decide their requests (see
    /// [`WMState::spec_close_requests`]).
    fn take_close_requests(&mut self) -> (r: Vec<Effect>)
        ensures
            r@ == old(self).spec_close_requests(old(self).pending_closes@),
            *final(self) == (WMState { pending_closes: final(self).pending_closes, ..*old(self) }),
            final(self).pending_closes@.len() == 0,
    {
        let ghost s0 = *self;
        let mut closes: Vec<u32> = Vec::new();
        std::mem::swap(&mut closes, &mut self.pending_closes);
        let mut effects: Vec<Effect> = Vec::new();
        let mut i: usize = 0;
        assert(closes@.take(0) =~= Seq::<u32>::empty());
        while i < closes.len()
            invariant
                i <= closes@.len(),
                closes@ == s0.pending_closes@,
                *self == (WMState { pending_closes: self.pending_closes, ..s0 }),
                effects@ == s0.spec_close_requests(closes@.take(i as int)),
            decreases closes@.len() - i,
        {
            proof {
                assert(closes@.take(i + 1).drop_last() =~= closes@.take(i as int));
                assert(closes@.take(i + 1).last() == closes@[i as int]);
            }
            let id = closes[i];
            if self.find_window(WindowId(id)).is_some() {
                effects.push(Effect::Close { window_id: WindowId(id) });
            }
            proof {
                assert(effects@ =~= s0.spec_close_requests(closes@.take(i + 1)));
            }
            i = i + 1;
        }
        assert(closes@.take(closes@.len() as int) =~= closes@);
        effects
    }

    /// Decide the layer-shell default request and mark it sent (see
    /// [`WMState::spec_layer_request`]).
    fn take_layer_request(&mut self, layer_outputs: &Vec<u32>) -> (r: Vec<Effect>)
        ensures
            r@ == old(self).spec_layer_request(layer_outputs@),
            *final(self) == (WMState { layer_shell_default_dirty: false, ..*old(self) }),
    {
        let mut effects: Vec<Effect> = Vec::new();
        match self.focused_output {
            Some(o) => {
                if self.layer_shell_default_dirty && self.find_output(o).is_some() && holds(layer_outputs, o.0) {
                    effects.push(Effect::SetLayerShellDefault { output_id: o });
                }
            },
            None => {},
        }
        self.layer_shell_default_dirty = false;
        assert(effects@ =~= old(self).spec_layer_request(layer_outputs@));
        effects
    }
}

/// The scene depends only on the windows, the outputs, the focused window
/// and the appearance settings.
pub proof fn lemma_scene_fields(s: WMState, t: WMState, ts: Seq<(OutputId, LayoutTree)>)
    requires
        s.windows@ == t.windows@,
        s.outputs@ == t.outputs@,
        s.focus.focused_window == t.focus.focused_window,
        s.appearance == t.appearance,
        s.pending_split == t.pending_split,
        s.layout_config == t.layout_config,
    ensures
        s.spec_trees_scene(ts) == t.spec_trees_scene(ts),
    decreases ts.len(),
{
    if ts.len() > 0 {
        lemma_scene_fields(s, t, ts.drop_last());
        let (o, tr) = ts.last();
        match s.output(o) {
            Some(out) => {
                lemma_entries_fields(s, t, o, out.spec_rect(), tr.entries());
            },
            None => {},
        }
    }
}

proof fn lemma_entries_fields(
    s: WMState,
    t: WMState,
    o: OutputId,
    full: Option<Rect>,
    es: Seq<(u32, Rect, WindowState)>,
)
    requires
        s.windows@ == t.windows@,
        s.outputs@ == t.outputs@,
        s.focus.focused_window == t.focus.focused_window,
        s.appearance == t.appearance,
        s.pending_split == t.pending_split,
        s.layout_config == t.layout_config,
    ensures
        s.spec_entries_scene(o, full, es) == t.spec_entries_scene(o, full, es),
    decreases es.len(),
{
    if es.len() > 0 {
        lemma_entries_fields(s, t, o, full, es.drop_last());
    }
}

impl WMState {
    /// Whether `new` and `effects` are this state and the requests after a
    /// manage sequence, given the windows and seats with compositor handles
    /// and the outputs with layer-shell handles. In order: the focused
    /// output is repaired; pointer operations advance (their requests come
    /// first); pending floats land; trees are sized, arranged and their
    /// rects recorded on the windows; the desired scene is diffed against
    /// the last managed one (see [`spec_manage_diff`]) and becomes it; then
    /// come the focus request, the close requests, and the layer-shell
    /// default request. The render order is recomputed at the next render.
    pub open spec fn spec_managed(
        self,
        bound_windows: Seq<u32>,
        bound_seats: Seq<u32>,
        layer_outputs: Seq<u32>,
        new: WMState,
        effects: Seq<Effect>,
    ) -> bool {
        let s1 = self.spec_focus_repaired();
        let n = s1.seats@.len();
        let seats2 = Seq::new(n, |i: int| (s1.seats@[i].0, spec_op_transition(s1.seats@[i].0, s1.seats@[i].1).1));
        let floated = spec_floated_trees(s1.windows@, s1.output_trees@, seats2);
        let synced = spec_synced_trees(s1.outputs@, floated);
        let desired = new.spec_trees_scene(synced);
        let focus_request = s1.spec_focus_request(bound_windows, bound_seats);
        &&& new == (WMState {
            windows: new.windows,
            output_trees: new.output_trees,
            seats: new.seats,
            focus: FocusState { pending_focus: focus_request.1, ..s1.focus },
            pending_closes: new.pending_closes,
            render_order_cache: new.render_order_cache,
            layer_shell_default_dirty: false,
            last_manage_scene: new.last_manage_scene,
            ..s1
        })
        &&& new.seats@ == Seq::new(
            n,
            |i: int| (seats2[i].0, spec_floated_seat(s1.windows@, s1.output_trees@, seats2[i].1)),
        )
        &&& new.output_trees@ == synced
        &&& new.windows@ == spec_synced_windows(s1.windows@, s1.outputs@, synced)
        &&& new.pending_closes@.len() == 0
        &&& new.render_order_cache@.len() == 0
        &&& new.last_manage_scene@ == desired
        &&& effects == Self::spec_transition_effects(s1.seats@) + spec_manage_diff(self.last_manage_scene@, desired)
            + focus_request.0 + s1.spec_close_requests(s1.pending_closes@) + s1.spec_layer_request(layer_outputs)
    }

    /// Run a manage sequence (see [`WMState::spec_managed`]).
    #[verifier::spinoff_prover]
    pub fn apply_manage(
        &mut self,
        bound_windows: &Vec<u32>,
        bound_seats: &Vec<u32>,
        layer_outputs: &Vec<u32>,
    ) -> (r: Vec<Effect>)
        requires
            old(self).wf(),
        ensures
            final(self).wf(),
            old(self).spec_managed(bound_windows@, bound_seats@, layer_outputs@, *final(self), r@),
    {
        self.ensure_focused_output();
        let ghost s1 = *self;
        assert(s1.wf());
        let mut closes = self.take_close_requests();
        let mut focus_request = self.take_focus_request(bound_windows, bound_seats);
        let mut layer = self.take_layer_request(layer_outputs);
        let mut effects = self.transition_pointer_ops();
        let ghost s2 = *self;
        proof {
            let seats2 = Seq::new(
                s1.seats@.len(),
                |i: int| (s1.seats@[i].0, spec_op_transition(s1.seats@[i].0, s1.seats@[i].1).1),
            );
            assert(s2.seats@ =~= seats2);
        }
        self.apply_pending_floats();
        self.sync_layout();
        let desired = self.desired_scene();
        let mut diff = manage_diff(&self.last_manage_scene, &desired);
        effects.append(&mut diff);
        effects.append(&mut focus_request);
        effects.append(&mut closes);
        effects.append(&mut layer);
        let ghost s4 = *self;
        self.last_manage_scene = desired;
        self.render_order_cache = Vec::new();
        proof {
            lemma_scene_fields(s4, *self, self.output_trees@);
            assert(self.seats@ =~= Seq::new(
                s2.seats@.len(),
                |i: int| (s2.seats@[i].0, spec_floated_seat(s1.windows@, s1.output_trees@, s2.seats@[i].1)),
            ));
        }
        effects
    }
}

/// The render requests for the windows of `order`, in order, given the
/// known windows `ws`, the windows with compositor handles and those with
/// render nodes: windows that are unknown or have no handle are skipped;
/// each other window gets the requests of [`spec_render_effects`] for its
/// entries in the last rendered scene `last` and the desired scene.
pub open spec fn spec_render_pass(
    ws: Seq<Window>,
    order: Seq<u32>,
    bound_windows: Seq<u32>,
    nodes: Seq<u32>,
    last: Seq<SceneEntry>,
    desired: Seq<SceneEntry>,
) -> Seq<Effect>
    decreases order.len(),
{
    if order.len() == 0 {
        Seq::empty()
    } else {
        let id = order.last();
        spec_render_pass(ws, order.drop_last(), bound_windows, nodes, last, desired) + if spec_last_index_with(
            ws,
            id,
            window_key(),
        ) is Some && bound_windows.contains(id) {
            spec_render_effects(
                WindowId(id),
                nodes.contains(id),
                spec_scene_lookup(last, id),
                spec_scene_lookup(desired, id),
            )
        } else {
            Seq::empty()
        }
    }
}

/// Whether stacking key `a` is above `b` (see [`spec_z_above`]).
fn z_above(a: (u8, u8, u32), b: (u8, u8, u32)) -> (r: bool)
    ensures
        r == spec_z_above(a, b),
{
    a.0 > b.0 || (a.0 == b.0 && (a.1 > b.1 || (a.1 == b.1 && a.2 > b.2)))
}

impl WMState {
    /// The stacking key of window `id` (see [`spec_render_stack_priority`]).
    pub open spec fn spec_render_key(self, id: u32) -> (u8, u8, u32) {
        spec_render_stack_priority(
            self.spec_window_state_for(WindowId(id)),
            match self.focus.focused_window {
                Some(f) => Some(WindowId(f)),
                None => None,
            },
            WindowId(id),
        )
    }

    /// Whether `order` lists every known window once, bottom to top by
    /// ascending stacking key.
    pub open spec fn spec_in_render_order(self, order: Seq<u32>) -> bool {
        &&& order.no_duplicates()
        &&& forall|id: u32| #[trigger] order.contains(id) <==> self.window(WindowId(id)) is Some
        &&& forall|i: int, j: int|
            0 <= i < j < order.len() ==> !spec_z_above(
                self.spec_render_key(#[trigger] order[i]),
                self.spec_render_key(#[trigger] order[j]),
            )
    }

    /// The known windows bottom to top (see
    /// [`WMState::spec_in_render_order`]).
    pub fn render_order(&self) -> (r: Vec<u32>)
        requires
            self.wf(),
        ensures
            self.spec_in_render_order(r@),
    {
        let focused = match self.focus.focused_window {
            Some(f) => Some(WindowId(f)),
            None => None,
        };
        let mut order: Vec<u32> = Vec::new();
        let mut keys: Vec<(u8, u8, u32)> = Vec::new();
        let ghost mut src: Seq<int> = Seq::empty();
        let mut k: usize = 0;
        while k < self.windows.len()
            invariant
                self.wf(),
                focused == (match self.focus.focused_window {
                    Some(f) => Some(WindowId(f)),
                    None => None,
                }),
                k <= self.windows@.len(),
                keys@.len() == order@.len(),
                src.len() == order@.len(),
                forall|i: int| 0 <= i < order@.len() ==> #[trigger] keys@[i] == self.spec_render_key(order@[i]),
                forall|i: int| 0 <= i < order@.len() ==> 0 <= #[trigger] src[i] < k,
                forall|i: int| 0 <= i < order@.len() ==> self.windows@[#[trigger] src[i]].id.0 == order@[i],
                forall|m: int| 0 <= m < k ==> order@.contains(#[trigger] self.windows@[m].id.0),
                order@.no_duplicates(),
                forall|i: int, j: int| 0 <= i < j < order@.len() ==> !spec_z_above(#[trigger] keys@[i], #[trigger] keys@[j]),
            decreases self.windows@.len() - k,
        {
            let id = self.windows[k].id.0;
            let key = crate::scene::render_stack_priority(self.window_state_for_id(WindowId(id)), focused, WindowId(id));
            let mut p: usize = 0;
            while p < keys.len() && !z_above(keys[p], key)
                invariant
                    p <= keys@.len(),
                    forall|j: int| 0 <= j < p ==> !spec_z_above(#[trigger] keys@[j], key),
                decreases keys@.len() - p,
            {
                p = p + 1;
            }
            let ghost old_order = order@;
            let ghost old_keys = keys@;
            let ghost old_src = src;
            proof {
                assert forall|i: int| 0 <= i < old_order.len() implies old_order[i] != id by {
                    assert(old_src[i] != k as int);
                    assert(self.windows@[old_src[i]].id.0 != self.windows@[k as int].id.0);
                }
            }
            order.insert(p, id);
            keys.insert(p, key);
            proof {
                src = old_src.insert(p as int, k as int);
                assert forall|i: int| 0 <= i < order@.len() implies #[trigger] keys@[i] == self.spec_render_key(order@[i]) by {
                    if i < p {
                        assert(order@[i] == old_order[i]);
                    } else if i > p {
                        assert(order@[i] == old_order[i - 1]);
                    }
                }
                assert forall|i: int| 0 <= i < order@.len() implies self.windows@[#[trigger] src[i]].id.0 == order@[i] by {
                    if i < p {
                        assert(order@[i] == old_order[i]);
                    } else if i > p {
                        assert(order@[i] == old_order[i - 1]);
                    }
                }
                assert forall|m: int| 0 <= m < k + 1 implies order@.contains(#[trigger] self.windows@[m].id.0) by {
                    if m < k {
                        let x = self.windows@[m].id.0;
                        assert(old_order.contains(x));
                        let i = choose|i: int| 0 <= i < old_order.len() && old_order[i] == x;
                        if i < p {
                            assert(order@[i] == x);
                        } else {
                            assert(order@[i + 1] == x);
                        }
                    } else {
                        assert(order@[p as int] == id);
                    }
                }
                assert forall|i: int, j: int| 0 <= i < j < order@.len() implies order@[i] != order@[j] by {
                    if i == p {
                        assert(order@[j] == old_order[j - 1]);
                    } else if j == p {
                        assert(order@[i] == old_order[i]);
                    } else {
                        let oi = if i < p { i } else { i - 1 };
                        let oj = if j < p { j } else { j - 1 };
                        assert(order@[i] == old_order[oi]);
                        assert(order@[j] == old_order[oj]);
                    }
                }
                assert forall|i: int, j: int| 0 <= i < j < order@.len() implies !spec_z_above(#[trigger] keys@[i], #[trigger] keys@[j]) by {
                    if i == p {
                        assert(keys@[j] == old_keys[j - 1]);
                        if p < old_keys.len() {
                            assert(spec_z_above(old_keys[p as int], key));
                            if j - 1 > p {
                                assert(!spec_z_above(old_keys[p as int], old_keys[j - 1]));
                            }
                        }
                    } else if j == p {
                        assert(keys@[i] == old_keys[i]);
                    } else {
                        let oi = if i < p { i } else { i - 1 };
                        let oj = if j < p { j } else { j - 1 };
                        assert(keys@[i] == old_keys[oi]);
                        assert(keys@[j] == old_keys[oj]);
                    }
                }
            }
            k = k + 1;
        }
        proof {
            assert forall|i: int, j: int| 0 <= i < j < order@.len() implies !spec_z_above(
                self.spec_render_key(#[trigger] order@[i]),
                self.spec_render_key(#[trigger] order@[j]),
            ) by {
                assert(keys@[i] == self.spec_render_key(order@[i]));
                assert(keys@[j] == self.spec_render_key(order@[j]));
            }
            assert forall|id: u32| #[trigger] order@.contains(id) <==> self.window(WindowId(id)) is Some by {
                lemma_found_at(self.windows@, id, window_key());
                if order@.contains(id) {
                    let i = choose|i: int| 0 <= i < order@.len() && order@[i] == id;
                    assert(self.windows@[src[i]].id.0 == id);
                }
                if self.window(WindowId(id)) is Some {
                    let m = spec_last_index_with(self.windows@, id, window_key())->0;
                    assert(order@.contains(self.windows@[m].id.0));
                }
            }
        }
        order
    }

    /// Whether `new` and `effects` are this state and the requests after a
    /// render sequence, given the windows with compositor handles and those
    /// with render nodes: the render order is recomputed when it was dropped
    /// (see [`WMState::spec_in_render_order`]); the desired scene is diffed
    /// against the last rendered one window by window in that order (see
    /// [`spec_render_pass`]) and becomes it; nothing else changes.
    pub open spec fn spec_rendered(self, bound_windows: Seq<u32>, nodes: Seq<u32>, new: WMState, effects: Seq<Effect>) -> bool {
        &&& new == (WMState {
            render_order_cache: new.render_order_cache,
            last_render_scene: new.last_render_scene,
            ..self
        })
        &&& self.render_order_cache@.len() == 0 ==> self.spec_in_render_order(new.render_order_cache@)
        &&& self.render_order_cache@.len() != 0 ==> new.render_order_cache == self.render_order_cache
        &&& new.last_render_scene@ == self.spec_trees_scene(self.output_trees@)
        &&& effects == spec_render_pass(
            self.windows@,
            new.render_order_cache@,
            bound_windows,
            nodes,
            self.last_render_scene@,
            new.last_render_scene@,
        )
    }

    /// Run a render sequence (see [`WMState::spec_rendered`]).
    #[verifier::spinoff_prover]
    pub fn apply_render(&mut self, bound_windows: &Vec<u32>, nodes: &Vec<u32>) -> (r: Vec<Effect>)
        requires
            old(self).wf(),
        ensures
            final(self).wf(),
            old(self).spec_rendered(bound_windows@, nodes@, *final(self), r@),
    {
        let ghost s0 = *self;
        if self.render_order_cache.len() == 0 {
            let order = self.render_order();
            self.render_order_cache = order;
        }
        let desired = self.desired_scene();
        proof {
            lemma_scene_fields(*self, s0, self.output_trees@);
        }
        let mut effects: Vec<Effect> = Vec::new();
        let mut i: usize = 0;
        assert(self.render_order_cache@.take(0) =~= Seq::<u32>::empty());
        while i < self.render_order_cache.len()
            invariant
                self.wf(),
                *self == (WMState { render_order_cache: self.render_order_cache, ..s0 }),
                i <= self.render_order_cache@.len(),
                effects@ == spec_render_pass(
                    s0.windows@,
                    self.render_order_cache@.take(i as int),
                    bound_windows@,
                    nodes@,
                    s0.last_render_scene@,
                    desired@,
                ),
            decreases self.render_order_cache@.len() - i,
        {
            proof {
                assert(self.render_order_cache@.take(i + 1).drop_last() =~= self.render_order_cache@.take(i as int));
                assert(self.render_order_cache@.take(i + 1).last() == self.render_order_cache@[i as int]);
            }
            let id = self.render_order_cache[i];
            if self.find_window(WindowId(id)).is_some() && holds(bound_windows, id) {
                let has_node = holds(nodes, id);
                let mut more = crate::scene::render_effects(
                    WindowId(id),
                    has_node,
                    scene_lookup(&self.last_render_scene, id),
                    scene_lookup(&desired, id),
                );
                effects.append(&mut more);
            }
            i = i + 1;
        }
        assert(self.render_order_cache@.take(self.render_order_cache@.len() as int) =~= self.render_order_cache@);
        self.last_render_scene = desired;
        effects
    }
}

/// A manage sequence whose desired scene equals the last managed one asks
/// nothing of the compositor: diffing a scene (each window at most once)
/// against itself gives no request.
pub proof fn law_manage_diff_of_unchanged_scene_is_empty(scene: Seq<SceneEntry>)
    requires
        forall|a: int, b: int|
            0 <= a < b < scene.len() ==> (#[trigger] scene[a]).window_id != (#[trigger] scene[b]).window_id,
    ensures
        spec_manage_diff(scene, scene) == Seq::<Effect>::empty(),
{
    lemma_manage_diff_prefix_empty(scene, scene.len() as int);
    assert(scene.take(scene.len() as int) =~= scene);
}

proof fn lemma_manage_diff_prefix_empty(scene: Seq<SceneEntry>, k: int)
    requires
        0 <= k <= scene.len(),
        forall|a: int, b: int|
            0 <= a < b < scene.len() ==> (#[trigger] scene[a]).window_id != (#[trigger] scene[b]).window_id,
    ensures
        spec_manage_diff(scene, scene.take(k)) == Seq::<Effect>::empty(),
    decreases k,
{
    if k > 0 {
        lemma_manage_diff_prefix_empty(scene, k - 1);
        assert(scene.take(k).drop_last() =~= scene.take(k - 1));
        let e = scene[k - 1];
        assert(scene.take(k).last() == e);
        assert forall|a: int, b: int| 0 <= a < b < scene.len() implies entry_key()(#[trigger] scene[a]) != entry_key()(
            #[trigger] scene[b],
        ) by {
            assert(scene[a].window_id != scene[b].window_id);
        }
        crate::config::lemma_last_index_unique(scene, e.window_id.0, entry_key(), k - 1);
        assert(spec_scene_lookup(scene, e.window_id.0) == Some(e));
        assert(spec_manage_effects(Some(e), e) =~= Seq::<Effect>::empty());
        assert(spec_manage_diff(scene, scene.take(k)) =~= Seq::<Effect>::empty());
    }
}

/// A render sequence whose desired scene equals the last rendered one asks
/// nothing of the compositor once every window with a handle has its render
/// node.
pub proof fn law_render_pass_of_unchanged_scene_is_empty(
    ws: Seq<Window>,
    order: Seq<u32>,
    bound_windows: Seq<u32>,
    nodes: Seq<u32>,
    scene: Seq<SceneEntry>,
)
    requires
        forall|id: u32| #[trigger] bound_windows.contains(id) ==> nodes.contains(id),
    ensures
        spec_render_pass(ws, order, bound_windows, nodes, scene, scene) == Seq::<Effect>::empty(),
    decreases order.len(),
{
    if order.len() > 0 {
        law_render_pass_of_unchanged_scene_is_empty(ws, order.drop_last(), bound_windows, nodes, scene);
        let id = order.last();
        if spec_last_index_with(ws, id, window_key()) is Some && bound_windows.contains(id) {
            assert(nodes.contains(id));
            let e = spec_scene_lookup(scene, id);
            assert(spec_render_effects(WindowId(id), true, e, e) =~= Seq::<Effect>::empty());
        }
        assert(spec_render_pass(ws, order, bound_windows, nodes, scene, scene) =~= Seq::<Effect>::empty());
    }
}

} // verus!
