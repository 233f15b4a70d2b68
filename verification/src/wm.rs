//! The window manager's state: the windows, outputs and seats it knows, one
//! layout tree per output, and the focus bookkeeping that ties them
//! together.
//!
//! Windows, outputs and trees are kept in vectors with pairwise distinct
//! identifiers; seats are kept in ascending identifier order, so the
//! "first" seat is the one with the lowest identifier. Work that has to be
//! carried out on the compositor side is recorded in flags
//! (`manage_requested`, `keybindings_dirty`, ...) for the caller to act on.
use crate::config::{
    KeyBindingTarget, LayoutConfig, lemma_last_index_bounds, lemma_last_index_none, lemma_last_index_same_ids,
    lemma_last_index_unique, spec_empty_layout_config, spec_last_index_with,
};
use crate::focus::{FocusState, spec_next_focus, next_focus};
use crate::focus::spec_without;
use crate::geometry::{FocusDirection, Rect, WindowState, sat_i32, spec_sat};
use crate::reassign::{
    ReassignPlan, adopt_tree, rebuild_tree, reassign_plan, spec_adopted, spec_apply_plans,
    spec_insert_all, spec_reassign_plan,
};
use crate::tree::spec_margin_rect;
use crate::output::{Output, OutputId};
use crate::seat::{InteractiveOp, LayerShellFocus, Seat, SeatId};
use crate::tree::LayoutTree;
use crate::pointer::{compute_op_rect, spec_op_rect, spec_op_transition, spec_start_op, start_interactive_op, transition_pointer_op};
use crate::scene::{Effect, SceneEntry};
use crate::window::{Window, WindowId};
use crate::rules::WindowRule;
use crate::window_rules::WindowRules;
use vstd::prelude::*;

verus! {

/// A window's identifier as a number.
pub open spec fn window_key() -> spec_fn(Window) -> u32 {
    |w: Window| w.id.0
}

/// An output's identifier as a number.
pub open spec fn output_key() -> spec_fn(Output) -> u32 {
    |o: Output| o.id.0
}

/// A seat entry's identifier as a number.
pub open spec fn seat_key() -> spec_fn((SeatId, Seat)) -> u32 {
    |e: (SeatId, Seat)| e.0.0
}

/// A tree entry's output identifier as a number.
pub open spec fn tree_key() -> spec_fn((OutputId, LayoutTree)) -> u32 {
    |e: (OutputId, LayoutTree)| e.0.0
}

/// No two entries of `s` share a key.
pub open spec fn spec_distinct<T>(s: Seq<T>, key: spec_fn(T) -> u32) -> bool {
    forall|a: int, b: int| 0 <= a < b < s.len() ==> key(#[trigger] s[a]) != key(#[trigger] s[b])
}

/// The keys of `s` strictly increase.
pub open spec fn spec_ascending<T>(s: Seq<T>, key: spec_fn(T) -> u32) -> bool {
    forall|a: int, b: int| 0 <= a < b < s.len() ==> key(#[trigger] s[a]) < key(#[trigger] s[b])
}

/// An index as a `usize`.
pub open spec fn spec_to_usize(o: Option<int>) -> Option<usize> {
    match o {
        Some(i) => Some(i as usize),
        None => None,
    }
}

/// Replacing an entry by one with the same key keeps the keys distinct and
/// every key at its position.
pub proof fn lemma_replace_keeps_keys<T>(s: Seq<T>, i: int, x: T, key: spec_fn(T) -> u32)
    requires
        0 <= i < s.len(),
        key(x) == key(s[i]),
    ensures
        spec_distinct(s, key) ==> spec_distinct(s.update(i, x), key),
        spec_ascending(s, key) ==> spec_ascending(s.update(i, x), key),
        forall|k: u32| #[trigger] spec_last_index_with(s.update(i, x), k, key) == spec_last_index_with(s, k, key),
{
    assert(s.update(i, x).map_values(key) =~= s.map_values(key));
    assert forall|k: u32| #[trigger] spec_last_index_with(s.update(i, x), k, key) == spec_last_index_with(s, k, key) by {
        lemma_last_index_same_ids(s.update(i, x), s, k, key);
    }
    if spec_distinct(s, key) {
        assert forall|a: int, b: int| 0 <= a < b < s.update(i, x).len() implies key(
            #[trigger] s.update(i, x)[a],
        ) != key(#[trigger] s.update(i, x)[b]) by {
            assert(key(s.update(i, x)[a]) == key(s[a]));
            assert(key(s.update(i, x)[b]) == key(s[b]));
        }
    }
    if spec_ascending(s, key) {
        assert forall|a: int, b: int| 0 <= a < b < s.update(i, x).len() implies key(
            #[trigger] s.update(i, x)[a],
        ) < key(#[trigger] s.update(i, x)[b]) by {
            assert(key(s.update(i, x)[a]) == key(s[a]));
            assert(key(s.update(i, x)[b]) == key(s[b]));
        }
    }
}

/// Removing then inserting at one position replaces the entry there.
pub proof fn lemma_remove_insert<T>(s: Seq<T>, i: int, x: T)
    requires
        0 <= i < s.len(),
    ensures
        s.remove(i).insert(i, x) == s.update(i, x),
{
    assert(s.remove(i).insert(i, x) =~= s.update(i, x));
}

/// The entry with key `k` in `s`, when there is one with distinct keys, is
/// found at `i`.
pub proof fn lemma_found_at<T>(s: Seq<T>, k: u32, key: spec_fn(T) -> u32)
    ensures
        spec_last_index_with(s, k, key) matches Some(i) ==> 0 <= i < s.len() && key(s[i]) == k,
        spec_last_index_with(s, k, key) is None ==> forall|j: int| 0 <= j < s.len() ==> key(#[trigger] s[j]) != k,
{
    lemma_last_index_bounds(s, k, key);
    lemma_last_index_none(s, k, key);
}

/// `ws` with every window whose identifier is in `ids` moved to output
/// `to`.
pub open spec fn spec_moved(ws: Seq<Window>, ids: Seq<u32>, to: OutputId) -> Seq<Window> {
    Seq::new(
        ws.len(),
        |j: int|
            if ids.contains(ws[j].id.0) {
                Window { output_id: to, ..ws[j] }
            } else {
                ws[j]
            },
    )
}

/// The record of a window that has just been created on output `out`.
pub open spec fn spec_new_window(id: WindowId, out: OutputId) -> Window {
    Window {
        id,
        output_id: out,
        parent: None,
        app_id: None,
        title: None,
        rules_applied: false,
        pid: 0,
        layout_rect: None,
        dimensions_hint: crate::window::DimensionsHint {
            min_width: 0,
            min_height: 0,
            max_width: 0,
            max_height: 0,
        },
        decoration_hint: None,
    }
}

/// How many entries at the front of `s` have a key below `k`: where an
/// entry with key `k` goes in an ascending sequence.
pub open spec fn spec_slot<T>(s: Seq<T>, k: u32, key: spec_fn(T) -> u32) -> int
    decreases s.len(),
{
    if s.len() == 0 {
        0
    } else if key(s[0]) < k {
        1 + spec_slot(s.subrange(1, s.len() as int), k, key)
    } else {
        0
    }
}

/// The record of a seat that has just appeared.
pub open spec fn spec_new_seat() -> Seat {
    Seat {
        layer_shell_focus: LayerShellFocus::NoFocus,
        wl_seat_name: 0,
        pointer_position: None,
        op: InteractiveOp::Inactive,
        op_started: false,
        op_ending: false,
        pending_float: None,
    }
}

/// The rectangle of the first entry of `s` for window `id`.
pub open spec fn spec_entry_rect(s: Seq<(u32, Rect, WindowState)>, id: u32) -> Option<Rect>
    decreases s.len(),
{
    if s.len() == 0 {
        None
    } else if s[0].0 == id {
        Some(s[0].1)
    } else {
        spec_entry_rect(s.subrange(1, s.len() as int), id)
    }
}

/// The rectangle of the first entry of `s` for window `id` (see
/// [`spec_entry_rect`]).
fn entry_rect(s: &Vec<(u32, Rect, WindowState)>, id: u32) -> (r: Option<Rect>)
    ensures
        r == spec_entry_rect(s@, id),
{
    let mut k: usize = 0;
    proof {
        assert(s@.subrange(0, s@.len() as int) =~= s@);
    }
    while k < s.len()
        invariant
            k <= s@.len(),
            spec_entry_rect(s@, id) == spec_entry_rect(s@.subrange(k as int, s@.len() as int), id),
        decreases s@.len() - k,
    {
        let sub = Ghost(s@.subrange(k as int, s@.len() as int));
        proof {
            assert(sub@[0] == s@[k as int]);
            assert(sub@.subrange(1, sub@.len() as int) =~= s@.subrange(k + 1, s@.len() as int));
        }
        if s[k].0 == id {
            return Some(s[k].1);
        }
        k = k + 1;
    }
    None
}

/// An event from the compositor, as the window manager sees it.
#[derive(Debug)]
pub enum Event {
    /// A window appeared on an output.
    WindowCreated { window_id: WindowId, target_output: OutputId },
    /// An output appeared.
    OutputCreated { output_id: OutputId },
    /// A seat appeared.
    SeatCreated { seat_id: SeatId },
    /// A window went away.
    WindowClosed { window_id: WindowId },
    /// The user interacted with a window.
    WindowInteraction { window_id: WindowId },
    /// A window reported its size constraints.
    DimensionsHint { window_id: WindowId, min_w: i32, min_h: i32, max_w: i32, max_h: i32 },
    /// A window reported its application identifier.
    AppIdUpdated { window_id: WindowId, app_id: Option<String> },
    /// A window reported its title.
    TitleUpdated { window_id: WindowId, title: Option<String> },
    /// A window reported its parent.
    ParentUpdated { window_id: WindowId, parent_id: Option<WindowId> },
    /// A window reported its decoration preference.
    DecorationHintUpdated { window_id: WindowId, hint: u32 },
    /// A window reported its process identifier.
    PidUpdated { window_id: WindowId, pid: u32 },
    /// A window asked to become fullscreen.
    FullscreenRequested { window_id: WindowId },
    /// A window asked to leave fullscreen.
    ExitFullscreenRequested { window_id: WindowId },
    /// An output went away.
    OutputRemoved { output_id: OutputId },
    /// An output reported the global name of its `wl_output`.
    OutputNameUpdated { output_id: OutputId, name: u32 },
    /// An output reported its position.
    OutputPositionUpdated { output_id: OutputId, x: i32, y: i32 },
    /// An output reported its dimensions.
    OutputDimensionsUpdated { output_id: OutputId, w: i32, h: i32 },
    /// A seat went away.
    SeatRemoved { seat_id: SeatId },
    /// A seat reported the global name of its `wl_seat`.
    SeatNameUpdated { seat_id: SeatId, name: u32 },
    /// A seat reported its pointer position.
    SeatPointerPositionUpdated { seat_id: SeatId, x: i32, y: i32 },
    /// A seat reported which kind of layer-shell focus is active.
    SeatLayerShellFocus { seat_id: SeatId, mode: LayerShellFocus },
    /// An interactive move of a window was requested.
    PointerMoveRequested { window_id: WindowId, seat_id: SeatId },
    /// An interactive resize of a window on the given edges was requested.
    PointerResizeRequested { window_id: WindowId, seat_id: SeatId, edges: u32 },
    /// Total pointer movement since the start of a seat's operation.
    OpDelta { seat_id: SeatId, dx: i32, dy: i32 },
    /// The input driving a seat's operation was released.
    OpRelease { seat_id: SeatId },
}

/// How windows are decorated: whether clients draw their own decorations
/// by default, and the width and colours (0xAARRGGBB) of the borders the
/// window manager draws.
#[derive(Debug, Clone, Copy, PartialEq, Eq, Structural)]
pub struct Appearance {
    pub decorations: bool,
    pub border_width: Option<i32>,
    pub border_color_focused: Option<u32>,
    pub border_color_unfocused: Option<u32>,
}

/// Everything the window manager keeps between events. Windows, outputs,
/// seats and trees are kept as records in vectors, each under a distinct
/// identifier (seats in ascending order, as an ordered map walks them), so
/// that every contract fixes which record a lookup finds and the order in
/// which records are walked.
#[derive(Debug)]
pub struct WMState {
    /// Known windows, with distinct identifiers.
    pub windows: Vec<Window>,
    /// Known outputs, with distinct identifiers.
    pub outputs: Vec<Output>,
    /// Known seats, in ascending identifier order.
    pub seats: Vec<(SeatId, Seat)>,
    /// One layout tree per output, with distinct output identifiers. A tree
    /// may outlive its output until its windows move elsewhere.
    pub output_trees: Vec<(OutputId, LayoutTree)>,
    /// The focus stack, the focused window and the focus still to be sent.
    pub focus: FocusState,
    /// The output that has focus.
    pub focused_output: Option<OutputId>,
    /// The seat that commands act for.
    pub current_seat: Option<SeatId>,
    /// Split direction previewed for the next spawned window.
    pub pending_split: Option<FocusDirection>,
    /// Layout settings applied to every tree, once a configuration is loaded.
    pub layout_config: Option<LayoutConfig>,
    /// Decorations and borders of the active configuration.
    pub appearance: Appearance,
    /// Default floating / pseudo-tiled size, in permyriad of the output.
    pub float_ratio: u32,
    /// Split ratio change of a resize step, in permyriad.
    pub resize_delta_ratio: i32,
    /// Floating size change of a resize step, in permyriad of the output.
    pub resize_delta_percent: i32,
    /// Windows to close on the next manage sequence.
    pub pending_closes: Vec<u32>,
    /// Window rules of the active configuration.
    pub window_rules: Option<WindowRules>,
    /// Windows in render stacking order, recomputed when empty.
    pub render_order_cache: Vec<u32>,
    /// Keybindings must be recreated on the compositor side.
    pub keybindings_dirty: bool,
    /// Pointer bindings must be recreated on the compositor side.
    pub pointer_bindings_dirty: bool,
    /// The layer-shell default output must be sent again.
    pub layer_shell_default_dirty: bool,
    /// A manage sequence has been requested from the compositor.
    pub manage_requested: bool,
    /// The scene as of the last manage sequence.
    pub last_manage_scene: Vec<SceneEntry>,
    /// The scene as of the last render sequence.
    pub last_render_scene: Vec<SceneEntry>,
}

impl WMState {
    /// The well-formedness of the state.
    pub open spec fn wf(self) -> bool {
        &&& spec_distinct(self.windows@, window_key())
        &&& spec_distinct(self.outputs@, output_key())
        &&& spec_ascending(self.seats@, seat_key())
        &&& spec_distinct(self.output_trees@, tree_key())
        &&& forall|i: int| 0 <= i < self.output_trees@.len() ==> (#[trigger] self.output_trees@[i]).1.wf()
    }

    /// Position of window `id`.
    pub open spec fn window_index(self, id: WindowId) -> Option<int> {
        spec_last_index_with(self.windows@, id.0, window_key())
    }

    /// Position of output `id`.
    pub open spec fn output_index(self, id: OutputId) -> Option<int> {
        spec_last_index_with(self.outputs@, id.0, output_key())
    }

    /// Position of seat `id`.
    pub open spec fn seat_index(self, id: SeatId) -> Option<int> {
        spec_last_index_with(self.seats@, id.0, seat_key())
    }

    /// Position of the tree of output `id`.
    pub open spec fn tree_index(self, id: OutputId) -> Option<int> {
        spec_last_index_with(self.output_trees@, id.0, tree_key())
    }

    /// Window `id`, if known.
    pub open spec fn window(self, id: WindowId) -> Option<Window> {
        match self.window_index(id) {
            Some(i) => Some(self.windows@[i]),
            None => None,
        }
    }

    /// Output `id`, if known.
    pub open spec fn output(self, id: OutputId) -> Option<Output> {
        match self.output_index(id) {
            Some(i) => Some(self.outputs@[i]),
            None => None,
        }
    }

    /// Seat `id`, if known.
    pub open spec fn seat(self, id: SeatId) -> Option<Seat> {
        match self.seat_index(id) {
            Some(i) => Some(self.seats@[i].1),
            None => None,
        }
    }

    /// The tree of output `id`, if there is one.
    pub open spec fn tree(self, id: OutputId) -> Option<LayoutTree> {
        match self.tree_index(id) {
            Some(i) => Some(self.output_trees@[i].1),
            None => None,
        }
    }

    /// A state with nothing known yet, no configuration applied (an empty
    /// layout configuration, a default size ratio of one half, no rules).
    pub fn new() -> (r: WMState)
        ensures
            r.wf(),
            r.windows@.len() == 0,
            r.outputs@.len() == 0,
            r.seats@.len() == 0,
            r.output_trees@.len() == 0,
            r.focus.stack@.len() == 0,
            r.focus.focused_window is None,
            r.focus.pending_focus is None,
            r.focused_output is None,
            r.current_seat is None,
            r.pending_split is None,
            r.layout_config is None,
            r.appearance == (Appearance {
                decorations: true,
                border_width: None,
                border_color_focused: None,
                border_color_unfocused: None,
            }),
            r.float_ratio == 5000,
            r.resize_delta_ratio == 500,
            r.resize_delta_percent == 500,
            r.pending_closes@.len() == 0,
            r.window_rules is None,
            r.render_order_cache@.len() == 0,
            !r.keybindings_dirty,
            !r.pointer_bindings_dirty,
            !r.layer_shell_default_dirty,
            !r.manage_requested,
            r.last_manage_scene@.len() == 0,
            r.last_render_scene@.len() == 0,
    {
        WMState {
            windows: Vec::new(),
            outputs: Vec::new(),
            seats: Vec::new(),
            output_trees: Vec::new(),
            focus: FocusState::new(),
            focused_output: None,
            current_seat: None,
            pending_split: None,
            layout_config: None,
            appearance: Appearance {
                decorations: true,
                border_width: None,
                border_color_focused: None,
                border_color_unfocused: None,
            },
            float_ratio: 5000,
            resize_delta_ratio: 500,
            resize_delta_percent: 500,
            pending_closes: Vec::new(),
            window_rules: None,
            render_order_cache: Vec::new(),
            keybindings_dirty: false,
            pointer_bindings_dirty: false,
            layer_shell_default_dirty: false,
            manage_requested: false,
            last_manage_scene: Vec::new(),
            last_render_scene: Vec::new(),
        }
    }

    /// The state with window `id` replaced by `w`, when `id` is known.
    pub open spec fn with_window(self, id: WindowId, w: Window) -> Seq<Window> {
        match self.window_index(id) {
            Some(i) => self.windows@.update(i, w),
            None => self.windows@,
        }
    }

    /// Put `w` at position `i`, in place of the window with its identifier.
    pub(crate) fn replace_window(&mut self, i: usize, w: Window)
        requires
            old(self).wf(),
            i < old(self).windows@.len(),
            w.id == old(self).windows@[i as int].id,
        ensures
            final(self).wf(),
            *final(self) == (WMState { windows: final(self).windows, ..*old(self) }),
            final(self).windows@ == old(self).windows@.update(i as int, w),
            forall|k: WindowId| #[trigger] final(self).window_index(k) == old(self).window_index(k),
    {
        proof {
            lemma_replace_keeps_keys(self.windows@, i as int, w, window_key());
            lemma_remove_insert(self.windows@, i as int, w);
        }
        let _ = self.windows.remove(i);
        self.windows.insert(i, w);
        proof {
            assert forall|k: WindowId| #[trigger] self.window_index(k) == old(self).window_index(k) by {
                assert(spec_last_index_with(old(self).windows@.update(i as int, w), k.0, window_key())
                    == spec_last_index_with(old(self).windows@, k.0, window_key()));
            }
        }
    }

    /// Record the size hint a window reported.
    pub fn set_dimensions_hint(&mut self, id: WindowId, min_w: i32, min_h: i32, max_w: i32, max_h: i32)
        requires
            old(self).wf(),
        ensures
            final(self).wf(),
            *final(self) == (WMState { windows: final(self).windows, ..*old(self) }),
            final(self).windows@ == (match old(self).window(id) {
                Some(w) => old(self).with_window(
                    id,
                    Window {
                        dimensions_hint: crate::window::DimensionsHint {
                            min_width: min_w,
                            min_height: min_h,
                            max_width: max_w,
                            max_height: max_h,
                        },
                        ..w
                    },
                ),
                None => old(self).windows@,
            }),
    {
        if let Some(i) = self.find_window(id) {
            let mut w = self.windows.remove(i);
            proof {
                assert(w == old(self).windows@[i as int]);
            }
            w.set_dimensions_hint(min_w, min_h, max_w, max_h);
            self.windows.insert(i, w);
            proof {
                lemma_remove_insert(old(self).windows@, i as int, w);
                lemma_replace_keeps_keys(old(self).windows@, i as int, w, window_key());
                assert(self.windows@ == old(self).windows@.update(i as int, w));
                assert(old(self).window_index(id) == Some(i as int));
            }
        }
    }

    /// Record the window a window reported as its parent.
    pub fn set_parent(&mut self, id: WindowId, parent: Option<WindowId>)
        requires
            old(self).wf(),
        ensures
            final(self).wf(),
            *final(self) == (WMState { windows: final(self).windows, ..*old(self) }),
            final(self).windows@ == (match old(self).window(id) {
                Some(w) => old(self).with_window(id, Window { parent: parent, ..w }),
                None => old(self).windows@,
            }),
    {
        if let Some(i) = self.find_window(id) {
            let mut w = self.windows.remove(i);
            w.parent = parent;
            self.windows.insert(i, w);
            proof {
                lemma_remove_insert(old(self).windows@, i as int, w);
                lemma_replace_keeps_keys(old(self).windows@, i as int, w, window_key());
            }
        }
    }

    /// Record the decoration preference a window reported.
    pub fn set_decoration_hint(&mut self, id: WindowId, hint: u32)
        requires
            old(self).wf(),
        ensures
            final(self).wf(),
            *final(self) == (WMState { windows: final(self).windows, ..*old(self) }),
            final(self).windows@ == (match old(self).window(id) {
                Some(w) => old(self).with_window(id, Window { decoration_hint: Some(hint), ..w }),
                None => old(self).windows@,
            }),
    {
        if let Some(i) = self.find_window(id) {
            let mut w = self.windows.remove(i);
            w.decoration_hint = Some(hint);
            self.windows.insert(i, w);
            proof {
                lemma_remove_insert(old(self).windows@, i as int, w);
                lemma_replace_keeps_keys(old(self).windows@, i as int, w, window_key());
            }
        }
    }

    /// Record the process identifier a window reported (reinterpreted as signed).
    pub fn set_pid(&mut self, id: WindowId, pid: u32)
        requires
            old(self).wf(),
        ensures
            final(self).wf(),
            *final(self) == (WMState { windows: final(self).windows, ..*old(self) }),
            final(self).windows@ == (match old(self).window(id) {
                Some(w) => old(self).with_window(id, Window { pid: pid as i32, ..w }),
                None => old(self).windows@,
            }),
    {
        if let Some(i) = self.find_window(id) {
            let mut w = self.windows.remove(i);
            w.pid = pid as i32;
            self.windows.insert(i, w);
            proof {
                lemma_remove_insert(old(self).windows@, i as int, w);
                lemma_replace_keeps_keys(old(self).windows@, i as int, w, window_key());
            }
        }
    }

    /// Store a window's application identifier (rules are not run here).
    pub fn store_app_id(&mut self, id: WindowId, app_id: Option<String>)
        requires
            old(self).wf(),
        ensures
            final(self).wf(),
            *final(self) == (WMState { windows: final(self).windows, ..*old(self) }),
            final(self).windows@ == (match old(self).window(id) {
                Some(w) => old(self).with_window(id, Window { app_id: app_id, ..w }),
                None => old(self).windows@,
            }),
    {
        if let Some(i) = self.find_window(id) {
            let mut w = self.windows.remove(i);
            w.app_id = app_id;
            self.windows.insert(i, w);
            proof {
                lemma_remove_insert(old(self).windows@, i as int, w);
                lemma_replace_keeps_keys(old(self).windows@, i as int, w, window_key());
            }
        }
    }

    /// Store a window's title (rules are not run here).
    pub fn store_title(&mut self, id: WindowId, title: Option<String>)
        requires
            old(self).wf(),
        ensures
            final(self).wf(),
            *final(self) == (WMState { windows: final(self).windows, ..*old(self) }),
            final(self).windows@ == (match old(self).window(id) {
                Some(w) => old(self).with_window(id, Window { title: title, ..w }),
                None => old(self).windows@,
            }),
    {
        if let Some(i) = self.find_window(id) {
            let mut w = self.windows.remove(i);
            w.title = title;
            self.windows.insert(i, w);
            proof {
                lemma_remove_insert(old(self).windows@, i as int, w);
                lemma_replace_keeps_keys(old(self).windows@, i as int, w, window_key());
            }
        }
    }

    /// The trees with that of output `id` replaced by `t`, when it has one.
    pub open spec fn with_tree(self, id: OutputId, t: LayoutTree) -> Seq<(OutputId, LayoutTree)> {
        match self.tree_index(id) {
            Some(i) => self.output_trees@.update(i, (id, t)),
            None => self.output_trees@,
        }
    }

    /// Whether `new` is this state after running the window rules for
    /// window `id`: nothing happens unless the window is known, rules are
    /// loaded, and its output is known with geometry and has a tree; then
    /// the window and its tree become what the rules make of them (see
    /// [`WindowRules::spec_evaluate`], sized from the output's rectangle),
    /// and a manage sequence is requested when the window's state changed.
    pub open spec fn spec_rules_evaluated(self, id: WindowId, new: WMState) -> bool {
        match self.window(id) {
            Some(w) => match (self.window_rules, self.output(w.output_id), self.tree(w.output_id)) {
                (Some(rules), Some(o), Some(t)) => match o.spec_rect() {
                    Some(rect) => {
                        let (w2, t2, changed) = rules.spec_evaluate(w, t, rect, self.float_ratio as int);
                        &&& new == (WMState {
                            windows: new.windows,
                            output_trees: new.output_trees,
                            manage_requested: self.manage_requested || changed,
                            ..self
                        })
                        &&& new.windows@ == self.with_window(id, w2)
                        &&& new.output_trees@ == self.with_tree(w.output_id, t2)
                    },
                    None => new == self,
                },
                _ => new == self,
            },
            None => new == self,
        }
    }

    /// Run the window rules for window `id` (see
    /// [`WMState::spec_rules_evaluated`]).
    #[verifier::spinoff_prover]
    pub fn evaluate_window_rules(&mut self, id: WindowId)
        requires
            old(self).wf(),
        ensures
            final(self).wf(),
            old(self).spec_rules_evaluated(id, *final(self)),
    {
        let wi = match self.find_window(id) {
            Some(i) => i,
            None => return,
        };
        let output_id = self.windows[wi].output_id;
        if self.window_rules.is_none() {
            return;
        }
        let oi = match self.find_output(output_id) {
            Some(i) => i,
            None => return,
        };
        let rect = match self.outputs[oi].rect() {
            Some(r) => r,
            None => return,
        };
        let ti = match self.find_tree(output_id) {
            Some(i) => i,
            None => return,
        };
        let ratio = self.float_ratio;
        let ghost s0 = *self;
        let mut w = self.windows.remove(wi);
        let (oid, mut t) = self.output_trees.remove(ti);
        proof {
            assert(t == s0.output_trees@[ti as int].1);
            assert(t.wf());
        }
        let changed = match &self.window_rules {
            Some(rules) => rules.evaluate(&mut w, &mut t, rect, ratio),
            None => false,
        };
        proof {
            assert(w.id == s0.windows@[wi as int].id);
        }
        self.windows.insert(wi, w);
        self.output_trees.insert(ti, (oid, t));
        if changed {
            self.manage_requested = true;
        }
        proof {
            lemma_remove_insert(s0.windows@, wi as int, w);
            lemma_replace_keeps_keys(s0.windows@, wi as int, w, window_key());
            lemma_remove_insert(s0.output_trees@, ti as int, (oid, t));
            lemma_replace_keeps_keys(s0.output_trees@, ti as int, (oid, t), tree_key());
            assert forall|k: int| 0 <= k < self.output_trees@.len() implies (#[trigger] self.output_trees@[k]).1.wf() by {
                if k != ti {
                    assert(self.output_trees@[k] == s0.output_trees@[k]);
                }
            }
        }
    }

    /// The tree a fresh output gets: empty, laid out in the output's tiling
    /// rectangle (the empty rectangle when the output or its geometry is not
    /// known), with the configured layout settings once there are any.
    pub open spec fn spec_new_tree(self, id: OutputId) -> LayoutTree {
        let rect = match self.output(id) {
            Some(o) => match o.spec_tiling_rect() {
                Some(r) => r,
                None => Rect { x: 0, y: 0, width: 0, height: 0 },
            },
            None => Rect { x: 0, y: 0, width: 0, height: 0 },
        };
        let t = LayoutTree {
            root: None,
            focused: None,
            output_rect: rect,
            raw_output_rect: rect,
            layout_config: spec_empty_layout_config(),
            next_id: 0,
        };
        match self.layout_config {
            Some(c) => LayoutTree { layout_config: c, output_rect: spec_margin_rect(rect, c), ..t },
            None => t,
        }
    }

    /// The trees once output `id` is sure to have one.
    pub open spec fn spec_trees_ensured(self, id: OutputId) -> Seq<(OutputId, LayoutTree)> {
        match self.tree_index(id) {
            Some(_) => self.output_trees@,
            None => self.output_trees@.push((id, self.spec_new_tree(id))),
        }
    }

    /// A fresh tree for output `id` (see [`WMState::spec_new_tree`]).
    fn new_tree_for_output(&self, id: OutputId) -> (t: LayoutTree)
        ensures
            t == self.spec_new_tree(id),
            t.wf(),
    {
        let rect = match self.find_output(id) {
            Some(i) => match self.outputs[i].tiling_rect() {
                Some(r) => r,
                None => Rect::new(0, 0, 0, 0),
            },
            None => Rect::new(0, 0, 0, 0),
        };
        let mut t = LayoutTree::new(rect);
        match self.layout_config {
            Some(c) => t.set_layout_config(c),
            None => {},
        }
        t
    }

    /// Make sure output `id` has a tree and return its position.
    pub fn ensure_tree_for_output(&mut self, id: OutputId) -> (i: usize)
        requires
            old(self).wf(),
        ensures
            final(self).wf(),
            *final(self) == (WMState { output_trees: final(self).output_trees, ..*old(self) }),
            final(self).output_trees@ == old(self).spec_trees_ensured(id),
            i < final(self).output_trees@.len(),
            final(self).tree_index(id) == Some(i as int),
            final(self).output_trees@[i as int].0 == id,
            forall|k: OutputId| k != id ==> #[trigger] final(self).tree_index(k) == old(self).tree_index(k),
    {
        match self.find_tree(id) {
            Some(i) => {
                proof {
                    assert forall|k: OutputId| k != id implies #[trigger] self.tree_index(k) == old(self).tree_index(k) by {}
                }
                i
            },
            None => {
                let t = self.new_tree_for_output(id);
                let ghost s0 = self.output_trees@;
                self.output_trees.push((id, t));
                proof {
                    let s1 = self.output_trees@;
                    assert(s1 == s0.push((id, t)));
                    assert(s1.drop_last() == s0);
                    lemma_found_at(s0, id.0, tree_key());
                    assert forall|a: int, b: int| 0 <= a < b < s1.len() implies tree_key()(#[trigger] s1[a])
                        != tree_key()(#[trigger] s1[b]) by {
                        if b == s1.len() - 1 {
                            assert(tree_key()(s0[a]) != id.0);
                        }
                    }
                    assert forall|k: OutputId| k != id implies #[trigger] self.tree_index(k) == old(self).tree_index(k) by {
                        assert(tree_key()(s1.last()) == id.0);
                    }
                    assert forall|j: int| 0 <= j < s1.len() implies (#[trigger] s1[j]).1.wf() by {
                        if j < s0.len() {
                            assert(s1[j] == s0[j]);
                        }
                    }
                }
                self.output_trees.len() - 1
            },
        }
    }

    /// The position of output `id`'s tree, creating it if the output is
    /// known; `None` for an unknown output.
    pub fn tree_for_output(&mut self, id: OutputId) -> (r: Option<usize>)
        requires
            old(self).wf(),
        ensures
            final(self).wf(),
            old(self).output_index(id) is None ==> *final(self) == *old(self) && r is None,
            old(self).output_index(id) is Some ==> {
                &&& *final(self) == (WMState { output_trees: final(self).output_trees, ..*old(self) })
                &&& final(self).output_trees@ == old(self).spec_trees_ensured(id)
                &&& r matches Some(i) && i < final(self).output_trees@.len() && final(self).tree_index(id)
                    == Some(i as int) && final(self).output_trees@[i as int].0 == id
            },
            forall|k: OutputId| k != id ==> #[trigger] final(self).tree_index(k) == old(self).tree_index(k),
    {
        if self.find_output(id).is_none() {
            return None;
        }
        Some(self.ensure_tree_for_output(id))
    }

    /// The trees after focusing window `w` in output `o`'s tree, the tree
    /// being created first when the output is known.
    pub open spec fn spec_trees_focused(self, o: OutputId, w: u32) -> Seq<(OutputId, LayoutTree)> {
        if self.output_index(o) is None {
            self.output_trees@
        } else {
            let ts = self.spec_trees_ensured(o);
            let i = spec_last_index_with(ts, o.0, tree_key())->0;
            let t = ts[i].1;
            if t.has_window(w) {
                ts.update(i, (o, LayoutTree { focused: Some(w), ..t }))
            } else {
                ts
            }
        }
    }

    /// Whether `new` is this state with window `id` focused: nothing
    /// happens for an unknown window; otherwise the window goes to the top
    /// of the focus stack and becomes the focused and pending focus, its
    /// output becomes the focused output, its output's tree focuses it
    /// (see [`WMState::spec_trees_focused`]), the split preview and the
    /// render order are dropped, and a manage sequence is requested.
    pub open spec fn spec_focused(self, id: WindowId, new: WMState) -> bool {
        match self.window(id) {
            None => new == self,
            Some(w) => {
                &&& new == (WMState {
                    focus: new.focus,
                    focused_output: Some(w.output_id),
                    output_trees: new.output_trees,
                    pending_split: None,
                    render_order_cache: new.render_order_cache,
                    manage_requested: true,
                    ..self
                })
                &&& new.focus.stack@ == seq![id.0] + spec_without(self.focus.stack@, id.0)
                &&& new.focus.focused_window == Some(id.0)
                &&& new.focus.pending_focus == Some(id.0)
                &&& new.output_trees@ == self.spec_trees_focused(w.output_id, id.0)
                &&& new.render_order_cache@.len() == 0
            },
        }
    }

    /// Focus window `id` everywhere (see [`WMState::spec_focused`]).
    #[verifier::spinoff_prover]
    pub fn focus_window_id(&mut self, id: WindowId)
        requires
            old(self).wf(),
        ensures
            final(self).wf(),
            old(self).spec_focused(id, *final(self)),
    {
        let wi = match self.find_window(id) {
            Some(i) => i,
            None => return,
        };
        let output_id = self.windows[wi].output_id;
        self.pending_split = None;
        self.focus.push_focus(id.0);
        self.focused_output = Some(output_id);
        let ghost s1 = *self;
        match self.tree_for_output(output_id) {
            Some(ti) => {
                let ghost s2 = *self;
                let (oid, mut t) = self.output_trees.remove(ti);
                proof {
                    assert(t == s2.output_trees@[ti as int].1);
                    assert(t.wf());
                }
                let _ = t.focus_window(id.0);
                self.output_trees.insert(ti, (oid, t));
                proof {
                    assert(s1.spec_trees_ensured(output_id) == old(self).spec_trees_ensured(output_id));
                    assert(s2.output_trees@ == old(self).spec_trees_ensured(output_id));
                    assert(spec_last_index_with(s2.output_trees@, output_id.0, tree_key()) == Some(ti as int));
                    assert(oid == output_id);
                    lemma_remove_insert(s2.output_trees@, ti as int, (oid, t));
                    lemma_replace_keeps_keys(s2.output_trees@, ti as int, (oid, t), tree_key());
                    assert forall|k: int| 0 <= k < self.output_trees@.len() implies (#[trigger] self.output_trees@[k]).1.wf() by {
                        if k != ti {
                            assert(self.output_trees@[k] == s2.output_trees@[k]);
                        }
                    }
                }
            },
            None => {
                proof {
                    assert(old(self).output_index(output_id) is None);
                }
            },
        }
        self.focus.pending_focus = Some(id.0);
        self.render_order_cache = Vec::new();
        self.manage_requested = true;
        proof {
            let w = old(self).window(id)->0;
            assert(w.output_id == output_id);
            assert(self.focus.stack@ == seq![id.0] + spec_without(old(self).focus.stack@, id.0));
            assert(self.output_trees@ == old(self).spec_trees_focused(w.output_id, id.0));
            assert(self.render_order_cache@.len() == 0);
        }
    }

    /// The focus the closed window's tree chose once it lost window `id`.
    pub open spec fn spec_layout_focus_after_close(self, id: WindowId) -> Option<u32> {
        match self.window(id) {
            Some(w) => match self.tree(w.output_id) {
                Some(t) => t.after_remove(id.0).0.focused,
                None => None,
            },
            None => None,
        }
    }

    /// Whether `mid` is this state once window `id` is gone from its tree,
    /// the window list and the focus stack: a focused window that closes
    /// hands focus to the new top of the stack (whose output becomes the
    /// focused output when that window is known), and a pending focus on it
    /// follows the focus.
    pub open spec fn spec_close_removed(self, id: WindowId, mid: WMState) -> bool {
        let was_focused = self.focus.focused_window == Some(id.0);
        &&& mid == (WMState {
            windows: mid.windows,
            output_trees: mid.output_trees,
            focus: mid.focus,
            focused_output: mid.focused_output,
            ..self
        })
        &&& mid.windows@ == (match self.window_index(id) {
            Some(i) => self.windows@.remove(i),
            None => self.windows@,
        })
        &&& mid.output_trees@ == (match self.window(id) {
            Some(w) => match self.tree(w.output_id) {
                Some(t) => self.with_tree(w.output_id, t.after_remove(id.0).0),
                None => self.output_trees@,
            },
            None => self.output_trees@,
        })
        &&& mid.focus.stack@ == spec_without(self.focus.stack@, id.0)
        &&& mid.focus.focused_window == (if was_focused {
            if mid.focus.stack@.len() > 0 {
                Some(mid.focus.stack@[0])
            } else {
                None
            }
        } else {
            self.focus.focused_window
        })
        &&& mid.focus.pending_focus == (if self.focus.pending_focus == Some(id.0) {
            mid.focus.focused_window
        } else {
            self.focus.pending_focus
        })
        &&& mid.focused_output == (if was_focused && mid.focus.focused_window is Some && mid.window(
            WindowId(mid.focus.focused_window->0),
        ) is Some {
            Some(mid.window(WindowId(mid.focus.focused_window->0))->0.output_id)
        } else {
            self.focused_output
        })
    }

    /// Whether `new` is this state after window `id` closed: first
    /// [`WMState::spec_close_removed`]; then, only when the closed window
    /// was the focused one, the split preview is dropped and focus moves to
    /// the window its tree now focuses, else to the new focused window,
    /// whichever is still known (see [`spec_next_focus`] and
    /// [`WMState::spec_focused`]); with neither, the focused window becomes
    /// the pending focus.
    pub open spec fn spec_closed(self, id: WindowId, new: WMState) -> bool {
        exists|mid: WMState| #[trigger] self.spec_close_removed(id, mid) && {
            if self.focus.focused_window == Some(id.0) {
                let lf = self.spec_layout_focus_after_close(id);
                let ff = mid.focus.focused_window;
                let next = spec_next_focus(
                    lf,
                    lf is Some && mid.window(WindowId(lf->0)) is Some,
                    ff,
                    ff is Some && mid.window(WindowId(ff->0)) is Some,
                );
                let mid2 = WMState { pending_split: None, ..mid };
                match next {
                    Some(nf) => mid2.spec_focused(WindowId(nf), new),
                    None => new == (WMState {
                        focus: FocusState { pending_focus: mid.focus.focused_window, ..mid.focus },
                        ..mid2
                    }),
                }
            } else {
                new == mid
            }
        }
    }

    /// Whether window `id` is known (see [`WMState::window`]).
    pub fn has_window(&self, id: Option<u32>) -> (r: bool)
        ensures
            r == (id is Some && self.window(WindowId(id->0)) is Some),
    {
        match id {
            Some(w) => self.find_window(WindowId(w)).is_some(),
            None => false,
        }
    }

    /// Reconcile the trees and the focus after window `id` closed (see
    /// [`WMState::spec_closed`]).
    #[verifier::spinoff_prover]
    pub fn close_window_focus_reconcile(&mut self, id: WindowId)
        requires
            old(self).wf(),
        ensures
            final(self).wf(),
            old(self).spec_closed(id, *final(self)),
    {
        let ghost s0 = *self;
        let wi = self.find_window(id);
        let output_id = match wi {
            Some(i) => Some(self.windows[i].output_id),
            None => None,
        };
        let was_focused = match self.focus.focused_window {
            Some(f) => f == id.0,
            None => false,
        };
        let new_layout_focus = match output_id {
            Some(oid) => match self.find_tree(oid) {
                Some(ti) => {
                    let ghost s1 = *self;
                    let (o, mut t) = self.output_trees.remove(ti);
                    proof {
                        assert(t == s1.output_trees@[ti as int].1);
                        assert(t.wf());
                        lemma_found_at(s1.output_trees@, oid.0, tree_key());
                    }
                    let _ = t.remove_window(id.0);
                    let f = t.focused_window();
                    self.output_trees.insert(ti, (o, t));
                    proof {
                        lemma_remove_insert(s1.output_trees@, ti as int, (o, t));
                        lemma_replace_keeps_keys(s1.output_trees@, ti as int, (o, t), tree_key());
                        assert forall|k: int| 0 <= k < self.output_trees@.len() implies (#[trigger] self.output_trees@[k]).1.wf() by {
                            if k != ti {
                                assert(self.output_trees@[k] == s1.output_trees@[k]);
                            }
                        }
                    }
                    f
                },
                None => None,
            },
            None => None,
        };
        match wi {
            Some(i) => {
                let ghost ws = self.windows@;
                let _ = self.windows.remove(i);
                proof {
                    assert forall|a: int, b: int| 0 <= a < b < self.windows@.len() implies window_key()(
                        #[trigger] self.windows@[a],
                    ) != window_key()(#[trigger] self.windows@[b]) by {
                        let a0 = if a < i { a } else { a + 1 };
                        let b0 = if b < i { b } else { b + 1 };
                        assert(self.windows@[a] == ws[a0]);
                        assert(self.windows@[b] == ws[b0]);
                    }
                }
            },
            None => {},
        }
        self.focus.remove_focus_for_window(id.0);
        if was_focused {
            match self.focus.focused_window {
                Some(nf) => match self.find_window(WindowId(nf)) {
                    Some(k) => {
                        self.focused_output = Some(self.windows[k].output_id);
                    },
                    None => {},
                },
                None => {},
            }
        }
        let ghost mid = *self;
        proof {
            assert(s0.spec_close_removed(id, mid));
        }
        if was_focused {
            self.pending_split = None;
            let lf_known = self.has_window(new_layout_focus);
            let ff = self.focus.focused_window;
            let ff_known = self.has_window(ff);
            let next = next_focus(new_layout_focus, lf_known, ff, ff_known);
            match next {
                Some(nf) => self.focus_window_id(WindowId(nf)),
                None => {
                    self.focus.pending_focus = self.focus.focused_window;
                },
            }
        }
    }

    /// Move every known window listed in `ids` to output `to`.
    #[verifier::spinoff_prover]
    pub fn move_windows_to(&mut self, ids: &Vec<u32>, to: OutputId)
        requires
            old(self).wf(),
        ensures
            final(self).wf(),
            *final(self) == (WMState { windows: final(self).windows, ..*old(self) }),
            final(self).windows@ == spec_moved(old(self).windows@, ids@, to),
            forall|k: WindowId| #[trigger] final(self).window_index(k) == old(self).window_index(k),
    {
        let ghost ws0 = self.windows@;
        let mut k: usize = 0;
        proof {
            assert(spec_moved(ws0, ids@.take(0), to) =~= ws0);
        }
        while k < ids.len()
            invariant
                k <= ids.len(),
                self.wf(),
                *self == (WMState { windows: self.windows, ..*old(self) }),
                ws0 == old(self).windows@,
                self.windows@ == spec_moved(ws0, ids@.take(k as int), to),
                forall|x: WindowId| #[trigger] self.window_index(x) == old(self).window_index(x),
            decreases ids.len() - k,
        {
            let ghost cur = self.windows@;
            let ghost prev = *self;
            let target = ids[k];
            proof {
                assert(ids@.take(k + 1) =~= ids@.take(k as int).push(target));
                assert forall|y: u32| #[trigger] ids@.take(k + 1).contains(y) == (ids@.take(k as int).contains(y) || y == target) by {
                    if ids@.take(k + 1).contains(y) {
                        let j = choose|j: int| 0 <= j < k + 1 && #[trigger] ids@.take(k + 1)[j] == y;
                        if j < k {
                            assert(ids@.take(k as int)[j] == y);
                        }
                    }
                    if ids@.take(k as int).contains(y) {
                        let j = choose|j: int| 0 <= j < k && #[trigger] ids@.take(k as int)[j] == y;
                        assert(ids@.take(k + 1)[j] == y);
                    }
                    if y == target {
                        assert(ids@.take(k + 1)[k as int] == y);
                    }
                }
                lemma_found_at(cur, target, window_key());
            }
            match self.find_window(WindowId(target)) {
                Some(i) => {
                    let mut w = self.windows.remove(i);
                    w.set_output_id(to);
                    self.windows.insert(i, w);
                    proof {
                        lemma_remove_insert(cur, i as int, w);
                        lemma_replace_keeps_keys(cur, i as int, w, window_key());
                        assert forall|x: WindowId| #[trigger] self.window_index(x) == old(self).window_index(x) by {
                            assert(spec_last_index_with(cur.update(i as int, w), x.0, window_key())
                                == spec_last_index_with(cur, x.0, window_key()));
                            assert(prev.window_index(x) == old(self).window_index(x));
                        }
                        assert(self.windows@ =~= spec_moved(ws0, ids@.take(k + 1), to)) by {
                            assert forall|j: int| 0 <= j < ws0.len() implies #[trigger] self.windows@[j]
                                == spec_moved(ws0, ids@.take(k + 1), to)[j] by {
                                if j != i {
                                    assert(window_key()(cur[j]) != target);
                                    assert(cur[j].id == ws0[j].id);
                                }
                            }
                        }
                    }
                },
                None => {
                    proof {
                        assert(self.windows@ =~= spec_moved(ws0, ids@.take(k + 1), to)) by {
                            assert forall|j: int| 0 <= j < ws0.len() implies #[trigger] self.windows@[j]
                                == spec_moved(ws0, ids@.take(k + 1), to)[j] by {
                                assert(window_key()(cur[j]) != target);
                                assert(cur[j].id == ws0[j].id);
                            }
                        }
                    }
                },
            }
            k = k + 1;
        }
        proof {
            assert(ids@.take(ids@.len() as int) =~= ids@);
        }
    }

    /// The plan for moving window `id` out of tree `t` (see
    /// [`spec_reassign_plan`]); `None` for a window that is not known.
    pub open spec fn spec_plan_for(self, t: LayoutTree, id: u32, dx: i32, dy: i32, to_rect: Rect) -> Option<
        ReassignPlan,
    > {
        match self.window(WindowId(id)) {
            Some(w) => Some(
                spec_reassign_plan(t.state_of(id), w.spec_pseudo_tiled_rect(to_rect, self.float_ratio as int), dx, dy),
            ),
            None => None,
        }
    }

    /// The plans of the windows `ids` of tree `t`.
    pub open spec fn spec_plans(self, t: LayoutTree, ids: Seq<u32>, dx: i32, dy: i32, to_rect: Rect) -> Seq<
        Option<ReassignPlan>,
    > {
        Seq::new(ids.len(), |k: int| self.spec_plan_for(t, ids[k], dx, dy, to_rect))
    }

    /// Compute the plans of the windows `ids` of tree `t` (see
    /// [`WMState::spec_plans`]).
    fn reassign_plans(&self, t: &LayoutTree, ids: &Vec<u32>, dx: i32, dy: i32, to_rect: Rect) -> (r: Vec<
        Option<ReassignPlan>,
    >)
        ensures
            r@ == self.spec_plans(*t, ids@, dx, dy, to_rect),
    {
        let mut plans: Vec<Option<ReassignPlan>> = Vec::new();
        let mut k: usize = 0;
        while k < ids.len()
            invariant
                k <= ids.len(),
                plans@ =~= self.spec_plans(*t, ids@, dx, dy, to_rect).take(k as int),
            decreases ids.len() - k,
        {
            let id = ids[k];
            let plan = match self.find_window(WindowId(id)) {
                Some(i) => {
                    let pseudo = self.windows[i].pseudo_tiled_rect(to_rect, self.float_ratio);
                    Some(reassign_plan(t.window_state(id), pseudo, dx, dy))
                },
                None => None,
            };
            plans.push(plan);
            proof {
                assert(self.spec_plans(*t, ids@, dx, dy, to_rect).take(k + 1) =~= self.spec_plans(
                    *t,
                    ids@,
                    dx,
                    dy,
                    to_rect,
                ).take(k as int).push(plan));
            }
            k = k + 1;
        }
        plans
    }

    /// Focus window `w` in the tree at position `ti`, if it holds it.
    fn focus_in_tree(&mut self, ti: usize, w: u32)
        requires
            old(self).wf(),
            ti < old(self).output_trees@.len(),
        ensures
            final(self).wf(),
            *final(self) == (WMState { output_trees: final(self).output_trees, ..*old(self) }),
            final(self).output_trees@ == (if old(self).output_trees@[ti as int].1.has_window(w) {
                old(self).output_trees@.update(
                    ti as int,
                    (
                        old(self).output_trees@[ti as int].0,
                        LayoutTree { focused: Some(w), ..old(self).output_trees@[ti as int].1 },
                    ),
                )
            } else {
                old(self).output_trees@
            }),
    {
        let ghost s0 = self.output_trees@;
        let (o, mut t) = self.output_trees.remove(ti);
        proof {
            assert(t == s0[ti as int].1);
            assert(t.wf());
        }
        let _ = t.focus_window(w);
        self.output_trees.insert(ti, (o, t));
        proof {
            lemma_remove_insert(s0, ti as int, (o, t));
            lemma_replace_keeps_keys(s0, ti as int, (o, t), tree_key());
            assert forall|k: int| 0 <= k < self.output_trees@.len() implies (#[trigger] self.output_trees@[k]).1.wf() by {
                if k != ti {
                    assert(self.output_trees@[k] == s0[k]);
                }
            }
            if !s0[ti as int].1.has_window(w) {
                assert(self.output_trees@ =~= s0);
            }
        }
    }

    /// An output's position, the origin when unknown or not set.
    pub open spec fn spec_position(self, id: OutputId) -> (i32, i32) {
        match self.output(id) {
            Some(o) => match o.position {
                Some(p) => p,
                None => (0i32, 0i32),
            },
            None => (0i32, 0i32),
        }
    }

    /// The tiling rectangle of a known output, the empty rectangle without
    /// geometry.
    pub open spec fn spec_tiling_rect_or_empty(self, id: OutputId) -> Rect {
        match self.output(id) {
            Some(o) => match o.spec_tiling_rect() {
                Some(r) => r,
                None => Rect { x: 0, y: 0, width: 0, height: 0 },
            },
            None => Rect { x: 0, y: 0, width: 0, height: 0 },
        }
    }

    /// Whether `mid` is this state with output `from`'s tree taken out and
    /// its windows moved to output `to`.
    pub open spec fn spec_reassign_moved(self, from: OutputId, to: OutputId, mid: WMState) -> bool {
        let fi = self.tree_index(from)->0;
        &&& mid == (WMState { windows: mid.windows, output_trees: mid.output_trees, ..self })
        &&& mid.windows@ == spec_moved(self.windows@, self.output_trees@[fi].1.windows(), to)
        &&& mid.output_trees@ == self.output_trees@.remove(fi)
    }

    /// Whether `placed` is `self` with the windows of `from_tree` placed in
    /// output `to`'s tree, `remembered` being the window that tree focused
    /// before. When the destination has geometry or already has a tree,
    /// that tree (created if needed) receives every window, puts each into
    /// the mode of its plan and is laid out again; otherwise the source tree
    /// is taken over whole, so its layout survives until the output's
    /// geometry arrives. Either way every moved window ends up in `to`'s
    /// tree.
    pub open spec fn spec_reassign_placed(
        self,
        from_tree: LayoutTree,
        to: OutputId,
        dx: i32,
        dy: i32,
        placed: WMState,
        remembered: Option<u32>,
    ) -> bool {
        let to_rect = self.spec_tiling_rect_or_empty(to);
        let ids = from_tree.windows();
        &&& placed == (WMState { output_trees: placed.output_trees, ..self })
        &&& if self.output(to)->0.spec_rect() is Some || self.tree_index(to) is Some {
            let ts = self.spec_trees_ensured(to);
            let ti = spec_last_index_with(ts, to.0, tree_key())->0;
            let t = ts[ti].1;
            let plans = self.spec_plans(from_tree, ids, dx, dy, to_rect);
            &&& placed.output_trees@ == ts.update(
                ti,
                (to, spec_apply_plans(spec_insert_all(t, ids), ids, plans).arranged()),
            )
            &&& remembered == t.focused
        } else {
            &&& placed.output_trees@ == self.output_trees@.push((to, spec_adopted(from_tree, dx, dy, to_rect)))
            &&& remembered == from_tree.focused
        }
    }

    /// Whether `new` is `self` after restoring focus once windows moved to
    /// output `to`: a focused window that now lives on `to` is focused
    /// everywhere; otherwise `to`'s tree focuses the window it remembered.
    pub open spec fn spec_reassign_refocused(
        self,
        to: OutputId,
        focused: Option<u32>,
        remembered: Option<u32>,
        new: WMState,
    ) -> bool {
        match focused {
            Some(f) => if self.window(WindowId(f)) matches Some(w) && w.output_id == to {
                self.spec_focused(WindowId(f), new)
            } else if remembered is Some {
                new == (WMState { output_trees: new.output_trees, ..self })
                    && new.output_trees@ == self.spec_trees_focused(to, remembered->0)
            } else {
                new == self
            },
            None => new == self,
        }
    }

    /// Whether `new` is this state after moving every window of output
    /// `from`'s tree to output `to`. Nothing happens unless `to` is a known
    /// output and `from` has a tree. Otherwise `from`'s tree goes away, its
    /// windows move to `to` ([`WMState::spec_reassign_moved`]), are placed
    /// there ([`WMState::spec_reassign_placed`], floating windows following
    /// the move from `from`'s position to `to`'s, saturated), focus is
    /// restored ([`WMState::spec_reassign_refocused`]) and a manage sequence
    /// is requested.
    pub open spec fn spec_reassigned(self, from: OutputId, to: OutputId, new: WMState) -> bool {
        if self.output_index(to) is None || self.tree_index(from) is None {
            new == self
        } else {
            let from_tree = self.output_trees@[self.tree_index(from)->0].1;
            let dx = spec_sat(self.spec_position(to).0 - self.spec_position(from).0);
            let dy = spec_sat(self.spec_position(to).1 - self.spec_position(from).1);
            exists|mid: WMState, placed: WMState, remembered: Option<u32>, refocused: WMState|
                #![trigger self.spec_reassign_moved(from, to, mid), mid.spec_reassign_placed(from_tree, to, dx, dy, placed, remembered), placed.spec_reassign_refocused(to, self.focus.focused_window, remembered, refocused)]
                {
                    &&& self.spec_reassign_moved(from, to, mid)
                    &&& mid.spec_reassign_placed(from_tree, to, dx, dy, placed, remembered)
                    &&& placed.spec_reassign_refocused(to, self.focus.focused_window, remembered, refocused)
                    &&& new == (WMState { manage_requested: true, ..refocused })
                }
        }
    }

    /// Take the tree at position `fi` out.
    fn take_tree(&mut self, fi: usize) -> (t: LayoutTree)
        requires
            old(self).wf(),
            fi < old(self).output_trees@.len(),
        ensures
            final(self).wf(),
            t.wf(),
            t == old(self).output_trees@[fi as int].1,
            *final(self) == (WMState { output_trees: final(self).output_trees, ..*old(self) }),
            final(self).output_trees@ == old(self).output_trees@.remove(fi as int),
    {
        let ghost ts0 = self.output_trees@;
        let (_, t) = self.output_trees.remove(fi);
        proof {
            assert(t == ts0[fi as int].1);
            let ts = self.output_trees@;
            assert forall|a: int, b: int| 0 <= a < b < ts.len() implies tree_key()(#[trigger] ts[a]) != tree_key()(
                #[trigger] ts[b],
            ) by {
                let a0 = if a < fi { a } else { a + 1 };
                let b0 = if b < fi { b } else { b + 1 };
                assert(ts[a] == ts0[a0]);
                assert(ts[b] == ts0[b0]);
            }
            assert forall|k: int| 0 <= k < ts.len() implies (#[trigger] ts[k]).1.wf() by {
                let k0 = if k < fi { k } else { k + 1 };
                assert(ts[k] == ts0[k0]);
            }
        }
        t
    }

    /// Place the windows `ids` of `from_tree` in output `to`'s tree (see
    /// [`WMState::spec_reassign_placed`]); returns the window that tree
    /// focused before.
    #[verifier::spinoff_prover]
    fn place_windows(
        &mut self,
        from_tree: LayoutTree,
        ids: &Vec<u32>,
        to: OutputId,
        to_i: usize,
        dx: i32,
        dy: i32,
        to_rect: Rect,
    ) -> (remembered: Option<u32>)
        requires
            old(self).wf(),
            from_tree.wf(),
            ids@ == from_tree.windows(),
            old(self).output_index(to) == Some(to_i as int),
            to_rect == old(self).spec_tiling_rect_or_empty(to),
        ensures
            final(self).wf(),
            old(self).spec_reassign_placed(from_tree, to, dx, dy, *final(self), remembered),
    {
        proof {
            lemma_found_at(self.outputs@, to.0, output_key());
        }
        let dest_has_geometry = self.outputs[to_i].rect().is_some();
        if dest_has_geometry || self.find_tree(to).is_some() {
            let plans = self.reassign_plans(&from_tree, ids, dx, dy, to_rect);
            let ti = self.ensure_tree_for_output(to);
            let ghost s1 = self.output_trees@;
            let (o, mut t) = self.output_trees.remove(ti);
            proof {
                assert(t == s1[ti as int].1);
                assert(t.wf());
            }
            let r = rebuild_tree(&mut t, ids, &plans);
            self.output_trees.insert(ti, (o, t));
            proof {
                lemma_remove_insert(s1, ti as int, (o, t));
                lemma_replace_keeps_keys(s1, ti as int, (o, t), tree_key());
                assert forall|k: int| 0 <= k < self.output_trees@.len() implies (#[trigger] self.output_trees@[k]).1.wf() by {
                    if k != ti {
                        assert(self.output_trees@[k] == s1[k]);
                    }
                }
            }
            r
        } else {
            let mut t = from_tree;
            let r = adopt_tree(&mut t, dx, dy, to_rect);
            let ghost s1 = self.output_trees@;
            self.output_trees.push((to, t));
            proof {
                let s2 = self.output_trees@;
                lemma_found_at(s1, to.0, tree_key());
                assert forall|a: int, b: int| 0 <= a < b < s2.len() implies tree_key()(#[trigger] s2[a])
                    != tree_key()(#[trigger] s2[b]) by {
                    if b == s2.len() - 1 {
                        assert(tree_key()(s1[a]) != to.0);
                    }
                }
                assert forall|j: int| 0 <= j < s2.len() implies (#[trigger] s2[j]).1.wf() by {
                    if j < s1.len() {
                        assert(s2[j] == s1[j]);
                    }
                }
            }
            r
        }
    }

    /// Restore focus after windows moved to output `to` (see
    /// [`WMState::spec_reassign_refocused`]).
    #[verifier::spinoff_prover]
    fn refocus_after_reassign(&mut self, to: OutputId, focused: Option<u32>, remembered: Option<u32>)
        requires
            old(self).wf(),
        ensures
            final(self).wf(),
            old(self).spec_reassign_refocused(to, focused, remembered, *final(self)),
    {
        match focused {
            Some(f) => {
                let on_to = match self.find_window(WindowId(f)) {
                    Some(k) => self.windows[k].output_id.0 == to.0,
                    None => false,
                };
                if on_to {
                    self.focus_window_id(WindowId(f));
                } else {
                    match remembered {
                        Some(r) => {
                            let ghost s0 = *self;
                            match self.tree_for_output(to) {
                                Some(ti) => {
                                    self.focus_in_tree(ti, r);
                                },
                                None => {},
                            }
                            proof {
                                assert(self.output_trees@ == s0.spec_trees_focused(to, r));
                            }
                        },
                        None => {},
                    }
                }
            },
            None => {},
        }
    }

    /// Move every window of output `from`'s tree to output `to` (see
    /// [`WMState::spec_reassigned`]).
    #[verifier::spinoff_prover]
    #[verifier::rlimit(40)]
    pub fn reassign_output(&mut self, from: OutputId, to: OutputId)
        requires
            old(self).wf(),
        ensures
            final(self).wf(),
            old(self).spec_reassigned(from, to, *final(self)),
    {
        let to_i = match self.find_output(to) {
            Some(i) => i,
            None => return,
        };
        let fi = match self.find_tree(from) {
            Some(i) => i,
            None => return,
        };
        let to_rect = match self.outputs[to_i].tiling_rect() {
            Some(r) => r,
            None => Rect::new(0, 0, 0, 0),
        };
        let from_pos = match self.find_output(from) {
            Some(i) => match self.outputs[i].position {
                Some(p) => p,
                None => (0, 0),
            },
            None => (0, 0),
        };
        let to_pos = match self.outputs[to_i].position {
            Some(p) => p,
            None => (0, 0),
        };
        let dx = sat_i32(to_pos.0 as i64 - from_pos.0 as i64);
        let dy = sat_i32(to_pos.1 as i64 - from_pos.1 as i64);
        let ghost s0 = *self;
        let from_tree = self.take_tree(fi);
        let ids = from_tree.visible_windows();
        self.move_windows_to(&ids, to);
        let ghost mid = *self;
        proof {
            assert(s0.spec_reassign_moved(from, to, mid));
            assert(mid.output_index(to) == s0.output_index(to));
            assert(mid.output(to) == s0.output(to));
        }
        let previously_focused = self.focus.focused_window;
        let remembered = self.place_windows(from_tree, &ids, to, to_i, dx, dy, to_rect);
        let ghost placed = *self;
        self.refocus_after_reassign(to, previously_focused, remembered);
        let ghost refocused = *self;
        self.manage_requested = true;
        proof {
            assert(dx == spec_sat(s0.spec_position(to).0 - s0.spec_position(from).0));
            assert(dy == spec_sat(s0.spec_position(to).1 - s0.spec_position(from).1));
            assert(s0.spec_reassign_moved(from, to, mid));
            assert(mid.spec_reassign_placed(from_tree, to, dx, dy, placed, remembered));
            assert(placed.spec_reassign_refocused(to, s0.focus.focused_window, remembered, refocused));
        }
    }

    /// Whether `new` is this state after window `id` was created on output
    /// `out`: the window is recorded (replacing a record with its
    /// identifier), inserted into `out`'s tree (created if needed), put on
    /// top of the focus stack as the focused and pending focus with `out`
    /// as the focused output; the split preview is consumed and a manage
    /// sequence is requested.
    pub open spec fn spec_window_created(self, id: WindowId, out: OutputId, new: WMState) -> bool {
        let w = spec_new_window(id, out);
        let ts = self.spec_trees_ensured(out);
        let ti = spec_last_index_with(ts, out.0, tree_key())->0;
        &&& new == (WMState {
            windows: new.windows,
            output_trees: new.output_trees,
            focus: new.focus,
            focused_output: Some(out),
            pending_split: None,
            manage_requested: true,
            ..self
        })
        &&& new.windows@ == (match self.window_index(id) {
            Some(i) => self.windows@.update(i, w),
            None => self.windows@.push(w),
        })
        &&& new.output_trees@ == ts.update(ti, (out, ts[ti].1.after_insert(id.0).0))
        &&& new.focus.stack@ == seq![id.0] + spec_without(self.focus.stack@, id.0)
        &&& new.focus.focused_window == Some(id.0)
        &&& new.focus.pending_focus == Some(id.0)
    }

    /// Record window `w`, replacing a record with its identifier.
    fn put_window(&mut self, w: Window)
        requires
            old(self).wf(),
        ensures
            final(self).wf(),
            *final(self) == (WMState { windows: final(self).windows, ..*old(self) }),
            final(self).windows@ == (match old(self).window_index(w.id) {
                Some(i) => old(self).windows@.update(i, w),
                None => old(self).windows@.push(w),
            }),
    {
        match self.find_window(w.id) {
            Some(i) => {
                proof {
                    lemma_found_at(self.windows@, w.id.0, window_key());
                }
                self.replace_window(i, w);
            },
            None => {
                let ghost s0 = self.windows@;
                proof {
                    lemma_found_at(s0, w.id.0, window_key());
                }
                self.windows.push(w);
                proof {
                    let s1 = self.windows@;
                    assert forall|a: int, b: int| 0 <= a < b < s1.len() implies window_key()(#[trigger] s1[a])
                        != window_key()(#[trigger] s1[b]) by {
                        if b == s1.len() - 1 {
                            assert(window_key()(s0[a]) != w.id.0);
                        }
                    }
                }
            },
        }
    }

    /// Handle the creation of window `id` on output `out` (see
    /// [`WMState::spec_window_created`]).
    #[verifier::spinoff_prover]
    pub fn window_created(&mut self, id: WindowId, out: OutputId)
        requires
            old(self).wf(),
        ensures
            final(self).wf(),
            old(self).spec_window_created(id, out, *final(self)),
    {
        let w = Window::new(id, out);
        proof {
            assert(w == spec_new_window(id, out));
        }
        self.put_window(w);
        self.pending_split = None;
        let ti = self.ensure_tree_for_output(out);
        let ghost s1 = self.output_trees@;
        let (o, mut t) = self.output_trees.remove(ti);
        proof {
            assert(t == s1[ti as int].1);
            assert(t.wf());
        }
        let _ = t.insert_window(id.0);
        self.output_trees.insert(ti, (o, t));
        proof {
            lemma_remove_insert(s1, ti as int, (o, t));
            lemma_replace_keeps_keys(s1, ti as int, (o, t), tree_key());
            assert forall|k: int| 0 <= k < self.output_trees@.len() implies (#[trigger] self.output_trees@[k]).1.wf() by {
                if k != ti {
                    assert(self.output_trees@[k] == s1[k]);
                }
            }
        }
        self.focus.push_focus(id.0);
        self.focused_output = Some(out);
        self.focus.pending_focus = Some(id.0);
        self.manage_requested = true;
    }

    /// The outputs of the trees in `ts`, in order, that `self` does not
    /// know.
    pub open spec fn spec_orphans(self, ts: Seq<(OutputId, LayoutTree)>) -> Seq<OutputId>
        decreases ts.len(),
    {
        if ts.len() == 0 {
            Seq::empty()
        } else {
            let r = self.spec_orphans(ts.drop_last());
            if self.output(ts.last().0) is None {
                r.push(ts.last().0)
            } else {
                r
            }
        }
    }

    /// This state with output `o` focused, the layer-shell default to be
    /// sent again when that changed the focused output.
    pub open spec fn spec_output_focused(self, o: OutputId) -> WMState {
        if self.focused_output != Some(o) {
            WMState { focused_output: Some(o), layer_shell_default_dirty: true, ..self }
        } else {
            self
        }
    }

    /// Focus output `o` (see [`WMState::spec_output_focused`]).
    pub fn set_focused_output(&mut self, o: OutputId)
        ensures
            *final(self) == old(self).spec_output_focused(o),
    {
        let same = match self.focused_output {
            Some(f) => f.0 == o.0,
            None => false,
        };
        if !same {
            self.focused_output = Some(o);
            self.layer_shell_default_dirty = true;
        }
    }

    /// Whether `new` is `self` after the tree of orphaned output `o` moved
    /// to output `to`, focus following when `o` was the focused output.
    pub open spec fn spec_orphan_moved(self, o: OutputId, to: OutputId, new: WMState) -> bool {
        let s1 = if self.focused_output == Some(o) {
            self.spec_output_focused(to)
        } else {
            self
        };
        s1.spec_reassigned(o, to, new)
    }

    /// Whether the states `tr` go from `self` to `new` moving the trees of
    /// the orphaned outputs `os` to output `to` one after another.
    pub open spec fn spec_orphan_trace(self, os: Seq<OutputId>, to: OutputId, new: WMState, tr: Seq<WMState>) -> bool {
        &&& tr.len() == os.len() + 1
        &&& tr[0] == self
        &&& tr.last() == new
        &&& forall|i: int| 0 <= i < os.len() ==> #[trigger] tr[i].spec_orphan_moved(os[i], to, tr[i + 1])
    }

    /// Whether `new` is `self` after the trees of the orphaned outputs `os`
    /// moved, one after another, to output `to`.
    pub open spec fn spec_orphans_moved(self, os: Seq<OutputId>, to: OutputId, new: WMState) -> bool {
        exists|tr: Seq<WMState>| #[trigger] self.spec_orphan_trace(os, to, new, tr)
    }

    /// Whether `new` is this state after output `id` appeared: it is
    /// recorded with no geometry yet (replacing a record with its
    /// identifier); the trees of outputs that are no longer known move to it
    /// ([`WMState::spec_orphans_moved`]); and it becomes the focused output
    /// when none is.
    pub open spec fn spec_output_created(self, id: OutputId, new: WMState) -> bool {
        exists|added: WMState, moved: WMState|
            #![trigger self.spec_output_added(id, added), added.spec_orphans_moved(added.spec_orphans(added.output_trees@), id, moved)]
            {
                &&& self.spec_output_added(id, added)
                &&& added.spec_orphans_moved(added.spec_orphans(added.output_trees@), id, moved)
                &&& new == (if moved.focused_output is None {
                    moved.spec_output_focused(id)
                } else {
                    moved
                })
            }
    }

    /// Whether `new` is this state with output `id` recorded afresh.
    pub open spec fn spec_output_added(self, id: OutputId, new: WMState) -> bool {
        let o = Output { id, wl_output_name: 0, position: None, dimensions: None, non_exclusive_area: None };
        &&& new == (WMState { outputs: new.outputs, ..self })
        &&& new.outputs@ == (match self.output_index(id) {
            Some(i) => self.outputs@.update(i, o),
            None => self.outputs@.push(o),
        })
    }

    /// Record output `o`, replacing a record with its identifier.
    fn put_output(&mut self, o: Output)
        requires
            old(self).wf(),
        ensures
            final(self).wf(),
            *final(self) == (WMState { outputs: final(self).outputs, ..*old(self) }),
            final(self).outputs@ == (match old(self).output_index(o.id) {
                Some(i) => old(self).outputs@.update(i, o),
                None => old(self).outputs@.push(o),
            }),
    {
        let ghost s0 = self.outputs@;
        proof {
            lemma_found_at(s0, o.id.0, output_key());
        }
        match self.find_output(o.id) {
            Some(i) => {
                self.outputs.set(i, o);
                proof {
                    lemma_replace_keeps_keys(s0, i as int, o, output_key());
                }
            },
            None => {
                self.outputs.push(o);
                proof {
                    let s1 = self.outputs@;
                    assert forall|a: int, b: int| 0 <= a < b < s1.len() implies output_key()(#[trigger] s1[a])
                        != output_key()(#[trigger] s1[b]) by {
                        if b == s1.len() - 1 {
                            assert(output_key()(s0[a]) != o.id.0);
                        }
                    }
                }
            },
        }
    }

    /// The outputs of the trees whose output is not known, in tree order
    /// (see [`WMState::spec_orphans`]).
    fn orphaned_outputs(&self) -> (r: Vec<OutputId>)
        ensures
            r@ == self.spec_orphans(self.output_trees@),
    {
        let mut out: Vec<OutputId> = Vec::new();
        let mut k: usize = 0;
        while k < self.output_trees.len()
            invariant
                k <= self.output_trees@.len(),
                out@ == self.spec_orphans(self.output_trees@.take(k as int)),
            decreases self.output_trees@.len() - k,
        {
            let o = self.output_trees[k].0;
            proof {
                assert(self.output_trees@.take(k + 1).drop_last() =~= self.output_trees@.take(k as int));
            }
            if self.find_output(o).is_none() {
                out.push(o);
            }
            k = k + 1;
        }
        proof {
            assert(self.output_trees@.take(self.output_trees@.len() as int) =~= self.output_trees@);
        }
        out
    }

    /// Handle the appearance of output `id` (see
    /// [`WMState::spec_output_created`]).
    #[verifier::spinoff_prover]
    pub fn output_created(&mut self, id: OutputId)
        requires
            old(self).wf(),
        ensures
            final(self).wf(),
            old(self).spec_output_created(id, *final(self)),
    {
        self.put_output(Output::new(id));
        let ghost added = *self;
        let orphans = self.orphaned_outputs();
        let mut k: usize = 0;
        let ghost mut tr: Seq<WMState> = seq![added];
        while k < orphans.len()
            invariant
                k <= orphans@.len(),
                self.wf(),
                orphans@ == added.spec_orphans(added.output_trees@),
                tr.len() == k + 1,
                tr[0] == added,
                tr.last() == *self,
                forall|i: int| 0 <= i < k ==> #[trigger] tr[i].spec_orphan_moved(orphans@[i], id, tr[i + 1]),
            decreases orphans@.len() - k,
        {
            let o = orphans[k];
            let ghost before = *self;
            let focused_here = match self.focused_output {
                Some(f) => f.0 == o.0,
                None => false,
            };
            if focused_here {
                self.set_focused_output(id);
            }
            self.reassign_output(o, id);
            proof {
                assert(before.spec_orphan_moved(o, id, *self));
                let tr2 = tr.push(*self);
                assert forall|i: int| 0 <= i < k + 1 implies #[trigger] tr2[i].spec_orphan_moved(orphans@[i], id, tr2[i + 1]) by {
                    if i < k {
                        assert(tr2[i] == tr[i]);
                        assert(tr2[i + 1] == tr[i + 1]);
                    } else {
                        assert(tr2[i] == before);
                    }
                }
                tr = tr2;
            }
            k = k + 1;
        }
        proof {
            assert(added.spec_orphan_trace(orphans@, id, *self, tr));
        }
        let ghost moved = *self;
        if self.focused_output.is_none() {
            self.set_focused_output(id);
        }
        proof {
            assert(old(self).spec_output_added(id, added));
            assert(added.spec_orphans_moved(added.spec_orphans(added.output_trees@), id, moved));
        }
    }

    /// The seats with `seat` recorded under `id`: in place of a record with
    /// that identifier, else at its place in ascending order.
    pub open spec fn spec_seats_put(self, id: SeatId, seat: Seat) -> Seq<(SeatId, Seat)> {
        match self.seat_index(id) {
            Some(i) => self.seats@.update(i, (id, seat)),
            None => self.seats@.insert(spec_slot(self.seats@, id.0, seat_key()), (id, seat)),
        }
    }

    /// Record `seat` under `id` (see [`WMState::spec_seats_put`]).
    #[verifier::spinoff_prover]
    #[verifier::rlimit(30)]
    fn put_seat(&mut self, id: SeatId, seat: Seat)
        requires
            old(self).wf(),
        ensures
            final(self).wf(),
            *final(self) == (WMState { seats: final(self).seats, ..*old(self) }),
            final(self).seats@ == old(self).spec_seats_put(id, seat),
    {
        let ghost s0 = self.seats@;
        proof {
            lemma_found_at(s0, id.0, seat_key());
        }
        match self.find_seat(id) {
            Some(i) => {
                self.seats.set(i, (id, seat));
                proof {
                    lemma_replace_keeps_keys(s0, i as int, (id, seat), seat_key());
                }
            },
            None => {
                let mut j: usize = 0;
                proof {
                    assert(s0.subrange(0, s0.len() as int) =~= s0);
                }
                while j < self.seats.len() && self.seats[j].0.0 < id.0
                    invariant
                        j <= s0.len(),
                        self.seats@ == s0,
                        spec_slot(s0, id.0, seat_key()) == j + spec_slot(
                            s0.subrange(j as int, s0.len() as int),
                            id.0,
                            seat_key(),
                        ),
                        forall|i: int| 0 <= i < j ==> seat_key()(#[trigger] s0[i]) < id.0,
                    decreases s0.len() - j,
                {
                    proof {
                        let sub = s0.subrange(j as int, s0.len() as int);
                        assert(sub[0] == s0[j as int]);
                        assert(sub.subrange(1, sub.len() as int) =~= s0.subrange(j + 1, s0.len() as int));
                    }
                    j = j + 1;
                }
                proof {
                    let sub = s0.subrange(j as int, s0.len() as int);
                    if j < s0.len() {
                        assert(sub[0] == s0[j as int]);
                        assert(seat_key()(s0[j as int]) != id.0);
                    }
                    assert(spec_slot(sub, id.0, seat_key()) == 0);
                }
                self.seats.insert(j, (id, seat));
                proof {
                    let s1 = self.seats@;
                    assert(s1 == s0.insert(j as int, (id, seat)));
                    assert forall|a: int, b: int| 0 <= a < b < s1.len() implies seat_key()(#[trigger] s1[a])
                        < seat_key()(#[trigger] s1[b]) by {
                        if b < j {
                            assert(s1[a] == s0[a] && s1[b] == s0[b]);
                        } else if b == j {
                            assert(s1[a] == s0[a]);
                        } else if a < j {
                            assert(s1[a] == s0[a] && s1[b] == s0[b - 1]);
                            assert(seat_key()(s0[j as int]) > id.0);
                            if b - 1 > j {
                                assert(seat_key()(s0[j as int]) < seat_key()(s0[b - 1]));
                            }
                        } else if a == j {
                            assert(s1[b] == s0[b - 1]);
                            assert(seat_key()(s0[j as int]) > id.0);
                            if b - 1 > j {
                                assert(seat_key()(s0[j as int]) < seat_key()(s0[b - 1]));
                            }
                        } else {
                            assert(s1[a] == s0[a - 1] && s1[b] == s0[b - 1]);
                        }
                    }
                }
            },
        }
    }

    /// This state with the compositor-side bindings to be recreated, once a
    /// configuration is loaded.
    pub open spec fn spec_bindings_reconciled(self) -> WMState {
        if self.layout_config is Some {
            WMState { keybindings_dirty: true, pointer_bindings_dirty: true, ..self }
        } else {
            self
        }
    }

    /// Mark the compositor-side bindings for recreation (see
    /// [`WMState::spec_bindings_reconciled`]).
    fn reconcile_bindings(&mut self)
        ensures
            *final(self) == old(self).spec_bindings_reconciled(),
    {
        if self.layout_config.is_some() {
            self.keybindings_dirty = true;
            self.pointer_bindings_dirty = true;
        }
    }

    /// Whether `new` is this state after seat `id` appeared: a fresh seat
    /// record (see [`WMState::spec_seats_put`]), the current seat when
    /// there is none, bindings to recreate and a manage sequence requested.
    pub open spec fn spec_seat_created(self, id: SeatId, new: WMState) -> bool {
        let s1 = WMState {
            seats: new.seats,
            current_seat: if self.current_seat is None {
                Some(id)
            } else {
                self.current_seat
            },
            ..self
        };
        &&& new == (WMState { manage_requested: true, ..s1.spec_bindings_reconciled() })
        &&& new.seats@ == self.spec_seats_put(id, spec_new_seat())
    }

    /// Handle the appearance of seat `id` (see
    /// [`WMState::spec_seat_created`]).
    pub fn seat_created(&mut self, id: SeatId)
        requires
            old(self).wf(),
        ensures
            final(self).wf(),
            old(self).spec_seat_created(id, *final(self)),
    {
        let seat = Seat::new();
        proof {
            assert(seat == spec_new_seat());
        }
        self.put_seat(id, seat);
        if self.current_seat.is_none() {
            self.current_seat = Some(id);
        }
        self.reconcile_bindings();
        self.manage_requested = true;
    }

    /// Whether `new` is this state after seat `id` went away: its record
    /// is dropped; when it was the current seat, or the current seat is no
    /// longer known, the seat with the lowest identifier (if any) becomes
    /// current; bindings are to be recreated and a manage sequence is
    /// requested.
    pub open spec fn spec_seat_removed(self, id: SeatId, new: WMState) -> bool {
        let seats = match self.seat_index(id) {
            Some(i) => self.seats@.remove(i),
            None => self.seats@,
        };
        let stale = match self.current_seat {
            Some(c) => c == id || spec_last_index_with(seats, c.0, seat_key()) is None,
            None => false,
        };
        let s1 = WMState {
            seats: new.seats,
            current_seat: if stale {
                if seats.len() > 0 {
                    Some(seats[0].0)
                } else {
                    None
                }
            } else {
                self.current_seat
            },
            ..self
        };
        &&& new == (WMState { manage_requested: true, ..s1.spec_bindings_reconciled() })
        &&& new.seats@ == seats
    }

    /// Handle the removal of seat `id` (see [`WMState::spec_seat_removed`]).
    #[verifier::spinoff_prover]
    pub fn seat_removed(&mut self, id: SeatId)
        requires
            old(self).wf(),
        ensures
            final(self).wf(),
            old(self).spec_seat_removed(id, *final(self)),
    {
        match self.find_seat(id) {
            Some(i) => {
                let ghost s0 = self.seats@;
                let _ = self.seats.remove(i);
                proof {
                    let s1 = self.seats@;
                    assert forall|a: int, b: int| 0 <= a < b < s1.len() implies seat_key()(#[trigger] s1[a])
                        < seat_key()(#[trigger] s1[b]) by {
                        let a0 = if a < i { a } else { a + 1 };
                        let b0 = if b < i { b } else { b + 1 };
                        assert(s1[a] == s0[a0]);
                        assert(s1[b] == s0[b0]);
                    }
                }
            },
            None => {},
        }
        let stale = match self.current_seat {
            Some(c) => c.0 == id.0 || self.find_seat(c).is_none(),
            None => false,
        };
        if stale {
            self.current_seat = if self.seats.len() > 0 {
                Some(self.seats[0].0)
            } else {
                None
            };
        }
        self.reconcile_bindings();
        self.manage_requested = true;
    }

    /// The seats with seat `id` replaced by `seat`, when `id` is known.
    pub open spec fn with_seat(self, id: SeatId, seat: Seat) -> Seq<(SeatId, Seat)> {
        match self.seat_index(id) {
            Some(i) => self.seats@.update(i, (id, seat)),
            None => self.seats@,
        }
    }

    /// Put `seat` at position `i`, under the identifier already there.
    pub(crate) fn replace_seat(&mut self, i: usize, seat: Seat)
        requires
            old(self).wf(),
            i < old(self).seats@.len(),
        ensures
            final(self).wf(),
            *final(self) == (WMState { seats: final(self).seats, ..*old(self) }),
            final(self).seats@ == old(self).seats@.update(i as int, (old(self).seats@[i as int].0, seat)),
    {
        let ghost s0 = self.seats@;
        let sid = self.seats[i].0;
        self.seats.set(i, (sid, seat));
        proof {
            lemma_replace_keeps_keys(s0, i as int, (sid, seat), seat_key());
        }
    }

    /// Record the global name of seat `id`'s `wl_seat`.
    pub fn set_seat_name(&mut self, id: SeatId, name: u32)
        requires
            old(self).wf(),
        ensures
            final(self).wf(),
            *final(self) == (WMState { seats: final(self).seats, ..*old(self) }),
            final(self).seats@ == (match old(self).seat(id) {
                Some(seat) => old(self).with_seat(id, Seat { wl_seat_name: name, ..seat }),
                None => old(self).seats@,
            }),
    {
        proof {
            lemma_found_at(self.seats@, id.0, seat_key());
        }
        if let Some(i) = self.find_seat(id) {
            let mut seat = self.seats[i].1;
            seat.wl_seat_name = name;
            self.replace_seat(i, seat);
        }
    }

    /// Record where seat `id`'s pointer is.
    pub fn set_seat_pointer_position(&mut self, id: SeatId, x: i32, y: i32)
        requires
            old(self).wf(),
        ensures
            final(self).wf(),
            *final(self) == (WMState { seats: final(self).seats, ..*old(self) }),
            final(self).seats@ == (match old(self).seat(id) {
                Some(seat) => old(self).with_seat(id, Seat { pointer_position: Some((x, y)), ..seat }),
                None => old(self).seats@,
            }),
    {
        proof {
            lemma_found_at(self.seats@, id.0, seat_key());
        }
        if let Some(i) = self.find_seat(id) {
            let mut seat = self.seats[i].1;
            seat.pointer_position = Some((x, y));
            self.replace_seat(i, seat);
        }
    }

    /// Whether `new` is this state after seat `id` reported its layer-shell
    /// focus `mode`: the seat records it; when a layer surface gave focus
    /// back, the focused window is to be focused again; a manage sequence is
    /// requested.
    pub open spec fn spec_layer_focus_set(self, id: SeatId, mode: LayerShellFocus, new: WMState) -> bool {
        &&& new == (WMState {
            seats: new.seats,
            focus: FocusState {
                pending_focus: if mode == LayerShellFocus::NoFocus && self.focus.focused_window is Some {
                    self.focus.focused_window
                } else {
                    self.focus.pending_focus
                },
                ..self.focus
            },
            manage_requested: true,
            ..self
        })
        &&& new.seats@ == (match self.seat(id) {
            Some(seat) => self.with_seat(id, Seat { layer_shell_focus: mode, ..seat }),
            None => self.seats@,
        })
    }

    /// Handle seat `id`'s layer-shell focus report (see
    /// [`WMState::spec_layer_focus_set`]).
    pub fn set_seat_layer_shell_focus(&mut self, id: SeatId, mode: LayerShellFocus)
        requires
            old(self).wf(),
        ensures
            final(self).wf(),
            old(self).spec_layer_focus_set(id, mode, *final(self)),
    {
        proof {
            lemma_found_at(self.seats@, id.0, seat_key());
        }
        if let Some(i) = self.find_seat(id) {
            let mut seat = self.seats[i].1;
            seat.layer_shell_focus = mode;
            self.replace_seat(i, seat);
        }
        let gave_back = match mode {
            LayerShellFocus::NoFocus => true,
            _ => false,
        };
        if gave_back {
            if let Some(w) = self.focus.focused_window {
                self.focus.pending_focus = Some(w);
            }
        }
        self.manage_requested = true;
    }

    /// The outputs with output `id` replaced by `o`, when `id` is known.
    pub open spec fn with_output(self, id: OutputId, o: Output) -> Seq<Output> {
        match self.output_index(id) {
            Some(i) => self.outputs@.update(i, o),
            None => self.outputs@,
        }
    }

    /// Put `o` at position `i`, in place of the output with its identifier.
    fn replace_output(&mut self, i: usize, o: Output)
        requires
            old(self).wf(),
            i < old(self).outputs@.len(),
            o.id == old(self).outputs@[i as int].id,
        ensures
            final(self).wf(),
            *final(self) == (WMState { outputs: final(self).outputs, ..*old(self) }),
            final(self).outputs@ == old(self).outputs@.update(i as int, o),
    {
        let ghost s0 = self.outputs@;
        self.outputs.set(i, o);
        proof {
            lemma_replace_keeps_keys(s0, i as int, o, output_key());
        }
    }

    /// Record the global name of output `id`'s `wl_output`; a manage
    /// sequence is requested when the output is known.
    pub fn set_output_name(&mut self, id: OutputId, name: u32)
        requires
            old(self).wf(),
        ensures
            final(self).wf(),
            match old(self).output(id) {
                Some(o) => {
                    &&& *final(self) == (WMState { outputs: final(self).outputs, manage_requested: true, ..*old(self) })
                    &&& final(self).outputs@ == old(self).with_output(id, Output { wl_output_name: name, ..o })
                },
                None => *final(self) == *old(self),
            },
    {
        proof {
            lemma_found_at(self.outputs@, id.0, output_key());
        }
        if let Some(i) = self.find_output(id) {
            let mut o = self.outputs[i];
            o.wl_output_name = name;
            self.replace_output(i, o);
            self.manage_requested = true;
        }
    }

    /// Record output `id`'s position; a manage sequence is requested when
    /// the output is known.
    pub fn set_output_position(&mut self, id: OutputId, x: i32, y: i32)
        requires
            old(self).wf(),
        ensures
            final(self).wf(),
            match old(self).output(id) {
                Some(o) => {
                    &&& *final(self) == (WMState { outputs: final(self).outputs, manage_requested: true, ..*old(self) })
                    &&& final(self).outputs@ == old(self).with_output(id, Output { position: Some((x, y)), ..o })
                },
                None => *final(self) == *old(self),
            },
    {
        proof {
            lemma_found_at(self.outputs@, id.0, output_key());
        }
        if let Some(i) = self.find_output(id) {
            let mut o = self.outputs[i];
            o.set_position(x, y);
            self.replace_output(i, o);
            self.manage_requested = true;
        }
    }

    /// Record output `id`'s dimensions; a manage sequence is requested when
    /// the output is known.
    pub fn set_output_dimensions(&mut self, id: OutputId, w: i32, h: i32)
        requires
            old(self).wf(),
        ensures
            final(self).wf(),
            match old(self).output(id) {
                Some(o) => {
                    &&& *final(self) == (WMState { outputs: final(self).outputs, manage_requested: true, ..*old(self) })
                    &&& final(self).outputs@ == old(self).with_output(
                        id,
                        Output { dimensions: Some(crate::window::Dimensions { width: w, height: h }), ..o },
                    )
                },
                None => *final(self) == *old(self),
            },
    {
        proof {
            lemma_found_at(self.outputs@, id.0, output_key());
        }
        if let Some(i) = self.find_output(id) {
            let mut o = self.outputs[i];
            o.set_dimensions(w, h);
            self.replace_output(i, o);
            self.manage_requested = true;
        }
    }

    /// The windows of `ws` that live on output `o`, in order.
    pub open spec fn spec_windows_on(ws: Seq<Window>, o: OutputId) -> Seq<WindowId>
        decreases ws.len(),
    {
        if ws.len() == 0 {
            Seq::empty()
        } else {
            let r = Self::spec_windows_on(ws.drop_last(), o);
            if ws.last().output_id == o {
                r.push(ws.last().id)
            } else {
                r
            }
        }
    }

    /// The windows that live on output `o`, in order.
    pub fn windows_on(&self, o: OutputId) -> (r: Vec<WindowId>)
        ensures
            r@ == Self::spec_windows_on(self.windows@, o),
    {
        let mut out: Vec<WindowId> = Vec::new();
        let mut k: usize = 0;
        while k < self.windows.len()
            invariant
                k <= self.windows@.len(),
                out@ == Self::spec_windows_on(self.windows@.take(k as int), o),
            decreases self.windows@.len() - k,
        {
            proof {
                assert(self.windows@.take(k + 1).drop_last() =~= self.windows@.take(k as int));
            }
            if self.windows[k].output_id.0 == o.0 {
                out.push(self.windows[k].id);
            }
            k = k + 1;
        }
        proof {
            assert(self.windows@.take(self.windows@.len() as int) =~= self.windows@);
        }
        out
    }

    /// Whether the states `tr` go from `self` to `new` running the window
    /// rules for the windows `ids` one after another.
    pub open spec fn spec_rules_trace(self, ids: Seq<WindowId>, new: WMState, tr: Seq<WMState>) -> bool {
        &&& tr.len() == ids.len() + 1
        &&& tr[0] == self
        &&& tr.last() == new
        &&& forall|i: int| 0 <= i < ids.len() ==> #[trigger] tr[i].spec_rules_evaluated(ids[i], tr[i + 1])
    }

    /// Run the window rules for the windows `ids`, in order.
    fn evaluate_rules_for(&mut self, ids: &Vec<WindowId>)
        requires
            old(self).wf(),
        ensures
            final(self).wf(),
            exists|tr: Seq<WMState>| #[trigger] old(self).spec_rules_trace(ids@, *final(self), tr),
    {
        let mut k: usize = 0;
        let ghost mut tr: Seq<WMState> = seq![*self];
        while k < ids.len()
            invariant
                k <= ids@.len(),
                self.wf(),
                tr.len() == k + 1,
                tr[0] == *old(self),
                tr.last() == *self,
                forall|i: int| 0 <= i < k ==> #[trigger] tr[i].spec_rules_evaluated(ids@[i], tr[i + 1]),
            decreases ids@.len() - k,
        {
            let ghost before = *self;
            self.evaluate_window_rules(ids[k]);
            proof {
                let tr2 = tr.push(*self);
                assert forall|i: int| 0 <= i < k + 1 implies #[trigger] tr2[i].spec_rules_evaluated(ids@[i], tr2[i + 1]) by {
                    if i < k {
                        assert(tr2[i] == tr[i]);
                        assert(tr2[i + 1] == tr[i + 1]);
                    } else {
                        assert(tr2[i] == before);
                    }
                }
                tr = tr2;
            }
            k = k + 1;
        }
        proof {
            assert(old(self).spec_rules_trace(ids@, *self, tr));
        }
    }

    /// Whether `new` is this state after output `id` reported new
    /// dimensions: they are recorded as by
    /// [`WMState::set_output_dimensions`], then the window rules run for
    /// every window on the output, in window order.
    pub open spec fn spec_output_dimensions_updated(self, id: OutputId, w: i32, h: i32, new: WMState) -> bool {
        exists|sized: WMState, tr: Seq<WMState>|
            #![trigger sized.spec_rules_trace(Self::spec_windows_on(sized.windows@, id), new, tr)]
            {
                &&& match self.output(id) {
                    Some(o) => {
                        &&& sized == (WMState { outputs: sized.outputs, manage_requested: true, ..self })
                        &&& sized.outputs@ == self.with_output(
                            id,
                            Output { dimensions: Some(crate::window::Dimensions { width: w, height: h }), ..o },
                        )
                    },
                    None => sized == self,
                }
                &&& sized.spec_rules_trace(Self::spec_windows_on(sized.windows@, id), new, tr)
            }
    }

    /// Handle output `id`'s new dimensions (see
    /// [`WMState::spec_output_dimensions_updated`]).
    pub fn output_dimensions_updated(&mut self, id: OutputId, w: i32, h: i32)
        requires
            old(self).wf(),
        ensures
            final(self).wf(),
            old(self).spec_output_dimensions_updated(id, w, h, *final(self)),
    {
        self.set_output_dimensions(id, w, h);
        let ghost sized = *self;
        let ids = self.windows_on(id);
        self.evaluate_rules_for(&ids);
    }

    /// Focus window `id` on an interaction unless it already has focus.
    pub fn window_interaction(&mut self, id: WindowId)
        requires
            old(self).wf(),
        ensures
            final(self).wf(),
            if old(self).focus.focused_window == Some(id.0) {
                *final(self) == *old(self)
            } else {
                old(self).spec_focused(id, *final(self))
            },
    {
        let focused = match self.focus.focused_window {
            Some(f) => f == id.0,
            None => false,
        };
        if !focused {
            self.focus_window_id(id);
        }
    }

    /// Whether `new` is this state after a fullscreen toggle was asked for
    /// window `id`: nothing happens unless the window and its output are
    /// known; the output's tree (created if needed) toggles the window's
    /// fullscreen state; when that changed something, a focused window
    /// drops the split preview and the render order, and a manage sequence
    /// is requested.
    pub open spec fn spec_fullscreen_toggled(self, id: WindowId, new: WMState) -> bool {
        match self.window(id) {
            None => new == self,
            Some(w) => if self.output_index(w.output_id) is None {
                new == self
            } else {
                let ts = self.spec_trees_ensured(w.output_id);
                let ti = spec_last_index_with(ts, w.output_id.0, tree_key())->0;
                let (t2, ok) = ts[ti].1.after_toggle_fullscreen(id.0);
                let focused = self.focus.focused_window == Some(id.0);
                &&& new.output_trees@ == ts.update(ti, (w.output_id, t2))
                &&& if ok {
                    &&& new == (WMState {
                        output_trees: new.output_trees,
                        pending_split: if focused {
                            None
                        } else {
                            self.pending_split
                        },
                        render_order_cache: new.render_order_cache,
                        manage_requested: true,
                        ..self
                    })
                    &&& if focused {
                        new.render_order_cache@.len() == 0
                    } else {
                        new.render_order_cache == self.render_order_cache
                    }
                } else {
                    new == (WMState { output_trees: new.output_trees, ..self })
                }
            },
        }
    }

    /// Toggle window `id`'s fullscreen state on request (see
    /// [`WMState::spec_fullscreen_toggled`]).
    #[verifier::spinoff_prover]
    pub fn toggle_fullscreen_requested(&mut self, id: WindowId)
        requires
            old(self).wf(),
        ensures
            final(self).wf(),
            old(self).spec_fullscreen_toggled(id, *final(self)),
    {
        let wi = match self.find_window(id) {
            Some(i) => i,
            None => return,
        };
        let out = self.windows[wi].output_id;
        let ti = match self.tree_for_output(out) {
            Some(ti) => ti,
            None => return,
        };
        let ghost s1 = self.output_trees@;
        let (o, mut t) = self.output_trees.remove(ti);
        proof {
            assert(t == s1[ti as int].1);
            assert(t.wf());
        }
        let ok = t.toggle_fullscreen(id.0);
        self.output_trees.insert(ti, (o, t));
        proof {
            lemma_remove_insert(s1, ti as int, (o, t));
            lemma_replace_keeps_keys(s1, ti as int, (o, t), tree_key());
            assert forall|k: int| 0 <= k < self.output_trees@.len() implies (#[trigger] self.output_trees@[k]).1.wf() by {
                if k != ti {
                    assert(self.output_trees@[k] == s1[k]);
                }
            }
        }
        if ok {
            let focused = match self.focus.focused_window {
                Some(f) => f == id.0,
                None => false,
            };
            if focused {
                self.pending_split = None;
                self.render_order_cache = Vec::new();
            }
            self.manage_requested = true;
        }
    }

    /// The first output other than `id`, in order.
    pub open spec fn spec_other_output(s: Seq<Output>, id: OutputId) -> Option<OutputId>
        decreases s.len(),
    {
        if s.len() == 0 {
            None
        } else if s[0].id != id {
            Some(s[0].id)
        } else {
            Self::spec_other_output(s.subrange(1, s.len() as int), id)
        }
    }

    /// The first output other than `id` (see [`WMState::spec_other_output`]).
    fn other_output(&self, id: OutputId) -> (r: Option<OutputId>)
        ensures
            r == Self::spec_other_output(self.outputs@, id),
    {
        let mut k: usize = 0;
        let ghost s0 = self.outputs@;
        proof {
            assert(s0.subrange(0, s0.len() as int) =~= s0);
        }
        while k < self.outputs.len()
            invariant
                k <= s0.len(),
                s0 == self.outputs@,
                Self::spec_other_output(s0, id) == Self::spec_other_output(s0.subrange(k as int, s0.len() as int), id),
            decreases s0.len() - k,
        {
            let sub = Ghost(s0.subrange(k as int, s0.len() as int));
            proof {
                assert(sub@[0] == s0[k as int]);
                assert(sub@.subrange(1, sub@.len() as int) =~= s0.subrange(k + 1, s0.len() as int));
            }
            if self.outputs[k].id.0 != id.0 {
                return Some(self.outputs[k].id);
            }
            k = k + 1;
        }
        None
    }

    /// Whether `new` is this state after output `id` went away: its
    /// windows move to the first other output, if any
    /// ([`WMState::spec_reassigned`]); its record is dropped; a focused
    /// output that was `id` becomes that other output, else the first
    /// remaining one; a manage sequence is requested.
    pub open spec fn spec_output_removed(self, id: OutputId, new: WMState) -> bool {
        let target = Self::spec_other_output(self.outputs@, id);
        exists|moved: WMState|
            #![trigger self.spec_output_moved_out(id, target, moved)]
            {
                &&& self.spec_output_moved_out(id, target, moved)
                &&& {
                    let outs = match moved.output_index(id) {
                        Some(i) => moved.outputs@.remove(i),
                        None => moved.outputs@,
                    };
                    &&& new.outputs@ == outs
                    &&& new == (WMState {
                        outputs: new.outputs,
                        focused_output: if moved.focused_output == Some(id) {
                            match target {
                                Some(t) => Some(t),
                                None => if outs.len() > 0 {
                                    Some(outs[0].id)
                                } else {
                                    None
                                },
                            }
                        } else {
                            moved.focused_output
                        },
                        manage_requested: true,
                        ..moved
                    })
                }
            }
    }

    /// Whether `moved` is this state once output `id`'s windows moved to
    /// `target`, if there is one.
    pub open spec fn spec_output_moved_out(self, id: OutputId, target: Option<OutputId>, moved: WMState) -> bool {
        match target {
            Some(t) => self.spec_reassigned(id, t, moved),
            None => moved == self,
        }
    }

    /// Handle the removal of output `id` (see
    /// [`WMState::spec_output_removed`]).
    #[verifier::spinoff_prover]
    pub fn output_removed(&mut self, id: OutputId)
        requires
            old(self).wf(),
        ensures
            final(self).wf(),
            old(self).spec_output_removed(id, *final(self)),
    {
        let target = self.other_output(id);
        match target {
            Some(t) => self.reassign_output(id, t),
            None => {},
        }
        let ghost moved = *self;
        match self.find_output(id) {
            Some(i) => {
                let ghost s0 = self.outputs@;
                let _ = self.outputs.remove(i);
                proof {
                    let s1 = self.outputs@;
                    assert forall|a: int, b: int| 0 <= a < b < s1.len() implies output_key()(#[trigger] s1[a])
                        != output_key()(#[trigger] s1[b]) by {
                        let a0 = if a < i { a } else { a + 1 };
                        let b0 = if b < i { b } else { b + 1 };
                        assert(s1[a] == s0[a0]);
                        assert(s1[b] == s0[b0]);
                    }
                }
            },
            None => {},
        }
        let was_focused = match self.focused_output {
            Some(f) => f.0 == id.0,
            None => false,
        };
        if was_focused {
            self.focused_output = match target {
                Some(t) => Some(t),
                None => if self.outputs.len() > 0 {
                    Some(self.outputs[0].id)
                } else {
                    None
                },
            };
        }
        self.manage_requested = true;
        proof {
            assert(old(self).spec_output_moved_out(id, target, moved));
        }
    }

    /// A window's current rectangle: the one the last manage sequence gave
    /// it, else the one its tree shows it in.
    pub open spec fn spec_window_current_rect(self, id: WindowId) -> Option<Rect> {
        match self.window(id) {
            None => None,
            Some(w) => match w.layout_rect {
                Some(r) => Some(r),
                None => match self.tree(w.output_id) {
                    Some(t) => spec_entry_rect(t.entries(), id.0),
                    None => None,
                },
            },
        }
    }

    /// A window's current rectangle (see
    /// [`WMState::spec_window_current_rect`]).
    pub fn window_current_rect(&self, id: WindowId) -> (r: Option<Rect>)
        ensures
            r == self.spec_window_current_rect(id),
    {
        let wi = match self.find_window(id) {
            Some(i) => i,
            None => return None,
        };
        match self.windows[wi].layout_rect {
            Some(r) => return Some(r),
            None => {},
        }
        let out = self.windows[wi].output_id;
        match self.find_tree(out) {
            Some(ti) => {
                let entries = self.output_trees[ti].1.arranged_windows_readonly();
                entry_rect(&entries, id.0)
            },
            None => None,
        }
    }

    /// Whether seat `id` has an operation in progress.
    pub fn seat_op_active(&self, id: SeatId) -> (r: bool)
        ensures
            r == (self.seat(id) matches Some(s) && !(s.op is Inactive)),
    {
        match self.find_seat(id) {
            Some(i) => self.seats[i].1.op.is_active(),
            None => false,
        }
    }

    /// Whether `new` is this state after an interactive operation `op` on
    /// window `window` was asked for on seat `seat_id`. Nothing happens for
    /// an unknown window, a busy seat or a window without a current
    /// rectangle; otherwise a known seat records the operation anchored at
    /// that rectangle, to be announced on the next manage sequence (an
    /// `Inactive` request records nothing), and a manage sequence is
    /// requested.
    pub open spec fn spec_op_requested(self, seat_id: SeatId, window: WindowId, op: InteractiveOp, new: WMState) -> bool {
        if self.window(window) is None || (self.seat(seat_id) matches Some(s) && !(s.op is Inactive)) {
            new == self
        } else {
            match self.spec_window_current_rect(window) {
                None => new == self,
                Some(r) => match self.seat(seat_id) {
                    Some(seat) => match spec_start_op(seat, op, r) {
                        Some(s2) => new == (WMState { seats: new.seats, manage_requested: true, ..self })
                            && new.seats@ == self.with_seat(seat_id, s2),
                        None => new == self,
                    },
                    None => new == (WMState { manage_requested: true, ..self }),
                },
            }
        }
    }

    /// Record an interactive operation requested for a window (see
    /// [`WMState::spec_op_requested`]); returns whether it was accepted.
    #[verifier::spinoff_prover]
    pub fn request_interactive_op(&mut self, seat_id: SeatId, window: WindowId, op: InteractiveOp) -> (r: bool)
        requires
            old(self).wf(),
        ensures
            final(self).wf(),
            old(self).spec_op_requested(seat_id, window, op, *final(self)),
    {
        if self.find_window(window).is_none() || self.seat_op_active(seat_id) {
            return false;
        }
        let rect = match self.window_current_rect(window) {
            Some(r) => r,
            None => return false,
        };
        proof {
            lemma_found_at(self.seats@, seat_id.0, seat_key());
        }
        match self.find_seat(seat_id) {
            Some(i) => {
                let mut seat = self.seats[i].1;
                let ok = start_interactive_op(&mut seat, op, rect);
                if !ok {
                    return false;
                }
                self.replace_seat(i, seat);
            },
            None => {},
        }
        self.manage_requested = true;
        true
    }

    /// Whether `new` is this state after seat `seat_id` reported the total
    /// pointer movement `(dx, dy)` of its operation: the rectangle the
    /// operation gives the window (see [`spec_op_rect`], within the
    /// window's output when its geometry is known) is kept on the seat as
    /// its pending floating rectangle and a manage sequence is requested;
    /// nothing happens without a known seat with an operation on a known
    /// window.
    pub open spec fn spec_op_moved(self, seat_id: SeatId, dx: i32, dy: i32, new: WMState) -> bool {
        match self.seat(seat_id) {
            Some(seat) => match seat.op.spec_window_id() {
                Some(wid) => match self.window(wid) {
                    Some(w) => {
                        let out = match self.output(w.output_id) {
                            Some(o) => o.spec_rect(),
                            None => None,
                        };
                        match spec_op_rect(seat.op, w, out, dx, dy) {
                            Some(pending) => new == (WMState { seats: new.seats, manage_requested: true, ..self })
                                && new.seats@ == self.with_seat(seat_id, Seat { pending_float: Some(pending), ..seat }),
                            None => new == self,
                        }
                    },
                    None => new == self,
                },
                None => new == self,
            },
            None => new == self,
        }
    }

    /// Handle an operation's pointer movement (see
    /// [`WMState::spec_op_moved`]).
    #[verifier::spinoff_prover]
    pub fn op_delta(&mut self, seat_id: SeatId, dx: i32, dy: i32)
        requires
            old(self).wf(),
        ensures
            final(self).wf(),
            old(self).spec_op_moved(seat_id, dx, dy, *final(self)),
    {
        proof {
            lemma_found_at(self.seats@, seat_id.0, seat_key());
        }
        let si = match self.find_seat(seat_id) {
            Some(i) => i,
            None => return,
        };
        let mut seat = self.seats[si].1;
        let wid = match seat.op.window_id() {
            Some(w) => w,
            None => return,
        };
        let wi = match self.find_window(wid) {
            Some(i) => i,
            None => return,
        };
        let out = match self.find_output(self.windows[wi].output_id) {
            Some(oi) => self.outputs[oi].rect(),
            None => None,
        };
        match compute_op_rect(&seat.op, &self.windows[wi], out, dx, dy) {
            Some(pending) => {
                seat.pending_float = Some(pending);
                self.replace_seat(si, seat);
                self.manage_requested = true;
            },
            None => {},
        }
    }

    /// Handle the release of the input driving seat `seat_id`'s operation:
    /// an operation in progress is to end on the next manage sequence.
    pub fn op_release(&mut self, seat_id: SeatId)
        requires
            old(self).wf(),
        ensures
            final(self).wf(),
            match old(self).seat(seat_id) {
                Some(seat) => if !(seat.op is Inactive) {
                    &&& *final(self) == (WMState { seats: final(self).seats, manage_requested: true, ..*old(self) })
                    &&& final(self).seats@ == old(self).with_seat(seat_id, Seat { op_ending: true, ..seat })
                } else {
                    *final(self) == *old(self)
                },
                None => *final(self) == *old(self),
            },
    {
        proof {
            lemma_found_at(self.seats@, seat_id.0, seat_key());
        }
        if let Some(i) = self.find_seat(seat_id) {
            let mut seat = self.seats[i].1;
            if seat.op.is_active() {
                seat.op_ending = true;
                self.replace_seat(i, seat);
                self.manage_requested = true;
            }
        }
    }

    /// Cancel every seat's operation on window `id`: the seat goes idle and
    /// forgets its pending floating rectangle.
    pub fn cancel_ops_for_window(&mut self, id: WindowId)
        requires
            old(self).wf(),
        ensures
            final(self).wf(),
            *final(self) == (WMState { seats: final(self).seats, ..*old(self) }),
            final(self).seats@.len() == old(self).seats@.len(),
            forall|i: int|
                0 <= i < old(self).seats@.len() ==> #[trigger] final(self).seats@[i] == (
                    old(self).seats@[i].0,
                    if old(self).seats@[i].1.op.spec_window_id() == Some(id) {
                        Seat {
                            op: InteractiveOp::Inactive,
                            op_started: false,
                            op_ending: false,
                            pending_float: None,
                            ..old(self).seats@[i].1
                        }
                    } else {
                        old(self).seats@[i].1
                    },
                ),
    {
        let mut k: usize = 0;
        while k < self.seats.len()
            invariant
                k <= self.seats@.len(),
                self.wf(),
                *self == (WMState { seats: self.seats, ..*old(self) }),
                self.seats@.len() == old(self).seats@.len(),
                forall|i: int|
                    0 <= i < self.seats@.len() ==> (#[trigger] self.seats@[i]).0 == old(self).seats@[i].0,
                forall|i: int|
                    k <= i < self.seats@.len() ==> (#[trigger] self.seats@[i]) == old(self).seats@[i],
                forall|i: int|
                    0 <= i < k ==> #[trigger] self.seats@[i] == (
                        old(self).seats@[i].0,
                        if old(self).seats@[i].1.op.spec_window_id() == Some(id) {
                            Seat {
                                op: InteractiveOp::Inactive,
                                op_started: false,
                                op_ending: false,
                                pending_float: None,
                                ..old(self).seats@[i].1
                            }
                        } else {
                            old(self).seats@[i].1
                        },
                    ),
            decreases self.seats@.len() - k,
        {
            let mut seat = self.seats[k].1;
            crate::pointer::cancel_op_for_window(&mut seat, id);
            self.replace_seat(k, seat);
            k = k + 1;
        }
    }

    /// Whether `new` is this state with a configuration applied: its
    /// layout settings go to every tree (see
    /// [`LayoutTree::set_layout_config`]), its size ratio, resize steps and
    /// window rules are kept, bindings are to be recreated and a manage
    /// sequence is requested.
    pub open spec fn spec_config_loaded(
        self,
        layout: LayoutConfig,
        appearance: Appearance,
        float_ratio: u32,
        resize_delta_ratio: i32,
        resize_delta_percent: i32,
        rules: Seq<WindowRule>,
        new: WMState,
    ) -> bool {
        &&& new == (WMState {
            output_trees: new.output_trees,
            layout_config: Some(layout),
            appearance,
            float_ratio,
            resize_delta_ratio,
            resize_delta_percent,
            window_rules: new.window_rules,
            keybindings_dirty: true,
            pointer_bindings_dirty: true,
            manage_requested: true,
            ..self
        })
        &&& new.window_rules matches Some(r) && r.rules@ == rules
        &&& new.output_trees@.len() == self.output_trees@.len()
        &&& forall|i: int|
            0 <= i < self.output_trees@.len() ==> #[trigger] new.output_trees@[i] == (
                self.output_trees@[i].0,
                LayoutTree {
                    layout_config: layout,
                    output_rect: spec_margin_rect(self.output_trees@[i].1.raw_output_rect, layout),
                    ..self.output_trees@[i].1
                },
            )
    }

    /// Apply a configuration: layout settings, default size ratio and
    /// resize steps (in permyriad) and window rules (see
    /// [`WMState::spec_config_loaded`]).
    #[verifier::spinoff_prover]
    pub fn load_config(
        &mut self,
        layout: LayoutConfig,
        appearance: Appearance,
        float_ratio: u32,
        resize_delta_ratio: i32,
        resize_delta_percent: i32,
        rules: Vec<WindowRule>,
    )
        requires
            old(self).wf(),
        ensures
            final(self).wf(),
            old(self).spec_config_loaded(
                layout,
                appearance,
                float_ratio,
                resize_delta_ratio,
                resize_delta_percent,
                rules@,
                *final(self),
            ),
    {
        self.layout_config = Some(layout);
        self.appearance = appearance;
        self.float_ratio = float_ratio;
        self.resize_delta_ratio = resize_delta_ratio;
        self.resize_delta_percent = resize_delta_percent;
        let ghost s0 = *self;
        let mut k: usize = 0;
        while k < self.output_trees.len()
            invariant
                k <= self.output_trees@.len(),
                self.wf(),
                *self == (WMState { output_trees: self.output_trees, ..s0 }),
                self.output_trees@.len() == s0.output_trees@.len(),
                forall|i: int|
                    k <= i < self.output_trees@.len() ==> (#[trigger] self.output_trees@[i]) == s0.output_trees@[i],
                forall|i: int|
                    0 <= i < k ==> #[trigger] self.output_trees@[i] == (
                        s0.output_trees@[i].0,
                        LayoutTree {
                            layout_config: layout,
                            output_rect: spec_margin_rect(s0.output_trees@[i].1.raw_output_rect, layout),
                            ..s0.output_trees@[i].1
                        },
                    ),
            decreases self.output_trees@.len() - k,
        {
            let ghost s1 = self.output_trees@;
            let (o, mut t) = self.output_trees.remove(k);
            proof {
                assert(t == s1[k as int].1);
                assert(t.wf());
            }
            t.set_layout_config(layout);
            self.output_trees.insert(k, (o, t));
            proof {
                lemma_remove_insert(s1, k as int, (o, t));
                lemma_replace_keeps_keys(s1, k as int, (o, t), tree_key());
                assert forall|j: int| 0 <= j < self.output_trees@.len() implies (#[trigger] self.output_trees@[j]).1.wf() by {
                    if j != k {
                        assert(self.output_trees@[j] == s1[j]);
                    }
                }
            }
            k = k + 1;
        }
        self.keybindings_dirty = true;
        self.pointer_bindings_dirty = true;
        self.window_rules = Some(WindowRules::new(rules));
        self.manage_requested = true;
    }

    /// Whether `new` is this state with every seat's operation on window
    /// `id` cancelled: the seat goes idle and forgets its pending floating
    /// rectangle.
    pub open spec fn spec_ops_cancelled(self, id: WindowId, new: WMState) -> bool {
        &&& new == (WMState { seats: new.seats, ..self })
        &&& new.seats@.len() == self.seats@.len()
        &&& forall|i: int|
            0 <= i < self.seats@.len() ==> #[trigger] new.seats@[i] == (
                self.seats@[i].0,
                if self.seats@[i].1.op.spec_window_id() == Some(id) {
                    Seat {
                        op: InteractiveOp::Inactive,
                        op_started: false,
                        op_ending: false,
                        pending_float: None,
                        ..self.seats@[i].1
                    }
                } else {
                    self.seats@[i].1
                },
            )
    }

    /// Whether `new` is this state with window `id`'s record changed by
    /// `f`, when the window is known.
    pub open spec fn spec_window_changed(self, id: WindowId, f: spec_fn(Window) -> Window, new: WMState) -> bool {
        &&& new == (WMState { windows: new.windows, ..self })
        &&& new.windows@ == (match self.window(id) {
            Some(w) => self.with_window(id, f(w)),
            None => self.windows@,
        })
    }

    /// Whether `new` is this state with window `id`'s application
    /// identifier set to `app_id`, when the window is known.
    pub open spec fn spec_app_id_stored(self, id: WindowId, app_id: Option<String>, new: WMState) -> bool {
        self.spec_window_changed(id, |w: Window| Window { app_id, ..w }, new)
    }

    /// Whether `new` is this state with window `id`'s title set to
    /// `title`, when the window is known.
    pub open spec fn spec_title_stored(self, id: WindowId, title: Option<String>, new: WMState) -> bool {
        self.spec_window_changed(id, |w: Window| Window { title, ..w }, new)
    }

    /// Whether `new` is this state with seat `id`'s record changed by `f`,
    /// when the seat is known.
    pub open spec fn spec_seat_changed(self, id: SeatId, f: spec_fn(Seat) -> Seat, new: WMState) -> bool {
        &&& new == (WMState { seats: new.seats, ..self })
        &&& new.seats@ == (match self.seat(id) {
            Some(seat) => self.with_seat(id, f(seat)),
            None => self.seats@,
        })
    }

    /// Whether `new` is this state with output `id`'s record changed by
    /// `f` and a manage sequence requested, when the output is known.
    pub open spec fn spec_output_changed(self, id: OutputId, f: spec_fn(Output) -> Output, new: WMState) -> bool {
        match self.output(id) {
            Some(o) => {
                &&& new == (WMState { outputs: new.outputs, manage_requested: true, ..self })
                &&& new.outputs@ == self.with_output(id, f(o))
            },
            None => new == self,
        }
    }

    /// Whether `new` is this state after handling `event`; each kind of
    /// event is described by the specification of its handler.
    pub open spec fn spec_handled(self, event: Event, new: WMState) -> bool {
        match event {
            Event::WindowCreated { window_id, target_output } => self.spec_window_created(
                window_id,
                target_output,
                new,
            ),
            Event::OutputCreated { output_id } => self.spec_output_created(output_id, new),
            Event::SeatCreated { seat_id } => self.spec_seat_created(seat_id, new),
            Event::WindowClosed { window_id } => exists|mid: WMState|
                #[trigger] self.spec_closed(window_id, mid) && mid.spec_ops_cancelled(window_id, new),
            Event::WindowInteraction { window_id } => if self.focus.focused_window == Some(window_id.0) {
                new == self
            } else {
                self.spec_focused(window_id, new)
            },
            Event::DimensionsHint { window_id, min_w, min_h, max_w, max_h } => self.spec_window_changed(
                window_id,
                |w: Window|
                    Window {
                        dimensions_hint: crate::window::DimensionsHint {
                            min_width: min_w,
                            min_height: min_h,
                            max_width: max_w,
                            max_height: max_h,
                        },
                        ..w
                    },
                new,
            ),
            Event::AppIdUpdated { window_id, app_id } => exists|mid: WMState|
                #[trigger] self.spec_app_id_stored(window_id, app_id, mid) && mid.spec_rules_evaluated(
                    window_id,
                    new,
                ),
            Event::TitleUpdated { window_id, title } => exists|mid: WMState|
                #[trigger] self.spec_title_stored(window_id, title, mid) && mid.spec_rules_evaluated(
                    window_id,
                    new,
                ),
            Event::ParentUpdated { window_id, parent_id } => self.spec_window_changed(
                window_id,
                |w: Window| Window { parent: parent_id, ..w },
                new,
            ),
            Event::DecorationHintUpdated { window_id, hint } => self.spec_window_changed(
                window_id,
                |w: Window| Window { decoration_hint: Some(hint), ..w },
                new,
            ),
            Event::PidUpdated { window_id, pid } => self.spec_window_changed(
                window_id,
                |w: Window| Window { pid: pid as i32, ..w },
                new,
            ),
            Event::FullscreenRequested { window_id } => self.spec_fullscreen_toggled(window_id, new),
            Event::ExitFullscreenRequested { window_id } => self.spec_fullscreen_toggled(window_id, new),
            Event::OutputRemoved { output_id } => self.spec_output_removed(output_id, new),
            Event::OutputNameUpdated { output_id, name } => self.spec_output_changed(
                output_id,
                |o: Output| Output { wl_output_name: name, ..o },
                new,
            ),
            Event::OutputPositionUpdated { output_id, x, y } => self.spec_output_changed(
                output_id,
                |o: Output| Output { position: Some((x, y)), ..o },
                new,
            ),
            Event::OutputDimensionsUpdated { output_id, w, h } => self.spec_output_dimensions_updated(
                output_id,
                w,
                h,
                new,
            ),
            Event::SeatRemoved { seat_id } => self.spec_seat_removed(seat_id, new),
            Event::SeatNameUpdated { seat_id, name } => self.spec_seat_changed(
                seat_id,
                |seat: Seat| Seat { wl_seat_name: name, ..seat },
                new,
            ),
            Event::SeatPointerPositionUpdated { seat_id, x, y } => self.spec_seat_changed(
                seat_id,
                |seat: Seat| Seat { pointer_position: Some((x, y)), ..seat },
                new,
            ),
            Event::SeatLayerShellFocus { seat_id, mode } => self.spec_layer_focus_set(seat_id, mode, new),
            Event::PointerMoveRequested { window_id, seat_id } => self.spec_op_requested(
                seat_id,
                window_id,
                InteractiveOp::Move { window_id, initial_rect: Rect { x: 0, y: 0, width: 0, height: 0 } },
                new,
            ),
            Event::PointerResizeRequested { window_id, seat_id, edges } => self.spec_op_requested(
                seat_id,
                window_id,
                InteractiveOp::Resize {
                    window_id,
                    edges,
                    initial_rect: Rect { x: 0, y: 0, width: 0, height: 0 },
                },
                new,
            ),
            Event::OpDelta { seat_id, dx, dy } => self.spec_op_moved(seat_id, dx, dy, new),
            Event::OpRelease { seat_id } => match self.seat(seat_id) {
                Some(seat) => if !(seat.op is Inactive) {
                    &&& new == (WMState { seats: new.seats, manage_requested: true, ..self })
                    &&& new.seats@ == self.with_seat(seat_id, Seat { op_ending: true, ..seat })
                } else {
                    new == self
                },
                None => new == self,
            },
        }
    }

    /// Process an event from the compositor (see
    /// [`WMState::spec_handled`]).
    #[verifier::spinoff_prover]
    pub fn handle_event(&mut self, event: Event)
        requires
            old(self).wf(),
        ensures
            final(self).wf(),
            old(self).spec_handled(event, *final(self)),
    {
        let ghost ev = event;
        match event {
            Event::WindowCreated { window_id, target_output } => self.window_created(window_id, target_output),
            Event::OutputCreated { output_id } => self.output_created(output_id),
            Event::SeatCreated { seat_id } => self.seat_created(seat_id),
            Event::WindowClosed { window_id } => {
                self.close_window_focus_reconcile(window_id);
                let ghost mid = *self;
                self.cancel_ops_for_window(window_id);
                proof {
                    assert(mid.spec_ops_cancelled(window_id, *self));
                }
            },
            Event::WindowInteraction { window_id } => self.window_interaction(window_id),
            Event::DimensionsHint { window_id, min_w, min_h, max_w, max_h } => self.set_dimensions_hint(
                window_id,
                min_w,
                min_h,
                max_w,
                max_h,
            ),
            Event::AppIdUpdated { window_id, app_id } => {
                let ghost a = app_id;
                self.store_app_id(window_id, app_id);
                let ghost mid = *self;
                proof {
                    assert(old(self).spec_app_id_stored(window_id, a, mid));
                }
                self.evaluate_window_rules(window_id);
            },
            Event::TitleUpdated { window_id, title } => {
                let ghost t = title;
                self.store_title(window_id, title);
                let ghost mid = *self;
                proof {
                    assert(old(self).spec_title_stored(window_id, t, mid));
                }
                self.evaluate_window_rules(window_id);
            },
            Event::ParentUpdated { window_id, parent_id } => self.set_parent(window_id, parent_id),
            Event::DecorationHintUpdated { window_id, hint } => self.set_decoration_hint(window_id, hint),
            Event::PidUpdated { window_id, pid } => self.set_pid(window_id, pid),
            Event::FullscreenRequested { window_id } => self.toggle_fullscreen_requested(window_id),
            Event::ExitFullscreenRequested { window_id } => self.toggle_fullscreen_requested(window_id),
            Event::OutputRemoved { output_id } => self.output_removed(output_id),
            Event::OutputNameUpdated { output_id, name } => self.set_output_name(output_id, name),
            Event::OutputPositionUpdated { output_id, x, y } => self.set_output_position(output_id, x, y),
            Event::OutputDimensionsUpdated { output_id, w, h } => self.output_dimensions_updated(output_id, w, h),
            Event::SeatRemoved { seat_id } => self.seat_removed(seat_id),
            Event::SeatNameUpdated { seat_id, name } => self.set_seat_name(seat_id, name),
            Event::SeatPointerPositionUpdated { seat_id, x, y } => self.set_seat_pointer_position(seat_id, x, y),
            Event::SeatLayerShellFocus { seat_id, mode } => self.set_seat_layer_shell_focus(seat_id, mode),
            Event::PointerMoveRequested { window_id, seat_id } => {
                let _ = self.request_interactive_op(
                    seat_id,
                    window_id,
                    InteractiveOp::Move { window_id, initial_rect: Rect::new(0, 0, 0, 0) },
                );
            },
            Event::PointerResizeRequested { window_id, seat_id, edges } => {
                let _ = self.request_interactive_op(
                    seat_id,
                    window_id,
                    InteractiveOp::Resize { window_id, edges, initial_rect: Rect::new(0, 0, 0, 0) },
                );
            },
            Event::OpDelta { seat_id, dx, dy } => self.op_delta(seat_id, dx, dy),
            Event::OpRelease { seat_id } => self.op_release(seat_id),
        }
    }

    /// The layout state of window `id` in its output's tree, if both are
    /// there.
    pub open spec fn spec_window_state_for(self, id: WindowId) -> Option<WindowState> {
        match self.window(id) {
            Some(w) => match self.tree(w.output_id) {
                Some(t) => t.state_of(id.0),
                None => None,
            },
            None => None,
        }
    }

    /// The layout state of window `id` (see
    /// [`WMState::spec_window_state_for`]).
    pub fn window_state_for_id(&self, id: WindowId) -> (r: Option<&WindowState>)
        ensures
            match r {
                Some(st) => self.spec_window_state_for(id) == Some(*st),
                None => self.spec_window_state_for(id) is None,
            },
    {
        let wi = match self.find_window(id) {
            Some(i) => i,
            None => return None,
        };
        match self.find_tree(self.windows[wi].output_id) {
            Some(ti) => self.output_trees[ti].1.window_state(id.0),
            None => None,
        }
    }

    /// The seats a binding aimed at `target` applies to: the seat with the
    /// lowest identifier for `Primary`, every seat for `All`.
    pub open spec fn spec_seat_targets(self, target: KeyBindingTarget) -> Seq<SeatId> {
        match target {
            KeyBindingTarget::Primary => if self.seats@.len() > 0 {
                seq![self.seats@[0].0]
            } else {
                Seq::empty()
            },
            KeyBindingTarget::All => self.seats@.map_values(|e: (SeatId, Seat)| e.0),
        }
    }

    /// The seats a binding aimed at `target` applies to (see
    /// [`WMState::spec_seat_targets`]).
    pub fn resolve_seat_targets(&self, target: KeyBindingTarget) -> (r: Vec<SeatId>)
        ensures
            r@ == self.spec_seat_targets(target),
    {
        let mut out: Vec<SeatId> = Vec::new();
        match target {
            KeyBindingTarget::Primary => {
                if self.seats.len() > 0 {
                    out.push(self.seats[0].0);
                }
                proof {
                    assert(out@ =~= self.spec_seat_targets(target));
                }
            },
            KeyBindingTarget::All => {
                let mut k: usize = 0;
                while k < self.seats.len()
                    invariant
                        k <= self.seats@.len(),
                        out@ =~= self.seats@.take(k as int).map_values(|e: (SeatId, Seat)| e.0),
                    decreases self.seats@.len() - k,
                {
                    out.push(self.seats[k].0);
                    proof {
                        assert(self.seats@.take(k + 1).map_values(|e: (SeatId, Seat)| e.0) =~= self.seats@.take(
                            k as int,
                        ).map_values(|e: (SeatId, Seat)| e.0).push(self.seats@[k as int].0));
                    }
                    k = k + 1;
                }
                proof {
                    assert(self.seats@.take(self.seats@.len() as int) =~= self.seats@);
                }
            },
        }
        out
    }

    /// The rectangle seat `seat_id`'s operation gives its window after the
    /// total pointer movement `(dx, dy)` (see [`spec_op_rect`], within the
    /// window's output when its geometry is known); `None` without a known
    /// seat with an operation on a known window.
    pub open spec fn spec_state_op_rect(self, seat_id: SeatId, dx: i32, dy: i32) -> Option<(WindowId, Rect)> {
        match self.seat(seat_id) {
            Some(seat) => match seat.op.spec_window_id() {
                Some(wid) => match self.window(wid) {
                    Some(w) => spec_op_rect(
                        seat.op,
                        w,
                        match self.output(w.output_id) {
                            Some(o) => o.spec_rect(),
                            None => None,
                        },
                        dx,
                        dy,
                    ),
                    None => None,
                },
                None => None,
            },
            None => None,
        }
    }

    /// The rectangle of a seat's operation (see
    /// [`WMState::spec_state_op_rect`]).
    pub fn compute_op_rect(&self, seat_id: SeatId, dx: i32, dy: i32) -> (r: Option<(WindowId, Rect)>)
        ensures
            r == self.spec_state_op_rect(seat_id, dx, dy),
    {
        let si = match self.find_seat(seat_id) {
            Some(i) => i,
            None => return None,
        };
        let wid = match self.seats[si].1.op.window_id() {
            Some(w) => w,
            None => return None,
        };
        let wi = match self.find_window(wid) {
            Some(i) => i,
            None => return None,
        };
        let out = match self.find_output(self.windows[wi].output_id) {
            Some(oi) => self.outputs[oi].rect(),
            None => None,
        };
        compute_op_rect(&self.seats[si].1.op, &self.windows[wi], out, dx, dy)
    }

    /// The protocol steps advancing every seat's operation, seat by seat in
    /// order (see [`spec_op_transition`]).
    pub open spec fn spec_transition_effects(seats: Seq<(SeatId, Seat)>) -> Seq<Effect>
        decreases seats.len(),
    {
        if seats.len() == 0 {
            Seq::empty()
        } else {
            Self::spec_transition_effects(seats.drop_last()) + spec_op_transition(
                seats.last().0,
                seats.last().1,
            ).0
        }
    }

    /// Advance every seat's operation (see [`spec_op_transition`]); returns
    /// the protocol steps to take, seat by seat.
    #[verifier::spinoff_prover]
    pub fn transition_pointer_ops(&mut self) -> (r: Vec<Effect>)
        requires
            old(self).wf(),
        ensures
            final(self).wf(),
            r@ == Self::spec_transition_effects(old(self).seats@),
            *final(self) == (WMState { seats: final(self).seats, ..*old(self) }),
            final(self).seats@.len() == old(self).seats@.len(),
            forall|i: int|
                0 <= i < old(self).seats@.len() ==> #[trigger] final(self).seats@[i] == (
                    old(self).seats@[i].0,
                    spec_op_transition(old(self).seats@[i].0, old(self).seats@[i].1).1,
                ),
    {
        let mut effects: Vec<Effect> = Vec::new();
        let mut k: usize = 0;
        while k < self.seats.len()
            invariant
                k <= self.seats@.len(),
                self.wf(),
                *self == (WMState { seats: self.seats, ..*old(self) }),
                self.seats@.len() == old(self).seats@.len(),
                effects@ == Self::spec_transition_effects(old(self).seats@.take(k as int)),
                forall|i: int|
                    k <= i < self.seats@.len() ==> (#[trigger] self.seats@[i]) == old(self).seats@[i],
                forall|i: int|
                    0 <= i < k ==> #[trigger] self.seats@[i] == (
                        old(self).seats@[i].0,
                        spec_op_transition(old(self).seats@[i].0, old(self).seats@[i].1).1,
                    ),
            decreases self.seats@.len() - k,
        {
            let sid = self.seats[k].0;
            let mut seat = self.seats[k].1;
            let step = transition_pointer_op(sid, &mut seat);
            self.replace_seat(k, seat);
            let mut j: usize = 0;
            let ghost before = effects@;
            while j < step.len()
                invariant
                    j <= step@.len(),
                    effects@ == before + step@.take(j as int),
                decreases step@.len() - j,
            {
                effects.push(step[j]);
                proof {
                    assert(step@.take(j + 1) =~= step@.take(j as int).push(step@[j as int]));
                }
                j = j + 1;
            }
            proof {
                assert(step@.take(step@.len() as int) =~= step@);
                assert(old(self).seats@.take(k + 1).drop_last() =~= old(self).seats@.take(k as int));
                assert(old(self).seats@.take(k + 1).last() == old(self).seats@[k as int]);
                assert(effects@ =~= Self::spec_transition_effects(old(self).seats@.take(k + 1)));
            }
            k = k + 1;
        }
        proof {
            assert(old(self).seats@.take(old(self).seats@.len() as int) =~= old(self).seats@);
        }
        effects
    }

    /// Put window `id` on top of the focus stack and make it the focused
    /// window; a known window's output becomes the focused output.
    pub fn push_focus(&mut self, id: WindowId)
        requires
            old(self).wf(),
        ensures
            final(self).wf(),
            *final(self) == (WMState {
                focus: final(self).focus,
                focused_output: match old(self).window(id) {
                    Some(w) => Some(w.output_id),
                    None => old(self).focused_output,
                },
                ..*old(self)
            }),
            final(self).focus.stack@ == seq![id.0] + spec_without(old(self).focus.stack@, id.0),
            final(self).focus.focused_window == Some(id.0),
            final(self).focus.pending_focus == old(self).focus.pending_focus,
    {
        self.focus.push_focus(id.0);
        if let Some(i) = self.find_window(id) {
            self.focused_output = Some(self.windows[i].output_id);
        }
    }

    /// Forget window `id` in the focus bookkeeping: it leaves the stack;
    /// when it was focused, the new top of the stack (if any) becomes the
    /// focused window and, when known, its output the focused output; a
    /// pending focus on it follows the focus.
    pub fn remove_focus_for_window(&mut self, id: WindowId)
        requires
            old(self).wf(),
        ensures
            final(self).wf(),
            *final(self) == (WMState { focus: final(self).focus, focused_output: final(self).focused_output, ..*old(self) }),
            final(self).focus.stack@ == spec_without(old(self).focus.stack@, id.0),
            final(self).focus.focused_window == (if old(self).focus.focused_window == Some(id.0) {
                if final(self).focus.stack@.len() > 0 {
                    Some(final(self).focus.stack@[0])
                } else {
                    None
                }
            } else {
                old(self).focus.focused_window
            }),
            final(self).focus.pending_focus == (if old(self).focus.pending_focus == Some(id.0) {
                final(self).focus.focused_window
            } else {
                old(self).focus.pending_focus
            }),
            final(self).focused_output == (if old(self).focus.focused_window == Some(id.0)
                && final(self).focus.focused_window is Some && old(self).window(
                WindowId(final(self).focus.focused_window->0),
            ) is Some {
                Some(old(self).window(WindowId(final(self).focus.focused_window->0))->0.output_id)
            } else {
                old(self).focused_output
            }),
    {
        let was_focused = match self.focus.focused_window {
            Some(f) => f == id.0,
            None => false,
        };
        self.focus.remove_focus_for_window(id.0);
        if was_focused {
            match self.focus.focused_window {
                Some(nf) => match self.find_window(WindowId(nf)) {
                    Some(k) => {
                        self.focused_output = Some(self.windows[k].output_id);
                    },
                    None => {},
                },
                None => {},
            }
        }
    }

    /// Position of window `id` (see [`WMState::window_index`]).
    pub fn find_window(&self, id: WindowId) -> (r: Option<usize>)
        ensures
            r == spec_to_usize(self.window_index(id)),
            r matches Some(i) ==> self.window_index(id) == Some(i as int),
            r is None ==> self.window_index(id) is None,
            r matches Some(i) ==> i < self.windows@.len() && self.windows@[i as int].id == id,
    {
        proof {
            lemma_last_index_bounds(self.windows@, id.0, window_key());
        }
        let mut i = self.windows.len();
        assert(self.windows@.take(i as int) =~= self.windows@);
        while i > 0
            invariant
                i <= self.windows@.len(),
                spec_last_index_with(self.windows@, id.0, window_key()) == spec_last_index_with(
                    self.windows@.take(i as int),
                    id.0,
                    window_key(),
                ),
            decreases i,
        {
            assert(self.windows@.take(i as int).drop_last() =~= self.windows@.take(i - 1));
            if self.windows[i - 1].id.0 == id.0 {
                return Some(i - 1);
            }
            i = i - 1;
        }
        None
    }

    /// Position of output `id` (see [`WMState::output_index`]).
    pub fn find_output(&self, id: OutputId) -> (r: Option<usize>)
        ensures
            r == spec_to_usize(self.output_index(id)),
            r matches Some(i) ==> self.output_index(id) == Some(i as int),
            r is None ==> self.output_index(id) is None,
            r matches Some(i) ==> i < self.outputs@.len() && self.outputs@[i as int].id == id,
    {
        proof {
            lemma_last_index_bounds(self.outputs@, id.0, output_key());
        }
        let mut i = self.outputs.len();
        assert(self.outputs@.take(i as int) =~= self.outputs@);
        while i > 0
            invariant
                i <= self.outputs@.len(),
                spec_last_index_with(self.outputs@, id.0, output_key()) == spec_last_index_with(
                    self.outputs@.take(i as int),
                    id.0,
                    output_key(),
                ),
            decreases i,
        {
            assert(self.outputs@.take(i as int).drop_last() =~= self.outputs@.take(i - 1));
            if self.outputs[i - 1].id.0 == id.0 {
                return Some(i - 1);
            }
            i = i - 1;
        }
        None
    }

    /// Position of seat `id` (see [`WMState::seat_index`]).
    pub fn find_seat(&self, id: SeatId) -> (r: Option<usize>)
        ensures
            r == spec_to_usize(self.seat_index(id)),
            r matches Some(i) ==> self.seat_index(id) == Some(i as int),
            r is None ==> self.seat_index(id) is None,
            r matches Some(i) ==> i < self.seats@.len() && self.seats@[i as int].0 == id,
    {
        proof {
            lemma_last_index_bounds(self.seats@, id.0, seat_key());
        }
        let mut i = self.seats.len();
        assert(self.seats@.take(i as int) =~= self.seats@);
        while i > 0
            invariant
                i <= self.seats@.len(),
                spec_last_index_with(self.seats@, id.0, seat_key()) == spec_last_index_with(
                    self.seats@.take(i as int),
                    id.0,
                    seat_key(),
                ),
            decreases i,
        {
            assert(self.seats@.take(i as int).drop_last() =~= self.seats@.take(i - 1));
            if self.seats[i - 1].0.0 == id.0 {
                return Some(i - 1);
            }
            i = i - 1;
        }
        None
    }

    /// Position of the tree of output `id` (see [`WMState::tree_index`]).
    pub fn find_tree(&self, id: OutputId) -> (r: Option<usize>)
        ensures
            r == spec_to_usize(self.tree_index(id)),
            r matches Some(i) ==> self.tree_index(id) == Some(i as int),
            r is None ==> self.tree_index(id) is None,
            r matches Some(i) ==> i < self.output_trees@.len() && self.output_trees@[i as int].0 == id,
    {
        proof {
            lemma_last_index_bounds(self.output_trees@, id.0, tree_key());
        }
        let mut i = self.output_trees.len();
        assert(self.output_trees@.take(i as int) =~= self.output_trees@);
        while i > 0
            invariant
                i <= self.output_trees@.len(),
                spec_last_index_with(self.output_trees@, id.0, tree_key()) == spec_last_index_with(
                    self.output_trees@.take(i as int),
                    id.0,
                    tree_key(),
                ),
            decreases i,
        {
            assert(self.output_trees@.take(i as int).drop_last() =~= self.output_trees@.take(i - 1));
            if self.output_trees[i - 1].0.0 == id.0 {
                return Some(i - 1);
            }
            i = i - 1;
        }
        None
    }
}

} // verus!
