//! Running the commands keybindings trigger against the window manager's
//! state. Work outside the state (starting a program, ending the session,
//! reading the configuration again) is handed back as a [`CommandAction`].
use crate::actions::{
    move_step, resize_step_on, select_output_in_direction, spec_move_step, spec_output_is_best,
    spec_output_candidate, spec_resize_step_on, spec_state_with_rect, spec_toggle_rect, state_with_rect,
    toggle_rect,
};
use crate::command::Command;
use crate::config::{spec_empty_layout_config, spec_last_index_with};
use crate::geometry::{FocusDirection, Rect, SplitDirection, WindowState};
use crate::output::{Output, OutputId};
use crate::layout::spec_first_of;
use crate::tree::LayoutTree;
use crate::window::WindowId;
use crate::wm::{WMState, lemma_found_at, lemma_replace_keeps_keys, output_key, tree_key};
use vstd::prelude::*;

verus! {

/// Work a command leaves to the caller.
#[derive(Debug)]
pub enum CommandAction {
    /// Nothing beyond the change of state.
    Nothing,
    /// Start `program` with `args`.
    Spawn { program: String, args: Vec<String> },
    /// End the compositor session.
    ExitSession,
    /// Read the configuration file again and load it.
    ReloadConfig,
    /// Switch to the next configured keyboard layout.
    CycleKeyboardLayout,
}

/// A change of the focused window's layout state asked for by a command.
#[derive(Debug, Clone, Copy, PartialEq, Eq, Structural)]
pub enum StateChange {
    /// Toggle between floating and the previous state.
    ToggleFloating,
    /// Toggle between pseudo-tiled and the previous state.
    TogglePseudoTiled,
    /// Make the window tiled.
    SetTiled,
}

/// The outputs as identifiers with their rectangles, in order.
pub open spec fn spec_output_rects(outs: Seq<Output>) -> Seq<(u32, Option<Rect>)> {
    outs.map_values(|o: Output| (o.id.0, o.spec_rect()))
}

impl WMState {
    /// This state with a known focused output, whenever there is an output:
    /// a missing or unknown focused output is replaced by the first output
    /// (or none).
    pub open spec fn spec_focus_repaired(self) -> WMState {
        if self.focused_output is None || self.output(self.focused_output->0) is None {
            WMState {
                focused_output: if self.outputs@.len() > 0 {
                    Some(self.outputs@[0].id)
                } else {
                    None
                },
                ..self
            }
        } else {
            self
        }
    }

    /// Repair the focused output (see [`WMState::spec_focus_repaired`]).
    pub fn ensure_focused_output(&mut self)
        ensures
            *final(self) == old(self).spec_focus_repaired(),
    {
        let known = match self.focused_output {
            Some(o) => self.find_output(o).is_some(),
            None => false,
        };
        if !known {
            self.focused_output = if self.outputs.len() > 0 {
                Some(self.outputs[0].id)
            } else {
                None
            };
        }
    }

    /// Whether `new` is this state with a repaired focused output that has
    /// a tree, created if needed, `r` being that tree's position; `r` is
    /// `None` when there is no output.
    pub open spec fn spec_focused_tree(self, new: WMState, r: Option<usize>) -> bool {
        let s1 = self.spec_focus_repaired();
        match s1.focused_output {
            None => new == s1 && r is None,
            Some(o) => {
                &&& new == (WMState { output_trees: new.output_trees, ..s1 })
                &&& new.output_trees@ == s1.spec_trees_ensured(o)
                &&& r matches Some(i) && i < new.output_trees@.len() && new.tree_index(o) == Some(i as int)
            },
        }
    }

    /// The focused output's tree (see [`WMState::spec_focused_tree`]).
    pub fn focused_tree(&mut self) -> (r: Option<usize>)
        requires
            old(self).wf(),
        ensures
            final(self).wf(),
            old(self).spec_focused_tree(*final(self), r),
    {
        self.ensure_focused_output();
        match self.focused_output {
            Some(o) => {
                proof {
                    lemma_found_at(self.outputs@, o.0, output_key());
                }
                self.tree_for_output(o)
            },
            None => None,
        }
    }

    /// The trees with the one at position `ti` replaced by `t`.
    pub open spec fn spec_tree_at(self, ti: usize, t: LayoutTree) -> Seq<(OutputId, LayoutTree)> {
        self.output_trees@.update(ti as int, (self.output_trees@[ti as int].0, t))
    }

    /// Whether `new` is this state with the tree at position `ti` replaced
    /// by `t`.
    pub open spec fn spec_tree_replaced(self, ti: usize, t: LayoutTree, new: WMState) -> bool {
        &&& new == (WMState { output_trees: new.output_trees, ..self })
        &&& new.output_trees@ == self.spec_tree_at(ti, t)
    }

    /// Put `t` at position `ti` of the trees; returns the tree that was
    /// there.
    pub(crate) fn swap_tree(&mut self, ti: usize, t: LayoutTree) -> (prev: LayoutTree)
        requires
            old(self).wf(),
            ti < old(self).output_trees@.len(),
            t.wf(),
        ensures
            final(self).wf(),
            prev == old(self).output_trees@[ti as int].1,
            prev.wf(),
            old(self).spec_tree_replaced(ti, t, *final(self)),
            forall|k: OutputId| #[trigger] final(self).tree_index(k) == old(self).tree_index(k),
    {
        let ghost s0 = self.output_trees@;
        let (o, prev) = self.output_trees.remove(ti);
        self.output_trees.insert(ti, (o, t));
        proof {
            assert(prev == s0[ti as int].1);
            crate::wm::lemma_remove_insert(s0, ti as int, (o, t));
            lemma_replace_keeps_keys(s0, ti as int, (o, t), tree_key());
            assert forall|k: int| 0 <= k < self.output_trees@.len() implies (#[trigger] self.output_trees@[k]).1.wf() by {
                if k != ti {
                    assert(self.output_trees@[k] == s0[k]);
                }
            }
            assert forall|k: OutputId| #[trigger] self.tree_index(k) == old(self).tree_index(k) by {
                assert(spec_last_index_with(s0.update(ti as int, (o, t)), k.0, tree_key()) == spec_last_index_with(
                    s0,
                    k.0,
                    tree_key(),
                ));
            }
        }
        prev
    }

    /// An empty tree to hold a place: no window, no focus, laid out over a
    /// zero rectangle with no layout settings.
    pub(crate) fn placeholder_tree() -> (t: LayoutTree)
        ensures
            t.wf(),
            t.root is None,
            t.focused is None,
            t.output_rect == (Rect { x: 0, y: 0, width: 0, height: 0 }),
            t.raw_output_rect == (Rect { x: 0, y: 0, width: 0, height: 0 }),
            t.layout_config == spec_empty_layout_config(),
            t.next_id == 0,
    {
        LayoutTree::new(Rect::new(0, 0, 0, 0))
    }

    /// Replacing a tree twice at one position is replacing it once by the
    /// second tree.
    pub proof fn lemma_replaced_twice(s1: WMState, sp: WMState, s2: WMState, ti: usize, a: LayoutTree, b: LayoutTree)
        requires
            ti < s1.output_trees@.len(),
            s1.spec_tree_replaced(ti, a, sp),
            sp.spec_tree_replaced(ti, b, s2),
        ensures
            s1.spec_tree_replaced(ti, b, s2),
    {
        assert(s2.output_trees@ =~= s1.spec_tree_at(ti, b));
    }

    /// `t` with window `w` focused, when it holds it.
    pub open spec fn spec_focus_in(t: LayoutTree, w: u32) -> LayoutTree {
        if t.has_window(w) {
            LayoutTree { focused: Some(w), ..t }
        } else {
            t
        }
    }

    /// Whether `new` is this state with the focus of the focused tree made
    /// the focus everywhere (see [`WMState::spec_focused`]).
    pub open spec fn spec_layout_focus_synced(self, new: WMState) -> bool {
        exists|s1: WMState, r: Option<usize>|
            #[trigger] self.spec_focused_tree(s1, r) && match r {
                None => new == s1,
                Some(ti) => match s1.output_trees@[ti as int].1.focused {
                    Some(f) => s1.spec_focused(WindowId(f), new),
                    None => new == s1,
                },
            }
    }

    /// Make the focused tree's focus the focus everywhere (see
    /// [`WMState::spec_layout_focus_synced`]).
    pub fn focus_current_layout_window(&mut self)
        requires
            old(self).wf(),
        ensures
            final(self).wf(),
            old(self).spec_layout_focus_synced(*final(self)),
    {
        let r = self.focused_tree();
        let ghost s1 = *self;
        match r {
            Some(ti) => match self.output_trees[ti].1.focused_window() {
                Some(f) => self.focus_window_id(WindowId(f)),
                None => {},
            },
            None => {},
        }
        proof {
            assert(old(self).spec_focused_tree(s1, r));
        }
    }

    /// Move focus to the nearest window in `direction` in the focused tree
    /// (see [`WMState::spec_focus_moved`] and
    /// [`LayoutTree::after_focus_direction`]).
    #[verifier::spinoff_prover]
    pub fn focus_direction(&mut self, direction: FocusDirection)
        requires
            old(self).wf(),
        ensures
            final(self).wf(),
            old(self).spec_focus_moved(|t: LayoutTree| t.after_focus_direction(direction), *final(self)),
    {
        let r = self.focused_tree();
        let ghost s1 = *self;
        match r {
            Some(ti) => {
                let mut t = self.swap_tree(ti, Self::placeholder_tree());
                let ghost sp = *self;
                let moved = t.focus_direction(direction);
                let f = t.focused_window();
                let _ = self.swap_tree(ti, t);
                let ghost s2 = *self;
                proof {
                    Self::lemma_replaced_twice(s1, sp, s2, ti, sp.output_trees@[ti as int].1, t);
                }
                if moved {
                    match f {
                        Some(w) => self.focus_window_id(WindowId(w)),
                        None => {},
                    }
                }
            },
            None => {},
        }
    }

    /// Whether `new` is this state after splitting the focused window of
    /// the focused tree in `direction` (see [`LayoutTree::after_split`]); a
    /// manage sequence is requested when a split was made. A tree whose
    /// placeholder numbers are used up is left alone.
    pub open spec fn spec_split_done(self, direction: SplitDirection, new: WMState) -> bool {
        exists|s1: WMState, r: Option<usize>|
            #[trigger] self.spec_focused_tree(s1, r) && match r {
                None => new == s1,
                Some(ti) => {
                    let t = s1.output_trees@[ti as int].1;
                    if t.next_id < u32::MAX {
                        let (t2, p) = t.after_split(direction);
                        exists|s2: WMState|
                            #[trigger] s1.spec_tree_replaced(ti, t2, s2) && new == if p is Some {
                                WMState { manage_requested: true, ..s2 }
                            } else {
                                s2
                            }
                    } else {
                        new == s1
                    }
                },
            }
    }

    /// Split the focused window (see [`WMState::spec_split_done`]).
    #[verifier::spinoff_prover]
    pub fn split_focused_window(&mut self, direction: SplitDirection)
        requires
            old(self).wf(),
        ensures
            final(self).wf(),
            old(self).spec_split_done(direction, *final(self)),
    {
        let r = self.focused_tree();
        let ghost s1 = *self;
        match r {
            Some(ti) => {
                if self.output_trees[ti].1.next_id < u32::MAX {
                    let mut t = self.swap_tree(ti, Self::placeholder_tree());
                    let ghost sp = *self;
                    let p = t.split_focused(direction);
                    let _ = self.swap_tree(ti, t);
                    let ghost s2 = *self;
                    proof {
                        Self::lemma_replaced_twice(s1, sp, s2, ti, sp.output_trees@[ti as int].1, t);
                    }
                    if p.is_some() {
                        self.manage_requested = true;
                    }
                }
            },
            None => {},
        }
    }

    /// Whether `new` is `s2` with a manage sequence requested and the
    /// render order dropped, when `changed`; `s2` itself otherwise.
    pub open spec fn spec_changed_then(s2: WMState, changed: bool, new: WMState) -> bool {
        if changed {
            &&& new == (WMState { manage_requested: true, render_order_cache: new.render_order_cache, ..s2 })
            &&& new.render_order_cache@.len() == 0
        } else {
            new == s2
        }
    }

    /// Whether `new` is this state after toggling the focused window's
    /// fullscreen state in the focused tree (see
    /// [`LayoutTree::after_toggle_fullscreen`]).
    pub open spec fn spec_fullscreen_command(self, new: WMState) -> bool {
        match self.focus.focused_window {
            None => new == self,
            Some(w) => exists|s1: WMState, r: Option<usize>|
                #[trigger] self.spec_focused_tree(s1, r) && match r {
                    None => new == s1,
                    Some(ti) => {
                        let (t2, ok) = s1.output_trees@[ti as int].1.after_toggle_fullscreen(w);
                        exists|s2: WMState|
                            #[trigger] s1.spec_tree_replaced(ti, t2, s2) && Self::spec_changed_then(s2, ok, new)
                    },
                },
        }
    }

    /// Toggle the focused window's fullscreen state (see
    /// [`WMState::spec_fullscreen_command`]).
    #[verifier::spinoff_prover]
    pub fn toggle_focused_fullscreen(&mut self)
        requires
            old(self).wf(),
        ensures
            final(self).wf(),
            old(self).spec_fullscreen_command(*final(self)),
    {
        let w = match self.focus.focused_window {
            Some(w) => w,
            None => return,
        };
        let r = self.focused_tree();
        let ghost s1 = *self;
        match r {
            Some(ti) => {
                let mut t = self.swap_tree(ti, Self::placeholder_tree());
                let ghost sp = *self;
                let ok = t.toggle_fullscreen(w);
                let _ = self.swap_tree(ti, t);
                let ghost s2 = *self;
                proof {
                    Self::lemma_replaced_twice(s1, sp, s2, ti, sp.output_trees@[ti as int].1, t);
                }
                if ok {
                    self.manage_requested = true;
                    self.render_order_cache = Vec::new();
                }
            },
            None => {},
        }
    }

    /// The rectangle a window gets when toggled floating or pseudo-tiled
    /// from state `state` (see [`spec_toggle_rect`]), its own default size
    /// being computed in its output's rectangle (the empty rectangle when
    /// unknown).
    pub open spec fn spec_toggle_rect_for(self, w: crate::window::Window, state: Option<WindowState>) -> Rect {
        let out = match self.output(w.output_id) {
            Some(o) => match o.spec_rect() {
                Some(r) => r,
                None => Rect { x: 0, y: 0, width: 0, height: 0 },
            },
            None => Rect { x: 0, y: 0, width: 0, height: 0 },
        };
        spec_toggle_rect(state, w.spec_pseudo_tiled_rect(out, self.float_ratio as int))
    }

    /// What a state change command does to window `w` of tree `t` given
    /// the toggle rectangle `rect`.
    pub open spec fn spec_state_change(change: StateChange, t: LayoutTree, w: u32, rect: Rect) -> (LayoutTree, bool) {
        match change {
            StateChange::ToggleFloating => t.after_toggle(w, WindowState::Floating { rect }),
            StateChange::TogglePseudoTiled => t.after_toggle(w, WindowState::PseudoTiled { rect }),
            StateChange::SetTiled => t.after_set_state(w, spec_state_with_rect(WindowState::Tiled, rect)),
        }
    }

    /// Whether `new` is this state after a state change command on the
    /// focused window: nothing happens without a focused, known window;
    /// otherwise the focused tree (created if needed) changes the window's
    /// state as [`WMState::spec_state_change`] says with the rectangle of
    /// [`WMState::spec_toggle_rect_for`] (its state taken from that tree),
    /// and a change requests a manage sequence and drops the render order.
    pub open spec fn spec_state_command(self, change: StateChange, new: WMState) -> bool {
        match self.focus.focused_window {
            None => new == self,
            Some(w) => match self.window(WindowId(w)) {
                None => new == self,
                Some(rec) => exists|s1: WMState, r: Option<usize>|
                    #[trigger] self.spec_focused_tree(s1, r) && match r {
                        None => new == s1,
                        Some(ti) => {
                            let t = s1.output_trees@[ti as int].1;
                            let rect = self.spec_toggle_rect_for(rec, t.state_of(w));
                            let (t2, ok) = Self::spec_state_change(change, t, w, rect);
                            exists|s2: WMState|
                                #[trigger] s1.spec_tree_replaced(ti, t2, s2) && Self::spec_changed_then(s2, ok, new)
                        },
                    },
            },
        }
    }

    /// Carry out a state change command on the focused window (see
    /// [`WMState::spec_state_command`]).
    #[verifier::spinoff_prover]
    pub fn change_focused_state(&mut self, change: StateChange)
        requires
            old(self).wf(),
        ensures
            final(self).wf(),
            old(self).spec_state_command(change, *final(self)),
    {
        let w = match self.focus.focused_window {
            Some(w) => w,
            None => return,
        };
        let wi = match self.find_window(WindowId(w)) {
            Some(i) => i,
            None => return,
        };
        let out = match self.find_output(self.windows[wi].output_id) {
            Some(oi) => match self.outputs[oi].rect() {
                Some(r) => r,
                None => Rect::new(0, 0, 0, 0),
            },
            None => Rect::new(0, 0, 0, 0),
        };
        let pseudo = self.windows[wi].pseudo_tiled_rect(out, self.float_ratio);
        let ghost s0 = *self;
        let r = self.focused_tree();
        let ghost s1 = *self;
        match r {
            Some(ti) => {
                let rect = toggle_rect(self.output_trees[ti].1.window_state(w), pseudo);
                proof {
                    assert(rect == s0.spec_toggle_rect_for(s0.window(WindowId(w))->0, s1.output_trees@[ti as int].1.state_of(w)));
                }
                let mut t = self.swap_tree(ti, Self::placeholder_tree());
                let ghost sp = *self;
                let ok = match change {
                    StateChange::ToggleFloating => t.toggle_floating(w, rect),
                    StateChange::TogglePseudoTiled => t.toggle_pseudo_tiled(w, rect),
                    StateChange::SetTiled => t.set_window_state(w, state_with_rect(WindowState::Tiled, rect)),
                };
                let _ = self.swap_tree(ti, t);
                let ghost s2 = *self;
                proof {
                    Self::lemma_replaced_twice(s1, sp, s2, ti, sp.output_trees@[ti as int].1, t);
                }
                if ok {
                    self.manage_requested = true;
                    self.render_order_cache = Vec::new();
                }
            },
            None => {},
        }
    }

    /// Queue the focused window for closing on the next manage sequence.
    pub fn close_focused(&mut self)
        ensures
            match old(self).focus.focused_window {
                Some(w) => {
                    &&& *final(self) == (WMState {
                        pending_closes: final(self).pending_closes,
                        manage_requested: true,
                        ..*old(self)
                    })
                    &&& final(self).pending_closes@ == old(self).pending_closes@.push(w)
                },
                None => *final(self) == *old(self),
            },
    {
        if let Some(w) = self.focus.focused_window {
            self.pending_closes.push(w);
            self.manage_requested = true;
        }
    }

    /// Whether `new` is this state after output `o` was chosen for focus:
    /// nothing happens for an unknown or already focused output; otherwise
    /// it becomes the focused output and the window its tree (created if
    /// needed) focuses, else its first window, is focused everywhere.
    pub open spec fn spec_output_focus(self, o: OutputId, new: WMState) -> bool {
        if self.output(o) is None || self.focused_output == Some(o) {
            new == self
        } else {
            let s0 = WMState { focused_output: Some(o), ..self };
            exists|s1: WMState, r: Option<usize>|
                #[trigger] s0.spec_focused_tree(s1, r) && match r {
                    None => new == s1,
                    Some(ti) => {
                        let t = s1.output_trees@[ti as int].1;
                        let target = if t.focused is Some {
                            t.focused
                        } else {
                            spec_first_of(t.windows())
                        };
                        match target {
                            Some(w) => s1.spec_focused(WindowId(w), new),
                            None => new == s1,
                        }
                    },
                }
        }
    }

    /// Focus output `o` (see [`WMState::spec_output_focus`]).
    #[verifier::spinoff_prover]
    pub fn focus_output(&mut self, o: OutputId)
        requires
            old(self).wf(),
        ensures
            final(self).wf(),
            old(self).spec_output_focus(o, *final(self)),
    {
        if self.find_output(o).is_none() {
            return;
        }
        let same = match self.focused_output {
            Some(f) => f.0 == o.0,
            None => false,
        };
        if same {
            return;
        }
        self.focused_output = Some(o);
        let ghost s0 = *self;
        let r = self.focused_tree();
        let ghost s1 = *self;
        match r {
            Some(ti) => {
                let target = match self.output_trees[ti].1.focused_window() {
                    Some(f) => Some(f),
                    None => self.output_trees[ti].1.first_window(),
                };
                match target {
                    Some(w) => self.focus_window_id(WindowId(w)),
                    None => {},
                }
            },
            None => {},
        }
        proof {
            assert(s0.spec_focused_tree(s1, r));
        }
    }

    /// Whether `target` is what a directional output focus selects among
    /// `outputs` from output `current` at `rect`: the nearest output whose
    /// center lies in `direction` (the first of the nearest), or none.
    pub open spec fn spec_output_selected(
        outputs: Seq<(u32, Option<Rect>)>,
        current: u32,
        rect: Rect,
        direction: FocusDirection,
        target: Option<u32>,
    ) -> bool {
        match target {
            Some(id) => exists|i: int|
                spec_output_is_best(outputs, i, current, rect, direction) && outputs[i].0 == id,
            None => forall|i: int| !#[trigger] spec_output_candidate(outputs, i, current, rect, direction),
        }
    }

    /// Whether `new` is this state once the output selected from output
    /// `c` at `rect` in `direction`, if any, is focused.
    pub open spec fn spec_selected_output_focused(self, c: OutputId, rect: Rect, direction: FocusDirection, new: WMState) -> bool {
        exists|target: Option<u32>|
            #[trigger] Self::spec_output_selected(spec_output_rects(self.outputs@), c.0, rect, direction, target)
                && match target {
                Some(id) => self.spec_output_focus(OutputId(id), new),
                None => new == self,
            }
    }

    /// Whether `new` is this state after a directional output focus: a
    /// missing focused output is repaired first; nothing more happens
    /// without a focused output with geometry; otherwise the selected
    /// output (see [`WMState::spec_output_selected`]), if any, is focused
    /// (see [`WMState::spec_output_focus`]).
    pub open spec fn spec_output_direction_focused(self, direction: FocusDirection, new: WMState) -> bool {
        let s1 = if self.focused_output is None {
            self.spec_focus_repaired()
        } else {
            self
        };
        match s1.focused_output {
            None => new == s1,
            Some(c) => match s1.output(c) {
                Some(co) => match co.spec_rect() {
                    Some(rect) => s1.spec_selected_output_focused(c, rect, direction, new),
                    None => new == s1,
                },
                None => new == s1,
            },
        }
    }

    /// The outputs as identifiers with their rectangles (see
    /// [`spec_output_rects`]).
    fn output_rects(&self) -> (r: Vec<(u32, Option<Rect>)>)
        ensures
            r@ == spec_output_rects(self.outputs@),
    {
        let mut out: Vec<(u32, Option<Rect>)> = Vec::new();
        let mut k: usize = 0;
        while k < self.outputs.len()
            invariant
                k <= self.outputs@.len(),
                out@ == spec_output_rects(self.outputs@.take(k as int)),
            decreases self.outputs@.len() - k,
        {
            out.push((self.outputs[k].id.0, self.outputs[k].rect()));
            proof {
                assert(spec_output_rects(self.outputs@.take(k + 1)) =~= spec_output_rects(self.outputs@.take(k as int)).push(
                    (self.outputs@[k as int].id.0, self.outputs@[k as int].spec_rect()),
                ));
            }
            k = k + 1;
        }
        proof {
            assert(self.outputs@.take(self.outputs@.len() as int) =~= self.outputs@);
        }
        out
    }

    /// Focus the nearest output in `direction` (see
    /// [`WMState::spec_output_direction_focused`]).
    #[verifier::spinoff_prover]
    pub fn focus_output_direction(&mut self, direction: FocusDirection)
        requires
            old(self).wf(),
        ensures
            final(self).wf(),
            old(self).spec_output_direction_focused(direction, *final(self)),
    {
        if self.focused_output.is_none() {
            self.ensure_focused_output();
        }
        let c = match self.focused_output {
            Some(c) => c,
            None => return,
        };
        let ci = match self.find_output(c) {
            Some(i) => i,
            None => return,
        };
        let rect = match self.outputs[ci].rect() {
            Some(r) => r,
            None => return,
        };
        let outs = self.output_rects();
        let target = select_output_in_direction(c.0, rect, &outs, direction);
        let ghost s1 = *self;
        proof {
            assert(Self::spec_output_selected(spec_output_rects(s1.outputs@), c.0, rect, direction, target));
        }
        proof {
            let s1s = if old(self).focused_output is None {
                old(self).spec_focus_repaired()
            } else {
                *old(self)
            };
            assert(s1s == s1);
            assert(s1.output(c) == Some(s1.outputs@[ci as int]));
            assert(s1.outputs@[ci as int].spec_rect() == Some(rect));
        }
        match target {
            Some(id) => self.focus_output(OutputId(id)),
            None => {},
        }
        proof {
            assert(s1.spec_selected_output_focused(c, rect, direction, *self));
        }
    }

    /// What a move command does to tree `t` for the focused window `w`: a
    /// floating window is nudged by `(dx, dy)`, a fullscreen one stays, any
    /// other is swapped with its neighbour in `direction`.
    pub open spec fn spec_move_on(t: LayoutTree, w: u32, direction: FocusDirection, dx: i32, dy: i32) -> (LayoutTree, bool) {
        match t.state_of(w) {
            Some(WindowState::Floating { .. }) => t.after_move_floating(w, direction, dx, dy),
            Some(WindowState::Fullscreen { .. }) => (t, false),
            _ => t.after_swap(direction),
        }
    }

    /// Whether `new` is this state after a move command: nothing happens
    /// without a focused window or a focused output with geometry (the
    /// focused output being repaired first); otherwise the focused tree is
    /// changed as [`WMState::spec_move_on`] says, with a step of a tenth of
    /// the output (see [`spec_move_step`]).
    pub open spec fn spec_move_command(self, direction: FocusDirection, new: WMState) -> bool {
        match self.focus.focused_window {
            None => new == self,
            Some(w) => {
                let s0 = self.spec_focus_repaired();
                match s0.focused_output {
                    None => new == s0,
                    Some(o) => match s0.output(o)->0.spec_rect() {
                        None => new == s0,
                        Some(orect) => {
                            let dx = spec_move_step(orect).0 as i32;
                            let dy = spec_move_step(orect).1 as i32;
                            exists|s1: WMState, r: Option<usize>|
                                #[trigger] s0.spec_focused_tree(s1, r) && match r {
                                    None => new == s1,
                                    Some(ti) => {
                                        let (t2, ok) = Self::spec_move_on(
                                            s1.output_trees@[ti as int].1,
                                            w,
                                            direction,
                                            dx,
                                            dy,
                                        );
                                        exists|s2: WMState|
                                            #[trigger] s1.spec_tree_replaced(ti, t2, s2) && Self::spec_changed_then(
                                                s2,
                                                ok,
                                                new,
                                            )
                                    },
                                }
                        },
                    },
                }
            },
        }
    }

    /// Move the focused window (see [`WMState::spec_move_command`]).
    #[verifier::spinoff_prover]
    pub fn move_window(&mut self, direction: FocusDirection)
        requires
            old(self).wf(),
        ensures
            final(self).wf(),
            old(self).spec_move_command(direction, *final(self)),
    {
        let w = match self.focus.focused_window {
            Some(w) => w,
            None => return,
        };
        self.ensure_focused_output();
        let ghost s0 = *self;
        let o = match self.focused_output {
            Some(o) => o,
            None => return,
        };
        proof {
            lemma_found_at(self.outputs@, o.0, output_key());
        }
        let oi = match self.find_output(o) {
            Some(i) => i,
            None => return,
        };
        let orect = match self.outputs[oi].rect() {
            Some(r) => r,
            None => return,
        };
        let (dx, dy) = move_step(orect);
        let r = self.focused_tree();
        let ghost s1 = *self;
        match r {
            Some(ti) => {
                let mut t = self.swap_tree(ti, Self::placeholder_tree());
                let ghost sp = *self;
                let ok = if t.window_is_floating(w) {
                    t.move_floating_window(w, direction, dx, dy)
                } else if t.window_is_fullscreen(w) {
                    false
                } else {
                    t.swap_windows(direction)
                };
                let _ = self.swap_tree(ti, t);
                let ghost s2 = *self;
                proof {
                    Self::lemma_replaced_twice(s1, sp, s2, ti, sp.output_trees@[ti as int].1, t);
                }
                if ok {
                    self.manage_requested = true;
                    self.render_order_cache = Vec::new();
                }
            },
            None => {},
        }
        proof {
            assert(s0.spec_focused_tree(s1, r));
        }
    }

    /// Whether `new` is `s4` after the second part of a resize that had to
    /// go through a neighbour: the focused tree moves the ratio toward
    /// `direction` by `delta`, then focuses window `w` again, and that focus
    /// is made the focus everywhere; a resize requests a manage sequence and
    /// drops the render order.
    pub open spec fn spec_resize_through(s4: WMState, w: u32, direction: FocusDirection, delta: i32, new: WMState) -> bool {
        exists|s5: WMState, r: Option<usize>|
            #[trigger] s4.spec_focused_tree(s5, r) && match r {
                None => new == s5,
                Some(tj) => {
                    let (t5, resized) = s5.output_trees@[tj as int].1.after_resize_ratio(direction, delta);
                    exists|s6: WMState, s7: WMState|
                        #![trigger s5.spec_tree_replaced(tj, Self::spec_focus_in(t5, w), s6), s6.spec_layout_focus_synced(s7)]
                        s5.spec_tree_replaced(tj, Self::spec_focus_in(t5, w), s6) && s6.spec_layout_focus_synced(s7)
                            && Self::spec_changed_then(s7, resized, new)
                },
            }
    }

    /// Whether `new` is this state after a resize command toward
    /// `direction` (`expand` or shrink): nothing happens without a focused
    /// window; the focused tree (created if needed) first tries the resize
    /// on the window itself (see [`spec_resize_step_on`], with the
    /// configured steps); when that does nothing, the window its split
    /// cannot move toward `direction` leads to (see
    /// [`LayoutTree::resize_target`]) is focused, the ratio is moved from
    /// there and the window is focused again
    /// ([`WMState::spec_resize_through`]). A tree without a usable
    /// geometry, or a ratio step of `i32::MIN`, leaves the state alone.
    pub open spec fn spec_resize_command(self, direction: FocusDirection, expand: bool, new: WMState) -> bool {
        match self.focus.focused_window {
            None => new == self,
            Some(w) => exists|s1: WMState, r: Option<usize>|
                #[trigger] self.spec_focused_tree(s1, r) && match r {
                    None => new == s1,
                    Some(ti) => s1.spec_resize_on_tree(ti, w, direction, expand, new),
                },
        }
    }

    /// Whether `new` is this state after the resize of window `w` in the
    /// tree at position `ti` (see [`WMState::spec_resize_command`]).
    pub open spec fn spec_resize_on_tree(self, ti: usize, w: u32, direction: FocusDirection, expand: bool, new: WMState) -> bool {
        let t = self.output_trees@[ti as int].1;
        if t.output_rect.width < 0 || t.output_rect.height < 0 || self.resize_delta_ratio == i32::MIN {
            new == self
        } else {
            let (t2, ok) = spec_resize_step_on(
                t,
                w,
                direction,
                expand,
                self.resize_delta_ratio,
                self.resize_delta_percent,
            );
            let delta = if expand {
                self.resize_delta_ratio
            } else {
                (-self.resize_delta_ratio) as i32
            };
            exists|s2: WMState|
                #[trigger] self.spec_tree_replaced(ti, t2, s2) && if ok {
                    Self::spec_changed_then(s2, true, new)
                } else {
                    match t2.resize_target(direction) {
                        None => new == s2,
                        Some(target) => Self::spec_resize_via(s2, ti, t2, target, w, direction, delta, new),
                    }
                }
        }
    }

    /// Focus window `w` in the tree at position `ti` (see
    /// [`WMState::spec_focus_in`]).
    fn focus_in_tree_at(&mut self, ti: usize, w: u32)
        requires
            old(self).wf(),
            ti < old(self).output_trees@.len(),
        ensures
            final(self).wf(),
            old(self).spec_tree_replaced(ti, Self::spec_focus_in(old(self).output_trees@[ti as int].1, w), *final(self)),
    {
        let ghost s1 = *self;
        let mut t = self.swap_tree(ti, Self::placeholder_tree());
        let ghost sp = *self;
        let _ = t.focus_window(w);
        let _ = self.swap_tree(ti, t);
        proof {
            Self::lemma_replaced_twice(s1, sp, *self, ti, sp.output_trees@[ti as int].1, t);
        }
    }

    /// The second part of a resize (see [`WMState::spec_resize_through`]).
    #[verifier::spinoff_prover]
    fn resize_through(&mut self, w: u32, direction: FocusDirection, delta: i32)
        requires
            old(self).wf(),
        ensures
            final(self).wf(),
            Self::spec_resize_through(*old(self), w, direction, delta, *final(self)),
    {
        let r = self.focused_tree();
        let ghost s5 = *self;
        match r {
            Some(tj) => {
                let mut t = self.swap_tree(tj, Self::placeholder_tree());
                let ghost sp = *self;
                let resized = t.resize_ratio(direction, delta);
                let ghost t5 = t;
                let _ = t.focus_window(w);
                let _ = self.swap_tree(tj, t);
                let ghost s6 = *self;
                proof {
                    Self::lemma_replaced_twice(s5, sp, s6, tj, sp.output_trees@[tj as int].1, t);
                    assert(t == Self::spec_focus_in(t5, w));
                }
                self.focus_current_layout_window();
                let ghost s7 = *self;
                if resized {
                    self.manage_requested = true;
                    self.render_order_cache = Vec::new();
                }
                proof {
                    assert(s5.spec_tree_replaced(tj, Self::spec_focus_in(t5, w), s6));
                    assert(s6.spec_layout_focus_synced(s7));
                }
            },
            None => {},
        }
        proof {
            assert(old(self).spec_focused_tree(s5, r));
        }
    }

    /// Whether `new` is `s2` after a resize that goes through window
    /// `target` of the tree `t2` at position `ti`: `target` is focused in
    /// that tree and everywhere, then [`WMState::spec_resize_through`].
    pub open spec fn spec_resize_via(
        s2: WMState,
        ti: usize,
        t2: LayoutTree,
        target: u32,
        w: u32,
        direction: FocusDirection,
        delta: i32,
        new: WMState,
    ) -> bool {
        exists|s3: WMState, s4: WMState|
            #![trigger s2.spec_tree_replaced(ti, Self::spec_focus_in(t2, target), s3), s3.spec_layout_focus_synced(s4)]
            s2.spec_tree_replaced(ti, Self::spec_focus_in(t2, target), s3) && s3.spec_layout_focus_synced(s4)
                && Self::spec_resize_through(s4, w, direction, delta, new)
    }

    /// Resize through window `target` (see [`WMState::spec_resize_via`]).
    #[verifier::spinoff_prover]
    fn resize_via(&mut self, ti: usize, target: u32, w: u32, direction: FocusDirection, delta: i32)
        requires
            old(self).wf(),
            ti < old(self).output_trees@.len(),
        ensures
            final(self).wf(),
            Self::spec_resize_via(*old(self), ti, old(self).output_trees@[ti as int].1, target, w, direction, delta, *final(self)),
    {
        self.focus_in_tree_at(ti, target);
        let ghost s3 = *self;
        self.focus_current_layout_window();
        let ghost s4 = *self;
        self.resize_through(w, direction, delta);
        proof {
            assert(old(self).spec_tree_replaced(ti, Self::spec_focus_in(old(self).output_trees@[ti as int].1, target), s3));
            assert(s3.spec_layout_focus_synced(s4));
        }
    }

    /// Resize window `w` in the tree at position `ti` (see
    /// [`WMState::spec_resize_on_tree`]).
    #[verifier::spinoff_prover]
    #[verifier::rlimit(40)]
    fn resize_on_tree(&mut self, ti: usize, w: u32, direction: FocusDirection, expand: bool)
        requires
            old(self).wf(),
            ti < old(self).output_trees@.len(),
        ensures
            final(self).wf(),
            old(self).spec_resize_on_tree(ti, w, direction, expand, *final(self)),
    {
        let usable = self.output_trees[ti].1.output_rect.width >= 0 && self.output_trees[ti].1.output_rect.height
            >= 0 && self.resize_delta_ratio > i32::MIN;
        if !usable {
            return;
        }
        let ghost s1 = *self;
        let ratio = self.resize_delta_ratio;
        let percent = self.resize_delta_percent;
        let mut t = self.swap_tree(ti, Self::placeholder_tree());
        let ghost sp = *self;
        let ok = resize_step_on(&mut t, w, direction, expand, ratio, percent);
        let target = t.focus_to_resize_target(direction);
        let _ = self.swap_tree(ti, t);
        let ghost s2 = *self;
        proof {
            Self::lemma_replaced_twice(s1, sp, s2, ti, sp.output_trees@[ti as int].1, t);
        }
        if ok {
            self.manage_requested = true;
            self.render_order_cache = Vec::new();
            return;
        }
        let target = match target {
            Some(x) => x,
            None => return,
        };
        let delta = if expand {
            ratio
        } else {
            -ratio
        };
        proof {
            assert(s2.output_trees@[ti as int].1 == t);
        }
        self.resize_via(ti, target, w, direction, delta);
    }

    /// Resize the focused window (see [`WMState::spec_resize_command`]).
    pub fn resize_adjust(&mut self, direction: FocusDirection, expand: bool)
        requires
            old(self).wf(),
        ensures
            final(self).wf(),
            old(self).spec_resize_command(direction, expand, *final(self)),
    {
        let w = match self.focus.focused_window {
            Some(w) => w,
            None => return,
        };
        let r = self.focused_tree();
        let ghost s1 = *self;
        match r {
            Some(ti) => self.resize_on_tree(ti, w, direction, expand),
            None => {},
        }
        proof {
            assert(old(self).spec_focused_tree(s1, r));
        }
    }

    /// This state with the split preview toward `direction` switched on, or
    /// off when it was on; a manage sequence is requested to redraw it.
    pub open spec fn spec_pending_split_toggled(self, direction: FocusDirection) -> WMState {
        WMState {
            pending_split: if self.pending_split == Some(direction) {
                None
            } else {
                Some(direction)
            },
            manage_requested: true,
            ..self
        }
    }

    /// Switch the split preview (see
    /// [`WMState::spec_pending_split_toggled`]).
    pub fn toggle_pending_split(&mut self, direction: FocusDirection)
        ensures
            *final(self) == old(self).spec_pending_split_toggled(direction),
    {
        let on = match self.pending_split {
            Some(d) => d == direction,
            None => false,
        };
        self.pending_split = if on {
            None
        } else {
            Some(direction)
        };
        self.manage_requested = true;
    }

    /// Run a command against the state; work outside the state is handed
    /// back. Every command but spawning, ending the session and reloading
    /// the configuration changes the state as the method it calls says.
    #[verifier::spinoff_prover]
    pub fn run_command(&mut self, command: Command) -> (r: CommandAction)
        requires
            old(self).wf(),
        ensures
            final(self).wf(),
            match command {
                Command::FocusNext => old(self).spec_focus_moved(|t: LayoutTree| t.after_focus_step(true), *final(self)),
                Command::FocusPrevious => old(self).spec_focus_moved(
                    |t: LayoutTree| t.after_focus_step(false),
                    *final(self),
                ),
                Command::FocusUp => old(self).spec_focus_moved(
                    |t: LayoutTree| t.after_focus_direction(FocusDirection::Up),
                    *final(self),
                ),
                Command::FocusDown => old(self).spec_focus_moved(
                    |t: LayoutTree| t.after_focus_direction(FocusDirection::Down),
                    *final(self),
                ),
                Command::FocusLeft => old(self).spec_focus_moved(
                    |t: LayoutTree| t.after_focus_direction(FocusDirection::Left),
                    *final(self),
                ),
                Command::FocusRight => old(self).spec_focus_moved(
                    |t: LayoutTree| t.after_focus_direction(FocusDirection::Right),
                    *final(self),
                ),
                Command::SplitVertical => old(self).spec_split_done(SplitDirection::Vertical, *final(self)),
                Command::SplitHorizontal => old(self).spec_split_done(SplitDirection::Horizontal, *final(self)),
                Command::ToggleFullscreen => old(self).spec_fullscreen_command(*final(self)),
                Command::ToggleFloating => old(self).spec_state_command(StateChange::ToggleFloating, *final(self)),
                Command::TogglePseudoTiled => old(self).spec_state_command(
                    StateChange::TogglePseudoTiled,
                    *final(self),
                ),
                Command::SetTiled => old(self).spec_state_command(StateChange::SetTiled, *final(self)),
                Command::Spawn { program, args } => *final(self) == *old(self) && (r matches CommandAction::Spawn {
                    program: p,
                    args: a,
                } && p@ == program@ && a@ == args@),
                Command::ExitRiver => *final(self) == *old(self) && r is ExitSession,
                Command::ReloadConfig => *final(self) == *old(self) && r is ReloadConfig,
                Command::CloseFocused => match old(self).focus.focused_window {
                    Some(w) => {
                        &&& *final(self) == (WMState {
                            pending_closes: final(self).pending_closes,
                            manage_requested: true,
                            ..*old(self)
                        })
                        &&& final(self).pending_closes@ == old(self).pending_closes@.push(w)
                    },
                    None => *final(self) == *old(self),
                },
                Command::FocusOutputLeft => old(self).spec_output_direction_focused(FocusDirection::Left, *final(self)),
                Command::FocusOutputRight => old(self).spec_output_direction_focused(
                    FocusDirection::Right,
                    *final(self),
                ),
                Command::FocusOutputUp => old(self).spec_output_direction_focused(FocusDirection::Up, *final(self)),
                Command::FocusOutputDown => old(self).spec_output_direction_focused(FocusDirection::Down, *final(self)),
                Command::MoveLeft => old(self).spec_move_command(FocusDirection::Left, *final(self)),
                Command::MoveRight => old(self).spec_move_command(FocusDirection::Right, *final(self)),
                Command::MoveUp => old(self).spec_move_command(FocusDirection::Up, *final(self)),
                Command::MoveDown => old(self).spec_move_command(FocusDirection::Down, *final(self)),
                Command::ResizeExpand { direction } => old(self).spec_resize_command(direction, true, *final(self)),
                Command::ResizeShrink { direction } => old(self).spec_resize_command(direction, false, *final(self)),
                Command::TogglePendingSplitVertical => *final(self) == old(self).spec_pending_split_toggled(
                    FocusDirection::Right,
                ),
                Command::TogglePendingSplitHorizontal => *final(self) == old(self).spec_pending_split_toggled(
                    FocusDirection::Down,
                ),
                Command::CancelPendingSplit => *final(self) == (WMState {
                    pending_split: None,
                    manage_requested: true,
                    ..*old(self)
                }),
                Command::CycleKeyboardLayout => *final(self) == *old(self) && r is CycleKeyboardLayout,
            },
            !(command is Spawn || command is ExitRiver || command is ReloadConfig || command is CycleKeyboardLayout)
                ==> r is Nothing,
    {
        match command {
            Command::FocusNext => self.focus_step(true),
            Command::FocusPrevious => self.focus_step(false),
            Command::FocusUp => self.focus_direction(FocusDirection::Up),
            Command::FocusDown => self.focus_direction(FocusDirection::Down),
            Command::FocusLeft => self.focus_direction(FocusDirection::Left),
            Command::FocusRight => self.focus_direction(FocusDirection::Right),
            Command::SplitVertical => self.split_focused_window(SplitDirection::Vertical),
            Command::SplitHorizontal => self.split_focused_window(SplitDirection::Horizontal),
            Command::ToggleFullscreen => self.toggle_focused_fullscreen(),
            Command::ToggleFloating => self.change_focused_state(StateChange::ToggleFloating),
            Command::TogglePseudoTiled => self.change_focused_state(StateChange::TogglePseudoTiled),
            Command::SetTiled => self.change_focused_state(StateChange::SetTiled),
            Command::Spawn { program, args } => return CommandAction::Spawn { program, args },
            Command::ExitRiver => return CommandAction::ExitSession,
            Command::ReloadConfig => return CommandAction::ReloadConfig,
            Command::CloseFocused => self.close_focused(),
            Command::FocusOutputLeft => self.focus_output_direction(FocusDirection::Left),
            Command::FocusOutputRight => self.focus_output_direction(FocusDirection::Right),
            Command::FocusOutputUp => self.focus_output_direction(FocusDirection::Up),
            Command::FocusOutputDown => self.focus_output_direction(FocusDirection::Down),
            Command::MoveLeft => self.move_window(FocusDirection::Left),
            Command::MoveRight => self.move_window(FocusDirection::Right),
            Command::MoveUp => self.move_window(FocusDirection::Up),
            Command::MoveDown => self.move_window(FocusDirection::Down),
            Command::ResizeExpand { direction } => self.resize_adjust(direction, true),
            Command::ResizeShrink { direction } => self.resize_adjust(direction, false),
            Command::TogglePendingSplitVertical => self.toggle_pending_split(FocusDirection::Right),
            Command::TogglePendingSplitHorizontal => self.toggle_pending_split(FocusDirection::Down),
            Command::CancelPendingSplit => {
                self.pending_split = None;
                self.manage_requested = true;
            },
            Command::CycleKeyboardLayout => return CommandAction::CycleKeyboardLayout,
        }
        CommandAction::Nothing
    }

    /// Whether `new` is this state after a focus move in the focused tree,
    /// `step` being what the move makes of that tree: when the tree
    /// reports a move, its focused window is focused everywhere.
    pub open spec fn spec_focus_moved(self, step: spec_fn(LayoutTree) -> (LayoutTree, bool), new: WMState) -> bool {
        exists|s1: WMState, r: Option<usize>|
            #[trigger] self.spec_focused_tree(s1, r) && match r {
                None => new == s1,
                Some(ti) => {
                    let (t2, moved) = step(s1.output_trees@[ti as int].1);
                    exists|s2: WMState|
                        #[trigger] s1.spec_tree_replaced(ti, t2, s2) && if moved && t2.focused is Some {
                            s2.spec_focused(WindowId(t2.focused->0), new)
                        } else {
                            new == s2
                        }
                },
            }
    }

    /// Move focus to the next (`forward`) or previous window of the focused
    /// tree (see [`WMState::spec_focus_moved`] and
    /// [`LayoutTree::after_focus_step`]).
    #[verifier::spinoff_prover]
    pub fn focus_step(&mut self, forward: bool)
        requires
            old(self).wf(),
        ensures
            final(self).wf(),
            old(self).spec_focus_moved(|t: LayoutTree| t.after_focus_step(forward), *final(self)),
    {
        let r = self.focused_tree();
        let ghost s1 = *self;
        match r {
            Some(ti) => {
                let mut t = self.swap_tree(ti, Self::placeholder_tree());
                let moved = if forward {
                    t.focus_next()
                } else {
                    t.focus_previous()
                };
                let f = t.focused_window();
                let ghost sp = *self;
                let _ = self.swap_tree(ti, t);
                let ghost s2 = *self;
                proof {
                    assert(s2.output_trees@ =~= s1.spec_tree_at(ti, t));
                    assert(s1.spec_tree_replaced(ti, t, s2));
                }
                if moved {
                    match f {
                        Some(w) => self.focus_window_id(WindowId(w)),
                        None => {},
                    }
                }
                proof {
                    let step = |t: LayoutTree| t.after_focus_step(forward);
                    assert(step(s1.output_trees@[ti as int].1).0 == t);
                    assert(s1.spec_tree_replaced(ti, step(s1.output_trees@[ti as int].1).0, s2));
                }
            },
            None => {},
        }
    }
}

} // verus!
