//! The layout tree of one output: a binary space partition of the output's
//! tiling area, the focused window, and the geometry the partition is laid
//! out in.
use crate::config::{LayoutConfig, spec_empty_layout_config};
use crate::geometry::{
    FocusDirection, Rect, SplitDirection, WindowState, clone_state, sat_i32, spec_clamp, spec_max,
    spec_participates_in_tiling, spec_rect, spec_sat,
};
use crate::layout::{
    MAX_RATIO, MIN_RATIO, find_ancestor_sibling, find_parent_split, find_tiled_window,
    lemma_set_parent_ratio_keeps, lemma_set_state_keeps, set_parent_ratio, set_state_at,
    spec_ancestor_sibling, spec_find_tiled, spec_parent_split, spec_set_parent_ratio,
    spec_set_state, lemma_visible_windows, lemma_swap_keeps, spec_swap, swap_window_nodes, HALF_RATIO, RemoveOutcome, fill_placeholder, is_window, leaf, lemma_fill_keeps,
    lemma_remove_keeps, lemma_replace_keeps, lemma_split_node_wf, remove_from_node,
    spec_fill_placeholder, spec_fix_flags, spec_has_placeholder, spec_leaf, spec_remove,
    spec_replace, spec_split_node, split_window_node, update_ancestor_tiling_flags,
    LayoutNode, LayoutSplit, clone_node, collect_rects, collect_windows, collect_windows_with_state,
    contains_window, find_window_node, first_window_of, lemma_apply_rects_keeps, lemma_find,
    lemma_fix_flags_keeps, lemma_windows_distinct, lemma_windows_has, spec_apply_rects, spec_entries,
    spec_find, spec_first_of, spec_has, spec_node_wf, spec_shift_floating, spec_state_of,
    spec_visible_nodes, spec_windows, apply_rects, shift_floating, lemma_shift_keeps,
};
use vstd::prelude::*;

verus! {

/// The layout of one output.
#[derive(Debug)]
pub struct LayoutTree {
    /// The root of the partition; `None` when the output holds nothing.
    pub root: Option<Box<LayoutNode>>,
    /// The focused window.
    pub focused: Option<u32>,
    /// The tiling area: the output inset by margins and gap.
    pub output_rect: Rect,
    /// The output's geometry as reported.
    pub raw_output_rect: Rect,
    /// Gap and margins.
    pub layout_config: LayoutConfig,
    /// Counter behind the ids handed out for placeholders.
    pub next_id: u32,
}

/// Whether a (possibly empty) root holds `id`.
pub open spec fn spec_root_has(root: Option<Box<LayoutNode>>, id: u32) -> bool {
    match root {
        Some(r) => spec_has(*r, id),
        None => false,
    }
}

/// The windows of a (possibly empty) root, depth-first.
pub open spec fn spec_root_windows(root: Option<Box<LayoutNode>>) -> Seq<u32> {
    match root {
        Some(r) => spec_windows(*r),
        None => Seq::empty(),
    }
}

/// `v`, or `d` when unset.
pub open spec fn spec_or(v: Option<i32>, d: i32) -> i32 {
    match v {
        Some(x) => x,
        None => d,
    }
}

/// The tiling area of an output: inset on every side by its margin plus
/// the gap, with width and height at least 0.
pub open spec fn spec_margin_rect(raw: Rect, cfg: LayoutConfig) -> Rect {
    let gap = spec_or(cfg.gap, 0) as int;
    let left = spec_or(cfg.margin_left, 0) as int;
    let right = spec_or(cfg.margin_right, 0) as int;
    let top = spec_or(cfg.margin_top, 0) as int;
    let bottom = spec_or(cfg.margin_bottom, 0) as int;
    spec_rect(
        raw.x + left + gap,
        raw.y + top + gap,
        spec_max(raw.width - left - right - 2 * gap, 0),
        spec_max(raw.height - top - bottom - 2 * gap, 0),
    )
}

impl LayoutTree {
    /// Whether the tree holds `id`.
    pub open spec fn has_window(self, id: u32) -> bool {
        spec_root_has(self.root, id)
    }

    /// The windows of the tree, depth-first.
    pub open spec fn windows(self) -> Seq<u32> {
        spec_root_windows(self.root)
    }

    /// The layout state of `id`, if the tree holds it.
    pub open spec fn state_of(self, id: u32) -> Option<WindowState> {
        match self.root {
            Some(r) => spec_state_of(*r, id),
            None => None,
        }
    }

    /// The node holding `id`, if any.
    pub open spec fn node_of(self, id: u32) -> Option<LayoutNode> {
        match self.root {
            Some(r) => spec_find(*r, id),
            None => None,
        }
    }

    /// Invariant: the partition is well formed, and without a focused
    /// window the tree holds no window.
    pub open spec fn wf(self) -> bool {
        &&& match self.root {
            Some(r) => spec_node_wf(*r),
            None => true,
        }
        &&& (self.focused is None ==> self.windows().len() == 0)
    }

    /// The gap between tiled windows.
    pub open spec fn gap(self) -> i32 {
        spec_or(self.layout_config.gap, 0)
    }

    /// The tree with every node laid out in the tiling area.
    pub open spec fn arranged(self) -> LayoutTree {
        LayoutTree {
            root: match self.root {
                Some(r) => Some(Box::new(spec_apply_rects(*r, self.output_rect, self.gap()))),
                None => None,
            },
            ..self
        }
    }

    /// One entry per window, depth-first: id, shown rectangle, state.
    pub open spec fn entries(self) -> Seq<(u32, Rect, WindowState)> {
        match self.root {
            Some(r) => spec_entries(*r, self.output_rect),
            None => Seq::empty(),
        }
    }

    /// Ids and shown rectangles of the windows, depth-first.
    pub open spec fn visible(self) -> Seq<(u32, Rect)> {
        match self.root {
            Some(r) => spec_visible_nodes(*r, self.output_rect),
            None => Seq::empty(),
        }
    }
}

/// Arranging keeps the invariant, the windows and their states.
pub proof fn lemma_arranged_keeps(t: LayoutTree)
    ensures
        t.wf() ==> t.arranged().wf(),
        t.arranged().windows() == t.windows(),
        t.arranged().focused == t.focused,
        forall|y: u32| #[trigger] t.arranged().has_window(y) == t.has_window(y),
        forall|y: u32| #[trigger] t.arranged().state_of(y) == t.state_of(y),
{
    if let Some(r) = t.root {
        lemma_apply_rects_keeps(*r, t.output_rect, t.gap());
        let m = spec_apply_rects(*r, t.output_rect, t.gap());
        assert(t.arranged().root == Some(Box::new(m)));
        assert(t.arranged().windows() == t.windows());
    }
}

/// The windows of a well-formed tree are the windows it holds, each once.
pub proof fn lemma_tree_windows(t: LayoutTree)
    requires
        t.wf(),
    ensures
        t.windows().no_duplicates(),
        forall|y: u32| #[trigger] t.windows().contains(y) == t.has_window(y),
{
    if let Some(r) = t.root {
        lemma_windows_distinct(*r);
        assert forall|y: u32| #[trigger] t.windows().contains(y) == t.has_window(y) by {
            lemma_windows_has(*r, y);
        }
    }
}

impl Clone for LayoutTree {
    fn clone(&self) -> (r: Self)
        ensures
            r == *self,
    {
        let root = match &self.root {
            Some(n) => Some(Box::new(clone_node(&**n))),
            None => None,
        };
        LayoutTree {
            root,
            focused: self.focused,
            output_rect: self.output_rect,
            raw_output_rect: self.raw_output_rect,
            layout_config: self.layout_config,
            next_id: self.next_id,
        }
    }
}

impl LayoutTree {
    /// Create an empty layout tree for the given output geometry.
    pub fn new(output_rect: Rect) -> (t: LayoutTree)
        ensures
            t.wf(),
            t.root is None,
            t.focused is None,
            t.output_rect == output_rect,
            t.raw_output_rect == output_rect,
            t.layout_config == spec_empty_layout_config(),
            t.next_id == 0,
    {
        LayoutTree {
            root: None,
            focused: None,
            output_rect,
            raw_output_rect: output_rect,
            layout_config: LayoutConfig::default(),
            next_id: 0,
        }
    }

    /// Recompute the tiling area from the output geometry and the margins.
    fn apply_margins(&mut self)
        ensures
            *final(self) == (LayoutTree {
                output_rect: spec_margin_rect(old(self).raw_output_rect, old(self).layout_config),
                ..*old(self)
            }),
    {
        let cfg = self.layout_config;
        let rect = self.raw_output_rect;
        let gap: i64 = match cfg.gap {
            Some(g) => g as i64,
            None => 0,
        };
        let left: i64 = match cfg.margin_left {
            Some(m) => m as i64,
            None => 0,
        };
        let right: i64 = match cfg.margin_right {
            Some(m) => m as i64,
            None => 0,
        };
        let top: i64 = match cfg.margin_top {
            Some(m) => m as i64,
            None => 0,
        };
        let bottom: i64 = match cfg.margin_bottom {
            Some(m) => m as i64,
            None => 0,
        };
        let w = rect.width as i64 - left - right - 2 * gap;
        let h = rect.height as i64 - top - bottom - 2 * gap;
        self.output_rect = Rect {
            x: sat_i32(rect.x as i64 + left + gap),
            y: sat_i32(rect.y as i64 + top + gap),
            width: sat_i32(if w > 0 { w } else { 0 }),
            height: sat_i32(if h > 0 { h } else { 0 }),
        };
    }

    /// Update the gap and margins and recompute the tiling area.
    pub fn set_layout_config(&mut self, config: LayoutConfig)
        requires
            old(self).wf(),
        ensures
            final(self).wf(),
            *final(self) == (LayoutTree {
                layout_config: config,
                output_rect: spec_margin_rect(old(self).raw_output_rect, config),
                ..*old(self)
            }),
    {
        self.layout_config = config;
        self.apply_margins();
    }

    /// Lay every node out in the tiling area.
    fn apply_layout(&mut self)
        ensures
            *final(self) == old(self).arranged(),
    {
        let gap = match self.layout_config.gap {
            Some(g) => g,
            None => 0,
        };
        let area = self.output_rect;
        match self.root.take() {
            Some(mut r) => {
                apply_rects(&mut *r, area, gap);
                self.root = Some(r);
            },
            None => {},
        }
    }

    /// Update the output geometry, recompute the tiling area and lay the
    /// windows out again.
    pub fn set_output_rect(&mut self, rect: Rect)
        requires
            old(self).wf(),
        ensures
            final(self).wf(),
            *final(self) == (LayoutTree {
                raw_output_rect: rect,
                output_rect: spec_margin_rect(rect, old(self).layout_config),
                ..*old(self)
            }).arranged(),
    {
        self.raw_output_rect = rect;
        self.apply_margins();
        proof {
            lemma_arranged_keeps(*self);
        }
        self.apply_layout();
    }

    /// Move every floating window's rect by `(dx, dy)`, saturating.
    pub fn translate_floating_rects(&mut self, dx: i32, dy: i32)
        requires
            old(self).wf(),
        ensures
            final(self).wf(),
            *final(self) == (LayoutTree {
                root: match old(self).root {
                    Some(r) => Some(Box::new(spec_shift_floating(*r, dx, dy))),
                    None => None,
                },
                ..*old(self)
            }),
    {
        match self.root.take() {
            Some(mut r) => {
                proof {
                    lemma_shift_keeps(*r, dx, dy);
                }
                shift_floating(&mut *r, dx, dy);
                self.root = Some(r);
            },
            None => {},
        }
    }

    /// Whether the tree holds `id`.
    pub fn contains_window(&self, id: u32) -> (r: bool)
        ensures
            r == self.has_window(id),
    {
        match &self.root {
            Some(n) => contains_window(&**n, id),
            None => false,
        }
    }

    /// The node holding `id`, if any.
    pub fn find_window_node(&self, id: u32) -> (r: Option<&LayoutNode>)
        ensures
            match r {
                Some(x) => self.node_of(id) == Some(*x),
                None => self.node_of(id).is_none(),
            },
    {
        match &self.root {
            Some(n) => find_window_node(&**n, id),
            None => None,
        }
    }

    /// The rectangle last assigned to the node holding `id`.
    pub fn node_rect(&self, id: u32) -> (r: Option<Rect>)
        ensures
            r == (match self.node_of(id) {
                Some(x) => Some(x.rect),
                None => None,
            }),
    {
        match self.find_window_node(id) {
            Some(n) => Some(n.rect),
            None => None,
        }
    }

    /// Focus `id` if the tree holds it; returns whether it did.
    pub fn focus_window(&mut self, id: u32) -> (r: bool)
        requires
            old(self).wf(),
        ensures
            final(self).wf(),
            r == old(self).has_window(id),
            *final(self) == (if r {
                LayoutTree { focused: Some(id), ..*old(self) }
            } else {
                *old(self)
            }),
    {
        if self.contains_window(id) {
            self.focused = Some(id);
            true
        } else {
            false
        }
    }

    /// The focused window.
    pub fn focused_window(&self) -> (r: Option<u32>)
        ensures
            r == self.focused,
    {
        self.focused
    }

    /// Whether `id` is floating; false when the tree does not hold it.
    pub fn window_is_floating(&self, id: u32) -> (r: bool)
        ensures
            r == (self.state_of(id) matches Some(s) && s is Floating),
    {
        match self.find_window_node(id) {
            Some(n) => n.state.is_floating(),
            None => false,
        }
    }

    /// Whether `id` is fullscreen; false when the tree does not hold it.
    pub fn window_is_fullscreen(&self, id: u32) -> (r: bool)
        ensures
            r == (self.state_of(id) matches Some(s) && s is Fullscreen),
    {
        match self.find_window_node(id) {
            Some(n) => n.state.is_fullscreen(),
            None => false,
        }
    }

    /// The state of `id`, or `None` when the tree does not hold it.
    pub fn window_state(&self, id: u32) -> (r: Option<&WindowState>)
        ensures
            match r {
                Some(s) => self.state_of(id) == Some(*s),
                None => self.state_of(id).is_none(),
            },
    {
        match self.find_window_node(id) {
            Some(n) => Some(&n.state),
            None => None,
        }
    }

    /// The window at the root, when the root is a leaf holding one.
    pub fn root_window(&self) -> (r: Option<u32>)
        ensures
            r == (match self.root {
                Some(n) => n.window,
                None => None,
            }),
    {
        match &self.root {
            Some(n) => n.window,
            None => None,
        }
    }

    /// The first window of the tree in depth-first order.
    pub fn first_window(&self) -> (r: Option<u32>)
        ensures
            r == spec_first_of(self.windows()),
    {
        match &self.root {
            Some(n) => first_window_of(&**n),
            None => None,
        }
    }

    /// The ids of all windows, depth-first.
    pub fn visible_windows(&self) -> (r: Vec<u32>)
        ensures
            r@ == self.windows(),
    {
        let mut out: Vec<u32> = Vec::new();
        match &self.root {
            Some(n) => collect_windows(&**n, &mut out),
            None => {},
        }
        assert(out@ =~= self.windows());
        out
    }

    /// Ids and shown rectangles of the windows, depth-first.
    pub fn visible_nodes(&self) -> (r: Vec<(u32, Rect)>)
        ensures
            r@ == self.visible(),
    {
        let mut out: Vec<(u32, Rect)> = Vec::new();
        match &self.root {
            Some(n) => collect_rects(&**n, self.output_rect, &mut out),
            None => {},
        }
        assert(out@ =~= self.visible());
        out
    }

    /// Each window's shown rectangle and state, without laying out again.
    pub fn arranged_windows_readonly(&self) -> (r: Vec<(u32, Rect, WindowState)>)
        ensures
            r@ == self.entries(),
    {
        let mut out: Vec<(u32, Rect, WindowState)> = Vec::new();
        match &self.root {
            Some(n) => collect_windows_with_state(&**n, self.output_rect, &mut out),
            None => {},
        }
        assert(out@ =~= self.entries());
        out
    }

    /// Lay the windows out and return each one's shown rectangle and state.
    pub fn arranged_windows(&mut self) -> (r: Vec<(u32, Rect, WindowState)>)
        requires
            old(self).wf(),
        ensures
            final(self).wf(),
            *final(self) == old(self).arranged(),
            r@ == old(self).arranged().entries(),
    {
        proof {
            lemma_arranged_keeps(*self);
        }
        self.apply_layout();
        self.arranged_windows_readonly()
    }

    /// Lay the windows out and return each one's shown rectangle.
    pub fn arrange(&mut self) -> (r: Vec<(u32, Rect)>)
        requires
            old(self).wf(),
        ensures
            final(self).wf(),
            *final(self) == old(self).arranged(),
            r@ == old(self).arranged().visible(),
    {
        proof {
            lemma_arranged_keeps(*self);
        }
        self.apply_layout();
        self.visible_nodes()
    }
}


/// The direction in which to split a slot: side by side when it is at
/// least as wide as tall, stacked otherwise; side by side when unknown.
pub open spec fn spec_split_direction_for(rect: Option<Rect>) -> SplitDirection {
    match rect {
        Some(r) => if r.width >= r.height {
            SplitDirection::Vertical
        } else {
            SplitDirection::Horizontal
        },
        None => SplitDirection::Vertical,
    }
}

impl LayoutTree {
    /// The tree after inserting `id`, and whether it was inserted. A window
    /// already present is refused. Otherwise the tree is laid out, then:
    /// an empty focus makes `id` the whole tree; a placeholder is filled
    /// with `id`; else the focused window's leaf is split evenly between it
    /// and `id`, along its longer side. The inserted window is focused. A
    /// focused window that the tree does not hold refuses the insertion.
    pub open spec fn after_insert(self, id: u32) -> (LayoutTree, bool) {
        if self.has_window(id) {
            (self, false)
        } else {
            let t = self.arranged();
            match t.focused {
                None => (LayoutTree { root: Some(Box::new(spec_leaf(Some(id)))), focused: Some(id), ..t }, true),
                Some(f) => match t.root {
                    Some(r) => if spec_has_placeholder(*r) {
                        (
                            LayoutTree {
                                root: Some(Box::new(spec_fix_flags(spec_fill_placeholder(*r, id)))),
                                focused: Some(id),
                                ..t
                            },
                            true,
                        )
                    } else {
                        match spec_find(*r, f) {
                            Some(x) => (
                                LayoutTree {
                                    root: Some(
                                        Box::new(
                                            spec_replace(
                                                *r,
                                                f,
                                                spec_split_node(
                                                    LayoutSplit {
                                                        direction: spec_split_direction_for(Some(x.rect)),
                                                        ratio: HALF_RATIO,
                                                    },
                                                    x,
                                                    spec_leaf(Some(id)),
                                                ),
                                            ),
                                        ),
                                    ),
                                    focused: Some(id),
                                    ..t
                                },
                                true,
                            ),
                            None => (t, false),
                        }
                    },
                    None => (t, false),
                },
            }
        }
    }

    /// The tree after splitting the focused window's leaf along `direction`
    /// into the window and a placeholder, and the id handed out for the
    /// placeholder; nothing is split without a focused window in the tree.
    pub open spec fn after_split(self, direction: SplitDirection) -> (LayoutTree, Option<u32>) {
        let t = self.arranged();
        match (t.focused, t.root) {
            (Some(f), Some(r)) => match spec_find(*r, f) {
                Some(x) => (
                    LayoutTree {
                        root: Some(
                            Box::new(
                                spec_replace(
                                    *r,
                                    f,
                                    spec_split_node(LayoutSplit { direction, ratio: HALF_RATIO }, x, spec_leaf(None)),
                                ),
                            ),
                        ),
                        next_id: (t.next_id + 1) as u32,
                        ..t
                    },
                    Some(t.next_id),
                ),
                None => (t, None),
            },
            _ => (t, None),
        }
    }

    /// The tree after removing `id`, and whether it held it. Splits left
    /// with one side collapse to the other side (see
    /// [`crate::layout::spec_remove`]); tiling flags are recomputed; when
    /// the focused window is removed, focus goes to the first remaining one.
    pub open spec fn after_remove(self, id: u32) -> (LayoutTree, bool) {
        match self.root {
            None => (self, false),
            Some(r) => {
                let (m, out) = spec_remove(*r, id);
                match out {
                    RemoveOutcome::LeafRemoved => (LayoutTree { root: None, focused: None, ..self }, true),
                    RemoveOutcome::Replaced(x) => (
                        LayoutTree {
                            root: Some(Box::new(spec_fix_flags(*x))),
                            focused: if self.focused == Some(id) {
                                spec_first_of(spec_windows(*x))
                            } else {
                                self.focused
                            },
                            ..self
                        },
                        true,
                    ),
                    RemoveOutcome::Modified => (
                        LayoutTree {
                            root: Some(Box::new(spec_fix_flags(m))),
                            focused: if self.focused == Some(id) {
                                spec_first_of(spec_windows(m))
                            } else {
                                self.focused
                            },
                            ..self
                        },
                        true,
                    ),
                    RemoveOutcome::NotFound => (self, false),
                }
            },
        }
    }

    /// Fill the first placeholder with `id`, if there is one.
    fn replace_placeholder(&mut self, id: u32) -> (r: bool)
        ensures
            r == (old(self).root matches Some(n) && spec_has_placeholder(*n)),
            *final(self) == (if r {
                LayoutTree {
                    root: Some(Box::new(spec_fix_flags(spec_fill_placeholder(*old(self).root->0, id)))),
                    ..*old(self)
                }
            } else {
                *old(self)
            }),
    {
        match self.root.take() {
            Some(mut n) => {
                let found = fill_placeholder(&mut *n, id);
                if found {
                    update_ancestor_tiling_flags(&mut *n);
                } else {
                    proof {
                        crate::layout::lemma_fill_without_placeholder(*old(self).root->0, id);
                    }
                }
                self.root = Some(n);
                found
            },
            None => false,
        }
    }

    /// The split direction for the focused window's slot.
    fn split_direction(&self, id: u32) -> (r: SplitDirection)
        ensures
            r == spec_split_direction_for(
                match self.node_of(id) {
                    Some(x) => Some(x.rect),
                    None => None,
                },
            ),
    {
        match self.node_rect(id) {
            Some(rect) => if rect.width >= rect.height {
                SplitDirection::Vertical
            } else {
                SplitDirection::Horizontal
            },
            None => SplitDirection::Vertical,
        }
    }

    /// Insert a window (see [`LayoutTree::after_insert`]).
    pub fn insert_window(&mut self, id: u32) -> (r: bool)
        requires
            old(self).wf(),
        ensures
            final(self).wf(),
            (*final(self), r) == old(self).after_insert(id),
    {
        if self.contains_window(id) {
            return false;
        }
        proof {
            lemma_arranged_keeps(*self);
        }
        self.apply_layout();
        let ghost t = *self;
        assert(old(self).arranged().has_window(id) == old(self).has_window(id));
        assert(!t.has_window(id));
        let f = match self.focused {
            Some(f) => f,
            None => {
                self.root = Some(Box::new(leaf(Some(id))));
                self.focused = Some(id);
                assert(self.windows() =~= seq![id]);
                return true;
            },
        };
        if self.replace_placeholder(id) {
            self.focused = Some(id);
            proof {
                let r = t.root->0;
                lemma_fill_keeps(*r, id);
                lemma_fix_flags_keeps(spec_fill_placeholder(*r, id));
                lemma_windows_has(spec_fix_flags(spec_fill_placeholder(*r, id)), id);
            }
            return true;
        }
        if self.find_window_node(f).is_none() {
            return false;
        }
        let direction = self.split_direction(f);
        let split = LayoutSplit { direction, ratio: HALF_RATIO };
        match self.root.take() {
            Some(mut n) => {
                proof {
                    lemma_find(*n, f);
                    lemma_split_node_wf(*n, f, split, Some(id));
                    let x = spec_find(*n, f)->0;
                    let rep = spec_split_node(split, x, spec_leaf(Some(id)));
                    lemma_replace_keeps(*n, f, rep);
                    lemma_windows_has(spec_replace(*n, f, rep), id);
                }
                split_window_node(&mut *n, f, split, Some(id));
                self.root = Some(n);
            },
            None => {},
        }
        self.focused = Some(id);
        true
    }

    /// Split the focused window's leaf and return the placeholder's id (see
    /// [`LayoutTree::after_split`]).
    pub fn split_focused(&mut self, direction: SplitDirection) -> (r: Option<u32>)
        requires
            old(self).wf(),
            old(self).next_id < u32::MAX,
        ensures
            final(self).wf(),
            (*final(self), r) == old(self).after_split(direction),
    {
        proof {
            lemma_arranged_keeps(*self);
        }
        self.apply_layout();
        let f = match self.focused {
            Some(f) => f,
            None => return None,
        };
        if self.find_window_node(f).is_none() {
            return None;
        }
        let placeholder_id = self.next_id;
        self.next_id = self.next_id + 1;
        let split = LayoutSplit { direction, ratio: HALF_RATIO };
        match self.root.take() {
            Some(mut n) => {
                proof {
                    lemma_find(*n, f);
                    lemma_split_node_wf(*n, f, split, None);
                    let x = spec_find(*n, f)->0;
                    let rep = spec_split_node(split, x, spec_leaf(None));
                    lemma_replace_keeps(*n, f, rep);
                    lemma_windows_has(*n, f);
                    lemma_windows_has(spec_replace(*n, f, rep), f);
                }
                split_window_node(&mut *n, f, split, None);
                self.root = Some(n);
            },
            None => {},
        }
        Some(placeholder_id)
    }

    /// Remove a window (see [`LayoutTree::after_remove`]).
    pub fn remove_window(&mut self, id: u32) -> (r: bool)
        requires
            old(self).wf(),
        ensures
            final(self).wf(),
            (*final(self), r) == old(self).after_remove(id),
    {
        let root = self.root.take();
        match root {
            None => false,
            Some(mut n) => {
                proof {
                    lemma_remove_keeps(*n, id);
                    lemma_windows_has(*n, id);
                }
                let ghost n0 = *n;
                let out = remove_from_node(&mut *n, id);
                match out {
                    RemoveOutcome::LeafRemoved => {
                        self.focused = None;
                        true
                    },
                    RemoveOutcome::Replaced(mut x) => {
                        if is_window(self.focused, id) {
                            self.focused = first_window_of(&*x);
                        }
                        proof {
                            lemma_fix_flags_keeps(*x);
                        }
                        update_ancestor_tiling_flags(&mut *x);
                        self.root = Some(x);
                        true
                    },
                    RemoveOutcome::Modified => {
                        if is_window(self.focused, id) {
                            self.focused = first_window_of(&*n);
                        }
                        proof {
                            lemma_fix_flags_keeps(*n);
                        }
                        update_ancestor_tiling_flags(&mut *n);
                        self.root = Some(n);
                        true
                    },
                    RemoveOutcome::NotFound => {
                        self.root = Some(n);
                        false
                    },
                }
            },
        }
    }
}


/// The index of the focused window in `ws`, or 0 when it is not there.
pub open spec fn spec_focus_index(ws: Seq<u32>, focused: Option<u32>) -> int {
    match focused {
        Some(f) => if ws.contains(f) {
            ws.index_of(f)
        } else {
            0
        },
        None => 0,
    }
}

/// The window after (or before) the focused one in `ws`, cyclically,
/// starting from the first window when the focused one is not in `ws`.
pub open spec fn spec_focus_step(ws: Seq<u32>, focused: Option<u32>, forward: bool) -> Option<u32> {
    if ws.len() == 0 {
        None
    } else {
        let i = spec_focus_index(ws, focused);
        let n = ws.len() as int;
        Some(ws[if forward { (i + 1) % n } else { (i + n - 1) % n }])
    }
}

/// Whether entry `i` lies on the `direction` side of `frect` and is not the
/// focused window `f`.
pub open spec fn spec_is_candidate(
    nodes: Seq<(u32, Rect)>,
    i: int,
    f: u32,
    frect: Rect,
    direction: FocusDirection,
) -> bool {
    0 <= i < nodes.len() && nodes[i].0 != f && nodes[i].1.spec_is_side_of(frect, direction)
}

/// Whether entry `i` is at least as close to `frect` as entry `j`, ties
/// going to the lower id.
pub open spec fn spec_beats(nodes: Seq<(u32, Rect)>, i: int, j: int, frect: Rect, direction: FocusDirection) -> bool {
    let di = nodes[i].1.spec_distance_from(frect, direction);
    let dj = nodes[j].1.spec_distance_from(frect, direction);
    di < dj || (di == dj && nodes[i].0 <= nodes[j].0)
}

/// Whether entry `i` is the nearest candidate.
pub open spec fn spec_is_best(
    nodes: Seq<(u32, Rect)>,
    i: int,
    f: u32,
    frect: Rect,
    direction: FocusDirection,
) -> bool {
    &&& spec_is_candidate(nodes, i, f, frect, direction)
    &&& forall|j: int| #[trigger]
        spec_is_candidate(nodes, j, f, frect, direction) ==> spec_beats(nodes, i, j, frect, direction)
}

/// The nearest window on the `direction` side of `frect`: least distance
/// between facing edges, then lowest id.
pub open spec fn spec_best_target(nodes: Seq<(u32, Rect)>, f: u32, frect: Rect, direction: FocusDirection) -> Option<u32> {
    if exists|i: int| spec_is_best(nodes, i, f, frect, direction) {
        Some(nodes[choose|i: int| spec_is_best(nodes, i, f, frect, direction)].0)
    } else {
        None
    }
}

impl LayoutTree {
    /// The target of a directional move from the focused window `f`: the
    /// nearest window whose shown rectangle lies on that side of `f`'s slot.
    pub open spec fn best_target(self, f: u32, direction: FocusDirection) -> Option<u32> {
        match self.node_of(f) {
            Some(x) => spec_best_target(self.visible(), f, x.rect, direction),
            None => None,
        }
    }

    /// The tree after moving focus one window forward or back in
    /// depth-first order, and whether there was a window to focus.
    pub open spec fn after_focus_step(self, forward: bool) -> (LayoutTree, bool) {
        match spec_focus_step(self.windows(), self.focused, forward) {
            Some(w) => (LayoutTree { focused: Some(w), ..self }, true),
            None => (self, false),
        }
    }

    /// The tree after focusing the nearest window in `direction`, laid out
    /// first, and whether there was one.
    pub open spec fn after_focus_direction(self, direction: FocusDirection) -> (LayoutTree, bool) {
        let t = self.arranged();
        match t.focused {
            None => (t, false),
            Some(f) => match t.best_target(f, direction) {
                Some(w) => (LayoutTree { focused: Some(w), ..t }, true),
                None => (t, false),
            },
        }
    }

    /// The tree after exchanging the focused window with the nearest window
    /// in `direction` (each keeps its own state and takes the other's slot),
    /// laid out first, and whether it did.
    pub open spec fn after_swap(self, direction: FocusDirection) -> (LayoutTree, bool) {
        let t = self.arranged();
        match t.focused {
            None => (t, false),
            Some(f) => if t.windows().len() <= 1 {
                (t, false)
            } else {
                match t.best_target(f, direction) {
                    None => (t, false),
                    Some(g) => match (t.node_of(f), t.node_of(g)) {
                        (Some(na), Some(nb)) => (
                            LayoutTree {
                                root: Some(
                                    Box::new(
                                        spec_fix_flags(
                                            spec_swap(*t.root->0, f, g, na.state, na.has_tiling, nb.state, nb.has_tiling),
                                        ),
                                    ),
                                ),
                                ..t
                            },
                            true,
                        ),
                        _ => (t, false),
                    },
                }
            },
        }
    }
}

/// The first index of `x` in `v`.
fn position(v: &Vec<u32>, x: u32) -> (r: Option<usize>)
    ensures
        match r {
            Some(i) => i < v.len() && v@[i as int] == x,
            None => !v@.contains(x),
        },
{
    let mut i: usize = 0;
    while i < v.len()
        invariant
            i <= v.len(),
            forall|j: int| 0 <= j < i ==> v@[j] != x,
        decreases v.len() - i,
    {
        if v[i] == x {
            return Some(i);
        }
        i = i + 1;
    }
    None
}

impl LayoutTree {
    fn focus_relative(&mut self, forward: bool) -> (r: bool)
        requires
            old(self).wf(),
        ensures
            final(self).wf(),
            (*final(self), r) == old(self).after_focus_step(forward),
    {
        let windows = self.visible_windows();
        let len = windows.len();
        if len == 0 {
            return false;
        }
        proof {
            lemma_tree_windows(*self);
        }
        let index: usize = match self.focused {
            Some(f) => match position(&windows, f) {
                Some(i) => {
                    proof {
                        let ws = windows@;
                        assert(ws.contains(f));
                        let k = ws.index_of(f);
                        assert(ws[k] == f);
                        assert(k == i);
                    }
                    i
                },
                None => 0,
            },
            None => 0,
        };
        let next: usize = if forward {
            if index + 1 == len {
                0
            } else {
                index + 1
            }
        } else {
            if index == 0 {
                len - 1
            } else {
                index - 1
            }
        };
        proof {
            let n = len as int;
            let i = index as int;
            assert(i == spec_focus_index(windows@, self.focused));
            if forward {
                assert(next as int == (i + 1) % n) by (nonlinear_arith)
                    requires
                        0 <= i < n,
                        next as int == (if i + 1 == n { 0 } else { i + 1 }),
                ;
            } else {
                assert(next as int == (i + n - 1) % n) by (nonlinear_arith)
                    requires
                        0 <= i < n,
                        next as int == (if i == 0 { n - 1 } else { i - 1 }),
                ;
            }
        }
        self.focused = Some(windows[next]);
        true
    }

    /// Cycle focus to the next window in the tree, wrapping around.
    pub fn focus_next(&mut self) -> (r: bool)
        requires
            old(self).wf(),
        ensures
            final(self).wf(),
            (*final(self), r) == old(self).after_focus_step(true),
    {
        self.focus_relative(true)
    }

    /// Cycle focus to the previous window in the tree, wrapping around.
    pub fn focus_previous(&mut self) -> (r: bool)
        requires
            old(self).wf(),
        ensures
            final(self).wf(),
            (*final(self), r) == old(self).after_focus_step(false),
    {
        self.focus_relative(false)
    }

    /// The nearest window in `direction` from the focused window `focused`
    /// (see [`LayoutTree::best_target`]).
    fn select_best_target(&self, focused: u32, direction: FocusDirection) -> (r: Option<u32>)
        ensures
            r == self.best_target(focused, direction),
    {
        let frect = match self.node_rect(focused) {
            Some(rect) => rect,
            None => return None,
        };
        let nodes = self.visible_nodes();
        let ghost ns = nodes@;
        let mut best: Option<(u32, i64)> = None;
        let ghost mut best_index: int = 0;
        let mut k: usize = 0;
        while k < nodes.len()
            invariant
                ns == nodes@,
                k <= nodes.len(),
                match best {
                    Some((bid, bd)) => {
                        &&& spec_is_candidate(ns, best_index, focused, frect, direction)
                        &&& ns[best_index].0 == bid
                        &&& ns[best_index].1.spec_distance_from(frect, direction) == bd
                        &&& best_index < k
                        &&& forall|j: int|
                            0 <= j < k && #[trigger] spec_is_candidate(ns, j, focused, frect, direction)
                                ==> spec_beats(ns, best_index, j, frect, direction)
                    },
                    None => forall|j: int|
                        0 <= j < k ==> !#[trigger] spec_is_candidate(ns, j, focused, frect, direction),
                },
            decreases nodes.len() - k,
        {
            let (id, rect) = nodes[k];
            if id != focused && rect.is_side_of(frect, direction) {
                let distance = rect.distance_from(frect, direction);
                let better = match best {
                    Some((best_id, best_distance)) => distance < best_distance || (distance == best_distance
                        && id < best_id),
                    None => true,
                };
                if better {
                    best = Some((id, distance));
                    proof {
                        best_index = k as int;
                    }
                }
            }
            k = k + 1;
        }
        match best {
            Some((bid, _)) => {
                proof {
                    assert(spec_is_best(ns, best_index, focused, frect, direction));
                    let c = choose|i: int| spec_is_best(ns, i, focused, frect, direction);
                    assert(spec_beats(ns, c, best_index, frect, direction));
                    assert(spec_beats(ns, best_index, c, frect, direction));
                }
                Some(bid)
            },
            None => {
                proof {
                    assert(!exists|i: int| spec_is_best(ns, i, focused, frect, direction));
                }
                None
            },
        }
    }

    /// Focus the nearest window in `direction` (see
    /// [`LayoutTree::after_focus_direction`]).
    pub fn focus_direction(&mut self, direction: FocusDirection) -> (r: bool)
        requires
            old(self).wf(),
        ensures
            final(self).wf(),
            (*final(self), r) == old(self).after_focus_direction(direction),
    {
        proof {
            lemma_arranged_keeps(*self);
        }
        self.apply_layout();
        let focused = match self.focused {
            Some(f) => f,
            None => return false,
        };
        match self.select_best_target(focused, direction) {
            Some(target) => {
                proof {
                    lemma_best_target_is_window(*self, focused, direction);
                }
                self.focused = Some(target);
                true
            },
            None => false,
        }
    }

    /// Exchange the focused window with the nearest window in `direction`
    /// (see [`LayoutTree::after_swap`]).
    pub fn swap_windows(&mut self, direction: FocusDirection) -> (r: bool)
        requires
            old(self).wf(),
        ensures
            final(self).wf(),
            (*final(self), r) == old(self).after_swap(direction),
    {
        proof {
            lemma_arranged_keeps(*self);
        }
        self.apply_layout();
        let focused = match self.focused {
            Some(f) => f,
            None => return false,
        };
        let visible = self.visible_windows();
        if visible.len() <= 1 {
            return false;
        }
        let target = match self.select_best_target(focused, direction) {
            Some(t) => t,
            None => return false,
        };
        proof {
            lemma_best_target_is_window(*self, focused, direction);
        }
        let (sa, ta) = match self.find_window_node(focused) {
            Some(n) => (clone_state(&n.state), n.has_tiling),
            None => return false,
        };
        let (sb, tb) = match self.find_window_node(target) {
            Some(n) => (clone_state(&n.state), n.has_tiling),
            None => return false,
        };
        match self.root.take() {
            Some(mut n) => {
                proof {
                    lemma_find(*n, focused);
                    lemma_find(*n, target);
                    lemma_swap_keeps(*n, focused, target, sa, ta, sb, tb);
                    let m = spec_swap(*n, focused, target, sa, ta, sb, tb);
                    lemma_fix_flags_keeps(m);
                    lemma_windows_has(*n, focused);
                    lemma_windows_has(spec_fix_flags(m), target);
                    assert(spec_has(m, target));
                }
                swap_window_nodes(&mut *n, focused, target, &sa, ta, &sb, tb);
                update_ancestor_tiling_flags(&mut *n);
                self.root = Some(n);
            },
            None => {},
        }
        true
    }
}

/// The target of a directional move is a window of the tree other than the
/// focused one.
pub proof fn lemma_best_target_is_window(t: LayoutTree, f: u32, direction: FocusDirection)
    ensures
        t.best_target(f, direction) matches Some(w) ==> t.has_window(w) && w != f,
{
    if let Some(x) = t.node_of(f) {
        if let Some(w) = t.best_target(f, direction) {
            let r = t.root->0;
            let ns = t.visible();
            let i = choose|i: int| spec_is_best(ns, i, f, x.rect, direction);
            lemma_visible_windows(*r, t.output_rect);
            assert(spec_windows(*r)[i] == w);
            assert(spec_windows(*r).contains(w));
            lemma_windows_has(*r, w);
        }
    }
}


/// A floating rect nudged by `delta_x` / `delta_y` in `direction`, then
/// kept inside `area` on each axis where it fits.
pub open spec fn spec_moved_rect(rect: Rect, area: Rect, direction: FocusDirection, delta_x: i32, delta_y: i32) -> Rect {
    let dx: int = match direction {
        FocusDirection::Left => -delta_x,
        FocusDirection::Right => delta_x as int,
        _ => 0,
    };
    let dy: int = match direction {
        FocusDirection::Up => -delta_y,
        FocusDirection::Down => delta_y as int,
        _ => 0,
    };
    let x1 = rect.x + dx;
    let y1 = rect.y + dy;
    let max_x = area.x + area.width - rect.width;
    let max_y = area.y + area.height - rect.height;
    let x2 = if area.x <= max_x { spec_clamp(x1, area.x as int, max_x) } else { x1 };
    let y2 = if area.y <= max_y { spec_clamp(y1, area.y as int, max_y) } else { y1 };
    Rect { x: spec_sat(x2), y: spec_sat(y2), ..rect }
}

/// How a split's ratio moves when resizing toward `direction`: growing the
/// first child toward right / down, shrinking it toward left / up; splits
/// across the other axis do not move.
pub open spec fn spec_ratio_delta(split: SplitDirection, direction: FocusDirection, delta: int) -> Option<int> {
    match (split, direction) {
        (SplitDirection::Vertical, FocusDirection::Right) => Some(delta),
        (SplitDirection::Vertical, FocusDirection::Left) => Some(-delta),
        (SplitDirection::Horizontal, FocusDirection::Down) => Some(delta),
        (SplitDirection::Horizontal, FocusDirection::Up) => Some(-delta),
        _ => None,
    }
}

/// `v / 10000` rounded half away from zero.
pub open spec fn spec_round_permyriad(v: int) -> int {
    if v >= 0 {
        (v + 5000) / 10000
    } else {
        -((-v + 5000) / 10000)
    }
}

/// The resize step along an output side: `delta` permyriad of it, rounded,
/// kept within `[0, side / 2]`, then at least 1.
pub open spec fn spec_resize_step(side: int, delta: int) -> int {
    let raw = spec_round_permyriad(side * delta);
    let c = if raw < 0 {
        0
    } else if raw > side / 2 {
        side / 2
    } else {
        raw
    };
    spec_max(c, 1)
}

/// A floating rect grown (or shrunk) by `dx` / `dy` on the edge facing
/// `direction`; a shrunk side stays at least 1 wide.
pub open spec fn spec_resized_rect(rect: Rect, direction: FocusDirection, dx: int, dy: int, is_expand: bool) -> Rect {
    match direction {
        FocusDirection::Left => if is_expand {
            Rect { x: spec_sat(rect.x - dx), width: spec_sat(rect.width + dx), ..rect }
        } else {
            Rect { x: spec_sat(rect.x + dx), width: spec_sat(spec_max(rect.width - dx, 1)), ..rect }
        },
        FocusDirection::Right => if is_expand {
            Rect { width: spec_sat(rect.width + dx), ..rect }
        } else {
            Rect { width: spec_sat(spec_max(rect.width - dx, 1)), ..rect }
        },
        FocusDirection::Up => if is_expand {
            Rect { y: spec_sat(rect.y - dy), height: spec_sat(rect.height + dy), ..rect }
        } else {
            Rect { y: spec_sat(rect.y + dy), height: spec_sat(spec_max(rect.height - dy, 1)), ..rect }
        },
        FocusDirection::Down => if is_expand {
            Rect { height: spec_sat(rect.height + dy), ..rect }
        } else {
            Rect { height: spec_sat(spec_max(rect.height - dy, 1)), ..rect }
        },
    }
}

/// Toggling fullscreen: a fullscreen window returns to the state it kept;
/// any other window becomes fullscreen, keeping its state to return to.
pub open spec fn spec_toggled_fullscreen(s: WindowState) -> WindowState {
    match s {
        WindowState::Fullscreen { restore } => *restore,
        other => WindowState::Fullscreen { restore: Box::new(other) },
    }
}

/// Toggling toward `target`: floating toward floating and pseudo-tiled
/// toward pseudo-tiled return to tiled; anything else takes `target`.
pub open spec fn spec_toggled(s: WindowState, target: WindowState) -> WindowState {
    match s {
        WindowState::Fullscreen { .. } => target,
        WindowState::Floating { .. } => if target is Floating {
            WindowState::Tiled
        } else {
            target
        },
        WindowState::PseudoTiled { .. } => if target is PseudoTiled {
            WindowState::Tiled
        } else {
            target
        },
        WindowState::Tiled => target,
    }
}

impl LayoutTree {
    /// The tree with `id` in state `s` and the tiling flags recomputed, and
    /// whether the tree holds `id`.
    pub open spec fn after_set_state(self, id: u32, s: WindowState) -> (LayoutTree, bool) {
        if self.has_window(id) {
            (LayoutTree { root: Some(Box::new(spec_fix_flags(spec_set_state(*self.root->0, id, s)))), ..self }, true)
        } else {
            (self, false)
        }
    }

    /// The tree after toggling fullscreen on `id`.
    pub open spec fn after_toggle_fullscreen(self, id: u32) -> (LayoutTree, bool) {
        match self.state_of(id) {
            Some(s) => self.after_set_state(id, spec_toggled_fullscreen(s)),
            None => (self, false),
        }
    }

    /// The tree after toggling `id` toward `target`.
    pub open spec fn after_toggle(self, id: u32, target: WindowState) -> (LayoutTree, bool) {
        match self.state_of(id) {
            Some(s) => self.after_set_state(id, spec_toggled(s, target)),
            None => (self, false),
        }
    }

    /// The tree after nudging the floating window `id`, and whether it is a
    /// floating window of the tree.
    pub open spec fn after_move_floating(
        self,
        id: u32,
        direction: FocusDirection,
        delta_x: i32,
        delta_y: i32,
    ) -> (LayoutTree, bool) {
        match self.state_of(id) {
            Some(WindowState::Floating { rect }) => (
                LayoutTree {
                    root: Some(
                        Box::new(
                            spec_set_state(
                                *self.root->0,
                                id,
                                WindowState::Floating {
                                    rect: spec_moved_rect(rect, self.output_rect, direction, delta_x, delta_y),
                                },
                            ),
                        ),
                    ),
                    ..self
                },
                true,
            ),
            _ => (self, false),
        }
    }

    /// The tree after resizing the floating window `id` by `delta`
    /// permyriad of the tiling area, and whether it is a floating window of
    /// the tree.
    pub open spec fn after_resize_floating(
        self,
        id: u32,
        direction: FocusDirection,
        delta: i32,
        is_expand: bool,
    ) -> (LayoutTree, bool) {
        match self.state_of(id) {
            Some(WindowState::Floating { rect }) => {
                let dx = spec_resize_step(self.output_rect.width as int, delta as int);
                let dy = spec_resize_step(self.output_rect.height as int, delta as int);
                (
                    LayoutTree {
                        root: Some(
                            Box::new(
                                spec_set_state(
                                    *self.root->0,
                                    id,
                                    WindowState::Floating {
                                        rect: spec_resized_rect(rect, direction, dx, dy, is_expand),
                                    },
                                ),
                            ),
                        ),
                        ..self
                    },
                    true,
                )
            },
            _ => (self, false),
        }
    }

    /// The tree after moving the ratio of the split directly above the
    /// focused window by `delta` permyriad toward `direction` (clamped to
    /// `[MIN_RATIO, MAX_RATIO]`) and laying out again; the tree is laid out
    /// first, and nothing else changes when there is no such split, the
    /// split is across the other axis, or the ratio would not move.
    pub open spec fn after_resize_ratio(self, direction: FocusDirection, delta: i32) -> (LayoutTree, bool) {
        let t = self.arranged();
        match (t.focused, t.root) {
            (Some(f), Some(r)) => match spec_parent_split(*r, f) {
                Some((s, _)) => match spec_ratio_delta(s.direction, direction, delta as int) {
                    Some(d) => {
                        let nr = spec_clamp(s.ratio + d, MIN_RATIO as int, MAX_RATIO as int);
                        if nr == s.ratio {
                            (t, false)
                        } else {
                            (
                                LayoutTree {
                                    root: Some(Box::new(spec_set_parent_ratio(*r, f, nr as u32))),
                                    ..t
                                }.arranged(),
                                true,
                            )
                        }
                    },
                    None => (t, false),
                },
                None => (t, false),
            },
            _ => (t, false),
        }
    }

    /// The window to resize from when the focused window's own split cannot
    /// move toward `direction`: at the nearest ancestor split that can, the
    /// window of the other side (its first tiled window when it is a
    /// split), provided that window tiles.
    pub open spec fn resize_target(self, direction: FocusDirection) -> Option<u32> {
        match (self.focused, self.root) {
            (Some(f), Some(r)) => match spec_ancestor_sibling(*r, f, direction) {
                Some(sib) => {
                    let sid = match sib.window {
                        Some(w) => Some(w),
                        None => spec_find_tiled(sib),
                    };
                    match sid {
                        Some(w) => match self.state_of(w) {
                            Some(st) => if spec_participates_in_tiling(st) {
                                Some(w)
                            } else {
                                None
                            },
                            None => None,
                        },
                        None => None,
                    }
                },
                None => None,
            },
            _ => None,
        }
    }
}

/// Setting a window's state and recomputing flags keeps the invariant, the
/// windows, and the other windows' states.
pub proof fn lemma_after_set_state(t: LayoutTree, id: u32, s: WindowState)
    requires
        t.wf(),
    ensures
        ({
            let (u, r) = t.after_set_state(id, s);
            &&& u.wf()
            &&& u.windows() == t.windows()
            &&& u.focused == t.focused
            &&& forall|y: u32| #[trigger] u.has_window(y) == t.has_window(y)
            &&& r ==> u.state_of(id) == Some(s)
            &&& forall|y: u32| y != id ==> #[trigger] u.state_of(y) == t.state_of(y)
        }),
{
    if t.has_window(id) {
        let n = *t.root->0;
        lemma_set_state_keeps(n, id, s);
        lemma_fix_flags_keeps(spec_set_state(n, id, s));
    }
}

/// Setting a floating window's rect keeps the invariant and the windows.
pub proof fn lemma_set_floating_rect(t: LayoutTree, id: u32, rect: Rect)
    requires
        t.wf(),
        t.has_window(id),
    ensures
        ({
            let u = LayoutTree {
                root: Some(Box::new(spec_set_state(*t.root->0, id, WindowState::Floating { rect }))),
                ..t
            };
            &&& u.wf()
            &&& u.windows() == t.windows()
            &&& forall|y: u32| #[trigger] u.has_window(y) == t.has_window(y)
            &&& u.state_of(id) == Some(WindowState::Floating { rect })
            &&& forall|y: u32| y != id ==> #[trigger] u.state_of(y) == t.state_of(y)
        }),
{
    lemma_set_state_keeps(*t.root->0, id, WindowState::Floating { rect });
}

impl LayoutTree {
    fn set_window_state_unchecked(&mut self, id: u32, target: WindowState)
        requires
            old(self).wf(),
            old(self).has_window(id),
        ensures
            final(self).wf(),
            *final(self) == old(self).after_set_state(id, target).0,
    {
        proof {
            lemma_after_set_state(*self, id, target);
        }
        match self.root.take() {
            Some(mut n) => {
                set_state_at(&mut *n, id, target);
                update_ancestor_tiling_flags(&mut *n);
                self.root = Some(n);
            },
            None => {},
        }
    }

    /// Toggle fullscreen for a window, keeping its previous state to return
    /// to (see [`LayoutTree::after_toggle_fullscreen`]).
    pub fn toggle_fullscreen(&mut self, id: u32) -> (r: bool)
        requires
            old(self).wf(),
        ensures
            final(self).wf(),
            (*final(self), r) == old(self).after_toggle_fullscreen(id),
    {
        let current = match self.find_window_node(id) {
            Some(n) => clone_state(&n.state),
            None => {
                proof {
                    if self.root is Some {
                        lemma_find(*self.root->0, id);
                    }
                }
                return false;
            },
        };
        proof {
            lemma_find(*self.root->0, id);
        }
        let next = match current {
            WindowState::Fullscreen { restore } => *restore,
            other => WindowState::Fullscreen { restore: Box::new(other) },
        };
        self.set_window_state_unchecked(id, next);
        true
    }

    /// Toggle a window toward `target` (see [`LayoutTree::after_toggle`]).
    fn toggle_state(&mut self, id: u32, target: WindowState) -> (r: bool)
        requires
            old(self).wf(),
        ensures
            final(self).wf(),
            (*final(self), r) == old(self).after_toggle(id, target),
    {
        let current = match self.find_window_node(id) {
            Some(n) => clone_state(&n.state),
            None => {
                proof {
                    if self.root is Some {
                        lemma_find(*self.root->0, id);
                    }
                }
                return false;
            },
        };
        proof {
            lemma_find(*self.root->0, id);
        }
        let next = match current {
            WindowState::Fullscreen { .. } => target,
            WindowState::Floating { .. } => if target.is_floating() {
                WindowState::Tiled
            } else {
                target
            },
            WindowState::PseudoTiled { .. } => match target {
                WindowState::PseudoTiled { .. } => WindowState::Tiled,
                other => other,
            },
            WindowState::Tiled => target,
        };
        self.set_window_state_unchecked(id, next);
        true
    }

    /// Toggle floating for a window with the given rect.
    pub fn toggle_floating(&mut self, id: u32, rect: Rect) -> (r: bool)
        requires
            old(self).wf(),
        ensures
            final(self).wf(),
            (*final(self), r) == old(self).after_toggle(id, WindowState::Floating { rect }),
    {
        self.toggle_state(id, WindowState::Floating { rect })
    }

    /// Toggle pseudo-tiling for a window with the given rect.
    pub fn toggle_pseudo_tiled(&mut self, id: u32, rect: Rect) -> (r: bool)
        requires
            old(self).wf(),
        ensures
            final(self).wf(),
            (*final(self), r) == old(self).after_toggle(id, WindowState::PseudoTiled { rect }),
    {
        self.toggle_state(id, WindowState::PseudoTiled { rect })
    }

    /// Set a window's state outright (no toggling).
    pub fn set_window_state(&mut self, id: u32, target: WindowState) -> (r: bool)
        requires
            old(self).wf(),
        ensures
            final(self).wf(),
            (*final(self), r) == old(self).after_set_state(id, target),
    {
        if !self.contains_window(id) {
            return false;
        }
        self.set_window_state_unchecked(id, target);
        true
    }

    /// Nudge a floating window (see [`LayoutTree::after_move_floating`]).
    pub fn move_floating_window(&mut self, id: u32, direction: FocusDirection, delta_x: i32, delta_y: i32) -> (r: bool)
        requires
            old(self).wf(),
        ensures
            final(self).wf(),
            (*final(self), r) == old(self).after_move_floating(id, direction, delta_x, delta_y),
    {
        let area = self.output_rect;
        let rect = match self.find_window_node(id) {
            Some(n) => match &n.state {
                WindowState::Floating { rect } => *rect,
                _ => return false,
            },
            None => {
                proof {
                    if self.root is Some {
                        lemma_find(*self.root->0, id);
                    }
                }
                return false;
            },
        };
        proof {
            lemma_find(*self.root->0, id);
        }
        let dx: i64 = match direction {
            FocusDirection::Left => -(delta_x as i64),
            FocusDirection::Right => delta_x as i64,
            _ => 0,
        };
        let dy: i64 = match direction {
            FocusDirection::Up => -(delta_y as i64),
            FocusDirection::Down => delta_y as i64,
            _ => 0,
        };
        let x1 = rect.x as i64 + dx;
        let y1 = rect.y as i64 + dy;
        let min_x = area.x as i64;
        let max_x = area.x as i64 + area.width as i64 - rect.width as i64;
        let min_y = area.y as i64;
        let max_y = area.y as i64 + area.height as i64 - rect.height as i64;
        let x2 = if min_x <= max_x {
            if x1 < min_x {
                min_x
            } else if x1 > max_x {
                max_x
            } else {
                x1
            }
        } else {
            x1
        };
        let y2 = if min_y <= max_y {
            if y1 < min_y {
                min_y
            } else if y1 > max_y {
                max_y
            } else {
                y1
            }
        } else {
            y1
        };
        let moved = Rect { x: sat_i32(x2), y: sat_i32(y2), width: rect.width, height: rect.height };
        proof {
            lemma_set_floating_rect(*self, id, moved);
        }
        match self.root.take() {
            Some(mut n) => {
                set_state_at(&mut *n, id, WindowState::Floating { rect: moved });
                self.root = Some(n);
            },
            None => {},
        }
        true
    }

    /// Resize a floating window (see [`LayoutTree::after_resize_floating`]).
    pub fn resize_floating_window(
        &mut self,
        id: u32,
        direction: FocusDirection,
        delta: i32,
        is_expand: bool,
    ) -> (r: bool)
        requires
            old(self).wf(),
            old(self).state_of(id) matches Some(s) && s is Floating ==> old(self).output_rect.width >= 0
                && old(self).output_rect.height >= 0,
        ensures
            final(self).wf(),
            (*final(self), r) == old(self).after_resize_floating(id, direction, delta, is_expand),
    {
        let rect = match self.find_window_node(id) {
            Some(n) => match &n.state {
                WindowState::Floating { rect } => *rect,
                _ => return false,
            },
            None => {
                proof {
                    if self.root is Some {
                        lemma_find(*self.root->0, id);
                    }
                }
                return false;
            },
        };
        proof {
            lemma_find(*self.root->0, id);
        }
        let step_x = resize_step(self.output_rect.width, delta);
        let step_y = resize_step(self.output_rect.height, delta);
        let (x, y, w, h) = (rect.x as i64, rect.y as i64, rect.width as i64, rect.height as i64);
        let resized = match direction {
            FocusDirection::Left => if is_expand {
                Rect { x: sat_i32(x - step_x), width: sat_i32(w + step_x), ..rect }
            } else {
                let nw = w - step_x;
                Rect { x: sat_i32(x + step_x), width: sat_i32(if nw >= 1 { nw } else { 1 }), ..rect }
            },
            FocusDirection::Right => if is_expand {
                Rect { width: sat_i32(w + step_x), ..rect }
            } else {
                let nw = w - step_x;
                Rect { width: sat_i32(if nw >= 1 { nw } else { 1 }), ..rect }
            },
            FocusDirection::Up => if is_expand {
                Rect { y: sat_i32(y - step_y), height: sat_i32(h + step_y), ..rect }
            } else {
                let nh = h - step_y;
                Rect { y: sat_i32(y + step_y), height: sat_i32(if nh >= 1 { nh } else { 1 }), ..rect }
            },
            FocusDirection::Down => if is_expand {
                Rect { height: sat_i32(h + step_y), ..rect }
            } else {
                let nh = h - step_y;
                Rect { height: sat_i32(if nh >= 1 { nh } else { 1 }), ..rect }
            },
        };
        proof {
            lemma_set_floating_rect(*self, id, resized);
        }
        match self.root.take() {
            Some(mut n) => {
                set_state_at(&mut *n, id, WindowState::Floating { rect: resized });
                self.root = Some(n);
            },
            None => {},
        }
        true
    }

    /// Move the ratio of the split directly above the focused window (see
    /// [`LayoutTree::after_resize_ratio`]).
    pub fn resize_ratio(&mut self, direction: FocusDirection, delta: i32) -> (r: bool)
        requires
            old(self).wf(),
        ensures
            final(self).wf(),
            (*final(self), r) == old(self).after_resize_ratio(direction, delta),
    {
        proof {
            lemma_arranged_keeps(*self);
        }
        self.apply_layout();
        let focused = match self.focused {
            Some(f) => f,
            None => return false,
        };
        let (split, _is_first) = match &self.root {
            Some(n) => match find_parent_split(&**n, focused) {
                Some(p) => p,
                None => return false,
            },
            None => return false,
        };
        let d: i64 = match (split.direction, direction) {
            (SplitDirection::Vertical, FocusDirection::Right) => delta as i64,
            (SplitDirection::Vertical, FocusDirection::Left) => -(delta as i64),
            (SplitDirection::Horizontal, FocusDirection::Down) => delta as i64,
            (SplitDirection::Horizontal, FocusDirection::Up) => -(delta as i64),
            _ => return false,
        };
        let sum = split.ratio as i64 + d;
        let new_ratio: u32 = if sum < MIN_RATIO as i64 {
            MIN_RATIO
        } else if sum > MAX_RATIO as i64 {
            MAX_RATIO
        } else {
            sum as u32
        };
        if new_ratio == split.ratio {
            return false;
        }
        match self.root.take() {
            Some(mut n) => {
                proof {
                    lemma_set_parent_ratio_keeps(*n, focused, new_ratio);
                    assert(spec_set_parent_ratio(*n, focused, new_ratio) == spec_set_parent_ratio(
                        *n,
                        focused,
                        new_ratio,
                    ));
                }
                set_parent_ratio(&mut *n, focused, new_ratio);
                self.root = Some(n);
            },
            None => {},
        }
        proof {
            lemma_arranged_keeps(*self);
        }
        self.apply_layout();
        true
    }

    /// The window to resize from when the focused window's own split cannot
    /// move toward `direction` (see [`LayoutTree::resize_target`]).
    pub fn focus_to_resize_target(&self, direction: FocusDirection) -> (r: Option<u32>)
        ensures
            r == self.resize_target(direction),
    {
        let focused = match self.focused {
            Some(f) => f,
            None => return None,
        };
        let root = match &self.root {
            Some(n) => n,
            None => return None,
        };
        let sibling = match find_ancestor_sibling(&**root, focused, direction) {
            Some(s) => s,
            None => return None,
        };
        let sibling_id = match sibling.window {
            Some(w) => w,
            None => match find_tiled_window(sibling) {
                Some(w) => w,
                None => return None,
            },
        };
        match self.find_window_node(sibling_id) {
            Some(n) => if n.state.participates_in_tiling() {
                Some(sibling_id)
            } else {
                None
            },
            None => None,
        }
    }
}

/// The resize step along an output side (see [`spec_resize_step`]).
fn resize_step(side: i32, delta: i32) -> (r: i64)
    requires
        side >= 0,
    ensures
        r == spec_resize_step(side as int, delta as int),
        1 <= r <= spec_max(side as int / 2, 1),
{
    let s64 = side as i64;
    let d64 = delta as i64;
    assert(-0x4000_0000_0000_0000 <= s64 * d64 <= 0x4000_0000_0000_0000) by (nonlinear_arith)
        requires
            0 <= s64 <= 0x7fff_ffff,
            -0x8000_0000 <= d64 <= 0x7fff_ffff,
    ;
    let prod = s64 * d64;
    let raw: i64 = if prod >= 0 {
        (prod + 5000) / 10000
    } else {
        -((-prod + 5000) / 10000)
    };
    let half = side as i64 / 2;
    let c = if raw < 0 {
        0
    } else if raw > half {
        half
    } else {
        raw
    };
    if c >= 1 {
        c
    } else {
        1
    }
}

} // verus!
