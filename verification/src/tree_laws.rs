//! Properties of the layout tree that span its operations.
use crate::geometry::{
    FocusDirection, Rect, SplitDirection, WindowState, spec_capped_rect, spec_clamp, spec_max,
    spec_participates_in_tiling,
};
use crate::layout::{
    HALF_RATIO, MAX_RATIO, MIN_RATIO, lemma_all_tiling_from_states, lemma_apply_rects_idempotent,
    lemma_fill_keeps, lemma_fill_state, lemma_find, lemma_fix_flags_keeps, lemma_fix_set_state,
    lemma_remove_keeps, lemma_replace_keeps, lemma_replace_state, lemma_set_state_same,
    lemma_set_state_twice, lemma_split_node_wf, lemma_swap_keeps, lemma_windows_has,
    spec_fill_placeholder, spec_find, spec_fix_flags, spec_flags_ok, spec_has, spec_has_placeholder,
    spec_leaf, spec_remove, spec_replace, spec_set_state, spec_split_node, spec_split_rect,
    spec_swap, spec_swap_id, spec_windows, LayoutSplit,
};
use crate::tree::{
    LayoutTree, lemma_after_set_state, lemma_arranged_keeps, lemma_best_target_is_window,
    lemma_tree_windows, spec_beats, spec_focus_index, spec_is_best, spec_is_candidate, spec_margin_rect,
    spec_split_direction_for,
    spec_toggled, spec_toggled_fullscreen,
};
use vstd::prelude::*;

verus! {

impl LayoutTree {
    /// Whether the tree holds a placeholder.
    pub open spec fn has_placeholder(self) -> bool {
        self.root matches Some(r) && spec_has_placeholder(*r)
    }

    /// Whether every cached tiling flag is up to date.
    pub open spec fn flags_up_to_date(self) -> bool {
        match self.root {
            Some(r) => spec_flags_ok(*r),
            None => true,
        }
    }

    /// Whether every window of the tree is tiled or pseudo-tiled.
    pub open spec fn all_windows_tile(self) -> bool {
        forall|y: u32| #[trigger]
            self.has_window(y) ==> self.state_of(y).is_some() && spec_participates_in_tiling(
                self.state_of(y)->0,
            )
    }

    /// Whether `other` holds the same windows as this tree, in the same
    /// states, apart from `id`.
    pub open spec fn agrees_except(self, other: LayoutTree, id: u32) -> bool {
        forall|y: u32|
            y != id ==> #[trigger] self.has_window(y) == other.has_window(y) && self.state_of(y)
                == other.state_of(y)
    }

    /// Whether every window of this tree is a window of `other`, in the
    /// state it has there.
    pub open spec fn windows_from(self, other: LayoutTree) -> bool {
        forall|y: u32| #[trigger]
            self.has_window(y) ==> other.has_window(y) && self.state_of(y) == other.state_of(y)
    }

    /// The tree with every cached tiling flag recomputed.
    pub open spec fn with_fixed_flags(self) -> LayoutTree {
        LayoutTree {
            root: match self.root {
                Some(r) => Some(Box::new(spec_fix_flags(*r))),
                None => None,
            },
            ..self
        }
    }
}

/// Inserting a window succeeds exactly when the tree does not hold it yet
/// and either nothing is focused, a placeholder is free, or the focused
/// window is in the tree. On success the tree holds the new window, tiled
/// and focused, and every other window in the state it had; on failure the
/// tree holds the same windows.
pub proof fn law_insert_window(t: LayoutTree, id: u32)
    requires
        t.wf(),
    ensures
        ({
            let (u, r) = t.after_insert(id);
            &&& u.wf()
            &&& r == (!t.has_window(id) && (t.focused matches Some(f) ==> t.has_placeholder()
                || t.has_window(f)))
            &&& r ==> u.has_window(id) && u.focused == Some(id) && u.state_of(id) == Some(
                WindowState::Tiled,
            )
            &&& r ==> u.agrees_except(t, id)
            &&& !r ==> forall|y: u32| #[trigger] u.has_window(y) == t.has_window(y)
        }),
{
    lemma_arranged_keeps(t);
    lemma_tree_windows(t);
    let a = t.arranged();
    let (u, r) = t.after_insert(id);
    assert(a.has_placeholder() == t.has_placeholder()) by {
        if let Some(n) = t.root {
            crate::layout::lemma_apply_rects_keeps(*n, t.output_rect, t.gap());
        }
    }
    assert(a.has_window(id) == t.has_window(id));
    assert forall|y: u32| #[trigger] a.has_window(y) == t.has_window(y) && a.state_of(y) == t.state_of(y) by {}
    if !t.has_window(id) {
        match a.focused {
            None => {
                assert forall|y: u32| !t.has_window(y) by {
                    assert(!t.windows().contains(y));
                }
                assert(u.windows() =~= seq![id]);
                assert(u.root == Some(Box::new(spec_leaf(Some(id)))));
                assert(u.agrees_except(t, id)) by {
                assert forall|y: u32| y != id implies #[trigger] u.has_window(y) == t.has_window(y) && u.state_of(y) == t.state_of(y) by {
                    assert(!t.has_window(y));
                    if let Some(n) = t.root {
                        lemma_find(*n, y);
                    }
                    assert(spec_find(spec_leaf(Some(id)), y).is_none());
                }
                }
            },
            Some(f) => {
                assert(a.has_window(f) == t.has_window(f));
                if let Some(n) = a.root {
                    assert(a.has_window(f) == spec_has(*n, f));
                    assert(!spec_has(*n, id));
                    if spec_has_placeholder(*n) {
                        lemma_fill_keeps(*n, id);
                        lemma_fill_state(*n, id);
                        let m = spec_fill_placeholder(*n, id);
                        lemma_fix_flags_keeps(m);
                        lemma_windows_has(spec_fix_flags(m), id);
                        assert(u.root == Some(Box::new(spec_fix_flags(m))));
                        assert(u.wf());
                        assert(u.state_of(id) == Some(WindowState::Tiled));
                        assert(u.agrees_except(t, id)) by {
                assert forall|y: u32| y != id implies #[trigger] u.has_window(y) == t.has_window(y) && u.state_of(y) == t.state_of(y) by {
                            assert(a.has_window(y) == t.has_window(y) && a.state_of(y) == t.state_of(y));
                            assert(a.has_window(y) == spec_has(*n, y));
                            assert(a.state_of(y) == crate::layout::spec_state_of(*n, y));
                            assert(spec_has(m, y) == spec_has(*n, y));
                        }
                        }
                    } else {
                        lemma_find(*n, f);
                        if let Some(x) = spec_find(*n, f) {
                            let split = LayoutSplit {
                                direction: spec_split_direction_for(Some(x.rect)),
                                ratio: HALF_RATIO,
                            };
                            lemma_split_node_wf(*n, f, split, Some(id));
                            let l = spec_leaf(Some(id));
                            let rep = spec_split_node(split, x, l);
                            lemma_replace_keeps(*n, f, rep);
                            lemma_replace_state(*n, f, rep, id);
                            lemma_replace_state(*n, f, rep, f);
                            assert(spec_has(rep, id));
                            assert(spec_has(rep, f));
                            assert(!spec_has(x, id));
                            assert(spec_find(l, id) == Some(l));
                            assert(crate::layout::spec_state_of(rep, id) == Some(WindowState::Tiled));
                            let m = spec_replace(*n, f, rep);
                            lemma_windows_has(m, id);
                            assert(u.root == Some(Box::new(m)));
                            assert(u.wf());
                            assert(u.agrees_except(t, id)) by {
                assert forall|y: u32| y != id implies #[trigger] u.has_window(y) == t.has_window(y) && u.state_of(y) == t.state_of(y) by {
                                assert(a.has_window(y) == t.has_window(y) && a.state_of(y) == t.state_of(y));
                                assert(a.has_window(y) == spec_has(*n, y));
                                assert(a.state_of(y) == crate::layout::spec_state_of(*n, y));
                                if y == f {
                                    assert(crate::layout::spec_state_of(m, f) == crate::layout::spec_state_of(rep, f));
                                } else {
                                    assert(!spec_has(rep, y));
                                }
                            }
                            }
                        } else {
                            assert(!r);
                            assert(u == a);
                            assert forall|y: u32| #[trigger] u.has_window(y) == t.has_window(y) by {
                                assert(a.has_window(y) == t.has_window(y) && a.state_of(y) == t.state_of(y));
                            }
                        }
                    }
                } else {
                    assert(!r);
                    assert(u == a);
                    assert forall|y: u32| #[trigger] u.has_window(y) == t.has_window(y) by {
                        assert(a.has_window(y) == t.has_window(y) && a.state_of(y) == t.state_of(y));
                    }
                }
            },
        }
    }
    assert(u.wf());
    assert(r == (!t.has_window(id) && (t.focused matches Some(f) ==> t.has_placeholder() || t.has_window(f))));
    assert(r ==> u.has_window(id) && u.focused == Some(id) && u.state_of(id) == Some(WindowState::Tiled));

}

/// Removing a window reports whether the tree held it; afterwards the tree
/// does not hold it, every remaining window was there before and keeps its
/// state, and focus, when it was on the removed window, moves to a window
/// of the tree (or nowhere when none is left).
pub proof fn law_remove_window(t: LayoutTree, id: u32)
    requires
        t.wf(),
    ensures
        ({
            let (u, r) = t.after_remove(id);
            &&& u.wf()
            &&& r == t.has_window(id)
            &&& !u.has_window(id)
            &&& u.windows_from(t)
            &&& (r && t.focused == Some(id) ==> match u.focused {
                Some(g) => u.has_window(g),
                None => u.windows().len() == 0,
            })
            &&& !r ==> u == t
        }),
{
    lemma_tree_windows(t);
    if let Some(n) = t.root {
        lemma_remove_keeps(*n, id);
        lemma_windows_has(*n, id);
        let (m, out) = spec_remove(*n, id);
        if t.focused is None {
            assert(!t.windows().contains(id));
        }
        match out {
            crate::layout::RemoveOutcome::Replaced(x) => {
                lemma_fix_flags_keeps(*x);
                if let Some(g) = crate::layout::spec_first_of(spec_windows(*x)) {
                    lemma_windows_has(*x, g);
                    assert(spec_windows(*x)[0] == g);
                }
                let u = t.after_remove(id).0;
                assert(u.root == Some(Box::new(spec_fix_flags(*x))));
                assert(u.windows() == spec_windows(*x));
                assert(u.windows_from(t)) by {
                    assert forall|y: u32| #[trigger] u.has_window(y) implies t.has_window(y) && u.state_of(y) == t.state_of(y) by {
                        assert(spec_has(*x, y));
                    }
                }
            },
            crate::layout::RemoveOutcome::Modified => {
                lemma_fix_flags_keeps(m);
                if let Some(g) = crate::layout::spec_first_of(spec_windows(m)) {
                    lemma_windows_has(m, g);
                    assert(spec_windows(m)[0] == g);
                }
                let u = t.after_remove(id).0;
                assert(u.root == Some(Box::new(spec_fix_flags(m))));
                assert(u.windows() == spec_windows(m));
                assert(u.windows_from(t)) by {
                    assert forall|y: u32| #[trigger] u.has_window(y) implies t.has_window(y) && u.state_of(y) == t.state_of(y) by {
                        assert(spec_has(m, y));
                    }
                }
            },
            _ => {},
        }
    }
}

/// Removing window `id` from `t` loses no other window.
pub open spec fn spec_removal_keeps_others(t: LayoutTree, id: u32) -> bool {
    forall|y: u32| y != id ==> #[trigger] t.after_remove(id).0.has_window(y) == t.has_window(y)
}

/// When every window tiles and the tiling flags are up to date, removing a
/// window loses no other window.
pub proof fn law_remove_window_keeps_others(t: LayoutTree, id: u32)
    requires
        t.wf(),
        t.flags_up_to_date(),
        t.all_windows_tile(),
    ensures
        spec_removal_keeps_others(t, id),
{
    if let Some(n) = t.root {
        assert forall|y: u32| #[trigger] spec_has(*n, y) implies crate::layout::spec_state_of(
            *n,
            y,
        ).is_some() && spec_participates_in_tiling(crate::layout::spec_state_of(*n, y)->0) by {
            assert(t.has_window(y));
        }
        lemma_all_tiling_from_states(*n);
        lemma_remove_keeps(*n, id);
        let (m, out) = spec_remove(*n, id);
        match out {
            crate::layout::RemoveOutcome::Replaced(x) => {
                lemma_fix_flags_keeps(*x);
            },
            crate::layout::RemoveOutcome::Modified => {
                lemma_fix_flags_keeps(m);
            },
            _ => {},
        }
    }
}

/// A fullscreen state whose state to return to is fullscreen too.
pub open spec fn spec_nested_fullscreen(s: WindowState) -> bool {
    s matches WindowState::Fullscreen { restore } && *restore is Fullscreen
}

/// Toggling fullscreen twice is an involution: the first toggle makes a
/// window that is not fullscreen fullscreen over its state (and gives a
/// fullscreen window back its state), both toggles succeed, and the second
/// gives the window back the very state it had; the tree comes back as it
/// started, with its tiling flags recomputed (the very same tree when they
/// were up to date). A window fullscreen over a fullscreen state is left
/// out.
pub proof fn law_toggle_fullscreen_twice(t: LayoutTree, id: u32)
    requires
        t.wf(),
        t.has_window(id),
        !spec_nested_fullscreen(t.state_of(id)->0),
    ensures
        ({
            let (u, r1) = t.after_toggle_fullscreen(id);
            let (v, r2) = u.after_toggle_fullscreen(id);
            let s = t.state_of(id)->0;
            &&& r1 && r2
            &&& u.state_of(id) == Some(spec_toggled_fullscreen(s))
            &&& !(s is Fullscreen) ==> u.state_of(id) == Some(WindowState::Fullscreen { restore: Box::new(s) })
            &&& v.state_of(id) == t.state_of(id)
            &&& v.agrees_except(t, id)
            &&& v == t.with_fixed_flags()
            &&& t.flags_up_to_date() ==> v == t
        }),
{
    let n = *t.root->0;
    lemma_find(n, id);
    let s = t.state_of(id)->0;
    let fs = spec_toggled_fullscreen(s);
    lemma_after_set_state(t, id, fs);
    let u = t.after_toggle_fullscreen(id).0;
    assert(u.state_of(id) == Some(fs));
    match s {
        WindowState::Fullscreen { restore } => {
            assert(fs == *restore);
            assert(spec_toggled_fullscreen(fs) == WindowState::Fullscreen { restore: Box::new(*restore) });
        },
        _ => {},
    }
    assert(spec_toggled_fullscreen(fs) == s);
    let m = spec_set_state(n, id, fs);
    lemma_fix_set_state(m, id, s);
    lemma_set_state_twice(n, id, fs, s);
    lemma_set_state_same(n, id);
    lemma_fix_flags_keeps(n);
    lemma_after_set_state(u, id, s);
    let v = u.after_toggle_fullscreen(id).0;
    assert(v.agrees_except(t, id)) by {
        assert forall|y: u32| y != id implies #[trigger] v.has_window(y) == t.has_window(y) && v.state_of(y)
            == t.state_of(y) by {}
    }
}

/// Toggling a tiled window toward floating and back, or toward pseudo-tiled
/// and back, gives back the tree it started from, with its tiling flags
/// recomputed.
pub proof fn law_toggle_twice_returns_to_tiled(t: LayoutTree, id: u32, first: WindowState, second: WindowState)
    requires
        t.wf(),
        t.state_of(id) == Some(WindowState::Tiled),
        (first is Floating && second is Floating) || (first is PseudoTiled && second is PseudoTiled),
    ensures
        ({
            let u = t.after_toggle(id, first).0;
            let v = u.after_toggle(id, second).0;
            &&& u.state_of(id) == Some(first)
            &&& v.state_of(id) == Some(WindowState::Tiled)
            &&& v == t.with_fixed_flags()
        }),
{
    let n = *t.root->0;
    lemma_find(n, id);
    assert(t.has_window(id));
    lemma_after_set_state(t, id, first);
    let u = t.after_toggle(id, first).0;
    assert(spec_toggled(first, second) == WindowState::Tiled);
    lemma_after_set_state(u, id, WindowState::Tiled);
    let m = spec_set_state(n, id, first);
    lemma_fix_set_state(m, id, WindowState::Tiled);
    lemma_set_state_twice(n, id, first, WindowState::Tiled);
    lemma_set_state_same(n, id);
}

/// Moving focus forward and then back (or back and then forward) returns it
/// to the window it started on, when that window is in the tree.
pub proof fn law_focus_step_round_trip(t: LayoutTree, forward: bool)
    requires
        t.wf(),
        t.focused matches Some(f) && t.has_window(f),
    ensures
        t.after_focus_step(forward).0.after_focus_step(!forward).0 == t,
{
    lemma_tree_windows(t);
    let ws = t.windows();
    let f = t.focused->0;
    assert(ws.contains(f));
    let n = ws.len() as int;
    let i = ws.index_of(f);
    assert(0 <= i < n && ws[i] == f);
    let j = if forward { (i + 1) % n } else { (i + n - 1) % n };
    assert(0 <= j < n) by (nonlinear_arith)
        requires
            0 <= i < n,
            j == (if forward { (i + 1) % n } else { (i + n - 1) % n }),
    ;
    let g = ws[j];
    let u = t.after_focus_step(forward).0;
    assert(u.focused == Some(g));
    assert(u.windows() == ws);
    assert(ws.contains(g));
    let k = ws.index_of(g);
    assert(ws[k] == g);
    assert(k == j);
    assert(spec_focus_index(ws, Some(g)) == j);
    let back = if !forward { (j + 1) % n } else { (j + n - 1) % n };
    assert(back == i) by (nonlinear_arith)
        requires
            0 <= i < n,
            j == (if forward { (i + 1) % n } else { (i + n - 1) % n }),
            back == (if !forward { (j + 1) % n } else { (j + n - 1) % n }),
    ;
}

/// Exchanging the focused window with its neighbour keeps focus on the same
/// window, keeps the set of windows and every window's state, and, when it
/// happens, exchanges the two windows' places in the depth-first order.
pub proof fn law_swap_windows(t: LayoutTree, direction: FocusDirection)
    requires
        t.wf(),
    ensures
        ({
            let (u, r) = t.after_swap(direction);
            &&& u.wf()
            &&& u.focused == t.focused
            &&& forall|y: u32| #[trigger] u.has_window(y) == t.has_window(y)
            &&& forall|y: u32| #[trigger] u.state_of(y) == t.state_of(y)
            &&& r ==> (t.focused matches Some(f) && t.arranged().best_target(f, direction) matches Some(
                g,
            ) && u.windows() == t.windows().map_values(|y: u32| spec_swap_id(y, f, g)))
        }),
{
    lemma_arranged_keeps(t);
    let a = t.arranged();
    if let Some(f) = a.focused {
        if a.windows().len() > 1 {
            if let Some(g) = a.best_target(f, direction) {
                lemma_best_target_is_window(a, f, direction);
                let n = *a.root->0;
                lemma_find(n, f);
                lemma_find(n, g);
                if let (Some(na), Some(nb)) = (a.node_of(f), a.node_of(g)) {
                    lemma_swap_keeps(n, f, g, na.state, na.has_tiling, nb.state, nb.has_tiling);
                    let m = spec_swap(n, f, g, na.state, na.has_tiling, nb.state, nb.has_tiling);
                    lemma_fix_flags_keeps(m);
                    lemma_windows_has(n, f);
                    lemma_windows_has(spec_fix_flags(m), f);
                    assert(spec_has(m, f));
                    assert forall|y: u32| #[trigger] spec_has(m, y) == spec_has(n, y) by {
                        assert(spec_has(m, y) == spec_has(n, spec_swap_id(y, f, g)));
                    }
                    assert(spec_has(n, f) && spec_has(n, g));
                    let u = t.after_swap(direction).0;
                    assert(u.root == Some(Box::new(spec_fix_flags(m))));
                    assert(a.windows() == t.windows());
                    assert(u.windows() == spec_windows(m));
                    assert forall|y: u32| #[trigger] u.has_window(y) == t.has_window(y) by {
                        assert(spec_has(m, y) == spec_has(n, y));
                        assert(a.has_window(y) == t.has_window(y));
                    }
                    assert forall|y: u32| #[trigger] u.state_of(y) == t.state_of(y) by {
                        assert(a.state_of(y) == t.state_of(y));
                        assert(crate::layout::spec_state_of(spec_fix_flags(m), y) == crate::layout::spec_state_of(m, y));
                        if y == f {
                        } else if y == g {
                        } else {
                        }
                    }
                }
            }
        }
    }
}

/// Laying the tree out twice is laying it out once.
pub proof fn law_arrange_idempotent(t: LayoutTree)
    ensures
        t.arranged().arranged() == t.arranged(),
{
    if let Some(r) = t.root {
        lemma_apply_rects_idempotent(*r, t.output_rect, t.gap());
    }
}

/// Splitting a rectangle whose far edges fit in `i32` by a gap no larger
/// than its sides: the first part starts at the rectangle's origin, the
/// second follows it after the gap, and the two parts and the gap exactly
/// cover the split side; the other side is shared whole.
pub proof fn law_split_rect_partitions(rect: Rect, direction: SplitDirection, ratio: u32, gap: i32)
    requires
        0 <= gap <= rect.width,
        gap <= rect.height,
        rect.x + rect.width <= i32::MAX,
        rect.y + rect.height <= i32::MAX,
    ensures
        ({
            let (first, second) = spec_split_rect(rect, direction, ratio, gap);
            let r = spec_clamp(ratio as int, MIN_RATIO as int, MAX_RATIO as int);
            &&& first.x == rect.x && first.y == rect.y
            &&& first.width >= 0 && first.height >= 0 && second.width >= 0 && second.height >= 0
            &&& match direction {
                SplitDirection::Vertical => {
                    &&& first.width == (rect.width - gap) * r / 10000
                    &&& first.width + gap + second.width == rect.width
                    &&& second.x == rect.x + first.width + gap && second.y == rect.y
                    &&& first.height == rect.height && second.height == rect.height
                },
                SplitDirection::Horizontal => {
                    &&& first.height == (rect.height - gap) * r / 10000
                    &&& first.height + gap + second.height == rect.height
                    &&& second.y == rect.y + first.height + gap && second.x == rect.x
                    &&& first.width == rect.width && second.width == rect.width
                },
            }
        }),
{
    let r = spec_clamp(ratio as int, MIN_RATIO as int, MAX_RATIO as int);
    match direction {
        SplitDirection::Vertical => {
            let available = rect.width - gap;
            assert(0 <= available * r / 10000 <= available) by (nonlinear_arith)
                requires
                    0 <= available,
                    1000 <= r <= 9000,
            ;
        },
        SplitDirection::Horizontal => {
            let available = rect.height - gap;
            assert(0 <= available * r / 10000 <= available) by (nonlinear_arith)
                requires
                    0 <= available,
                    1000 <= r <= 9000,
            ;
        },
    }
}

/// The tiling area never has a negative width or height.
pub proof fn law_margin_rect_nonnegative(raw: Rect, cfg: crate::config::LayoutConfig)
    ensures
        spec_margin_rect(raw, cfg).width >= 0,
        spec_margin_rect(raw, cfg).height >= 0,
{
}

/// A size centered in a slot at least one pixel wide and tall, whose far
/// edges fit in `i32`, lies inside the slot, with each side clamped to
/// `[1, slot side]`.
pub proof fn law_capped_rect_inside_slot(slot: Rect, size: Rect)
    requires
        slot.width >= 1,
        slot.height >= 1,
        slot.x + slot.width <= i32::MAX,
        slot.y + slot.height <= i32::MAX,
    ensures
        ({
            let r = spec_capped_rect(slot, size);
            &&& r.width == spec_clamp(size.width as int, 1, slot.width as int)
            &&& r.height == spec_clamp(size.height as int, 1, slot.height as int)
            &&& slot.x <= r.x && r.x + r.width <= slot.x + slot.width
            &&& slot.y <= r.y && r.y + r.height <= slot.y + slot.height
        }),
{
}


/// The space between the focused rect `f` and a rect `c` on its
/// `direction` side, from `f`'s edge facing `c` to `c`'s edge facing `f`.
pub open spec fn spec_facing_gap(f: Rect, c: Rect, direction: FocusDirection) -> int {
    match direction {
        FocusDirection::Up => f.y - (c.y + c.height),
        FocusDirection::Down => c.y - (f.y + f.height),
        FocusDirection::Left => f.x - (c.x + c.width),
        FocusDirection::Right => c.x - (f.x + f.width),
    }
}

/// Directional focus goes to the nearest window on that side: when it
/// moves, it focuses a window of the laid-out tree, other than the one
/// focused, whose shown rect lies on the `direction` side of the focused
/// window's slot at a facing-edge gap (see [`spec_facing_gap`]) that is not
/// negative and no larger than that of any other window on that side.
pub proof fn law_focus_direction_nearest(t: LayoutTree, direction: FocusDirection)
    requires
        t.wf(),
    ensures
        ({
            let a = t.arranged();
            let (u, moved) = t.after_focus_direction(direction);
            let ns = a.visible();
            moved ==> (a.focused matches Some(f) && (a.node_of(f) matches Some(x) && (u.focused matches Some(w)
                && exists|i: int|
                0 <= i < ns.len() && ns[i].0 == w && w != f && ns[i].1.spec_is_side_of(x.rect, direction)
                    && 0 <= spec_facing_gap(x.rect, ns[i].1, direction) && forall|j: int|
                    0 <= j < ns.len() && ns[j].0 != f && #[trigger] ns[j].1.spec_is_side_of(x.rect, direction)
                        ==> spec_facing_gap(x.rect, ns[i].1, direction) <= spec_facing_gap(
                        x.rect,
                        ns[j].1,
                        direction,
                    ))))
        }),
{
    let a = t.arranged();
    let (u, moved) = t.after_focus_direction(direction);
    let ns = a.visible();
    if moved {
        let f = a.focused->0;
        let x = a.node_of(f)->0;
        let fr = x.rect;
        let i = choose|i: int| spec_is_best(ns, i, f, fr, direction);
        assert(spec_is_best(ns, i, f, fr, direction));
        let w = ns[i].0;
        assert(u.focused == Some(w));
        assert(0 <= spec_facing_gap(fr, ns[i].1, direction)) by {
            assert(ns[i].1.spec_is_side_of(fr, direction));
        }
        assert forall|j: int|
            0 <= j < ns.len() && ns[j].0 != f && #[trigger] ns[j].1.spec_is_side_of(fr, direction) implies spec_facing_gap(
            fr,
            ns[i].1,
            direction,
        ) <= spec_facing_gap(fr, ns[j].1, direction) by {
            assert(spec_is_candidate(ns, j, f, fr, direction));
            assert(spec_beats(ns, i, j, fr, direction));
        }
    }
}

} // verus!
