//! Moving the windows of one output's layout into another's, keeping each
//! window's mode (floating, fullscreen, pseudo-tiled).
use crate::geometry::{Rect, WindowState, clone_state, sat_i32};
use crate::layout::spec_shifted;
use crate::tree::{LayoutTree, lemma_after_set_state, lemma_arranged_keeps};
use crate::tree_laws::law_insert_window;
use vstd::prelude::*;

verus! {

/// The mode a moved window returns to on the destination tree.
#[derive(Debug, Clone, Copy, PartialEq, Eq, Structural)]
pub enum ReassignPlan {
    Tiled,
    Floating(Rect),
    PseudoTiled(Rect),
    FullscreenTiled,
    FullscreenPseudo(Rect),
    FullscreenFloating(Rect),
}

/// The plan for a window in `state` on the source tree: floating rects move
/// with the output by `(dx, dy)`; pseudo-tiled windows take `pseudo_rect`
/// sized for the destination; fullscreen windows keep the mode they return
/// to; anything else is tiled.
pub open spec fn spec_reassign_plan(state: Option<WindowState>, pseudo_rect: Rect, dx: i32, dy: i32) -> ReassignPlan {
    match state {
        Some(WindowState::Floating { rect }) => ReassignPlan::Floating(spec_shifted(rect, dx, dy)),
        Some(WindowState::PseudoTiled { .. }) => ReassignPlan::PseudoTiled(pseudo_rect),
        Some(WindowState::Fullscreen { restore }) => match *restore {
            WindowState::PseudoTiled { .. } => ReassignPlan::FullscreenPseudo(pseudo_rect),
            WindowState::Floating { rect } => ReassignPlan::FullscreenFloating(spec_shifted(rect, dx, dy)),
            _ => ReassignPlan::FullscreenTiled,
        },
        _ => ReassignPlan::Tiled,
    }
}

/// Compute the plan for a window (see [`spec_reassign_plan`]).
pub fn reassign_plan(state: Option<&WindowState>, pseudo_rect: Rect, dx: i32, dy: i32) -> (r: ReassignPlan)
    ensures
        r == spec_reassign_plan(
            match state {
                Some(s) => Some(*s),
                None => None,
            },
            pseudo_rect,
            dx,
            dy,
        ),
{
    let shift = |rect: Rect| -> (r: Rect)
        ensures
            r == spec_shifted(rect, dx, dy),
        {
            Rect {
                x: sat_i32(rect.x as i64 + dx as i64),
                y: sat_i32(rect.y as i64 + dy as i64),
                width: rect.width,
                height: rect.height,
            }
        };
    match state {
        Some(WindowState::Floating { rect }) => ReassignPlan::Floating(shift(*rect)),
        Some(WindowState::PseudoTiled { .. }) => ReassignPlan::PseudoTiled(pseudo_rect),
        Some(WindowState::Fullscreen { restore }) => match &**restore {
            WindowState::PseudoTiled { .. } => ReassignPlan::FullscreenPseudo(pseudo_rect),
            WindowState::Floating { rect } => ReassignPlan::FullscreenFloating(shift(*rect)),
            _ => ReassignPlan::FullscreenTiled,
        },
        _ => ReassignPlan::Tiled,
    }
}

/// The tree after putting window `id` into the mode of `plan` by toggling.
pub open spec fn spec_apply_plan(t: LayoutTree, id: u32, plan: ReassignPlan) -> LayoutTree {
    match plan {
        ReassignPlan::Tiled => t,
        ReassignPlan::Floating(rect) => t.after_toggle(id, WindowState::Floating { rect }).0,
        ReassignPlan::PseudoTiled(rect) => t.after_toggle(id, WindowState::PseudoTiled { rect }).0,
        ReassignPlan::FullscreenTiled => t.after_toggle_fullscreen(id).0,
        ReassignPlan::FullscreenPseudo(rect) => t.after_toggle(
            id,
            WindowState::PseudoTiled { rect },
        ).0.after_toggle_fullscreen(id).0,
        ReassignPlan::FullscreenFloating(rect) => t.after_toggle(
            id,
            WindowState::Floating { rect },
        ).0.after_toggle_fullscreen(id).0,
    }
}

/// Toggling keeps the invariant and the windows of the tree.
proof fn lemma_toggle_keeps(t: LayoutTree, id: u32, target: WindowState)
    requires
        t.wf(),
    ensures
        t.after_toggle(id, target).0.wf(),
        t.after_toggle_fullscreen(id).0.wf(),
        forall|y: u32| #[trigger] t.after_toggle(id, target).0.has_window(y) == t.has_window(y),
        forall|y: u32| #[trigger] t.after_toggle_fullscreen(id).0.has_window(y) == t.has_window(y),
{
    if let Some(s) = t.state_of(id) {
        lemma_after_set_state(t, id, crate::tree::spec_toggled(s, target));
        lemma_after_set_state(t, id, crate::tree::spec_toggled_fullscreen(s));
    }
}

/// Applying a plan keeps the invariant and the windows of the tree.
pub proof fn lemma_apply_plan_keeps(t: LayoutTree, id: u32, plan: ReassignPlan)
    requires
        t.wf(),
    ensures
        spec_apply_plan(t, id, plan).wf(),
        forall|y: u32| #[trigger] spec_apply_plan(t, id, plan).has_window(y) == t.has_window(y),
{
    lemma_toggle_keeps(t, id, WindowState::Tiled);
    match plan {
        ReassignPlan::Floating(rect) => lemma_toggle_keeps(t, id, WindowState::Floating { rect }),
        ReassignPlan::PseudoTiled(rect) => lemma_toggle_keeps(t, id, WindowState::PseudoTiled { rect }),
        ReassignPlan::FullscreenPseudo(rect) => {
            lemma_toggle_keeps(t, id, WindowState::PseudoTiled { rect });
            lemma_toggle_keeps(t.after_toggle(id, WindowState::PseudoTiled { rect }).0, id, WindowState::Tiled);
        },
        ReassignPlan::FullscreenFloating(rect) => {
            lemma_toggle_keeps(t, id, WindowState::Floating { rect });
            lemma_toggle_keeps(t.after_toggle(id, WindowState::Floating { rect }).0, id, WindowState::Tiled);
        },
        _ => {},
    }
}

/// Put window `id` into the mode of `plan` (see [`spec_apply_plan`]).
pub fn apply_plan(tree: &mut LayoutTree, id: u32, plan: ReassignPlan)
    requires
        old(tree).wf(),
    ensures
        final(tree).wf(),
        *final(tree) == spec_apply_plan(*old(tree), id, plan),
{
    proof {
        lemma_apply_plan_keeps(*tree, id, plan);
        lemma_toggle_keeps(*tree, id, WindowState::Tiled);
    }
    match plan {
        ReassignPlan::Tiled => {},
        ReassignPlan::Floating(rect) => {
            tree.toggle_floating(id, rect);
        },
        ReassignPlan::PseudoTiled(rect) => {
            tree.toggle_pseudo_tiled(id, rect);
        },
        ReassignPlan::FullscreenTiled => {
            tree.toggle_fullscreen(id);
        },
        ReassignPlan::FullscreenPseudo(rect) => {
            tree.toggle_pseudo_tiled(id, rect);
            tree.toggle_fullscreen(id);
        },
        ReassignPlan::FullscreenFloating(rect) => {
            tree.toggle_floating(id, rect);
            tree.toggle_fullscreen(id);
        },
    }
}

/// The tree after inserting `ids` one after another.
pub open spec fn spec_insert_all(t: LayoutTree, ids: Seq<u32>) -> LayoutTree
    decreases ids.len(),
{
    if ids.len() == 0 {
        t
    } else {
        spec_insert_all(t, ids.drop_last()).after_insert(ids.last()).0
    }
}

/// The tree after applying, in order, the plan of every window that has one.
pub open spec fn spec_apply_plans(t: LayoutTree, ids: Seq<u32>, plans: Seq<Option<ReassignPlan>>) -> LayoutTree
    decreases ids.len(),
{
    if ids.len() == 0 || plans.len() != ids.len() {
        t
    } else {
        let t1 = spec_apply_plans(t, ids.drop_last(), plans.drop_last());
        match plans.last() {
            Some(p) => spec_apply_plan(t1, ids.last(), p),
            None => t1,
        }
    }
}

/// Whether the focused window, if any, is in the tree.
pub open spec fn spec_focus_valid(t: LayoutTree) -> bool {
    t.focused matches Some(f) ==> t.has_window(f)
}

/// Inserting windows one after another into a tree whose focused window
/// (if any) is in it keeps every window already there and adds every
/// inserted one, and nothing else.
pub proof fn law_insert_all_keeps_windows(t: LayoutTree, ids: Seq<u32>)
    requires
        t.wf(),
        spec_focus_valid(t),
    ensures
        spec_insert_all(t, ids).wf(),
        spec_focus_valid(spec_insert_all(t, ids)),
        forall|y: u32| #[trigger] spec_insert_all(t, ids).has_window(y) == (t.has_window(y) || ids.contains(y)),
    decreases ids.len(),
{
    if ids.len() > 0 {
        let rest = ids.drop_last();
        law_insert_all_keeps_windows(t, rest);
        let u = spec_insert_all(t, rest);
        let id = ids.last();
        law_insert_window(u, id);
        lemma_arranged_keeps(u);
        let (v, r) = u.after_insert(id);
        assert forall|y: u32| #[trigger] v.has_window(y) == (t.has_window(y) || ids.contains(y)) by {
            assert(ids.contains(y) == (rest.contains(y) || y == id)) by {
                if ids.contains(y) {
                    let k = choose|k: int| 0 <= k < ids.len() && ids[k] == y;
                    if k < ids.len() - 1 {
                        assert(rest[k] == y);
                    }
                }
                if rest.contains(y) {
                    let k = choose|k: int| 0 <= k < rest.len() && rest[k] == y;
                    assert(ids[k] == y);
                }
                if y == id {
                    assert(ids[ids.len() - 1] == y);
                }
            }
            if y != id {
                assert(v.has_window(y) == u.has_window(y));
            } else if !r {
                assert(u.has_window(id));
            }
        }
        if let Some(f) = v.focused {
            if !r {
                assert(u.arranged().has_window(f) == u.has_window(f));
            }
        }
    }
}

/// Rebuild a destination tree from moved windows: insert them all, put
/// each into the mode its plan says, and lay the tree out; returns the
/// window the destination had focused before.
pub fn rebuild_tree(tree: &mut LayoutTree, window_ids: &Vec<u32>, plans: &Vec<Option<ReassignPlan>>) -> (r: Option<u32>)
    requires
        old(tree).wf(),
        plans.len() == window_ids.len(),
    ensures
        final(tree).wf(),
        r == old(tree).focused,
        *final(tree) == spec_apply_plans(spec_insert_all(*old(tree), window_ids@), window_ids@, plans@).arranged(),
{
    let remembered = tree.focused_window();
    let ghost t0 = *tree;
    let mut i: usize = 0;
    while i < window_ids.len()
        invariant
            i <= window_ids.len(),
            *tree == spec_insert_all(t0, window_ids@.take(i as int)),
            tree.wf(),
        decreases window_ids.len() - i,
    {
        proof {
            assert(window_ids@.take(i + 1).drop_last() =~= window_ids@.take(i as int));
        }
        tree.insert_window(window_ids[i]);
        i = i + 1;
    }
    proof {
        assert(window_ids@.take(window_ids@.len() as int) =~= window_ids@);
    }
    let ghost t1 = *tree;
    let mut j: usize = 0;
    while j < window_ids.len()
        invariant
            j <= window_ids.len(),
            plans.len() == window_ids.len(),
            tree.wf(),
            *tree == spec_apply_plans(t1, window_ids@.take(j as int), plans@.take(j as int)),
        decreases window_ids.len() - j,
    {
        proof {
            assert(window_ids@.take(j + 1).drop_last() =~= window_ids@.take(j as int));
            assert(plans@.take(j + 1).drop_last() =~= plans@.take(j as int));
        }
        match plans[j] {
            Some(p) => apply_plan(tree, window_ids[j], p),
            None => {},
        }
        j = j + 1;
    }
    proof {
        assert(window_ids@.take(window_ids@.len() as int) =~= window_ids@);
        assert(plans@.take(plans@.len() as int) =~= plans@);
    }
    tree.arrange();
    remembered
}

/// A source tree taken over whole by a destination whose geometry is not
/// known yet: laid out in the destination's area, with its floating
/// windows moved with the output by `(dx, dy)`.
pub open spec fn spec_adopted(t: LayoutTree, dx: i32, dy: i32, to_rect: Rect) -> LayoutTree {
    let laid_out = LayoutTree {
        raw_output_rect: to_rect,
        output_rect: crate::tree::spec_margin_rect(to_rect, t.layout_config),
        ..t
    }.arranged();
    if dx != 0 || dy != 0 {
        LayoutTree {
            root: match laid_out.root {
                Some(n) => Some(Box::new(crate::layout::spec_shift_floating(*n, dx, dy))),
                None => None,
            },
            ..laid_out
        }
    } else {
        laid_out
    }
}

/// Take over a source tree whole (see [`spec_adopted`]) and return its
/// focused window.
pub fn adopt_tree(tree: &mut LayoutTree, dx: i32, dy: i32, to_rect: Rect) -> (r: Option<u32>)
    requires
        old(tree).wf(),
    ensures
        final(tree).wf(),
        r == old(tree).focused,
        *final(tree) == spec_adopted(*old(tree), dx, dy, to_rect),
{
    tree.set_output_rect(to_rect);
    if dx != 0 || dy != 0 {
        tree.translate_floating_rects(dx, dy);
    }
    tree.focused_window()
}

} // verus!
