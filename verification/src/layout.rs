//! Nodes of the binary space partitioning layout and the recursive
//! operations on them.
//!
//! A node is either a leaf, which holds at most one window (a leaf without a
//! window is a placeholder left by a manual split), or a split, which holds
//! no window and exactly two children. `has_tiling` caches whether a subtree
//! holds a window that takes part in tiling; the layout consults the cached
//! flag, and the operations that change a window's state recompute the flags
//! of every split.
//!
//! Split ratios are in permyriad (1/10000) and are clamped to
//! `[MIN_RATIO, MAX_RATIO]` when a rectangle is divided.
use crate::geometry::{
    FocusDirection, Rect, SplitDirection, WindowState, capped_rect, clone_state, sat_i32,
    spec_capped_rect, spec_max, spec_participates_in_tiling, spec_sat,
};
use vstd::prelude::*;

verus! {

/// Smallest split ratio, in permyriad.
pub const MIN_RATIO: u32 = 1000;

/// Largest split ratio, in permyriad.
pub const MAX_RATIO: u32 = 9000;

/// An even split, in permyriad.
pub const HALF_RATIO: u32 = 5000;

/// Direction and ratio of a split node.
#[derive(Debug, Clone, Copy, PartialEq, Eq, Structural)]
pub struct LayoutSplit {
    pub direction: SplitDirection,
    /// Share of the first child, in permyriad.
    pub ratio: u32,
}

/// A node of the layout tree.
#[derive(Debug)]
pub struct LayoutNode {
    /// The window held by a leaf; `None` for splits and placeholders.
    pub window: Option<u32>,
    /// Layout state of the window held by a leaf.
    pub state: WindowState,
    /// Rectangle assigned by the last arrangement.
    pub rect: Rect,
    /// Whether the subtree holds a window that takes part in tiling.
    pub has_tiling: bool,
    /// Direction and ratio, present exactly on splits.
    pub split: Option<LayoutSplit>,
    /// The two children, present exactly on splits.
    pub children: Option<(Box<LayoutNode>, Box<LayoutNode>)>,
}

/// The empty rectangle at the origin.
pub open spec fn spec_zero_rect() -> Rect {
    Rect { x: 0, y: 0, width: 0, height: 0 }
}

/// A fresh leaf holding `window` (a placeholder when `None`).
pub open spec fn spec_leaf(window: Option<u32>) -> LayoutNode {
    LayoutNode {
        window,
        state: WindowState::Tiled,
        rect: spec_zero_rect(),
        has_tiling: window.is_some(),
        split: None,
        children: None,
    }
}

/// A fresh split of `a` and `b`.
pub open spec fn spec_split_node(split: LayoutSplit, a: LayoutNode, b: LayoutNode) -> LayoutNode {
    LayoutNode {
        window: None,
        state: WindowState::Tiled,
        rect: spec_zero_rect(),
        has_tiling: a.has_tiling || b.has_tiling,
        split: Some(split),
        children: Some((Box::new(a), Box::new(b))),
    }
}

/// `n` with its two children replaced.
pub open spec fn spec_with_children(n: LayoutNode, a: LayoutNode, b: LayoutNode) -> LayoutNode {
    LayoutNode { children: Some((Box::new(a), Box::new(b))), ..n }
}

/// Whether the subtree holds `id`.
pub open spec fn spec_has(n: LayoutNode, id: u32) -> bool
    decreases n,
{
    n.window == Some(id) || match n.children {
        Some((a, b)) => spec_has(*a, id) || spec_has(*b, id),
        None => false,
    }
}

/// Window ids of the subtree in depth-first order.
pub open spec fn spec_windows(n: LayoutNode) -> Seq<u32>
    decreases n,
{
    let own: Seq<u32> = match n.window {
        Some(w) => seq![w],
        None => Seq::empty(),
    };
    match n.children {
        Some((a, b)) => own + spec_windows(*a) + spec_windows(*b),
        None => own,
    }
}

/// Structural invariant: splits have a ratio, two children and no window;
/// a leaf with a window caches whether the window tiles; a placeholder is
/// tiled and caches no tiling; no window occurs twice.
pub open spec fn spec_node_wf(n: LayoutNode) -> bool
    decreases n,
{
    &&& n.split.is_some() == n.children.is_some()
    &&& match n.children {
        Some((a, b)) => {
            &&& n.window.is_none()
            &&& spec_node_wf(*a)
            &&& spec_node_wf(*b)
            &&& forall|id: u32| !(#[trigger] spec_has(*a, id) && spec_has(*b, id))
        },
        None => match n.window {
            Some(_) => n.has_tiling == spec_participates_in_tiling(n.state),
            None => n.state == WindowState::Tiled && !n.has_tiling,
        },
    }
}

/// The first node (depth-first) holding `id`.
pub open spec fn spec_find(n: LayoutNode, id: u32) -> Option<LayoutNode>
    decreases n,
{
    if n.window == Some(id) {
        Some(n)
    } else {
        match n.children {
            Some((a, b)) => if spec_has(*a, id) {
                spec_find(*a, id)
            } else {
                spec_find(*b, id)
            },
            None => None,
        }
    }
}

/// The layout state of `id`, if the subtree holds it.
pub open spec fn spec_state_of(n: LayoutNode, id: u32) -> Option<WindowState> {
    match spec_find(n, id) {
        Some(x) => Some(x.state),
        None => None,
    }
}

/// `n` with the state of the node holding `id` replaced by `s`, and that
/// node's tiling flag set from `s`.
pub open spec fn spec_set_state(n: LayoutNode, id: u32, s: WindowState) -> LayoutNode
    decreases n,
{
    if n.window == Some(id) {
        LayoutNode { state: s, has_tiling: spec_participates_in_tiling(s), ..n }
    } else {
        match n.children {
            Some((a, b)) => if spec_has(*a, id) {
                spec_with_children(n, spec_set_state(*a, id, s), *b)
            } else {
                spec_with_children(n, *a, spec_set_state(*b, id, s))
            },
            None => n,
        }
    }
}

/// `n` with the tiling flag of every split recomputed from its children.
pub open spec fn spec_fix_flags(n: LayoutNode) -> LayoutNode
    decreases n,
{
    match n.children {
        Some((a, b)) => {
            let a2 = spec_fix_flags(*a);
            let b2 = spec_fix_flags(*b);
            LayoutNode { has_tiling: a2.has_tiling || b2.has_tiling, ..spec_with_children(n, a2, b2) }
        },
        None => n,
    }
}

/// Whether every cached tiling flag agrees with the subtree below it.
pub open spec fn spec_flags_ok(n: LayoutNode) -> bool
    decreases n,
{
    match n.children {
        Some((a, b)) => n.has_tiling == (a.has_tiling || b.has_tiling) && spec_flags_ok(*a)
            && spec_flags_ok(*b),
        None => true,
    }
}

/// A copy of a subtree.
pub fn clone_node(n: &LayoutNode) -> (r: LayoutNode)
    ensures
        r == *n,
    decreases n,
{
    let children = match &n.children {
        Some((a, b)) => {
            let a2 = clone_node(&**a);
            let b2 = clone_node(&**b);
            Some((Box::new(a2), Box::new(b2)))
        },
        None => None,
    };
    LayoutNode {
        window: n.window,
        state: clone_state(&n.state),
        rect: n.rect,
        has_tiling: n.has_tiling,
        split: n.split,
        children,
    }
}

impl Clone for LayoutNode {
    fn clone(&self) -> (r: Self)
        ensures
            r == *self,
    {
        clone_node(self)
    }
}

/// Whether `w` is `Some(id)`.
pub fn is_window(w: Option<u32>, id: u32) -> (r: bool)
    ensures
        r == (w == Some(id)),
{
    match w {
        Some(x) => x == id,
        None => false,
    }
}

/// Check whether a subtree holds a window with the given id.
pub fn contains_window(n: &LayoutNode, id: u32) -> (r: bool)
    ensures
        r == spec_has(*n, id),
    decreases n,
{
    if is_window(n.window, id) {
        return true;
    }
    match &n.children {
        Some((a, b)) => contains_window(&**a, id) || contains_window(&**b, id),
        None => false,
    }
}

/// The first node holding `id`, if any.
pub fn find_window_node(n: &LayoutNode, id: u32) -> (r: Option<&LayoutNode>)
    ensures
        match r {
            Some(x) => spec_find(*n, id) == Some(*x),
            None => spec_find(*n, id).is_none(),
        },
    decreases n,
{
    if is_window(n.window, id) {
        return Some(n);
    }
    match &n.children {
        Some((a, b)) => if contains_window(&**a, id) {
            find_window_node(&**a, id)
        } else {
            find_window_node(&**b, id)
        },
        None => None,
    }
}

/// Replace the state of the node holding `id` (see [`spec_set_state`]).
pub fn set_state_at(n: &mut LayoutNode, id: u32, s: WindowState)
    ensures
        *final(n) == spec_set_state(*old(n), id, s),
    decreases *old(n),
{
    if is_window(n.window, id) {
        let t = s.participates_in_tiling();
        n.state = s;
        n.has_tiling = t;
        return;
    }
    let children = n.children.take();
    match children {
        Some((mut a, mut b)) => {
            if contains_window(&*a, id) {
                set_state_at(&mut *a, id, s);
            } else {
                set_state_at(&mut *b, id, s);
            }
            n.children = Some((a, b));
        },
        None => {},
    }
}

/// Recompute the tiling flag of every split (see [`spec_fix_flags`]).
pub fn update_ancestor_tiling_flags(n: &mut LayoutNode)
    ensures
        *final(n) == spec_fix_flags(*old(n)),
    decreases *old(n),
{
    let children = n.children.take();
    match children {
        Some((mut a, mut b)) => {
            update_ancestor_tiling_flags(&mut *a);
            update_ancestor_tiling_flags(&mut *b);
            n.has_tiling = a.has_tiling || b.has_tiling;
            n.children = Some((a, b));
        },
        None => {},
    }
}


/// Divide `rect` between two children along `direction`: the first gets
/// `ratio` (clamped to `[MIN_RATIO, MAX_RATIO]`, rounded down) of the space
/// left after `gap`, the second the rest, offset by `gap`.
pub open spec fn spec_split_rect(rect: Rect, direction: SplitDirection, ratio: u32, gap: i32) -> (Rect, Rect) {
    let r = crate::geometry::spec_clamp(ratio as int, MIN_RATIO as int, MAX_RATIO as int);
    match direction {
        SplitDirection::Vertical => {
            let available = spec_max(rect.width - gap, 0);
            let first = available * r / 10000;
            (
                crate::geometry::spec_rect(rect.x as int, rect.y as int, first, rect.height as int),
                crate::geometry::spec_rect(rect.x + first + gap, rect.y as int, available - first, rect.height as int),
            )
        },
        SplitDirection::Horizontal => {
            let available = spec_max(rect.height - gap, 0);
            let first = available * r / 10000;
            (
                crate::geometry::spec_rect(rect.x as int, rect.y as int, rect.width as int, first),
                crate::geometry::spec_rect(rect.x as int, rect.y + first + gap, rect.width as int, available - first),
            )
        },
    }
}

/// The share of `available` (between 0 and 2^33) that a clamped ratio gives.
fn ratio_share(available: i64, ratio: u32) -> (r: i64)
    requires
        0 <= available <= 0x2_0000_0000,
    ensures
        r == available * crate::geometry::spec_clamp(ratio as int, MIN_RATIO as int, MAX_RATIO as int) / 10000,
        0 <= r <= available,
{
    let c: i64 = if ratio < MIN_RATIO {
        MIN_RATIO as i64
    } else if ratio > MAX_RATIO {
        MAX_RATIO as i64
    } else {
        ratio as i64
    };
    assert(0 <= available * c <= 0x2_0000_0000 * 9000) by (nonlinear_arith)
        requires
            0 <= available <= 0x2_0000_0000,
            1000 <= c <= 9000,
    ;
    assert(available * c / 10000 <= available) by (nonlinear_arith)
        requires
            0 <= available,
            1000 <= c <= 9000,
    ;
    available * c / 10000
}

/// Split a rectangle into two parts (see [`spec_split_rect`]).
pub fn split_rect(rect: Rect, direction: SplitDirection, ratio: u32, gap: i32) -> (r: (Rect, Rect))
    ensures
        r == spec_split_rect(rect, direction, ratio, gap),
{
    match direction {
        SplitDirection::Vertical => {
            let diff = rect.width as i64 - gap as i64;
            let available: i64 = if diff > 0 { diff } else { 0 };
            let first = ratio_share(available, ratio);
            (
                Rect { x: rect.x, y: rect.y, width: sat_i32(first), height: rect.height },
                Rect {
                    x: sat_i32(rect.x as i64 + first + gap as i64),
                    y: rect.y,
                    width: sat_i32(available - first),
                    height: rect.height,
                },
            )
        },
        SplitDirection::Horizontal => {
            let diff = rect.height as i64 - gap as i64;
            let available: i64 = if diff > 0 { diff } else { 0 };
            let first = ratio_share(available, ratio);
            (
                Rect { x: rect.x, y: rect.y, width: rect.width, height: sat_i32(first) },
                Rect {
                    x: rect.x,
                    y: sat_i32(rect.y as i64 + first + gap as i64),
                    width: rect.width,
                    height: sat_i32(available - first),
                },
            )
        },
    }
}

/// The rectangle a window is shown in: the whole output when fullscreen,
/// its own rect when floating, its size centered in its slot when
/// pseudo-tiled, the slot itself when tiled.
pub open spec fn spec_rect_for_state(state: WindowState, rect: Rect, output_rect: Rect) -> Rect {
    match state {
        WindowState::Fullscreen { .. } => output_rect,
        WindowState::Floating { rect: float_rect } => float_rect,
        WindowState::PseudoTiled { rect: pseudo_rect } => spec_capped_rect(rect, pseudo_rect),
        WindowState::Tiled => rect,
    }
}

/// Convert a window state to its rendering rectangle.
pub fn rect_for_state(state: &WindowState, rect: Rect, output_rect: Rect) -> (r: Rect)
    ensures
        r == spec_rect_for_state(*state, rect, output_rect),
{
    match state {
        WindowState::Fullscreen { .. } => output_rect,
        WindowState::Floating { rect: float_rect } => *float_rect,
        WindowState::PseudoTiled { rect: pseudo_rect } => capped_rect(rect, *pseudo_rect),
        WindowState::Tiled => rect,
    }
}

/// The slots of a split's two children: divided when both tile, the whole
/// rect to the one that tiles, empty rects otherwise.
pub open spec fn spec_child_rects(
    first_tiles: bool,
    second_tiles: bool,
    rect: Rect,
    split: LayoutSplit,
    gap: i32,
) -> (Rect, Rect) {
    if first_tiles && second_tiles {
        spec_split_rect(rect, split.direction, split.ratio, gap)
    } else if first_tiles {
        (rect, spec_zero_rect())
    } else if second_tiles {
        (spec_zero_rect(), rect)
    } else {
        (spec_zero_rect(), spec_zero_rect())
    }
}

/// A leaf placed in `rect`: a floating window keeps its own rect.
pub open spec fn spec_place_leaf(n: LayoutNode, rect: Rect) -> LayoutNode {
    LayoutNode {
        rect: match n.state {
            WindowState::Floating { rect: float_rect } => float_rect,
            _ => rect,
        },
        ..n
    }
}

/// Assign rectangles to every node of the subtree laid out in `rect`.
pub open spec fn spec_apply_rects(n: LayoutNode, rect: Rect, gap: i32) -> LayoutNode
    decreases n,
{
    match n.children {
        Some((a, b)) => match n.split {
            Some(s) => {
                let (ra, rb) = spec_child_rects(a.has_tiling, b.has_tiling, rect, s, gap);
                LayoutNode {
                    rect,
                    ..spec_with_children(n, spec_apply_rects(*a, ra, gap), spec_apply_rects(*b, rb, gap))
                }
            },
            None => spec_place_leaf(n, rect),
        },
        None => spec_place_leaf(n, rect),
    }
}

/// Apply layout rectangles to all nodes (see [`spec_apply_rects`]).
pub fn apply_rects(n: &mut LayoutNode, rect: Rect, gap: i32)
    ensures
        *final(n) == spec_apply_rects(*old(n), rect, gap),
    decreases *old(n),
{
    let children = n.children.take();
    match (n.split, children) {
        (Some(s), Some((mut a, mut b))) => {
            n.rect = rect;
            let zero = Rect { x: 0, y: 0, width: 0, height: 0 };
            let (ra, rb) = if a.has_tiling && b.has_tiling {
                split_rect(rect, s.direction, s.ratio, gap)
            } else if a.has_tiling {
                (rect, zero)
            } else if b.has_tiling {
                (zero, rect)
            } else {
                (zero, zero)
            };
            apply_rects(&mut *a, ra, gap);
            apply_rects(&mut *b, rb, gap);
            n.children = Some((a, b));
        },
        (_, ch) => {
            n.children = ch;
            let r = match &n.state {
                WindowState::Floating { rect: float_rect } => *float_rect,
                _ => rect,
            };
            n.rect = r;
        },
    }
}

/// One entry per window, depth-first: its id, the rectangle it is shown in,
/// and its state.
pub open spec fn spec_entries(n: LayoutNode, output_rect: Rect) -> Seq<(u32, Rect, WindowState)>
    decreases n,
{
    let own: Seq<(u32, Rect, WindowState)> = match n.window {
        Some(w) => seq![(w, spec_rect_for_state(n.state, n.rect, output_rect), n.state)],
        None => Seq::empty(),
    };
    match n.children {
        Some((a, b)) => own + spec_entries(*a, output_rect) + spec_entries(*b, output_rect),
        None => own,
    }
}

/// Ids and shown rectangles of the windows, depth-first.
pub open spec fn spec_visible_nodes(n: LayoutNode, output_rect: Rect) -> Seq<(u32, Rect)>
    decreases n,
{
    let own: Seq<(u32, Rect)> = match n.window {
        Some(w) => seq![(w, spec_rect_for_state(n.state, n.rect, output_rect))],
        None => Seq::empty(),
    };
    match n.children {
        Some((a, b)) => own + spec_visible_nodes(*a, output_rect) + spec_visible_nodes(*b, output_rect),
        None => own,
    }
}

/// Append the entries of a subtree (see [`spec_entries`]).
pub fn collect_windows_with_state(n: &LayoutNode, output_rect: Rect, out: &mut Vec<(u32, Rect, WindowState)>)
    ensures
        final(out)@ == old(out)@ + spec_entries(*n, output_rect),
    decreases n,
{
    match n.window {
        Some(w) => {
            let r = rect_for_state(&n.state, n.rect, output_rect);
            out.push((w, r, clone_state(&n.state)));
        },
        None => {},
    }
    let ghost mid = out@;
    match &n.children {
        Some((a, b)) => {
            collect_windows_with_state(&**a, output_rect, out);
            collect_windows_with_state(&**b, output_rect, out);
        },
        None => {},
    }
    assert(out@ =~= old(out)@ + spec_entries(*n, output_rect));
}

/// Append ids and shown rectangles of a subtree (see [`spec_visible_nodes`]).
pub fn collect_rects(n: &LayoutNode, output_rect: Rect, out: &mut Vec<(u32, Rect)>)
    ensures
        final(out)@ == old(out)@ + spec_visible_nodes(*n, output_rect),
    decreases n,
{
    match n.window {
        Some(w) => {
            let r = rect_for_state(&n.state, n.rect, output_rect);
            out.push((w, r));
        },
        None => {},
    }
    match &n.children {
        Some((a, b)) => {
            collect_rects(&**a, output_rect, out);
            collect_rects(&**b, output_rect, out);
        },
        None => {},
    }
    assert(out@ =~= old(out)@ + spec_visible_nodes(*n, output_rect));
}

/// Append the window ids of a subtree in depth-first order.
pub fn collect_windows(n: &LayoutNode, out: &mut Vec<u32>)
    ensures
        final(out)@ == old(out)@ + spec_windows(*n),
    decreases n,
{
    match n.window {
        Some(w) => out.push(w),
        None => {},
    }
    match &n.children {
        Some((a, b)) => {
            collect_windows(&**a, out);
            collect_windows(&**b, out);
        },
        None => {},
    }
    assert(out@ =~= old(out)@ + spec_windows(*n));
}

/// The first window of a sequence, if any.
pub open spec fn spec_first_of(s: Seq<u32>) -> Option<u32> {
    if s.len() > 0 {
        Some(s[0])
    } else {
        None
    }
}

/// The first window of a subtree in depth-first order.
pub fn first_window_of(n: &LayoutNode) -> (r: Option<u32>)
    ensures
        r == spec_first_of(spec_windows(*n)),
    decreases n,
{
    if let Some(w) = n.window {
        return Some(w);
    }
    match &n.children {
        Some((a, b)) => {
            let fa = first_window_of(&**a);
            if fa.is_some() {
                assert(spec_windows(*n) == spec_windows(**a) + spec_windows(**b));
                fa
            } else {
                first_window_of(&**b)
            }
        },
        None => None,
    }
}


/// A fresh leaf holding `window`.
pub fn leaf(window: Option<u32>) -> (r: LayoutNode)
    ensures
        r == spec_leaf(window),
{
    LayoutNode {
        window,
        state: WindowState::Tiled,
        rect: Rect { x: 0, y: 0, width: 0, height: 0 },
        has_tiling: window.is_some(),
        split: None,
        children: None,
    }
}

/// Whether the subtree holds a placeholder leaf.
pub open spec fn spec_has_placeholder(n: LayoutNode) -> bool
    decreases n,
{
    (n.window.is_none() && n.children.is_none()) || match n.children {
        Some((a, b)) => spec_has_placeholder(*a) || spec_has_placeholder(*b),
        None => false,
    }
}

/// `n` with its first placeholder (depth-first) given the window `id`.
pub open spec fn spec_fill_placeholder(n: LayoutNode, id: u32) -> LayoutNode
    decreases n,
{
    if n.window.is_none() && n.children.is_none() {
        LayoutNode { window: Some(id), has_tiling: true, ..n }
    } else {
        match n.children {
            Some((a, b)) => if spec_has_placeholder(*a) {
                spec_with_children(n, spec_fill_placeholder(*a, id), *b)
            } else {
                spec_with_children(n, *a, spec_fill_placeholder(*b, id))
            },
            None => n,
        }
    }
}

/// Without a placeholder there is nothing to fill.
pub proof fn lemma_fill_without_placeholder(n: LayoutNode, id: u32)
    ensures
        !spec_has_placeholder(n) ==> spec_fill_placeholder(n, id) == n,
    decreases n,
{
    if let Some((a, b)) = n.children {
        lemma_fill_without_placeholder(*a, id);
        lemma_fill_without_placeholder(*b, id);
    }
}

/// Put `id` into the first placeholder, if there is one; returns whether
/// there was (see [`spec_fill_placeholder`]).
pub fn fill_placeholder(n: &mut LayoutNode, id: u32) -> (r: bool)
    ensures
        r == spec_has_placeholder(*old(n)),
        *final(n) == spec_fill_placeholder(*old(n), id),
    decreases *old(n),
{
    if n.window.is_none() && n.children.is_none() {
        n.window = Some(id);
        n.has_tiling = true;
        return true;
    }
    let children = n.children.take();
    match children {
        Some((mut a, mut b)) => {
            let ghost a0 = *a;
            let r = if fill_placeholder(&mut *a, id) {
                true
            } else {
                proof {
                    lemma_fill_without_placeholder(a0, id);
                }
                fill_placeholder(&mut *b, id)
            };
            n.children = Some((a, b));
            r
        },
        None => false,
    }
}

/// `n` with the first node holding `id` replaced by `r`.
pub open spec fn spec_replace(n: LayoutNode, id: u32, r: LayoutNode) -> LayoutNode
    decreases n,
{
    if n.window == Some(id) {
        r
    } else {
        match n.children {
            Some((a, b)) => if spec_has(*a, id) {
                spec_with_children(n, spec_replace(*a, id, r), *b)
            } else {
                spec_with_children(n, *a, spec_replace(*b, id, r))
            },
            None => n,
        }
    }
}

/// Replace the node holding `id` by a split of that node and a fresh leaf
/// holding `new_window`.
pub fn split_window_node(n: &mut LayoutNode, id: u32, split: LayoutSplit, new_window: Option<u32>)
    ensures
        *final(n) == (match spec_find(*old(n), id) {
            Some(x) => spec_replace(*old(n), id, spec_split_node(split, x, spec_leaf(new_window))),
            None => *old(n),
        }),
    decreases *old(n),
{
    if is_window(n.window, id) {
        let mut taken = leaf(None);
        core::mem::swap(n, &mut taken);
        let fresh = leaf(new_window);
        let has_tiling = taken.has_tiling || fresh.has_tiling;
        *n = LayoutNode {
            window: None,
            state: WindowState::Tiled,
            rect: Rect { x: 0, y: 0, width: 0, height: 0 },
            has_tiling,
            split: Some(split),
            children: Some((Box::new(taken), Box::new(fresh))),
        };
        return;
    }
    let children = n.children.take();
    match children {
        Some((mut a, mut b)) => {
            if contains_window(&*a, id) {
                split_window_node(&mut *a, id, split, new_window);
            } else {
                split_window_node(&mut *b, id, split, new_window);
            }
            n.children = Some((a, b));
        },
        None => {},
    }
}

/// What removing a window did to a subtree.
#[derive(Debug)]
pub enum RemoveOutcome {
    /// The subtree was the leaf holding the window, now emptied.
    LeafRemoved,
    /// The subtree is to be replaced by the given node.
    Replaced(Box<LayoutNode>),
    /// The window was removed deeper down; no collapse is needed here.
    Modified,
    /// The subtree does not hold the window.
    NotFound,
}

/// Combine the outcome of a removal in `child` with its `sibling`: an
/// emptied leaf collapses the split to the sibling; a replaced child is put
/// in place, and when neither side then tiles the split collapses to the
/// sibling as well.
pub open spec fn spec_apply_outcome(child: LayoutNode, sibling: LayoutNode, outcome: RemoveOutcome) -> (
    LayoutNode,
    LayoutNode,
    RemoveOutcome,
) {
    match outcome {
        RemoveOutcome::Replaced(nc) => if nc.has_tiling || sibling.has_tiling {
            (*nc, sibling, RemoveOutcome::Modified)
        } else {
            (*nc, spec_leaf(None), RemoveOutcome::Replaced(Box::new(sibling)))
        },
        RemoveOutcome::LeafRemoved => (child, spec_leaf(None), RemoveOutcome::Replaced(Box::new(sibling))),
        RemoveOutcome::Modified => (child, sibling, RemoveOutcome::Modified),
        RemoveOutcome::NotFound => (child, sibling, RemoveOutcome::NotFound),
    }
}

/// Remove `id` from the subtree: the subtree after the removal and the
/// outcome for its parent.
pub open spec fn spec_remove(n: LayoutNode, id: u32) -> (LayoutNode, RemoveOutcome)
    decreases n,
{
    match n.children {
        Some((a, b)) => {
            let (a2, oa) = spec_remove(*a, id);
            if oa is NotFound {
                let (b2, ob) = spec_remove(*b, id);
                if ob is NotFound {
                    (n, RemoveOutcome::NotFound)
                } else {
                    let (b3, a3, out) = spec_apply_outcome(b2, *a, ob);
                    (spec_with_children(n, a3, b3), out)
                }
            } else {
                let (a3, b3, out) = spec_apply_outcome(a2, *b, oa);
                (spec_with_children(n, a3, b3), out)
            }
        },
        None => if n.window == Some(id) {
            (LayoutNode { window: None, has_tiling: false, ..n }, RemoveOutcome::LeafRemoved)
        } else {
            (n, RemoveOutcome::NotFound)
        },
    }
}

/// A subtree in which the window is not found is left as it was.
pub proof fn lemma_remove_not_found(n: LayoutNode, id: u32)
    ensures
        spec_remove(n, id).1 is NotFound ==> spec_remove(n, id).0 == n,
    decreases n,
{
    if let Some((a, b)) = n.children {
        lemma_remove_not_found(*a, id);
        lemma_remove_not_found(*b, id);
    }
}

/// Apply the outcome of a removal in `child` (see [`spec_apply_outcome`]).
fn apply_child_outcome(child: Box<LayoutNode>, sibling: Box<LayoutNode>, outcome: RemoveOutcome) -> (r: (
    Box<LayoutNode>,
    Box<LayoutNode>,
    RemoveOutcome,
))
    ensures
        (*r.0, *r.1, r.2) == spec_apply_outcome(*child, *sibling, outcome),
{
    match outcome {
        RemoveOutcome::Replaced(nc) => if nc.has_tiling || sibling.has_tiling {
            (nc, sibling, RemoveOutcome::Modified)
        } else {
            (nc, Box::new(leaf(None)), RemoveOutcome::Replaced(sibling))
        },
        RemoveOutcome::LeafRemoved => (child, Box::new(leaf(None)), RemoveOutcome::Replaced(sibling)),
        RemoveOutcome::Modified => (child, sibling, RemoveOutcome::Modified),
        RemoveOutcome::NotFound => (child, sibling, RemoveOutcome::NotFound),
    }
}

/// Remove a window from the subtree (see [`spec_remove`]).
pub fn remove_from_node(n: &mut LayoutNode, id: u32) -> (out: RemoveOutcome)
    ensures
        (*final(n), out) == spec_remove(*old(n), id),
    decreases *old(n),
{
    let children = n.children.take();
    match children {
        Some((mut a, mut b)) => {
            let ghost a0 = *a;
            let ghost b0 = *b;
            let oa = remove_from_node(&mut *a, id);
            let a_missing = match &oa {
                RemoveOutcome::NotFound => true,
                _ => false,
            };
            if a_missing {
                proof {
                    lemma_remove_not_found(a0, id);
                }
                let ob = remove_from_node(&mut *b, id);
                let b_missing = match &ob {
                    RemoveOutcome::NotFound => true,
                    _ => false,
                };
                if b_missing {
                    proof {
                        lemma_remove_not_found(b0, id);
                    }
                    n.children = Some((a, b));
                    RemoveOutcome::NotFound
                } else {
                    let (b3, a3, out) = apply_child_outcome(b, a, ob);
                    n.children = Some((a3, b3));
                    out
                }
            } else {
                let (a3, b3, out) = apply_child_outcome(a, b, oa);
                n.children = Some((a3, b3));
                out
            }
        },
        None => {
            if is_window(n.window, id) {
                n.window = None;
                n.has_tiling = false;
                RemoveOutcome::LeafRemoved
            } else {
                RemoveOutcome::NotFound
            }
        },
    }
}


/// `n` with the windows `a` and `b` exchanged together with their states
/// and tiling flags: the node that held `a` now holds `b` in state `sb`,
/// and the other way round.
pub open spec fn spec_swap(
    n: LayoutNode,
    a: u32,
    b: u32,
    sa: WindowState,
    ta: bool,
    sb: WindowState,
    tb: bool,
) -> LayoutNode
    decreases n,
{
    let own = if n.window == Some(a) {
        LayoutNode { window: Some(b), state: sb, has_tiling: tb, ..n }
    } else if n.window == Some(b) {
        LayoutNode { window: Some(a), state: sa, has_tiling: ta, ..n }
    } else {
        n
    };
    match n.children {
        Some((x, y)) => spec_with_children(
            own,
            spec_swap(*x, a, b, sa, ta, sb, tb),
            spec_swap(*y, a, b, sa, ta, sb, tb),
        ),
        None => own,
    }
}

/// Exchange two windows between their nodes (see [`spec_swap`]).
pub fn swap_window_nodes(
    n: &mut LayoutNode,
    a: u32,
    b: u32,
    sa: &WindowState,
    ta: bool,
    sb: &WindowState,
    tb: bool,
)
    ensures
        *final(n) == spec_swap(*old(n), a, b, *sa, ta, *sb, tb),
    decreases *old(n),
{
    if is_window(n.window, a) {
        n.window = Some(b);
        n.state = clone_state(sb);
        n.has_tiling = tb;
    } else if is_window(n.window, b) {
        n.window = Some(a);
        n.state = clone_state(sa);
        n.has_tiling = ta;
    }
    let children = n.children.take();
    match children {
        Some((mut x, mut y)) => {
            swap_window_nodes(&mut *x, a, b, sa, ta, sb, tb);
            swap_window_nodes(&mut *y, a, b, sa, ta, sb, tb);
            n.children = Some((x, y));
        },
        None => {},
    }
}

/// The split directly above the leaf holding `t`, and whether that leaf is
/// its first child.
pub open spec fn spec_parent_split(n: LayoutNode, t: u32) -> Option<(LayoutSplit, bool)>
    decreases n,
{
    match n.children {
        Some((a, b)) => {
            if spec_has(*a, t) && a.window == Some(t) {
                match n.split {
                    Some(s) => Some((s, true)),
                    None => None,
                }
            } else if spec_has(*b, t) && b.window == Some(t) {
                match n.split {
                    Some(s) => Some((s, false)),
                    None => None,
                }
            } else if spec_has(*a, t) {
                spec_parent_split(*a, t)
            } else if spec_has(*b, t) {
                spec_parent_split(*b, t)
            } else {
                None
            }
        },
        None => None,
    }
}

/// `n` with the ratio of the split directly above the leaf holding `t` set.
pub open spec fn spec_set_parent_ratio(n: LayoutNode, t: u32, ratio: u32) -> LayoutNode
    decreases n,
{
    match n.children {
        Some((a, b)) => {
            if (spec_has(*a, t) && a.window == Some(t)) || (spec_has(*b, t) && b.window == Some(t)) {
                match n.split {
                    Some(s) => LayoutNode { split: Some(LayoutSplit { ratio, ..s }), ..n },
                    None => n,
                }
            } else if spec_has(*a, t) {
                spec_with_children(n, spec_set_parent_ratio(*a, t, ratio), *b)
            } else if spec_has(*b, t) {
                spec_with_children(n, *a, spec_set_parent_ratio(*b, t, ratio))
            } else {
                n
            }
        },
        None => n,
    }
}

/// Find the split directly above the leaf holding `t` (see
/// [`spec_parent_split`]).
pub fn find_parent_split(n: &LayoutNode, t: u32) -> (r: Option<(LayoutSplit, bool)>)
    ensures
        r == spec_parent_split(*n, t),
    decreases n,
{
    match &n.children {
        Some((a, b)) => {
            let in_a = contains_window(&**a, t);
            let in_b = contains_window(&**b, t);
            if in_a && is_window(a.window, t) {
                match n.split {
                    Some(s) => Some((s, true)),
                    None => None,
                }
            } else if in_b && is_window(b.window, t) {
                match n.split {
                    Some(s) => Some((s, false)),
                    None => None,
                }
            } else if in_a {
                find_parent_split(&**a, t)
            } else if in_b {
                find_parent_split(&**b, t)
            } else {
                None
            }
        },
        None => None,
    }
}

/// Set the ratio of the split directly above the leaf holding `t` (see
/// [`spec_set_parent_ratio`]).
pub fn set_parent_ratio(n: &mut LayoutNode, t: u32, ratio: u32)
    ensures
        *final(n) == spec_set_parent_ratio(*old(n), t, ratio),
    decreases *old(n),
{
    let children = n.children.take();
    match children {
        Some((mut a, mut b)) => {
            let in_a = contains_window(&*a, t);
            let in_b = contains_window(&*b, t);
            if (in_a && is_window(a.window, t)) || (in_b && is_window(b.window, t)) {
                match n.split {
                    Some(s) => {
                        n.split = Some(LayoutSplit { direction: s.direction, ratio });
                    },
                    None => {},
                }
            } else if in_a {
                set_parent_ratio(&mut *a, t, ratio);
            } else if in_b {
                set_parent_ratio(&mut *b, t, ratio);
            }
            n.children = Some((a, b));
        },
        None => {},
    }
}

/// Whether a split along `split` can be resized toward `direction`.
pub open spec fn spec_supports(split: SplitDirection, direction: FocusDirection) -> bool {
    match split {
        SplitDirection::Vertical => direction == FocusDirection::Left || direction
            == FocusDirection::Right,
        SplitDirection::Horizontal => direction == FocusDirection::Up || direction
            == FocusDirection::Down,
    }
}

/// Going down from `n` toward the leaf holding `f`, the sibling subtree at
/// the first split that can be resized toward `direction`.
pub open spec fn spec_ancestor_sibling(n: LayoutNode, f: u32, direction: FocusDirection) -> Option<
    LayoutNode,
>
    decreases n,
{
    match n.children {
        Some((a, b)) => {
            let in_a = spec_has(*a, f);
            let in_b = spec_has(*b, f);
            if !in_a && !in_b {
                None
            } else {
                match n.split {
                    Some(s) => if spec_supports(s.direction, direction) {
                        Some(if in_a { *b } else { *a })
                    } else if in_a {
                        spec_ancestor_sibling(*a, f, direction)
                    } else {
                        spec_ancestor_sibling(*b, f, direction)
                    },
                    None => None,
                }
            }
        },
        None => None,
    }
}

/// Find the sibling subtree of the first ancestor split that supports
/// `direction` (see [`spec_ancestor_sibling`]).
pub fn find_ancestor_sibling(n: &LayoutNode, f: u32, direction: FocusDirection) -> (r: Option<&LayoutNode>)
    ensures
        match r {
            Some(x) => spec_ancestor_sibling(*n, f, direction) == Some(*x),
            None => spec_ancestor_sibling(*n, f, direction).is_none(),
        },
    decreases n,
{
    match &n.children {
        Some((a, b)) => {
            let in_a = contains_window(&**a, f);
            let in_b = contains_window(&**b, f);
            if !in_a && !in_b {
                return None;
            }
            match n.split {
                Some(s) => {
                    let supports = match s.direction {
                        SplitDirection::Vertical => match direction {
                            FocusDirection::Left | FocusDirection::Right => true,
                            _ => false,
                        },
                        SplitDirection::Horizontal => match direction {
                            FocusDirection::Up | FocusDirection::Down => true,
                            _ => false,
                        },
                    };
                    if supports {
                        if in_a {
                            Some(&**b)
                        } else {
                            Some(&**a)
                        }
                    } else if in_a {
                        find_ancestor_sibling(&**a, f, direction)
                    } else {
                        find_ancestor_sibling(&**b, f, direction)
                    }
                },
                None => None,
            }
        },
        None => None,
    }
}

/// The first window (depth-first) of a subtree that takes part in tiling.
pub open spec fn spec_find_tiled(n: LayoutNode) -> Option<u32>
    decreases n,
{
    if n.window.is_some() && spec_participates_in_tiling(n.state) {
        n.window
    } else {
        match n.children {
            Some((a, b)) => match spec_find_tiled(*a) {
                Some(w) => Some(w),
                None => spec_find_tiled(*b),
            },
            None => None,
        }
    }
}

/// Find the first tiled window in a subtree, skipping placeholders and
/// windows that do not tile.
pub fn find_tiled_window(n: &LayoutNode) -> (r: Option<u32>)
    ensures
        r == spec_find_tiled(*n),
    decreases n,
{
    if n.window.is_some() && n.state.participates_in_tiling() {
        return n.window;
    }
    match &n.children {
        Some((a, b)) => match find_tiled_window(&**a) {
            Some(w) => Some(w),
            None => find_tiled_window(&**b),
        },
        None => None,
    }
}

/// `r` moved by `(dx, dy)`, saturating at the `i32` range.
pub open spec fn spec_shifted(r: Rect, dx: i32, dy: i32) -> Rect {
    Rect { x: spec_sat(r.x + dx), y: spec_sat(r.y + dy), ..r }
}

/// `n` with every floating rect moved by `(dx, dy)`.
pub open spec fn spec_shift_floating(n: LayoutNode, dx: i32, dy: i32) -> LayoutNode
    decreases n,
{
    let own = match n.state {
        WindowState::Floating { rect } => LayoutNode {
            state: WindowState::Floating { rect: spec_shifted(rect, dx, dy) },
            ..n
        },
        _ => n,
    };
    match n.children {
        Some((a, b)) => spec_with_children(
            own,
            spec_shift_floating(*a, dx, dy),
            spec_shift_floating(*b, dx, dy),
        ),
        None => own,
    }
}

/// Move every floating rect of the subtree (see [`spec_shift_floating`]).
pub fn shift_floating(n: &mut LayoutNode, dx: i32, dy: i32)
    ensures
        *final(n) == spec_shift_floating(*old(n), dx, dy),
    decreases *old(n),
{
    let moved = match &n.state {
        WindowState::Floating { rect } => Some(
            Rect {
                x: sat_i32(rect.x as i64 + dx as i64),
                y: sat_i32(rect.y as i64 + dy as i64),
                width: rect.width,
                height: rect.height,
            },
        ),
        _ => None,
    };
    match moved {
        Some(r) => {
            n.state = WindowState::Floating { rect: r };
        },
        None => {},
    }
    let children = n.children.take();
    match children {
        Some((mut a, mut b)) => {
            shift_floating(&mut *a, dx, dy);
            shift_floating(&mut *b, dx, dy);
            n.children = Some((a, b));
        },
        None => {},
    }
}


/// Every window of the subtree takes part in tiling.
pub open spec fn spec_all_tiling(n: LayoutNode) -> bool
    decreases n,
{
    (n.window.is_some() ==> spec_participates_in_tiling(n.state)) && match n.children {
        Some((a, b)) => spec_all_tiling(*a) && spec_all_tiling(*b),
        None => true,
    }
}

/// The depth-first window sequence holds exactly the windows of the subtree.
pub proof fn lemma_windows_has(n: LayoutNode, id: u32)
    ensures
        spec_windows(n).contains(id) <==> spec_has(n, id),
    decreases n,
{
    let own: Seq<u32> = match n.window {
        Some(w) => seq![w],
        None => Seq::empty(),
    };
    match n.children {
        Some((a, b)) => {
            lemma_windows_has(*a, id);
            lemma_windows_has(*b, id);
            let wa = spec_windows(*a);
            let wb = spec_windows(*b);
            assert(spec_windows(n) == own + wa + wb);
            if spec_has(n, id) {
                if n.window == Some(id) {
                    assert((own + wa + wb)[0] == id);
                } else if spec_has(*a, id) {
                    let i = choose|i: int| 0 <= i < wa.len() && wa[i] == id;
                    assert((own + wa + wb)[own.len() + i] == id);
                } else {
                    let i = choose|i: int| 0 <= i < wb.len() && wb[i] == id;
                    assert((own + wa + wb)[own.len() + wa.len() + i] == id);
                }
            }
            if spec_windows(n).contains(id) {
                let i = choose|i: int| 0 <= i < (own + wa + wb).len() && (own + wa + wb)[i] == id;
                if i < own.len() {
                } else if i < own.len() + wa.len() {
                    assert(wa[i - own.len()] == id);
                } else {
                    assert(wb[i - own.len() - wa.len()] == id);
                }
            }
        },
        None => {
            if spec_has(n, id) {
                assert(own[0] == id);
            }
        },
    }
}

/// No window occurs twice in the window sequence of a well-formed subtree.
pub proof fn lemma_windows_distinct(n: LayoutNode)
    requires
        spec_node_wf(n),
    ensures
        spec_windows(n).no_duplicates(),
    decreases n,
{
    if let Some((a, b)) = n.children {
        lemma_windows_distinct(*a);
        lemma_windows_distinct(*b);
        let wa = spec_windows(*a);
        let wb = spec_windows(*b);
        assert forall|i: int, j: int| 0 <= i < wa.len() && 0 <= j < wb.len() implies wa[i] != wb[j] by {
            lemma_windows_has(*a, wa[i]);
            lemma_windows_has(*b, wa[i]);
            assert(wa.contains(wa[i]));
            if wa[i] == wb[j] {
                assert(wb.contains(wb[j]));
                assert(spec_has(*a, wa[i]) && spec_has(*b, wa[i]));
            }
        }
        vstd::seq_lib::lemma_no_dup_in_concat(wa, wb);
        assert(spec_windows(n) =~= wa + wb);
    }
}

/// The node found for `id` holds `id`; in a well-formed subtree it is a
/// well-formed leaf.
pub proof fn lemma_find(n: LayoutNode, id: u32)
    ensures
        spec_find(n, id).is_some() == spec_has(n, id),
        spec_find(n, id) matches Some(x) ==> x.window == Some(id),
        spec_find(n, id) matches Some(x) ==> (spec_node_wf(n) ==> spec_node_wf(x) && x.children.is_none()),
    decreases n,
{
    if let Some((a, b)) = n.children {
        lemma_find(*a, id);
        lemma_find(*b, id);
    }
}

/// Arranging changes only rectangles.
pub proof fn lemma_apply_rects_keeps(n: LayoutNode, rect: Rect, gap: i32)
    ensures
        ({
            let m = spec_apply_rects(n, rect, gap);
            &&& m.window == n.window
            &&& m.has_tiling == n.has_tiling
            &&& m.split == n.split
            &&& m.children.is_some() == n.children.is_some()
            &&& spec_windows(m) == spec_windows(n)
            &&& (spec_node_wf(n) ==> spec_node_wf(m))
            &&& spec_flags_ok(m) == spec_flags_ok(n)
            &&& spec_all_tiling(m) == spec_all_tiling(n)
            &&& spec_has_placeholder(m) == spec_has_placeholder(n)
            &&& forall|y: u32| #[trigger] spec_has(m, y) == spec_has(n, y)
            &&& forall|y: u32| #[trigger] spec_state_of(m, y) == spec_state_of(n, y)
        }),
    decreases n,
{
    let m = spec_apply_rects(n, rect, gap);
    match (n.children, n.split) {
        (Some((a, b)), Some(s)) => {
            let (ra, rb) = spec_child_rects(a.has_tiling, b.has_tiling, rect, s, gap);
            lemma_apply_rects_keeps(*a, ra, gap);
            lemma_apply_rects_keeps(*b, rb, gap);
            let ma = spec_apply_rects(*a, ra, gap);
            let mb = spec_apply_rects(*b, rb, gap);
            assert(m.children == Some((Box::new(ma), Box::new(mb))));
            assert forall|y: u32| #[trigger] spec_has(m, y) == spec_has(n, y) by {
                assert(spec_has(ma, y) == spec_has(*a, y));
                assert(spec_has(mb, y) == spec_has(*b, y));
            }
            assert forall|y: u32| #[trigger] spec_state_of(m, y) == spec_state_of(n, y) by {
                assert(spec_has(ma, y) == spec_has(*a, y));
                assert(spec_state_of(ma, y) == spec_state_of(*a, y));
                assert(spec_state_of(mb, y) == spec_state_of(*b, y));
            }
            if spec_node_wf(n) {
                assert forall|id: u32| !(#[trigger] spec_has(ma, id) && spec_has(mb, id)) by {
                    assert(spec_has(ma, id) == spec_has(*a, id));
                    assert(spec_has(mb, id) == spec_has(*b, id));
                    assert(!(spec_has(*a, id) && spec_has(*b, id)));
                }
            }
            if spec_node_wf(m) {
                assert forall|id: u32| !(#[trigger] spec_has(*a, id) && spec_has(*b, id)) by {
                    assert(spec_has(ma, id) == spec_has(*a, id));
                    assert(spec_has(mb, id) == spec_has(*b, id));
                    assert(!(spec_has(ma, id) && spec_has(mb, id)));
                }
            }
        },
        _ => {
            assert forall|y: u32| #[trigger] spec_state_of(m, y) == spec_state_of(n, y) by {
                if n.window != Some(y) {
                    if let Some((a, b)) = n.children {
                        assert(spec_find(m, y) == spec_find(n, y));
                    }
                }
            }
        },
    }
}

/// Recomputing the tiling flags changes nothing else and makes every flag
/// agree with the subtree below it.
pub proof fn lemma_fix_flags_keeps(n: LayoutNode)
    ensures
        ({
            let m = spec_fix_flags(n);
            &&& m.window == n.window
            &&& m.split == n.split
            &&& m.children.is_some() == n.children.is_some()
            &&& (n.children.is_none() ==> m == n)
            &&& spec_windows(m) == spec_windows(n)
            &&& spec_flags_ok(m)
            &&& (spec_flags_ok(n) ==> m == n)
            &&& (spec_node_wf(n) ==> spec_node_wf(m))
            &&& spec_all_tiling(m) == spec_all_tiling(n)
            &&& forall|y: u32| #[trigger] spec_has(m, y) == spec_has(n, y)
            &&& forall|y: u32| #[trigger] spec_state_of(m, y) == spec_state_of(n, y)
        }),
    decreases n,
{
    let m = spec_fix_flags(n);
    if let Some((a, b)) = n.children {
        lemma_fix_flags_keeps(*a);
        lemma_fix_flags_keeps(*b);
        let ma = spec_fix_flags(*a);
        let mb = spec_fix_flags(*b);
        assert forall|y: u32| #[trigger] spec_has(m, y) == spec_has(n, y) by {
            assert(spec_has(ma, y) == spec_has(*a, y));
            assert(spec_has(mb, y) == spec_has(*b, y));
        }
        assert forall|y: u32| #[trigger] spec_state_of(m, y) == spec_state_of(n, y) by {
            assert(spec_has(ma, y) == spec_has(*a, y));
            assert(spec_state_of(ma, y) == spec_state_of(*a, y));
            assert(spec_state_of(mb, y) == spec_state_of(*b, y));
        }
        if spec_node_wf(n) {
            assert forall|id: u32| !(#[trigger] spec_has(ma, id) && spec_has(mb, id)) by {
                assert(spec_has(ma, id) == spec_has(*a, id));
                assert(spec_has(mb, id) == spec_has(*b, id));
                assert(!(spec_has(*a, id) && spec_has(*b, id)));
            }
        }
        if spec_flags_ok(n) {
            assert(ma == *a);
            assert(mb == *b);
            assert(m == n);
        }
    }
}

/// Setting a window's state changes that window's state and tiling flag
/// and nothing else.
pub proof fn lemma_set_state_keeps(n: LayoutNode, id: u32, s: WindowState)
    ensures
        ({
            let m = spec_set_state(n, id, s);
            &&& m.window == n.window
            &&& m.split == n.split
            &&& m.children.is_some() == n.children.is_some()
            &&& spec_windows(m) == spec_windows(n)
            &&& (spec_node_wf(n) ==> spec_node_wf(m))
            &&& forall|y: u32| #[trigger] spec_has(m, y) == spec_has(n, y)
            &&& spec_has(n, id) ==> spec_state_of(m, id) == Some(s)
            &&& forall|y: u32| y != id ==> #[trigger] spec_state_of(m, y) == spec_state_of(n, y)
        }),
    decreases n,
{
    let m = spec_set_state(n, id, s);
    if n.window != Some(id) {
        if let Some((a, b)) = n.children {
            lemma_set_state_keeps(*a, id, s);
            lemma_set_state_keeps(*b, id, s);
            let ma = if spec_has(*a, id) { spec_set_state(*a, id, s) } else { *a };
            let mb = if spec_has(*a, id) { *b } else { spec_set_state(*b, id, s) };
            assert(m.children == Some((Box::new(ma), Box::new(mb))));
            assert forall|y: u32| #[trigger] spec_has(m, y) == spec_has(n, y) by {
                assert(spec_has(ma, y) == spec_has(*a, y));
                assert(spec_has(mb, y) == spec_has(*b, y));
            }
            assert forall|y: u32| y != id implies #[trigger] spec_state_of(m, y) == spec_state_of(n, y) by {
                assert(spec_has(ma, y) == spec_has(*a, y));
                assert(spec_state_of(ma, y) == spec_state_of(*a, y));
                assert(spec_state_of(mb, y) == spec_state_of(*b, y));
            }
            if spec_node_wf(n) {
                assert forall|y: u32| !(#[trigger] spec_has(ma, y) && spec_has(mb, y)) by {
                    assert(spec_has(ma, y) == spec_has(*a, y));
                    assert(spec_has(mb, y) == spec_has(*b, y));
                    assert(!(spec_has(*a, y) && spec_has(*b, y)));
                }
            }
            if spec_has(n, id) {
                assert(spec_has(ma, id) == spec_has(*a, id));
            }
        }
    } else {
        assert forall|y: u32| y != id implies #[trigger] spec_state_of(m, y) == spec_state_of(n, y) by {
            if let Some((a, b)) = n.children {
                assert(spec_find(m, y) matches Some(x) ==> x.state == spec_find(n, y)->0.state);
            }
        }
    }
}


/// Filling the first placeholder with a new window adds that window and
/// keeps the subtree well formed.
pub proof fn lemma_fill_keeps(n: LayoutNode, id: u32)
    requires
        spec_node_wf(n),
        !spec_has(n, id),
        spec_has_placeholder(n),
    ensures
        ({
            let m = spec_fill_placeholder(n, id);
            &&& spec_node_wf(m)
            &&& m.children.is_some() == n.children.is_some()
            &&& forall|y: u32| #[trigger] spec_has(m, y) == (spec_has(n, y) || y == id)
            &&& forall|y: u32| y != id ==> #[trigger] spec_state_of(m, y) == spec_state_of(n, y)
        }),
    decreases n,
{
    let m = spec_fill_placeholder(n, id);
    if !(n.window.is_none() && n.children.is_none()) {
        if let Some((a, b)) = n.children {
            if spec_has_placeholder(*a) {
                lemma_fill_keeps(*a, id);
                let ma = spec_fill_placeholder(*a, id);
                assert forall|y: u32| !(#[trigger] spec_has(ma, y) && spec_has(*b, y)) by {
                    assert(spec_has(ma, y) == (spec_has(*a, y) || y == id));
                    assert(!(spec_has(*a, y) && spec_has(*b, y)));
                }
                assert forall|y: u32| #[trigger] spec_has(m, y) == (spec_has(n, y) || y == id) by {
                    assert(spec_has(ma, y) == (spec_has(*a, y) || y == id));
                }
                assert forall|y: u32| y != id implies #[trigger] spec_state_of(m, y) == spec_state_of(n, y) by {
                    assert(spec_has(ma, y) == (spec_has(*a, y) || y == id));
                    assert(spec_state_of(ma, y) == spec_state_of(*a, y));
                }
            } else {
                lemma_fill_keeps(*b, id);
                let mb = spec_fill_placeholder(*b, id);
                assert forall|y: u32| !(#[trigger] spec_has(*a, y) && spec_has(mb, y)) by {
                    assert(spec_has(mb, y) == (spec_has(*b, y) || y == id));
                    assert(!(spec_has(*a, y) && spec_has(*b, y)));
                }
                assert forall|y: u32| #[trigger] spec_has(m, y) == (spec_has(n, y) || y == id) by {
                    assert(spec_has(mb, y) == (spec_has(*b, y) || y == id));
                }
                assert forall|y: u32| y != id implies #[trigger] spec_state_of(m, y) == spec_state_of(n, y) by {
                    assert(spec_has(mb, y) == (spec_has(*b, y) || y == id));
                    assert(spec_state_of(mb, y) == spec_state_of(*b, y));
                }
            }
        }
    }
}

/// Replacing the leaf holding `f` by a well-formed subtree `r` that holds
/// `f` or fresh windows only keeps the tree well formed; the windows are
/// then those of the tree without `f`, and those of `r`.
pub proof fn lemma_replace_keeps(n: LayoutNode, f: u32, r: LayoutNode)
    requires
        spec_node_wf(n),
        spec_has(n, f),
        spec_node_wf(r),
        forall|y: u32| #[trigger] spec_has(r, y) ==> (y == f || !spec_has(n, y)),
    ensures
        ({
            let m = spec_replace(n, f, r);
            &&& spec_node_wf(m)
            &&& forall|y: u32| #[trigger] spec_has(m, y) == ((spec_has(n, y) && y != f) || spec_has(r, y))
            &&& forall|y: u32| y != f && !spec_has(r, y) ==> #[trigger] spec_state_of(m, y) == spec_state_of(n, y)
        }),
    decreases n,
{
    let m = spec_replace(n, f, r);
    if n.window == Some(f) {
        assert(n.children.is_none());
        assert forall|y: u32| y != f && !spec_has(r, y) implies #[trigger] spec_state_of(m, y) == spec_state_of(n, y) by {
            lemma_find(r, y);
            lemma_find(n, y);
        }
    } else {
        if let Some((a, b)) = n.children {
            if spec_has(*a, f) {
                assert forall|y: u32| #[trigger] spec_has(r, y) implies (y == f || !spec_has(*a, y)) by {}
                lemma_replace_keeps(*a, f, r);
                let ma = spec_replace(*a, f, r);
                assert forall|y: u32| !(#[trigger] spec_has(ma, y) && spec_has(*b, y)) by {
                    assert(spec_has(ma, y) == ((spec_has(*a, y) && y != f) || spec_has(r, y)));
                    assert(!(spec_has(*a, y) && spec_has(*b, y)));
                    assert(!(spec_has(*a, f) && spec_has(*b, f)));
                }
                assert forall|y: u32| #[trigger] spec_has(m, y) == ((spec_has(n, y) && y != f) || spec_has(r, y)) by {
                    assert(spec_has(ma, y) == ((spec_has(*a, y) && y != f) || spec_has(r, y)));
                    assert(!(spec_has(*a, f) && spec_has(*b, f)));
                }
                assert forall|y: u32| y != f && !spec_has(r, y) implies #[trigger] spec_state_of(m, y) == spec_state_of(n, y) by {
                    assert(spec_has(ma, y) == ((spec_has(*a, y) && y != f) || spec_has(r, y)));
                    assert(spec_state_of(ma, y) == spec_state_of(*a, y));
                }
            } else {
                assert forall|y: u32| #[trigger] spec_has(r, y) implies (y == f || !spec_has(*b, y)) by {}
                lemma_replace_keeps(*b, f, r);
                let mb = spec_replace(*b, f, r);
                assert forall|y: u32| !(#[trigger] spec_has(*a, y) && spec_has(mb, y)) by {
                    assert(spec_has(mb, y) == ((spec_has(*b, y) && y != f) || spec_has(r, y)));
                    assert(!(spec_has(*a, y) && spec_has(*b, y)));
                }
                assert forall|y: u32| #[trigger] spec_has(m, y) == ((spec_has(n, y) && y != f) || spec_has(r, y)) by {
                    assert(spec_has(mb, y) == ((spec_has(*b, y) && y != f) || spec_has(r, y)));
                }
                assert forall|y: u32| y != f && !spec_has(r, y) implies #[trigger] spec_state_of(m, y) == spec_state_of(n, y) by {
                    assert(spec_has(mb, y) == ((spec_has(*b, y) && y != f) || spec_has(r, y)));
                    assert(spec_state_of(mb, y) == spec_state_of(*b, y));
                }
            }
        }
    }
}

/// The split that puts a fresh leaf beside the leaf `x` found for `f` is
/// well formed and holds `f` and the fresh window.
pub proof fn lemma_split_node_wf(n: LayoutNode, f: u32, split: LayoutSplit, new_window: Option<u32>)
    requires
        spec_node_wf(n),
        spec_has(n, f),
        new_window matches Some(w) ==> !spec_has(n, w),
    ensures
        ({
            let x = spec_find(n, f)->0;
            let r = spec_split_node(split, x, spec_leaf(new_window));
            &&& spec_node_wf(r)
            &&& forall|y: u32| #[trigger] spec_has(r, y) == (y == f || new_window == Some(y))
            &&& spec_state_of(r, f) == spec_state_of(n, f)
        }),
{
    lemma_find(n, f);
    let x = spec_find(n, f)->0;
    let l = spec_leaf(new_window);
    let r = spec_split_node(split, x, l);
    assert(spec_has(x, f));
    assert forall|y: u32| #[trigger] spec_has(x, y) == (y == f) by {}
    assert forall|y: u32| !(#[trigger] spec_has(x, y) && spec_has(l, y)) by {}
    assert forall|y: u32| #[trigger] spec_has(r, y) == (y == f || new_window == Some(y)) by {
        assert(spec_has(l, y) == (new_window == Some(y)));
        assert(spec_has(x, y) == (y == f));
    }
    assert(spec_node_wf(l));
    assert(spec_node_wf(r));
    assert(spec_find(r, f) == spec_find(x, f));
}


/// With up-to-date flags and only tiling windows, a subtree whose flag says
/// it does not tile holds no window.
pub proof fn lemma_untiled_is_empty(n: LayoutNode)
    requires
        spec_node_wf(n),
        spec_flags_ok(n),
        spec_all_tiling(n),
        !n.has_tiling,
    ensures
        forall|y: u32| !#[trigger] spec_has(n, y),
    decreases n,
{
    if let Some((a, b)) = n.children {
        lemma_untiled_is_empty(*a);
        lemma_untiled_is_empty(*b);
        assert forall|y: u32| !#[trigger] spec_has(n, y) by {
            assert(!spec_has(*a, y));
            assert(!spec_has(*b, y));
        }
    } else {
        assert(n.window.is_none());
    }
}

/// In a well-formed split, a window of one child is found in that child.
pub proof fn lemma_state_in_child(n: LayoutNode, y: u32)
    requires
        spec_node_wf(n),
        n.children.is_some(),
    ensures
        match n.children {
            Some((a, b)) => {
                &&& spec_has(*a, y) ==> spec_state_of(n, y) == spec_state_of(*a, y)
                &&& spec_has(*b, y) ==> spec_state_of(n, y) == spec_state_of(*b, y)
            },
            None => true,
        },
{
    let (a, b) = n.children->0;
    assert(!(spec_has(*a, y) && spec_has(*b, y)));
}

/// What removing `id` from a well-formed subtree guarantees: it is reported
/// as not found exactly when the subtree does not hold it; what remains is
/// well formed and holds only windows of the subtree other than the removed
/// one, in their states. With up-to-date flags and only tiling windows,
/// nothing but the removed window is lost.
pub open spec fn spec_remove_facts(n: LayoutNode, id: u32) -> bool {
    let (m, out) = spec_remove(n, id);
    let lossless = spec_flags_ok(n) && spec_all_tiling(n);
    &&& (out is NotFound) == !spec_has(n, id)
    &&& (out is NotFound ==> m == n)
    &&& (out is LeafRemoved ==> n.children.is_none() && n.window == Some(id))
    &&& (out matches RemoveOutcome::Replaced(x) ==> {
        &&& spec_node_wf(*x)
        &&& (spec_flags_ok(n) ==> spec_flags_ok(*x))
        &&& (spec_all_tiling(n) ==> spec_all_tiling(*x))
        &&& forall|y: u32| #[trigger] spec_has(*x, y) ==> spec_has(n, y) && y != id
        &&& forall|y: u32| #[trigger] spec_has(*x, y) ==> spec_state_of(*x, y) == spec_state_of(n, y)
        &&& (lossless ==> forall|y: u32| spec_has(n, y) && y != id ==> #[trigger] spec_has(*x, y))
    })
    &&& (out is Modified ==> {
        &&& spec_node_wf(m)
        &&& forall|y: u32| #[trigger] spec_has(m, y) ==> spec_has(n, y) && y != id
        &&& forall|y: u32| #[trigger] spec_has(m, y) ==> spec_state_of(m, y) == spec_state_of(n, y)
        &&& (lossless ==> forall|y: u32| spec_has(n, y) && y != id ==> #[trigger] spec_has(m, y))
    })
}

/// The combination step of a removal, for the child `c` of a split in
/// which the window was found, beside its sibling `s`: the facts about the
/// child carry over to the split, whose children become `(s3, c3)` or
/// `(c3, s3)`.
proof fn lemma_apply_outcome_facts(n: LayoutNode, c: LayoutNode, s: LayoutNode, id: u32, c_first: bool, m: LayoutNode)
    requires
        spec_node_wf(n),
        n.children == (if c_first {
            Some((Box::new(c), Box::new(s)))
        } else {
            Some((Box::new(s), Box::new(c)))
        }),
        spec_remove_facts(c, id),
        spec_has(c, id),
        !spec_has(s, id),
        ({
            let (c2, oc) = spec_remove(c, id);
            let (c3, s3, out) = spec_apply_outcome(c2, s, oc);
            m == if c_first { spec_with_children(n, c3, s3) } else { spec_with_children(n, s3, c3) }
        }),
    ensures
        ({
            let (c2, oc) = spec_remove(c, id);
            let (c3, s3, out) = spec_apply_outcome(c2, s, oc);
            let lossless = spec_flags_ok(n) && spec_all_tiling(n);
            &&& !(out is NotFound)
            &&& !(out is LeafRemoved)
            &&& (out matches RemoveOutcome::Replaced(x) ==> {
                &&& spec_node_wf(*x)
                &&& (spec_flags_ok(n) ==> spec_flags_ok(*x))
                &&& (spec_all_tiling(n) ==> spec_all_tiling(*x))
                &&& forall|y: u32| #[trigger] spec_has(*x, y) ==> spec_has(n, y) && y != id
                &&& forall|y: u32| #[trigger] spec_has(*x, y) ==> spec_state_of(*x, y) == spec_state_of(n, y)
                &&& (lossless ==> forall|y: u32| spec_has(n, y) && y != id ==> #[trigger] spec_has(*x, y))
            })
            &&& (out is Modified ==> {
                &&& spec_node_wf(m)
                &&& forall|y: u32| #[trigger] spec_has(m, y) ==> spec_has(n, y) && y != id
                &&& forall|y: u32| #[trigger] spec_has(m, y) ==> spec_state_of(m, y) == spec_state_of(n, y)
                &&& (lossless ==> forall|y: u32| spec_has(n, y) && y != id ==> #[trigger] spec_has(m, y))
            })
        }),
{
    let (c2, oc) = spec_remove(c, id);
    let (c3, s3, out) = spec_apply_outcome(c2, s, oc);
    let lossless = spec_flags_ok(n) && spec_all_tiling(n);
    assert(spec_node_wf(c) && spec_node_wf(s));
    assert forall|y: u32| !(#[trigger] spec_has(c, y) && spec_has(s, y)) by {
        lemma_state_in_child(n, y);
    }
    assert forall|y: u32| #[trigger] spec_has(c, y) implies spec_state_of(n, y) == spec_state_of(c, y) by {
        lemma_state_in_child(n, y);
    }
    assert forall|y: u32| #[trigger] spec_has(s, y) implies spec_state_of(n, y) == spec_state_of(s, y) by {
        lemma_state_in_child(n, y);
    }
    assert forall|y: u32| #[trigger] spec_has(n, y) == (spec_has(c, y) || spec_has(s, y)) by {}
    if lossless {
        assert(spec_flags_ok(c) && spec_flags_ok(s));
        assert(spec_all_tiling(c) && spec_all_tiling(s));
        if !s.has_tiling {
            lemma_untiled_is_empty(s);
        }
    }
    assert(spec_flags_ok(n) ==> spec_flags_ok(s));
    assert(spec_all_tiling(n) ==> spec_all_tiling(s));
    match oc {
        RemoveOutcome::NotFound => {},
        RemoveOutcome::LeafRemoved => {
            assert(out == RemoveOutcome::Replaced(Box::new(s)));
            assert forall|y: u32| spec_has(n, y) && y != id implies #[trigger] spec_has(s, y) by {
                assert(spec_has(c, y) == (y == id));
            }
        },
        RemoveOutcome::Replaced(x) => {
            if x.has_tiling || s.has_tiling {
                assert(out is Modified);
                assert forall|y: u32| !(#[trigger] spec_has(*x, y) && spec_has(s, y)) by {
                    if spec_has(*x, y) {
                        assert(spec_has(c, y));
                    }
                }
                assert(spec_node_wf(m));
                assert forall|y: u32| #[trigger] spec_has(m, y) == (spec_has(*x, y) || spec_has(s, y)) by {}
                assert forall|y: u32| #[trigger] spec_has(m, y) implies spec_state_of(m, y) == spec_state_of(n, y) by {
                    lemma_state_in_child(m, y);
                    if !spec_has(s, y) {
                        assert(spec_has(*x, y));
                        assert(spec_has(c, y));
                    }
                }
                if lossless {
                    assert forall|y: u32| spec_has(n, y) && y != id implies #[trigger] spec_has(m, y) by {
                        if spec_has(c, y) {
                            assert(spec_has(*x, y));
                        }
                    }
                }
            } else {
                assert(out == RemoveOutcome::Replaced(Box::new(s)));
                if lossless {
                    lemma_untiled_is_empty(*x);
                    assert forall|y: u32| spec_has(n, y) && y != id implies #[trigger] spec_has(s, y) by {
                        if spec_has(c, y) {
                            assert(spec_has(*x, y));
                        }
                    }
                }
            }
        },
        RemoveOutcome::Modified => {
            assert(c3 == c2 && s3 == s);
            assert forall|y: u32| !(#[trigger] spec_has(c2, y) && spec_has(s, y)) by {
                if spec_has(c2, y) {
                    assert(spec_has(c, y));
                }
            }
            assert(spec_node_wf(m));
            assert forall|y: u32| #[trigger] spec_has(m, y) == (spec_has(c2, y) || spec_has(s, y)) by {}
            assert forall|y: u32| #[trigger] spec_has(m, y) implies spec_state_of(m, y) == spec_state_of(n, y) by {
                lemma_state_in_child(m, y);
                if !spec_has(s, y) {
                    assert(spec_has(c2, y));
                    assert(spec_has(c, y));
                }
            }
            if lossless {
                assert forall|y: u32| spec_has(n, y) && y != id implies #[trigger] spec_has(m, y) by {
                    if spec_has(c, y) {
                        assert(spec_has(c2, y));
                    }
                }
            }
        },
    }
}

/// Removing a window from a well-formed subtree (see [`spec_remove_facts`]).
pub proof fn lemma_remove_keeps(n: LayoutNode, id: u32)
    requires
        spec_node_wf(n),
    ensures
        spec_remove_facts(n, id),
    decreases n,
{
    lemma_remove_not_found(n, id);
    if let Some((a, b)) = n.children {
        lemma_remove_keeps(*a, id);
        lemma_remove_keeps(*b, id);
        assert(!(spec_has(*a, id) && spec_has(*b, id)));
        let (a2, oa) = spec_remove(*a, id);
        if oa is NotFound {
            let (b2, ob) = spec_remove(*b, id);
            if !(ob is NotFound) {
                let (b3, a3, out) = spec_apply_outcome(b2, *a, ob);
                lemma_apply_outcome_facts(n, *b, *a, id, false, spec_with_children(n, a3, b3));
            }
        } else {
            let (a3, b3, out) = spec_apply_outcome(a2, *b, oa);
            lemma_apply_outcome_facts(n, *a, *b, id, true, spec_with_children(n, a3, b3));
        }
    }
}


/// `y` with `a` and `b` exchanged.
pub open spec fn spec_swap_id(y: u32, a: u32, b: u32) -> u32 {
    if y == a {
        b
    } else if y == b {
        a
    } else {
        y
    }
}

/// Exchanging two windows together with their states: the subtree holds
/// the same windows with `a` and `b` exchanged in the depth-first order, and
/// stays well formed.
pub proof fn lemma_swap_keeps(
    n: LayoutNode,
    a: u32,
    b: u32,
    sa: WindowState,
    ta: bool,
    sb: WindowState,
    tb: bool,
)
    requires
        spec_node_wf(n),
        a != b,
        ta == spec_participates_in_tiling(sa),
        tb == spec_participates_in_tiling(sb),
    ensures
        ({
            let m = spec_swap(n, a, b, sa, ta, sb, tb);
            &&& spec_node_wf(m)
            &&& spec_windows(m) == spec_windows(n).map_values(|y: u32| spec_swap_id(y, a, b))
            &&& forall|y: u32| #[trigger] spec_has(m, y) == spec_has(n, spec_swap_id(y, a, b))
            &&& spec_has(n, a) ==> spec_state_of(m, b) == Some(sb)
            &&& spec_has(n, b) ==> spec_state_of(m, a) == Some(sa)
            &&& forall|y: u32| y != a && y != b ==> #[trigger] spec_state_of(m, y) == spec_state_of(n, y)
        }),
    decreases n,
{
    let m = spec_swap(n, a, b, sa, ta, sb, tb);
    let f = |y: u32| spec_swap_id(y, a, b);
    match n.children {
        Some((x, z)) => {
            lemma_swap_keeps(*x, a, b, sa, ta, sb, tb);
            lemma_swap_keeps(*z, a, b, sa, ta, sb, tb);
            let mx = spec_swap(*x, a, b, sa, ta, sb, tb);
            let mz = spec_swap(*z, a, b, sa, ta, sb, tb);
            assert(m.children == Some((Box::new(mx), Box::new(mz))));
            assert(m.window.is_none());
            assert forall|y: u32| !(#[trigger] spec_has(mx, y) && spec_has(mz, y)) by {
                assert(spec_has(mx, y) == spec_has(*x, spec_swap_id(y, a, b)));
                assert(spec_has(mz, y) == spec_has(*z, spec_swap_id(y, a, b)));
                assert(!(spec_has(*x, spec_swap_id(y, a, b)) && spec_has(*z, spec_swap_id(y, a, b))));
            }
            assert forall|y: u32| #[trigger] spec_has(m, y) == spec_has(n, spec_swap_id(y, a, b)) by {
                assert(spec_has(mx, y) == spec_has(*x, spec_swap_id(y, a, b)));
                assert(spec_has(mz, y) == spec_has(*z, spec_swap_id(y, a, b)));
            }
            let wx = spec_windows(*x);
            let wz = spec_windows(*z);
            assert(spec_windows(n) == wx + wz);
            assert((wx + wz).map_values(f) =~= wx.map_values(f) + wz.map_values(f));
            assert(spec_windows(m) == spec_windows(mx) + spec_windows(mz));
            if spec_has(n, a) {
                if spec_has(*x, a) {
                    assert(spec_has(mx, b));
                } else {
                    assert(spec_has(mz, b));
                    assert(!spec_has(mx, b));
                }
            }
            if spec_has(n, b) {
                if spec_has(*x, b) {
                    assert(spec_has(mx, a));
                } else {
                    assert(spec_has(mz, a));
                    assert(!spec_has(mx, a));
                }
            }
            assert forall|y: u32| y != a && y != b implies #[trigger] spec_state_of(m, y) == spec_state_of(n, y) by {
                assert(spec_has(mx, y) == spec_has(*x, y));
                assert(spec_state_of(mx, y) == spec_state_of(*x, y));
                assert(spec_state_of(mz, y) == spec_state_of(*z, y));
            }
        },
        None => {
            assert(spec_windows(n).map_values(f) =~= spec_windows(m));
        },
    }
}

/// Changing a split ratio changes nothing but that ratio.
pub proof fn lemma_set_parent_ratio_keeps(n: LayoutNode, t: u32, ratio: u32)
    ensures
        ({
            let m = spec_set_parent_ratio(n, t, ratio);
            &&& m.window == n.window
            &&& m.has_tiling == n.has_tiling
            &&& m.split.is_some() == n.split.is_some()
            &&& m.children.is_some() == n.children.is_some()
            &&& spec_windows(m) == spec_windows(n)
            &&& (spec_node_wf(n) ==> spec_node_wf(m))
            &&& spec_flags_ok(m) == spec_flags_ok(n)
            &&& spec_all_tiling(m) == spec_all_tiling(n)
            &&& forall|y: u32| #[trigger] spec_has(m, y) == spec_has(n, y)
            &&& forall|y: u32| #[trigger] spec_state_of(m, y) == spec_state_of(n, y)
        }),
    decreases n,
{
    let m = spec_set_parent_ratio(n, t, ratio);
    if let Some((a, b)) = n.children {
        lemma_set_parent_ratio_keeps(*a, t, ratio);
        lemma_set_parent_ratio_keeps(*b, t, ratio);
        let (ma, mb) = m.children->0;
        assert forall|y: u32| #[trigger] spec_has(m, y) == spec_has(n, y) by {
            assert(spec_has(*ma, y) == spec_has(*a, y));
            assert(spec_has(*mb, y) == spec_has(*b, y));
        }
        assert forall|y: u32| #[trigger] spec_state_of(m, y) == spec_state_of(n, y) by {
            assert(spec_has(*ma, y) == spec_has(*a, y));
            assert(spec_state_of(*ma, y) == spec_state_of(*a, y));
            assert(spec_state_of(*mb, y) == spec_state_of(*b, y));
        }
        if spec_node_wf(n) {
            assert forall|y: u32| !(#[trigger] spec_has(*ma, y) && spec_has(*mb, y)) by {
                assert(spec_has(*ma, y) == spec_has(*a, y));
                assert(spec_has(*mb, y) == spec_has(*b, y));
                assert(!(spec_has(*a, y) && spec_has(*b, y)));
            }
        }
    }
}

/// Moving floating rects changes neither the windows nor the structure.
pub proof fn lemma_shift_keeps(n: LayoutNode, dx: i32, dy: i32)
    ensures
        ({
            let m = spec_shift_floating(n, dx, dy);
            &&& m.window == n.window
            &&& m.has_tiling == n.has_tiling
            &&& m.children.is_some() == n.children.is_some()
            &&& spec_windows(m) == spec_windows(n)
            &&& (spec_node_wf(n) ==> spec_node_wf(m))
            &&& forall|y: u32| #[trigger] spec_has(m, y) == spec_has(n, y)
        }),
    decreases n,
{
    let m = spec_shift_floating(n, dx, dy);
    if let Some((a, b)) = n.children {
        lemma_shift_keeps(*a, dx, dy);
        lemma_shift_keeps(*b, dx, dy);
        let (ma, mb) = m.children->0;
        assert forall|y: u32| #[trigger] spec_has(m, y) == spec_has(n, y) by {
            assert(spec_has(*ma, y) == spec_has(*a, y));
            assert(spec_has(*mb, y) == spec_has(*b, y));
        }
        if spec_node_wf(n) {
            assert forall|y: u32| !(#[trigger] spec_has(*ma, y) && spec_has(*mb, y)) by {
                assert(spec_has(*ma, y) == spec_has(*a, y));
                assert(spec_has(*mb, y) == spec_has(*b, y));
                assert(!(spec_has(*a, y) && spec_has(*b, y)));
            }
        }
    }
}


/// The visible entries are the windows, in the same order, with their
/// shown rectangles.
pub proof fn lemma_visible_windows(n: LayoutNode, output_rect: Rect)
    ensures
        spec_visible_nodes(n, output_rect).len() == spec_windows(n).len(),
        forall|i: int|
            0 <= i < spec_windows(n).len() ==> #[trigger] spec_visible_nodes(n, output_rect)[i].0
                == spec_windows(n)[i],
    decreases n,
{
    if let Some((a, b)) = n.children {
        lemma_visible_windows(*a, output_rect);
        lemma_visible_windows(*b, output_rect);
        let own_v: Seq<(u32, Rect)> = match n.window {
            Some(w) => seq![(w, spec_rect_for_state(n.state, n.rect, output_rect))],
            None => Seq::empty(),
        };
        let own_w: Seq<u32> = match n.window {
            Some(w) => seq![w],
            None => Seq::empty(),
        };
        let va = spec_visible_nodes(*a, output_rect);
        let vb = spec_visible_nodes(*b, output_rect);
        let wa = spec_windows(*a);
        let wb = spec_windows(*b);
        assert(spec_visible_nodes(n, output_rect) == own_v + va + vb);
        assert(spec_windows(n) == own_w + wa + wb);
        assert forall|i: int| 0 <= i < spec_windows(n).len() implies #[trigger] spec_visible_nodes(
            n,
            output_rect,
        )[i].0 == spec_windows(n)[i] by {
            if i < own_w.len() {
            } else if i < own_w.len() + wa.len() {
                assert(va[i - own_w.len()].0 == wa[i - own_w.len()]);
            } else {
                assert(vb[i - own_w.len() - wa.len()].0 == wb[i - own_w.len() - wa.len()]);
            }
        }
    }
}


/// The window put into a placeholder is tiled.
pub proof fn lemma_fill_state(n: LayoutNode, id: u32)
    requires
        spec_node_wf(n),
        !spec_has(n, id),
        spec_has_placeholder(n),
    ensures
        spec_state_of(spec_fill_placeholder(n, id), id) == Some(WindowState::Tiled),
    decreases n,
{
    if !(n.window.is_none() && n.children.is_none()) {
        if let Some((a, b)) = n.children {
            if spec_has_placeholder(*a) {
                lemma_fill_state(*a, id);
                lemma_fill_keeps(*a, id);
            } else {
                lemma_fill_state(*b, id);
                lemma_fill_keeps(*b, id);
            }
        }
    }
}

/// After replacing the leaf holding `f` by `r`, the windows of `r` have the
/// states they have in `r`.
pub proof fn lemma_replace_state(n: LayoutNode, f: u32, r: LayoutNode, y: u32)
    requires
        spec_node_wf(n),
        spec_has(n, f),
        spec_node_wf(r),
        forall|z: u32| #[trigger] spec_has(r, z) ==> (z == f || !spec_has(n, z)),
        spec_has(r, y),
    ensures
        spec_state_of(spec_replace(n, f, r), y) == spec_state_of(r, y),
    decreases n,
{
    if n.window != Some(f) {
        if let Some((a, b)) = n.children {
            if spec_has(*a, f) {
                assert forall|z: u32| #[trigger] spec_has(r, z) implies (z == f || !spec_has(*a, z)) by {}
                lemma_replace_state(*a, f, r, y);
                lemma_replace_keeps(*a, f, r);
            } else {
                assert forall|z: u32| #[trigger] spec_has(r, z) implies (z == f || !spec_has(*b, z)) by {}
                lemma_replace_state(*b, f, r, y);
                lemma_replace_keeps(*b, f, r);
                assert(!spec_has(*a, f));
                if spec_has(*a, y) {
                    assert(y == f || !spec_has(n, y));
                    assert(false);
                }
            }
        }
    }
}

/// Setting a state twice is setting the second one.
pub proof fn lemma_set_state_twice(n: LayoutNode, id: u32, s1: WindowState, s2: WindowState)
    ensures
        spec_set_state(spec_set_state(n, id, s1), id, s2) == spec_set_state(n, id, s2),
    decreases n,
{
    if n.window != Some(id) {
        if let Some((a, b)) = n.children {
            lemma_set_state_keeps(*a, id, s1);
            lemma_set_state_twice(*a, id, s1, s2);
            lemma_set_state_twice(*b, id, s1, s2);
            assert(spec_has(spec_set_state(*a, id, s1), id) == spec_has(*a, id));
        }
    }
}

/// Setting a window's state to the state it has changes nothing.
pub proof fn lemma_set_state_same(n: LayoutNode, id: u32)
    requires
        spec_node_wf(n),
        spec_has(n, id),
    ensures
        spec_set_state(n, id, spec_state_of(n, id)->0) == n,
    decreases n,
{
    if n.window != Some(id) {
        if let Some((a, b)) = n.children {
            if spec_has(*a, id) {
                lemma_set_state_same(*a, id);
            } else {
                lemma_set_state_same(*b, id);
            }
        }
    }
}

/// Recomputing the flags before setting a state and again after is the same
/// as recomputing them after.
pub proof fn lemma_fix_set_state(n: LayoutNode, id: u32, s: WindowState)
    ensures
        spec_fix_flags(spec_set_state(spec_fix_flags(n), id, s)) == spec_fix_flags(spec_set_state(n, id, s)),
    decreases n,
{
    lemma_fix_flags_keeps(n);
    if n.window != Some(id) {
        if let Some((a, b)) = n.children {
            lemma_fix_set_state(*a, id, s);
            lemma_fix_set_state(*b, id, s);
            lemma_fix_flags_keeps(*a);
            lemma_fix_flags_keeps(*b);
            lemma_fix_flags_keeps(spec_fix_flags(*a));
            lemma_fix_flags_keeps(spec_fix_flags(*b));
            assert(spec_has(spec_fix_flags(*a), id) == spec_has(*a, id));
        }
    } else {
        if let Some((a, b)) = n.children {
            lemma_fix_flags_keeps(*a);
            lemma_fix_flags_keeps(*b);
            lemma_fix_flags_keeps(spec_fix_flags(*a));
            lemma_fix_flags_keeps(spec_fix_flags(*b));
        }
    }
}

/// Laying a subtree out twice in the same rectangle is laying it out once.
pub proof fn lemma_apply_rects_idempotent(n: LayoutNode, rect: Rect, gap: i32)
    ensures
        spec_apply_rects(spec_apply_rects(n, rect, gap), rect, gap) == spec_apply_rects(n, rect, gap),
    decreases n,
{
    if let (Some((a, b)), Some(s)) = (n.children, n.split) {
        let (ra, rb) = spec_child_rects(a.has_tiling, b.has_tiling, rect, s, gap);
        lemma_apply_rects_idempotent(*a, ra, gap);
        lemma_apply_rects_idempotent(*b, rb, gap);
        lemma_apply_rects_keeps(*a, ra, gap);
        lemma_apply_rects_keeps(*b, rb, gap);
    }
}

/// A subtree all of whose windows are in tiling states takes part in
/// tiling throughout.
pub proof fn lemma_all_tiling_from_states(n: LayoutNode)
    requires
        spec_node_wf(n),
        forall|y: u32| #[trigger] spec_has(n, y) ==> spec_state_of(n, y).is_some() && spec_participates_in_tiling(spec_state_of(n, y)->0),
    ensures
        spec_all_tiling(n),
    decreases n,
{
    if let Some((a, b)) = n.children {
        assert forall|y: u32| #[trigger] spec_has(*a, y) implies spec_state_of(*a, y).is_some() && spec_participates_in_tiling(spec_state_of(*a, y)->0) by {
            lemma_state_in_child(n, y);
            assert(spec_has(n, y));
        }
        assert forall|y: u32| #[trigger] spec_has(*b, y) implies spec_state_of(*b, y).is_some() && spec_participates_in_tiling(spec_state_of(*b, y)->0) by {
            lemma_state_in_child(n, y);
            assert(spec_has(n, y));
        }
        lemma_all_tiling_from_states(*a);
        lemma_all_tiling_from_states(*b);
    } else if let Some(w) = n.window {
        assert(spec_has(n, w));
    }
}

} // verus!
