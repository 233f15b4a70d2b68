//! Decisions behind the window-management commands: the rect a window
//! takes when toggled, the step of a move, the output a directional focus
//! goes to, and how a resize is carried out on a layout tree.
use crate::geometry::{FocusDirection, Rect, WindowState, spec_half_trunc};
use crate::tree::{LayoutTree, spec_round_permyriad};
use vstd::prelude::*;

verus! {

/// The rect a window takes when toggled to floating or pseudo-tiled: a
/// floating window keeps its rect; a fullscreen window returns to the rect
/// of its floating state (when it has an area) or pseudo-tiled state;
/// anything else gets `pseudo_rect`.
pub open spec fn spec_toggle_rect(state: Option<WindowState>, pseudo_rect: Rect) -> Rect {
    match state {
        Some(WindowState::Floating { rect }) => rect,
        Some(WindowState::Fullscreen { restore }) => match *restore {
            WindowState::Floating { rect } => if rect.width > 0 && rect.height > 0 {
                rect
            } else {
                pseudo_rect
            },
            WindowState::PseudoTiled { rect } => rect,
            _ => pseudo_rect,
        },
        _ => pseudo_rect,
    }
}

/// Resolve the rect to use when toggling a window (see [`spec_toggle_rect`]).
pub fn toggle_rect(state: Option<&WindowState>, pseudo_rect: Rect) -> (r: Rect)
    ensures
        r == spec_toggle_rect(
            match state {
                Some(s) => Some(*s),
                None => None,
            },
            pseudo_rect,
        ),
{
    match state {
        Some(WindowState::Floating { rect }) => *rect,
        Some(WindowState::Fullscreen { restore }) => match &**restore {
            WindowState::Floating { rect } => if rect.width > 0 && rect.height > 0 {
                *rect
            } else {
                pseudo_rect
            },
            WindowState::PseudoTiled { rect } => *rect,
            _ => pseudo_rect,
        },
        _ => pseudo_rect,
    }
}

/// The state a "set state" command sets: floating and pseudo-tiled targets
/// take `rect`.
pub open spec fn spec_state_with_rect(target: WindowState, rect: Rect) -> WindowState {
    match target {
        WindowState::Floating { .. } => WindowState::Floating { rect },
        WindowState::PseudoTiled { .. } => WindowState::PseudoTiled { rect },
        other => other,
    }
}

/// Give a floating or pseudo-tiled target its rect (see
/// [`spec_state_with_rect`]).
pub fn state_with_rect(target: WindowState, rect: Rect) -> (r: WindowState)
    ensures
        r == spec_state_with_rect(target, rect),
{
    match target {
        WindowState::Floating { .. } => WindowState::Floating { rect },
        WindowState::PseudoTiled { .. } => WindowState::PseudoTiled { rect },
        other => other,
    }
}

/// The step of a keyboard move of a floating window: a tenth of the
/// output's width and height, rounded half away from zero.
pub open spec fn spec_move_step(output: Rect) -> (int, int) {
    (spec_round_permyriad(output.width * 1000), spec_round_permyriad(output.height * 1000))
}

/// Compute the step of a keyboard move (see [`spec_move_step`]).
pub fn move_step(output: Rect) -> (r: (i32, i32))
    ensures
        (r.0 as int, r.1 as int) == spec_move_step(output),
{
    (tenth(output.width), tenth(output.height))
}

fn tenth(v: i32) -> (r: i32)
    ensures
        r == spec_round_permyriad(v * 1000),
{
    let p = v as i64 * 1000;
    let q: i64 = if p >= 0 {
        (p + 5000) / 10000
    } else {
        -((-p + 5000) / 10000)
    };
    q as i32
}

/// The center of a rect.
pub open spec fn spec_center(r: Rect) -> (int, int) {
    (r.x + spec_half_trunc(r.width as int), r.y + spec_half_trunc(r.height as int))
}

/// Whether an output whose center is `other` lies in `direction` from an
/// output whose center is `current`.
pub open spec fn spec_in_direction(current: (int, int), other: (int, int), direction: FocusDirection) -> bool {
    match direction {
        FocusDirection::Left => other.0 < current.0,
        FocusDirection::Right => other.0 > current.0,
        FocusDirection::Up => other.1 < current.1,
        FocusDirection::Down => other.1 > current.1,
    }
}

/// Manhattan distance between two centers.
pub open spec fn spec_center_distance(a: (int, int), b: (int, int)) -> int {
    let dx = if a.0 >= b.0 { a.0 - b.0 } else { b.0 - a.0 };
    let dy = if a.1 >= b.1 { a.1 - b.1 } else { b.1 - a.1 };
    dx + dy
}

/// Whether output `i` of `outputs` is a candidate for a directional focus
/// from `current_id` at `current`.
pub open spec fn spec_output_candidate(
    outputs: Seq<(u32, Option<Rect>)>,
    i: int,
    current_id: u32,
    current: Rect,
    direction: FocusDirection,
) -> bool {
    &&& 0 <= i < outputs.len()
    &&& outputs[i].0 != current_id
    &&& outputs[i].1 is Some
    &&& spec_in_direction(spec_center(current), spec_center(outputs[i].1->0), direction)
}

/// The distance from the current output to candidate `i`.
pub open spec fn spec_output_distance(outputs: Seq<(u32, Option<Rect>)>, i: int, current: Rect) -> int {
    spec_center_distance(spec_center(current), spec_center(outputs[i].1->0))
}

/// Whether candidate `i` is the nearest, and the first of the nearest in
/// the order given.
pub open spec fn spec_output_is_best(
    outputs: Seq<(u32, Option<Rect>)>,
    i: int,
    current_id: u32,
    current: Rect,
    direction: FocusDirection,
) -> bool {
    &&& spec_output_candidate(outputs, i, current_id, current, direction)
    &&& forall|j: int| #[trigger]
        spec_output_candidate(outputs, j, current_id, current, direction) ==> spec_output_distance(
            outputs,
            i,
            current,
        ) <= spec_output_distance(outputs, j, current)
    &&& forall|j: int|
        0 <= j < i && #[trigger] spec_output_candidate(outputs, j, current_id, current, direction)
            ==> spec_output_distance(outputs, i, current) < spec_output_distance(outputs, j, current)
}

fn center_of(r: Rect) -> (c: (i64, i64))
    ensures
        (c.0 as int, c.1 as int) == spec_center(r),
{
    (r.x as i64 + crate::geometry::half_trunc(r.width as i64), r.y as i64 + crate::geometry::half_trunc(r.height as i64))
}

/// The output a directional focus goes to: among the outputs with a known
/// rect other than the current one whose center lies in `direction`, the
/// one whose center is nearest (Manhattan distance), the first in the order
/// given among equally near ones.
pub fn select_output_in_direction(
    current_id: u32,
    current: Rect,
    outputs: &Vec<(u32, Option<Rect>)>,
    direction: FocusDirection,
) -> (r: Option<u32>)
    ensures
        match r {
            Some(id) => exists|i: int|
                spec_output_is_best(outputs@, i, current_id, current, direction) && outputs@[i].0 == id,
            None => forall|i: int| !#[trigger] spec_output_candidate(outputs@, i, current_id, current, direction),
        },
{
    let cc = center_of(current);
    let mut best: Option<(u32, i64)> = None;
    let ghost mut best_index: int = 0;
    let mut k: usize = 0;
    while k < outputs.len()
        invariant
            k <= outputs.len(),
            cc.0 as int == spec_center(current).0 && cc.1 as int == spec_center(current).1,
            match best {
                Some((bid, bd)) => {
                    &&& best_index < k
                    &&& spec_output_candidate(outputs@, best_index, current_id, current, direction)
                    &&& outputs@[best_index].0 == bid
                    &&& bd == spec_output_distance(outputs@, best_index, current)
                    &&& forall|j: int|
                        0 <= j < k && #[trigger] spec_output_candidate(outputs@, j, current_id, current, direction)
                            ==> bd <= spec_output_distance(outputs@, j, current)
                    &&& forall|j: int|
                        0 <= j < best_index && #[trigger] spec_output_candidate(outputs@, j, current_id, current, direction)
                            ==> bd < spec_output_distance(outputs@, j, current)
                },
                None => forall|j: int| 0 <= j < k ==> !#[trigger] spec_output_candidate(outputs@, j, current_id, current, direction),
            },
        decreases outputs.len() - k,
    {
        let (id, rect) = outputs[k];
        if id != current_id {
            if let Some(r) = rect {
                let oc = center_of(r);
                let in_direction = match direction {
                    FocusDirection::Left => oc.0 < cc.0,
                    FocusDirection::Right => oc.0 > cc.0,
                    FocusDirection::Up => oc.1 < cc.1,
                    FocusDirection::Down => oc.1 > cc.1,
                };
                if in_direction {
                    let dx = if cc.0 >= oc.0 { cc.0 - oc.0 } else { oc.0 - cc.0 };
                    let dy = if cc.1 >= oc.1 { cc.1 - oc.1 } else { oc.1 - cc.1 };
                    let distance = dx + dy;
                    let better = match best {
                        Some((_, bd)) => distance < bd,
                        None => true,
                    };
                    if better {
                        best = Some((id, distance));
                        proof {
                            best_index = k as int;
                        }
                    }
                }
            }
        }
        k = k + 1;
    }
    match best {
        Some((bid, _)) => {
            proof {
                assert(spec_output_is_best(outputs@, best_index, current_id, current, direction));
            }
            Some(bid)
        },
        None => None,
    }
}

/// The tree after the first step of a resize command on window `id`: a
/// floating window is resized by `delta_percent` permyriad of the tiling
/// area; a fullscreen window is not resized; otherwise the split above the
/// focused window moves by `delta_ratio` permyriad, toward `direction` when
/// expanding and away from it when shrinking.
pub open spec fn spec_resize_step_on(
    t: LayoutTree,
    id: u32,
    direction: FocusDirection,
    is_expand: bool,
    delta_ratio: i32,
    delta_percent: i32,
) -> (LayoutTree, bool) {
    match t.state_of(id) {
        Some(WindowState::Floating { .. }) => t.after_resize_floating(id, direction, delta_percent, is_expand),
        Some(WindowState::Fullscreen { .. }) => (t, false),
        _ => t.after_resize_ratio(direction, if is_expand { delta_ratio } else { (-delta_ratio) as i32 }),
    }
}

/// Carry out the first step of a resize command (see
/// [`spec_resize_step_on`]); returns whether something was resized.
pub fn resize_step_on(
    tree: &mut LayoutTree,
    id: u32,
    direction: FocusDirection,
    is_expand: bool,
    delta_ratio: i32,
    delta_percent: i32,
) -> (r: bool)
    requires
        old(tree).wf(),
        old(tree).state_of(id) matches Some(s) && s is Floating ==> old(tree).output_rect.width >= 0
            && old(tree).output_rect.height >= 0,
        delta_ratio > i32::MIN,
    ensures
        final(tree).wf(),
        (*final(tree), r) == spec_resize_step_on(*old(tree), id, direction, is_expand, delta_ratio, delta_percent),
{
    if tree.window_is_floating(id) {
        tree.resize_floating_window(id, direction, delta_percent, is_expand)
    } else if tree.window_is_fullscreen(id) {
        false
    } else {
        let delta = if is_expand { delta_ratio } else { -delta_ratio };
        tree.resize_ratio(direction, delta)
    }
}


/// Directional output focus picks the output nearest to the current one:
/// the chosen output's center lies in `direction` from the current center
/// (left of it, right of it, above or below it, y growing downward), at a Manhattan distance `|dx| + |dy|` between centers that is no
/// larger than any other candidate's. A rect's center is its origin plus
/// half its size, rounded toward zero.
pub proof fn law_output_direction_nearest(
    outputs: Seq<(u32, Option<Rect>)>,
    i: int,
    current_id: u32,
    current: Rect,
    direction: FocusDirection,
)
    requires
        spec_output_is_best(outputs, i, current_id, current, direction),
    ensures
        outputs[i].0 != current_id,
        outputs[i].1 is Some,
        ({
            let c = current;
            let a = outputs[i].1->0;
            let (cx, cy) = (c.x + spec_half_trunc(c.width as int), c.y + spec_half_trunc(c.height as int));
            let (ax, ay) = (a.x + spec_half_trunc(a.width as int), a.y + spec_half_trunc(a.height as int));
            match direction {
                FocusDirection::Left => ax < cx,
                FocusDirection::Right => ax > cx,
                FocusDirection::Up => ay < cy,
                FocusDirection::Down => ay > cy,
            }
        }),
        forall|j: int|
            #![trigger spec_output_candidate(outputs, j, current_id, current, direction)]
            spec_output_candidate(outputs, j, current_id, current, direction) ==> {
                let c = current;
                let a = outputs[i].1->0;
                let b = outputs[j].1->0;
                let (cx, cy) = (c.x + spec_half_trunc(c.width as int), c.y + spec_half_trunc(c.height as int));
                vstd::math::abs(cx - (a.x + spec_half_trunc(a.width as int))) + vstd::math::abs(cy - (a.y + spec_half_trunc(a.height as int)))
                    <= vstd::math::abs(cx - (b.x + spec_half_trunc(b.width as int))) + vstd::math::abs(cy - (b.y + spec_half_trunc(b.height as int)))
            },
{
    assert forall|j: int|
        #![trigger spec_output_candidate(outputs, j, current_id, current, direction)]
        spec_output_candidate(outputs, j, current_id, current, direction) implies {
            let c = current;
            let a = outputs[i].1->0;
            let b = outputs[j].1->0;
            let (cx, cy) = (c.x + spec_half_trunc(c.width as int), c.y + spec_half_trunc(c.height as int));
            vstd::math::abs(cx - (a.x + spec_half_trunc(a.width as int))) + vstd::math::abs(cy - (a.y + spec_half_trunc(a.height as int)))
                <= vstd::math::abs(cx - (b.x + spec_half_trunc(b.width as int))) + vstd::math::abs(cy - (b.y + spec_half_trunc(b.height as int)))
        } by {
        assert(spec_output_distance(outputs, i, current) <= spec_output_distance(outputs, j, current));
    }
}

} // verus!
