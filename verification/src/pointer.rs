//! Interactive pointer operations: which edges a drag resizes, the rect a
//! move or resize gives for a cumulative pointer delta, and the protocol
//! steps that start and end an operation.
use crate::geometry::{Rect, spec_clamp, spec_max, spec_sat, sat_i32};
use crate::scene::Effect;
use crate::seat::{InteractiveOp, Seat, SeatId};
use crate::window::{Window, WindowId, spec_apply_hint};
use vstd::prelude::*;

verus! {

/// Edges resized when the pointer or the window geometry is unknown:
/// bottom and right.
pub const DEFAULT_RESIZE_EDGES: u32 = 0b1010;

/// Top edge bit.
pub const EDGE_TOP: u32 = 0b0001;
/// Bottom edge bit.
pub const EDGE_BOTTOM: u32 = 0b0010;
/// Left edge bit.
pub const EDGE_LEFT: u32 = 0b0100;
/// Right edge bit.
pub const EDGE_RIGHT: u32 = 0b1000;

/// The edges a drag at `pointer` resizes: of the window at `local` on an
/// output at `output` (global position = output origin + local position),
/// the left or right edge by the side of the window's horizontal center the
/// pointer is on, and the top or bottom edge likewise.
pub open spec fn spec_resize_edges(pointer: Option<(i32, i32)>, local: Option<Rect>, output: Option<Rect>) -> u32 {
    match (pointer, local, output) {
        (Some((px, py)), Some(l), Some(o)) => {
            let cx = o.x + l.x + crate::geometry::spec_half_trunc(l.width as int);
            let cy = o.y + l.y + crate::geometry::spec_half_trunc(l.height as int);
            let horizontal = if px < cx { EDGE_LEFT } else { EDGE_RIGHT };
            let vertical = if py < cy { EDGE_TOP } else { EDGE_BOTTOM };
            (horizontal | vertical) as u32
        },
        _ => DEFAULT_RESIZE_EDGES,
    }
}

/// Compute the edge bitmask for a drag resize (see [`spec_resize_edges`]).
pub fn compute_resize_edges(pointer: Option<(i32, i32)>, local: Option<Rect>, output: Option<Rect>) -> (r: u32)
    ensures
        r == spec_resize_edges(pointer, local, output),
{
    match (pointer, local, output) {
        (Some((px, py)), Some(l), Some(o)) => {
            let cx = o.x as i64 + l.x as i64 + crate::geometry::half_trunc(l.width as i64);
            let cy = o.y as i64 + l.y as i64 + crate::geometry::half_trunc(l.height as i64);
            let horizontal = if (px as i64) < cx { EDGE_LEFT } else { EDGE_RIGHT };
            let vertical = if (py as i64) < cy { EDGE_TOP } else { EDGE_BOTTOM };
            horizontal | vertical
        },
        _ => DEFAULT_RESIZE_EDGES,
    }
}

/// Whether `edges` holds `bit`.
pub open spec fn spec_has_edge(edges: u32, bit: u32) -> bool {
    edges & bit != 0
}

/// The rect of a drag resize before the output clamp: the grabbed edges
/// move by the delta, the size is clamped by the window's hint (each side
/// at least 1), and a grabbed left or top edge is re-anchored so that the
/// opposite edge stays put.
pub open spec fn spec_resized_drag_rect(initial: Rect, edges: u32, dx: i32, dy: i32, window: Window) -> Rect {
    let w0 = if spec_has_edge(edges, EDGE_RIGHT) { spec_sat(initial.width + dx) } else { initial.width };
    let x1 = if spec_has_edge(edges, EDGE_LEFT) { spec_sat(initial.x + dx) } else { initial.x };
    let w1 = if spec_has_edge(edges, EDGE_LEFT) { spec_sat(initial.width - dx) } else { w0 };
    let h0 = if spec_has_edge(edges, EDGE_BOTTOM) { spec_sat(initial.height + dy) } else { initial.height };
    let y1 = if spec_has_edge(edges, EDGE_TOP) { spec_sat(initial.y + dy) } else { initial.y };
    let h1 = if spec_has_edge(edges, EDGE_TOP) { spec_sat(initial.height - dy) } else { h0 };
    let (hw, hh) = spec_apply_hint(window.dimensions_hint, w1 as int, h1 as int);
    let cw = spec_max(hw, 1);
    let ch = spec_max(hh, 1);
    let x2 = if spec_has_edge(edges, EDGE_LEFT) { spec_sat(initial.x + initial.width - cw) } else { x1 };
    let y2 = if spec_has_edge(edges, EDGE_TOP) { spec_sat(initial.y + initial.height - ch) } else { y1 };
    Rect { x: x2, y: y2, width: cw as i32, height: ch as i32 }
}

/// `rect` kept inside `output` where it fits: its origin is clamped to
/// `[output origin, output far edge - size]`, never before the output
/// origin.
pub open spec fn spec_clamp_to_output(rect: Rect, output: Option<Rect>) -> Rect {
    match output {
        Some(o) => {
            let max_x = spec_sat(o.x + o.width - rect.width);
            let max_y = spec_sat(o.y + o.height - rect.height);
            Rect {
                x: spec_clamp(rect.x as int, o.x as int, spec_max(max_x as int, o.x as int)) as i32,
                y: spec_clamp(rect.y as int, o.y as int, spec_max(max_y as int, o.y as int)) as i32,
                ..rect
            }
        },
        None => rect,
    }
}

/// The window and rect an active operation gives for the cumulative delta
/// `(dx, dy)`: a move (or a resize without edges) translates the initial
/// rect; a resize moves the grabbed edges (see
/// [`spec_resized_drag_rect`]); either is then kept inside the window's
/// output. `None` when no operation is active.
pub open spec fn spec_op_rect(op: InteractiveOp, window: Window, output: Option<Rect>, dx: i32, dy: i32) -> Option<(WindowId, Rect)> {
    let (window_id, edges, initial) = match op {
        InteractiveOp::Move { window_id, initial_rect } => (window_id, 0u32, initial_rect),
        InteractiveOp::Resize { window_id, edges, initial_rect } => (window_id, edges, initial_rect),
        InteractiveOp::Inactive => (WindowId(0), 0u32, crate::layout::spec_zero_rect()),
    };
    if op is Inactive {
        None
    } else {
        let rect = if edges == 0 {
            Rect { x: spec_sat(initial.x + dx), y: spec_sat(initial.y + dy), ..initial }
        } else {
            spec_resized_drag_rect(initial, edges, dx, dy, window)
        };
        Some((window_id, spec_clamp_to_output(rect, output)))
    }
}

fn clamp_to_output(rect: Rect, output: Option<Rect>) -> (r: Rect)
    ensures
        r == spec_clamp_to_output(rect, output),
{
    match output {
        Some(o) => {
            let max_x = sat_i32(o.x as i64 + o.width as i64 - rect.width as i64);
            let max_y = sat_i32(o.y as i64 + o.height as i64 - rect.height as i64);
            let hi_x = if max_x >= o.x { max_x } else { o.x };
            let hi_y = if max_y >= o.y { max_y } else { o.y };
            let x = if rect.x < o.x { o.x } else if rect.x > hi_x { hi_x } else { rect.x };
            let y = if rect.y < o.y { o.y } else if rect.y > hi_y { hi_y } else { rect.y };
            Rect { x, y, width: rect.width, height: rect.height }
        },
        None => rect,
    }
}

/// Compute the rect of an active operation (see [`spec_op_rect`]).
pub fn compute_op_rect(op: &InteractiveOp, window: &Window, output: Option<Rect>, dx: i32, dy: i32) -> (r: Option<(WindowId, Rect)>)
    ensures
        r == spec_op_rect(*op, *window, output, dx, dy),
{
    let (window_id, edges, initial) = match op {
        InteractiveOp::Move { window_id, initial_rect } => (*window_id, 0u32, *initial_rect),
        InteractiveOp::Resize { window_id, edges, initial_rect } => (*window_id, *edges, *initial_rect),
        InteractiveOp::Inactive => return None,
    };
    let rect = if edges == 0 {
        Rect {
            x: sat_i32(initial.x as i64 + dx as i64),
            y: sat_i32(initial.y as i64 + dy as i64),
            width: initial.width,
            height: initial.height,
        }
    } else {
        let right = edges & EDGE_RIGHT != 0;
        let left = edges & EDGE_LEFT != 0;
        let bottom = edges & EDGE_BOTTOM != 0;
        let top = edges & EDGE_TOP != 0;
        let w0 = if right { sat_i32(initial.width as i64 + dx as i64) } else { initial.width };
        let x1 = if left { sat_i32(initial.x as i64 + dx as i64) } else { initial.x };
        let w1 = if left { sat_i32(initial.width as i64 - dx as i64) } else { w0 };
        let h0 = if bottom { sat_i32(initial.height as i64 + dy as i64) } else { initial.height };
        let y1 = if top { sat_i32(initial.y as i64 + dy as i64) } else { initial.y };
        let h1 = if top { sat_i32(initial.height as i64 - dy as i64) } else { h0 };
        let (cw, ch) = window.clamp_dimensions(w1, h1);
        let x2 = if left { sat_i32(initial.x as i64 + initial.width as i64 - cw as i64) } else { x1 };
        let y2 = if top { sat_i32(initial.y as i64 + initial.height as i64 - ch as i64) } else { y1 };
        Rect { x: x2, y: y2, width: cw, height: ch }
    };
    Some((window_id, clamp_to_output(rect, output)))
}

/// The protocol steps that advance a seat's operation, and the seat after
/// them: a recorded operation not yet announced is started (a resize also
/// informs its window); an operation marked as ending is ended (a resize
/// also informs its window) and the seat returns to idle.
pub open spec fn spec_op_transition(seat_id: SeatId, seat: Seat) -> (Seq<Effect>, Seat) {
    let needs_start = !(seat.op is Inactive) && !seat.op_started;
    let needs_end = seat.op_ending;
    let resize_window = match seat.op {
        InteractiveOp::Resize { window_id, .. } => Some(window_id),
        _ => None,
    };
    let start: Seq<Effect> = if needs_start {
        seq![Effect::StartPointerOp { seat_id }] + match resize_window {
            Some(w) => seq![Effect::InformResizeStart { window_id: w }],
            None => Seq::empty(),
        }
    } else {
        Seq::empty()
    };
    let end: Seq<Effect> = if needs_end {
        seq![Effect::EndPointerOp { seat_id }] + match resize_window {
            Some(w) => seq![Effect::InformResizeEnd { window_id: w }],
            None => Seq::empty(),
        }
    } else {
        Seq::empty()
    };
    let started = if needs_start { Seat { op_started: true, ..seat } } else { seat };
    let after = if needs_end {
        Seat { op: InteractiveOp::Inactive, op_started: false, op_ending: false, ..started }
    } else {
        started
    };
    (start + end, after)
}

/// Advance a seat's interactive operation (see [`spec_op_transition`]).
pub fn transition_pointer_op(seat_id: SeatId, seat: &mut Seat) -> (r: Vec<Effect>)
    ensures
        (r@, *final(seat)) == spec_op_transition(seat_id, *old(seat)),
{
    let needs_start = seat.op.is_active() && !seat.op_started;
    let needs_end = seat.op_ending;
    let resize_window = match seat.op {
        InteractiveOp::Resize { window_id, .. } => Some(window_id),
        _ => None,
    };
    let mut effects: Vec<Effect> = Vec::new();
    if needs_start {
        effects.push(Effect::StartPointerOp { seat_id });
        if let Some(w) = resize_window {
            effects.push(Effect::InformResizeStart { window_id: w });
        }
    }
    let ghost mid = effects@;
    if needs_end {
        effects.push(Effect::EndPointerOp { seat_id });
        if let Some(w) = resize_window {
            effects.push(Effect::InformResizeEnd { window_id: w });
        }
    }
    if needs_start {
        seat.op_started = true;
    }
    if needs_end {
        seat.op = InteractiveOp::Inactive;
        seat.op_started = false;
        seat.op_ending = false;
    }
    let ghost spec = spec_op_transition(seat_id, *old(seat));
    assert(effects@ =~= spec.0);
    effects
}

/// Record a new operation on an idle seat: the operation kind of `op`,
/// anchored at `initial_rect`, not yet announced. A busy seat, or an
/// inactive `op`, records nothing.
pub open spec fn spec_start_op(seat: Seat, op: InteractiveOp, initial_rect: Rect) -> Option<Seat> {
    if !(seat.op is Inactive) {
        None
    } else {
        match op {
            InteractiveOp::Move { window_id, .. } => Some(
                Seat {
                    op: InteractiveOp::Move { window_id, initial_rect },
                    op_started: false,
                    op_ending: false,
                    ..seat
                },
            ),
            InteractiveOp::Resize { window_id, edges, .. } => Some(
                Seat {
                    op: InteractiveOp::Resize { window_id, edges, initial_rect },
                    op_started: false,
                    op_ending: false,
                    ..seat
                },
            ),
            InteractiveOp::Inactive => None,
        }
    }
}

/// Record a new operation on an idle seat (see [`spec_start_op`]); returns
/// whether it was recorded.
pub fn start_interactive_op(seat: &mut Seat, op: InteractiveOp, initial_rect: Rect) -> (r: bool)
    ensures
        r == spec_start_op(*old(seat), op, initial_rect).is_some(),
        *final(seat) == match spec_start_op(*old(seat), op, initial_rect) {
            Some(s) => s,
            None => *old(seat),
        },
{
    if seat.op.is_active() {
        return false;
    }
    let recorded = match op {
        InteractiveOp::Move { window_id, .. } => InteractiveOp::Move { window_id, initial_rect },
        InteractiveOp::Resize { window_id, edges, .. } => InteractiveOp::Resize { window_id, edges, initial_rect },
        InteractiveOp::Inactive => return false,
    };
    seat.op = recorded;
    seat.op_started = false;
    seat.op_ending = false;
    true
}

/// Drop an operation that targets a closed window: the seat returns to idle
/// and forgets its pending floating rect; other seats are left alone.
pub fn cancel_op_for_window(seat: &mut Seat, window_id: WindowId)
    ensures
        *final(seat) == (if old(seat).op.spec_window_id() == Some(window_id) {
            Seat {
                op: InteractiveOp::Inactive,
                op_started: false,
                op_ending: false,
                pending_float: None,
                ..*old(seat)
            }
        } else {
            *old(seat)
        }),
{
    let targets = match seat.op.window_id() {
        Some(w) => w.0 == window_id.0,
        None => false,
    };
    if targets {
        seat.op = InteractiveOp::Inactive;
        seat.op_started = false;
        seat.op_ending = false;
        seat.pending_float = None;
    }
}


/// Which bits the four corner combinations of resize edges hold.
proof fn lemma_edge_bits()
    by (bit_vector)
    ensures
        (4u32 | 1u32) & 4u32 != 0 && (4u32 | 1u32) & 8u32 == 0 && (4u32 | 1u32) & 1u32 != 0 && (4u32 | 1u32) & 2u32 == 0,
        (4u32 | 2u32) & 4u32 != 0 && (4u32 | 2u32) & 8u32 == 0 && (4u32 | 2u32) & 1u32 == 0 && (4u32 | 2u32) & 2u32 != 0,
        (8u32 | 1u32) & 4u32 == 0 && (8u32 | 1u32) & 8u32 != 0 && (8u32 | 1u32) & 1u32 != 0 && (8u32 | 1u32) & 2u32 == 0,
        (8u32 | 2u32) & 4u32 == 0 && (8u32 | 2u32) & 8u32 != 0 && (8u32 | 2u32) & 1u32 == 0 && (8u32 | 2u32) & 2u32 != 0,
{
}

/// A drag resize grabs the edges on the pointer's side of the window's
/// center in global coordinates (the output's origin plus the window's
/// local rect): exactly one of the left and right edges, the left one
/// exactly when the pointer is left of `o.x + l.x + l.width / 2` (halves
/// rounded toward zero), and exactly one of the top and bottom edges, the
/// top one exactly when the pointer is above `o.y + l.y + l.height / 2`. So
/// moving the pointer and the output by the same offset grabs the same
/// edges.
pub proof fn law_resize_edges_follow_global_center(px: i32, py: i32, l: Rect, o: Rect, dx: i32, dy: i32)
    requires
        i32::MIN <= px + dx <= i32::MAX,
        i32::MIN <= py + dy <= i32::MAX,
        i32::MIN <= o.x + dx <= i32::MAX,
        i32::MIN <= o.y + dy <= i32::MAX,
    ensures
        ({
            let e = spec_resize_edges(Some((px, py)), Some(l), Some(o));
            &&& spec_has_edge(e, EDGE_LEFT) != spec_has_edge(e, EDGE_RIGHT)
            &&& spec_has_edge(e, EDGE_TOP) != spec_has_edge(e, EDGE_BOTTOM)
            &&& spec_has_edge(e, EDGE_LEFT) == (px < o.x + l.x + crate::geometry::spec_half_trunc(l.width as int))
            &&& spec_has_edge(e, EDGE_TOP) == (py < o.y + l.y + crate::geometry::spec_half_trunc(l.height as int))
            &&& spec_resize_edges(
                Some(((px + dx) as i32, (py + dy) as i32)),
                Some(l),
                Some(Rect { x: (o.x + dx) as i32, y: (o.y + dy) as i32, ..o }),
            ) == e
        }),
{
    lemma_edge_bits();
    assert(EDGE_LEFT == 4 && EDGE_RIGHT == 8 && EDGE_TOP == 1 && EDGE_BOTTOM == 2);
}

} // verus!
