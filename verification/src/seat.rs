//! Per-seat state: layer-shell keyboard focus and the interactive pointer
//! operation (move / resize) in progress.
use crate::geometry::Rect;
use crate::window::WindowId;
use vstd::prelude::*;

verus! {

/// Stable identifier for a seat.
#[derive(Debug, Clone, Copy, PartialEq, Eq, PartialOrd, Ord, Hash, Structural)]
pub struct SeatId(pub u32);

/// State of an interactive pointer operation. While active, the deltas the
/// compositor reports are totals since the operation started and apply to
/// `initial_rect`.
#[derive(Debug, Clone, Copy, PartialEq, Eq, Structural)]
pub enum InteractiveOp {
    /// No interactive pointer operation is in progress for this seat.
    Inactive,
    /// The window is being moved.
    Move { window_id: WindowId, initial_rect: Rect },
    /// The window is being resized; `edges` is the bitmask of grabbed borders.
    Resize { window_id: WindowId, edges: u32, initial_rect: Rect },
}

impl InteractiveOp {
    /// The window targeted by an operation, if any.
    pub open spec fn spec_window_id(self) -> Option<WindowId> {
        match self {
            InteractiveOp::Inactive => None,
            InteractiveOp::Move { window_id, .. } => Some(window_id),
            InteractiveOp::Resize { window_id, .. } => Some(window_id),
        }
    }

    /// The window this op targets, if any.
    pub fn window_id(&self) -> (r: Option<WindowId>)
        ensures
            r == self.spec_window_id(),
    {
        match self {
            InteractiveOp::Inactive => None,
            InteractiveOp::Move { window_id, .. } => Some(*window_id),
            InteractiveOp::Resize { window_id, .. } => Some(*window_id),
        }
    }

    /// Whether an operation of any kind is active.
    pub fn is_active(&self) -> (r: bool)
        ensures
            r == !(*self is Inactive),
            r == self.spec_window_id().is_some(),
    {
        match self {
            InteractiveOp::Inactive => false,
            _ => true,
        }
    }
}

/// Which kind of layer-shell keyboard focus is active for a seat.
#[derive(Debug, Clone, Copy, PartialEq, Eq, Structural)]
pub enum LayerShellFocus {
    /// No layer surface has focus; the window manager controls focus.
    NoFocus,
    /// A layer surface has non-exclusive focus; focus may still move.
    NonExclusive,
    /// A layer surface has exclusive focus; focus changes are ignored.
    Exclusive,
}

/// Runtime state for a seat.
#[derive(Debug, Clone, Copy)]
pub struct Seat {
    /// Which kind of layer-shell keyboard focus is active.
    pub layer_shell_focus: LayerShellFocus,
    /// Global name of the matching `wl_seat`.
    pub wl_seat_name: u32,
    /// Last known pointer position.
    pub pointer_position: Option<(i32, i32)>,
    /// Active interactive pointer operation.
    pub op: InteractiveOp,
    /// Whether the operation has been announced to the compositor.
    pub op_started: bool,
    /// Whether the operation is to be ended on the next manage sequence.
    pub op_ending: bool,
    /// Floating rect waiting to be applied to the layout tree.
    pub pending_float: Option<(WindowId, Rect)>,
}

impl Seat {
    /// Create a new seat record with nothing in progress.
    pub fn new() -> (r: Seat)
        ensures
            r.layer_shell_focus == LayerShellFocus::NoFocus,
            r.wl_seat_name == 0,
            r.pointer_position is None,
            r.op == InteractiveOp::Inactive,
            !r.op_started,
            !r.op_ending,
            r.pending_float is None,
    {
        Seat {
            layer_shell_focus: LayerShellFocus::NoFocus,
            wl_seat_name: 0,
            pointer_position: None,
            op: InteractiveOp::Inactive,
            op_started: false,
            op_ending: false,
            pending_float: None,
        }
    }
}

} // verus!
