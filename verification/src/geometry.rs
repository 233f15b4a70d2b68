//! Rectangles, directions and window states shared by the layout engine and
//! the window model.
//!
//! Coordinates are `i32` pixels. Edge and distance computations are carried
//! out on mathematical integers (`i64` at run time), so they never wrap; any
//! coordinate that is stored back into a `Rect` saturates at the `i32` range.
use vstd::prelude::*;

verus! {

/// Axis along which a split divides its two children.
#[derive(Debug, Clone, Copy, PartialEq, Eq, Structural)]
pub enum SplitDirection {
    Vertical,
    Horizontal,
}

/// Direction used for focus navigation, window moves, and resizes.
#[derive(Debug, Clone, Copy, PartialEq, Eq, Structural, Hash)]
pub enum FocusDirection {
    Left,
    Right,
    Up,
    Down,
}

/// An axis-aligned rectangle in logical pixels.
#[derive(Debug, Clone, Copy, PartialEq, Eq, Structural)]
pub struct Rect {
    pub x: i32,
    pub y: i32,
    pub width: i32,
    pub height: i32,
}

/// Window layout state. `Floating` / `PseudoTiled` carry the window's own
/// rect; `Fullscreen` keeps the state to return to in `restore`.
#[derive(Debug, PartialEq, Eq)]
pub enum WindowState {
    Tiled,
    Floating { rect: Rect },
    PseudoTiled { rect: Rect },
    Fullscreen { restore: Box<WindowState> },
}

/// Saturate a mathematical integer into the `i32` range.
pub open spec fn spec_sat(v: int) -> i32 {
    if v < i32::MIN {
        i32::MIN
    } else if v > i32::MAX {
        i32::MAX
    } else {
        v as i32
    }
}

/// Division by two rounding toward zero, as Rust's `/` does on signed integers.
pub open spec fn spec_half_trunc(v: int) -> int {
    if v >= 0 {
        v / 2
    } else {
        -((-v) / 2)
    }
}

/// Clamp `v` into `[lo, hi]` (with `lo <= hi`).
pub open spec fn spec_clamp(v: int, lo: int, hi: int) -> int {
    if v < lo {
        lo
    } else if v > hi {
        hi
    } else {
        v
    }
}

pub open spec fn spec_max(a: int, b: int) -> int {
    if a >= b {
        a
    } else {
        b
    }
}

pub open spec fn spec_min(a: int, b: int) -> int {
    if a <= b {
        a
    } else {
        b
    }
}

/// Saturate an `i64` into `i32`.
pub fn sat_i32(v: i64) -> (r: i32)
    ensures
        r == spec_sat(v as int),
{
    if v < i32::MIN as i64 {
        i32::MIN
    } else if v > i32::MAX as i64 {
        i32::MAX
    } else {
        v as i32
    }
}

/// Signed halving that rounds toward zero.
pub fn half_trunc(v: i64) -> (r: i64)
    requires
        v > i64::MIN,
    ensures
        r == spec_half_trunc(v as int),
{
    if v >= 0 {
        v / 2
    } else {
        -((-v) / 2)
    }
}

pub open spec fn spec_rect(x: int, y: int, width: int, height: int) -> Rect {
    Rect { x: spec_sat(x), y: spec_sat(y), width: spec_sat(width), height: spec_sat(height) }
}

impl Rect {
    /// Construct a rectangle from its position and size components.
    pub fn new(x: i32, y: i32, width: i32, height: i32) -> (r: Rect)
        ensures
            r == (Rect { x, y, width, height }),
    {
        Rect { x, y, width, height }
    }

    pub open spec fn spec_right_edge(self) -> int {
        self.x + self.width
    }

    pub open spec fn spec_bottom_edge(self) -> int {
        self.y + self.height
    }

    pub open spec fn spec_horizontal_overlap(self, other: Rect) -> bool {
        self.x <= other.spec_right_edge() && other.x <= self.spec_right_edge()
    }

    pub open spec fn spec_vertical_overlap(self, other: Rect) -> bool {
        self.y <= other.spec_bottom_edge() && other.y <= self.spec_bottom_edge()
    }

    pub open spec fn spec_is_right_of(self, other: Rect) -> bool {
        self.x >= other.spec_right_edge() && self.spec_vertical_overlap(other)
    }

    pub open spec fn spec_is_left_of(self, other: Rect) -> bool {
        self.spec_right_edge() <= other.x && self.spec_vertical_overlap(other)
    }

    pub open spec fn spec_is_below(self, other: Rect) -> bool {
        self.y >= other.spec_bottom_edge() && self.spec_horizontal_overlap(other)
    }

    pub open spec fn spec_is_above(self, other: Rect) -> bool {
        self.spec_bottom_edge() <= other.y && self.spec_horizontal_overlap(other)
    }

    /// Whether `self` lies strictly on the `direction` side of `other`.
    pub open spec fn spec_is_side_of(self, other: Rect, direction: FocusDirection) -> bool {
        match direction {
            FocusDirection::Right => self.spec_is_right_of(other),
            FocusDirection::Left => self.spec_is_left_of(other),
            FocusDirection::Down => self.spec_is_below(other),
            FocusDirection::Up => self.spec_is_above(other),
        }
    }

    /// Gap between `other`'s edge and `self`'s facing edge in `direction`.
    pub open spec fn spec_distance_from(self, other: Rect, direction: FocusDirection) -> int {
        match direction {
            FocusDirection::Right => self.x - other.spec_right_edge(),
            FocusDirection::Left => other.x - self.spec_right_edge(),
            FocusDirection::Down => self.y - other.spec_bottom_edge(),
            FocusDirection::Up => other.y - self.spec_bottom_edge(),
        }
    }

    /// `x + width`, computed without wrapping.
    pub fn right_edge(self) -> (r: i64)
        ensures
            r == self.spec_right_edge(),
    {
        self.x as i64 + self.width as i64
    }

    /// `y + height`, computed without wrapping.
    pub fn bottom_edge(self) -> (r: i64)
        ensures
            r == self.spec_bottom_edge(),
    {
        self.y as i64 + self.height as i64
    }

    pub fn horizontal_overlap(self, other: Rect) -> (r: bool)
        ensures
            r == self.spec_horizontal_overlap(other),
    {
        self.x as i64 <= other.right_edge() && other.x as i64 <= self.right_edge()
    }

    pub fn vertical_overlap(self, other: Rect) -> (r: bool)
        ensures
            r == self.spec_vertical_overlap(other),
    {
        self.y as i64 <= other.bottom_edge() && other.y as i64 <= self.bottom_edge()
    }

    pub fn is_right_of(self, other: Rect) -> (r: bool)
        ensures
            r == self.spec_is_right_of(other),
    {
        self.x as i64 >= other.right_edge() && self.vertical_overlap(other)
    }

    pub fn is_left_of(self, other: Rect) -> (r: bool)
        ensures
            r == self.spec_is_left_of(other),
    {
        self.right_edge() <= other.x as i64 && self.vertical_overlap(other)
    }

    pub fn is_below(self, other: Rect) -> (r: bool)
        ensures
            r == self.spec_is_below(other),
    {
        self.y as i64 >= other.bottom_edge() && self.horizontal_overlap(other)
    }

    pub fn is_above(self, other: Rect) -> (r: bool)
        ensures
            r == self.spec_is_above(other),
    {
        self.bottom_edge() <= other.y as i64 && self.horizontal_overlap(other)
    }

    pub fn is_side_of(self, other: Rect, direction: FocusDirection) -> (r: bool)
        ensures
            r == self.spec_is_side_of(other, direction),
    {
        match direction {
            FocusDirection::Right => self.is_right_of(other),
            FocusDirection::Left => self.is_left_of(other),
            FocusDirection::Down => self.is_below(other),
            FocusDirection::Up => self.is_above(other),
        }
    }

    pub fn distance_from(self, other: Rect, direction: FocusDirection) -> (r: i64)
        ensures
            r == self.spec_distance_from(other, direction),
    {
        match direction {
            FocusDirection::Right => self.x as i64 - other.right_edge(),
            FocusDirection::Left => other.x as i64 - self.right_edge(),
            FocusDirection::Down => self.y as i64 - other.bottom_edge(),
            FocusDirection::Up => other.y as i64 - self.bottom_edge(),
        }
    }
}

/// Tiled and pseudo-tiled windows take part in tiling; floating and
/// fullscreen windows do not.
pub open spec fn spec_participates_in_tiling(state: WindowState) -> bool {
    state is Tiled || state is PseudoTiled
}

impl WindowState {
    pub fn participates_in_tiling(&self) -> (r: bool)
        ensures
            r == spec_participates_in_tiling(*self),
    {
        match self {
            WindowState::Tiled | WindowState::PseudoTiled { .. } => true,
            _ => false,
        }
    }

    pub fn is_floating(&self) -> (r: bool)
        ensures
            r == (*self is Floating),
    {
        match self {
            WindowState::Floating { .. } => true,
            _ => false,
        }
    }

    pub fn is_fullscreen(&self) -> (r: bool)
        ensures
            r == (*self is Fullscreen),
    {
        match self {
            WindowState::Fullscreen { .. } => true,
            _ => false,
        }
    }
}

/// A copy of a window state.
pub fn clone_state(s: &WindowState) -> (r: WindowState)
    ensures
        r == *s,
    decreases s,
{
    match s {
        WindowState::Tiled => WindowState::Tiled,
        WindowState::Floating { rect } => WindowState::Floating { rect: *rect },
        WindowState::PseudoTiled { rect } => WindowState::PseudoTiled { rect: *rect },
        WindowState::Fullscreen { restore } => {
            let inner = clone_state(restore);
            WindowState::Fullscreen { restore: Box::new(inner) }
        },
    }
}

/// Whether two window states are equal.
pub fn state_eq(a: &WindowState, b: &WindowState) -> (r: bool)
    ensures
        r == (*a == *b),
    decreases a,
{
    match (a, b) {
        (WindowState::Tiled, WindowState::Tiled) => true,
        (WindowState::Floating { rect: x }, WindowState::Floating { rect: y }) => x.x == y.x && x.y == y.y
            && x.width == y.width && x.height == y.height,
        (WindowState::PseudoTiled { rect: x }, WindowState::PseudoTiled { rect: y }) => x.x == y.x && x.y
            == y.y && x.width == y.width && x.height == y.height,
        (WindowState::Fullscreen { restore: x }, WindowState::Fullscreen { restore: y }) => state_eq(
            &**x,
            &**y,
        ),
        _ => false,
    }
}

/// Whether two optional window states are equal.
pub fn opt_state_eq(a: Option<&WindowState>, b: Option<&WindowState>) -> (r: bool)
    ensures
        r == (match (a, b) {
            (Some(x), Some(y)) => *x == *y,
            (None, None) => true,
            _ => false,
        }),
{
    match (a, b) {
        (Some(x), Some(y)) => state_eq(x, y),
        (None, None) => true,
        _ => false,
    }
}

impl Clone for WindowState {
    fn clone(&self) -> (r: Self)
        ensures
            r == *self,
    {
        clone_state(self)
    }
}

/// `size` centered inside `slot`, with each side clamped to `[1, max(slot side, 1)]`.
pub open spec fn spec_capped_rect(slot: Rect, size: Rect) -> Rect {
    let width = spec_clamp(size.width as int, 1, spec_max(slot.width as int, 1));
    let height = spec_clamp(size.height as int, 1, spec_max(slot.height as int, 1));
    spec_rect(
        slot.x + spec_half_trunc(slot.width - width),
        slot.y + spec_half_trunc(slot.height - height),
        width,
        height,
    )
}

/// Center a size within a slot rectangle while respecting minimum dimensions.
pub fn capped_rect(slot: Rect, size: Rect) -> (r: Rect)
    ensures
        r == spec_capped_rect(slot, size),
{
    let max_w: i64 = if slot.width >= 1 { slot.width as i64 } else { 1 };
    let max_h: i64 = if slot.height >= 1 { slot.height as i64 } else { 1 };
    let sw = size.width as i64;
    let sh = size.height as i64;
    let width: i64 = if sw < 1 { 1 } else if sw > max_w { max_w } else { sw };
    let height: i64 = if sh < 1 { 1 } else if sh > max_h { max_h } else { sh };
    let x = slot.x as i64 + half_trunc(slot.width as i64 - width);
    let y = slot.y as i64 + half_trunc(slot.height as i64 - height);
    Rect { x: sat_i32(x), y: sat_i32(y), width: sat_i32(width), height: sat_i32(height) }
}

} // verus!
