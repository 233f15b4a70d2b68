//! Per-window state the window manager keeps besides the layout tree, and
//! the sizing rules for floating and pseudo-tiled windows.
//!
//! Ratios are given in permyriad (1/10000): `5000` is one half.
use crate::geometry::{Rect, capped_rect, spec_capped_rect};
use crate::output::OutputId;
use vstd::prelude::*;

verus! {

/// Stable identifier for a window.
#[derive(Debug, Clone, Copy, PartialEq, Eq, Hash, Structural)]
pub struct WindowId(pub u32);

/// Width and height in logical pixels.
#[derive(Debug, Clone, Copy, PartialEq, Eq, Structural)]
pub struct Dimensions {
    pub width: i32,
    pub height: i32,
}

/// Client-provided size constraints; 0 on an axis means "unconstrained".
#[derive(Debug, Clone, Copy, PartialEq, Eq, Structural)]
pub struct DimensionsHint {
    pub min_width: i32,
    pub min_height: i32,
    pub max_width: i32,
    pub max_height: i32,
}

/// Runtime state for a window.
#[derive(Debug, Clone)]
pub struct Window {
    /// Internal window identifier.
    pub id: WindowId,
    /// Output on which this window lives.
    pub output_id: OutputId,
    /// Parent window, if any.
    pub parent: Option<WindowId>,
    /// Application ID reported by the compositor.
    pub app_id: Option<String>,
    /// Window title reported by the compositor.
    pub title: Option<String>,
    /// Whether window rules have been applied to this window.
    pub rules_applied: bool,
    /// Process ID reported by the compositor.
    pub pid: i32,
    /// Desired layout rectangle.
    pub layout_rect: Option<Rect>,
    /// Current size hints.
    pub dimensions_hint: DimensionsHint,
    /// Last decoration hint: 0 server-side, 1 client-side, other/none no preference.
    pub decoration_hint: Option<u32>,
}

/// Smallest default size of a floating / pseudo-tiled window that has not
/// reported its own size, capped to the output.
pub const MIN_FLOAT_SIZE: i32 = 320;

/// `v` scaled by a permyriad ratio and rounded half away from zero.
pub open spec fn spec_scale_round(v: int, ratio: int) -> int {
    if v >= 0 {
        (v * ratio + 5000) / 10000
    } else {
        -(((-v) * ratio + 5000) / 10000)
    }
}

/// Default size along one axis of an output side `dim`: the scaled size,
/// at least [`MIN_FLOAT_SIZE`], at most `max(dim, 1)`.
pub open spec fn spec_size_for(dim: int, ratio: int) -> int {
    let raw = crate::geometry::spec_max(spec_scale_round(dim, ratio), MIN_FLOAT_SIZE as int);
    crate::geometry::spec_min(raw, crate::geometry::spec_max(dim, 1))
}

/// A proposed size clamped into the hint's `[min, max]` per axis (zero
/// bounds ignored), each side at least 1 first.
pub open spec fn spec_apply_hint(hint: DimensionsHint, width: int, height: int) -> (int, int) {
    let w0 = crate::geometry::spec_max(width, 1);
    let h0 = crate::geometry::spec_max(height, 1);
    let w1 = if hint.min_width > 0 { crate::geometry::spec_max(w0, hint.min_width as int) } else { w0 };
    let h1 = if hint.min_height > 0 { crate::geometry::spec_max(h0, hint.min_height as int) } else { h0 };
    let w2 = if hint.max_width > 0 { crate::geometry::spec_min(w1, hint.max_width as int) } else { w1 };
    let h2 = if hint.max_height > 0 { crate::geometry::spec_min(h1, hint.max_height as int) } else { h1 };
    (w2, h2)
}

/// Preferred size of a floating / pseudo-tiled window: the ratio of the
/// fallback rect's size, floored and capped, then clamped by the hint.
pub open spec fn spec_preferred_dimensions(hint: DimensionsHint, fallback: Rect, ratio: int) -> (int, int) {
    let w = crate::geometry::spec_max(spec_size_for(fallback.width as int, ratio), 1);
    let h = crate::geometry::spec_max(spec_size_for(fallback.height as int, ratio), 1);
    let (hw, hh) = spec_apply_hint(hint, w, h);
    (crate::geometry::spec_max(hw, 1), crate::geometry::spec_max(hh, 1))
}

fn scale_round(v: i32, ratio: u32) -> (r: i64)
    ensures
        r == spec_scale_round(v as int, ratio as int),
{
    let vv = v as i128;
    let rr = ratio as i128;
    let a: i128 = if vv >= 0 { vv } else { -vv };
    assert(0 <= a * rr <= 0x8000_0000 * 0xffff_ffff) by (nonlinear_arith)
        requires
            0 <= a <= 0x8000_0000,
            0 <= rr <= 0xffff_ffff,
    ;
    let q: i128 = (a * rr + 5000) / 10000;
    assert(q <= 0x8000_0000 * 0xffff_ffff);
    if vv >= 0 {
        q as i64
    } else {
        (-q) as i64
    }
}

fn size_for(dim: i32, ratio: u32) -> (r: i64)
    ensures
        r == spec_size_for(dim as int, ratio as int),
{
    let raw = scale_round(dim, ratio);
    let floored: i64 = if raw >= MIN_FLOAT_SIZE as i64 { raw } else { MIN_FLOAT_SIZE as i64 };
    let cap: i64 = if dim >= 1 { dim as i64 } else { 1 };
    if floored <= cap { floored } else { cap }
}

impl Window {
    /// Create a new window record.
    pub fn new(id: WindowId, output_id: OutputId) -> (r: Window)
        ensures
            r.id == id,
            r.output_id == output_id,
            r.parent is None,
            r.app_id is None,
            r.title is None,
            !r.rules_applied,
            r.pid == 0,
            r.layout_rect is None,
            r.dimensions_hint == (DimensionsHint { min_width: 0, min_height: 0, max_width: 0, max_height: 0 }),
            r.decoration_hint is None,
    {
        Window {
            id,
            output_id,
            parent: None,
            app_id: None,
            title: None,
            rules_applied: false,
            pid: 0,
            layout_rect: None,
            dimensions_hint: DimensionsHint { min_width: 0, min_height: 0, max_width: 0, max_height: 0 },
            decoration_hint: None,
        }
    }

    /// Update this window's desired layout rectangle.
    pub fn set_layout_rect(&mut self, rect: Rect)
        ensures
            *final(self) == (Window { layout_rect: Some(rect), ..*old(self) }),
    {
        self.layout_rect = Some(rect);
    }

    /// Update this window's output id.
    pub fn set_output_id(&mut self, output_id: OutputId)
        ensures
            *final(self) == (Window { output_id, ..*old(self) }),
    {
        self.output_id = output_id;
    }

    /// Record the client's size constraints.
    pub fn set_dimensions_hint(&mut self, min_width: i32, min_height: i32, max_width: i32, max_height: i32)
        ensures
            *final(self) == (Window {
                dimensions_hint: DimensionsHint { min_width, min_height, max_width, max_height },
                ..*old(self)
            }),
    {
        self.dimensions_hint = DimensionsHint { min_width, min_height, max_width, max_height };
    }

    /// Apply the size hint to a proposed size (see [`spec_apply_hint`]).
    pub fn apply_dimensions_hint(&self, width: i32, height: i32) -> (r: (i32, i32))
        ensures
            (r.0 as int, r.1 as int) == spec_apply_hint(self.dimensions_hint, width as int, height as int),
    {
        let hint = self.dimensions_hint;
        let mut w = if width >= 1 { width } else { 1 };
        let mut h = if height >= 1 { height } else { 1 };
        if hint.min_width > 0 && hint.min_width > w {
            w = hint.min_width;
        }
        if hint.min_height > 0 && hint.min_height > h {
            h = hint.min_height;
        }
        if hint.max_width > 0 && hint.max_width < w {
            w = hint.max_width;
        }
        if hint.max_height > 0 && hint.max_height < h {
            h = hint.max_height;
        }
        (w, h)
    }

    /// Clamp a proposed size to the hint, each side at least 1.
    pub fn clamp_dimensions(&self, width: i32, height: i32) -> (r: (i32, i32))
        ensures
            r.0 as int == crate::geometry::spec_max(spec_apply_hint(self.dimensions_hint, width as int, height as int).0, 1),
            r.1 as int == crate::geometry::spec_max(spec_apply_hint(self.dimensions_hint, width as int, height as int).1, 1),
    {
        let (w, h) = self.apply_dimensions_hint(width, height);
        (if w >= 1 { w } else { 1 }, if h >= 1 { h } else { 1 })
    }

    /// Preferred size of a floating / pseudo-tiled window for a fallback
    /// rect and a permyriad ratio (see [`spec_preferred_dimensions`]).
    pub fn preferred_dimensions(&self, fallback: Rect, ratio: u32) -> (r: (i32, i32))
        ensures
            (r.0 as int, r.1 as int) == spec_preferred_dimensions(self.dimensions_hint, fallback, ratio as int),
    {
        let w64 = size_for(fallback.width, ratio);
        let h64 = size_for(fallback.height, ratio);
        let width: i32 = if w64 >= 1 { w64 as i32 } else { 1 };
        let height: i32 = if h64 >= 1 { h64 as i32 } else { 1 };
        let (w, h) = self.apply_dimensions_hint(width, height);
        (if w >= 1 { w } else { 1 }, if h >= 1 { h } else { 1 })
    }

    /// The rect of a pseudo-tiled window: its preferred size, centered in
    /// `layout_rect` when the window has been arranged, else in `fallback`.
    pub open spec fn spec_pseudo_tiled_rect(self, fallback: Rect, ratio: int) -> Rect {
        let (w, h) = spec_preferred_dimensions(self.dimensions_hint, fallback, ratio);
        let center_in = match self.layout_rect {
            Some(l) => l,
            None => fallback,
        };
        spec_capped_rect(center_in, Rect { x: 0, y: 0, width: w as i32, height: h as i32 })
    }

    /// The rect of a pseudo-tiled window (see
    /// [`Window::spec_pseudo_tiled_rect`]).
    pub fn pseudo_tiled_rect(&self, fallback: Rect, ratio: u32) -> (r: Rect)
        ensures
            r == self.spec_pseudo_tiled_rect(fallback, ratio as int),
    {
        let (width, height) = self.preferred_dimensions(fallback, ratio);
        let size = Rect::new(0, 0, width, height);
        let center_in = match self.layout_rect {
            Some(l) => l,
            None => fallback,
        };
        capped_rect(center_in, size)
    }

    /// Whether the client draws its own decorations: as its hint says (1
    /// client-side, 0 server-side), else as `fallback_decorations` says.
    pub open spec fn spec_use_client_decorations(self, fallback_decorations: bool) -> bool {
        match self.decoration_hint {
            Some(1) => true,
            Some(0) => false,
            _ => fallback_decorations,
        }
    }

    /// Whether this window should draw its own decorations (see
    /// [`Window::spec_use_client_decorations`]).
    pub fn use_client_decorations(&self, fallback_decorations: bool) -> (r: bool)
        ensures
            r == self.spec_use_client_decorations(fallback_decorations),
    {
        match self.decoration_hint {
            Some(1) => true,
            Some(0) => false,
            _ => fallback_decorations,
        }
    }
}

} // verus!
