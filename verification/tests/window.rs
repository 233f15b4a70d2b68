use fenestre::geometry::Rect;
use fenestre::output::OutputId;
use fenestre::window::{Window, WindowId};

#[test]
fn preferred_dimensions_ratio_scales_fallback() {
    let window = Window::new(WindowId(1), OutputId(1));
    let rect = Rect::new(0, 0, 1000, 800);
    let (w, h) = window.preferred_dimensions(rect, 5000);
    assert_eq!((w, h), (500, 400));
}

#[test]
fn preferred_dimensions_min_floor_on_tiny_output() {
    let window = Window::new(WindowId(1), OutputId(1));
    // 200x200 fallback with half ratio would yield 100x100, but MIN_FLOAT_SIZE=320
    // floors it. The cap also limits to the fallback size.
    let rect = Rect::new(0, 0, 200, 200);
    let (w, h) = window.preferred_dimensions(rect, 5000);
    assert_eq!((w, h), (200, 200));
}

#[test]
fn preferred_dimensions_min_width_hint_overrides_ratio() {
    let mut window = Window::new(WindowId(1), OutputId(1));
    window.dimensions_hint.min_width = 500;
    // tenth ratio on 1000-wide fallback gives 100, but min_width forces 500.
    let rect = Rect::new(0, 0, 1000, 800);
    let (w, _h) = window.preferred_dimensions(rect, 1000);
    assert_eq!(w, 500);
}

#[test]
fn preferred_dimensions_max_width_hint_caps_ratio() {
    let mut window = Window::new(WindowId(1), OutputId(1));
    window.dimensions_hint.max_width = 200;
    // half ratio on 1000-wide fallback gives 500, but max_width caps at 200.
    let rect = Rect::new(0, 0, 1000, 800);
    let (w, _h) = window.preferred_dimensions(rect, 5000);
    assert_eq!(w, 200);
}

#[test]
fn preferred_dimensions_ratio_one_uses_full_fallback() {
    let window = Window::new(WindowId(1), OutputId(1));
    let rect = Rect::new(0, 0, 800, 600);
    let (w, h) = window.preferred_dimensions(rect, 10000);
    assert_eq!((w, h), (800, 600));
}

#[test]
fn preferred_dimensions_ratio_zero_hits_min_floor() {
    let window = Window::new(WindowId(1), OutputId(1));
    let rect = Rect::new(0, 0, 1000, 800);
    let (w, h) = window.preferred_dimensions(rect, 0);
    assert_eq!((w, h), (320, 320));
}

#[test]
fn pseudo_tiled_rect_centers_in_fallback() {
    let window = Window::new(WindowId(1), OutputId(1));
    let rect = Rect::new(0, 0, 1000, 800);
    let r = window.pseudo_tiled_rect(rect, 5000);
    // 500x400 window centered in 1000x800 slot.
    assert_eq!(r, Rect::new(250, 200, 500, 400));
}

#[test]
fn pseudo_tiled_rect_centers_in_layout_rect() {
    let mut window = Window::new(WindowId(1), OutputId(1));
    window.set_layout_rect(Rect::new(100, 100, 800, 600));
    let fallback = Rect::new(0, 0, 1000, 800);
    let r = window.pseudo_tiled_rect(fallback, 5000);
    // Ratio-sized 500x400 (from the output fallback), centered inside
    // layout_rect (which is used only for positioning).
    assert_eq!(r, Rect::new(250, 200, 500, 400));
}

#[test]
fn preferred_dimensions_hints_clamp_ratio_base() {
    // A window that reports genuine size hints has the ratio-based base
    // clamped into [min, max] on each axis.
    let mut window = Window::new(WindowId(1), OutputId(1));
    window.set_dimensions_hint(600, 0, 0, 300);
    let rect = Rect::new(0, 0, 1000, 800);
    // width: base 500 -> min 600 lifts it to 600.
    // height: base 400 -> max 300 caps it to 300.
    let (w, h) = window.preferred_dimensions(rect, 5000);
    assert_eq!((w, h), (600, 300));
}

#[test]
fn pseudo_tiled_rect_caps_size_to_slot() {
    let window = Window::new(WindowId(1), OutputId(1));
    // full ratio on 300x200 fallback gives 300x200, capped_rect keeps it.
    let rect = Rect::new(0, 0, 300, 200);
    let r = window.pseudo_tiled_rect(rect, 10000);
    assert_eq!(r, Rect::new(0, 0, 300, 200));
}

#[test]
fn pseudo_tiled_rect_does_not_rescale_arranged_window() {
    // A window that has already been arranged (layout_rect set from a
    // previous manage cycle) must keep its established size when toggled
    // or reassigned; the ratio must size from the OUTPUT rect, not be
    // re-applied to the already-ratio-scaled layout_rect.
    let mut window = Window::new(WindowId(1), OutputId(1));
    // 500x400 is exactly ratio(5000) * output(1000x800) — the expected size.
    window.set_layout_rect(Rect::new(100, 100, 500, 400));
    let output = Rect::new(0, 0, 1000, 800);
    let r = window.pseudo_tiled_rect(output, 5000);
    // Size must remain 500x400 (not shrink to the MIN_FLOAT_SIZE floor).
    assert_eq!((r.width, r.height), (500, 400));
}
