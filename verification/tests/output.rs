use fenestre::geometry::Rect;
use fenestre::output::{Output, OutputId};
use fenestre::window::{Window, WindowId};

#[test]
fn tiling_rect_is_none_without_geometry() {
    let output = Output::new(OutputId(0));
    assert_eq!(output.tiling_rect(), None);
}

#[test]
fn tiling_rect_falls_back_to_full_output_rect() {
    let mut output = Output::new(OutputId(0));
    output.set_position(10, 20);
    output.set_dimensions(1920, 1080);
    assert_eq!(output.tiling_rect(), Some(Rect::new(10, 20, 1920, 1080)));
}

#[test]
fn tiling_rect_prefers_non_exclusive_area_over_full_rect() {
    let mut output = Output::new(OutputId(0));
    output.set_position(0, 0);
    output.set_dimensions(1920, 1080);
    output.set_non_exclusive_area(0, 40, 1920, 1040);
    assert_eq!(output.tiling_rect(), Some(Rect::new(0, 40, 1920, 1040)));
}

#[test]
fn tiling_rect_uses_non_exclusive_area_even_before_dimensions() {
    let mut output = Output::new(OutputId(0));
    output.set_non_exclusive_area(0, 40, 1920, 1040);
    assert_eq!(output.tiling_rect(), Some(Rect::new(0, 40, 1920, 1040)));
}

#[test]
fn window_clamp_dimensions_respects_hints() {
    let mut window = Window::new(WindowId(1), OutputId(1));
    window.set_dimensions_hint(200, 100, 800, 600);

    assert_eq!(window.clamp_dimensions(50, 50), (200, 100));
    assert_eq!(window.clamp_dimensions(400, 300), (400, 300));
    assert_eq!(window.clamp_dimensions(1000, 1000), (800, 600));
    window.set_dimensions_hint(0, 0, 0, 0);
    assert_eq!(window.clamp_dimensions(123, 456), (123, 456));
}
