use fenestre::config::InputDeviceConfig;
use fenestre::input::repeat_requests;

fn entry(name: &str, rate: Option<i32>, delay: Option<i32>) -> InputDeviceConfig {
    InputDeviceConfig {
        name: name.to_string(),
        accel_profile: None,
        accel_speed: None,
        scroll_factor: None,
        repeat_rate: rate,
        repeat_delay: delay,
        tap: None,
        tap_button_map: None,
        natural_scroll: None,
        left_handed: None,
        scroll_method: None,
        middle_emulation: None,
        dwt: None,
        send_events: None,
        drag: None,
        drag_lock: None,
        click_method: None,
        rotation: None,
    }
}

fn devices() -> Vec<(String, u32)> {
    vec![("kbd".to_string(), 0), ("mouse".to_string(), 1), ("pad".to_string(), 0)]
}

#[test]
fn repeat_applies_to_keyboard_with_rate_and_delay() {
    let entries = vec![entry("pad", Some(25), Some(600))];
    assert_eq!(repeat_requests(&entries, &devices()), vec![(2, 25, 600)]);
}

#[test]
fn repeat_needs_both_values() {
    let entries = vec![entry("kbd", Some(25), None), entry("kbd", None, Some(600))];
    assert!(repeat_requests(&entries, &devices()).is_empty());
}

#[test]
fn repeat_skips_negative_values_non_keyboards_and_unknown_devices() {
    let entries = vec![
        entry("kbd", Some(-1), Some(600)),
        entry("mouse", Some(25), Some(600)),
        entry("ghost", Some(25), Some(600)),
        entry("kbd", Some(30), Some(200)),
    ];
    assert_eq!(repeat_requests(&entries, &devices()), vec![(0, 30, 200)]);
}
