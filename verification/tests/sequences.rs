use fenestre::geometry::{Rect, WindowState};
use fenestre::output::OutputId;
use fenestre::scene::Effect;
use fenestre::seat::SeatId;
use fenestre::window::WindowId;
use fenestre::wm::{Event, WMState};

/// One 1000x800 output holding one tiled window.
fn one_window_state() -> (WMState, OutputId, WindowId) {
    let mut state = WMState::new();
    let o = OutputId(1);
    let w = WindowId(1);
    state.handle_event(Event::OutputCreated { output_id: o });
    state.handle_event(Event::OutputDimensionsUpdated { output_id: o, w: 1000, h: 800 });
    state.handle_event(Event::WindowCreated { window_id: w, target_output: o });
    (state, o, w)
}

#[test]
fn manage_proposes_size_of_new_window_once() {
    let (mut state, _o, w) = one_window_state();

    let first = state.apply_manage(&vec![], &vec![], &vec![]);
    assert_eq!(first, vec![Effect::ProposeDimensions { window_id: w, width: 1000, height: 800 }]);

    let second = state.apply_manage(&vec![], &vec![], &vec![]);
    assert!(second.is_empty());
    assert!(state.render_order_cache.is_empty());
    assert_eq!(state.last_manage_scene.len(), 1);
}

#[test]
fn manage_sends_pending_focus_once_seat_and_window_are_bound() {
    let (mut state, _o, w) = one_window_state();
    let s = SeatId(1);
    state.handle_event(Event::SeatCreated { seat_id: s });
    assert_eq!(state.focus.pending_focus, Some(1));

    // The window has no compositor handle yet: the focus stays pending.
    let effects = state.apply_manage(&vec![], &vec![1], &vec![]);
    assert!(!effects.contains(&Effect::FocusWindow { window_id: w }));
    assert_eq!(state.focus.pending_focus, Some(1));

    let effects = state.apply_manage(&vec![1], &vec![1], &vec![]);
    assert!(effects.contains(&Effect::FocusWindow { window_id: w }));
    assert_eq!(state.focus.pending_focus, None);
}

#[test]
fn manage_drops_pending_focus_of_unknown_window() {
    let (mut state, _o, _w) = one_window_state();
    state.focus.pending_focus = Some(9);
    let effects = state.apply_manage(&vec![9], &vec![], &vec![]);
    assert!(!effects.contains(&Effect::FocusWindow { window_id: WindowId(9) }));
    assert_eq!(state.focus.pending_focus, None);
}

#[test]
fn manage_closes_known_windows_only() {
    let (mut state, _o, w) = one_window_state();
    state.pending_closes = vec![1, 7];
    let effects = state.apply_manage(&vec![], &vec![], &vec![]);
    assert!(effects.contains(&Effect::Close { window_id: w }));
    assert!(!effects.contains(&Effect::Close { window_id: WindowId(7) }));
    assert!(state.pending_closes.is_empty());
}

#[test]
fn manage_sets_layer_shell_default_once_for_bound_output() {
    let (mut state, o, _w) = one_window_state();
    assert!(state.layer_shell_default_dirty);

    let effects = state.apply_manage(&vec![], &vec![], &vec![1]);
    assert!(effects.contains(&Effect::SetLayerShellDefault { output_id: o }));
    assert!(!state.layer_shell_default_dirty);

    let effects = state.apply_manage(&vec![], &vec![], &vec![1]);
    assert!(!effects.contains(&Effect::SetLayerShellDefault { output_id: o }));
}

#[test]
fn manage_without_layer_shell_handle_sends_no_default() {
    let (mut state, o, _w) = one_window_state();
    let effects = state.apply_manage(&vec![], &vec![], &vec![]);
    assert!(!effects.contains(&Effect::SetLayerShellDefault { output_id: o }));
    assert!(!state.layer_shell_default_dirty);
}

#[test]
fn manage_lands_pending_float() {
    let (mut state, o, w) = one_window_state();
    let s = SeatId(1);
    state.handle_event(Event::SeatCreated { seat_id: s });
    let rect = Rect::new(10, 20, 300, 200);
    let si = state.find_seat(s).unwrap();
    state.seats[si].1.pending_float = Some((w, rect));

    let effects = state.apply_manage(&vec![], &vec![], &vec![]);

    let si = state.find_seat(s).unwrap();
    assert_eq!(state.seats[si].1.pending_float, None);
    let ti = state.find_tree(o).unwrap();
    assert_eq!(
        state.output_trees[ti].1.window_state(w.0).cloned(),
        Some(WindowState::Floating { rect })
    );
    assert!(effects.contains(&Effect::ProposeDimensions { window_id: w, width: 300, height: 200 }));
    let wi = state.find_window(w).unwrap();
    assert_eq!(state.windows[wi].layout_rect, Some(rect));
}

#[test]
fn manage_starts_pending_pointer_op_first() {
    let (mut state, _o, w) = one_window_state();
    let s = SeatId(1);
    state.handle_event(Event::SeatCreated { seat_id: s });
    state.apply_manage(&vec![], &vec![], &vec![]);
    state.handle_event(Event::PointerMoveRequested { window_id: w, seat_id: s });
    assert!(state.seat_op_active(s));

    let effects = state.apply_manage(&vec![], &vec![], &vec![]);
    assert_eq!(effects[0], Effect::StartPointerOp { seat_id: s });
}

#[test]
fn render_places_new_window_and_creates_its_node() {
    let (mut state, _o, w) = one_window_state();
    state.apply_manage(&vec![], &vec![], &vec![]);

    let effects = state.apply_render(&vec![1], &vec![]);
    assert_eq!(
        effects,
        vec![Effect::EnsureNode { window_id: w }, Effect::SetPosition { window_id: w, x: 0, y: 0 }]
    );

    let effects = state.apply_render(&vec![1], &vec![1]);
    assert!(effects.is_empty());
}

#[test]
fn render_skips_windows_without_handle() {
    let (mut state, _o, _w) = one_window_state();
    state.apply_manage(&vec![], &vec![], &vec![]);
    let effects = state.apply_render(&vec![], &vec![]);
    assert!(effects.is_empty());
    assert_eq!(state.last_render_scene.len(), 1);
}

#[test]
fn render_order_stacks_floating_above_tiled() {
    let (mut state, o, _w) = one_window_state();
    state.handle_event(Event::WindowCreated { window_id: WindowId(2), target_output: o });
    let ti = state.find_tree(o).unwrap();
    state.output_trees[ti].1.toggle_floating(1, Rect::new(0, 0, 200, 100));
    state.render_order_cache.clear();

    state.apply_render(&vec![], &vec![]);
    assert_eq!(state.render_order_cache, vec![2, 1]);
}

#[test]
fn render_raises_floating_window_when_it_gains_focus() {
    let (mut state, o, w1) = one_window_state();
    let w2 = WindowId(2);
    state.handle_event(Event::WindowCreated { window_id: w2, target_output: o });
    let ti = state.find_tree(o).unwrap();
    state.output_trees[ti].1.toggle_floating(1, Rect::new(0, 0, 200, 100));
    state.output_trees[ti].1.toggle_floating(2, Rect::new(300, 0, 200, 100));
    state.apply_manage(&vec![], &vec![], &vec![]);
    state.apply_render(&vec![1, 2], &vec![1, 2]);

    state.focus_window_id(w1);
    state.render_order_cache.clear();
    let effects = state.apply_render(&vec![1, 2], &vec![1, 2]);
    assert!(effects.contains(&Effect::PlaceTop { window_id: w1 }));
    assert!(!effects.contains(&Effect::PlaceTop { window_id: w2 }));
}

#[test]
fn second_manage_in_a_row_asks_nothing() {
    let (mut state, o, w) = one_window_state();
    let s = SeatId(1);
    state.handle_event(Event::SeatCreated { seat_id: s });
    state.handle_event(Event::WindowCreated { window_id: WindowId(2), target_output: o });
    state.apply_manage(&vec![], &vec![], &vec![]);
    state.handle_event(Event::PointerMoveRequested { window_id: w, seat_id: s });
    state.pending_closes = vec![2, 9];

    let first = state.apply_manage(&vec![1], &vec![], &vec![1]);
    assert!(!first.is_empty());

    let second = state.apply_manage(&vec![1], &vec![], &vec![1]);
    assert!(second.is_empty());
}

#[test]
fn manage_withholds_focus_while_layer_surface_holds_exclusive_focus() {
    let (mut state, _o, w) = one_window_state();
    let s = SeatId(1);
    state.handle_event(Event::SeatCreated { seat_id: s });
    state.handle_event(Event::SeatLayerShellFocus {
        seat_id: s,
        mode: fenestre::seat::LayerShellFocus::Exclusive,
    });
    assert!(!state.focus_request_allowed());

    let effects = state.apply_manage(&vec![1], &vec![1], &vec![]);
    assert!(!effects.contains(&Effect::FocusWindow { window_id: w }));
    assert_eq!(state.focus.pending_focus, None);

    // Focus handed back to the window manager: the focus is queued again
    // and sent.
    state.handle_event(Event::SeatLayerShellFocus {
        seat_id: s,
        mode: fenestre::seat::LayerShellFocus::NoFocus,
    });
    assert!(state.focus_request_allowed());
    let effects = state.apply_manage(&vec![1], &vec![1], &vec![]);
    assert!(effects.contains(&Effect::FocusWindow { window_id: w }));
}

#[test]
fn manage_sends_focus_under_non_exclusive_layer_focus() {
    let (mut state, _o, w) = one_window_state();
    let s = SeatId(1);
    state.handle_event(Event::SeatCreated { seat_id: s });
    state.handle_event(Event::SeatLayerShellFocus {
        seat_id: s,
        mode: fenestre::seat::LayerShellFocus::NonExclusive,
    });
    let effects = state.apply_manage(&vec![1], &vec![1], &vec![]);
    assert!(effects.contains(&Effect::FocusWindow { window_id: w }));
}
