use fenestre::config::Config;
use fenestre::config::KeyBindingTarget;
use fenestre::geometry::{Rect, WindowState};
use fenestre::output::{Output, OutputId};
use fenestre::rules::{RulePattern, WindowRule};
use fenestre::seat::{InteractiveOp, LayerShellFocus, Seat, SeatId};
use fenestre::tree::LayoutTree;
use fenestre::window::{Window, WindowId};
use fenestre::window_rules::WindowRules;
use fenestre::commands::StateChange;
use fenestre::wm::{Appearance, Event, WMState};

fn output_with(id: OutputId, w: i32, h: i32) -> Output {
    let mut out = Output::new(id);
    out.set_dimensions(w, h);
    out
}

fn tree(state: &mut WMState, o: OutputId) -> &mut LayoutTree {
    let i = state.tree_for_output(o).unwrap();
    &mut state.output_trees[i].1
}

fn focused_tree(state: &mut WMState) -> &mut LayoutTree {
    let i = state.focused_tree().unwrap();
    &mut state.output_trees[i].1
}

fn window(state: &WMState, w: WindowId) -> &Window {
    &state.windows[state.find_window(w).unwrap()]
}

fn has_window(state: &WMState, w: WindowId) -> bool {
    state.find_window(w).is_some()
}

fn seat(state: &WMState, s: SeatId) -> &Seat {
    &state.seats[state.find_seat(s).unwrap()].1
}

fn output(state: &WMState, o: OutputId) -> &Output {
    &state.outputs[state.find_output(o).unwrap()]
}

fn focused_window(state: &WMState) -> Option<WindowId> {
    state.focus.focused_window.map(WindowId)
}

fn pending_focus(state: &WMState) -> Option<WindowId> {
    state.focus.pending_focus.map(WindowId)
}

fn load_default_config(state: &mut WMState) {
    let config = Config::load();
    let appearance = Appearance {
        decorations: config.decorations,
        border_width: config.border_width,
        border_color_focused: config.border_color_focused,
        border_color_unfocused: config.border_color_unfocused,
    };
    state.load_config(config.layout, appearance, 5000, 500, 500, config.rules);
}

#[test]
fn two_outputs_get_independent_trees() {
    let mut state = WMState::new();
    let o1 = OutputId(1);
    let o2 = OutputId(2);
    state.outputs.push(Output::new(o1));
    state.outputs.push(Output::new(o2));
    state.focused_output = Some(o1);

    let w1 = WindowId(1);
    let w2 = WindowId(2);
    state.windows.push(Window::new(w1, o1));
    state.windows.push(Window::new(w2, o2));
    tree(&mut state, o1).insert_window(w1.0);
    tree(&mut state, o2).insert_window(w2.0);

    assert_eq!(tree(&mut state, o1).focused_window(), Some(1));
    assert_eq!(tree(&mut state, o2).focused_window(), Some(2));
    assert_eq!(focused_tree(&mut state).focused_window(), Some(1));
}

#[test]
fn output_resize_does_not_affect_other_output_tree() {
    let mut state = WMState::new();
    let o1 = OutputId(1);
    let o2 = OutputId(2);
    state.outputs.push(output_with(o1, 800, 600));
    state.outputs.push(output_with(o2, 1920, 1080));
    state.focused_output = Some(o1);

    let w1 = WindowId(1);
    state.windows.push(Window::new(w1, o1));
    tree(&mut state, o1).insert_window(w1.0);

    tree(&mut state, o1).set_output_rect(Rect::new(0, 0, 800, 600));
    let arranged = tree(&mut state, o1).arranged_windows();
    assert_eq!(arranged.len(), 1);
}

fn setup_handle_event_fixture() -> (WMState, OutputId, WindowId) {
    let mut state = WMState::new();
    let o = OutputId(1);
    state.outputs.push(output_with(o, 1920, 1080));
    state.focused_output = Some(o);

    let rules = WindowRules::new(vec![WindowRule {
        app_id: Some(RulePattern::exact("floatme")),
        title: Some(RulePattern::exact("pinned")),
        target: WindowState::Floating {
            rect: Rect::new(0, 0, 0, 0),
        },
        floating_rect: None,
    }]);
    state.window_rules = Some(rules);

    (state, o, WindowId(1))
}

#[test]
fn event_window_created_registers_window_tree_and_focus() {
    let (mut state, o, w) = setup_handle_event_fixture();

    state.handle_event(Event::WindowCreated {
        window_id: w,
        target_output: o,
    });

    assert!(has_window(&state, w), "window not registered");
    assert!(state.windows_on(o).contains(&w), "window not indexed under its output");
    assert!(
        tree(&mut state, o).visible_windows().contains(&w.0),
        "window missing from layout tree"
    );
    assert_eq!(focused_window(&state), Some(w), "created window not focused");
    assert_eq!(pending_focus(&state), Some(w), "focus not queued for manage");
    assert_eq!(state.focused_output, Some(o));
}

#[test]
fn event_window_closed_reconciles_focus() {
    let (mut state, o, a) = setup_handle_event_fixture();
    let b = WindowId(2);

    state.handle_event(Event::WindowCreated {
        window_id: a,
        target_output: o,
    });
    state.handle_event(Event::WindowCreated {
        window_id: b,
        target_output: o,
    });
    assert_eq!(focused_window(&state), Some(b));

    state.handle_event(Event::WindowClosed { window_id: b });

    assert!(!has_window(&state, b), "closed window still present");
    assert!(!state.windows_on(o).contains(&b), "closed window still indexed under its output");
    assert_eq!(focused_window(&state), Some(a), "focus not moved to A");
    assert_eq!(
        focused_tree(&mut state).focused_window(),
        Some(a.0),
        "layout focus diverged from global focus after close"
    );
    assert_eq!(pending_focus(&state), Some(a), "focus not re-queued");
}

#[test]
fn event_app_id_updated_evaluates_rules() {
    let (mut state, o, w) = setup_handle_event_fixture();

    state.handle_event(Event::WindowCreated {
        window_id: w,
        target_output: o,
    });
    assert_eq!(
        state.window_state_for_id(w),
        Some(&WindowState::Tiled),
        "window should start tiled before app_id arrives"
    );

    state.handle_event(Event::AppIdUpdated {
        window_id: w,
        app_id: Some("floatme".to_string()),
    });

    assert_eq!(window(&state, w).app_id.as_deref(), Some("floatme"), "app_id not stored");
    assert_eq!(
        state.window_state_for_id(w),
        Some(&WindowState::Tiled),
        "AppIdUpdated must not float before the title arrives"
    );

    state.handle_event(Event::TitleUpdated {
        window_id: w,
        title: Some("pinned".to_string()),
    });

    assert_eq!(window(&state, w).title.as_deref(), Some("pinned"), "title not stored");
    assert_eq!(
        state.window_state_for_id(w),
        Some(&WindowState::Floating {
            rect: Rect::new(480, 270, 960, 540)
        }),
        "TitleUpdated did not evaluate window rules"
    );
}

#[test]
fn event_output_dimensions_updated_re_evaluates_window_rules() {
    let (mut state, o, w) = setup_handle_event_fixture();

    state.handle_event(Event::WindowCreated {
        window_id: w,
        target_output: o,
    });
    state.handle_event(Event::AppIdUpdated {
        window_id: w,
        app_id: Some("floatme".to_string()),
    });
    assert_eq!(
        state.window_state_for_id(w),
        Some(&WindowState::Tiled),
        "precondition: window still tiled (title pending)"
    );

    state.handle_event(Event::OutputDimensionsUpdated {
        output_id: o,
        w: 2560,
        h: 1440,
    });

    assert_eq!(
        output(&state, o).rect(),
        Some(Rect::new(0, 0, 2560, 1440)),
        "output dimensions not updated by event"
    );
    assert_eq!(
        state.window_state_for_id(w),
        Some(&WindowState::Tiled),
        "resize re-evaluation must not float before the title arrives"
    );

    state.handle_event(Event::TitleUpdated {
        window_id: w,
        title: Some("pinned".to_string()),
    });
    assert_eq!(
        state.window_state_for_id(w),
        Some(&WindowState::Floating {
            rect: Rect::new(640, 360, 1280, 720)
        }),
        "OutputDimensionsUpdated did not re-evaluate window rules"
    );
}

fn setup_fullscreen_fixture() -> (WMState, OutputId, WindowId) {
    let mut state = WMState::new();
    let o = OutputId(1);
    state.outputs.push(output_with(o, 1920, 1080));
    state.focused_output = Some(o);

    let w = WindowId(1);
    state.handle_event(Event::WindowCreated {
        window_id: w,
        target_output: o,
    });
    (state, o, w)
}

#[test]
fn event_output_created_creates_output_and_handles_orphaned_trees() {
    let mut state = WMState::new();
    load_default_config(&mut state);
    assert!(
        state.resolve_seat_targets(KeyBindingTarget::Primary).is_empty(),
        "precondition: no bindings without a seat"
    );

    state.handle_event(Event::OutputCreated {
        output_id: OutputId(1),
    });

    assert!(state.find_output(OutputId(1)).is_some(), "output not created");
    assert!(state.resolve_seat_targets(KeyBindingTarget::Primary).is_empty());
}

#[test]
fn event_output_removed_reassigns_windows_and_falls_back_focus() {
    let mut state = WMState::new();
    let o1 = OutputId(1);
    let o2 = OutputId(2);
    for (o, x) in [(o1, 0), (o2, 1920)] {
        let mut out = output_with(o, 1920, 1080);
        out.set_position(x, 0);
        state.outputs.push(out);
    }

    let moving = WindowId(1);
    let resident = WindowId(2);
    state.handle_event(Event::WindowCreated {
        window_id: moving,
        target_output: o1,
    });
    state.handle_event(Event::WindowCreated {
        window_id: resident,
        target_output: o2,
    });
    assert_eq!(state.focused_output, Some(o2), "precondition: o2 focused");
    assert_eq!(focused_window(&state), Some(resident), "precondition: resident globally focused");

    state.handle_event(Event::OutputRemoved { output_id: o1 });

    assert!(state.find_output(o1).is_none(), "removed output still present");
    assert!(state.windows_on(o1).is_empty(), "windows not cleared from removed output index");
    assert_eq!(window(&state, moving).output_id, o2, "window not reassigned to surviving output");
    assert!(state.windows_on(o2).contains(&moving), "reassigned window not indexed on surviving output");
    assert_eq!(state.focused_output, Some(o2), "focus did not fall back");
    assert_eq!(focused_window(&state), Some(resident), "focus not handed to surviving output's window");
    assert_eq!(
        focused_tree(&mut state).focused_window(),
        Some(resident.0),
        "layout focus diverged from global focus after output removal"
    );
    assert!(has_window(&state, moving), "reassigned window was destroyed");
    assert!(
        tree(&mut state, o2).visible_windows().contains(&moving.0),
        "reassigned window missing from surviving output's tree"
    );
}

#[test]
fn event_seat_created_triggers_reconcile_keybindings() {
    let mut state = WMState::new();
    load_default_config(&mut state);
    state.keybindings_dirty = false;
    assert!(
        state.resolve_seat_targets(KeyBindingTarget::Primary).is_empty(),
        "precondition: no bindings before any seat exists"
    );

    state.handle_event(Event::SeatCreated { seat_id: SeatId(1) });

    assert!(state.find_seat(SeatId(1)).is_some(), "seat not created");
    assert!(state.keybindings_dirty, "SeatCreated did not reconcile bindings");
    assert_eq!(
        state.resolve_seat_targets(KeyBindingTarget::Primary),
        vec![SeatId(1)],
        "reconciled bindings assigned to the wrong seat"
    );
    assert_eq!(state.current_seat, Some(SeatId(1)), "first seat not current");

    state.handle_event(Event::SeatCreated { seat_id: SeatId(2) });
    assert_eq!(
        state.resolve_seat_targets(KeyBindingTarget::Primary),
        vec![SeatId(1)],
        "non-primary seat wrongly received bindings"
    );
}

#[test]
fn event_seat_removed_cleans_bindings_and_hands_off_focus() {
    let mut state = WMState::new();
    load_default_config(&mut state);

    state.handle_event(Event::SeatCreated { seat_id: SeatId(1) });
    assert_eq!(state.resolve_seat_targets(KeyBindingTarget::Primary), vec![SeatId(1)]);

    state.handle_event(Event::SeatCreated { seat_id: SeatId(2) });
    state.keybindings_dirty = false;

    state.handle_event(Event::SeatRemoved { seat_id: SeatId(1) });

    assert!(state.find_seat(SeatId(1)).is_none(), "seat not removed");
    assert_eq!(state.current_seat, Some(SeatId(2)), "focus not handed to surviving seat");
    assert!(state.keybindings_dirty, "bindings were not reconciled");
    assert_eq!(
        state.resolve_seat_targets(KeyBindingTarget::Primary),
        vec![SeatId(2)],
        "bindings for removed seat were not cleaned up"
    );
}

#[test]
fn event_fullscreen_requested_toggles_window_state() {
    let (mut state, _o, w) = setup_fullscreen_fixture();

    assert_eq!(state.window_state_for_id(w), Some(&WindowState::Tiled), "precondition: window starts tiled");

    state.handle_event(Event::FullscreenRequested { window_id: w });

    assert_eq!(
        state.window_state_for_id(w),
        Some(&WindowState::Fullscreen {
            restore: Box::new(WindowState::Tiled)
        }),
        "FullscreenRequested did not fullscreen the window"
    );
}

#[test]
fn event_exit_fullscreen_requested_restores_window_state() {
    let (mut state, _o, w) = setup_fullscreen_fixture();

    state.handle_event(Event::FullscreenRequested { window_id: w });
    assert_eq!(
        state.window_state_for_id(w),
        Some(&WindowState::Fullscreen {
            restore: Box::new(WindowState::Tiled)
        }),
        "precondition: window is fullscreen"
    );

    state.handle_event(Event::ExitFullscreenRequested { window_id: w });

    assert_eq!(
        state.window_state_for_id(w),
        Some(&WindowState::Tiled),
        "ExitFullscreenRequested did not restore the window"
    );
}

fn setup_window_on_output() -> (WMState, OutputId, WindowId) {
    let mut state = WMState::new();
    let o = OutputId(1);
    state.outputs.push(output_with(o, 1920, 1080));
    state.focused_output = Some(o);

    let w = WindowId(1);
    state.handle_event(Event::WindowCreated {
        window_id: w,
        target_output: o,
    });
    (state, o, w)
}

#[test]
fn event_window_interaction_focuses_clicked_window() {
    let mut state = WMState::new();
    let o = OutputId(1);
    state.outputs.push(output_with(o, 1920, 1080));
    state.focused_output = Some(o);

    let a = WindowId(1);
    let b = WindowId(2);
    state.handle_event(Event::WindowCreated {
        window_id: a,
        target_output: o,
    });
    state.handle_event(Event::WindowCreated {
        window_id: b,
        target_output: o,
    });
    assert_eq!(focused_window(&state), Some(b), "precondition: b focused");

    state.handle_event(Event::WindowInteraction { window_id: a });

    assert_eq!(focused_window(&state), Some(a), "interaction did not focus a");
    assert_eq!(
        focused_tree(&mut state).focused_window(),
        Some(a.0),
        "layout focus diverged from global focus after interaction"
    );
    assert_eq!(pending_focus(&state), Some(a), "focus not queued for manage");
    assert_eq!(state.focus.stack.first().copied(), Some(a.0));
}

#[test]
fn event_decoration_hint_updated_sets_csd_ssd() {
    let (mut state, _o, w) = setup_window_on_output();

    assert_eq!(window(&state, w).decoration_hint, None, "precondition: no decoration hint yet");

    state.handle_event(Event::DecorationHintUpdated { window_id: w, hint: 1 });
    assert_eq!(window(&state, w).decoration_hint, Some(1), "decoration hint not stored");
    assert!(
        window(&state, w).use_client_decorations(false),
        "hint 1 should prefer client-side decorations"
    );

    state.handle_event(Event::DecorationHintUpdated { window_id: w, hint: 0 });
    assert_eq!(window(&state, w).decoration_hint, Some(0), "decoration hint not updated");
    assert!(
        !window(&state, w).use_client_decorations(true),
        "hint 0 should prefer server-side decorations"
    );
}

#[test]
fn event_dimensions_hint_updated_records_preferred_size() {
    let (mut state, o, w) = setup_window_on_output();

    let out_rect = output(&state, o).rect().unwrap();
    let (base_w, _base_h) = window(&state, w).preferred_dimensions(out_rect, state.float_ratio);
    assert_eq!(base_w, 960, "precondition: default size is ratio base");

    state.handle_event(Event::DimensionsHint {
        window_id: w,
        min_w: 1200,
        min_h: 700,
        max_w: 0,
        max_h: 0,
    });

    let hint = window(&state, w).dimensions_hint;
    assert_eq!(
        (hint.min_width, hint.min_height, hint.max_width, hint.max_height),
        (1200, 700, 0, 0),
        "dimensions hint not stored"
    );
    let (w_w, w_h) = window(&state, w).preferred_dimensions(out_rect, state.float_ratio);
    assert_eq!((w_w, w_h), (1200, 700), "DimensionsHint did not influence preferred size");
}

#[test]
fn event_pid_updated_stores_process_id() {
    let (mut state, _o, w) = setup_window_on_output();

    assert_eq!(window(&state, w).pid, 0, "precondition: pid 0");
    state.handle_event(Event::PidUpdated { window_id: w, pid: 4242 });
    assert_eq!(window(&state, w).pid, 4242, "PidUpdated did not store the pid");
}

#[test]
fn event_parent_updated_stores_parent() {
    let (mut state, _o, w) = setup_window_on_output();

    assert_eq!(window(&state, w).parent, None, "precondition: no parent");
    state.handle_event(Event::ParentUpdated {
        window_id: w,
        parent_id: Some(WindowId(2)),
    });
    assert_eq!(window(&state, w).parent, Some(WindowId(2)), "ParentUpdated did not store the parent");
}

#[test]
fn event_seat_name_updated_stores_name() {
    let mut state = WMState::new();
    state.handle_event(Event::SeatCreated { seat_id: SeatId(1) });
    assert_eq!(seat(&state, SeatId(1)).wl_seat_name, 0, "precondition: seat name 0");

    state.handle_event(Event::SeatNameUpdated {
        seat_id: SeatId(1),
        name: 7,
    });
    assert_eq!(seat(&state, SeatId(1)).wl_seat_name, 7, "SeatNameUpdated did not store the name");
}

#[test]
fn event_seat_pointer_position_updated_stores_cursor() {
    let mut state = WMState::new();
    state.handle_event(Event::SeatCreated { seat_id: SeatId(1) });
    assert_eq!(seat(&state, SeatId(1)).pointer_position, None, "precondition: no pointer position");

    state.handle_event(Event::SeatPointerPositionUpdated {
        seat_id: SeatId(1),
        x: 123,
        y: 456,
    });
    assert_eq!(
        seat(&state, SeatId(1)).pointer_position,
        Some((123, 456)),
        "SeatPointerPositionUpdated did not store the cursor position"
    );
}

#[test]
fn event_output_position_updated_moves_output_and_reassigns() {
    let mut state = WMState::new();
    let o1 = OutputId(1);
    let o2 = OutputId(2);
    for (o, x) in [(o1, 0), (o2, 1920)] {
        let mut out = output_with(o, 1920, 1080);
        out.set_position(x, 0);
        state.outputs.push(out);
    }
    state.focused_output = Some(o1);

    let w = WindowId(1);
    state.handle_event(Event::WindowCreated {
        window_id: w,
        target_output: o1,
    });
    tree(&mut state, o1).set_window_state(
        w.0,
        WindowState::Floating {
            rect: Rect::new(100, 50, 300, 200),
        },
    );

    state.handle_event(Event::OutputPositionUpdated {
        output_id: o1,
        x: 500,
        y: 40,
    });

    assert_eq!(output(&state, o1).position, Some((500, 40)), "output position not updated");
    assert_eq!(window(&state, w).output_id, o1, "window must stay on its output after position update");
    assert_eq!(
        state.window_state_for_id(w),
        Some(&WindowState::Floating {
            rect: Rect::new(100, 50, 300, 200)
        }),
        "floating rect not preserved across output position update"
    );
}

#[test]
fn event_seat_layer_shell_focus_updates_mode_and_requeues_focus() {
    let mut state = WMState::new();
    state.handle_event(Event::SeatCreated { seat_id: SeatId(1) });

    let o1 = OutputId(1);
    state.outputs.push(output_with(o1, 1920, 1080));
    state.focused_output = Some(o1);
    let w = WindowId(1);
    state.handle_event(Event::WindowCreated {
        window_id: w,
        target_output: o1,
    });
    assert_eq!(focused_window(&state), Some(w), "precondition: window focused");

    state.handle_event(Event::SeatLayerShellFocus {
        seat_id: SeatId(1),
        mode: LayerShellFocus::Exclusive,
    });
    assert_eq!(
        seat(&state, SeatId(1)).layer_shell_focus,
        LayerShellFocus::Exclusive,
        "layer-shell focus mode not stored"
    );

    state.focus.pending_focus = None;
    state.handle_event(Event::SeatLayerShellFocus {
        seat_id: SeatId(1),
        mode: LayerShellFocus::NoFocus,
    });
    assert_eq!(
        seat(&state, SeatId(1)).layer_shell_focus,
        LayerShellFocus::NoFocus,
        "layer-shell focus mode not cleared"
    );
    assert_eq!(pending_focus(&state), Some(w), "None mode did not re-queue the current focus");
}

#[test]
fn event_output_name_updated_stores_name() {
    let mut state = WMState::new();
    state.handle_event(Event::OutputCreated {
        output_id: OutputId(1),
    });
    assert_eq!(output(&state, OutputId(1)).wl_output_name, 0, "precondition: output name 0");

    state.handle_event(Event::OutputNameUpdated {
        output_id: OutputId(1),
        name: 7,
    });
    assert_eq!(output(&state, OutputId(1)).wl_output_name, 7, "OutputNameUpdated did not store the name");
}

#[test]
fn fullscreen_scene_uses_full_output_rect_with_layer_shell_zone() {
    let mut state = WMState::new();
    let o = OutputId(1);
    let mut out = output_with(o, 1920, 1080);
    out.set_non_exclusive_area(0, 40, 1920, 1040);
    state.outputs.push(out);
    state.focused_output = Some(o);

    let w = WindowId(1);
    state.handle_event(Event::WindowCreated {
        window_id: w,
        target_output: o,
    });

    let tiling = output(&state, o).tiling_rect().unwrap();
    tree(&mut state, o).set_output_rect(tiling);

    let scene = state.desired_scene();
    let tiled_entry = scene.iter().find(|e| e.window_id == w).unwrap();
    assert_eq!(tiled_entry.rect, Rect::new(0, 40, 1920, 1040), "tiled window should use tiling rect");

    tree(&mut state, o).toggle_fullscreen(w.0);
    tree(&mut state, o).set_output_rect(tiling);
    let scene = state.desired_scene();
    let fs_entry = scene.iter().find(|e| e.window_id == w).unwrap();
    assert_eq!(fs_entry.rect, Rect::new(0, 0, 1920, 1080), "fullscreen window should use full output rect");

    tree(&mut state, o).toggle_fullscreen(w.0);
    tree(&mut state, o).set_output_rect(tiling);
    let scene = state.desired_scene();
    let restored_entry = scene.iter().find(|e| e.window_id == w).unwrap();
    assert_eq!(
        restored_entry.rect,
        Rect::new(0, 40, 1920, 1040),
        "restored tiled window should use tiling rect"
    );
}

fn setup_pointer_op_fixture() -> (WMState, OutputId, WindowId, SeatId) {
    let mut state = WMState::new();
    let o = OutputId(1);
    state.outputs.push(output_with(o, 1920, 1080));
    state.focused_output = Some(o);

    let w = WindowId(1);
    state.handle_event(Event::WindowCreated {
        window_id: w,
        target_output: o,
    });
    let i = state.ensure_tree_for_output(o);
    state.output_trees[i].1.arrange();

    let s = SeatId(1);
    state.handle_event(Event::SeatCreated { seat_id: s });
    (state, o, w, s)
}

#[test]
fn event_pointer_move_requested_starts_pending_op() {
    let (mut state, _o, w, s) = setup_pointer_op_fixture();

    assert!(!state.seat_op_active(s), "precondition: no op yet");
    state.handle_event(Event::PointerMoveRequested {
        window_id: w,
        seat_id: s,
    });

    assert!(state.seat_op_active(s), "move op should be active");
    let seat = seat(&state, s);
    assert!(!seat.op_started, "op must start in the next manage sequence");
    match &seat.op {
        InteractiveOp::Move {
            window_id,
            initial_rect,
        } => {
            assert_eq!(*window_id, w);
            assert_eq!(initial_rect.width, 1920);
        },
        _ => panic!("expected a Move op"),
    }
}

#[test]
fn window_closed_during_pending_op_cancels_seat_op() {
    let (mut state, _o, w, s) = setup_pointer_op_fixture();

    state.handle_event(Event::PointerMoveRequested {
        window_id: w,
        seat_id: s,
    });
    assert!(state.seat_op_active(s), "precondition: op is pending");

    state.handle_event(Event::WindowClosed { window_id: w });

    assert!(!state.seat_op_active(s), "closing the drag target must cancel the seat's interactive op");
}

#[test]
fn window_closed_during_started_op_cancels_seat_op() {
    let (mut state, _o, w, s) = setup_pointer_op_fixture();

    state.handle_event(Event::PointerMoveRequested {
        window_id: w,
        seat_id: s,
    });
    let _ = state.transition_pointer_ops();

    state.handle_event(Event::WindowClosed { window_id: w });

    assert!(!state.seat_op_active(s), "closing the drag target must cancel an already-started op");
}

#[test]
fn op_delta_move_translates_initial_rect() {
    let (mut state, _o, w, s) = setup_pointer_op_fixture();
    let i = state.ensure_tree_for_output(OutputId(1));
    state.output_trees[i].1.toggle_floating(w.0, Rect::new(100, 50, 800, 600));

    state.handle_event(Event::PointerMoveRequested {
        window_id: w,
        seat_id: s,
    });
    let (window_id, rect) = state.compute_op_rect(s, 100, 50).expect("op rect computed");
    assert_eq!(window_id, w);
    assert_eq!(rect.x, 200, "move should translate x by dx");
    assert_eq!(rect.y, 100, "move should translate y by dy");
    assert_eq!(rect.width, 800, "move preserves size");
}

#[test]
fn op_delta_move_clamps_to_output() {
    let (mut state, _o, w, s) = setup_pointer_op_fixture();
    let i = state.ensure_tree_for_output(OutputId(1));
    state.output_trees[i].1.toggle_floating(w.0, Rect::new(100, 50, 800, 600));

    state.handle_event(Event::PointerMoveRequested {
        window_id: w,
        seat_id: s,
    });
    let (_, rect) = state.compute_op_rect(s, 9000, 9000).expect("op rect computed");
    assert_eq!(rect.width, 800);
    assert!(rect.x >= 0, "x must stay within output");
    assert!(rect.y >= 0, "y must stay within output");
    let max_x = 1920 - 800;
    let max_y = 1080 - 600;
    assert_eq!(rect.x, max_x, "x clamps to right edge");
    assert_eq!(rect.y, max_y, "y clamps to bottom edge");
}

#[test]
fn op_delta_resize_right_edge_grows_width() {
    let (mut state, _o, w, s) = setup_pointer_op_fixture();

    state.handle_event(Event::PointerResizeRequested {
        window_id: w,
        seat_id: s,
        edges: 0b1000,
    });
    let (_, rect) = state.compute_op_rect(s, 200, 0).expect("op rect computed");
    assert_eq!(rect.x, 0);
    assert_eq!(rect.width, 1920 + 200, "right edge grows width");
}

#[test]
fn op_delta_resize_left_edge_shrinks_from_left() {
    let (mut state, _o, w, s) = setup_pointer_op_fixture();

    state.handle_event(Event::PointerResizeRequested {
        window_id: w,
        seat_id: s,
        edges: 0b0100,
    });
    let (_, rect) = state.compute_op_rect(s, 200, 0).expect("op rect computed");
    assert_eq!(rect.x, 200, "left edge moves right by dx");
    assert_eq!(rect.width, 1920 - 200, "left edge shrinks width");
}

#[test]
fn op_delta_resize_clamps_to_dimensions_hint() {
    let (mut state, _o, w, s) = setup_pointer_op_fixture();

    state.handle_event(Event::DimensionsHint {
        window_id: w,
        min_w: 1500,
        min_h: 0,
        max_w: 0,
        max_h: 0,
    });
    state.handle_event(Event::PointerResizeRequested {
        window_id: w,
        seat_id: s,
        edges: 0b0100,
    });
    let (_, rect) = state.compute_op_rect(s, 1000, 0).expect("op rect computed");
    assert_eq!(rect.width, 1500, "width clamped to min hint");
    assert_eq!(rect.x, 1920 - 1500, "left edge re-anchored to keep right fixed");
}

#[test]
fn op_release_flags_op_for_ending() {
    let (mut state, _o, w, s) = setup_pointer_op_fixture();

    state.handle_event(Event::PointerMoveRequested {
        window_id: w,
        seat_id: s,
    });
    state.handle_event(Event::OpRelease { seat_id: s });

    assert!(seat(&state, s).op_ending, "release must schedule op_end");
    assert!(state.seat_op_active(s), "op stays active until op_end");
}

#[test]
fn pointer_op_ignored_while_another_active() {
    let (mut state, _o, w, s) = setup_pointer_op_fixture();

    state.handle_event(Event::PointerMoveRequested {
        window_id: w,
        seat_id: s,
    });
    state.handle_event(Event::PointerMoveRequested {
        window_id: w,
        seat_id: s,
    });
    match &seat(&state, s).op {
        InteractiveOp::Move { initial_rect, .. } => {
            assert_eq!(initial_rect.width, 1920, "initial rect unchanged by duplicate request");
        },
        _ => panic!("expected Move op to be retained"),
    }
}

/// One pseudo-tiled window that has round-tripped through fullscreen.
/// Returns the state, the output id, the window id, and the initial
/// pseudo-tiled rect.
fn setup_pseudo_fullscreen_roundtrip() -> (WMState, OutputId, WindowId, Rect) {
    let mut state = WMState::new();
    let o = OutputId(1);
    state.outputs.push(output_with(o, 1920, 1080));
    state.focused_output = Some(o);

    let w = WindowId(1);
    state.windows.push(Window::new(w, o));
    tree(&mut state, o).insert_window(w.0);
    state.focus.focused_window = Some(w.0);

    // Spawn pseudo-tiled at the output fraction.
    let output_rect = Rect::new(0, 0, 1920, 1080);
    let ratio = state.float_ratio;
    let pseudo = window(&state, w).pseudo_tiled_rect(output_rect, ratio);
    tree(&mut state, o).set_window_state(w.0, WindowState::PseudoTiled { rect: pseudo });

    // Round-trip through fullscreen.
    tree(&mut state, o).toggle_fullscreen(w.0);

    (state, o, w, pseudo)
}

#[test]
fn pseudo_tiled_after_fullscreen_keeps_pseudo_size() {
    let (mut state, o, w2, pseudo) = setup_pseudo_fullscreen_roundtrip();

    // Toggle fullscreen back -> pseudo.
    tree(&mut state, o).toggle_fullscreen(w2.0);

    let (_, window_rect, state_w2) = tree(&mut state, o)
        .arranged_windows()
        .into_iter()
        .find(|(id, _, _)| *id == w2.0)
        .unwrap();
    assert_eq!(state_w2, WindowState::PseudoTiled { rect: pseudo });
    assert_eq!(
        window_rect.width, pseudo.width,
        "pseudo window reused stale fullscreen dimensions"
    );
}

#[test]
fn toggle_from_fullscreen_to_float_keeps_float_size() {
    let (mut state, o, w, pseudo) = setup_pseudo_fullscreen_roundtrip();

    // Toggle directly to floating from fullscreen.
    state.change_focused_state(StateChange::ToggleFloating);

    let (_, window_rect, state_w) = tree(&mut state, o)
        .arranged_windows()
        .into_iter()
        .find(|(id, _, _)| *id == w.0)
        .unwrap();
    assert_eq!(state_w, WindowState::Floating { rect: pseudo });
    assert_eq!(
        window_rect.width, pseudo.width,
        "float toggled from fullscreen reused stale fullscreen dimensions"
    );
}

#[test]
fn toggle_from_fullscreen_to_pseudo_keeps_pseudo_size() {
    let (mut state, o, w, pseudo) = setup_pseudo_fullscreen_roundtrip();

    state.change_focused_state(StateChange::TogglePseudoTiled);

    let (_, window_rect, state_w) = tree(&mut state, o)
        .arranged_windows()
        .into_iter()
        .find(|(id, _, _)| *id == w.0)
        .unwrap();
    assert_eq!(state_w, WindowState::PseudoTiled { rect: pseudo });
    assert_eq!(
        window_rect.width, pseudo.width,
        "pseudo toggled from fullscreen reused stale fullscreen dimensions"
    );
}

#[test]
fn op_delta_is_a_total_not_a_step() {
    let (mut state, _o, w, s) = setup_pointer_op_fixture();
    let i = state.ensure_tree_for_output(OutputId(1));
    state.output_trees[i].1.toggle_floating(w.0, Rect::new(100, 50, 800, 600));
    state.handle_event(Event::PointerMoveRequested {
        window_id: w,
        seat_id: s,
    });
    let expected = state.compute_op_rect(s, 100, 50).expect("op rect computed");

    state.handle_event(Event::OpDelta { seat_id: s, dx: 10, dy: 10 });
    state.handle_event(Event::OpDelta { seat_id: s, dx: 100, dy: 50 });

    let k = state.find_seat(s).unwrap();
    assert_eq!(state.seats[k].1.pending_float, Some(expected));
    assert_eq!(expected.1.x, 200);
    assert_eq!(expected.1.y, 100);
}

#[test]
fn closing_focused_window_keeps_focus_in_step_across_outputs() {
    let mut state = WMState::new();
    let o1 = OutputId(1);
    let o2 = OutputId(2);
    state.outputs.push(output_with(o1, 1920, 1080));
    let mut second = output_with(o2, 1920, 1080);
    second.set_position(1920, 0);
    state.outputs.push(second);
    state.focused_output = Some(o1);

    let a = WindowId(1);
    let b = WindowId(2);
    let c = WindowId(3);
    state.handle_event(Event::WindowCreated { window_id: a, target_output: o1 });
    state.handle_event(Event::WindowCreated { window_id: b, target_output: o2 });
    state.handle_event(Event::WindowCreated { window_id: c, target_output: o2 });
    assert_eq!(focused_window(&state), Some(c));
    assert_eq!(state.focused_output, Some(o2));

    state.handle_event(Event::WindowClosed { window_id: c });
    assert_eq!(focused_window(&state), Some(b));
    assert_eq!(state.focused_output, Some(o2));
    assert_eq!(focused_tree(&mut state).focused_window(), Some(b.0));

    state.handle_event(Event::WindowClosed { window_id: b });
    assert_eq!(focused_window(&state), Some(a));
    assert_eq!(state.focused_output, Some(o1));
    assert_eq!(focused_tree(&mut state).focused_window(), Some(a.0));
    assert_eq!(tree(&mut state, o2).focused_window(), None);
}

#[test]
fn window_events_keep_focus_in_step() {
    let (mut state, o, a) = setup_handle_event_fixture();
    let b = WindowId(2);
    state.handle_event(Event::WindowCreated { window_id: a, target_output: o });
    state.handle_event(Event::WindowCreated { window_id: b, target_output: o });

    state.handle_event(Event::FullscreenRequested { window_id: a });
    state.handle_event(Event::TitleUpdated { window_id: b, title: Some("pinned".to_string()) });
    state.handle_event(Event::OutputDimensionsUpdated { output_id: o, w: 1280, h: 720 });
    state.handle_event(Event::PidUpdated { window_id: a, pid: 7 });

    assert_eq!(focused_window(&state), Some(b));
    assert_eq!(state.focused_output, Some(o));
    assert_eq!(focused_tree(&mut state).focused_window(), Some(b.0));
    assert!(tree(&mut state, o).contains_window(a.0));
}
