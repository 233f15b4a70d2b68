use fenestre::config::LayoutConfig;
use fenestre::geometry::{FocusDirection, Rect};
use fenestre::output::{Output, OutputId};
use fenestre::scene::{Effect, ALL_EDGES};
use fenestre::seat::{InteractiveOp, Seat, SeatId};
use fenestre::tree::LayoutTree;
use fenestre::window::{Window, WindowId};
use fenestre::wm::{Appearance, Event, WMState};

fn tree_of(state: &mut WMState, o: OutputId) -> &mut LayoutTree {
    let i = state.tree_for_output(o).unwrap();
    &mut state.output_trees[i].1
}

fn seat_mut(state: &mut WMState, s: SeatId) -> &mut Seat {
    let i = state.find_seat(s).unwrap();
    &mut state.seats[i].1
}

fn plain_appearance() -> Appearance {
    Appearance {
        decorations: false,
        border_width: Some(2),
        border_color_focused: Some(0xffffffff),
        border_color_unfocused: Some(0xffffffff),
    }
}

#[test]
fn pending_split_gives_focused_window_preview_border() {
    let mut state = WMState::new();
    let o1 = OutputId(1);
    state.outputs.push(Output::new(o1));
    state.focused_output = Some(o1);
    let w1 = WindowId(1);
    state.windows.push(Window::new(w1, o1));
    state.output_trees.push((o1, LayoutTree::new(Rect::new(0, 0, 1000, 100))));
    tree_of(&mut state, o1).insert_window(1);
    state.focus_window_id(w1);
    state.pending_split = Some(FocusDirection::Right);
    state.layout_config = Some(LayoutConfig {
        preview_border_color: Some(0xff0000ff),
        preview_border_width: Some(3),
        ..Default::default()
    });
    state.appearance = plain_appearance();

    let scene = state.desired_scene();

    let entry = scene.iter().find(|e| e.window_id == w1).unwrap();
    assert!(entry.border.is_some());
    let (edges, width, _r, _g, _b, _a) = entry.border.unwrap();
    assert_eq!(edges, 0b1000);
    assert_eq!(width, 3);
}

#[test]
fn pending_split_none_gives_normal_border() {
    let mut state = WMState::new();
    let o1 = OutputId(1);
    state.outputs.push(Output::new(o1));
    state.focused_output = Some(o1);
    let w1 = WindowId(1);
    state.windows.push(Window::new(w1, o1));
    state.output_trees.push((o1, LayoutTree::new(Rect::new(0, 0, 1000, 100))));
    tree_of(&mut state, o1).insert_window(1);
    state.focus_window_id(w1);
    state.pending_split = None;
    state.layout_config = Some(LayoutConfig::default());
    state.appearance = plain_appearance();

    let scene = state.desired_scene();

    let entry = scene.iter().find(|e| e.window_id == w1).unwrap();
    assert!(entry.border.is_some());
    let (edges, width, _r, _g, _b, _a) = entry.border.unwrap();
    assert_eq!(edges, ALL_EDGES);
    assert_eq!(width, 2);
}

/// One output, one tiled window, and one seat.
fn setup_pointer_scene_fixture() -> (WMState, OutputId, WindowId, SeatId) {
    let mut state = WMState::new();
    let o1 = OutputId(1);
    state.outputs.push(Output::new(o1));
    state.focused_output = Some(o1);
    let w1 = WindowId(1);
    state.windows.push(Window::new(w1, o1));
    state.output_trees.push((o1, LayoutTree::new(Rect::new(0, 0, 1000, 800))));
    tree_of(&mut state, o1).insert_window(1);
    tree_of(&mut state, o1).arrange();
    let i = state.find_window(w1).unwrap();
    state.windows[i].set_layout_rect(Rect::new(0, 0, 1000, 800));
    let s1 = SeatId(1);
    state.seats.push((s1, Seat::new()));
    (state, o1, w1, s1)
}

#[test]
fn transition_starts_move_op() {
    let (mut state, _o, w1, s1) = setup_pointer_scene_fixture();

    seat_mut(&mut state, s1).op = InteractiveOp::Move {
        window_id: w1,
        initial_rect: Rect::new(0, 0, 1000, 800),
    };

    let effects = state.transition_pointer_ops();

    assert!(
        effects
            .iter()
            .any(|e| matches!(e, Effect::StartPointerOp { seat_id } if *seat_id == s1)),
        "move op must emit StartPointerOp"
    );
    // After starting, the op is marked started.
    assert!(seat_mut(&mut state, s1).op_started, "op marked started");
}

#[test]
fn transition_starts_resize_op_with_inform_resize() {
    let (mut state, _o, w1, s1) = setup_pointer_scene_fixture();

    seat_mut(&mut state, s1).op = InteractiveOp::Resize {
        window_id: w1,
        edges: 0b1000,
        initial_rect: Rect::new(0, 0, 1000, 800),
    };

    let effects = state.transition_pointer_ops();

    assert!(
        effects
            .iter()
            .any(|e| matches!(e, Effect::StartPointerOp { seat_id } if *seat_id == s1)),
        "resize op must emit StartPointerOp"
    );
    assert!(
        effects
            .iter()
            .any(|e| matches!(e, Effect::InformResizeStart { window_id } if *window_id == w1)),
        "resize op must inform the window it is resizing"
    );
}

#[test]
fn transition_ends_op_with_inform_resize_end() {
    let (mut state, _o, w1, s1) = setup_pointer_scene_fixture();

    let seat = seat_mut(&mut state, s1);
    seat.op = InteractiveOp::Resize {
        window_id: w1,
        edges: 0b1000,
        initial_rect: Rect::new(0, 0, 1000, 800),
    };
    seat.op_started = true;
    seat.op_ending = true;

    let effects = state.transition_pointer_ops();

    assert!(
        effects
            .iter()
            .any(|e| matches!(e, Effect::EndPointerOp { seat_id } if *seat_id == s1)),
        "release must emit EndPointerOp"
    );
    assert!(
        effects
            .iter()
            .any(|e| matches!(e, Effect::InformResizeEnd { window_id } if *window_id == w1)),
        "resize end must inform the window"
    );
    // The op is cleared.
    assert!(!seat_mut(&mut state, s1).op.is_active(), "op cleared after end");
}

#[test]
fn transition_noop_when_no_op() {
    let (mut state, _o, _w1, s1) = setup_pointer_scene_fixture();

    let effects = state.transition_pointer_ops();
    assert!(effects.is_empty(), "no effects when no op is active");
    let _ = s1;
}

// Focusing a second floating window promotes exactly the newly focused window
// in the stacking order and demotes the previously focused one.
#[test]
fn focusing_second_floating_window_promotes_only_new_focus() {
    let mut state = WMState::new();
    let o1 = OutputId(1);
    state.outputs.push(Output::new(o1));
    state.focused_output = Some(o1);
    let w1 = WindowId(1);
    let w2 = WindowId(2);
    for (wid, node) in [(w1, 1u32), (w2, 2u32)] {
        state.windows.push(Window::new(wid, o1));
        tree_of(&mut state, o1).insert_window(node);
    }
    // Both windows floating so their z tuples can diverge on focus.
    tree_of(&mut state, o1).toggle_floating(1, Rect::new(0, 0, 400, 300));
    tree_of(&mut state, o1).toggle_floating(2, Rect::new(400, 0, 400, 300));

    // Focus w1, snapshot its scene (w1 promoted, w2 demoted).
    state.focus_window_id(w1);
    let scene_a = state.desired_scene();
    let z1_a = scene_a.iter().find(|e| e.window_id == w1).unwrap().z;
    let z2_a = scene_a.iter().find(|e| e.window_id == w2).unwrap().z;

    // Focus w2, snapshot again.
    state.focus_window_id(w2);
    let scene_b = state.desired_scene();
    let z1_b = scene_b.iter().find(|e| e.window_id == w1).unwrap().z;
    let z2_b = scene_b.iter().find(|e| e.window_id == w2).unwrap().z;

    assert!(z1_b <= z1_a, "previously focused window demotes");
    assert!(z2_b > z2_a, "newly focused window promotes");
    assert!(z2_b > z1_b, "newly focused floating window ends on top");
}

// The layer-shell default is flagged for re-emission when the first output
// is created, even though no focus change occurs.
#[test]
fn output_created_without_prior_focus_flags_layer_shell_default() {
    let mut state = WMState::new();
    assert!(!state.layer_shell_default_dirty);

    let o1 = OutputId(1);
    state.handle_event(Event::OutputCreated { output_id: o1 });

    assert_eq!(state.focused_output, Some(o1));
    assert!(
        state.layer_shell_default_dirty,
        "first OutputCreated must flag the layer-shell default for emission"
    );
}

fn one_bordered_window(configured: bool) -> WMState {
    let mut state = WMState::new();
    let o1 = OutputId(1);
    state.outputs.push(Output::new(o1));
    state.focused_output = Some(o1);
    let w1 = WindowId(1);
    let w2 = WindowId(2);
    state.windows.push(Window::new(w1, o1));
    state.windows.push(Window::new(w2, o1));
    state.output_trees.push((o1, LayoutTree::new(Rect::new(0, 0, 1000, 100))));
    tree_of(&mut state, o1).insert_window(1);
    tree_of(&mut state, o1).insert_window(2);
    state.focus_window_id(w1);
    state.appearance = Appearance {
        decorations: false,
        border_width: None,
        border_color_focused: None,
        border_color_unfocused: None,
    };
    if configured {
        state.layout_config = Some(LayoutConfig::default());
    }
    state
}

#[test]
fn borders_are_raw_opaque_white_without_configuration() {
    let state = one_bordered_window(false);
    let scene = state.desired_scene();
    for e in scene.iter() {
        let (_edges, width, r, g, b, a) = e.border.unwrap();
        assert_eq!(width, 0);
        assert_eq!((r, g, b, a), (0xff, 0xff, 0xff, 0xff));
    }
    assert_eq!(scene.len(), 2);
}

#[test]
fn borders_are_scaled_opaque_white_with_configuration() {
    let state = one_bordered_window(true);
    let scene = state.desired_scene();
    for e in scene.iter() {
        let (_edges, _width, r, g, b, a) = e.border.unwrap();
        assert_eq!((r, g, b, a), (u32::MAX, u32::MAX, u32::MAX, u32::MAX));
    }
    assert_eq!(scene.len(), 2);
}
