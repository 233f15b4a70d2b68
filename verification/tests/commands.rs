use fenestre::geometry::FocusDirection;
use fenestre::output::{Output, OutputId};
use fenestre::window::{Window, WindowId};
use fenestre::wm::WMState;

fn positioned_output(state: &mut WMState, id: OutputId, x: i32, y: i32, w: i32, h: i32) {
    let mut output = Output::new(id);
    output.set_position(x, y);
    output.set_dimensions(w, h);
    state.outputs.push(output);
}

#[test]
fn focus_output_direction_moves_right() {
    let mut state = WMState::new();
    positioned_output(&mut state, OutputId(1), 0, 0, 1920, 1080);
    positioned_output(&mut state, OutputId(2), 1920, 0, 1920, 1080);
    state.focused_output = Some(OutputId(1));

    state.focus_output_direction(FocusDirection::Right);

    assert_eq!(state.focused_output, Some(OutputId(2)));
}

#[test]
fn focus_output_direction_moves_left() {
    let mut state = WMState::new();
    positioned_output(&mut state, OutputId(1), 0, 0, 1920, 1080);
    positioned_output(&mut state, OutputId(2), 1920, 0, 1920, 1080);
    state.focused_output = Some(OutputId(2));

    state.focus_output_direction(FocusDirection::Left);

    assert_eq!(state.focused_output, Some(OutputId(1)));
}

#[test]
fn focus_output_direction_moves_vertically() {
    let mut state = WMState::new();
    positioned_output(&mut state, OutputId(1), 0, 0, 1920, 1080);
    positioned_output(&mut state, OutputId(2), 0, 1080, 1920, 1080);
    state.focused_output = Some(OutputId(1));

    state.focus_output_direction(FocusDirection::Down);
    assert_eq!(state.focused_output, Some(OutputId(2)));

    state.focus_output_direction(FocusDirection::Up);
    assert_eq!(state.focused_output, Some(OutputId(1)));
}

#[test]
fn focus_output_direction_no_op_without_candidate() {
    let mut state = WMState::new();
    positioned_output(&mut state, OutputId(1), 0, 0, 1920, 1080);
    positioned_output(&mut state, OutputId(2), 1920, 0, 1920, 1080);
    state.focused_output = Some(OutputId(1));

    state.focus_output_direction(FocusDirection::Left);

    assert_eq!(state.focused_output, Some(OutputId(1)));
}

#[test]
fn focus_output_direction_ignores_unpositioned_outputs() {
    let mut state = WMState::new();
    positioned_output(&mut state, OutputId(1), 0, 0, 1920, 1080);
    positioned_output(&mut state, OutputId(2), 1920, 0, 1920, 1080);
    // Output 3 has no position, so it can never be a directional candidate.
    state.outputs.push(Output::new(OutputId(3)));
    state.focused_output = Some(OutputId(1));

    state.focus_output_direction(FocusDirection::Right);

    assert_eq!(state.focused_output, Some(OutputId(2)));
}

#[test]
fn focus_output_direction_focuses_target_tree_window() {
    let mut state = WMState::new();
    positioned_output(&mut state, OutputId(1), 0, 0, 1920, 1080);
    positioned_output(&mut state, OutputId(2), 1920, 0, 1920, 1080);
    state.focused_output = Some(OutputId(1));

    for (id, output_id) in [(WindowId(10), OutputId(2)), (WindowId(11), OutputId(2))] {
        let window = Window::new(id, output_id);
        state.windows.push(window);
    }
    let i = state.tree_for_output(OutputId(2)).unwrap();
    let tree = &mut state.output_trees[i].1;
    tree.insert_window(10);
    tree.insert_window(11);
    tree.focus_window(10);

    state.focus_output_direction(FocusDirection::Right);

    assert_eq!(state.focused_output, Some(OutputId(2)));
    assert_eq!(state.focus.focused_window, Some(10));
}
