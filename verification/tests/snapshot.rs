use fenestre::output::{Output, OutputId};
use fenestre::window::Dimensions;
use fenestre::tree::LayoutTree;
use fenestre::window::{Window, WindowId};
use fenestre::wm::WMState;

fn tree_of(state: &mut WMState, o: OutputId) -> &mut LayoutTree {
    let i = state.tree_for_output(o).unwrap();
    &mut state.output_trees[i].1
}

#[test]
fn snapshot_windows_returns_all_windows() {
    let mut state = WMState::new();
    let oid = OutputId(1);
    let mut output = Output::new(oid);
    output.dimensions = Some(Dimensions { width: 1920, height: 1080 });
    state.outputs.push(output);
    let wid = WindowId(1);
    state.windows.push(Window::new(wid, oid));
    tree_of(&mut state, oid).insert_window(1);
    state.push_focus(wid);
    tree_of(&mut state, oid).arranged_windows();

    let arr = state.snapshot_windows();
    assert_eq!(arr.len(), 1);
    assert_eq!(arr[0].id, 1);
    assert_eq!(arr[0].state, "tiled");
    assert_eq!(arr[0].rect.x, 0);
    assert_eq!(arr[0].rect.y, 0);
    assert!(arr[0].rect.width > 0);
    assert!(arr[0].rect.height > 0);
}

#[test]
fn snapshot_focused_returns_current_focus() {
    let mut state = WMState::new();
    let oid = OutputId(1);
    state.outputs.push(Output::new(oid));
    let wid = WindowId(1);
    state.windows.push(Window::new(wid, oid));
    tree_of(&mut state, oid).insert_window(1);
    state.focus_window_id(wid);

    let focused = state.snapshot_focused();
    assert_eq!(focused.window_id, Some(1));
    assert_eq!(focused.output_id, Some(1));
}

#[test]
fn snapshot_outputs_with_geometry_reports_rect_and_work_area() {
    let mut state = WMState::new();
    let oid = OutputId(1);
    let mut output = Output::new(oid);
    output.dimensions = Some(Dimensions { width: 1920, height: 1080 });
    output.position = Some((20, 10));
    state.outputs.push(output);
    let wid = WindowId(1);
    state.windows.push(Window::new(wid, oid));
    tree_of(&mut state, oid).insert_window(1);
    state.focus_window_id(wid);

    let arr = state.snapshot_outputs();
    assert_eq!(arr.len(), 1);
    assert_eq!(arr[0].id, 1);
    let rect = arr[0].rect.unwrap();
    assert_eq!((rect.x, rect.y, rect.width, rect.height), (20, 10, 1920, 1080));
    let work_area = arr[0].work_area.unwrap();
    assert_eq!(
        (work_area.x, work_area.y, work_area.width, work_area.height),
        (20, 10, 1920, 1080)
    );
    assert_eq!(arr[0].focused_window, Some(1));
}

#[test]
fn snapshot_outputs_without_geometry_has_null_rects() {
    let mut state = WMState::new();
    let oid = OutputId(1);
    // Output has no dimensions or position: no rect and no work area.
    state.outputs.push(Output::new(oid));
    let arr = state.snapshot_outputs();
    assert_eq!(arr.len(), 1);
    assert_eq!(arr[0].id, 1);
    assert!(arr[0].rect.is_none());
    assert!(arr[0].work_area.is_none());
    assert!(arr[0].focused_window.is_none());
}

#[test]
fn snapshot_outputs_lists_multiple_outputs() {
    let mut state = WMState::new();
    state.outputs.push(Output::new(OutputId(1)));
    state.outputs.push(Output::new(OutputId(2)));

    let arr = state.snapshot_outputs();
    assert_eq!(arr.len(), 2);
    let ids: Vec<u32> = arr.iter().map(|o| o.id).collect();
    assert!(ids.contains(&1));
    assert!(ids.contains(&2));
}

#[test]
fn snapshot_windows_reports_title_app_id_and_floating_state() {
    let mut state = WMState::new();
    let oid = OutputId(1);
    let mut output = Output::new(oid);
    output.dimensions = Some(Dimensions { width: 1000, height: 800 });
    state.outputs.push(output);
    let mut window = Window::new(WindowId(3), oid);
    window.title = Some("notes".to_string());
    window.app_id = Some("editor".to_string());
    window.pid = 42;
    state.windows.push(window);
    tree_of(&mut state, oid).insert_window(3);
    tree_of(&mut state, oid).toggle_floating(3, fenestre::geometry::Rect::new(5, 6, 100, 50));
    tree_of(&mut state, oid).arranged_windows();

    let arr = state.snapshot_windows();
    assert_eq!(arr.len(), 1);
    assert_eq!(arr[0].output_id, 1);
    assert_eq!(arr[0].title, "notes");
    assert_eq!(arr[0].app_id, "editor");
    assert_eq!(arr[0].pid, 42);
    assert_eq!(arr[0].state, "floating");
}

#[test]
fn snapshot_focused_lists_focus_stack() {
    let mut state = WMState::new();
    let oid = OutputId(1);
    state.outputs.push(Output::new(oid));
    for id in [1u32, 2] {
        state.windows.push(Window::new(WindowId(id), oid));
        tree_of(&mut state, oid).insert_window(id);
        state.focus_window_id(WindowId(id));
    }
    let focused = state.snapshot_focused();
    assert_eq!(focused.window_id, Some(2));
    assert_eq!(focused.focus_stack, state.focus.stack);
    assert_eq!(focused.focus_stack.len(), 2);
}
