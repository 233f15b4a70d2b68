use fenestre::geometry::{Rect, WindowState};
use fenestre::tree::LayoutTree;
use fenestre::output::{Output, OutputId};
use fenestre::window::{Window, WindowId};
use fenestre::wm::WMState;

fn tree_of(state: &mut WMState, o: OutputId) -> &mut LayoutTree {
    let i = state.tree_for_output(o).unwrap();
    &mut state.output_trees[i].1
}

fn focused_tree(state: &mut WMState) -> &mut LayoutTree {
    let i = state.focused_tree().unwrap();
    &mut state.output_trees[i].1
}

fn window(state: &WMState, w: WindowId) -> &Window {
    &state.windows[state.find_window(w).unwrap()]
}

fn focused_window(state: &WMState) -> Option<WindowId> {
    state.focus.focused_window.map(WindowId)
}

fn remove_output_record(state: &mut WMState, o: OutputId) {
    let i = state.find_output(o).unwrap();
    state.outputs.remove(i);
}

#[test]
fn reassign_output_moves_windows_and_updates_output_id() {
    let mut state = WMState::new();
    let o1 = OutputId(1);
    let o2 = OutputId(2);
    state.outputs.push(Output::new(o1));
    state.outputs.push(Output::new(o2));

    let w1 = WindowId(1);
    state.windows.push(Window::new(w1, o1));
    tree_of(&mut state, o1).insert_window(w1.0);

    state.reassign_output(o1, o2);
    assert_eq!(window(&state, w1).output_id, o2);
    assert!(state.find_tree(o2).is_some());
    assert!(!state.find_tree(o1).is_some());
}

/// When the globally focused window is moved to another output, its new
/// output id must be reflected in `focused_output` (via `focus_window_id`),
/// not left dangling on the old output.
///
/// Reassigning windows into a destination output while the globally focused
/// window lives on a *third* output must preserve the destination's own
/// remembered focus. Otherwise `focus_output(to)` would later focus an
/// arbitrary window moved in from `from` instead of the window the user last
/// had focused there.
#[test]
fn reassign_output_preserves_destination_focus_when_focus_elsewhere() {
    let mut state = WMState::new();
    let o1 = OutputId(1);
    let o2 = OutputId(2);
    let o3 = OutputId(3);
    for (o, x) in [(o1, 0), (o2, 1920), (o3, 3840)] {
        let mut out = Output::new(o);
        out.set_dimensions(1920, 1080);
        out.set_position(x, 0);
        state.outputs.push(out);
    }

    // `o2` has two windows; A is its last-focused (remembered) window.
    let a = WindowId(1);
    let b = WindowId(2);
    state.windows.push(Window::new(a, o2));
    state.windows.push(Window::new(b, o2));
    tree_of(&mut state, o2).insert_window(a.0);
    tree_of(&mut state, o2).insert_window(b.0);
    // Make A the remembered focus on o2.
    tree_of(&mut state, o2).focus_window(a.0);
    assert_eq!(
        tree_of(&mut state, o2).focused_window(),
        Some(a.0)
    );

    // `o1` has a window X that we will reassign into o2.
    let x = WindowId(3);
    state.windows.push(Window::new(x, o1));
    tree_of(&mut state, o1).insert_window(x.0);

    // Global focus is on o3 (a third output), unrelated to the move.
    let c = WindowId(4);
    state.windows.push(Window::new(c, o3));
    tree_of(&mut state, o3).insert_window(c.0);
    state.focus_window_id(c);
    assert_eq!(focused_window(&state), Some(c));
    assert_eq!(state.focused_output, Some(o3));

    // Reassign o1 -> o2 while focus is on o3.
    state.reassign_output(o1, o2);

    // Windows moved correctly.
    assert_eq!(window(&state, x).output_id, o2);
    // Global focus must stay on o3 / c.
    assert_eq!(focused_window(&state), Some(c));
    assert_eq!(state.focused_output, Some(o3));
    // o2's own remembered focus (A) must survive, not be clobbered to the
    // last-inserted window X.
    assert_eq!(
        tree_of(&mut state, o2).focused_window(),
        Some(a.0),
        "destination output's remembered focus was clobbered on reassign"
    );
}

#[test]
fn reassign_output_keeps_focused_window_synced() {
    let mut state = WMState::new();
    let o1 = OutputId(1);
    let o2 = OutputId(2);
    state.outputs.push(Output::new(o1));
    state.outputs.push(Output::new(o2));

    let w1 = WindowId(1);
    state.windows.push(Window::new(w1, o1));
    tree_of(&mut state, o1).insert_window(w1.0);
    state.push_focus(w1);
    state.focused_output = Some(o1);

    state.reassign_output(o1, o2);

    assert_eq!(window(&state, w1).output_id, o2);
    assert_eq!(focused_window(&state), Some(w1));
    assert_eq!(state.focused_output, Some(o2));
    assert_eq!(focused_tree(&mut state).focused_window(), Some(1));
}

#[test]
fn reassign_output_preserves_fullscreen_base_state() {
    let mut state = WMState::new();
    let o1 = OutputId(1);
    let o2 = OutputId(2);
    state.outputs.push(Output::new(o1));
    state.outputs.push(Output::new(o2));
    state.focused_output = Some(o1);

    let w1 = WindowId(1);
    state.windows.push(Window::new(w1, o1));
    let tree = tree_of(&mut state, o1);
    tree.insert_window(w1.0);
    let rect = Rect::new(0, 0, 100, 100);
    tree.toggle_pseudo_tiled(w1.0, rect);
    tree.toggle_fullscreen(w1.0);

    state.reassign_output(o1, o2);

    let o2_tree = tree_of(&mut state, o2);
    let fullscreen_state = o2_tree.window_state(w1.0).unwrap().clone();
    let WindowState::Fullscreen { restore } = fullscreen_state else {
        panic!("expected fullscreen");
    };
    assert_eq!(*restore, WindowState::PseudoTiled { rect });
    assert!(o2_tree.window_is_fullscreen(w1.0));

    // Un-fullscreening should return to PseudoTiled, not Tiled.
    o2_tree.toggle_fullscreen(w1.0);
    let state_after = o2_tree
        .arranged_windows()
        .into_iter()
        .find(|(id, _, _)| *id == w1.0)
        .map(|(_, _, s)| s);
    assert_eq!(
        state_after,
        Some(WindowState::PseudoTiled { rect })
    );
}

/// Reassigning windows to another output must preserve split directions,
/// not collapse every split to Vertical. `reassign_output` inserts with
/// `insert_window` (which arranges before deciding each split direction),
/// so the rebuilt tree reflects the destination output's real geometry.
#[test]
fn reassign_output_preserves_split_directions() {
    let mut state = WMState::new();
    let o1 = OutputId(1);
    let o2 = OutputId(2);
    for (o, w, h) in [(o1, 100, 1000), (o2, 1000, 100)] {
        let mut out = Output::new(o);
        out.set_dimensions(w, h);
        state.outputs.push(out);
    }
    state.focused_output = Some(o1);

    let a = WindowId(1);
    let b = WindowId(2);
    let c = WindowId(3);
    for w in [a, b, c] {
        state.windows.push(Window::new(w, o1));
        tree_of(&mut state, o1).insert_window(w.0);
        state.push_focus(w);
    }

    // Source uses a horizontal-first split (tall output): the first window
    // occupies the full width and half the height.
    let src = tree_of(&mut state, o1).arranged_windows();
    let a_src = src.iter().find(|(id, _, _)| *id == a.0).unwrap();
    assert_eq!(a_src.1.height, 500, "source precondition");

    state.reassign_output(o1, o2);

    // Source is tall (100×1000): horizontal-first split gives the first
    // window full width and half height. Destination is wide (1000×100):
    // the rebuilt tree must adapt to a vertical-first split, so the first
    // window gets full height and half width.
    let dst = tree_of(&mut state, o2).arranged_windows();
    let a_dst = dst.iter().find(|(id, _, _)| *id == a.0).unwrap();
    assert_eq!(
        a_dst.1.height, 100,
        "reassign did not adapt to destination geometry (height {})",
        a_dst.1.height
    );
    assert_eq!(
        a_dst.1.width, 500,
        "reassign did not adapt to destination geometry (width {})",
        a_dst.1.width
    );
}

/// Regression test: when an output is removed and later recreated, the
/// windows are drained from the orphan tree into the new output before the
/// compositor has sent its geometry. Re-inserting into a zero-area tree
/// collapsed every split to Vertical; the topology must instead be cloned
/// from the source so the user's layout survives the recreate.
#[test]
fn reassign_output_into_dimensionless_output_preserves_topology() {
    let mut state = WMState::new();
    let o1 = OutputId(1);
    let o2 = OutputId(2);

    // Source: a tall output so the first split is Horizontal (windows stacked).
    let mut out1 = Output::new(o1);
    out1.set_dimensions(100, 1000);
    state.outputs.push(out1);

    let a = WindowId(1);
    let b = WindowId(2);
    let c = WindowId(3);
    for w in [a, b, c] {
        state.windows.push(Window::new(w, o1));
        tree_of(&mut state, o1).insert_window(w.0);
        state.push_focus(w);
    }

    // Simulate output removal (orphan tree kept) then a recreate of o2
    // without dimensions yet.
    remove_output_record(&mut state, o1);
    state.outputs.push(Output::new(o2));

    state.reassign_output(o1, o2);

    // Give the recreated output real geometry and arrange.
    let rect = Rect::new(0, 0, 1000, 1000);
    tree_of(&mut state, o2).set_output_rect(rect);
    let dst = tree_of(&mut state, o2).arranged_windows();

    let a_dst = dst.iter().find(|(id, _, _)| *id == a.0).unwrap();
    let b_dst = dst.iter().find(|(id, _, _)| *id == b.0).unwrap();
    // With the all-vertical bug, `a` and `b` would share the same y (side by
    // side). A preserved horizontal-first topology stacks them (different y).
    assert_ne!(
        a_dst.1.y, b_dst.1.y,
        "recreate collapsed topology to all-vertical (same y: {})",
        a_dst.1.y
    );
    assert_eq!(window(&state, a).output_id, o2);
    assert_eq!(window(&state, b).output_id, o2);
    assert_eq!(window(&state, c).output_id, o2);
}

/// A realistic reassignment where the source output holds a *mixed* set of
/// window modes (tiled / floating / pseudo-tiled / fullscreen). The
/// destination already has real geometry, so `reassign_output` rebuilds the
/// destination tree (`rebuild_tree`). Every window must keep its mode on the
/// destination, and floating rects must survive unchanged when source and
/// destination share the same logical origin.
#[test]
fn reassign_with_rebuild_preserves_mixed_mode_set() {
    let mut state = WMState::new();
    let o1 = OutputId(1);
    let o2 = OutputId(2);
    for (o, w, h) in [(o1, 1920, 1080), (o2, 1920, 1080)] {
        let mut out = Output::new(o);
        out.set_dimensions(w, h);
        state.outputs.push(out);
    }
    state.focused_output = Some(o1);

    let tiled = WindowId(1);
    let floating = WindowId(2);
    let pseudo = WindowId(3);
    let full = WindowId(4);
    for w in [tiled, floating, pseudo, full] {
        state.windows.push(Window::new(w, o1));
        tree_of(&mut state, o1).insert_window(w.0);
        state.push_focus(w);
    }

    // Make the source tree hold every mode variant.
    let o1_rect = Rect::new(0, 0, 1920, 1080);
    let ratio = state.float_ratio;
    let float_rect = Rect::new(100, 100, 400, 300);
    tree_of(&mut state, o1)
        .toggle_floating(floating.0, float_rect);
    let pseudo_rect = window(&state, pseudo)
        .pseudo_tiled_rect(o1_rect, ratio);
    tree_of(&mut state, o1)
        .toggle_pseudo_tiled(pseudo.0, pseudo_rect);
    // Fullscreen with a plain Tiled base state.
    tree_of(&mut state, o1).toggle_fullscreen(full.0);

    state.reassign_output(o1, o2);

    let o2_tree = tree_of(&mut state, o2);
    assert_eq!(
        o2_tree.window_state(tiled.0).cloned(),
        Some(WindowState::Tiled)
    );
    assert_eq!(
        o2_tree.window_state(floating.0).cloned(),
        Some(WindowState::Floating { rect: float_rect })
    );
    assert_eq!(
        o2_tree.window_state(pseudo.0).cloned(),
        Some(WindowState::PseudoTiled { rect: pseudo_rect })
    );
    assert!(o2_tree.window_is_fullscreen(full.0));

    // Floating rect preserved (source and destination share their origin).
    let WindowState::Floating { rect } =
        o2_tree.window_state(floating.0).unwrap().clone()
    else {
        panic!("expected floating");
    };
    assert_eq!(rect, float_rect);

    // Fullscreen restore state preserved as Tiled (not clobbered).
    let WindowState::Fullscreen { restore } =
        o2_tree.window_state(full.0).unwrap().clone()
    else {
        panic!("expected fullscreen");
    };
    assert_eq!(*restore, WindowState::Tiled);

    // Un-fullscreening returns to the base Tiled state.
    o2_tree.toggle_fullscreen(full.0);
    assert_eq!(
        o2_tree.window_state(full.0).cloned(),
        Some(WindowState::Tiled)
    );
}

/// Reassign a fullscreen-over-floating window through the *rebuild* path
/// (destination has real geometry). The fullscreen base state must survive
/// as `Floating` and un-fullscreening must return to the exact float rect.
/// This covers the fullscreen-over-floating plan of `rebuild_tree`.
#[test]
fn reassign_with_rebuild_preserves_fullscreen_floating_base() {
    let mut state = WMState::new();
    let o1 = OutputId(1);
    let o2 = OutputId(2);
    for (o, w, h) in [(o1, 1920, 1080), (o2, 1920, 1080)] {
        let mut out = Output::new(o);
        out.set_dimensions(w, h);
        state.outputs.push(out);
    }
    state.focused_output = Some(o1);

    let w = WindowId(1);
    state.windows.push(Window::new(w, o1));
    let tree = tree_of(&mut state, o1);
    tree.insert_window(w.0);
    let float_rect = Rect::new(200, 150, 500, 400);
    tree.toggle_floating(w.0, float_rect);
    tree.toggle_fullscreen(w.0);

    state.reassign_output(o1, o2);

    let o2_tree = tree_of(&mut state, o2);
    assert!(o2_tree.window_is_fullscreen(w.0));
    let WindowState::Fullscreen { restore } =
        o2_tree.window_state(w.0).unwrap().clone()
    else {
        panic!("expected fullscreen");
    };
    assert_eq!(
        *restore,
        WindowState::Floating { rect: float_rect }
    );

    // Un-fullscreening returns to floating at the same rect.
    o2_tree.toggle_fullscreen(w.0);
    assert_eq!(
        o2_tree.window_state(w.0).cloned(),
        Some(WindowState::Floating { rect: float_rect })
    );
}

/// Reassign a fullscreen-over-pseudo-tiled window through the *rebuild*
/// path. The fullscreen base state must survive as `PseudoTiled`.
/// (`reassign_output_preserves_fullscreen_base_state` only exercises the
/// dimension-less path, `adopt_tree`; this covers the fullscreen-over-pseudo
/// plan of `rebuild_tree`.)
#[test]
fn reassign_with_rebuild_preserves_fullscreen_pseudo_base() {
    let mut state = WMState::new();
    let o1 = OutputId(1);
    let o2 = OutputId(2);
    for (o, w, h) in [(o1, 1920, 1080), (o2, 1920, 1080)] {
        let mut out = Output::new(o);
        out.set_dimensions(w, h);
        state.outputs.push(out);
    }
    state.focused_output = Some(o1);

    let w = WindowId(1);
    state.windows.push(Window::new(w, o1));
    let tree = tree_of(&mut state, o1);
    tree.insert_window(w.0);
    let rect = Rect::new(0, 0, 100, 100);
    tree.toggle_pseudo_tiled(w.0, rect);
    tree.toggle_fullscreen(w.0);

    state.reassign_output(o1, o2);

    let o2_tree = tree_of(&mut state, o2);
    assert!(o2_tree.window_is_fullscreen(w.0));
    let WindowState::Fullscreen { restore } =
        o2_tree.window_state(w.0).unwrap().clone()
    else {
        panic!("expected fullscreen");
    };
    let expected_pseudo = Rect::new(480, 270, 960, 540);
    assert_eq!(
        *restore,
        WindowState::PseudoTiled {
            rect: expected_pseudo
        }
    );

    // Un-fullscreening returns to pseudo-tiled.
    o2_tree.toggle_fullscreen(w.0);
    assert_eq!(
        o2_tree.window_state(w.0).cloned(),
        Some(WindowState::PseudoTiled {
            rect: expected_pseudo
        })
    );
}

/// Reassign into a dimension-less (recreated) output while a window is
/// floating. The floating rect must be translated by the output position
/// delta `(dx, dy)` so the window stays under the cursor / in place on the
/// new output. This covers the shifting of floating rects in `adopt_tree`.
#[test]
fn reassign_into_dimensionless_output_translates_floating_rects() {
    let mut state = WMState::new();
    let o1 = OutputId(1);
    let o2 = OutputId(2);

    // Source at the origin with a real floating window.
    let mut out1 = Output::new(o1);
    out1.set_dimensions(1920, 1080);
    out1.set_position(0, 0);
    state.outputs.push(out1);

    let floating = WindowId(1);
    state.windows.push(Window::new(floating, o1));
    let tree = tree_of(&mut state, o1);
    tree.insert_window(floating.0);
    let src_rect = Rect::new(100, 50, 400, 300);
    tree.toggle_floating(floating.0, src_rect);
    state.push_focus(floating);

    // Recreate o2 at a different position, geometry not yet known.
    let mut out2 = Output::new(o2);
    out2.set_position(1920, 0);
    state.outputs.push(out2);

    state.reassign_output(o1, o2);

    // Give the recreated output real geometry and arrange.
    let o2_rect = Rect::new(1920, 0, 1920, 1080);
    tree_of(&mut state, o2).set_output_rect(o2_rect);

    // Floating rect must be shifted by (dx=1920, dy=0).
    let WindowState::Floating { rect: dst_rect } = tree_of(&mut state, o2)
        .window_state(floating.0)
        .unwrap()
        .clone()
    else {
        panic!("expected floating");
    };
    assert_eq!(dst_rect, Rect::new(100 + 1920, 50, 400, 300));
}

#[test]
fn reassign_into_dimensionless_output_with_existing_tree_keeps_all_windows() {
    let mut state = WMState::new();
    let o1 = OutputId(1);
    let o2 = OutputId(2);
    state.outputs.push(Output::new(o1));
    state.outputs.push(Output::new(o2));

    let a = WindowId(1);
    state.windows.push(Window::new(a, o2));
    tree_of(&mut state, o2).insert_window(a.0);

    let x = WindowId(2);
    let y = WindowId(3);
    for w in [x, y] {
        state.windows.push(Window::new(w, o1));
        tree_of(&mut state, o1).insert_window(w.0);
    }

    state.reassign_output(o1, o2);

    assert!(state.find_tree(o1).is_none());
    let dst = tree_of(&mut state, o2).visible_windows();
    for w in [a, x, y] {
        assert!(dst.contains(&w.0), "window {} lost on reassign", w.0);
        assert_eq!(window(&state, w).output_id, o2);
    }
    assert_eq!(dst.len(), 3);
}
