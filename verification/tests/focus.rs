use fenestre::geometry::{FocusDirection, Rect};
use fenestre::output::{Output, OutputId};
use fenestre::tree::LayoutTree;
use fenestre::window::{Window, WindowId};
use fenestre::wm::WMState;

fn tree(state: &mut WMState, o: OutputId) -> &mut LayoutTree {
    let i = state.tree_for_output(o).unwrap();
    &mut state.output_trees[i].1
}

fn focused_tree(state: &mut WMState) -> &mut LayoutTree {
    let i = state.focused_tree().unwrap();
    &mut state.output_trees[i].1
}

fn focused_window(state: &WMState) -> Option<WindowId> {
    state.focus.focused_window.map(WindowId)
}

fn pending_focus(state: &WMState) -> Option<WindowId> {
    state.focus.pending_focus.map(WindowId)
}

fn focus_stack(state: &WMState) -> Vec<WindowId> {
    state.focus.stack.iter().map(|w| WindowId(*w)).collect()
}

fn has_window(state: &WMState, w: WindowId) -> bool {
    state.find_window(w).is_some()
}

fn remove_window_record(state: &mut WMState, w: WindowId) {
    if let Some(i) = state.find_window(w) {
        state.windows.remove(i);
    }
}

fn remove_output_record(state: &mut WMState, o: OutputId) {
    if let Some(i) = state.find_output(o) {
        state.outputs.remove(i);
    }
}

fn remove_tree_record(state: &mut WMState, o: OutputId) {
    if let Some(i) = state.find_tree(o) {
        state.output_trees.remove(i);
    }
}

#[test]
fn push_focus_makes_new_window_focused() {
    let mut state = WMState::new();
    let window_id = WindowId(1);
    let output_id = OutputId(1);
    state.outputs.push(Output::new(output_id));
    state.focused_output = Some(output_id);
    state.windows.push(Window::new(window_id, output_id));
    tree(&mut state, output_id).insert_window(1);
    state.push_focus(window_id);
    state.manage_requested = true;

    assert_eq!(focused_window(&state), Some(window_id));
    assert_eq!(focused_tree(&mut state).focused_window(), Some(1));
    assert_eq!(focus_stack(&state), vec![window_id]);
}

#[test]
fn focus_window_id_syncs_state_and_layout() {
    let mut state = WMState::new();
    let w1 = WindowId(1);
    let w2 = WindowId(2);
    let output_id = OutputId(1);
    state.outputs.push(Output::new(output_id));
    state.focused_output = Some(output_id);
    state.windows.push(Window::new(w1, output_id));
    state.windows.push(Window::new(w2, output_id));
    tree(&mut state, output_id).insert_window(1);
    tree(&mut state, output_id).insert_window(2);

    state.push_focus(w1);
    state.focus_window_id(w2);

    assert_eq!(focused_window(&state), Some(w2));
    assert_eq!(focused_tree(&mut state).focused_window(), Some(2));
    assert_eq!(focus_stack(&state), vec![w2, w1]);
}

#[test]
fn removing_focused_window_keeps_state_and_layout_consistent() {
    let mut state = WMState::new();
    let w1 = WindowId(1);
    let w2 = WindowId(2);
    let w3 = WindowId(3);
    let output_id = OutputId(1);
    state.outputs.push(Output::new(output_id));
    state.focused_output = Some(output_id);
    state.windows.push(Window::new(w1, output_id));
    state.windows.push(Window::new(w2, output_id));
    state.windows.push(Window::new(w3, output_id));
    tree(&mut state, output_id).insert_window(1);
    tree(&mut state, output_id).insert_window(2);
    tree(&mut state, output_id).insert_window(3);

    state.focus_window_id(w3);
    state.focus_window_id(w1);
    assert_eq!(focus_stack(&state), vec![w1, w3]);

    remove_window_record(&mut state, w1);
    state.remove_focus_for_window(w1);
    tree(&mut state, output_id).remove_window(1);
    state.focus.focused_window = focused_tree(&mut state).focused_window();
    state.focus.pending_focus = state.focus.focused_window;

    let state_focus = focused_window(&state);
    let layout_focus = focused_tree(&mut state).focused_window().map(WindowId);

    assert_eq!(
        state_focus, layout_focus,
        "State focused {:?} did not match layout focused {:?}",
        state_focus, layout_focus
    );
}

#[test]
fn removing_non_focused_window_does_not_change_focus() {
    let mut state = WMState::new();
    let w1 = WindowId(1);
    let w2 = WindowId(2);
    let output_id = OutputId(1);
    state.outputs.push(Output::new(output_id));
    state.focused_output = Some(output_id);
    state.windows.push(Window::new(w1, output_id));
    state.windows.push(Window::new(w2, output_id));
    tree(&mut state, output_id).insert_window(1);
    tree(&mut state, output_id).insert_window(2);

    state.focus_window_id(w1);

    remove_window_record(&mut state, w2);
    state.remove_focus_for_window(w2);
    tree(&mut state, output_id).remove_window(2);

    assert_eq!(focused_window(&state), Some(w1));
    assert_eq!(focused_tree(&mut state).focused_window(), Some(1));
}

#[test]
fn new_window_receives_focus_and_is_focused_in_layout() {
    let mut state = WMState::new();
    let w1 = WindowId(1);
    let output_id = OutputId(1);
    state.outputs.push(Output::new(output_id));
    state.focused_output = Some(output_id);
    state.windows.push(Window::new(w1, output_id));
    tree(&mut state, output_id).insert_window(1);
    state.push_focus(w1);
    state.manage_requested = true;

    assert_eq!(focused_window(&state), Some(w1));
    assert_eq!(focused_tree(&mut state).focused_window(), Some(1));
}

#[test]
fn pointer_interaction_switches_focused_output() {
    let mut state = WMState::new();
    let o1 = OutputId(1);
    let o2 = OutputId(2);
    state.outputs.push(Output::new(o1));
    state.outputs.push(Output::new(o2));
    state.focused_output = Some(o1);

    let w1 = WindowId(1);
    let w2 = WindowId(2);
    state.windows.push(Window::new(w1, o1));
    state.windows.push(Window::new(w2, o2));
    tree(&mut state, o1).insert_window(w1.0);
    tree(&mut state, o2).insert_window(w2.0);
    state.push_focus(w1);

    state.focus_window_id(w2);
    assert_eq!(focused_window(&state), Some(w2));
    assert_eq!(state.focused_output, Some(o2));
}

#[test]
fn closing_tree_focused_window_keeps_state_and_layout_consistent() {
    let mut state = WMState::new();
    let o1 = OutputId(1);
    state.outputs.push(Output::new(o1));
    state.focused_output = Some(o1);

    let a = WindowId(1);
    let b = WindowId(2);
    let c = WindowId(3);
    for w in [a, b, c] {
        state.windows.push(Window::new(w, o1));
        tree(&mut state, o1).insert_window(w.0);
        state.push_focus(w);
    }
    assert_eq!(focused_tree(&mut state).focused_window(), Some(3));
    assert_eq!(focused_window(&state), Some(c));

    // Exercise the same reconciliation path that `Event::WindowClosed` uses.
    state.close_window_focus_reconcile(c);

    // The tree's chosen focus (first remaining window, A) is authoritative
    // and the global state must match it.
    assert_eq!(focused_window(&state), Some(a));
    assert_eq!(
        focused_tree(&mut state).focused_window(),
        Some(a.0),
        "State focus {:?} diverged from layout focus after close",
        focused_window(&state)
    );
}

/// Closing a non-focused window on a *different* (non-focused) output must
/// NOT move global focus there. This guards the cross-output focus-theft
/// bug: `close_window_focus_reconcile` must only reroute focus when the
/// closed window was the globally focused one.
#[test]
fn closing_nonfocused_window_on_other_output_keeps_focus() {
    let mut state = WMState::new();
    let o1 = OutputId(1);
    let o2 = OutputId(2);
    for (o, x) in [(o1, 0), (o2, 1920)] {
        let mut out = Output::new(o);
        out.set_dimensions(1920, 1080);
        out.set_position(x, 0);
        state.outputs.push(out);
    }
    state.focused_output = Some(o1);

    // Globally focus A on o1.
    let a = WindowId(1);
    let b = WindowId(2);
    let c = WindowId(3);
    state.windows.push(Window::new(a, o1));
    tree(&mut state, o1).insert_window(a.0);
    state.focus_window_id(a);
    assert_eq!(focused_window(&state), Some(a));
    assert_eq!(state.focused_output, Some(o1));

    // Two windows on the other output, with C last focused there.
    for w in [b, c] {
        state.windows.push(Window::new(w, o2));
        tree(&mut state, o2).insert_window(w.0);
        state.push_focus(w);
    }
    state.focus_window_id(a); // re-assert global focus on o1
    assert_eq!(focused_window(&state), Some(a));
    assert_eq!(state.focused_output, Some(o1));

    // Close B (non-focused, on the non-focused output o2).
    state.close_window_focus_reconcile(b);

    // Focus must stay on A / o1: closing a background window on another
    // monitor must not yank focus over.
    assert_eq!(focused_window(&state), Some(a), "focus stolen on close");
    assert_eq!(
        state.focused_output,
        Some(o1),
        "focused_output stolen on close"
    );
    assert!(
        has_window(&state, c),
        "sibling on o2 should survive the close"
    );
}

/// When the globally focused window lives on the focused output and is
/// closed, focus must move to another window on that same output (the tree's
/// chosen next focus), not to a different output.
#[test]
fn closing_focused_window_moves_focus_within_output() {
    let mut state = WMState::new();
    let o1 = OutputId(1);
    let o2 = OutputId(2);
    for (o, x) in [(o1, 0), (o2, 1920)] {
        let mut out = Output::new(o);
        out.set_dimensions(1920, 1080);
        out.set_position(x, 0);
        state.outputs.push(out);
    }
    state.focused_output = Some(o1);

    let a = WindowId(1);
    let b = WindowId(2);
    let c = WindowId(3);
    for w in [a, b] {
        state.windows.push(Window::new(w, o1));
        tree(&mut state, o1).insert_window(w.0);
    }
    state.windows.push(Window::new(c, o2));
    tree(&mut state, o2).insert_window(c.0);
    state.focus_window_id(a);
    assert_eq!(focused_window(&state), Some(a));
    assert_eq!(state.focused_output, Some(o1));

    // Close the globally focused window A on o1.
    state.close_window_focus_reconcile(a);

    // Focus moves to B on o1 (the tree's next focus), not to C on o2.
    assert_eq!(
        focused_window(&state),
        Some(b),
        "focus did not move within output"
    );
    assert_eq!(
        state.focused_output,
        Some(o1),
        "focus jumped to other output"
    );
}

#[test]
fn focus_next_recovers_from_removed_focused_output() {
    let mut state = WMState::new();
    let o1 = OutputId(1);
    state.outputs.push(Output::new(o1));

    let w1 = WindowId(1);
    let w2 = WindowId(2);
    state.windows.push(Window::new(w1, o1));
    state.windows.push(Window::new(w2, o1));
    tree(&mut state, o1).insert_window(w1.0);
    tree(&mut state, o1).insert_window(w2.0);

    // Establish focus on w1 (tree.focused == w1, focused_window(&state) == w1),
    // then simulate its output having been removed out from under us.
    state.focus_window_id(w1);
    state.focused_output = Some(OutputId(2));
    assert_eq!(focused_window(&state), Some(w1));

    state.focus_step(true);

    assert_eq!(focused_window(&state), Some(w2));
    assert_eq!(state.focused_output, Some(o1));
}

/// Fuzz the single-output "spawn many / focus in directions / close many"
/// workflow. Pinpoints any step where `tree.focused` (the layout focus used
/// by `focus_direction`/`swap_windows`) diverges from `focused_window(&state)`
/// or points at a window no longer in the tree.
#[test]
fn fuzz_focus_never_goes_stale() {
    let mut state = WMState::new();
    let o1 = OutputId(1);
    state.outputs.push(Output::new(o1));
    state.focused_output = Some(o1);
    state.output_trees.push((o1, LayoutTree::new(Rect::new(0, 0, 1920, 1080))));

    let mut next = 1u32;
    let mut alive: Vec<WindowId> = Vec::new();

    // Deterministic LCG so the repro is stable.
    let mut seed: u64 = 0x9E3779B97F4A7C15;
    let mut rng = || {
        seed = seed
            .wrapping_mul(6364136223846793005)
            .wrapping_add(1442695040888963407);
        (seed >> 33) as usize
    };

    let dirs = [
        FocusDirection::Left,
        FocusDirection::Right,
        FocusDirection::Up,
        FocusDirection::Down,
    ];

    for step in 0..10000 {
        // Spawn a fresh window when low on them.
        if alive.len() < 3 || rng() % 4 == 0 {
            let id = WindowId(next);
            next += 1;
            state.windows.push(Window::new(id, o1));
            tree(&mut state, o1).insert_window(id.0);
            state.push_focus(id);
            alive.push(id);
        }

        match rng() % 3 {
            0 | 1 => {
                let d = dirs[rng() % 4];
                if focused_tree(&mut state).focus_direction(d) {
                    if let Some(id) = focused_tree(&mut state).focused_window() {
                        state.focus_window_id(WindowId(id));
                    }
                }
            }
            _ => {
                // Close a random alive window (mirrors the corrected handler).
                if alive.is_empty() {
                    continue;
                }
                let idx = rng() % alive.len();
                let id = alive.remove(idx);
                state.close_window_focus_reconcile(id);
            }
        }

        // Invariant: tree.focused must be a window currently in the tree,
        // and it must equal focused_window(&state).
        let visible: Vec<u32> = focused_tree(&mut state).visible_windows();
        let tree_focus = focused_tree(&mut state).focused_window();
        assert!(
            tree_focus.is_none() || visible.contains(&tree_focus.unwrap()),
            "step {step}: tree.focused {:?} not in visible {:?} (alive count {})",
            tree_focus,
            visible,
            alive.len()
        );
        assert_eq!(
            focused_window(&state).map(|w| w.0),
            tree_focus,
            "step {step}: divergence state={:?} tree={:?}",
            focused_window(&state),
            tree_focus
        );
    }
}

/// Multi-output counterpart of `fuzz_focus_never_goes_stale`: two outputs,
/// windows spawned across both, focus moved in directions, windows closed
/// on either output. Pinpoints any step where a per-output `tree.focused`
/// diverges from `focused_window(&state)` or points at a window no longer in
/// that output's tree.
#[test]
fn fuzz_multioutput_focus_never_goes_stale() {
    let mut state = WMState::new();

    // Two side-by-side outputs with real geometry.
    let o1 = OutputId(1);
    let o2 = OutputId(2);
    let outputs = [o1, o2];
    for (o, x) in [(o1, 0), (o2, 1920)] {
        let mut out = Output::new(o);
        out.set_dimensions(1920, 1080);
        out.set_position(x, 0);
        state.outputs.push(out);
    }

    let mut next = 1u32;
    // Track (output, window) so we can close on the right tree.
    let mut alive: Vec<(OutputId, WindowId)> = Vec::new();

    let mut seed: u64 = 0x1234567890ABCDEF;
    let mut rng = || {
        seed = seed
            .wrapping_mul(6364136223846793005)
            .wrapping_add(1442695040888963407);
        (seed >> 33) as usize
    };

    let dirs = [
        FocusDirection::Left,
        FocusDirection::Right,
        FocusDirection::Up,
        FocusDirection::Down,
    ];

    for step in 0..10000 {
        if alive.len() < 3 || rng() % 4 == 0 {
            let id = WindowId(next);
            next += 1;
            let out = outputs[rng() % outputs.len()];
            state.windows.push(Window::new(id, out));
            tree(&mut state, out).insert_window(id.0);
            state.push_focus(id);
            alive.push((out, id));
        }

        match rng() % 3 {
            0 | 1 => {
                let d = dirs[rng() % 4];
                if focused_tree(&mut state).focus_direction(d) {
                    if let Some(id) = focused_tree(&mut state).focused_window() {
                        state.focus_window_id(WindowId(id));
                    }
                }
            }
            _ => {
                if alive.is_empty() {
                    continue;
                }
                let idx = rng() % alive.len();
                let (_, id) = alive.remove(idx);
                state.close_window_focus_reconcile(id);
            }
        }

        // Invariant 1: every output tree's focus must be a window currently
        // in that tree (or None when the tree is empty / not yet created).
        for &o in &outputs {
            let Some(ti) = state.find_tree(o) else {
                continue;
            };
            let t = &mut state.output_trees[ti].1;
            let visible: Vec<u32> = t.visible_windows();
            let tf = t.focused_window();
            assert!(
                tf.is_none() || visible.contains(&tf.unwrap()),
                "step {step}: output {o:?} tree.focused {tf:?} not in visible {visible:?}",
            );
        }

        // Invariant 2: global state focus must equal the focused output's
        // tree focus (no cross-output divergence).
        let tree_focus = focused_tree(&mut state).focused_window();
        assert_eq!(
            focused_window(&state).map(|w| w.0),
            tree_focus,
            "step {step}: divergence state={:?} tree={:?}",
            focused_window(&state),
            tree_focus
        );

        // Invariant 3: focused_output must own the focused window.
        if let Some(fw) = focused_window(&state) {
            assert_eq!(
                state.focused_output,
                state.find_window(fw).map(|i| state.windows[i].output_id),
                "step {step}: focused_output does not own focused window",
            );
        }
    }
}

#[test]
fn focus_moves_to_other_output_when_focused_output_removed() {
    let mut state = WMState::new();
    let o1 = OutputId(1);
    let o2 = OutputId(2);
    for (o, x) in [(o1, 0), (o2, 1920)] {
        let mut out = Output::new(o);
        out.set_dimensions(1920, 1080);
        out.set_position(x, 0);
        state.outputs.push(out);
    }

    let a = WindowId(1);
    let b = WindowId(2);
    state.windows.push(Window::new(a, o1));
    state.windows.push(Window::new(b, o2));
    tree(&mut state, o1).insert_window(a.0);
    tree(&mut state, o2).insert_window(b.0);

    // Focus the window on o1, so o1 is the focused output.
    state.focus_window_id(a);
    assert_eq!(focused_window(&state), Some(a));
    assert_eq!(state.focused_output, Some(o1));

    // Remove o1 while it holds the focused window: reassign o1 -> o2, then
    // drop o1 (mirrors the handler's Event::Output::Removed path).
    let removed_was_focused = state.focused_output == Some(o1);
    if let Some(to_id) = state.outputs.iter().map(|o| o.id).find(|k| *k != o1) {
        state.reassign_output(o1, to_id);
        if removed_was_focused {
            state.focused_output = Some(to_id);
        }
    }
    remove_output_record(&mut state, o1);
    remove_tree_record(&mut state, o1);

    // The focused window survives on o2 and stays focused.
    assert_eq!(state.find_window(a).map(|i| state.windows[i].output_id), Some(o2));
    assert_eq!(focused_window(&state), Some(a));
    assert_eq!(state.focused_output, Some(o2));
    assert_eq!(focused_tree(&mut state).focused_window(), Some(a.0));
}

#[test]
fn removing_unfocused_output_keeps_focus() {
    let mut state = WMState::new();
    let o1 = OutputId(1);
    let o2 = OutputId(2);
    for (o, x) in [(o1, 0), (o2, 1920)] {
        let mut out = Output::new(o);
        out.set_dimensions(1920, 1080);
        out.set_position(x, 0);
        state.outputs.push(out);
    }

    let a = WindowId(1);
    let b = WindowId(2);
    state.windows.push(Window::new(a, o1));
    state.windows.push(Window::new(b, o2));
    tree(&mut state, o1).insert_window(a.0);
    tree(&mut state, o2).insert_window(b.0);

    // Focus the window on o2 (the output we will NOT remove).
    state.focus_window_id(b);
    assert_eq!(focused_window(&state), Some(b));
    assert_eq!(state.focused_output, Some(o2));

    // Remove o1 (which holds the unfocused window a).
    let removed_was_focused = state.focused_output == Some(o1);
    if let Some(to_id) = state.outputs.iter().map(|o| o.id).find(|k| *k != o1) {
        state.reassign_output(o1, to_id);
        if removed_was_focused {
            state.focused_output = Some(to_id);
        }
    }
    remove_output_record(&mut state, o1);
    remove_tree_record(&mut state, o1);

    // Focus must remain on b / o2.
    assert_eq!(focused_window(&state), Some(b));
    assert_eq!(state.focused_output, Some(o2));
    assert_eq!(focused_tree(&mut state).focused_window(), Some(b.0));
}

/// Closing the *globally focused* window when its output empties must fall
/// back to another output's window (via the global focus stack), not lose
/// focus or yank it elsewhere spuriously. This is the multi-output
/// reconciliation branch `was_globally_focused && next == Some(window on o2)`.
#[test]
fn closing_focused_window_when_output_empties_falls_back_to_other_output() {
    let mut state = WMState::new();
    let o1 = OutputId(1);
    let o2 = OutputId(2);
    for (o, x) in [(o1, 0), (o2, 1920)] {
        let mut out = Output::new(o);
        out.set_dimensions(1920, 1080);
        out.set_position(x, 0);
        state.outputs.push(out);
    }
    state.focused_output = Some(o1);

    // Only window on o1, and globally focused.
    let a = WindowId(1);
    state.windows.push(Window::new(a, o1));
    tree(&mut state, o1).insert_window(a.0);
    state.push_focus(a);

    // Two windows on o2; C is the last focused there (remembered fallback).
    let b = WindowId(2);
    let c = WindowId(3);
    for w in [b, c] {
        state.windows.push(Window::new(w, o2));
        tree(&mut state, o2).insert_window(w.0);
        state.push_focus(w);
    }

    // Re-assert global focus on A (o1) while keeping B/C on the stack so the
    // fallback after closing A lands on C (the surviving output's focus).
    state.focus_window_id(a);
    assert_eq!(focused_window(&state), Some(a));
    assert_eq!(state.focused_output, Some(o1));

    // Close the only window on o1 -> o1 now empty.
    state.close_window_focus_reconcile(a);

    // Focus must fall back to C on o2 (the global focus stack top).
    assert_eq!(
        focused_window(&state),
        Some(c),
        "focus lost when the focused output emptied"
    );
    assert_eq!(
        state.focused_output,
        Some(o2),
        "focus did not move to the surviving output"
    );
    assert!(has_window(&state, c), "sibling lost on fallback");
    assert!(has_window(&state, b), "sibling lost on fallback");
    assert!(
        !has_window(&state, a),
        "closed window still present"
    );
}

/// Closing the very last window in the WM must clear global focus and
/// pending focus cleanly (no dangling reference, no panic). This covers the
/// `was_globally_focused && next == None` fallback branch.
#[test]
fn closing_last_remaining_window_clears_focus() {
    let mut state = WMState::new();
    let o1 = OutputId(1);
    let mut out = Output::new(o1);
    out.set_dimensions(1920, 1080);
    state.outputs.push(out);
    state.focused_output = Some(o1);

    let a = WindowId(1);
    state.windows.push(Window::new(a, o1));
    tree(&mut state, o1).insert_window(a.0);
    state.focus_window_id(a);
    assert_eq!(focused_window(&state), Some(a));

    state.close_window_focus_reconcile(a);

    assert_eq!(
        focused_window(&state), None,
        "focus should clear when the last window is closed"
    );
    assert_eq!(pending_focus(&state), None, "pending focus should clear");
    assert!(!has_window(&state, a));
}

#[test]
fn focus_window_id_clears_pending_split() {
    let mut state = WMState::new();
    let o1 = OutputId(1);
    state.outputs.push(Output::new(o1));
    state.focused_output = Some(o1);
    let w1 = WindowId(1);
    let w2 = WindowId(2);
    state.windows.push(Window::new(w1, o1));
    state.windows.push(Window::new(w2, o1));
    tree(&mut state, o1).insert_window(1);
    tree(&mut state, o1).insert_window(2);
    state.focus_window_id(w1);
    state.pending_split = Some(FocusDirection::Right);

    state.focus_window_id(w2);

    assert_eq!(state.pending_split, None);
    assert_eq!(focused_window(&state), Some(w2));
}

#[test]
fn closing_focused_window_clears_pending_split() {
    let mut state = WMState::new();
    let o1 = OutputId(1);
    state.outputs.push(Output::new(o1));
    state.focused_output = Some(o1);
    let a = WindowId(1);
    let b = WindowId(2);
    state.windows.push(Window::new(a, o1));
    state.windows.push(Window::new(b, o1));
    tree(&mut state, o1).insert_window(a.0);
    tree(&mut state, o1).insert_window(b.0);
    state.focus_window_id(a);
    state.pending_split = Some(FocusDirection::Down);

    state.close_window_focus_reconcile(a);

    assert_eq!(state.pending_split, None);
    assert_eq!(focused_window(&state), Some(b));
}

#[test]
fn focus_commands_keep_global_and_tree_focus_in_step() {
    let mut state = WMState::new();
    let o1 = OutputId(1);
    let mut out = Output::new(o1);
    out.set_dimensions(1920, 1080);
    state.outputs.push(out);
    state.focused_output = Some(o1);

    for id in 1..=3u32 {
        let w = WindowId(id);
        state.windows.push(Window::new(w, o1));
        tree(&mut state, o1).insert_window(id);
        state.focus_window_id(w);
    }
    assert_eq!(focused_window(&state), Some(WindowId(3)));

    for d in [FocusDirection::Left, FocusDirection::Up, FocusDirection::Right, FocusDirection::Down] {
        state.focus_direction(d);
        let global = focused_window(&state).map(|w| w.0);
        assert_eq!(focused_tree(&mut state).focused_window(), global);
        let g = global.unwrap();
        assert!(tree(&mut state, o1).contains_window(g));
        assert_eq!(state.focused_output, Some(o1));
    }
    state.focus_step(true);
    let global = focused_window(&state).map(|w| w.0);
    assert_eq!(focused_tree(&mut state).focused_window(), global);
}
