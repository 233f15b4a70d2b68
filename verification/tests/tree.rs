use fenestre::config::LayoutConfig;
use fenestre::geometry::{FocusDirection, Rect, SplitDirection, WindowState};
use fenestre::layout::LayoutNode;
use fenestre::tree::LayoutTree;

fn first_child(node: &LayoutNode) -> Option<&LayoutNode> {
    node.children.as_ref().map(|(first, _)| first.as_ref())
}

fn second_child(node: &LayoutNode) -> Option<&LayoutNode> {
    node.children.as_ref().map(|(_, second)| second.as_ref())
}

fn visible(layout: &LayoutTree) -> Vec<(u32, Rect)> {
    let mut layout = layout.clone();
    layout.arrange()
}

#[test]
fn empty_tree_inserts_first_window_as_root_and_focuses_it() {
    let mut layout = LayoutTree::new(Rect::new(0, 0, 100, 100));

    assert!(layout.insert_window(1));

    assert_eq!(layout.focused_window(), Some(1));
    assert_eq!(layout.root_window(), Some(1));
    assert_eq!(visible(&layout), vec![(1, Rect::new(0, 0, 100, 100))]);
}

#[test]
fn longest_side_split_chooses_vertical_for_wide_rectangles() {
    let mut layout = LayoutTree::new(Rect::new(0, 0, 1000, 100));
    layout.insert_window(1);
    layout.arrange();

    layout.insert_window(2);

    let root = layout.root.as_ref().unwrap();
    assert_eq!(
        root.split.as_ref().unwrap().direction,
        SplitDirection::Vertical
    );
    assert_eq!(
        visible(&layout),
        vec![
            (1, Rect::new(0, 0, 500, 100)),
            (2, Rect::new(500, 0, 500, 100))
        ]
    );
}

#[test]
fn longest_side_split_chooses_horizontal_for_tall_rectangles() {
    let mut layout = LayoutTree::new(Rect::new(0, 0, 100, 1000));
    layout.insert_window(1);
    layout.arrange();

    layout.insert_window(2);

    let root = layout.root.as_ref().unwrap();
    assert_eq!(
        root.split.as_ref().unwrap().direction,
        SplitDirection::Horizontal
    );
    assert_eq!(
        visible(&layout),
        vec![
            (1, Rect::new(0, 0, 100, 500)),
            (2, Rect::new(0, 500, 100, 500))
        ]
    );
}

#[test]
fn manual_vertical_split_creates_vertical_parent_with_focused_and_empty_leaf() {
    let mut layout = LayoutTree::new(Rect::new(0, 0, 1000, 100));
    layout.insert_window(1);
    layout.arrange();

    let placeholder = layout.split_focused(SplitDirection::Vertical).unwrap();

    assert_eq!(placeholder, 0);
    let root = layout.root.as_ref().unwrap();
    assert_eq!(
        root.split.as_ref().unwrap().direction,
        SplitDirection::Vertical
    );
    assert_eq!(first_child(root).unwrap().window, Some(1));
    assert_eq!(second_child(root).unwrap().window, None);
}

#[test]
fn remove_leaf_collapses_parent_into_sibling() {
    let mut layout = LayoutTree::new(Rect::new(0, 0, 1000, 100));
    layout.insert_window(1);
    layout.insert_window(2);
    layout.insert_window(3);
    layout.arrange();

    layout.focus_window(2);
    assert!(layout.remove_window(2));

    assert_eq!(layout.focused_window(), Some(1));
    assert_eq!(
        visible(&layout),
        vec![
            (1, Rect::new(0, 0, 500, 100)),
            (3, Rect::new(500, 0, 500, 100))
        ]
    );
}

#[test]
fn remove_last_leaf_leaves_empty_tree() {
    let mut layout = LayoutTree::new(Rect::new(0, 0, 100, 100));
    layout.insert_window(1);

    assert!(layout.remove_window(1));

    assert!(layout.root.is_none());
    assert_eq!(layout.focused_window(), None);
    assert!(visible(&layout).is_empty());
}

#[test]
fn next_and_previous_traverse_tiled_windows() {
    let mut layout = LayoutTree::new(Rect::new(0, 0, 1000, 100));
    layout.insert_window(1);
    layout.insert_window(2);
    layout.insert_window(3);

    // insert_window focuses the newly inserted window, so the last
    // window is focused after the third insert.
    assert_eq!(layout.focused_window(), Some(3));

    assert!(layout.focus_next());
    assert_eq!(layout.focused_window(), Some(1));
    assert!(layout.focus_previous());
    assert_eq!(layout.focused_window(), Some(3));
}

#[test]
fn focus_direction_includes_floating_windows() {
    let mut layout = LayoutTree::new(Rect::new(0, 0, 1000, 100));
    layout.insert_window(1);
    layout.insert_window(2);
    layout.insert_window(3);
    layout.arrange();

    // Window 1 is at x=0..500, window 3 at x=750..1000.
    // Make window 2 floating at x=500 so it is to the right of window 1
    // and closer than window 3.
    let float_rect = Rect::new(500, 20, 200, 50);
    assert!(layout.toggle_floating(2, float_rect));

    layout.focus_window(1);

    // Direction right should target the floating window 2 because it is
    // closer than window 3.
    assert!(layout.focus_direction(FocusDirection::Right));
    assert_eq!(layout.focused_window(), Some(2));
}

#[test]
fn focus_direction_works_with_gap() {
    let mut layout = LayoutTree::new(Rect::new(0, 0, 1000, 100));
    layout.set_layout_config(LayoutConfig {
        gap: Some(10),
        ..LayoutConfig::default()
    });

    layout.insert_window(1);
    layout.insert_window(2);
    layout.insert_window(3);
    layout.arrange();

    // Focus window 1, then move right — should reach window 2, not skip to 3
    layout.focus_window(1);
    assert!(layout.focus_direction(FocusDirection::Right));
    assert_eq!(layout.focused_window(), Some(2));

    // Move right again — should reach window 3
    assert!(layout.focus_direction(FocusDirection::Right));
    assert_eq!(layout.focused_window(), Some(3));

    // Move left twice — should go back to 2, then 1
    assert!(layout.focus_direction(FocusDirection::Left));
    assert_eq!(layout.focused_window(), Some(2));
    assert!(layout.focus_direction(FocusDirection::Left));
    assert_eq!(layout.focused_window(), Some(1));
}

#[test]
fn fullscreen_window_bypasses_tiling_space() {
    let mut layout = LayoutTree::new(Rect::new(0, 0, 1000, 100));
    layout.insert_window(1);
    layout.insert_window(2);
    layout.arrange();

    assert!(layout.toggle_fullscreen(1));

    assert_eq!(
        visible(&layout),
        vec![
            (1, Rect::new(0, 0, 1000, 100)),
            (2, Rect::new(0, 0, 1000, 100))
        ]
    );
}

#[test]
fn output_resize_recomputes_rectangles_without_changing_topology() {
    let mut layout = LayoutTree::new(Rect::new(0, 0, 1000, 100));
    layout.insert_window(1);
    layout.insert_window(2);
    layout.arrange();

    layout.set_output_rect(Rect::new(0, 0, 2000, 200));

    assert_eq!(
        visible(&layout),
        vec![
            (1, Rect::new(0, 0, 1000, 200)),
            (2, Rect::new(1000, 0, 1000, 200))
        ]
    );
}

#[test]
fn placeholder_is_replaced_by_next_inserted_window_and_becomes_focused() {
    let mut layout = LayoutTree::new(Rect::new(0, 0, 1000, 100));
    layout.insert_window(1);
    layout.split_focused(SplitDirection::Vertical).unwrap();

    assert!(layout.insert_window(2));

    assert_eq!(layout.focused_window(), Some(2));
    assert_eq!(
        visible(&layout),
        vec![
            (1, Rect::new(0, 0, 500, 100)),
            (2, Rect::new(500, 0, 500, 100))
        ]
    );
}

#[test]
fn removing_focused_window_refocuses_first_remaining_window() {
    let mut layout = LayoutTree::new(Rect::new(0, 0, 1000, 100));
    layout.insert_window(1);
    layout.insert_window(2);
    layout.insert_window(3);
    layout.arrange();

    layout.focus_window(2);
    assert!(layout.remove_window(2));

    assert_eq!(layout.focused_window(), Some(1));
    assert_eq!(
        visible(&layout),
        vec![
            (1, Rect::new(0, 0, 500, 100)),
            (3, Rect::new(500, 0, 500, 100))
        ]
    );
}

#[test]
fn toggle_floating_off_restores_tiled_state() {
    let mut layout = LayoutTree::new(Rect::new(0, 0, 1000, 100));
    layout.insert_window(1);
    layout.arrange();

    // Toggle floating on
    assert!(layout.toggle_floating(1, Rect::new(10, 10, 200, 50)));
    // Toggle floating off
    assert!(layout.toggle_floating(1, Rect::new(0, 0, 0, 0)));

    // Window 1 should be tiled again, consuming full tiling space
    assert_eq!(visible(&layout), vec![(1, Rect::new(0, 0, 1000, 100))]);
}

#[test]
fn pseudo_tiled_window_is_centered_inside_its_tiling_slot() {
    let mut layout = LayoutTree::new(Rect::new(0, 0, 1000, 100));
    layout.insert_window(1);
    layout.insert_window(2);
    layout.insert_window(3);
    layout.arrange();

    assert!(layout.toggle_pseudo_tiled(2, Rect::new(10, 10, 200, 50)));

    assert_eq!(
        visible(&layout),
        vec![
            (1, Rect::new(0, 0, 500, 100)),
            (2, Rect::new(525, 25, 200, 50)),
            (3, Rect::new(750, 0, 250, 100))
        ]
    );
}

#[test]
fn fullscreen_toggle_preserves_floating_state() {
    let mut layout = LayoutTree::new(Rect::new(0, 0, 1000, 100));
    layout.insert_window(1);
    layout.insert_window(2);
    layout.arrange();

    assert!(layout.toggle_floating(1, Rect::new(10, 10, 200, 50)));
    assert!(layout.toggle_fullscreen(1));
    assert!(layout.toggle_fullscreen(1));

    assert_eq!(
        visible(&layout),
        vec![
            (1, Rect::new(10, 10, 200, 50)),
            (2, Rect::new(0, 0, 1000, 100))
        ]
    );
}

#[test]
fn fullscreen_toggle_preserves_pseudo_tiled_state() {
    let mut layout = LayoutTree::new(Rect::new(0, 0, 1000, 100));
    layout.insert_window(1);
    layout.insert_window(2);
    layout.arrange();

    assert!(layout.toggle_pseudo_tiled(1, Rect::new(10, 10, 200, 50)));
    assert!(layout.toggle_fullscreen(1));
    assert!(layout.toggle_fullscreen(1));

    assert_eq!(
        visible(&layout),
        vec![
            (1, Rect::new(150, 25, 200, 50)),
            (2, Rect::new(500, 0, 500, 100))
        ]
    );
}

#[test]
fn remove_tiled_window_extends_remaining_tiled() {
    // When removing a tiled window, remaining tiled windows should extend
    // to take the freed space
    let mut layout = LayoutTree::new(Rect::new(0, 0, 1000, 100));

    // Add 4 windows - each splits from the previously focused
    layout.insert_window(1);
    layout.insert_window(2);
    layout.insert_window(3);
    layout.insert_window(4);
    layout.arrange();

    // Before removal: 4 windows sharing space
    let before = visible(&layout);

    assert_eq!(before.len(), 4);

    // Remove window 4 (deepest leaf) - windows 1, 2, 3 should remain
    assert!(layout.remove_window(4));

    let after = visible(&layout);

    assert_eq!(
        after.len(),
        3,
        "Expected 3 windows after removal, got {}: {:?}",
        after.len(),
        after
    );

    // All remaining windows should have non-zero dimensions
    for (id, rect) in &after {
        assert!(
            rect.width > 0 || rect.height > 0,
            "Window {id} has zero rect"
        );
    }

    // Remove window 3 - windows 1, 2 should remain
    assert!(layout.remove_window(3));

    let after = visible(&layout);

    assert_eq!(after.len(), 2, "Expected 2 windows after second removal");

    // Remove window 2 - window 1 should remain full screen
    assert!(layout.remove_window(2));

    let after = visible(&layout);
    assert_eq!(after.len(), 1, "Expected 1 window after third removal");
    assert_eq!(
        after[0].1.width, 1000,
        "Remaining window should be full width"
    );
    assert_eq!(
        after[0].1.height, 100,
        "Remaining window should be full height"
    );
}

#[test]
fn remove_middle_tiled_window_extends_siblings() {
    // Test: spawn 4 windows, close window 2 (middle), verify remaining extend
    let mut layout = LayoutTree::new(Rect::new(0, 0, 1000, 100));

    layout.insert_window(1);
    layout.insert_window(2);
    layout.insert_window(3);
    layout.arrange();

    // Tree: split(leaf(1), split(leaf(2), leaf(3))) with widths 250, 250, 500
    let before = visible(&layout);
    assert_eq!(before.len(), 3);

    // Remove window 2 - windows 1 and 3 should extend
    assert!(layout.remove_window(2));

    let after = visible(&layout);
    assert_eq!(
        after.len(),
        2,
        "Expected 2 windows after removing middle one"
    );

    // Both remaining windows should have non-zero dimensions summing to 1000
    let total_width: i32 = after.iter().map(|(_, r)| r.width).sum();
    assert_eq!(
        total_width, 1000,
        "Total width should be 1000, got {}",
        total_width
    );
}

#[test]
fn focus_direction_after_close_starts_from_correct_window() {
    let mut layout = LayoutTree::new(Rect::new(0, 0, 1000, 100));
    layout.insert_window(1);
    layout.insert_window(2);
    layout.insert_window(3);
    layout.arrange();

    // Focus window 3
    layout.focus_window(3);

    // Remove focused window 3
    assert!(layout.remove_window(3));

    // Now layout focuses window 1 (first_window)
    assert_eq!(layout.focused_window(), Some(1));

    // Direction focus right from 1 should go to the remaining window (2)
    assert!(layout.focus_direction(FocusDirection::Right));
    assert_eq!(layout.focused_window(), Some(2));
}

#[test]
fn spawn_four_windows_then_toggle_floating_on_last_does_not_break_first() {
    let mut layout = LayoutTree::new(Rect::new(0, 0, 1000, 100));
    layout.insert_window(1);
    layout.insert_window(2);
    layout.insert_window(3);
    layout.insert_window(4);
    layout.arrange();

    // Simulate what push_focus does in handlers.rs: only update
    // state.focused_window, NOT layout.focused.
    // layout.focused is now stale (still 1), but the WM will
    // toggle_floating on window 4 because state.focused_window = 4.
    layout.focus_window(4);

    let float_rect = Rect::new(0, 0, 200, 50);
    assert!(layout.toggle_floating(4, float_rect));

    let after = visible(&layout);

    // Window 4 should now be floating at the requested position.
    assert!(after.contains(&(4, float_rect)));

    // Windows 1, 2, 3 should still be tiled and visible with non-zero size.
    let tiled: Vec<_> = after.iter().filter(|(id, _)| *id != 4).collect();
    assert_eq!(tiled.len(), 3, "Expected 3 tiled windows, got: {:?}", after);
    for (id, rect) in tiled {
        assert!(
            rect.width > 0 && rect.height > 0,
            "Tiled window {id} has zero rect: {rect:?}"
        );
    }
}

#[test]
fn gap_inserts_space_between_tiled_windows() {
    let mut layout = LayoutTree::new(Rect::new(0, 0, 1000, 100));
    layout.set_layout_config(LayoutConfig {
        gap: Some(10),
        ..LayoutConfig::default()
    });

    layout.insert_window(1);
    layout.insert_window(2);
    layout.arrange();

    let visible = visible(&layout);
    assert_eq!(visible.len(), 2);

    let (_, rect1) = visible[0];
    let (_, rect2) = visible[1];

    assert_eq!(rect1.x, 10);
    assert_eq!(rect1.width, 485);
    assert_eq!(rect2.x, 505);
    assert_eq!(rect2.width, 485);
}

#[test]
fn margins_inset_the_tiling_area() {
    let mut layout = LayoutTree::new(Rect::new(0, 0, 1000, 100));
    layout.set_layout_config(LayoutConfig {
        margin_top: Some(10),
        margin_right: Some(20),
        margin_bottom: Some(30),
        margin_left: Some(40),
        ..LayoutConfig::default()
    });

    layout.insert_window(1);
    layout.arrange();

    let visible = visible(&layout);
    assert_eq!(visible.len(), 1);

    let (_, rect) = visible[0];
    assert_eq!(rect.x, 40);
    assert_eq!(rect.y, 10);
    assert_eq!(rect.width, 940);
    assert_eq!(rect.height, 60);
}

#[test]
fn gap_with_margins_combines_correctly() {
    let mut layout = LayoutTree::new(Rect::new(0, 0, 1000, 100));
    layout.set_layout_config(LayoutConfig {
        gap: Some(10),
        margin_top: Some(5),
        margin_right: Some(10),
        margin_bottom: Some(5),
        margin_left: Some(10),
        default_float_ratio: None,
        preview_border_color: None,
        preview_border_width: None,
    });

    layout.insert_window(1);
    layout.insert_window(2);
    layout.arrange();

    let visible = visible(&layout);
    assert_eq!(visible.len(), 2);

    let (_, rect1) = visible[0];
    let (_, rect2) = visible[1];

    assert_eq!(rect1.x, 20);
    assert_eq!(rect1.y, 15);
    assert_eq!(rect1.width, 475);
    assert_eq!(rect1.height, 70);
    assert_eq!(rect2.x, 505);
    assert_eq!(rect2.y, 15);
    assert_eq!(rect2.width, 475);
    assert_eq!(rect2.height, 70);
}

#[test]
fn swap_windows_exchanges_positions_of_two_tiled_windows() {
    let mut layout = LayoutTree::new(Rect::new(0, 0, 1000, 100));
    layout.insert_window(1);
    layout.insert_window(2);
    layout.arrange();

    layout.focus_window(1);
    assert!(layout.swap_windows(FocusDirection::Right));

    let after = visible(&layout);
    assert_eq!(after.len(), 2);

    let window_1_rect = after.iter().find(|(id, _)| *id == 1).map(|(_, r)| *r);
    let window_2_rect = after.iter().find(|(id, _)| *id == 2).map(|(_, r)| *r);

    assert_eq!(window_1_rect, Some(Rect::new(500, 0, 500, 100)));
    assert_eq!(window_2_rect, Some(Rect::new(0, 0, 500, 100)));
}

#[test]
fn swap_windows_returns_false_when_no_target_exists() {
    let mut layout = LayoutTree::new(Rect::new(0, 0, 1000, 100));
    layout.insert_window(1);
    layout.arrange();

    layout.focus_window(1);
    assert!(!layout.swap_windows(FocusDirection::Right));
}

#[test]
fn swap_windows_returns_false_with_single_window() {
    let mut layout = LayoutTree::new(Rect::new(0, 0, 1000, 100));
    layout.insert_window(1);
    layout.arrange();

    layout.focus_window(1);
    assert!(!layout.swap_windows(FocusDirection::Left));
}

#[test]
fn move_floating_window_updates_floating_rect() {
    let mut layout = LayoutTree::new(Rect::new(0, 0, 1000, 1000));
    layout.insert_window(1);
    layout.insert_window(2);
    layout.arrange();

    assert!(layout.toggle_floating(2, Rect::new(10, 10, 200, 50)));

    let delta_x = 100;
    let delta_y = 100;
    assert!(layout.move_floating_window(2, FocusDirection::Right, delta_x, delta_y));
    assert!(layout.move_floating_window(2, FocusDirection::Down, delta_x, delta_y));

    let node = layout.find_window_node(2).unwrap();
    let WindowState::Floating { rect } = &node.state else {
        panic!("expected floating");
    };
    assert_eq!(*rect, Rect::new(110, 110, 200, 50));
}

#[test]
fn resize_vertical_split_first_child_expand_right() {
    let mut layout = LayoutTree::new(Rect::new(0, 0, 1000, 100));
    layout.insert_window(1);
    layout.insert_window(2);
    layout.arrange();

    layout.focus_window(1);
    assert!(layout.resize_ratio(FocusDirection::Right, 1000));

    let arranged = visible(&layout);
    let rect1 = arranged
        .iter()
        .find(|(id, _)| *id == 1)
        .map(|(_, r)| *r)
        .unwrap();
    let rect2 = arranged
        .iter()
        .find(|(id, _)| *id == 2)
        .map(|(_, r)| *r)
        .unwrap();
    assert!(
        rect1.width > 500,
        "Left child should grow: got {}",
        rect1.width
    );
    assert!(
        rect2.width < 500,
        "Right child should shrink: got {}",
        rect2.width
    );
}

#[test]
fn resize_vertical_split_first_child_shrink_left() {
    let mut layout = LayoutTree::new(Rect::new(0, 0, 1000, 100));
    layout.insert_window(1);
    layout.insert_window(2);
    layout.arrange();

    layout.focus_window(1);
    assert!(layout.resize_ratio(FocusDirection::Left, 1000));

    let arranged = visible(&layout);
    let rect1 = arranged
        .iter()
        .find(|(id, _)| *id == 1)
        .map(|(_, r)| *r)
        .unwrap();
    let rect2 = arranged
        .iter()
        .find(|(id, _)| *id == 2)
        .map(|(_, r)| *r)
        .unwrap();
    assert!(
        rect1.width < 500,
        "Left child should shrink: got {}",
        rect1.width
    );
    assert!(
        rect2.width > 500,
        "Right child should grow: got {}",
        rect2.width
    );
}

#[test]
fn resize_horizontal_split_first_child_expand_down() {
    let mut layout = LayoutTree::new(Rect::new(0, 0, 100, 1000));
    layout.insert_window(1);
    layout.insert_window(2);
    layout.arrange();

    layout.focus_window(1);
    assert!(layout.resize_ratio(FocusDirection::Down, 1000));

    let arranged = visible(&layout);
    let rect1 = arranged
        .iter()
        .find(|(id, _)| *id == 1)
        .map(|(_, r)| *r)
        .unwrap();
    let rect2 = arranged
        .iter()
        .find(|(id, _)| *id == 2)
        .map(|(_, r)| *r)
        .unwrap();
    assert!(
        rect1.height > 500,
        "Top child should grow: got {}",
        rect1.height
    );
    assert!(
        rect2.height < 500,
        "Bottom child should shrink: got {}",
        rect2.height
    );
}

#[test]
fn resize_ratio_clamps_at_boundaries() {
    let mut layout = LayoutTree::new(Rect::new(0, 0, 1000, 100));
    layout.insert_window(1);
    layout.insert_window(2);
    layout.arrange();

    layout.focus_window(1);
    for _ in 0..20 {
        let _ = layout.resize_ratio(FocusDirection::Right, 500);
    }
    let arranged = visible(&layout);
    let rect1 = arranged
        .iter()
        .find(|(id, _)| *id == 1)
        .map(|(_, r)| *r)
        .unwrap();
    assert!(
        rect1.width <= 900,
        "Ratio should clamp, width={}",
        rect1.width
    );

    let mut layout2 = LayoutTree::new(Rect::new(0, 0, 1000, 100));
    layout2.insert_window(1);
    layout2.insert_window(2);
    layout2.arrange();
    layout2.focus_window(1);
    for _ in 0..20 {
        let _ = layout2.resize_ratio(FocusDirection::Left, 500);
    }
    let arranged2 = visible(&layout2);
    let rect1 = arranged2
        .iter()
        .find(|(id, _)| *id == 1)
        .map(|(_, r)| *r)
        .unwrap();
    assert!(
        rect1.width >= 100,
        "Ratio should clamp, width={}",
        rect1.width
    );
}

#[test]
fn resize_floating_window_changes_dimensions() {
    let mut layout = LayoutTree::new(Rect::new(0, 0, 1000, 1000));
    layout.insert_window(1);
    layout.insert_window(2);
    layout.arrange();

    assert!(layout.toggle_floating(2, Rect::new(10, 10, 200, 50)));
    assert!(layout.resize_floating_window(2, FocusDirection::Right, 500, true));
    assert!(layout.resize_floating_window(2, FocusDirection::Down, 500, true));

    let node = layout.find_window_node(2).unwrap();
    let WindowState::Floating { rect } = &node.state else {
        panic!("expected floating");
    };
    assert!(rect.width > 200, "width={}", rect.width);
    assert!(rect.height > 50, "height={}", rect.height);
}

#[test]
fn resize_floating_window_shrink_left_shifts_position() {
    let mut layout = LayoutTree::new(Rect::new(0, 0, 1000, 1000));
    layout.insert_window(1);
    layout.insert_window(2);
    layout.arrange();

    assert!(layout.toggle_floating(2, Rect::new(100, 100, 200, 50)));
    let WindowState::Floating { rect: before } = layout.find_window_node(2).unwrap().state
    else {
        panic!("expected floating");
    };

    assert!(layout.resize_floating_window(2, FocusDirection::Left, 1000, false)); // shrink

    let WindowState::Floating { rect: after } = layout.find_window_node(2).unwrap().state
    else {
        panic!("expected floating");
    };
    assert!(
        after.width < before.width,
        "width should shrink: {} -> {}",
        before.width,
        after.width
    );
    assert!(
        after.x > before.x,
        "x should shift right when shrinking left border: {} -> {}",
        before.x,
        after.x
    );
}

#[test]
fn resize_floating_window_shrink_up_shifts_position() {
    let mut layout = LayoutTree::new(Rect::new(0, 0, 1000, 1000));
    layout.insert_window(1);
    layout.insert_window(2);
    layout.arrange();

    assert!(layout.toggle_floating(2, Rect::new(100, 100, 200, 50)));
    let WindowState::Floating { rect: before } = layout.find_window_node(2).unwrap().state
    else {
        panic!("expected floating");
    };

    assert!(layout.resize_floating_window(2, FocusDirection::Up, 1000, false)); // shrink

    let WindowState::Floating { rect: after } = layout.find_window_node(2).unwrap().state
    else {
        panic!("expected floating");
    };
    assert!(
        after.height < before.height,
        "height should shrink: {} -> {}",
        before.height,
        after.height
    );
    assert!(
        after.y > before.y,
        "y should shift down when shrinking top border: {} -> {}",
        before.y,
        after.y
    );
}

#[test]
fn resize_floating_window_expand_left_shifts_position() {
    let mut layout = LayoutTree::new(Rect::new(0, 0, 1000, 1000));
    layout.insert_window(1);
    layout.insert_window(2);
    layout.arrange();

    assert!(layout.toggle_floating(2, Rect::new(200, 100, 200, 50)));
    let WindowState::Floating { rect: before } = layout.find_window_node(2).unwrap().state
    else {
        panic!("expected floating");
    };

    assert!(layout.resize_floating_window(2, FocusDirection::Left, 1000, true)); // expand

    let WindowState::Floating { rect: after } = layout.find_window_node(2).unwrap().state
    else {
        panic!("expected floating");
    };
    assert!(
        after.width > before.width,
        "width should expand: {} -> {}",
        before.width,
        after.width
    );
    assert!(
        after.x < before.x,
        "x should shift left when expanding left border: {} -> {}",
        before.x,
        after.x
    );
}

#[test]
fn resize_floating_window_expand_up_shifts_position() {
    let mut layout = LayoutTree::new(Rect::new(0, 0, 1000, 1000));
    layout.insert_window(1);
    layout.insert_window(2);
    layout.arrange();

    assert!(layout.toggle_floating(2, Rect::new(100, 200, 200, 50)));
    let WindowState::Floating { rect: before } = layout.find_window_node(2).unwrap().state
    else {
        panic!("expected floating");
    };

    assert!(layout.resize_floating_window(2, FocusDirection::Up, 1000, true)); // expand

    let WindowState::Floating { rect: after } = layout.find_window_node(2).unwrap().state
    else {
        panic!("expected floating");
    };
    assert!(
        after.height > before.height,
        "height should expand: {} -> {}",
        before.height,
        after.height
    );
    assert!(
        after.y < before.y,
        "y should shift up when expanding top border: {} -> {}",
        before.y,
        after.y
    );
}

#[test]
fn resize_single_window_returns_false() {
    let mut layout = LayoutTree::new(Rect::new(0, 0, 1000, 100));
    layout.insert_window(1);
    layout.arrange();

    layout.focus_window(1);
    assert!(!layout.resize_ratio(FocusDirection::Right, 500));
}

#[test]
fn resize_vertical_split_second_child_expand_left() {
    let mut layout = LayoutTree::new(Rect::new(0, 0, 1000, 100));
    layout.insert_window(1);
    layout.insert_window(2);
    layout.arrange();

    layout.focus_window(2);
    // Second child (right) expand left = take space from first = decrease ratio = -delta
    assert!(layout.resize_ratio(FocusDirection::Left, 1000));

    let arranged = visible(&layout);
    let rect1 = arranged
        .iter()
        .find(|(id, _)| *id == 1)
        .map(|(_, r)| *r)
        .unwrap();
    let rect2 = arranged
        .iter()
        .find(|(id, _)| *id == 2)
        .map(|(_, r)| *r)
        .unwrap();
    assert!(
        rect2.width > 500,
        "Right child should grow: got {}",
        rect2.width
    );
    assert!(
        rect1.width < 500,
        "Left child should shrink: got {}",
        rect1.width
    );
}

#[test]
fn resize_vertical_split_second_child_shrink_right() {
    let mut layout = LayoutTree::new(Rect::new(0, 0, 1000, 100));
    layout.insert_window(1);
    layout.insert_window(2);
    layout.arrange();

    layout.focus_window(2);
    // Second child (right) shrink right = give space to first = increase ratio = +delta
    assert!(layout.resize_ratio(FocusDirection::Right, 1000));

    let arranged = visible(&layout);
    let rect1 = arranged
        .iter()
        .find(|(id, _)| *id == 1)
        .map(|(_, r)| *r)
        .unwrap();
    let rect2 = arranged
        .iter()
        .find(|(id, _)| *id == 2)
        .map(|(_, r)| *r)
        .unwrap();
    assert!(
        rect2.width < 500,
        "Right child should shrink: got {}",
        rect2.width
    );
    assert!(
        rect1.width > 500,
        "Left child should grow: got {}",
        rect1.width
    );
}

#[test]
fn resize_horizontal_split_second_child_expand_up() {
    let mut layout = LayoutTree::new(Rect::new(0, 0, 100, 1000));
    layout.insert_window(1);
    layout.insert_window(2);
    layout.arrange();

    layout.focus_window(2);
    // Second child (bottom) expand up = take space from first = decrease ratio = -delta
    assert!(layout.resize_ratio(FocusDirection::Up, 1000));

    let arranged = visible(&layout);
    let rect1 = arranged
        .iter()
        .find(|(id, _)| *id == 1)
        .map(|(_, r)| *r)
        .unwrap();
    let rect2 = arranged
        .iter()
        .find(|(id, _)| *id == 2)
        .map(|(_, r)| *r)
        .unwrap();
    assert!(
        rect2.height > 500,
        "Bottom child should grow: got {}",
        rect2.height
    );
    assert!(
        rect1.height < 500,
        "Top child should shrink: got {}",
        rect1.height
    );
}

#[test]
fn resize_horizontal_split_second_child_shrink_down() {
    let mut layout = LayoutTree::new(Rect::new(0, 0, 100, 1000));
    layout.insert_window(1);
    layout.insert_window(2);
    layout.arrange();

    layout.focus_window(2);
    // Second child (bottom) shrink down = give space to first = increase ratio = +delta
    assert!(layout.resize_ratio(FocusDirection::Down, 1000));

    let arranged = visible(&layout);
    let rect1 = arranged
        .iter()
        .find(|(id, _)| *id == 1)
        .map(|(_, r)| *r)
        .unwrap();
    let rect2 = arranged
        .iter()
        .find(|(id, _)| *id == 2)
        .map(|(_, r)| *r)
        .unwrap();
    assert!(
        rect2.height < 500,
        "Bottom child should shrink: got {}",
        rect2.height
    );
    assert!(
        rect1.height > 500,
        "Top child should grow: got {}",
        rect1.height
    );
}

#[test]
fn focus_to_resize_target_vertical_split_finds_horizontal_ancestor() {
    let mut layout = LayoutTree::new(Rect::new(0, 0, 1000, 1000));
    layout.insert_window(1);
    layout.insert_window(2);
    layout.insert_window(3);
    layout.insert_window(4);
    layout.arrange();

    layout.focus_window(4);
    let target = layout.focus_to_resize_target(FocusDirection::Up);
    assert_eq!(target, Some(2));
}

#[test]
fn focus_to_resize_target_horizontal_split_finds_vertical_ancestor() {
    // Tree structure with square output creates: split(v, w1, split(h, w2, split(v, w3, w4)))
    // Window 2 is in a horizontal split (doesn't support Left/Right)
    // Window 2's grandparent is a vertical split (supports Left/Right)
    // Focusing w2 and pressing Left should find the vertical ancestor's sibling = w1
    let mut layout = LayoutTree::new(Rect::new(0, 0, 1000, 1000));
    layout.insert_window(1);
    layout.insert_window(2);
    layout.insert_window(3);
    layout.insert_window(4);
    layout.arrange();

    // Verify tree: w2 should be in a horizontal split (doesn't support Left)
    let w2_rect = layout.node_rect(2).unwrap();
    assert_eq!(w2_rect.x, 500); // Right of w1

    layout.focus_window(2);
    let target = layout.focus_to_resize_target(FocusDirection::Left);
    assert_eq!(target, Some(1));
}

#[test]
fn focus_to_resize_target_returns_none_when_no_ancestor_supports_direction() {
    let mut layout = LayoutTree::new(Rect::new(0, 0, 1000, 100));
    layout.insert_window(1);
    layout.insert_window(2);
    layout.arrange();

    layout.focus_window(2);
    let target = layout.focus_to_resize_target(FocusDirection::Up);
    assert_eq!(target, None);
}

#[test]
fn focus_to_resize_target_returns_none_at_root() {
    let mut layout = LayoutTree::new(Rect::new(0, 0, 1000, 1000));
    layout.insert_window(1);
    layout.arrange();

    layout.focus_window(1);
    let target = layout.focus_to_resize_target(FocusDirection::Up);
    assert_eq!(target, None);
}

#[test]
fn focus_to_resize_target_skips_non_tiling_siblings() {
    let mut layout = LayoutTree::new(Rect::new(0, 0, 1000, 1000));
    layout.insert_window(1);
    layout.insert_window(2);
    layout.insert_window(3);
    layout.insert_window(4);
    layout.arrange();

    layout.focus_window(4);
    assert!(layout.toggle_floating(2, Rect::new(10, 10, 200, 50)));

    let target = layout.focus_to_resize_target(FocusDirection::Up);
    assert_eq!(target, None);
}

#[test]
fn toggle_fullscreen_twice_restores_each_state() {
    let mut layout = LayoutTree::new(Rect::new(0, 0, 1000, 100));
    layout.insert_window(1);
    layout.insert_window(2);
    assert!(layout.toggle_floating(1, Rect::new(10, 10, 200, 50)));

    let floating = WindowState::Floating { rect: Rect::new(10, 10, 200, 50) };
    assert!(layout.toggle_fullscreen(1));
    assert_eq!(
        layout.window_state(1),
        Some(&WindowState::Fullscreen { restore: Box::new(floating.clone()) })
    );
    assert!(layout.toggle_fullscreen(1));
    assert_eq!(layout.window_state(1), Some(&floating));

    assert!(layout.toggle_fullscreen(2));
    assert!(layout.toggle_fullscreen(2));
    assert_eq!(layout.window_state(2), Some(&WindowState::Tiled));
}
