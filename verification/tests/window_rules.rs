use fenestre::geometry::{Rect, WindowState};
use fenestre::output::OutputId;
use fenestre::rules::{RulePattern, WindowRule};
use fenestre::tree::LayoutTree;
use fenestre::window::{Window, WindowId};
use fenestre::window_rules::WindowRules;

fn test_rule(
    app_id: Option<RulePattern>,
    title: Option<RulePattern>,
    target: WindowState,
) -> WindowRule {
    WindowRule {
        app_id,
        title,
        target,
        floating_rect: None,
    }
}

#[test]
fn evaluate_skips_finalized_window() {
    let mut window = Window::new(WindowId(1), OutputId(1));
    window.app_id = Some("foot".to_string());
    window.title = Some("term".to_string());
    window.rules_applied = true;

    let mut tree = LayoutTree::new(Rect::new(0, 0, 1920, 1080));
    tree.insert_window(1);

    let rules = WindowRules::new(vec![test_rule(
        Some(RulePattern::exact("foot")),
        None,
        WindowState::Floating {
            rect: Rect::new(0, 0, 0, 0),
        },
    )]);
    assert!(!rules.evaluate(&mut window, &mut tree, Rect::new(0, 0, 1920, 1080), 5000));
}

#[test]
fn evaluate_applies_all_matching_rules_later_wins() {
    let mut window = Window::new(WindowId(1), OutputId(1));
    window.app_id = Some("firefox".to_string());
    window.title = Some("Library".to_string());

    let mut tree = LayoutTree::new(Rect::new(0, 0, 1920, 1080));
    tree.insert_window(1);

    // General rule listed first, specific rule listed later. Both match;
    // the later rule overrides.
    let rules = WindowRules::new(vec![
        test_rule(
            Some(RulePattern::regex("firefox").unwrap()),
            None,
            WindowState::Tiled,
        ),
        test_rule(
            Some(RulePattern::regex("firefox").unwrap()),
            Some(RulePattern::exact("Library")),
            WindowState::Floating {
                rect: Rect::new(0, 0, 0, 0),
            },
        ),
    ]);

    assert!(rules.evaluate(&mut window, &mut tree, Rect::new(0, 0, 1920, 1080), 5000));
    assert!(window.rules_applied);
    assert_eq!(
        tree.window_state(1).cloned(),
        Some(WindowState::Floating {
            rect: Rect::new(480, 270, 960, 540)
        })
    );
}

#[test]
fn evaluate_re_runs_when_title_arrives() {
    let mut window = Window::new(WindowId(1), OutputId(1));
    window.app_id = Some("firefox".to_string());

    let mut tree = LayoutTree::new(Rect::new(0, 0, 1920, 1080));
    tree.insert_window(1);

    let rules = WindowRules::new(vec![
        test_rule(
            Some(RulePattern::regex("firefox").unwrap()),
            None,
            WindowState::Tiled,
        ),
        test_rule(
            Some(RulePattern::regex("firefox").unwrap()),
            Some(RulePattern::exact("Library")),
            WindowState::Floating {
                rect: Rect::new(0, 0, 0, 0),
            },
        ),
    ]);

    // app_id known, title missing: general rule applies, not finalized yet.
    assert!(!rules.evaluate(&mut window, &mut tree, Rect::new(0, 0, 1920, 1080), 5000));
    assert!(!window.rules_applied);
    assert_eq!(tree.window_state(1).cloned(), Some(WindowState::Tiled));

    // Title arrives: re-evaluation lets the later, specific rule override.
    window.title = Some("Library".to_string());
    assert!(rules.evaluate(&mut window, &mut tree, Rect::new(0, 0, 1920, 1080), 5000));
    assert!(window.rules_applied);
    assert_eq!(
        tree.window_state(1).cloned(),
        Some(WindowState::Floating {
            rect: Rect::new(480, 270, 960, 540)
        })
    );
}

#[test]
fn last_matching_rule_decides_state() {
    let mut window = Window::new(WindowId(1), OutputId(1));
    window.app_id = Some("mpv".to_string());
    window.title = Some("video".to_string());

    let mut tree = LayoutTree::new(Rect::new(0, 0, 1920, 1080));
    tree.insert_window(1);

    let rules = WindowRules::new(vec![
        test_rule(Some(RulePattern::exact("mpv")), None, WindowState::Tiled),
        test_rule(
            Some(RulePattern::exact("mpv")),
            None,
            WindowState::Fullscreen { restore: Box::new(WindowState::Tiled) },
        ),
        test_rule(Some(RulePattern::exact("other")), None, WindowState::Tiled),
    ]);

    assert!(rules.evaluate(&mut window, &mut tree, Rect::new(0, 0, 1920, 1080), 5000));
    assert!(tree.window_is_fullscreen(1));
}
