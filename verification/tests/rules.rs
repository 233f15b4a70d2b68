use fenestre::geometry::{Rect, WindowState};
use fenestre::rules::{RulePattern, WindowRule};

fn test_rule(
    app_id: Option<RulePattern>,
    title: Option<RulePattern>,
    target: WindowState,
) -> WindowRule {
    WindowRule {
        app_id,
        title,
        target,
        floating_rect: None,
    }
}

#[test]
fn rule_matches_exact_app_id() {
    let rule = test_rule(
        Some(RulePattern::exact("foot")),
        None,
        WindowState::Floating {
            rect: Rect::new(0, 0, 0, 0),
        },
    );
    assert!(rule.matches("foot", "anything"));
    assert!(!rule.matches("football", "anything"));
    assert!(!rule.matches("kitty", "anything"));
}

#[test]
fn rule_matches_prefix_app_id() {
    let rule = test_rule(
        Some(RulePattern::prefix("mate-")),
        None,
        WindowState::Floating {
            rect: Rect::new(0, 0, 0, 0),
        },
    );
    assert!(rule.matches("mate-calc", "anything"));
    assert!(rule.matches("mate-dictionary", "anything"));
    assert!(!rule.matches("gnome-calculator", "anything"));
}

#[test]
fn rule_matches_regex_app_id() {
    // Regex is a substring match unless anchored; "foot" matches any
    // app_id containing "foot".
    let rule = test_rule(
        Some(RulePattern::regex("foot").unwrap()),
        None,
        WindowState::Floating {
            rect: Rect::new(0, 0, 0, 0),
        },
    );
    assert!(rule.matches("foot", "anything"));
    assert!(rule.matches("football", "anything"));
    assert!(!rule.matches("kitty", "anything"));
}

#[test]
fn rule_matches_title_regex() {
    let rule = test_rule(
        None,
        Some(RulePattern::regex("news").unwrap()),
        WindowState::Tiled,
    );
    assert!(rule.matches("", "news"));
    assert!(!rule.matches("", "other"));
}

#[test]
fn rule_requires_metadata() {
    let rule = test_rule(
        Some(RulePattern::exact("foot")),
        None,
        WindowState::Floating {
            rect: Rect::new(0, 0, 0, 0),
        },
    );
    assert!(rule.app_id.is_some());
    assert!(rule.title.is_none());

    let title_rule = test_rule(
        None,
        Some(RulePattern::exact("news")),
        WindowState::Floating {
            rect: Rect::new(0, 0, 0, 0),
        },
    );
    assert!(title_rule.app_id.is_none());
    assert!(title_rule.title.is_some());
}
