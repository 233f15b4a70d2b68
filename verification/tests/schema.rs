use fenestre::config::{AccelProfile, ClickMethod, DragLockState, ScrollMethod, SendEventsMode, TapButtonMap};
use fenestre::command::Command;
use fenestre::config::KeyBindingTarget;
use fenestre::config::ConfigError;
use fenestre::keysym::KeysymTable;
use fenestre::geometry::{Rect, WindowState};
use fenestre::rules::RulePattern;
use fenestre::schema::{
    RawAccelProfile, RawClickMethod, RawCommand, RawConfig, RawDragLockState, RawKeyBinding, RawLayout,
    RawModifiers, RawRect, RawRule, RawScrollMethod, RawSendEventsMode, RawTapButtonMap, UnresolvedPattern,
    build_config,
};

#[test]
fn raw_accel_profile_converts_to_all_variants() {
    assert_eq!(AccelProfile::from(RawAccelProfile::NoProfile), AccelProfile::NoProfile);
    assert_eq!(AccelProfile::from(RawAccelProfile::Flat), AccelProfile::Flat);
    assert_eq!(AccelProfile::from(RawAccelProfile::Adaptive), AccelProfile::Adaptive);
}

#[test]
fn raw_tap_button_map_converts_to_all_variants() {
    assert_eq!(TapButtonMap::from(RawTapButtonMap::LeftRightMiddle), TapButtonMap::Lrm);
    assert_eq!(TapButtonMap::from(RawTapButtonMap::LeftMiddleRight), TapButtonMap::Lmr);
}

#[test]
fn raw_scroll_method_converts_to_all_variants() {
    assert_eq!(ScrollMethod::from(RawScrollMethod::NoScroll), ScrollMethod::NoScroll);
    assert_eq!(ScrollMethod::from(RawScrollMethod::TwoFinger), ScrollMethod::TwoFinger);
    assert_eq!(ScrollMethod::from(RawScrollMethod::Edge), ScrollMethod::Edge);
    assert_eq!(ScrollMethod::from(RawScrollMethod::OnButtonDown), ScrollMethod::OnButtonDown);
}

#[test]
fn raw_drag_lock_state_converts_to_all_variants() {
    assert_eq!(DragLockState::from(RawDragLockState::Disabled), DragLockState::Disabled);
    assert_eq!(DragLockState::from(RawDragLockState::EnabledTimeout), DragLockState::EnabledTimeout);
    assert_eq!(DragLockState::from(RawDragLockState::EnabledSticky), DragLockState::EnabledSticky);
}

#[test]
fn raw_click_method_converts_to_all_variants() {
    assert_eq!(ClickMethod::from(RawClickMethod::NoClick), ClickMethod::NoClick);
    assert_eq!(ClickMethod::from(RawClickMethod::ButtonAreas), ClickMethod::ButtonAreas);
    assert_eq!(ClickMethod::from(RawClickMethod::Clickfinger), ClickMethod::Clickfinger);
}

#[test]
fn raw_send_events_mode_converts_to_all_variants() {
    assert_eq!(SendEventsMode::from(RawSendEventsMode::Enabled), SendEventsMode::Enabled);
    assert_eq!(SendEventsMode::from(RawSendEventsMode::Disabled), SendEventsMode::Disabled);
    assert_eq!(
        SendEventsMode::from(RawSendEventsMode::DisabledOnExternalMouse),
        SendEventsMode::DisabledOnExternalMouse
    );
}

fn keysyms() -> KeysymTable {
    let mut t = KeysymTable::new();
    t.insert("q", 0x71);
    t
}

#[test]
fn build_config_from_raw() {
    let raw = RawConfig {
        layout: Some(RawLayout {
            gap: Some(10),
            margin_top: None,
            margin_right: None,
            margin_bottom: None,
            margin_left: None,
            margins: None,
            default_float_ratio: None,
            preview_border_color: None,
            preview_border_width: None,
        }),
        decorations: Some(true),
        border_width: Some(2),
        border_color_focused: Some(0xffffffff),
        border_color_unfocused: Some(0xffffffff),
        resize_delta_ratio: None,
        resize_delta_percent: None,
        keybindings: Some(vec![RawKeyBinding {
            target: None,
            keysym: "q".to_string(),
            modifiers: RawModifiers::Multi(vec!["super".to_string()]),
            command: RawCommand::Simple("close".to_string()),
        }]),
        pointer_bindings: None,
        rules: None,
        keyboard_layout: None,
        input_devices: None,
    };

    let config = build_config(raw, &keysyms()).expect("raw config should build");

    assert_eq!(config.layout.gap, Some(10));
    assert_eq!(config.border_width, Some(2));
    assert_eq!(config.keybindings.len(), 1);
    assert_eq!(config.keybindings[0].command, Command::CloseFocused);
}

#[test]
fn build_config_rejects_invalid_ratio() {
    let raw = RawConfig {
        layout: Some(RawLayout {
            gap: None,
            margin_top: None,
            margin_right: None,
            margin_bottom: None,
            margin_left: None,
            margins: None,
            default_float_ratio: Some(2.0f32.to_bits()),
            preview_border_color: None,
            preview_border_width: None,
        }),
        decorations: None,
        border_width: None,
        border_color_focused: None,
        border_color_unfocused: None,
        resize_delta_ratio: None,
        resize_delta_percent: None,
        keybindings: None,
        pointer_bindings: None,
        rules: None,
        keyboard_layout: None,
        input_devices: None,
    };

    let error = build_config(raw, &keysyms()).expect_err("invalid ratio should fail");

    assert!(matches!(
        error,
        ConfigError::InvalidConfig(message) if message.contains("must be between 0.0 and 1.0")
    ));
}

/// A configuration that sets nothing.
fn empty_raw() -> RawConfig {
    RawConfig {
        layout: None,
        decorations: None,
        border_width: None,
        border_color_focused: None,
        border_color_unfocused: None,
        resize_delta_ratio: None,
        resize_delta_percent: None,
        keybindings: None,
        pointer_bindings: None,
        rules: None,
        keyboard_layout: None,
        input_devices: None,
    }
}

fn rule(app_id: Option<UnresolvedPattern>, title: Option<UnresolvedPattern>, mode: &str) -> RawRule {
    RawRule { app_id, title, mode: mode.to_string(), floating_rect: None }
}

fn exact(s: &str) -> Option<UnresolvedPattern> {
    Some(UnresolvedPattern::Exact(s.to_string()))
}

fn with_match(value: &str, mode: &str) -> Option<UnresolvedPattern> {
    Some(UnresolvedPattern::WithMatch { value: value.to_string(), match_type: Some(mode.to_string()) })
}

fn check_accepts_empty_rules_table() {
    let mut raw = empty_raw();
    raw.rules = Some(vec![]);
    let config = build_config(raw, &keysyms()).expect("config should parse");
    assert!(config.rules.is_empty());
}

fn check_parses_valid_rules() {
    let mut raw = empty_raw();
    raw.rules = Some(vec![rule(exact("foot"), None, "floating")]);
    let config = build_config(raw, &keysyms()).expect("config should parse");
    assert_eq!(config.rules.len(), 1);
    assert!(matches!(&config.rules[0].app_id, Some(RulePattern::Exact(s)) if s == "foot"));
    assert!(config.rules[0].title.is_none());
    assert!(matches!(config.rules[0].target, WindowState::Floating { .. }));
}

fn check_parses_rule_prefix() {
    let mut raw = empty_raw();
    raw.rules = Some(vec![rule(with_match("libreoffice-", "prefix"), None, "floating")]);
    let config = build_config(raw, &keysyms()).expect("config should parse");
    assert!(matches!(&config.rules[0].app_id, Some(RulePattern::Prefix(s)) if s == "libreoffice-"));
}

fn check_parses_rule_regex_and_rect() {
    let mut raw = empty_raw();
    let mut r = rule(with_match("^foot.*", "regex"), with_match("terminal$", "regex"), "fullscreen");
    r.floating_rect = Some(RawRect { x: Some(10), y: Some(20), width: Some(800), height: Some(600) });
    raw.rules = Some(vec![r]);
    let config = build_config(raw, &keysyms()).expect("config should parse");
    assert!(matches!(&config.rules[0].app_id, Some(RulePattern::Regex(c)) if c.as_str() == "^foot.*"));
    assert!(matches!(&config.rules[0].title, Some(RulePattern::Regex(c)) if c.as_str() == "terminal$"));
    assert!(matches!(config.rules[0].target, WindowState::Fullscreen { .. }));
    assert_eq!(config.rules[0].floating_rect, Some(Rect::new(10, 20, 800, 600)));
}

#[test]
fn parse_config_table_rejects_invalid_rule_mode() {
    let mut raw = empty_raw();
    raw.rules = Some(vec![rule(exact("foot"), None, "invalid")]);
    let error = build_config(raw, &keysyms()).expect_err("config should fail");
    assert!(matches!(
        error,
        ConfigError::InvalidConfig(message) if message == "Invalid rule mode"
    ));
}

#[test]
fn parse_config_table_rejects_empty_rule() {
    let mut raw = empty_raw();
    raw.rules = Some(vec![rule(None, None, "floating")]);
    let error = build_config(raw, &keysyms()).expect_err("config should fail");
    assert!(matches!(
        error,
        ConfigError::InvalidConfig(message) if message == "Rule must match at least one of app_id or title"
    ));
}

#[test]
fn parse_config_table_missing_keybindings_returns_empty_config() {
    let config = build_config(empty_raw(), &keysyms()).expect("config should parse");
    assert!(config.keybindings.is_empty());
}

fn check_accepts_empty_keybindings_table() {
    let mut raw = empty_raw();
    raw.keybindings = Some(vec![]);
    let config = build_config(raw, &keysyms()).expect("config should parse");
    assert!(config.keybindings.is_empty());
}

fn check_rejects_invalid_keybinding() {
    let mut raw = empty_raw();
    let mut table = keysyms();
    table.insert("Return", 0xff0d);
    raw.keybindings = Some(vec![RawKeyBinding {
        target: None,
        keysym: "Return".to_string(),
        modifiers: RawModifiers::Multi(vec!["super".to_string()]),
        command: RawCommand::Multi(vec!["invalid".to_string()]),
    }]);
    let error = build_config(raw, &table).expect_err("config should fail");
    assert!(matches!(
        error,
        ConfigError::InvalidConfig(message) if message == "Invalid keybinding"
    ));
}

fn key_binding(keysym: &str, modifiers: &[&str], command: RawCommand, target: Option<&str>) -> RawKeyBinding {
    RawKeyBinding {
        target: target.map(|t| t.to_string()),
        keysym: keysym.to_string(),
        modifiers: RawModifiers::Multi(modifiers.iter().map(|m| m.to_string()).collect()),
        command,
    }
}

fn check_parses_valid_keybindings() {
    let mut raw = empty_raw();
    let mut table = keysyms();
    table.insert("Return", 0xff0d);
    raw.keybindings = Some(vec![
        key_binding("q", &["super"], RawCommand::Simple("close".to_string()), None),
        key_binding(
            "Return",
            &["super"],
            RawCommand::Multi(vec!["spawn".to_string(), "foot".to_string()]),
            Some("all"),
        ),
    ]);
    let config = build_config(raw, &table).expect("config should parse");
    assert_eq!(config.keybindings.len(), 2);
    assert_eq!(config.keybindings[0].target, KeyBindingTarget::Primary);
    assert_eq!(config.keybindings[0].keysym, 0x71);
    assert_eq!(config.keybindings[0].modifiers, 64);
    assert_eq!(config.keybindings[0].command, Command::CloseFocused);
    assert_eq!(config.keybindings[1].target, KeyBindingTarget::All);
    assert_eq!(config.keybindings[1].keysym, 0xff0d);
    assert_eq!(config.keybindings[1].modifiers, 64);
    assert_eq!(
        config.keybindings[1].command,
        Command::Spawn { program: "foot".to_string(), args: Vec::new() }
    );
}

fn check_parses_move_commands() {
    let mut raw = empty_raw();
    let mut table = keysyms();
    table.insert("h", 0x68);
    table.insert("l", 0x6c);
    raw.keybindings = Some(vec![
        key_binding("h", &["super", "shift"], RawCommand::Simple("move_left".to_string()), None),
        key_binding("l", &["super", "shift"], RawCommand::Simple("move_right".to_string()), None),
    ]);
    let config = build_config(raw, &table).expect("config should parse");
    assert_eq!(config.keybindings.len(), 2);
    assert_eq!(config.keybindings[0].keysym, 0x68);
    assert_eq!(config.keybindings[0].modifiers, 64 | 1);
    assert_eq!(config.keybindings[0].command, Command::MoveLeft);
    assert_eq!(config.keybindings[1].keysym, 0x6c);
    assert_eq!(config.keybindings[1].modifiers, 64 | 1);
    assert_eq!(config.keybindings[1].command, Command::MoveRight);
}

#[test]
fn toml_parse_config_table_accepts_empty_rules_table() {
    check_accepts_empty_rules_table();
}

#[test]
fn lua_parse_config_table_accepts_empty_rules_table() {
    check_accepts_empty_rules_table();
}

#[test]
fn toml_parse_config_table_parses_valid_rules() {
    check_parses_valid_rules();
}

#[test]
fn lua_parse_config_table_parses_valid_rules() {
    check_parses_valid_rules();
}

#[test]
fn toml_parse_config_table_parses_rule_prefix() {
    check_parses_rule_prefix();
}

#[test]
fn lua_parse_config_table_parses_rule_prefix() {
    check_parses_rule_prefix();
}

#[test]
fn toml_parse_config_table_parses_rule_regex_and_rect() {
    check_parses_rule_regex_and_rect();
}

#[test]
fn lua_parse_config_table_parses_rule_regex_and_rect() {
    check_parses_rule_regex_and_rect();
}

#[test]
fn toml_parse_config_table_accepts_empty_keybindings_table() {
    check_accepts_empty_keybindings_table();
}

#[test]
fn lua_parse_config_table_accepts_empty_keybindings_table() {
    check_accepts_empty_keybindings_table();
}

#[test]
fn toml_parse_config_table_rejects_invalid_keybinding() {
    check_rejects_invalid_keybinding();
}

#[test]
fn lua_parse_config_table_rejects_invalid_keybinding() {
    check_rejects_invalid_keybinding();
}

#[test]
fn toml_parse_config_table_parses_valid_keybindings() {
    check_parses_valid_keybindings();
}

#[test]
fn lua_parse_config_table_parses_valid_keybindings() {
    check_parses_valid_keybindings();
}

#[test]
fn toml_parse_config_table_parses_move_commands() {
    check_parses_move_commands();
}

#[test]
fn lua_parse_config_table_parses_move_commands() {
    check_parses_move_commands();
}
