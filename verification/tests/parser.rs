use fenestre::command::Command;
use fenestre::config::KeyBindingTarget;
use fenestre::geometry::{FocusDirection, Rect, WindowState};
use fenestre::keysym::{KeysymTable, keysym_lookup_name, parse_keysym};
use fenestre::parser::{parse_command, parse_keybinding, parse_mode, parse_modifiers, parse_target};

const SHIFT: u32 = 1;
const CTRL: u32 = 4;
const ALT: u32 = 8;
const MOD3: u32 = 32;
const SUPER: u32 = 64;
const MOD5: u32 = 128;

#[test]
fn parses_target_strings() {
    assert_eq!(parse_target(Some("primary")), Some(KeyBindingTarget::Primary));
    assert_eq!(parse_target(Some("all")), Some(KeyBindingTarget::All));
    assert_eq!(parse_target(None), Some(KeyBindingTarget::Primary));
    assert_eq!(parse_target(Some("invalid")), None);
    assert_eq!(parse_target(Some("Primary")), None);
}

/// Keysyms as XKB resolves them, for the names these tests use.
fn keysyms() -> KeysymTable {
    let mut t = KeysymTable::new();
    t.insert("Return", 0xff0d);
    t.insert("q", 0x71);
    t.insert("Space", 0x20);
    t
}

#[test]
fn keysym_lookup_names_follow_aliases() {
    assert_eq!(keysym_lookup_name(" "), Some("Space"));
    assert_eq!(keysym_lookup_name("\t"), Some("Tab"));
    assert_eq!(keysym_lookup_name("enter"), Some("Return"));
    assert_eq!(keysym_lookup_name("esc"), Some("Escape"));
    assert_eq!(keysym_lookup_name("del"), Some("Delete"));
    assert_eq!(keysym_lookup_name("pgdn"), Some("Page_Down"));
    assert_eq!(keysym_lookup_name("["), Some("bracketleft"));
    assert_eq!(keysym_lookup_name("\\"), Some("backslash"));
    assert_eq!(keysym_lookup_name("volup"), Some("XF86AudioRaiseVolume"));
    assert_eq!(keysym_lookup_name("touchpad"), Some("XF86TouchpadToggle"));
    assert_eq!(keysym_lookup_name("Return"), Some("Return"));
    assert_eq!(keysym_lookup_name("eacute"), Some("eacute"));
}

#[test]
fn rejects_invalid_xkb_keysyms() {
    let table = keysyms();
    assert_eq!(keysym_lookup_name(""), None);
    assert_eq!(keysym_lookup_name("Return\0"), None);
    assert_eq!(parse_keysym("", &table), None);
    assert_eq!(parse_keysym("not-a-real-keysym", &table), None);
    assert_eq!(parse_keysym("Return\0", &table), None);
}

#[test]
fn parses_keysyms_through_the_table() {
    let table = keysyms();
    assert_eq!(parse_keysym("Return", &table), Some(0xff0d));
    assert_eq!(parse_keysym("enter", &table), Some(0xff0d));
    assert_eq!(parse_keysym(" ", &table), Some(0x20));
    assert_eq!(parse_keysym("q", &table), Some(0x71));
}

#[test]
fn parses_modifier_masks() {
    assert_eq!(parse_modifiers(&[]), Some(0));
    assert_eq!(parse_modifiers(&["shift"]), Some(SHIFT));
    assert_eq!(parse_modifiers(&["ctrl"]), Some(CTRL));
    assert_eq!(parse_modifiers(&["control"]), Some(CTRL));
    assert_eq!(parse_modifiers(&["alt"]), Some(ALT));
    assert_eq!(parse_modifiers(&["mod1"]), Some(ALT));
    assert_eq!(parse_modifiers(&["mod3"]), Some(MOD3));
    assert_eq!(parse_modifiers(&["super"]), Some(SUPER));
    assert_eq!(parse_modifiers(&["mod4"]), Some(SUPER));
    assert_eq!(parse_modifiers(&["mod5"]), Some(MOD5));
    assert_eq!(parse_modifiers(&["shift", "super"]), Some(SHIFT | SUPER));
    assert_eq!(parse_modifiers(&["super", "shift"]), Some(SUPER | SHIFT));
    assert_eq!(parse_modifiers(&["Super"]), Some(SUPER));
    assert_eq!(parse_modifiers(&["SHIFT", "Ctrl"]), Some(SHIFT | CTRL));
    assert_eq!(parse_modifiers(&["Mod4"]), Some(SUPER));
}

#[test]
fn parses_owned_modifier_strings() {
    let modifiers = vec!["ctrl".to_string(), "alt".to_string()];
    let names: Vec<&str> = modifiers.iter().map(|s| s.as_str()).collect();

    assert_eq!(parse_modifiers(&names), Some(CTRL | ALT));
}

#[test]
fn rejects_invalid_modifiers() {
    assert_eq!(parse_modifiers(&["invalid"]), None);
    assert_eq!(parse_modifiers(&["super", "invalid"]), None);
}

#[test]
fn parses_commands() {
    assert_eq!(parse_command(&["close"]), Some(Command::CloseFocused));
    assert_eq!(parse_command(&["focus_next"]), Some(Command::FocusNext));
    assert_eq!(parse_command(&["focus_previous"]), Some(Command::FocusPrevious));
    assert_eq!(parse_command(&["focus_left"]), Some(Command::FocusLeft));
    assert_eq!(parse_command(&["focus_right"]), Some(Command::FocusRight));
    assert_eq!(parse_command(&["focus_up"]), Some(Command::FocusUp));
    assert_eq!(parse_command(&["focus_down"]), Some(Command::FocusDown));
    assert_eq!(
        parse_command(&["spawn", "foot"]),
        Some(Command::Spawn { program: "foot".to_string(), args: Vec::new() })
    );
    assert_eq!(
        parse_command(&["spawn", "foot", "-e", "htop"]),
        Some(Command::Spawn {
            program: "foot".to_string(),
            args: vec!["-e".to_string(), "htop".to_string()],
        })
    );
    assert_eq!(parse_command(&["reload_config"]), Some(Command::ReloadConfig));
    assert_eq!(parse_command(&["reload"]), Some(Command::ReloadConfig));
    assert_eq!(parse_command(&["exit_river"]), Some(Command::ExitRiver));
    assert_eq!(parse_command(&["exit"]), Some(Command::ExitRiver));
    assert_eq!(parse_command(&["toggle_floating"]), Some(Command::ToggleFloating));
    assert_eq!(parse_command(&["floating"]), Some(Command::ToggleFloating));
    assert_eq!(parse_command(&["toggle_fullscreen"]), Some(Command::ToggleFullscreen));
    assert_eq!(parse_command(&["fullscreen"]), Some(Command::ToggleFullscreen));
    assert_eq!(parse_command(&["toggle_pseudo_tiled"]), Some(Command::TogglePseudoTiled));
    assert_eq!(parse_command(&["pseudo_tiled"]), Some(Command::TogglePseudoTiled));
    assert_eq!(parse_command(&["tiled"]), Some(Command::SetTiled));
    assert_eq!(parse_command(&["move_left"]), Some(Command::MoveLeft));
    assert_eq!(parse_command(&["move_right"]), Some(Command::MoveRight));
    assert_eq!(parse_command(&["move_up"]), Some(Command::MoveUp));
    assert_eq!(parse_command(&["move_down"]), Some(Command::MoveDown));
    assert_eq!(
        parse_command(&["resize_expand_left"]),
        Some(Command::ResizeExpand { direction: FocusDirection::Left })
    );
    assert_eq!(
        parse_command(&["resize_expand_right"]),
        Some(Command::ResizeExpand { direction: FocusDirection::Right })
    );
    assert_eq!(
        parse_command(&["resize_expand_up"]),
        Some(Command::ResizeExpand { direction: FocusDirection::Up })
    );
    assert_eq!(
        parse_command(&["resize_expand_down"]),
        Some(Command::ResizeExpand { direction: FocusDirection::Down })
    );
    assert_eq!(
        parse_command(&["resize_shrink_left"]),
        Some(Command::ResizeShrink { direction: FocusDirection::Left })
    );
    assert_eq!(
        parse_command(&["resize_shrink_right"]),
        Some(Command::ResizeShrink { direction: FocusDirection::Right })
    );
    assert_eq!(
        parse_command(&["resize_shrink_up"]),
        Some(Command::ResizeShrink { direction: FocusDirection::Up })
    );
    assert_eq!(
        parse_command(&["resize_shrink_down"]),
        Some(Command::ResizeShrink { direction: FocusDirection::Down })
    );
}

#[test]
fn rejects_invalid_commands() {
    assert_eq!(parse_command(&[]), None);
    assert_eq!(parse_command(&["spawn"]), None);
    assert_eq!(parse_command(&["spawn", ""]), None);
    assert_eq!(parse_command(&["invalid"]), None);
}

#[test]
fn parses_full_keybinding() {
    let binding = parse_keybinding(Some("all"), "Return", &["super"], &["spawn", "foot"], &keysyms())
        .expect("keybinding should parse");

    assert_eq!(binding.target, KeyBindingTarget::All);
    assert_eq!(binding.keysym, 0xff0d);
    assert_eq!(binding.modifiers, SUPER);
    assert_eq!(
        binding.command,
        Command::Spawn { program: "foot".to_string(), args: Vec::new() }
    );
}

#[test]
fn parses_full_keybinding_with_default_target_and_no_modifiers() {
    let binding = parse_keybinding(None, "q", &[], &["close"], &keysyms()).expect("keybinding should parse");

    assert_eq!(binding.target, KeyBindingTarget::Primary);
    assert_eq!(binding.keysym, 0x71);
    assert_eq!(binding.modifiers, 0);
    assert_eq!(binding.command, Command::CloseFocused);
}

#[test]
fn rejects_invalid_full_keybindings() {
    let table = keysyms();
    assert!(parse_keybinding(Some("invalid"), "Return", &["super"], &["close"], &table).is_none());
    assert!(parse_keybinding(Some("all"), "invalid", &["super"], &["close"], &table).is_none());
    assert!(parse_keybinding(Some("all"), "Return", &["invalid"], &["close"], &table).is_none());
    assert!(parse_keybinding(Some("all"), "Return", &["super"], &["invalid"], &table).is_none());
}

#[test]
fn parses_modes() {
    let origin = Rect::new(0, 0, 0, 0);
    assert_eq!(parse_mode("tiled"), Some(WindowState::Tiled));
    assert_eq!(parse_mode("floating"), Some(WindowState::Floating { rect: origin }));
    assert_eq!(parse_mode("pseudo_tiled"), Some(WindowState::PseudoTiled { rect: origin }));
    assert_eq!(
        parse_mode("fullscreen"),
        Some(WindowState::Fullscreen { restore: Box::new(WindowState::Tiled) })
    );
    assert_eq!(parse_mode("invalid"), None);
}

#[test]
fn modifiers_match_ignoring_case() {
    let upper = fenestre::parser::parse_modifiers(&["Super", "SHIFT"]);
    let lower = fenestre::parser::parse_modifiers(&["super", "shift"]);
    assert_eq!(upper, Some(65));
    assert_eq!(upper, lower);
    assert_eq!(fenestre::parser::parse_modifiers(&["Hyper"]), None);
}
