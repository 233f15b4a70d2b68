use fenestre::command::Command;
use fenestre::config::{
    Config, ConfigError, ConfigFormat, KeyBindingConfig, KeyBindingTarget, LayoutConfig,
    PointerBindingConfig, PointerOp, config_format,
};

const SHIFT: u32 = 1;
const SUPER: u32 = 64;
const KEY_Q: u32 = 0x71;
const KEY_TAB: u32 = 0xff09;
const KEY_RETURN: u32 = 0xff0d;

fn binding(
    target: KeyBindingTarget,
    keysym: u32,
    modifiers: u32,
    command: Command,
) -> KeyBindingConfig {
    KeyBindingConfig {
        target,
        keysym,
        modifiers,
        command,
    }
}

fn assert_binding(binding: &KeyBindingConfig, expected: &KeyBindingConfig) {
    assert_eq!(binding.target, expected.target);
    assert_eq!(binding.keysym, expected.keysym);
    assert_eq!(binding.modifiers, expected.modifiers);
    assert_eq!(binding.command, expected.command);
}

fn pointer_binding(
    target: KeyBindingTarget,
    button: u32,
    modifiers: u32,
    op: PointerOp,
) -> PointerBindingConfig {
    PointerBindingConfig {
        target,
        button,
        modifiers,
        op,
    }
}

fn layout_config() -> LayoutConfig {
    LayoutConfig {
        gap: None,
        margin_top: None,
        margin_right: None,
        margin_bottom: None,
        margin_left: None,
        default_float_ratio: None,
        preview_border_color: None,
        preview_border_width: None,
    }
}

fn make_config(keybindings: Vec<KeyBindingConfig>) -> Config {
    make_config_full(keybindings, Vec::new())
}

fn make_config_with_pointer(pointer_bindings: Vec<PointerBindingConfig>) -> Config {
    make_config_full(Vec::new(), pointer_bindings)
}

fn make_config_full(
    keybindings: Vec<KeyBindingConfig>,
    pointer_bindings: Vec<PointerBindingConfig>,
) -> Config {
    Config {
        layout: layout_config(),
        decorations: true,
        border_width: None,
        border_color_focused: Some(0xffffffff),
        border_color_unfocused: Some(0xffffffff),
        resize_delta_ratio: None,
        resize_delta_percent: None,
        keybindings,
        pointer_bindings,
        rules: Vec::new(),
        keyboard_layout: None,
        input_devices: Vec::new(),
    }
}

#[test]
fn load_returns_default_config() {
    let config = Config::load();

    assert!(!config.keybindings.is_empty());
}

#[test]
fn merge_overrides_matching_identity_and_preserves_order() {
    let default_focus = binding(
        KeyBindingTarget::Primary,
        KEY_Q,
        SUPER,
        Command::CloseFocused,
    );
    let default_tab = binding(
        KeyBindingTarget::Primary,
        KEY_TAB,
        SUPER,
        Command::FocusNext,
    );
    let override_focus = binding(
        KeyBindingTarget::Primary,
        KEY_Q,
        SUPER,
        Command::FocusNext,
    );

    let mut config = make_config(vec![default_focus, default_tab.clone()]);

    config.merge(make_config(vec![override_focus.clone()]));

    assert_eq!(config.keybindings.len(), 2);
    assert_binding(&config.keybindings[0], &override_focus);
    assert_binding(&config.keybindings[1], &default_tab);
}

#[test]
fn merge_appends_new_identity() {
    let default_binding = binding(
        KeyBindingTarget::Primary,
        KEY_Q,
        SUPER,
        Command::CloseFocused,
    );
    let new_binding = binding(
        KeyBindingTarget::All,
        KEY_RETURN,
        SUPER,
        Command::Spawn {
            program: "foot".to_string(),
            args: Vec::new(),
        },
    );

    let mut config = make_config(vec![default_binding.clone()]);

    config.merge(make_config(vec![new_binding.clone()]));

    assert_eq!(config.keybindings.len(), 2);
    assert_binding(&config.keybindings[0], &default_binding);
    assert_binding(&config.keybindings[1], &new_binding);
}

#[test]
fn merge_last_duplicate_user_binding_wins() {
    let default_binding = binding(
        KeyBindingTarget::Primary,
        KEY_Q,
        SUPER,
        Command::CloseFocused,
    );
    let first_override = binding(
        KeyBindingTarget::Primary,
        KEY_Q,
        SUPER,
        Command::FocusNext,
    );
    let final_override = binding(
        KeyBindingTarget::Primary,
        KEY_Q,
        SUPER,
        Command::FocusPrevious,
    );

    let mut config = make_config(vec![default_binding]);

    config.merge(make_config(vec![first_override, final_override.clone()]));

    assert_eq!(config.keybindings.len(), 1);
    assert_binding(&config.keybindings[0], &final_override);
}

#[test]
fn merge_empty_user_config_preserves_defaults() {
    let default_binding = binding(
        KeyBindingTarget::Primary,
        KEY_Q,
        SUPER,
        Command::CloseFocused,
    );

    let mut config = make_config(vec![default_binding.clone()]);

    config.merge(make_config(Vec::new()));

    assert_eq!(config.keybindings.len(), 1);
    assert_binding(&config.keybindings[0], &default_binding);
}

#[test]
fn merge_does_not_override_different_modifiers() {
    let default_binding = binding(
        KeyBindingTarget::Primary,
        KEY_Q,
        SUPER,
        Command::CloseFocused,
    );
    let shifted_binding = binding(
        KeyBindingTarget::Primary,
        KEY_Q,
        SHIFT | SUPER,
        Command::FocusNext,
    );

    let mut config = make_config(vec![default_binding.clone()]);

    config.merge(make_config(vec![shifted_binding.clone()]));

    assert_eq!(config.keybindings.len(), 2);
    assert_binding(&config.keybindings[0], &default_binding);
    assert_binding(&config.keybindings[1], &shifted_binding);
}

#[test]
fn merge_does_not_override_different_target() {
    let primary_binding = binding(
        KeyBindingTarget::Primary,
        KEY_Q,
        SUPER,
        Command::CloseFocused,
    );
    let all_binding = binding(
        KeyBindingTarget::All,
        KEY_Q,
        SUPER,
        Command::FocusNext,
    );

    let mut config = make_config(vec![primary_binding.clone()]);

    config.merge(make_config(vec![all_binding.clone()]));

    assert_eq!(config.keybindings.len(), 2);
    assert_binding(&config.keybindings[0], &primary_binding);
    assert_binding(&config.keybindings[1], &all_binding);
}

#[test]
fn merge_overrides_decorations() {
    let mut config = make_config(Vec::new());

    let override_config = Config {
        layout: layout_config(),
        decorations: false,
        border_width: Some(2),
        border_color_focused: Some(0xff0000ff),
        border_color_unfocused: Some(0x00ff00ff),
        resize_delta_ratio: None,
        resize_delta_percent: None,
        keybindings: Vec::new(),
        pointer_bindings: Vec::new(),
        rules: Vec::new(),
        keyboard_layout: None,
        input_devices: Vec::new(),
    };

    config.merge(override_config);

    assert!(!config.decorations);
    assert_eq!(config.border_width, Some(2));
    assert_eq!(config.border_color_focused, Some(0xff0000ff));
    assert_eq!(config.border_color_unfocused, Some(0x00ff00ff));
}

#[test]
fn merge_keeps_user_pointer_bindings() {
    // Before the fix, `merge` never copied `pointer_bindings`, so a user
    // config's pointer bindings were silently dropped in favour of defaults.
    let default_move =
        pointer_binding(KeyBindingTarget::Primary, 0x110, SUPER, PointerOp::Move);
    let user_resize =
        pointer_binding(KeyBindingTarget::Primary, 0x111, SUPER, PointerOp::Resize);

    let mut config = make_config(Vec::new());
    config.pointer_bindings = vec![default_move.clone()];

    config.merge(make_config_with_pointer(vec![user_resize.clone()]));

    // The user binding is preserved (appended, distinct identity), and the
    // default is retained.
    assert_eq!(config.pointer_bindings.len(), 2);
    assert_eq!(config.pointer_bindings[0].op, PointerOp::Move);
    assert_eq!(config.pointer_bindings[1].op, PointerOp::Resize);
}

#[test]
fn merge_overrides_matching_pointer_binding_identity() {
    let default_move =
        pointer_binding(KeyBindingTarget::Primary, 0x110, SUPER, PointerOp::Move);
    // Same trigger (target/button/modifiers) but a different op: the user
    // binding overrides the default in place rather than appending a
    // duplicate, matching keybinding merge semantics.
    let override_resize =
        pointer_binding(KeyBindingTarget::Primary, 0x110, SUPER, PointerOp::Resize);

    let mut config = make_config(Vec::new());
    config.pointer_bindings = vec![default_move];

    config.merge(make_config_with_pointer(vec![override_resize]));

    assert_eq!(
        config.pointer_bindings.len(),
        1,
        "matching pointer-binding trigger must override, not append"
    );
    assert_eq!(
        config.pointer_bindings[0].op,
        PointerOp::Resize,
        "user op must replace default op on override"
    );
}

#[test]
fn merge_appends_distinct_pointer_binding_trigger() {
    let default_move =
        pointer_binding(KeyBindingTarget::Primary, 0x110, SUPER, PointerOp::Move);
    let user_resize =
        pointer_binding(KeyBindingTarget::Primary, 0x111, SUPER, PointerOp::Resize);

    let mut config = make_config(Vec::new());
    config.pointer_bindings = vec![default_move];

    config.merge(make_config_with_pointer(vec![user_resize]));

    assert_eq!(
        config.pointer_bindings.len(),
        2,
        "distinct trigger must append"
    );
    assert_eq!(config.pointer_bindings[0].op, PointerOp::Move);
    assert_eq!(config.pointer_bindings[1].op, PointerOp::Resize);
}

#[test]
fn load_from_path_rejects_unsupported_extension() {
    let ext = std::path::Path::new("config.yaml").extension().and_then(|e| e.to_str());
    let error = config_format(ext).expect_err("config should fail");

    assert!(matches!(
        error,
        ConfigError::InvalidConfig(message) if message.contains("Unsupported config file extension")
    ));
}

#[test]
fn config_format_follows_extension_ignoring_case() {
    assert_eq!(config_format(Some("TOML")), Ok(ConfigFormat::Toml));
    assert_eq!(config_format(Some("lua")), Ok(ConfigFormat::Lua));
    assert_eq!(config_format(None), Ok(ConfigFormat::Lua));
    assert_eq!(
        config_format(Some("YAML")),
        Err(ConfigError::InvalidConfig("Unsupported config file extension: yaml".to_string()))
    );
}

#[test]
fn merge_keeps_only_last_user_binding_of_new_identity() {
    let default_binding = binding(
        KeyBindingTarget::Primary,
        KEY_Q,
        SUPER,
        Command::CloseFocused,
    );
    let first = binding(KeyBindingTarget::Primary, KEY_TAB, SUPER, Command::FocusNext);
    let second = binding(
        KeyBindingTarget::Primary,
        KEY_TAB,
        SUPER,
        Command::FocusPrevious,
    );

    let mut config = make_config(vec![default_binding.clone()]);
    config.merge(make_config(vec![first, second.clone()]));

    assert_eq!(config.keybindings.len(), 2);
    assert_binding(&config.keybindings[0], &default_binding);
    assert_binding(&config.keybindings[1], &second);
}

#[test]
fn default_keybindings_have_distinct_identities() {
    let config = fenestre::defaults::defaults();
    let ctrl: u32 = fenestre::defaults::CTRL;
    for keysym in [0x68u32, 0x6a, 0x6b, 0x6c] {
        let count = config
            .keybindings
            .iter()
            .filter(|b| {
                b.target == KeyBindingTarget::Primary
                    && b.keysym == keysym
                    && b.modifiers == SUPER | ctrl
            })
            .count();
        assert_eq!(count, 1, "keysym {:#x} bound more than once", keysym);
    }
    for i in 0..config.keybindings.len() {
        for j in (i + 1)..config.keybindings.len() {
            let a = &config.keybindings[i];
            let b = &config.keybindings[j];
            assert!(
                !(a.target == b.target && a.keysym == b.keysym && a.modifiers == b.modifiers),
                "default bindings {} and {} share an identity",
                i,
                j
            );
        }
    }
}
