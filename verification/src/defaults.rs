//! Built-in default configuration: a usable baseline that a user
//! configuration is merged over by binding identity.
use crate::command::Command;
use crate::config::{Config, KeyBindingConfig, KeyBindingTarget, LayoutConfig, PointerBindingConfig, PointerOp};
use crate::geometry::FocusDirection;
use vstd::prelude::*;

verus! {

/// River modifier bit of the Super key.
pub const SUPER: u32 = 64;
/// River modifier bit of Shift.
pub const SHIFT: u32 = 1;
/// River modifier bit of Control.
pub const CTRL: u32 = 4;
/// River modifier bit of Alt.
pub const ALT: u32 = 8;

/// Linux input event code of the left pointer button.
pub const BTN_LEFT: u32 = 0x110;
/// Linux input event code of the right pointer button.
pub const BTN_RIGHT: u32 = 0x111;

/// X11 keysym `Return`.
pub const KEY_RETURN: u32 = 0xff0d;
/// X11 keysym `q`.
pub const KEY_Q: u32 = 0x71;
/// X11 keysym `h`.
pub const KEY_H: u32 = 0x68;
/// X11 keysym `j`.
pub const KEY_J: u32 = 0x6a;
/// X11 keysym `k`.
pub const KEY_K: u32 = 0x6b;
/// X11 keysym `l`.
pub const KEY_L: u32 = 0x6c;
/// X11 keysym `t`.
pub const KEY_T: u32 = 0x74;
/// X11 keysym `Tab`.
pub const KEY_TAB: u32 = 0xff09;
/// X11 keysym `s`.
pub const KEY_S: u32 = 0x73;
/// X11 keysym `f`.
pub const KEY_F: u32 = 0x66;
/// X11 keysym `r`.
pub const KEY_R: u32 = 0x72;
/// X11 keysym `e`.
pub const KEY_E: u32 = 0x65;
/// X11 keysym `v`.
pub const KEY_V: u32 = 0x76;
/// X11 keysym `Escape`.
pub const KEY_ESCAPE: u32 = 0xff1b;
/// X11 keysym `space`.
pub const KEY_SPACE: u32 = 0x20;

/// Keysym, modifiers and command of every default keybinding after the
/// first (which spawns `foot`), in order; all target the primary seat.
pub open spec fn spec_default_bindings() -> Seq<(u32, u32, Command)> {
    seq![
        (KEY_Q, SUPER, Command::CloseFocused),
        (KEY_H, SUPER, Command::FocusLeft),
        (KEY_J, SUPER, Command::FocusDown),
        (KEY_K, SUPER, Command::FocusUp),
        (KEY_L, SUPER, Command::FocusRight),
        (KEY_T, SUPER, Command::SetTiled),
        (KEY_TAB, SUPER, Command::FocusNext),
        (KEY_TAB, SUPER | SHIFT, Command::FocusPrevious),
        (KEY_S, SUPER, Command::ToggleFloating),
        (KEY_F, SUPER, Command::ToggleFullscreen),
        (KEY_T, SUPER | SHIFT, Command::TogglePseudoTiled),
        (KEY_R, SUPER | SHIFT, Command::ReloadConfig),
        (KEY_E, SUPER | SHIFT, Command::ExitRiver),
        (KEY_Q, SUPER | SHIFT, Command::CloseFocused),
        (KEY_H, SUPER | SHIFT, Command::MoveLeft),
        (KEY_J, SUPER | SHIFT, Command::MoveDown),
        (KEY_K, SUPER | SHIFT, Command::MoveUp),
        (KEY_L, SUPER | SHIFT, Command::MoveRight),
        (KEY_H, SUPER | ALT, Command::ResizeExpand { direction: FocusDirection::Left }),
        (KEY_J, SUPER | ALT, Command::ResizeExpand { direction: FocusDirection::Down }),
        (KEY_K, SUPER | ALT, Command::ResizeExpand { direction: FocusDirection::Up }),
        (KEY_L, SUPER | ALT, Command::ResizeExpand { direction: FocusDirection::Right }),
        (KEY_H, SUPER | SHIFT | ALT, Command::ResizeShrink { direction: FocusDirection::Left }),
        (KEY_J, SUPER | SHIFT | ALT, Command::ResizeShrink { direction: FocusDirection::Down }),
        (KEY_K, SUPER | SHIFT | ALT, Command::ResizeShrink { direction: FocusDirection::Up }),
        (KEY_L, SUPER | SHIFT | ALT, Command::ResizeShrink { direction: FocusDirection::Right }),
        (KEY_H, SUPER | CTRL, Command::FocusOutputLeft),
        (KEY_J, SUPER | CTRL, Command::FocusOutputDown),
        (KEY_K, SUPER | CTRL, Command::FocusOutputUp),
        (KEY_L, SUPER | CTRL, Command::FocusOutputRight),
        (KEY_V, SUPER, Command::TogglePendingSplitVertical),
        (KEY_V, SUPER | SHIFT, Command::TogglePendingSplitHorizontal),
        (KEY_ESCAPE, SUPER, Command::CancelPendingSplit),
        (KEY_SPACE, SUPER | SHIFT, Command::CycleKeyboardLayout),
    ]
}

/// Whether `c` is the built-in default configuration.
pub open spec fn spec_is_default_config(c: Config) -> bool {
    &&& c.layout == (LayoutConfig {
        gap: None,
        margin_top: None,
        margin_right: None,
        margin_bottom: None,
        margin_left: None,
        default_float_ratio: None,
        preview_border_color: Some(0xff00ff00u32),
        preview_border_width: Some(2i32),
    })
    &&& c.decorations
    &&& c.border_width is None
    &&& c.border_color_focused == Some(0xffff_ffffu32)
    &&& c.border_color_unfocused == Some(0xffff_ffffu32)
    &&& c.resize_delta_ratio is None
    &&& c.resize_delta_percent is None
    &&& c.keybindings@.len() == spec_default_bindings().len() + 1
    &&& c.keybindings@[0].target == KeyBindingTarget::Primary && c.keybindings@[0].keysym == KEY_RETURN
        && c.keybindings@[0].modifiers == SUPER && (c.keybindings@[0].command matches
        Command::Spawn { program, args } && program@ == "foot"@ && args@.len() == 0)
    &&& forall|i: int| #![trigger c.keybindings@[i]]
        1 <= i < c.keybindings@.len() ==> c.keybindings@[i].target == KeyBindingTarget::Primary
            && (c.keybindings@[i].keysym, c.keybindings@[i].modifiers, c.keybindings@[i].command)
            == spec_default_bindings()[i - 1]
    &&& c.pointer_bindings@ == seq![
        PointerBindingConfig { target: KeyBindingTarget::Primary, button: BTN_LEFT, modifiers: SUPER, op: PointerOp::Move },
        PointerBindingConfig { target: KeyBindingTarget::Primary, button: BTN_RIGHT, modifiers: SUPER, op: PointerOp::Resize },
    ]
    &&& c.rules@.len() == 0
    &&& c.keyboard_layout is None
    &&& c.input_devices@.len() == 0
}

fn binding(keysym: u32, modifiers: u32, command: Command) -> (r: KeyBindingConfig)
    ensures
        r == (KeyBindingConfig { target: KeyBindingTarget::Primary, keysym, modifiers, command }),
{
    KeyBindingConfig { target: KeyBindingTarget::Primary, keysym, modifiers, command }
}

fn default_keybindings() -> (v: Vec<KeyBindingConfig>)
    ensures
        v@.len() == spec_default_bindings().len() + 1,
        v@[0].target == KeyBindingTarget::Primary && v@[0].keysym == KEY_RETURN && v@[0].modifiers
            == SUPER && (v@[0].command matches Command::Spawn { program, args } && program@
            == "foot"@ && args@.len() == 0),
        forall|i: int| #![trigger v@[i]]
            1 <= i < v@.len() ==> v@[i].target == KeyBindingTarget::Primary && (
            v@[i].keysym,
            v@[i].modifiers,
            v@[i].command,
        ) == spec_default_bindings()[i - 1],
{
    let mut v: Vec<KeyBindingConfig> = Vec::new();
    v.push(
        binding(
            KEY_RETURN,
            SUPER,
            Command::Spawn { program: crate::text::to_owned_string("foot"), args: Vec::new() },
        ),
    );
    v.push(binding(KEY_Q, SUPER, Command::CloseFocused));
    v.push(binding(KEY_H, SUPER, Command::FocusLeft));
    v.push(binding(KEY_J, SUPER, Command::FocusDown));
    v.push(binding(KEY_K, SUPER, Command::FocusUp));
    v.push(binding(KEY_L, SUPER, Command::FocusRight));
    v.push(binding(KEY_T, SUPER, Command::SetTiled));
    v.push(binding(KEY_TAB, SUPER, Command::FocusNext));
    v.push(binding(KEY_TAB, SUPER | SHIFT, Command::FocusPrevious));
    v.push(binding(KEY_S, SUPER, Command::ToggleFloating));
    v.push(binding(KEY_F, SUPER, Command::ToggleFullscreen));
    v.push(binding(KEY_T, SUPER | SHIFT, Command::TogglePseudoTiled));
    v.push(binding(KEY_R, SUPER | SHIFT, Command::ReloadConfig));
    v.push(binding(KEY_E, SUPER | SHIFT, Command::ExitRiver));
    v.push(binding(KEY_Q, SUPER | SHIFT, Command::CloseFocused));
    v.push(binding(KEY_H, SUPER | SHIFT, Command::MoveLeft));
    v.push(binding(KEY_J, SUPER | SHIFT, Command::MoveDown));
    v.push(binding(KEY_K, SUPER | SHIFT, Command::MoveUp));
    v.push(binding(KEY_L, SUPER | SHIFT, Command::MoveRight));
    v.push(binding(KEY_H, SUPER | ALT, Command::ResizeExpand { direction: FocusDirection::Left }));
    v.push(binding(KEY_J, SUPER | ALT, Command::ResizeExpand { direction: FocusDirection::Down }));
    v.push(binding(KEY_K, SUPER | ALT, Command::ResizeExpand { direction: FocusDirection::Up }));
    v.push(binding(KEY_L, SUPER | ALT, Command::ResizeExpand { direction: FocusDirection::Right }));
    v.push(binding(KEY_H, SUPER | SHIFT | ALT, Command::ResizeShrink { direction: FocusDirection::Left }));
    v.push(binding(KEY_J, SUPER | SHIFT | ALT, Command::ResizeShrink { direction: FocusDirection::Down }));
    v.push(binding(KEY_K, SUPER | SHIFT | ALT, Command::ResizeShrink { direction: FocusDirection::Up }));
    v.push(binding(KEY_L, SUPER | SHIFT | ALT, Command::ResizeShrink { direction: FocusDirection::Right }));
    v.push(binding(KEY_H, SUPER | CTRL, Command::FocusOutputLeft));
    v.push(binding(KEY_J, SUPER | CTRL, Command::FocusOutputDown));
    v.push(binding(KEY_K, SUPER | CTRL, Command::FocusOutputUp));
    v.push(binding(KEY_L, SUPER | CTRL, Command::FocusOutputRight));
    v.push(binding(KEY_V, SUPER, Command::TogglePendingSplitVertical));
    v.push(binding(KEY_V, SUPER | SHIFT, Command::TogglePendingSplitHorizontal));
    v.push(binding(KEY_ESCAPE, SUPER, Command::CancelPendingSplit));
    v.push(binding(KEY_SPACE, SUPER | SHIFT, Command::CycleKeyboardLayout));
    let ghost t = spec_default_bindings();
    assert forall|i: int| #![trigger v@[i]]
        1 <= i < v@.len() implies v@[i].target == KeyBindingTarget::Primary && (
        v@[i].keysym,
        v@[i].modifiers,
        v@[i].command,
    ) == t[i - 1] by {}
    v
}

/// Return the built-in default configuration.
pub fn defaults() -> (r: Config)
    ensures
        spec_is_default_config(r),
{
    let mut pointer_bindings = Vec::new();
    pointer_bindings.push(
        PointerBindingConfig {
            target: KeyBindingTarget::Primary,
            button: BTN_LEFT,
            modifiers: SUPER,
            op: PointerOp::Move,
        },
    );
    pointer_bindings.push(
        PointerBindingConfig {
            target: KeyBindingTarget::Primary,
            button: BTN_RIGHT,
            modifiers: SUPER,
            op: PointerOp::Resize,
        },
    );
    let r = Config {
        layout: LayoutConfig {
            gap: None,
            margin_top: None,
            margin_right: None,
            margin_bottom: None,
            margin_left: None,
            default_float_ratio: None,
            preview_border_color: Some(0xff00ff00),
            preview_border_width: Some(2),
        },
        decorations: true,
        border_width: None,
        border_color_focused: Some(0xffffffff),
        border_color_unfocused: Some(0xffffffff),
        resize_delta_ratio: None,
        resize_delta_percent: None,
        keybindings: default_keybindings(),
        pointer_bindings,
        rules: Vec::new(),
        keyboard_layout: None,
        input_devices: Vec::new(),
    };
    assert(r.pointer_bindings@ =~= seq![
        PointerBindingConfig { target: KeyBindingTarget::Primary, button: BTN_LEFT, modifiers: SUPER, op: PointerOp::Move },
        PointerBindingConfig { target: KeyBindingTarget::Primary, button: BTN_RIGHT, modifiers: SUPER, op: PointerOp::Resize },
    ]);
    r
}


} // verus!
