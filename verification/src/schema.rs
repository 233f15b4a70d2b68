//! Unified configuration schema: the intermediate representation that both
//! the TOML and the Lua loaders fill, and its validation into [`Config`].
//! Fractional values are IEEE-754 bit patterns, as in [`crate::config`].
use crate::config::{
    AccelProfile, ClickMethod, Config, ConfigError, DragLockState, InputDeviceConfig,
    KeyBindingConfig, KeyboardLayoutConfig, LayoutConfig, PointerBindingConfig, Result,
    ScrollMethod, SendEventsMode, TapButtonMap, spec_empty_layout_config,
    spec_f32_bits_in_unit_range, spec_f64_bits_is_negative, spec_ratio_message,
};
use crate::geometry::Rect;
use crate::keysym::KeysymTable;
use crate::parser::{
    RawMargins, RawPattern, build_keybinding, build_pointer_binding, spec_keybinding_result,
    spec_mode_message, spec_pointer_binding_result, strings_view,
};
use crate::rules::{RulePattern, WindowRule};
use crate::text::{concat_str, to_owned_string};
use vstd::prelude::*;

verus! {

/// Intermediate representation of a keybinding command.
#[derive(Debug, Clone)]
pub enum RawCommand {
    Simple(String),
    Multi(Vec<String>),
}

/// Intermediate representation of an `app_id`/`title` pattern matcher.
#[derive(Debug, Clone)]
pub enum UnresolvedPattern {
    Exact(String),
    WithMatch { value: String, match_type: Option<String> },
}

/// Intermediate representation of layout configuration.
#[derive(Debug, Clone, Copy)]
pub struct RawLayout {
    pub gap: Option<i32>,
    pub margin_top: Option<i32>,
    pub margin_right: Option<i32>,
    pub margin_bottom: Option<i32>,
    pub margin_left: Option<i32>,
    pub margins: Option<RawMargins>,
    pub default_float_ratio: Option<u32>,
    pub preview_border_color: Option<u32>,
    pub preview_border_width: Option<i32>,
}

/// Intermediate representation of a window rule.
#[derive(Debug, Clone)]
pub struct RawRule {
    pub app_id: Option<UnresolvedPattern>,
    pub title: Option<UnresolvedPattern>,
    pub mode: String,
    pub floating_rect: Option<RawRect>,
}

/// Intermediate representation of a rectangle.
#[derive(Debug, Clone, Copy)]
pub struct RawRect {
    pub x: Option<i32>,
    pub y: Option<i32>,
    pub width: Option<i32>,
    pub height: Option<i32>,
}

/// Intermediate representation of a keybinding.
#[derive(Debug, Clone)]
pub struct RawKeyBinding {
    pub target: Option<String>,
    pub keysym: String,
    pub modifiers: RawModifiers,
    pub command: RawCommand,
}

/// Intermediate representation of a pointer binding.
#[derive(Debug, Clone)]
pub struct RawPointerBinding {
    pub target: Option<String>,
    /// Pointer button name (e.g. "BTN_LEFT", "BTN_RIGHT") or raw Linux code.
    pub button: String,
    pub modifiers: RawModifiers,
    /// Operation: "move" or "resize".
    pub op: String,
}

#[derive(Debug, Clone, Copy, PartialEq, Eq, Structural)]
pub enum RawAccelProfile {
    NoProfile,
    Flat,
    Adaptive,
}

#[derive(Debug, Clone, Copy, PartialEq, Eq, Structural)]
pub enum RawTapButtonMap {
    LeftRightMiddle,
    LeftMiddleRight,
}

#[derive(Debug, Clone, Copy, PartialEq, Eq, Structural)]
pub enum RawScrollMethod {
    NoScroll,
    TwoFinger,
    Edge,
    OnButtonDown,
}

#[derive(Debug, Clone, Copy, PartialEq, Eq, Structural)]
pub enum RawDragLockState {
    Disabled,
    EnabledTimeout,
    EnabledSticky,
}

#[derive(Debug, Clone, Copy, PartialEq, Eq, Structural)]
pub enum RawClickMethod {
    NoClick,
    ButtonAreas,
    Clickfinger,
}

#[derive(Debug, Clone, Copy, PartialEq, Eq, Structural)]
pub enum RawSendEventsMode {
    Enabled,
    Disabled,
    DisabledOnExternalMouse,
}

/// Intermediate representation of keyboard layout configuration.
#[derive(Debug, Clone)]
pub struct RawKeyboardLayout {
    pub rules: Option<String>,
    pub model: Option<String>,
    pub layout: String,
    pub variant: Option<String>,
    pub options: Option<String>,
}

/// Intermediate representation of an input device configuration.
/// `accel_speed` and `scroll_factor` are double-precision bit patterns.
#[derive(Debug, Clone)]
pub struct RawInputDevice {
    pub name: String,
    pub accel_profile: Option<RawAccelProfile>,
    pub accel_speed: Option<u64>,
    pub scroll_factor: Option<u64>,
    pub repeat_rate: Option<i32>,
    pub repeat_delay: Option<i32>,
    pub tap: Option<bool>,
    pub tap_button_map: Option<RawTapButtonMap>,
    pub natural_scroll: Option<bool>,
    pub left_handed: Option<bool>,
    pub scroll_method: Option<RawScrollMethod>,
    pub middle_emulation: Option<bool>,
    pub dwt: Option<bool>,
    pub send_events: Option<RawSendEventsMode>,
    pub drag: Option<bool>,
    pub drag_lock: Option<RawDragLockState>,
    pub click_method: Option<RawClickMethod>,
    pub rotation: Option<u32>,
}

/// Keybinding modifiers: either a single string or an array of strings.
#[derive(Debug, Clone)]
pub enum RawModifiers {
    Single(String),
    Multi(Vec<String>),
}

/// Intermediate representation of the top-level configuration.
/// `resize_delta_ratio` is a double-precision and `resize_delta_percent` a
/// single-precision bit pattern.
#[derive(Debug, Clone)]
pub struct RawConfig {
    pub layout: Option<RawLayout>,
    pub decorations: Option<bool>,
    pub border_width: Option<i32>,
    pub border_color_focused: Option<u32>,
    pub border_color_unfocused: Option<u32>,
    pub keybindings: Option<Vec<RawKeyBinding>>,
    pub pointer_bindings: Option<Vec<RawPointerBinding>>,
    pub resize_delta_ratio: Option<u64>,
    pub resize_delta_percent: Option<u32>,
    pub rules: Option<Vec<RawRule>>,
    pub keyboard_layout: Option<RawKeyboardLayout>,
    pub input_devices: Option<Vec<RawInputDevice>>,
}

/// Modifier names a `RawModifiers` lists.
pub open spec fn spec_modifier_tokens(m: RawModifiers) -> Seq<Seq<char>> {
    match m {
        RawModifiers::Single(s) => seq![s@],
        RawModifiers::Multi(v) => strings_view(v@),
    }
}

/// Command tokens a `RawCommand` lists.
pub open spec fn spec_command_tokens(c: RawCommand) -> Seq<Seq<char>> {
    match c {
        RawCommand::Simple(s) => seq![s@],
        RawCommand::Multi(v) => strings_view(v@),
    }
}

/// View of an optional owned string.
pub open spec fn opt_string_view(s: Option<String>) -> Option<Seq<char>> {
    match s {
        Some(v) => Some(v@),
        None => None,
    }
}

pub fn opt_as_str(s: &Option<String>) -> (r: Option<&str>)
    ensures
        crate::rules::opt_str_view(r) == opt_string_view(*s),
{
    match s {
        Some(v) => Some(v.as_str()),
        None => None,
    }
}

fn modifier_list(m: RawModifiers) -> (r: Vec<String>)
    ensures
        strings_view(r@) == spec_modifier_tokens(m),
{
    match m {
        RawModifiers::Single(s) => {
            let mut v = Vec::new();
            v.push(s);
            proof {
                assert(strings_view(v@) =~= seq![s@]);
            }
            v
        },
        RawModifiers::Multi(v) => v,
    }
}

fn command_list(c: RawCommand) -> (r: Vec<String>)
    ensures
        strings_view(r@) == spec_command_tokens(c),
{
    match c {
        RawCommand::Simple(s) => {
            let mut v = Vec::new();
            v.push(s);
            proof {
                assert(strings_view(v@) =~= seq![s@]);
            }
            v
        },
        RawCommand::Multi(v) => v,
    }
}

/// What building a raw keybinding gives.
pub open spec fn spec_raw_keybinding_result(raw: RawKeyBinding, keysyms: KeysymTable, r: Result<KeyBindingConfig>) -> bool {
    spec_keybinding_result(
        opt_string_view(raw.target),
        raw.keysym@,
        spec_modifier_tokens(raw.modifiers),
        spec_command_tokens(raw.command),
        keysyms,
        r,
    )
}

/// Build a keybinding from its raw form.
pub fn build_raw_keybinding(raw: RawKeyBinding, keysyms: &KeysymTable) -> (r: Result<KeyBindingConfig>)
    ensures
        spec_raw_keybinding_result(raw, *keysyms, r),
{
    let RawKeyBinding { target, keysym, modifiers, command } = raw;
    let command_tokens = command_list(command);
    let modifiers = modifier_list(modifiers);
    build_keybinding(
        opt_as_str(&target),
        keysym.as_str(),
        modifiers.as_slice(),
        command_tokens.as_slice(),
        keysyms,
    )
}

/// What building a raw pointer binding gives.
pub open spec fn spec_raw_pointer_binding_result(
    raw: RawPointerBinding,
    r: Result<PointerBindingConfig>,
) -> bool {
    spec_pointer_binding_result(
        opt_string_view(raw.target),
        raw.button@,
        spec_modifier_tokens(raw.modifiers),
        raw.op@,
        r,
    )
}

/// Build a pointer binding from its raw form.
pub fn build_raw_pointer_binding(raw: RawPointerBinding) -> (r: Result<PointerBindingConfig>)
    ensures
        spec_raw_pointer_binding_result(raw, r),
{
    let RawPointerBinding { target, button, modifiers, op } = raw;
    let modifiers = modifier_list(modifiers);
    build_pointer_binding(opt_as_str(&target), button.as_str(), modifiers.as_slice(), op.as_str())
}

/// What resolving an unresolved pattern gives: a bare string is exact; a
/// table selects its mode, `exact` by default; errors name the field
/// `pattern`.
pub open spec fn spec_unresolved_result(raw: UnresolvedPattern, r: Result<RawPattern>) -> bool {
    match raw {
        UnresolvedPattern::Exact(s) => r matches Ok(RawPattern::Exact(v)) && v@ == s@,
        UnresolvedPattern::WithMatch { value, match_type } => {
            let md = match match_type {
                Some(m) => m@,
                None => "exact"@,
            };
            if md == "exact"@ {
                r matches Ok(RawPattern::Exact(v)) && v@ == value@
            } else if md == "prefix"@ {
                r matches Ok(RawPattern::Prefix(v)) && v@ == value@
            } else if md == "regex"@ {
                r matches Ok(RawPattern::Regex(v)) && v@ == value@
            } else {
                r matches Err(ConfigError::InvalidConfig(m)) && m@ == spec_mode_message(
                    "pattern"@,
                    md,
                )
            }
        },
    }
}

/// Resolve an `app_id`/`title` matcher into a `RawPattern`.
pub fn build_raw_pattern(raw: UnresolvedPattern) -> (r: Result<RawPattern>)
    ensures
        spec_unresolved_result(raw, r),
{
    match raw {
        UnresolvedPattern::Exact(s) => Ok(RawPattern::Exact(s)),
        UnresolvedPattern::WithMatch { value, match_type } => {
            crate::parser::build_pattern_field("pattern", value, match_type)
        },
    }
}

/// The rect a raw rect describes; absent components are 0.
pub open spec fn spec_raw_rect(r: RawRect) -> Rect {
    Rect {
        x: match r.x {
            Some(v) => v,
            None => 0,
        },
        y: match r.y {
            Some(v) => v,
            None => 0,
        },
        width: match r.width {
            Some(v) => v,
            None => 0,
        },
        height: match r.height {
            Some(v) => v,
            None => 0,
        },
    }
}

fn or_zero(v: Option<i32>) -> (r: i32)
    ensures
        r == (match v {
            Some(x) => x,
            None => 0,
        }),
{
    match v {
        Some(x) => x,
        None => 0,
    }
}

/// The match mode a matcher selects (`exact` for a bare string or an
/// absent `match`).
pub open spec fn spec_unresolved_mode(p: UnresolvedPattern) -> Seq<char> {
    match p {
        UnresolvedPattern::Exact(_) => "exact"@,
        UnresolvedPattern::WithMatch { value, match_type } => match match_type {
            Some(m) => m@,
            None => "exact"@,
        },
    }
}

/// The text a matcher carries.
pub open spec fn spec_unresolved_value(p: UnresolvedPattern) -> Seq<char> {
    match p {
        UnresolvedPattern::Exact(s) => s@,
        UnresolvedPattern::WithMatch { value, match_type } => value@,
    }
}

/// Whether a match mode is one of `exact`, `prefix`, `regex`.
pub open spec fn spec_mode_known(md: Seq<char>) -> bool {
    md == "exact"@ || md == "prefix"@ || md == "regex"@
}

/// The error resolving an optional matcher gives, if any.
pub open spec fn spec_matcher_error(p: Option<UnresolvedPattern>) -> Option<Seq<char>> {
    match p {
        Some(u) => if spec_mode_known(spec_unresolved_mode(u)) {
            None
        } else {
            Some(spec_mode_message("pattern"@, spec_unresolved_mode(u)))
        },
        None => None,
    }
}

/// Whether an optional matcher is a regex that does not compile.
pub open spec fn spec_matcher_regex_fails(p: Option<UnresolvedPattern>) -> bool {
    p matches Some(u) && spec_unresolved_mode(u) == "regex"@ && !crate::rules::rule_regex_compiles(
        spec_unresolved_value(u),
    )
}

/// Whether the rule pattern `rp` is what the matcher `u` compiles to.
pub open spec fn spec_pattern_from(u: UnresolvedPattern, rp: RulePattern) -> bool {
    let md = spec_unresolved_mode(u);
    let v = spec_unresolved_value(u);
    if md == "exact"@ {
        rp matches RulePattern::Exact(x) && x@ == v
    } else if md == "prefix"@ {
        rp matches RulePattern::Prefix(x) && x@ == v
    } else {
        rp matches RulePattern::Regex(c) && c.source_text() == v
    }
}

pub open spec fn spec_opt_pattern_from(u: Option<UnresolvedPattern>, rp: Option<RulePattern>) -> bool {
    match u {
        None => rp is None,
        Some(x) => rp matches Some(y) && spec_pattern_from(x, y),
    }
}

/// What building a raw rule gives, with errors in checking order: matcher
/// modes (`app_id`, then `title`), no matcher at all, an unknown rule mode,
/// regexes that do not compile (`app_id`, then `title`).
pub open spec fn spec_raw_rule_result(raw: RawRule, r: Result<WindowRule>) -> bool {
    if spec_matcher_error(raw.app_id) is Some {
        r matches Err(ConfigError::InvalidConfig(m)) && m@ == spec_matcher_error(raw.app_id)->0
    } else if spec_matcher_error(raw.title) is Some {
        r matches Err(ConfigError::InvalidConfig(m)) && m@ == spec_matcher_error(raw.title)->0
    } else if raw.app_id is None && raw.title is None {
        r matches Err(ConfigError::InvalidConfig(m)) && m@
            == "Rule must match at least one of app_id or title"@
    } else if crate::parser::spec_parse_mode(raw.mode@) is None {
        r matches Err(ConfigError::InvalidConfig(m)) && m@ == "Invalid rule mode"@
    } else if spec_matcher_regex_fails(raw.app_id) {
        r matches Err(ConfigError::InvalidConfig(m)) && m@ == crate::parser::spec_regex_message(
            "app_id"@,
            spec_unresolved_value(raw.app_id->0),
        )
    } else if spec_matcher_regex_fails(raw.title) {
        r matches Err(ConfigError::InvalidConfig(m)) && m@ == crate::parser::spec_regex_message(
            "title"@,
            spec_unresolved_value(raw.title->0),
        )
    } else {
        r matches Ok(rule) && Some(rule.target) == crate::parser::spec_parse_mode(raw.mode@)
            && rule.floating_rect == (match raw.floating_rect {
            Some(fr) => Some(spec_raw_rect(fr)),
            None => None::<Rect>,
        }) && spec_opt_pattern_from(raw.app_id, rule.app_id) && spec_opt_pattern_from(
            raw.title,
            rule.title,
        )
    }
}

fn build_opt_raw_pattern(raw: Option<UnresolvedPattern>) -> (r: Result<Option<RawPattern>>)
    ensures
        match raw {
            None => r matches Ok(None),
            Some(p) => match r {
                Ok(Some(v)) => spec_unresolved_result(p, Ok(v)),
                Ok(None) => false,
                Err(e) => spec_unresolved_result(p, Err(e)),
            },
        },
{
    match raw {
        None => Ok(None),
        Some(p) => match build_raw_pattern(p) {
            Ok(v) => Ok(Some(v)),
            Err(e) => Err(e),
        },
    }
}

/// Build a window rule from its raw form (see [`spec_raw_rule_result`]).
pub fn build_raw_rule(raw: RawRule) -> (r: Result<WindowRule>)
    ensures
        spec_raw_rule_result(raw, r),
{
    proof {
        reveal_strlit("exact");
        reveal_strlit("prefix");
        reveal_strlit("regex");
        assert("prefix"@.len() != "exact"@.len());
        assert("regex"@[0] != "exact"@[0]);
        assert("regex"@.len() != "prefix"@.len());
    }
    let ghost raw0 = raw;
    let RawRule { app_id, title, mode, floating_rect } = raw;
    let app_id = build_opt_raw_pattern(app_id)?;
    let title = build_opt_raw_pattern(title)?;
    let floating_rect = match floating_rect {
        Some(fr) => Some(
            Rect::new(or_zero(fr.x), or_zero(fr.y), or_zero(fr.width), or_zero(fr.height)),
        ),
        None => None,
    };
    crate::parser::build_rule(app_id, title, mode.as_str(), floating_rect)
}

/// `v` clamped into `[0, 100]`.
pub open spec fn spec_clamp_border_width(v: i32) -> i32 {
    if v < 0 {
        0
    } else if v > 100 {
        100
    } else {
        v
    }
}

/// The layout a raw layout describes: nested `margins` entries override the
/// flat `margin_*` fields, and the preview border width is clamped into
/// `[0, 100]`.
pub open spec fn spec_layout_of(raw: RawLayout) -> LayoutConfig {
    let nested = match raw.margins {
        Some(m) => m,
        None => RawMargins { top: None, right: None, bottom: None, left: None },
    };
    LayoutConfig {
        gap: raw.gap,
        margin_top: if nested.top is Some { nested.top } else { raw.margin_top },
        margin_right: if nested.right is Some { nested.right } else { raw.margin_right },
        margin_bottom: if nested.bottom is Some { nested.bottom } else { raw.margin_bottom },
        margin_left: if nested.left is Some { nested.left } else { raw.margin_left },
        default_float_ratio: raw.default_float_ratio,
        preview_border_color: raw.preview_border_color,
        preview_border_width: match raw.preview_border_width {
            Some(w) => Some(spec_clamp_border_width(w)),
            None => None,
        },
    }
}

/// Whether a raw layout's ratio is valid.
pub open spec fn spec_layout_ok(raw: RawLayout) -> bool {
    match raw.default_float_ratio {
        Some(v) => spec_f32_bits_in_unit_range(v),
        None => true,
    }
}

fn or_else(a: Option<i32>, b: Option<i32>) -> (r: Option<i32>)
    ensures
        r == (if a is Some { a } else { b }),
{
    match a {
        Some(v) => Some(v),
        None => b,
    }
}

/// Build a `LayoutConfig` from its raw form, rejecting a
/// `default_float_ratio` outside `[0.0, 1.0]`.
pub fn build_raw_layout(raw: RawLayout) -> (r: Result<LayoutConfig>)
    ensures
        spec_layout_ok(raw) ==> r == Ok::<LayoutConfig, ConfigError>(spec_layout_of(raw)),
        !spec_layout_ok(raw) ==> (r matches Err(ConfigError::InvalidConfig(m)) && m@
            == spec_ratio_message("default_float_ratio"@)),
{
    let default_float_ratio = crate::config::validate_ratio(
        "default_float_ratio",
        raw.default_float_ratio,
    )?;
    let nested = match raw.margins {
        Some(m) => m,
        None => RawMargins { top: None, right: None, bottom: None, left: None },
    };
    let preview_border_width = match raw.preview_border_width {
        Some(w) => Some(
            if w < 0 {
                0
            } else if w > 100 {
                100
            } else {
                w
            },
        ),
        None => None,
    };
    Ok(
        crate::parser::build_layout(
            raw.gap,
            RawMargins {
                top: or_else(nested.top, raw.margin_top),
                right: or_else(nested.right, raw.margin_right),
                bottom: or_else(nested.bottom, raw.margin_bottom),
                left: or_else(nested.left, raw.margin_left),
            },
            default_float_ratio,
            raw.preview_border_color,
            preview_border_width,
        ),
    )
}

pub open spec fn spec_accel_profile(raw: RawAccelProfile) -> AccelProfile {
    match raw {
        RawAccelProfile::NoProfile => AccelProfile::NoProfile,
        RawAccelProfile::Flat => AccelProfile::Flat,
        RawAccelProfile::Adaptive => AccelProfile::Adaptive,
    }
}

impl From<RawAccelProfile> for AccelProfile {
    fn from(raw: RawAccelProfile) -> (r: Self)
        ensures
            r == spec_accel_profile(raw),
    {
        match raw {
            RawAccelProfile::NoProfile => AccelProfile::NoProfile,
            RawAccelProfile::Flat => AccelProfile::Flat,
            RawAccelProfile::Adaptive => AccelProfile::Adaptive,
        }
    }
}

impl vstd::std_specs::convert::FromSpecImpl<RawAccelProfile> for AccelProfile {
    open spec fn obeys_from_spec() -> bool {
        true
    }

    open spec fn from_spec(v: RawAccelProfile) -> Self {
        spec_accel_profile(v)
    }
}

pub open spec fn spec_tap_button_map(raw: RawTapButtonMap) -> TapButtonMap {
    match raw {
        RawTapButtonMap::LeftRightMiddle => TapButtonMap::Lrm,
        RawTapButtonMap::LeftMiddleRight => TapButtonMap::Lmr,
    }
}

impl From<RawTapButtonMap> for TapButtonMap {
    fn from(raw: RawTapButtonMap) -> (r: Self)
        ensures
            r == spec_tap_button_map(raw),
    {
        match raw {
            RawTapButtonMap::LeftRightMiddle => TapButtonMap::Lrm,
            RawTapButtonMap::LeftMiddleRight => TapButtonMap::Lmr,
        }
    }
}

impl vstd::std_specs::convert::FromSpecImpl<RawTapButtonMap> for TapButtonMap {
    open spec fn obeys_from_spec() -> bool {
        true
    }

    open spec fn from_spec(v: RawTapButtonMap) -> Self {
        spec_tap_button_map(v)
    }
}

pub open spec fn spec_scroll_method(raw: RawScrollMethod) -> ScrollMethod {
    match raw {
        RawScrollMethod::NoScroll => ScrollMethod::NoScroll,
        RawScrollMethod::TwoFinger => ScrollMethod::TwoFinger,
        RawScrollMethod::Edge => ScrollMethod::Edge,
        RawScrollMethod::OnButtonDown => ScrollMethod::OnButtonDown,
    }
}

impl From<RawScrollMethod> for ScrollMethod {
    fn from(raw: RawScrollMethod) -> (r: Self)
        ensures
            r == spec_scroll_method(raw),
    {
        match raw {
            RawScrollMethod::NoScroll => ScrollMethod::NoScroll,
            RawScrollMethod::TwoFinger => ScrollMethod::TwoFinger,
            RawScrollMethod::Edge => ScrollMethod::Edge,
            RawScrollMethod::OnButtonDown => ScrollMethod::OnButtonDown,
        }
    }
}

impl vstd::std_specs::convert::FromSpecImpl<RawScrollMethod> for ScrollMethod {
    open spec fn obeys_from_spec() -> bool {
        true
    }

    open spec fn from_spec(v: RawScrollMethod) -> Self {
        spec_scroll_method(v)
    }
}

pub open spec fn spec_drag_lock_state(raw: RawDragLockState) -> DragLockState {
    match raw {
        RawDragLockState::Disabled => DragLockState::Disabled,
        RawDragLockState::EnabledTimeout => DragLockState::EnabledTimeout,
        RawDragLockState::EnabledSticky => DragLockState::EnabledSticky,
    }
}

impl From<RawDragLockState> for DragLockState {
    fn from(raw: RawDragLockState) -> (r: Self)
        ensures
            r == spec_drag_lock_state(raw),
    {
        match raw {
            RawDragLockState::Disabled => DragLockState::Disabled,
            RawDragLockState::EnabledTimeout => DragLockState::EnabledTimeout,
            RawDragLockState::EnabledSticky => DragLockState::EnabledSticky,
        }
    }
}

impl vstd::std_specs::convert::FromSpecImpl<RawDragLockState> for DragLockState {
    open spec fn obeys_from_spec() -> bool {
        true
    }

    open spec fn from_spec(v: RawDragLockState) -> Self {
        spec_drag_lock_state(v)
    }
}

pub open spec fn spec_click_method(raw: RawClickMethod) -> ClickMethod {
    match raw {
        RawClickMethod::NoClick => ClickMethod::NoClick,
        RawClickMethod::ButtonAreas => ClickMethod::ButtonAreas,
        RawClickMethod::Clickfinger => ClickMethod::Clickfinger,
    }
}

impl From<RawClickMethod> for ClickMethod {
    fn from(raw: RawClickMethod) -> (r: Self)
        ensures
            r == spec_click_method(raw),
    {
        match raw {
            RawClickMethod::NoClick => ClickMethod::NoClick,
            RawClickMethod::ButtonAreas => ClickMethod::ButtonAreas,
            RawClickMethod::Clickfinger => ClickMethod::Clickfinger,
        }
    }
}

impl vstd::std_specs::convert::FromSpecImpl<RawClickMethod> for ClickMethod {
    open spec fn obeys_from_spec() -> bool {
        true
    }

    open spec fn from_spec(v: RawClickMethod) -> Self {
        spec_click_method(v)
    }
}

pub open spec fn spec_send_events_mode(raw: RawSendEventsMode) -> SendEventsMode {
    match raw {
        RawSendEventsMode::Enabled => SendEventsMode::Enabled,
        RawSendEventsMode::Disabled => SendEventsMode::Disabled,
        RawSendEventsMode::DisabledOnExternalMouse => SendEventsMode::DisabledOnExternalMouse,
    }
}

impl From<RawSendEventsMode> for SendEventsMode {
    fn from(raw: RawSendEventsMode) -> (r: Self)
        ensures
            r == spec_send_events_mode(raw),
    {
        match raw {
            RawSendEventsMode::Enabled => SendEventsMode::Enabled,
            RawSendEventsMode::Disabled => SendEventsMode::Disabled,
            RawSendEventsMode::DisabledOnExternalMouse => SendEventsMode::DisabledOnExternalMouse,
        }
    }
}

impl vstd::std_specs::convert::FromSpecImpl<RawSendEventsMode> for SendEventsMode {
    open spec fn obeys_from_spec() -> bool {
        true
    }

    open spec fn from_spec(v: RawSendEventsMode) -> Self {
        spec_send_events_mode(v)
    }
}

/// Which validation, if any, a raw input device fails, in checking order:
/// 1 scroll factor below zero, 2 negative repeat rate, 3 negative repeat
/// delay, 4 rotation of 360 or more.
pub open spec fn spec_device_problem(raw: RawInputDevice) -> Option<Seq<char>> {
    if raw.scroll_factor matches Some(f) && spec_f64_bits_is_negative(f) {
        Some(".scroll_factor must be >= 0"@)
    } else if raw.repeat_rate matches Some(v) && v < 0 {
        Some(".repeat_rate must be >= 0"@)
    } else if raw.repeat_delay matches Some(v) && v < 0 {
        Some(".repeat_delay must be >= 0"@)
    } else if raw.rotation matches Some(v) && v >= 360 {
        Some(".rotation must be in range [0, 360)"@)
    } else {
        None
    }
}

fn device_error(name: &str, suffix: &str) -> (r: ConfigError)
    ensures
        r matches ConfigError::InvalidConfig(m) && m@ == "input_devices["@ + name@ + "]"@
            + suffix@,
{
    let mut m = concat_str("input_devices[", name);
    m.append("]");
    m.append(suffix);
    ConfigError::InvalidConfig(m)
}

fn map_opt_accel(v: Option<RawAccelProfile>) -> (r: Option<AccelProfile>)
    ensures
        r == (match v {
            Some(x) => Some(spec_accel_profile(x)),
            None => None,
        }),
{
    match v {
        Some(x) => Some(AccelProfile::from(x)),
        None => None,
    }
}

/// Validate a raw input device and convert it (see [`spec_device_problem`]).
/// What validating a raw input device gives.
pub open spec fn spec_raw_device_result(raw: RawInputDevice, r: Result<InputDeviceConfig>) -> bool {
    &&& spec_device_problem(raw) matches Some(suffix) ==> (r matches Err(
            ConfigError::InvalidConfig(m),
        ) && m@ == "input_devices["@ + raw.name@ + "]"@ + suffix)
    &&& spec_device_problem(raw) is None ==> (r matches Ok(d) && d.name@ == raw.name@
            && d.accel_profile == (match raw.accel_profile {
            Some(x) => Some(spec_accel_profile(x)),
            None => None,
        }) && d.accel_speed == raw.accel_speed && d.scroll_factor == raw.scroll_factor
            && d.repeat_rate == raw.repeat_rate && d.repeat_delay == raw.repeat_delay && d.tap
            == raw.tap && d.tap_button_map == (match raw.tap_button_map {
            Some(x) => Some(spec_tap_button_map(x)),
            None => None,
        }) && d.natural_scroll == raw.natural_scroll && d.left_handed == raw.left_handed
            && d.scroll_method == (match raw.scroll_method {
            Some(x) => Some(spec_scroll_method(x)),
            None => None,
        }) && d.middle_emulation == raw.middle_emulation && d.dwt == raw.dwt && d.send_events == (
        match raw.send_events {
            Some(x) => Some(spec_send_events_mode(x)),
            None => None,
        }) && d.drag == raw.drag && d.drag_lock == (match raw.drag_lock {
            Some(x) => Some(spec_drag_lock_state(x)),
            None => None,
        }) && d.click_method == (match raw.click_method {
            Some(x) => Some(spec_click_method(x)),
            None => None,
        }) && d.rotation == raw.rotation)
}

pub fn build_raw_input_device(raw: RawInputDevice) -> (r: Result<InputDeviceConfig>)
    ensures
        spec_raw_device_result(raw, r),
{
    if let Some(factor) = raw.scroll_factor {
        if factor > 0x8000_0000_0000_0000u64 && factor <= 0xfff0_0000_0000_0000u64 {
            return Err(device_error(raw.name.as_str(), ".scroll_factor must be >= 0"));
        }
    }
    if let Some(rate) = raw.repeat_rate {
        if rate < 0 {
            return Err(device_error(raw.name.as_str(), ".repeat_rate must be >= 0"));
        }
    }
    if let Some(delay) = raw.repeat_delay {
        if delay < 0 {
            return Err(device_error(raw.name.as_str(), ".repeat_delay must be >= 0"));
        }
    }
    if let Some(rotation) = raw.rotation {
        if rotation >= 360 {
            return Err(device_error(raw.name.as_str(), ".rotation must be in range [0, 360)"));
        }
    }
    let tap_button_map = match raw.tap_button_map {
        Some(x) => Some(TapButtonMap::from(x)),
        None => None,
    };
    let scroll_method = match raw.scroll_method {
        Some(x) => Some(ScrollMethod::from(x)),
        None => None,
    };
    let send_events = match raw.send_events {
        Some(x) => Some(SendEventsMode::from(x)),
        None => None,
    };
    let drag_lock = match raw.drag_lock {
        Some(x) => Some(DragLockState::from(x)),
        None => None,
    };
    let click_method = match raw.click_method {
        Some(x) => Some(ClickMethod::from(x)),
        None => None,
    };
    Ok(
        InputDeviceConfig {
            name: raw.name,
            accel_profile: map_opt_accel(raw.accel_profile),
            accel_speed: raw.accel_speed,
            scroll_factor: raw.scroll_factor,
            repeat_rate: raw.repeat_rate,
            repeat_delay: raw.repeat_delay,
            tap: raw.tap,
            tap_button_map,
            natural_scroll: raw.natural_scroll,
            left_handed: raw.left_handed,
            scroll_method,
            middle_emulation: raw.middle_emulation,
            dwt: raw.dwt,
            send_events,
            drag: raw.drag,
            drag_lock,
            click_method,
            rotation: raw.rotation,
        },
    )
}


/// Whether building `raw` succeeds under the element relation `rel`.
pub open spec fn spec_elem_ok<R, T>(rel: spec_fn(R, Result<T>) -> bool, raw: R) -> bool {
    exists|t: T| #[trigger] rel(raw, Ok(t))
}

/// What building every element of `raws` in order gives: all results when
/// every element builds, otherwise the error of the first element that
/// fails.
pub open spec fn spec_list_result<R, T>(
    raws: Seq<R>,
    r: Result<Vec<T>>,
    rel: spec_fn(R, Result<T>) -> bool,
) -> bool {
    match r {
        Ok(v) => v@.len() == raws.len() && forall|i: int|
            0 <= i < raws.len() ==> #[trigger] rel(raws[i], Ok(v@[i])),
        Err(e) => exists|k: int|
            0 <= k < raws.len() && (forall|i: int| 0 <= i < k ==> spec_elem_ok(rel, #[trigger] raws[i]))
                && #[trigger] rel(raws[k], Err(e)),
    }
}

pub open spec fn keybinding_rel(keysyms: KeysymTable) -> spec_fn(RawKeyBinding, Result<KeyBindingConfig>) -> bool {
    |raw: RawKeyBinding, r: Result<KeyBindingConfig>| spec_raw_keybinding_result(raw, keysyms, r)
}

pub open spec fn pointer_binding_rel() -> spec_fn(RawPointerBinding, Result<PointerBindingConfig>) -> bool {
    |raw: RawPointerBinding, r: Result<PointerBindingConfig>| spec_raw_pointer_binding_result(raw, r)
}

pub open spec fn rule_rel() -> spec_fn(RawRule, Result<WindowRule>) -> bool {
    |raw: RawRule, r: Result<WindowRule>| spec_raw_rule_result(raw, r)
}

pub open spec fn device_rel() -> spec_fn(RawInputDevice, Result<InputDeviceConfig>) -> bool {
    |raw: RawInputDevice, r: Result<InputDeviceConfig>| spec_raw_device_result(raw, r)
}


/// Build every raw keybinding in order, stopping at the first error.
pub fn build_keybindings(raws: Vec<RawKeyBinding>, keysyms: &KeysymTable) -> (r: Result<Vec<KeyBindingConfig>>)
    ensures
        spec_list_result(raws@, r, keybinding_rel(*keysyms)),
{
    let ghost rs = raws@;
    let mut out: Vec<KeyBindingConfig> = Vec::new();
    for raw in it: raws.into_iter()
        invariant
            it.seq() == rs,
            out@.len() == it.index(),
            forall|i: int| 0 <= i < it.index() ==> #[trigger] keybinding_rel(*keysyms)(rs[i], Ok(out@[i])),
    {
        let ghost k = it.index();
        let ghost raw0 = raw;
        let built = build_raw_keybinding(raw, keysyms);
        match built {
            Ok(b) => {
                out.push(b);
            },
            Err(e) => {
                proof {
                    assert(keybinding_rel(*keysyms)(rs[k as int], Err(e)));
                    assert forall|i: int| 0 <= i < k implies spec_elem_ok(keybinding_rel(*keysyms), #[trigger] rs[i]) by {
                        assert(keybinding_rel(*keysyms)(rs[i], Ok(out@[i])));
                    }
                }
                return Err(e);
            },
        }
    }
    Ok(out)
}

/// Build every raw pointer binding in order, stopping at the first error.
pub fn build_pointer_bindings(raws: Vec<RawPointerBinding>) -> (r: Result<Vec<PointerBindingConfig>>)
    ensures
        spec_list_result(raws@, r, pointer_binding_rel()),
{
    let ghost rs = raws@;
    let mut out: Vec<PointerBindingConfig> = Vec::new();
    for raw in it: raws.into_iter()
        invariant
            it.seq() == rs,
            out@.len() == it.index(),
            forall|i: int| 0 <= i < it.index() ==> #[trigger] pointer_binding_rel()(rs[i], Ok(out@[i])),
    {
        let ghost k = it.index();
        let ghost raw0 = raw;
        let built = build_raw_pointer_binding(raw);
        match built {
            Ok(b) => {
                out.push(b);
            },
            Err(e) => {
                proof {
                    assert(pointer_binding_rel()(rs[k as int], Err(e)));
                    assert forall|i: int| 0 <= i < k implies spec_elem_ok(pointer_binding_rel(), #[trigger] rs[i]) by {
                        assert(pointer_binding_rel()(rs[i], Ok(out@[i])));
                    }
                }
                return Err(e);
            },
        }
    }
    Ok(out)
}

/// Build every raw rule in order, stopping at the first error.
pub fn build_rules(raws: Vec<RawRule>) -> (r: Result<Vec<WindowRule>>)
    ensures
        spec_list_result(raws@, r, rule_rel()),
{
    let ghost rs = raws@;
    let mut out: Vec<WindowRule> = Vec::new();
    for raw in it: raws.into_iter()
        invariant
            it.seq() == rs,
            out@.len() == it.index(),
            forall|i: int| 0 <= i < it.index() ==> #[trigger] rule_rel()(rs[i], Ok(out@[i])),
    {
        let ghost k = it.index();
        let ghost raw0 = raw;
        let built = build_raw_rule(raw);
        match built {
            Ok(b) => {
                out.push(b);
            },
            Err(e) => {
                proof {
                    assert(rule_rel()(rs[k as int], Err(e)));
                    assert forall|i: int| 0 <= i < k implies spec_elem_ok(rule_rel(), #[trigger] rs[i]) by {
                        assert(rule_rel()(rs[i], Ok(out@[i])));
                    }
                }
                return Err(e);
            },
        }
    }
    Ok(out)
}

/// Build every raw input device in order, stopping at the first error.
pub fn build_input_devices(raws: Vec<RawInputDevice>) -> (r: Result<Vec<InputDeviceConfig>>)
    ensures
        spec_list_result(raws@, r, device_rel()),
{
    let ghost rs = raws@;
    let mut out: Vec<InputDeviceConfig> = Vec::new();
    for raw in it: raws.into_iter()
        invariant
            it.seq() == rs,
            out@.len() == it.index(),
            forall|i: int| 0 <= i < it.index() ==> #[trigger] device_rel()(rs[i], Ok(out@[i])),
    {
        let ghost k = it.index();
        let ghost raw0 = raw;
        let built = build_raw_input_device(raw);
        match built {
            Ok(b) => {
                out.push(b);
            },
            Err(e) => {
                proof {
                    assert(device_rel()(rs[k as int], Err(e)));
                    assert forall|i: int| 0 <= i < k implies spec_elem_ok(device_rel(), #[trigger] rs[i]) by {
                        assert(device_rel()(rs[i], Ok(out@[i])));
                    }
                }
                return Err(e);
            },
        }
    }
    Ok(out)
}

/// The elements of an optional list (none when absent).
pub open spec fn opt_seq<T>(v: Option<Vec<T>>) -> Seq<T> {
    match v {
        Some(x) => x@,
        None => Seq::<T>::empty(),
    }
}

/// Whether every element of `raws` builds.
pub open spec fn spec_all_ok<R, T>(raws: Seq<R>, rel: spec_fn(R, Result<T>) -> bool) -> bool {
    forall|i: int| 0 <= i < raws.len() ==> spec_elem_ok(rel, #[trigger] raws[i])
}

/// Whether `k` is the keyboard layout `raw` describes.
pub open spec fn spec_keyboard_layout_of(raw: RawKeyboardLayout, k: KeyboardLayoutConfig) -> bool {
    opt_string_view(k.rules) == opt_string_view(raw.rules) && opt_string_view(k.model)
        == opt_string_view(raw.model) && k.layout@ == raw.layout@ && opt_string_view(k.variant)
        == opt_string_view(raw.variant) && opt_string_view(k.options) == opt_string_view(
        raw.options,
    )
}

/// What converting a raw configuration gives. Errors come in checking
/// order: the layout ratio, then the first keybinding, rule, input device
/// and pointer binding that fails.
pub open spec fn spec_config_result(raw: RawConfig, keysyms: KeysymTable, r: Result<Config>) -> bool {
    let layout_ok = match raw.layout {
        Some(l) => spec_layout_ok(l),
        None => true,
    };
    let kb = opt_seq(raw.keybindings);
    let rules = opt_seq(raw.rules);
    let devices = opt_seq(raw.input_devices);
    let pbs = opt_seq(raw.pointer_bindings);
    if !layout_ok {
        r matches Err(ConfigError::InvalidConfig(m)) && m@ == spec_ratio_message(
            "default_float_ratio"@,
        )
    } else if !spec_all_ok(kb, keybinding_rel(keysyms)) {
        r matches Err(e) && spec_list_result(kb, Err(e), keybinding_rel(keysyms))
    } else if !spec_all_ok(rules, rule_rel()) {
        r matches Err(e) && spec_list_result(rules, Err(e), rule_rel())
    } else if !spec_all_ok(devices, device_rel()) {
        r matches Err(e) && spec_list_result(devices, Err(e), device_rel())
    } else if !spec_all_ok(pbs, pointer_binding_rel()) {
        r matches Err(e) && spec_list_result(pbs, Err(e), pointer_binding_rel())
    } else {
        r matches Ok(c) && c.layout == (match raw.layout {
            Some(l) => spec_layout_of(l),
            None => spec_empty_layout_config(),
        }) && c.decorations == (match raw.decorations {
            Some(d) => d,
            None => true,
        }) && c.border_width == raw.border_width && c.border_color_focused
            == raw.border_color_focused && c.border_color_unfocused == raw.border_color_unfocused
            && c.resize_delta_ratio == raw.resize_delta_ratio && c.resize_delta_percent
            == raw.resize_delta_percent && spec_list_result(kb, Ok(c.keybindings), keybinding_rel(keysyms))
            && spec_list_result(rules, Ok(c.rules), rule_rel()) && spec_list_result(
            devices,
            Ok(c.input_devices),
            device_rel(),
        ) && spec_list_result(pbs, Ok(c.pointer_bindings), pointer_binding_rel()) && (
        c.keyboard_layout is Some == raw.keyboard_layout is Some) && (c.keyboard_layout is Some
            ==> spec_keyboard_layout_of(raw.keyboard_layout->0, c.keyboard_layout->0))
    }
}


/// An element relation never relates one input to both a value and an error.
pub open spec fn spec_rel_exclusive<R, T>(rel: spec_fn(R, Result<T>) -> bool) -> bool {
    forall|x: R, e: ConfigError, t: T| #[trigger] rel(x, Err(e)) && #[trigger] rel(x, Ok(t)) ==> false
}

proof fn lemma_list_err_not_all_ok<R, T>(raws: Seq<R>, e: ConfigError, rel: spec_fn(R, Result<T>) -> bool)
    requires
        spec_list_result(raws, Err(e), rel),
        spec_rel_exclusive(rel),
    ensures
        !spec_all_ok(raws, rel),
{
    let k = choose|k: int|
        0 <= k < raws.len() && (forall|i: int| 0 <= i < k ==> spec_elem_ok(rel, #[trigger] raws[i]))
            && #[trigger] rel(raws[k], Err(e));
    if spec_elem_ok(rel, raws[k]) {
        let t = choose|t: T| #[trigger] rel(raws[k], Ok(t));
        assert(rel(raws[k], Err(e)) && rel(raws[k], Ok(t)));
    }
}

proof fn lemma_rels_exclusive(keysyms: KeysymTable)
    ensures
        spec_rel_exclusive(keybinding_rel(keysyms)),
        spec_rel_exclusive(rule_rel()),
        spec_rel_exclusive(device_rel()),
        spec_rel_exclusive(pointer_binding_rel()),
{
}

proof fn lemma_list_ok<R, T>(raws: Seq<R>, v: Vec<T>, rel: spec_fn(R, Result<T>) -> bool)
    requires
        spec_list_result(raws, Ok(v), rel),
    ensures
        spec_all_ok(raws, rel),
{
    assert forall|i: int| 0 <= i < raws.len() implies spec_elem_ok(rel, #[trigger] raws[i]) by {
        assert(rel(raws[i], Ok(v@[i])));
    }
}

fn unwrap_or_empty<T>(v: Option<Vec<T>>) -> (r: Vec<T>)
    ensures
        r@ == opt_seq(v),
{
    match v {
        Some(x) => x,
        None => Vec::new(),
    }
}

/// Convert a validated `RawConfig` into the runtime `Config` (see
/// [`spec_config_result`]).
pub fn build_config(raw: RawConfig, keysyms: &KeysymTable) -> (r: Result<Config>)
    ensures
        spec_config_result(raw, *keysyms, r),
{
    let ghost raw0 = raw;
    proof {
        lemma_rels_exclusive(*keysyms);
    }
    let layout = match raw.layout {
        Some(l) => build_raw_layout(l)?,
        None => LayoutConfig::default(),
    };
    let decorations = match raw.decorations {
        Some(d) => d,
        None => true,
    };
    let keybindings = match build_keybindings(unwrap_or_empty(raw.keybindings), keysyms) {
        Ok(v) => v,
        Err(e) => {
            proof {
                lemma_list_err_not_all_ok(opt_seq(raw0.keybindings), e, keybinding_rel(*keysyms));
            }
            return Err(e);
        },
    };
    proof {
        lemma_list_ok(opt_seq(raw0.keybindings), keybindings, keybinding_rel(*keysyms));
    }
    let rules = match build_rules(unwrap_or_empty(raw.rules)) {
        Ok(v) => v,
        Err(e) => {
            proof {
                lemma_list_err_not_all_ok(opt_seq(raw0.rules), e, rule_rel());
            }
            return Err(e);
        },
    };
    proof {
        lemma_list_ok(opt_seq(raw0.rules), rules, rule_rel());
    }
    let keyboard_layout = match raw.keyboard_layout {
        Some(k) => Some(
            KeyboardLayoutConfig {
                rules: k.rules,
                model: k.model,
                layout: k.layout,
                variant: k.variant,
                options: k.options,
            },
        ),
        None => None,
    };
    let input_devices = match build_input_devices(unwrap_or_empty(raw.input_devices)) {
        Ok(v) => v,
        Err(e) => {
            proof {
                lemma_list_err_not_all_ok(opt_seq(raw0.input_devices), e, device_rel());
            }
            return Err(e);
        },
    };
    proof {
        lemma_list_ok(opt_seq(raw0.input_devices), input_devices, device_rel());
    }
    let pointer_bindings = match build_pointer_bindings(unwrap_or_empty(raw.pointer_bindings)) {
        Ok(v) => v,
        Err(e) => {
            proof {
                lemma_list_err_not_all_ok(opt_seq(raw0.pointer_bindings), e, pointer_binding_rel());
            }
            return Err(e);
        },
    };
    proof {
        lemma_list_ok(opt_seq(raw0.pointer_bindings), pointer_bindings, pointer_binding_rel());
    }
    Ok(
        Config {
            layout,
            decorations,
            border_width: raw.border_width,
            border_color_focused: raw.border_color_focused,
            border_color_unfocused: raw.border_color_unfocused,
            resize_delta_ratio: raw.resize_delta_ratio,
            resize_delta_percent: raw.resize_delta_percent,
            keybindings,
            pointer_bindings,
            rules,
            keyboard_layout,
            input_devices,
        },
    )
}
} // verus!
