//! Format-neutral parser for keybinding, rule and layout configuration.
//! It converts already-extracted strings into the shared config types.
use crate::command::Command;
use crate::config::{
    ConfigError, KeyBindingConfig, KeyBindingTarget, LayoutConfig, PointerBindingConfig,
    PointerOp, Result,
};
use crate::geometry::{FocusDirection, Rect, WindowState};
use crate::keysym::{KeysymTable, parse_keysym, spec_parse_keysym};
use crate::rules::{RulePattern, WindowRule, rule_regex_compiles};
use crate::text::{
    ascii_lowercase, chars_of, concat_str, spec_ascii_lower_seq, str_eq, to_owned_string,
};
use vstd::prelude::*;

verus! {

/// Views of a slice of string slices.
pub open spec fn strs_view(s: Seq<&str>) -> Seq<Seq<char>> {
    s.map_values(|t: &str| t@)
}

/// Views of a sequence of strings.
pub open spec fn strings_view(s: Seq<String>) -> Seq<Seq<char>> {
    s.map_values(|t: String| t@)
}

proof fn lemma_strings_view_push(s: Seq<String>, x: String)
    ensures
        strings_view(s.push(x)) == strings_view(s).push(x@),
{
    assert(strings_view(s.push(x)) =~= strings_view(s).push(x@));
}

proof fn lemma_strs_view_push(s: Seq<&str>, x: &str)
    ensures
        strs_view(s.push(x)) == strs_view(s).push(x@),
{
    assert(strs_view(s.push(x)) =~= strs_view(s).push(x@));
}

/// The target a (possibly absent) target string names; absent means primary.
pub open spec fn spec_parse_target(target: Option<Seq<char>>) -> Option<KeyBindingTarget> {
    let t = match target {
        Some(v) => v,
        None => "primary"@,
    };
    if t == "primary"@ {
        Some(KeyBindingTarget::Primary)
    } else if t == "all"@ {
        Some(KeyBindingTarget::All)
    } else {
        None
    }
}

/// Parse an optional target string into `KeyBindingTarget`.
pub fn parse_target(target: Option<&str>) -> (r: Option<KeyBindingTarget>)
    ensures
        r == spec_parse_target(crate::rules::opt_str_view(target)),
{
    let t = match target {
        Some(v) => v,
        None => "primary",
    };
    if str_eq(t, "primary") {
        Some(KeyBindingTarget::Primary)
    } else if str_eq(t, "all") {
        Some(KeyBindingTarget::All)
    } else {
        None
    }
}

/// The window state a rule mode names. Floating and pseudo-tiled states
/// carry an empty rect and fullscreen restores to tiled; the rule engine
/// fills in the real geometry.
pub open spec fn spec_parse_mode(name: Seq<char>) -> Option<WindowState> {
    if name == "tiled"@ {
        Some(WindowState::Tiled)
    } else if name == "floating"@ {
        Some(WindowState::Floating { rect: Rect { x: 0, y: 0, width: 0, height: 0 } })
    } else if name == "pseudo_tiled"@ {
        Some(WindowState::PseudoTiled { rect: Rect { x: 0, y: 0, width: 0, height: 0 } })
    } else if name == "fullscreen"@ {
        Some(WindowState::Fullscreen { restore: Box::new(WindowState::Tiled) })
    } else {
        None
    }
}

/// Parse a window state string into `WindowState`.
pub fn parse_mode(name: &str) -> (r: Option<WindowState>)
    ensures
        r == spec_parse_mode(name@),
{
    if str_eq(name, "tiled") {
        Some(WindowState::Tiled)
    } else if str_eq(name, "floating") {
        Some(WindowState::Floating { rect: Rect::new(0, 0, 0, 0) })
    } else if str_eq(name, "pseudo_tiled") {
        Some(WindowState::PseudoTiled { rect: Rect::new(0, 0, 0, 0) })
    } else if str_eq(name, "fullscreen") {
        Some(WindowState::Fullscreen { restore: Box::new(WindowState::Tiled) })
    } else {
        None
    }
}

/// River modifier bit for a lowercase modifier name.
pub open spec fn spec_modifier_bit(name: Seq<char>) -> Option<u32> {
    if name == "shift"@ {
        Some(1u32)
    } else if name == "ctrl"@ || name == "control"@ {
        Some(4u32)
    } else if name == "alt"@ || name == "mod1"@ {
        Some(8u32)
    } else if name == "mod3"@ {
        Some(32u32)
    } else if name == "super"@ || name == "mod4"@ {
        Some(64u32)
    } else if name == "mod5"@ {
        Some(128u32)
    } else {
        None
    }
}

/// The modifier mask of a list of names matched case-insensitively, or
/// `None` when any name is unknown.
pub open spec fn spec_parse_modifiers(names: Seq<Seq<char>>) -> Option<u32>
    decreases names.len(),
{
    if names.len() == 0 {
        Some(0u32)
    } else {
        match spec_parse_modifiers(names.drop_last()) {
            None => None,
            Some(acc) => match spec_modifier_bit(spec_ascii_lower_seq(names.last())) {
                None => None,
                Some(bit) => Some(acc | bit),
            },
        }
    }
}

fn modifier_bit(name: &str) -> (r: Option<u32>)
    ensures
        r == spec_modifier_bit(name@),
{
    if str_eq(name, "shift") {
        Some(1)
    } else if str_eq(name, "ctrl") || str_eq(name, "control") {
        Some(4)
    } else if str_eq(name, "alt") || str_eq(name, "mod1") {
        Some(8)
    } else if str_eq(name, "mod3") {
        Some(32)
    } else if str_eq(name, "super") || str_eq(name, "mod4") {
        Some(64)
    } else if str_eq(name, "mod5") {
        Some(128)
    } else {
        None
    }
}

/// Parse modifier names into River's modifier bitmask. Names are matched
/// case-insensitively; unknown names are rejected.
pub fn parse_modifiers(modifiers: &[&str]) -> (r: Option<u32>)
    ensures
        r == spec_parse_modifiers(strs_view(modifiers@)),
{
    let mut result: u32 = 0;
    let mut i: usize = 0;
    while i < modifiers.len()
        invariant
            i <= modifiers@.len(),
            spec_parse_modifiers(strs_view(modifiers@.take(i as int))) == Some(result),
        decreases modifiers@.len() - i,
    {
        proof {
            assert(strs_view(modifiers@.take(i + 1)).drop_last() =~= strs_view(
                modifiers@.take(i as int),
            ));
            assert(strs_view(modifiers@.take(i + 1)).last() == modifiers@[i as int]@);
        }
        let lower = ascii_lowercase(modifiers[i]);
        match modifier_bit(lower.as_str()) {
            Some(bit) => {
                result = result | bit;
            },
            None => {
                proof {
                    lemma_modifiers_none_extends(modifiers@, i as int + 1);
                }
                return None;
            },
        }
        i = i + 1;
    }
    proof {
        assert(modifiers@.take(modifiers@.len() as int) =~= modifiers@);
    }
    Some(result)
}

proof fn lemma_modifiers_none_extends(m: Seq<&str>, k: int)
    requires
        0 <= k <= m.len(),
        spec_parse_modifiers(strs_view(m.take(k))) is None,
    ensures
        spec_parse_modifiers(strs_view(m)) is None,
    decreases m.len() - k,
{
    if k < m.len() {
        assert(strs_view(m.take(k + 1)).drop_last() =~= strs_view(m.take(k)));
        lemma_modifiers_none_extends(m, k + 1);
    } else {
        assert(m.take(k) =~= m);
    }
}

/// The command named by a single token other than `spawn`.
pub open spec fn spec_simple_command(name: Seq<char>) -> Option<Command> {
    if name == "close"@ {
        Some(Command::CloseFocused)
    } else if name == "focus_next"@ {
        Some(Command::FocusNext)
    } else if name == "focus_previous"@ {
        Some(Command::FocusPrevious)
    } else if name == "focus_left"@ {
        Some(Command::FocusLeft)
    } else if name == "focus_right"@ {
        Some(Command::FocusRight)
    } else if name == "focus_up"@ {
        Some(Command::FocusUp)
    } else if name == "focus_down"@ {
        Some(Command::FocusDown)
    } else if name == "reload_config"@ || name == "reload"@ {
        Some(Command::ReloadConfig)
    } else if name == "exit_river"@ || name == "exit"@ {
        Some(Command::ExitRiver)
    } else if name == "toggle_floating"@ || name == "floating"@ {
        Some(Command::ToggleFloating)
    } else if name == "toggle_pseudo_tiled"@ || name == "pseudo_tiled"@ {
        Some(Command::TogglePseudoTiled)
    } else if name == "toggle_fullscreen"@ || name == "fullscreen"@ {
        Some(Command::ToggleFullscreen)
    } else if name == "tiled"@ {
        Some(Command::SetTiled)
    } else if name == "move_left"@ {
        Some(Command::MoveLeft)
    } else if name == "move_right"@ {
        Some(Command::MoveRight)
    } else if name == "move_up"@ {
        Some(Command::MoveUp)
    } else if name == "move_down"@ {
        Some(Command::MoveDown)
    } else if name == "resize_expand_left"@ {
        Some(Command::ResizeExpand { direction: FocusDirection::Left })
    } else if name == "resize_expand_right"@ {
        Some(Command::ResizeExpand { direction: FocusDirection::Right })
    } else if name == "resize_expand_up"@ {
        Some(Command::ResizeExpand { direction: FocusDirection::Up })
    } else if name == "resize_expand_down"@ {
        Some(Command::ResizeExpand { direction: FocusDirection::Down })
    } else if name == "resize_shrink_left"@ {
        Some(Command::ResizeShrink { direction: FocusDirection::Left })
    } else if name == "resize_shrink_right"@ {
        Some(Command::ResizeShrink { direction: FocusDirection::Right })
    } else if name == "resize_shrink_up"@ {
        Some(Command::ResizeShrink { direction: FocusDirection::Up })
    } else if name == "resize_shrink_down"@ {
        Some(Command::ResizeShrink { direction: FocusDirection::Down })
    } else {
        None
    }
}

/// Whether `tokens` parse as a command.
pub open spec fn spec_command_parses(tokens: Seq<Seq<char>>) -> bool {
    if tokens.len() == 0 {
        false
    } else if tokens[0] == "spawn"@ {
        tokens.len() >= 2 && tokens[1].len() > 0
    } else {
        spec_simple_command(tokens[0]) is Some
    }
}

/// Whether `c` is the command `tokens` parse to: `spawn PROGRAM ARGS...`
/// spawns `PROGRAM` with the remaining tokens as arguments; other commands
/// are a single known name (extra tokens are ignored).
pub open spec fn spec_command_of(tokens: Seq<Seq<char>>, c: Command) -> bool {
    if tokens.len() > 0 && tokens[0] == "spawn"@ {
        c matches Command::Spawn { program, args } && program@ == tokens[1] && strings_view(args@)
            == tokens.subrange(2, tokens.len() as int)
    } else {
        tokens.len() > 0 && spec_simple_command(tokens[0]) == Some(c)
    }
}

fn simple_command(name: &str) -> (r: Option<Command>)
    ensures
        r == spec_simple_command(name@),
{
    if str_eq(name, "close") {
        Some(Command::CloseFocused)
    } else if str_eq(name, "focus_next") {
        Some(Command::FocusNext)
    } else if str_eq(name, "focus_previous") {
        Some(Command::FocusPrevious)
    } else if str_eq(name, "focus_left") {
        Some(Command::FocusLeft)
    } else if str_eq(name, "focus_right") {
        Some(Command::FocusRight)
    } else if str_eq(name, "focus_up") {
        Some(Command::FocusUp)
    } else if str_eq(name, "focus_down") {
        Some(Command::FocusDown)
    } else if str_eq(name, "reload_config") || str_eq(name, "reload") {
        Some(Command::ReloadConfig)
    } else if str_eq(name, "exit_river") || str_eq(name, "exit") {
        Some(Command::ExitRiver)
    } else if str_eq(name, "toggle_floating") || str_eq(name, "floating") {
        Some(Command::ToggleFloating)
    } else if str_eq(name, "toggle_pseudo_tiled") || str_eq(name, "pseudo_tiled") {
        Some(Command::TogglePseudoTiled)
    } else if str_eq(name, "toggle_fullscreen") || str_eq(name, "fullscreen") {
        Some(Command::ToggleFullscreen)
    } else if str_eq(name, "tiled") {
        Some(Command::SetTiled)
    } else if str_eq(name, "move_left") {
        Some(Command::MoveLeft)
    } else if str_eq(name, "move_right") {
        Some(Command::MoveRight)
    } else if str_eq(name, "move_up") {
        Some(Command::MoveUp)
    } else if str_eq(name, "move_down") {
        Some(Command::MoveDown)
    } else if str_eq(name, "resize_expand_left") {
        Some(Command::ResizeExpand { direction: FocusDirection::Left })
    } else if str_eq(name, "resize_expand_right") {
        Some(Command::ResizeExpand { direction: FocusDirection::Right })
    } else if str_eq(name, "resize_expand_up") {
        Some(Command::ResizeExpand { direction: FocusDirection::Up })
    } else if str_eq(name, "resize_expand_down") {
        Some(Command::ResizeExpand { direction: FocusDirection::Down })
    } else if str_eq(name, "resize_shrink_left") {
        Some(Command::ResizeShrink { direction: FocusDirection::Left })
    } else if str_eq(name, "resize_shrink_right") {
        Some(Command::ResizeShrink { direction: FocusDirection::Right })
    } else if str_eq(name, "resize_shrink_up") {
        Some(Command::ResizeShrink { direction: FocusDirection::Up })
    } else if str_eq(name, "resize_shrink_down") {
        Some(Command::ResizeShrink { direction: FocusDirection::Down })
    } else {
        None
    }
}

/// Parse command tokens into an internal `Command`.
pub fn parse_command(tokens: &[&str]) -> (r: Option<Command>)
    ensures
        r is Some == spec_command_parses(strs_view(tokens@)),
        r matches Some(c) ==> spec_command_of(strs_view(tokens@), c),
{
    if tokens.len() == 0 {
        return None;
    }
    let first = tokens[0];
    if str_eq(first, "spawn") {
        if tokens.len() < 2 {
            return None;
        }
        let program = tokens[1];
        if program.unicode_len() == 0 {
            return None;
        }
        let mut args: Vec<String> = Vec::new();
        let mut i: usize = 2;
        while i < tokens.len()
            invariant
                2 <= i <= tokens@.len(),
                strings_view(args@) == strs_view(tokens@).subrange(2, i as int),
            decreases tokens@.len() - i,
        {
            let a = to_owned_string(tokens[i]);
            let ghost old_args = args@;
            args.push(a);
            proof {
                lemma_strings_view_push(old_args, a);
                assert(strs_view(tokens@)[i as int] == tokens@[i as int]@);
                assert(strings_view(args@) =~= strs_view(tokens@).subrange(2, i + 1));
            }
            i = i + 1;
        }
        Some(Command::Spawn { program: to_owned_string(program), args })
    } else {
        simple_command(first)
    }
}

/// Parse a complete keybinding from normalized string inputs.
///
/// Returns `None` when any part of the keybinding is invalid.
pub fn parse_keybinding(
    target: Option<&str>,
    keysym: &str,
    modifiers: &[&str],
    command_tokens: &[&str],
    keysyms: &KeysymTable,
) -> (r: Option<KeyBindingConfig>)
    ensures
        r is Some == (spec_parse_target(crate::rules::opt_str_view(target)) is Some
            && spec_parse_keysym(keysym@, *keysyms) is Some && spec_parse_modifiers(strs_view(modifiers@))
            is Some && spec_command_parses(strs_view(command_tokens@))),
        r matches Some(b) ==> {
            &&& Some(b.target) == spec_parse_target(crate::rules::opt_str_view(target))
            &&& Some(b.keysym) == spec_parse_keysym(keysym@, *keysyms)
            &&& Some(b.modifiers) == spec_parse_modifiers(strs_view(modifiers@))
            &&& spec_command_of(strs_view(command_tokens@), b.command)
        },
{
    let target = parse_target(target)?;
    let keysym = parse_keysym(keysym, keysyms)?;
    let modifiers = parse_modifiers(modifiers)?;
    let command = parse_command(command_tokens)?;
    Some(KeyBindingConfig { target, keysym, modifiers, command })
}

/// Intermediate, format-neutral pattern emitted by a loader before regex
/// compilation.
#[derive(Debug, Clone)]
pub enum RawPattern {
    Exact(String),
    Prefix(String),
    Regex(String),
}

/// Message for an unknown pattern match mode.
pub open spec fn spec_mode_message(name: Seq<char>, mode: Seq<char>) -> Seq<char> {
    "Invalid "@ + name + " match mode: "@ + mode
}

/// Map a `value`/`match` pair to a `RawPattern`.
pub fn build_raw_pattern(name: &str, value: String, mode: &str) -> (r: Result<RawPattern>)
    ensures
        mode@ == "exact"@ ==> (r matches Ok(RawPattern::Exact(v)) && v@ == value@),
        mode@ == "prefix"@ ==> (r matches Ok(RawPattern::Prefix(v)) && v@ == value@),
        mode@ == "regex"@ ==> (r matches Ok(RawPattern::Regex(v)) && v@ == value@),
        (mode@ != "exact"@ && mode@ != "prefix"@ && mode@ != "regex"@) ==> (r matches Err(
            ConfigError::InvalidConfig(m),
        ) && m@ == spec_mode_message(name@, mode@)),
{
    proof {
        reveal_strlit("exact");
        reveal_strlit("prefix");
        reveal_strlit("regex");
        assert("prefix"@.len() != "exact"@.len());
        assert("regex"@[0] != "exact"@[0]);
        assert("regex"@.len() != "prefix"@.len());
    }
    if str_eq(mode, "exact") {
        Ok(RawPattern::Exact(value))
    } else if str_eq(mode, "prefix") {
        Ok(RawPattern::Prefix(value))
    } else if str_eq(mode, "regex") {
        Ok(RawPattern::Regex(value))
    } else {
        let mut m = concat_str("Invalid ", name);
        m.append(" match mode: ");
        m.append(mode);
        Err(ConfigError::InvalidConfig(m))
    }
}

/// Build a `RawPattern` from a value and an optional mode (`exact` by default).
pub fn build_pattern_field(name: &str, value: String, mode: Option<String>) -> (r: Result<
    RawPattern,
>)
    ensures
        ({
            let md = match mode {
                Some(m) => m@,
                None => "exact"@,
            };
            &&& md == "exact"@ ==> (r matches Ok(RawPattern::Exact(v)) && v@ == value@)
            &&& md == "prefix"@ ==> (r matches Ok(RawPattern::Prefix(v)) && v@ == value@)
            &&& md == "regex"@ ==> (r matches Ok(RawPattern::Regex(v)) && v@ == value@)
            &&& (md != "exact"@ && md != "prefix"@ && md != "regex"@) ==> (r matches Err(
                ConfigError::InvalidConfig(m),
            ) && m@ == spec_mode_message(name@, md))
        }),
{
    proof {
        reveal_strlit("exact");
        reveal_strlit("prefix");
        reveal_strlit("regex");
    }
    match mode {
        Some(m) => build_raw_pattern(name, value, m.as_str()),
        None => build_raw_pattern(name, value, "exact"),
    }
}

/// Message for a regex that does not compile.
pub open spec fn spec_regex_message(name: Seq<char>, source: Seq<char>) -> Seq<char> {
    "Invalid "@ + name + " regex: "@ + source
}

/// What compiling a raw pattern gives: exact and prefix patterns carry the
/// text over; a regex compiles or yields the regex error.
pub open spec fn spec_build_pattern_ok(name: Seq<char>, pattern: RawPattern, r: Result<RulePattern>) -> bool {
    match pattern {
        RawPattern::Exact(s) => r matches Ok(RulePattern::Exact(p)) && p@ == s@,
        RawPattern::Prefix(s) => r matches Ok(RulePattern::Prefix(p)) && p@ == s@,
        RawPattern::Regex(s) => if rule_regex_compiles(s@) {
            r matches Ok(RulePattern::Regex(c)) && c.source_text() == s@
        } else {
            r matches Err(ConfigError::InvalidConfig(m)) && m@ == spec_regex_message(name, s@)
        },
    }
}

/// Compile a `RawPattern` into a `RulePattern`.
pub fn build_pattern(name: &str, pattern: RawPattern) -> (r: Result<RulePattern>)
    ensures
        spec_build_pattern_ok(name@, pattern, r),
{
    match pattern {
        RawPattern::Exact(s) => Ok(RulePattern::Exact(s)),
        RawPattern::Prefix(s) => Ok(RulePattern::Prefix(s)),
        RawPattern::Regex(s) => match RulePattern::regex(s.as_str()) {
            Some(p) => Ok(p),
            None => {
                let mut m = concat_str("Invalid ", name);
                m.append(" regex: ");
                m.append(s.as_str());
                Err(ConfigError::InvalidConfig(m))
            },
        },
    }
}

/// Format-neutral margins table.
#[derive(Debug, Clone, Copy, PartialEq, Eq, Structural)]
pub struct RawMargins {
    pub top: Option<i32>,
    pub right: Option<i32>,
    pub bottom: Option<i32>,
    pub left: Option<i32>,
}

/// Build a `LayoutConfig` from resolved margins and the remaining fields.
pub fn build_layout(
    gap: Option<i32>,
    margins: RawMargins,
    default_float_ratio: Option<u32>,
    preview_border_color: Option<u32>,
    preview_border_width: Option<i32>,
) -> (r: LayoutConfig)
    ensures
        r == (LayoutConfig {
            gap,
            margin_top: margins.top,
            margin_right: margins.right,
            margin_bottom: margins.bottom,
            margin_left: margins.left,
            default_float_ratio,
            preview_border_color,
            preview_border_width,
        }),
{
    LayoutConfig {
        gap,
        margin_top: margins.top,
        margin_right: margins.right,
        margin_bottom: margins.bottom,
        margin_left: margins.left,
        default_float_ratio,
        preview_border_color,
        preview_border_width,
    }
}

/// What building an optional pattern gives.
pub open spec fn spec_opt_pattern_ok(
    name: Seq<char>,
    pattern: Option<RawPattern>,
    r: Option<RulePattern>,
) -> bool {
    match pattern {
        None => r is None,
        Some(p) => r is Some && spec_build_pattern_ok(name, p, Ok(r->0)),
    }
}

/// Whether an optional raw pattern is a regex that does not compile.
pub open spec fn spec_pattern_fails(pattern: Option<RawPattern>) -> bool {
    pattern matches Some(RawPattern::Regex(s)) && !rule_regex_compiles(s@)
}

fn build_opt_pattern(name: &str, pattern: Option<RawPattern>) -> (r: Result<Option<RulePattern>>)
    ensures
        spec_pattern_fails(pattern) ==> (r matches Err(ConfigError::InvalidConfig(m)) && m@
            == spec_regex_message(name@, pattern->0->Regex_0@)),
        !spec_pattern_fails(pattern) ==> (r matches Ok(p) && spec_opt_pattern_ok(name@, pattern, p)),
{
    match pattern {
        None => Ok(None),
        Some(p) => {
            let built = build_pattern(name, p);
            match built {
                Ok(bp) => Ok(Some(bp)),
                Err(e) => Err(e),
            }
        },
    }
}

/// Build a `WindowRule` from extracted matchers and a mode: at least one
/// matcher is required, the mode must parse, and regexes must compile
/// (`app_id` checked before `title`).
pub fn build_rule(
    app_id: Option<RawPattern>,
    title: Option<RawPattern>,
    mode: &str,
    floating_rect: Option<Rect>,
) -> (r: Result<WindowRule>)
    ensures
        (app_id is None && title is None) ==> (r matches Err(ConfigError::InvalidConfig(m)) && m@
            == "Rule must match at least one of app_id or title"@),
        (!(app_id is None && title is None) && spec_parse_mode(mode@) is None) ==> (r matches Err(
            ConfigError::InvalidConfig(m),
        ) && m@ == "Invalid rule mode"@),
        (!(app_id is None && title is None) && spec_parse_mode(mode@) is Some
            && spec_pattern_fails(app_id)) ==> (r matches Err(ConfigError::InvalidConfig(m)) && m@
            == spec_regex_message("app_id"@, app_id->0->Regex_0@)),
        (!(app_id is None && title is None) && spec_parse_mode(mode@) is Some
            && !spec_pattern_fails(app_id) && spec_pattern_fails(title)) ==> (r matches Err(
            ConfigError::InvalidConfig(m),
        ) && m@ == spec_regex_message("title"@, title->0->Regex_0@)),
        (!(app_id is None && title is None) && spec_parse_mode(mode@) is Some
            && !spec_pattern_fails(app_id) && !spec_pattern_fails(title)) ==> (r matches Ok(rule)
            && Some(rule.target) == spec_parse_mode(mode@) && rule.floating_rect == floating_rect
            && spec_opt_pattern_ok("app_id"@, app_id, rule.app_id) && spec_opt_pattern_ok(
            "title"@,
            title,
            rule.title,
        )),
{
    if app_id.is_none() && title.is_none() {
        return Err(
            ConfigError::InvalidConfig(
                to_owned_string("Rule must match at least one of app_id or title"),
            ),
        );
    }
    let target = match parse_mode(mode) {
        Some(t) => t,
        None => {
            return Err(ConfigError::InvalidConfig(to_owned_string("Invalid rule mode")));
        },
    };
    let app_id = build_opt_pattern("app_id", app_id)?;
    let title = build_opt_pattern("title", title)?;
    Ok(WindowRule { app_id, title, target, floating_rect })
}

/// Borrowed views of owned strings.
fn as_strs(v: &[String]) -> (r: Vec<&str>)
    ensures
        strs_view(r@) == strings_view(v@),
{
    let mut out: Vec<&str> = Vec::new();
    let mut i: usize = 0;
    while i < v.len()
        invariant
            i <= v@.len(),
            strs_view(out@) == strings_view(v@).take(i as int),
        decreases v@.len() - i,
    {
        let ghost old_out = out@;
        let e = v[i].as_str();
        out.push(e);
        proof {
            lemma_strs_view_push(old_out, e);
            assert(strings_view(v@)[i as int] == v@[i as int]@);
            assert(strs_view(out@) =~= strings_view(v@).take(i + 1));
        }
        i = i + 1;
    }
    proof {
        assert(strings_view(v@).take(v@.len() as int) =~= strings_view(v@));
    }
    out
}

/// Whether every part of a keybinding parses.
pub open spec fn spec_keybinding_ok(
    target: Option<Seq<char>>,
    keysym: Seq<char>,
    modifiers: Seq<Seq<char>>,
    command: Seq<Seq<char>>,
    keysyms: KeysymTable,
) -> bool {
    spec_parse_target(target) is Some && spec_parse_keysym(keysym, keysyms) is Some && spec_parse_modifiers(
        modifiers,
    ) is Some && spec_command_parses(command)
}

/// Whether `b` is the keybinding these parts parse to.
pub open spec fn spec_keybinding_fields(
    target: Option<Seq<char>>,
    keysym: Seq<char>,
    modifiers: Seq<Seq<char>>,
    command: Seq<Seq<char>>,
    keysyms: KeysymTable,
    b: KeyBindingConfig,
) -> bool {
    &&& Some(b.target) == spec_parse_target(target)
    &&& Some(b.keysym) == spec_parse_keysym(keysym, keysyms)
    &&& Some(b.modifiers) == spec_parse_modifiers(modifiers)
    &&& spec_command_of(command, b.command)
}

/// What building a keybinding from these parts gives: the parsed binding,
/// or the `"Invalid keybinding"` error when any part fails.
pub open spec fn spec_keybinding_result(
    target: Option<Seq<char>>,
    keysym: Seq<char>,
    modifiers: Seq<Seq<char>>,
    command: Seq<Seq<char>>,
    keysyms: KeysymTable,
    r: Result<KeyBindingConfig>,
) -> bool {
    &&& r is Ok == spec_keybinding_ok(target, keysym, modifiers, command, keysyms)
    &&& r matches Ok(b) ==> spec_keybinding_fields(target, keysym, modifiers, command, keysyms, b)
    &&& r matches Err(e) ==> (e matches ConfigError::InvalidConfig(m) && m@
        == "Invalid keybinding"@)
}

/// Build a `KeyBindingConfig` from extracted strings, or the
/// `"Invalid keybinding"` error.
pub fn build_keybinding(
    target: Option<&str>,
    keysym: &str,
    modifiers: &[String],
    command: &[String],
    keysyms: &KeysymTable,
) -> (r: Result<KeyBindingConfig>)
    ensures
        spec_keybinding_result(
            crate::rules::opt_str_view(target),
            keysym@,
            strings_view(modifiers@),
            strings_view(command@),
            *keysyms,
            r,
        ),
{
    let modifier_refs = as_strs(modifiers);
    let command_refs = as_strs(command);
    match parse_keybinding(target, keysym, modifier_refs.as_slice(), command_refs.as_slice(), keysyms) {
        Some(b) => Ok(b),
        None => Err(ConfigError::InvalidConfig(to_owned_string("Invalid keybinding"))),
    }
}

/// Shared validation hook for extracted string lists: every list is
/// accepted as it is.
pub fn validate_string_list(strings: &[String]) -> (r: Result<Vec<String>>)
    ensures
        r matches Ok(v) && strings_view(v@) == strings_view(strings@),
{
    let mut out: Vec<String> = Vec::new();
    let mut i: usize = 0;
    while i < strings.len()
        invariant
            i <= strings@.len(),
            strings_view(out@) == strings_view(strings@).take(i as int),
        decreases strings@.len() - i,
    {
        let ghost old_out = out@;
        let e = to_owned_string(strings[i].as_str());
        out.push(e);
        proof {
            lemma_strings_view_push(old_out, e);
            assert(strings_view(strings@)[i as int] == strings@[i as int]@);
            assert(strings_view(out@) =~= strings_view(strings@).take(i + 1));
        }
        i = i + 1;
    }
    proof {
        assert(strings_view(strings@).take(strings@.len() as int) =~= strings_view(strings@));
    }
    Ok(out)
}

/// Linux input event code of a named pointer button, or of a decimal code.
pub open spec fn spec_button_code(name: Seq<char>) -> Option<u32> {
    if name == "BTN_LEFT"@ {
        Some(0x110u32)
    } else if name == "BTN_RIGHT"@ {
        Some(0x111u32)
    } else if name == "BTN_MIDDLE"@ {
        Some(0x112u32)
    } else {
        crate::text::spec_parse_decimal_u32(name)
    }
}

/// The pointer operation an op name selects.
pub open spec fn spec_pointer_op(name: Seq<char>) -> Option<PointerOp> {
    if name == "move"@ {
        Some(PointerOp::Move)
    } else if name == "resize"@ {
        Some(PointerOp::Resize)
    } else {
        None
    }
}

/// What building a pointer binding from these parts gives: the parsed
/// binding, or the `"Invalid pointer binding"` error when any part fails.
pub open spec fn spec_pointer_binding_result(
    target: Option<Seq<char>>,
    button: Seq<char>,
    modifiers: Seq<Seq<char>>,
    op: Seq<char>,
    r: Result<PointerBindingConfig>,
) -> bool {
    &&& r is Ok == (spec_parse_target(target) is Some && spec_button_code(button) is Some
        && spec_parse_modifiers(modifiers) is Some && spec_pointer_op(op) is Some)
    &&& r matches Ok(b) ==> {
        &&& Some(b.target) == spec_parse_target(target)
        &&& Some(b.button) == spec_button_code(button)
        &&& Some(b.modifiers) == spec_parse_modifiers(modifiers)
        &&& Some(b.op) == spec_pointer_op(op)
    }
    &&& r matches Err(e) ==> (e matches ConfigError::InvalidConfig(m) && m@
        == "Invalid pointer binding"@)
}

/// Build a `PointerBindingConfig` from extracted strings, or the
/// `"Invalid pointer binding"` error.
pub fn build_pointer_binding(
    target: Option<&str>,
    button: &str,
    modifiers: &[String],
    op: &str,
) -> (r: Result<PointerBindingConfig>)
    ensures
        spec_pointer_binding_result(
            crate::rules::opt_str_view(target),
            button@,
            strings_view(modifiers@),
            op@,
            r,
        ),
{
    let target = parse_target(target);
    let code = if str_eq(button, "BTN_LEFT") {
        Some(0x110u32)
    } else if str_eq(button, "BTN_RIGHT") {
        Some(0x111u32)
    } else if str_eq(button, "BTN_MIDDLE") {
        Some(0x112u32)
    } else {
        crate::text::parse_decimal_u32(button)
    };
    let modifier_refs = as_strs(modifiers);
    let mods = parse_modifiers(modifier_refs.as_slice());
    let op = if str_eq(op, "move") {
        Some(PointerOp::Move)
    } else if str_eq(op, "resize") {
        Some(PointerOp::Resize)
    } else {
        None
    };
    match (target, code, mods, op) {
        (Some(target), Some(button), Some(modifiers), Some(op)) => Ok(
            PointerBindingConfig { target, button, modifiers, op },
        ),
        _ => Err(ConfigError::InvalidConfig(to_owned_string("Invalid pointer binding"))),
    }
}

/// Modifier names are matched ignoring ASCII case: two lists whose names
/// agree once lowercased give the same mask (or are both refused).
pub proof fn law_modifiers_ignore_case(a: Seq<Seq<char>>, b: Seq<Seq<char>>)
    requires
        a.len() == b.len(),
        forall|i: int| 0 <= i < a.len() ==> spec_ascii_lower_seq(#[trigger] a[i]) == spec_ascii_lower_seq(b[i]),
    ensures
        spec_parse_modifiers(a) == spec_parse_modifiers(b),
    decreases a.len(),
{
    if a.len() > 0 {
        assert forall|i: int| 0 <= i < a.drop_last().len() implies spec_ascii_lower_seq(#[trigger] a.drop_last()[i])
            == spec_ascii_lower_seq(b.drop_last()[i]) by {
            assert(a.drop_last()[i] == a[i]);
            assert(b.drop_last()[i] == b[i]);
        }
        law_modifiers_ignore_case(a.drop_last(), b.drop_last());
        assert(spec_ascii_lower_seq(a[a.len() - 1]) == spec_ascii_lower_seq(b[b.len() - 1]));
    }
}

} // verus!
