//! Configuration model: bindings, layout and input settings, and the
//! identity-based merge of a user configuration over the defaults.
//!
//! Fractional settings (ratios, speeds, percentages) are kept as their exact
//! IEEE-754 bit patterns (`u32` for single, `u64` for double precision); the
//! model only stores, compares and validates them.
use crate::command::Command;
use crate::rules::WindowRule;
use crate::text::{ascii_lowercase, concat_str, spec_ascii_lower_seq, str_eq};
use vstd::prelude::*;

verus! {

/// Precomputed RGBA color components, each scaled to the full `u32` range.
pub type Rgba = (u32, u32, u32, u32);

/// One 8-bit channel scaled to the full `u32` range: `v * 0xffffffff / 255`.
pub open spec fn spec_scale_channel(v: int) -> int {
    v * 4294967295 / 255
}

/// The ARGB word `0xAARRGGBB` as scaled `(r, g, b, a)`.
pub open spec fn spec_argb_to_rgba(argb: u32) -> Rgba {
    (
        spec_scale_channel(((argb >> 16u32) & 0xffu32) as int) as u32,
        spec_scale_channel(((argb >> 8u32) & 0xffu32) as int) as u32,
        spec_scale_channel((argb & 0xffu32) as int) as u32,
        spec_scale_channel(((argb >> 24u32) & 0xffu32) as int) as u32,
    )
}

fn scale_channel(v: u32) -> (r: u32)
    requires
        v <= 255,
    ensures
        r == spec_scale_channel(v as int),
{
    let wide: u64 = v as u64 * (u32::MAX as u64);
    assert(wide == v * 4294967295) by (nonlinear_arith)
        requires
            wide == v as u64 * (u32::MAX as u64),
            v <= 255,
    ;
    let q = wide / 255;
    assert(q <= 4294967295) by (nonlinear_arith)
        requires
            q == wide / 255,
            wide == v * 4294967295,
            v <= 255,
    ;
    q as u32
}

/// Convert an ARGB hex value (0xAARRGGBB) to an RGBA tuple with each
/// component scaled from 8-bit to the full 32-bit range.
pub fn argb_to_rgba(argb: u32) -> (r: Rgba)
    ensures
        r == spec_argb_to_rgba(argb),
{
    let red = (argb >> 16) & 0xff;
    let green = (argb >> 8) & 0xff;
    let blue = argb & 0xff;
    let alpha = (argb >> 24) & 0xff;
    assert(red <= 255 && green <= 255 && blue <= 255 && alpha <= 255) by (bit_vector)
        requires
            red == (argb >> 16) & 0xff,
            green == (argb >> 8) & 0xff,
            blue == argb & 0xff,
            alpha == (argb >> 24) & 0xff,
    ;
    (scale_channel(red), scale_channel(green), scale_channel(blue), scale_channel(alpha))
}

/// Configuration loading error.
#[derive(Debug, PartialEq, Eq)]
pub enum ConfigError {
    /// Filesystem error while reading a config file.
    Io(String),
    /// Lua interpreter or Lua config conversion error.
    Lua(String),
    /// TOML deserialization error.
    Toml(String),
    /// Config value was syntactically or semantically invalid.
    InvalidConfig(String),
}

/// Result type for configuration loading and parsing.
pub type Result<T> = core::result::Result<T, ConfigError>;

/// Whether an IEEE-754 single-precision bit pattern denotes a value `v`
/// with `0.0 <= v <= 1.0`: the non-negative patterns up to that of `1.0`,
/// and negative zero. NaN patterns are excluded.
pub open spec fn spec_f32_bits_in_unit_range(bits: u32) -> bool {
    bits <= 0x3f80_0000u32 || bits == 0x8000_0000u32
}

/// Whether an IEEE-754 double-precision bit pattern denotes a value below
/// `0.0`: sign bit set, not a zero, not a NaN.
pub open spec fn spec_f64_bits_is_negative(bits: u64) -> bool {
    bits > 0x8000_0000_0000_0000u64 && bits <= 0xfff0_0000_0000_0000u64
}

/// The message for a ratio outside `[0.0, 1.0]`.
pub open spec fn spec_ratio_message(name: Seq<char>) -> Seq<char> {
    name + " must be between 0.0 and 1.0"@
}

/// Validate that a ratio parameter (single-precision bits) lies in `[0.0, 1.0]`.
/// `None` passes through unchanged.
pub fn validate_ratio(name: &str, value: Option<u32>) -> (r: Result<Option<u32>>)
    ensures
        match value {
            None => r == Ok::<Option<u32>, ConfigError>(None),
            Some(v) => if spec_f32_bits_in_unit_range(v) {
                r == Ok::<Option<u32>, ConfigError>(Some(v))
            } else {
                r matches Err(ConfigError::InvalidConfig(m)) && m@ == spec_ratio_message(name@)
            },
        },
{
    match value {
        Some(v) => {
            if v <= 0x3f80_0000u32 || v == 0x8000_0000u32 {
                Ok(Some(v))
            } else {
                Err(ConfigError::InvalidConfig(crate::text::concat_str(name, " must be between 0.0 and 1.0")))
            }
        },
        None => Ok(None),
    }
}

/// Target seats for a keybinding.
#[derive(Debug, Copy, Clone, PartialEq, Eq, Hash, Structural)]
pub enum KeyBindingTarget {
    /// Apply the binding to the primary seat.
    Primary,
    /// Apply the binding to every known seat.
    All,
}

/// Declarative keybinding from configuration.
#[derive(Debug, Clone)]
pub struct KeyBindingConfig {
    /// Seat target for this binding.
    pub target: KeyBindingTarget,
    /// XKB keysym value.
    pub keysym: u32,
    /// River modifier bitmask.
    pub modifiers: u32,
    /// Command to run when the binding is pressed.
    pub command: Command,
}

/// What identifies a keybinding when merging configurations.
pub open spec fn spec_key_identity(b: KeyBindingConfig) -> (KeyBindingTarget, u32, u32) {
    (b.target, b.keysym, b.modifiers)
}

/// [`spec_key_identity`] as a function value.
pub open spec fn key_id_fn() -> spec_fn(KeyBindingConfig) -> (KeyBindingTarget, u32, u32) {
    |x: KeyBindingConfig| spec_key_identity(x)
}

impl KeyBindingConfig {
    /// Whether two bindings share `target + keysym + modifiers`.
    pub fn same_identity(&self, other: &KeyBindingConfig) -> (r: bool)
        ensures
            r == (spec_key_identity(*self) == spec_key_identity(*other)),
    {
        self.target == other.target && self.keysym == other.keysym && self.modifiers
            == other.modifiers
    }
}

/// Interactive pointer operation triggered by a pointer binding.
#[derive(Debug, Clone, Copy, PartialEq, Eq, Hash, Structural)]
pub enum PointerOp {
    /// Interactive move of the focused window.
    Move,
    /// Interactive resize of the focused window.
    Resize,
}

/// Declarative pointer binding: a button plus modifiers starts an
/// interactive move or resize of the focused window.
#[derive(Debug, Clone, Copy, PartialEq, Eq, Structural)]
pub struct PointerBindingConfig {
    /// Seat target for this binding.
    pub target: KeyBindingTarget,
    /// Linux input event code for the pointer button (e.g. `BTN_LEFT`).
    pub button: u32,
    /// River modifier bitmask.
    pub modifiers: u32,
    /// Interactive operation to perform on press.
    pub op: PointerOp,
}

/// What identifies a pointer binding when merging configurations.
pub open spec fn spec_pointer_identity(b: PointerBindingConfig) -> (KeyBindingTarget, u32, u32) {
    (b.target, b.button, b.modifiers)
}

/// [`spec_pointer_identity`] as a function value.
pub open spec fn pointer_id_fn() -> spec_fn(PointerBindingConfig) -> (KeyBindingTarget, u32, u32) {
    |x: PointerBindingConfig| spec_pointer_identity(x)
}

impl PointerBindingConfig {
    /// Whether two pointer bindings share `target + button + modifiers`.
    pub fn same_identity(&self, other: &PointerBindingConfig) -> (r: bool)
        ensures
            r == (spec_pointer_identity(*self) == spec_pointer_identity(*other)),
    {
        self.target == other.target && self.button == other.button && self.modifiers
            == other.modifiers
    }
}

/// Input device acceleration profile.
#[derive(Debug, Clone, Copy, PartialEq, Eq, Structural)]
pub enum AccelProfile {
    NoProfile,
    Flat,
    Adaptive,
    Custom,
}

/// Tap-to-click button mapping.
#[derive(Debug, Clone, Copy, PartialEq, Eq, Structural)]
pub enum TapButtonMap {
    Lrm,
    Lmr,
}

/// Scroll method for pointer devices.
#[derive(Debug, Clone, Copy, PartialEq, Eq, Structural)]
pub enum ScrollMethod {
    NoScroll,
    TwoFinger,
    Edge,
    OnButtonDown,
}

/// Drag lock state for touchpad devices.
#[derive(Debug, Clone, Copy, PartialEq, Eq, Structural)]
pub enum DragLockState {
    Disabled,
    EnabledTimeout,
    EnabledSticky,
}

/// Click method for touchpad devices.
#[derive(Debug, Clone, Copy, PartialEq, Eq, Structural)]
pub enum ClickMethod {
    NoClick,
    ButtonAreas,
    Clickfinger,
}

/// Send events mode for input devices.
#[derive(Debug, Clone, Copy, PartialEq, Eq, Structural)]
pub enum SendEventsMode {
    Enabled,
    Disabled,
    DisabledOnExternalMouse,
}

/// Keyboard layout configuration.
#[derive(Debug, Clone)]
pub struct KeyboardLayoutConfig {
    pub rules: Option<String>,
    pub model: Option<String>,
    pub layout: String,
    pub variant: Option<String>,
    pub options: Option<String>,
}

/// Per-input-device configuration. `accel_speed` and `scroll_factor` are
/// double-precision bit patterns.
#[derive(Debug, Clone)]
pub struct InputDeviceConfig {
    pub name: String,
    pub accel_profile: Option<AccelProfile>,
    pub accel_speed: Option<u64>,
    pub scroll_factor: Option<u64>,
    pub repeat_rate: Option<i32>,
    pub repeat_delay: Option<i32>,
    pub tap: Option<bool>,
    pub tap_button_map: Option<TapButtonMap>,
    pub natural_scroll: Option<bool>,
    pub left_handed: Option<bool>,
    pub scroll_method: Option<ScrollMethod>,
    pub middle_emulation: Option<bool>,
    pub dwt: Option<bool>,
    pub send_events: Option<SendEventsMode>,
    pub drag: Option<bool>,
    pub drag_lock: Option<DragLockState>,
    pub click_method: Option<ClickMethod>,
    pub rotation: Option<u32>,
}

/// Output-relative window sizing and positioning settings. `None` means
/// "inherit the default"; `Some(0)` disables a gap or margin.
/// `default_float_ratio` is a single-precision bit pattern.
#[derive(Debug, Clone, Copy, PartialEq, Eq, Structural)]
pub struct LayoutConfig {
    /// Pixel gap between adjacent tiled windows.
    pub gap: Option<i32>,
    /// Top margin inset for the tiling area.
    pub margin_top: Option<i32>,
    /// Right margin inset for the tiling area.
    pub margin_right: Option<i32>,
    /// Bottom margin inset for the tiling area.
    pub margin_bottom: Option<i32>,
    /// Left margin inset for the tiling area.
    pub margin_left: Option<i32>,
    /// Default floating / pseudo-tiled size as a fraction of the output.
    pub default_float_ratio: Option<u32>,
    /// Border color for the pending split preview in 0xAARRGGBB format.
    pub preview_border_color: Option<u32>,
    /// Border width in pixels for the pending split preview.
    pub preview_border_width: Option<i32>,
}

/// The layout configuration with every field unset.
pub open spec fn spec_empty_layout_config() -> LayoutConfig {
    LayoutConfig {
        gap: None,
        margin_top: None,
        margin_right: None,
        margin_bottom: None,
        margin_left: None,
        default_float_ratio: None,
        preview_border_color: None,
        preview_border_width: None,
    }
}

impl Default for LayoutConfig {
    fn default() -> (r: Self)
        ensures
            r == spec_empty_layout_config(),
    {
        LayoutConfig {
            gap: None,
            margin_top: None,
            margin_right: None,
            margin_bottom: None,
            margin_left: None,
            default_float_ratio: None,
            preview_border_color: None,
            preview_border_width: None,
        }
    }
}

/// Complete configuration. `resize_delta_ratio` is a double-precision and
/// `resize_delta_percent` a single-precision bit pattern.
#[derive(Debug, Clone)]
pub struct Config {
    /// Layout configuration (gap and margins).
    pub layout: LayoutConfig,
    /// Whether client-side decorations are enabled.
    pub decorations: bool,
    /// Border width in pixels. 0 disables compositor borders.
    pub border_width: Option<i32>,
    /// Focused window border color in 0xAARRGGBB format.
    pub border_color_focused: Option<u32>,
    /// Unfocused window border color in 0xAARRGGBB format.
    pub border_color_unfocused: Option<u32>,
    /// Configured keybindings.
    pub keybindings: Vec<KeyBindingConfig>,
    /// Configured pointer bindings.
    pub pointer_bindings: Vec<PointerBindingConfig>,
    /// Tiling resize ratio delta per resize command press.
    pub resize_delta_ratio: Option<u64>,
    /// Floating resize dimension delta as percentage of output size.
    pub resize_delta_percent: Option<u32>,
    /// Per-window rules applied on metadata arrival.
    pub rules: Vec<WindowRule>,
    /// Keyboard layout configuration.
    pub keyboard_layout: Option<KeyboardLayoutConfig>,
    /// Per-input-device configuration matched by exact device name.
    pub input_devices: Vec<InputDeviceConfig>,
}

/// `field` overridden by `over` when `over` is `Some`.
pub open spec fn spec_override<T>(field: Option<T>, over: Option<T>) -> Option<T> {
    match over {
        Some(v) => Some(v),
        None => field,
    }
}

/// Override an `Option` field when the source value is `Some`.
pub fn apply_if_some<T>(field: &mut Option<T>, override_: Option<T>)
    ensures
        *final(field) == spec_override(*old(field), override_),
{
    if let Some(val) = override_ {
        *field = Some(val);
    }
}

/// Index of the last element of `s` whose identity is `ident`, if any.
pub open spec fn spec_last_index_with<T, I>(s: Seq<T>, ident: I, id: spec_fn(T) -> I) -> Option<
    int,
>
    decreases s.len(),
{
    if s.len() == 0 {
        None
    } else if id(s.last()) == ident {
        Some(s.len() - 1)
    } else {
        spec_last_index_with(s.drop_last(), ident, id)
    }
}

pub proof fn lemma_last_index_bounds<T, I>(s: Seq<T>, ident: I, id: spec_fn(T) -> I)
    ensures
        spec_last_index_with(s, ident, id) matches Some(i) ==> 0 <= i < s.len() && id(s[i])
            == ident,
    decreases s.len(),
{
    if s.len() > 0 && id(s.last()) != ident {
        lemma_last_index_bounds(s.drop_last(), ident, id);
    }
}

/// With no index found, no element has the identity.
pub proof fn lemma_last_index_none<T, I>(s: Seq<T>, ident: I, id: spec_fn(T) -> I)
    ensures
        spec_last_index_with(s, ident, id) is None ==> forall|j: int|
            0 <= j < s.len() ==> id(#[trigger] s[j]) != ident,
    decreases s.len(),
{
    if s.len() > 0 && id(s.last()) != ident {
        lemma_last_index_none(s.drop_last(), ident, id);
        assert forall|j: int| 0 <= j < s.len() - 1 implies s.drop_last()[j] == #[trigger] s[j] by {}
    }
}

/// Among elements with pairwise distinct identities, the index found is the
/// one holding the identity.
pub proof fn lemma_last_index_unique<T, I>(s: Seq<T>, ident: I, id: spec_fn(T) -> I, j: int)
    requires
        0 <= j < s.len(),
        id(s[j]) == ident,
        forall|a: int, b: int| 0 <= a < b < s.len() ==> id(#[trigger] s[a]) != id(#[trigger] s[b]),
    ensures
        spec_last_index_with(s, ident, id) == Some(j),
    decreases s.len(),
{
    if j < s.len() - 1 {
        assert(id(s[j]) != id(s[s.len() - 1]));
        assert forall|a: int, b: int| 0 <= a < b < s.drop_last().len() implies id(
            #[trigger] s.drop_last()[a],
        ) != id(#[trigger] s.drop_last()[b]) by {
            assert(s.drop_last()[a] == s[a]);
            assert(s.drop_last()[b] == s[b]);
        }
        assert(s.drop_last()[j] == s[j]);
        lemma_last_index_unique(s.drop_last(), ident, id, j);
    }
}

pub proof fn lemma_last_index_same_ids<T, I>(s1: Seq<T>, s2: Seq<T>, ident: I, id: spec_fn(T) -> I)
    requires
        s1.map_values(id) == s2.map_values(id),
    ensures
        spec_last_index_with(s1, ident, id) == spec_last_index_with(s2, ident, id),
    decreases s1.len(),
{
    assert(s1.len() == s1.map_values(id).len());
    assert(s2.len() == s2.map_values(id).len());
    if s1.len() > 0 {
        assert(s1.map_values(id)[s1.len() - 1] == s2.map_values(id)[s1.len() - 1]);
        assert(s1.map_values(id)[s1.len() - 1] == id(s1[s1.len() - 1]));
        assert(s2.map_values(id)[s1.len() - 1] == id(s2[s1.len() - 1]));
        assert(id(s1.last()) == id(s2.last()));
        assert(s1.drop_last().map_values(id) =~= s2.drop_last().map_values(id)) by {
            assert forall|j: int| 0 <= j < s1.len() - 1 implies #[trigger] s1.drop_last().map_values(id)[j] == s2.drop_last().map_values(id)[j] by {
                assert(s1.map_values(id)[j] == s2.map_values(id)[j]);
                assert(s1.map_values(id)[j] == id(s1[j]));
                assert(s2.map_values(id)[j] == id(s2[j]));
                assert(s1.drop_last()[j] == s1[j]);
                assert(s2.drop_last()[j] == s2[j]);
                assert(s1.drop_last().map_values(id)[j] == id(s1.drop_last()[j]));
                assert(s2.drop_last().map_values(id)[j] == id(s2.drop_last()[j]));
            }
        }
        lemma_last_index_same_ids(s1.drop_last(), s2.drop_last(), ident, id);
    }
}

/// Merge `user` over `defaults`: user entries are applied in order; one
/// whose identity is already present (a default, or a user entry appended
/// earlier) replaces the last entry with that identity in place, any other
/// is appended. So the last of several user entries with one identity wins
/// and no identity is added twice.
pub open spec fn spec_merge_bindings<T, I>(defaults: Seq<T>, user: Seq<T>, id: spec_fn(T) -> I) -> Seq<
    T,
>
    decreases user.len(),
{
    if user.len() == 0 {
        defaults
    } else {
        let acc = spec_merge_bindings(defaults, user.drop_last(), id);
        match spec_last_index_with(acc, id(user.last()), id) {
            Some(i) => acc.update(i, user.last()),
            None => acc.push(user.last()),
        }
    }
}

/// Whether no two entries of `s` share an identity.
pub open spec fn spec_identities_distinct<T, I>(s: Seq<T>, id: spec_fn(T) -> I) -> bool {
    forall|a: int, b: int| 0 <= a < b < s.len() ==> id(#[trigger] s[a]) != id(#[trigger] s[b])
}

/// An identity held by some entry has a last index.
proof fn lemma_last_index_some<T, I>(s: Seq<T>, j: int, id: spec_fn(T) -> I)
    requires
        0 <= j < s.len(),
    ensures
        spec_last_index_with(s, id(s[j]), id) is Some,
{
    lemma_last_index_none(s, id(s[j]), id);
}

/// The shape of a merge: the default slots keep their identities, and the
/// appended entries have identities that no default has, pairwise distinct.
proof fn lemma_merge_shape<T, I>(defaults: Seq<T>, user: Seq<T>, id: spec_fn(T) -> I)
    ensures
        ({
            let m = spec_merge_bindings(defaults, user, id);
            &&& m.len() >= defaults.len()
            &&& forall|i: int| 0 <= i < defaults.len() ==> id(#[trigger] m[i]) == id(defaults[i])
            &&& forall|j: int|
                defaults.len() <= j < m.len() ==> spec_last_index_with(defaults, id(#[trigger] m[j]), id) is None
            &&& forall|a: int, b: int|
                defaults.len() <= a < b < m.len() ==> id(#[trigger] m[a]) != id(#[trigger] m[b])
        }),
    decreases user.len(),
{
    if user.len() > 0 {
        lemma_merge_shape(defaults, user.drop_last(), id);
        let acc = spec_merge_bindings(defaults, user.drop_last(), id);
        let u = user.last();
        let n = defaults.len() as int;
        lemma_last_index_bounds(acc, id(u), id);
        lemma_last_index_none(acc, id(u), id);
        match spec_last_index_with(acc, id(u), id) {
            Some(i) => {},
            None => {
                let m = acc.push(u);
                lemma_last_index_bounds(defaults, id(u), id);
                if let Some(i) = spec_last_index_with(defaults, id(u), id) {
                    assert(id(acc[i]) == id(defaults[i]));
                }
                assert forall|a: int, b: int| n <= a < b < m.len() implies id(#[trigger] m[a]) != id(#[trigger] m[b]) by {
                    if b == acc.len() {
                        assert(id(acc[a]) != id(u));
                    }
                }
            },
        }
    }
}

/// Merging with no user entries leaves the defaults as they are.
pub proof fn law_merge_nothing_keeps_defaults<T, I>(defaults: Seq<T>, id: spec_fn(T) -> I)
    ensures
        spec_merge_bindings(defaults, Seq::<T>::empty(), id) == defaults,
{
}

/// Merging keeps every default slot in place with its identity: the result
/// starts with as many entries as there are defaults, and the entry at each
/// default position has the identity of the default there.
pub proof fn law_merge_keeps_default_slots<T, I>(defaults: Seq<T>, user: Seq<T>, id: spec_fn(T) -> I)
    ensures
        spec_merge_bindings(defaults, user, id).len() >= defaults.len(),
        forall|i: int|
            0 <= i < defaults.len() ==> id(#[trigger] spec_merge_bindings(defaults, user, id)[i])
                == id(defaults[i]),
{
    lemma_merge_shape(defaults, user, id);
}

/// Duplicates are removed: when no two defaults share an identity, no two
/// entries of the merge do.
pub proof fn law_merge_identities_distinct<T, I>(defaults: Seq<T>, user: Seq<T>, id: spec_fn(T) -> I)
    requires
        spec_identities_distinct(defaults, id),
    ensures
        spec_identities_distinct(spec_merge_bindings(defaults, user, id), id),
{
    lemma_merge_shape(defaults, user, id);
    let m = spec_merge_bindings(defaults, user, id);
    let n = defaults.len() as int;
    assert forall|a: int, b: int| 0 <= a < b < m.len() implies id(#[trigger] m[a]) != id(#[trigger] m[b]) by {
        if b < n {
            assert(id(defaults[a]) != id(defaults[b]));
        } else if a < n {
            lemma_last_index_some(defaults, a, id);
            assert(id(m[a]) == id(defaults[a]));
        }
    }
}

/// A default that no user entry shares an identity with comes out unchanged.
pub proof fn law_merge_untouched_default<T, I>(
    defaults: Seq<T>,
    user: Seq<T>,
    id: spec_fn(T) -> I,
    i: int,
)
    requires
        0 <= i < defaults.len(),
        forall|j: int| 0 <= j < user.len() ==> id(#[trigger] user[j]) != id(defaults[i]),
    ensures
        spec_merge_bindings(defaults, user, id)[i] == defaults[i],
    decreases user.len(),
{
    if user.len() > 0 {
        assert forall|j: int| 0 <= j < user.drop_last().len() implies id(
            #[trigger] user.drop_last()[j],
        ) != id(defaults[i]) by {
            assert(user.drop_last()[j] == user[j]);
        }
        law_merge_untouched_default(defaults, user.drop_last(), id, i);
        lemma_merge_shape(defaults, user.drop_last(), id);
        let acc = spec_merge_bindings(defaults, user.drop_last(), id);
        lemma_last_index_bounds(acc, id(user.last()), id);
        assert(id(user[user.len() - 1]) != id(defaults[i]));
    }
}

/// Among entries whose identity differs from `x` from position `n` on,
/// the last one with identity `x` lies before `n`.
proof fn lemma_last_index_before<T, I>(s: Seq<T>, n: int, x: I, id: spec_fn(T) -> I)
    requires
        0 <= n <= s.len(),
        forall|j: int| n <= j < s.len() ==> id(#[trigger] s[j]) != x,
    ensures
        spec_last_index_with(s, x, id) == spec_last_index_with(s.take(n), x, id),
    decreases s.len(),
{
    if s.len() > n {
        assert(s.drop_last().take(n) =~= s.take(n));
        lemma_last_index_before(s.drop_last(), n, x, id);
    } else {
        assert(s.take(n) =~= s);
    }
}

/// The last user entry with a given identity replaces the (last) default
/// with that identity.
pub proof fn law_merge_last_user_entry_wins<T, I>(
    defaults: Seq<T>,
    user: Seq<T>,
    id: spec_fn(T) -> I,
    k: int,
    i: int,
)
    requires
        0 <= k < user.len(),
        spec_last_index_with(defaults, id(user[k]), id) == Some(i),
        forall|j: int| k < j < user.len() ==> id(#[trigger] user[j]) != id(user[k]),
    ensures
        spec_merge_bindings(defaults, user, id)[i] == user[k],
    decreases user.len(),
{
    let x = id(user[k]);
    let acc = spec_merge_bindings(defaults, user.drop_last(), id);
    let n = defaults.len() as int;
    lemma_merge_shape(defaults, user.drop_last(), id);
    lemma_last_index_bounds(defaults, x, id);
    lemma_last_index_bounds(acc, id(user.last()), id);
    if k < user.len() - 1 {
        assert forall|j: int| k < j < user.drop_last().len() implies id(
            #[trigger] user.drop_last()[j],
        ) != id(user.drop_last()[k]) by {
            assert(user.drop_last()[j] == user[j]);
        }
        assert(user.drop_last()[k] == user[k]);
        law_merge_last_user_entry_wins(defaults, user.drop_last(), id, k, i);
        assert(id(user[user.len() - 1]) != x);
        assert(id(acc[i]) == x);
    } else {
        assert forall|j: int| n <= j < acc.len() implies id(#[trigger] acc[j]) != x by {
            if id(acc[j]) == x {
                assert(spec_last_index_with(defaults, id(acc[j]), id) is None);
            }
        }
        lemma_last_index_before(acc, n, x, id);
        assert(acc.take(n).map_values(id) =~= defaults.map_values(id)) by {
            assert forall|j: int| 0 <= j < n implies #[trigger] acc.take(n).map_values(id)[j] == defaults.map_values(id)[j] by {
                assert(acc.take(n)[j] == acc[j]);
            }
        }
        lemma_last_index_same_ids(acc.take(n), defaults, x, id);
    }
}

/// The last user entry with an identity that no default has is appended:
/// the merge holds it after the defaults, at the only position after the
/// defaults with that identity.
pub proof fn law_merge_new_entry_appended_once<T, I>(defaults: Seq<T>, user: Seq<T>, id: spec_fn(T) -> I, k: int) -> (j: int)
    requires
        0 <= k < user.len(),
        spec_last_index_with(defaults, id(user[k]), id) is None,
        forall|j: int| k < j < user.len() ==> id(#[trigger] user[j]) != id(user[k]),
    ensures
        defaults.len() <= j < spec_merge_bindings(defaults, user, id).len(),
        spec_merge_bindings(defaults, user, id)[j] == user[k],
        forall|j2: int|
            defaults.len() <= j2 < spec_merge_bindings(defaults, user, id).len() && id(
                #[trigger] spec_merge_bindings(defaults, user, id)[j2],
            ) == id(user[k]) ==> j2 == j,
    decreases user.len(),
{
    let x = id(user[k]);
    let acc = spec_merge_bindings(defaults, user.drop_last(), id);
    let n = defaults.len() as int;
    lemma_merge_shape(defaults, user.drop_last(), id);
    lemma_merge_shape(defaults, user, id);
    lemma_last_index_bounds(acc, id(user.last()), id);
    lemma_last_index_none(acc, id(user.last()), id);
    let m = spec_merge_bindings(defaults, user, id);
    if k < user.len() - 1 {
        assert forall|j: int| k < j < user.drop_last().len() implies id(
            #[trigger] user.drop_last()[j],
        ) != id(user.drop_last()[k]) by {
            assert(user.drop_last()[j] == user[j]);
        }
        assert(user.drop_last()[k] == user[k]);
        let j = law_merge_new_entry_appended_once(defaults, user.drop_last(), id, k);
        assert(id(user[user.len() - 1]) != x);
        assert(m[j] == user[k]);
        j
    } else {
        let j = match spec_last_index_with(acc, x, id) {
            Some(i) => i,
            None => acc.len() as int,
        };
        if j < n {
            assert(id(acc[j]) == id(defaults[j]));
            lemma_last_index_some(defaults, j, id);
        }
        assert(m[j] == user[k]);
        j
    }
}

/// Position of the last binding sharing `b`'s identity.
fn last_key_index(defaults: &Vec<KeyBindingConfig>, n: usize, b: &KeyBindingConfig) -> (r: Option<
    usize,
>)
    requires
        n <= defaults.len(),
    ensures
        r == (match spec_last_index_with(
            defaults@.take(n as int),
            spec_key_identity(*b),
            key_id_fn(),
        ) {
            Some(i) => Some(i as usize),
            None => None::<usize>,
        }),
{
    let mut i = n;
    while i > 0
        invariant
            i <= n <= defaults.len(),
            spec_last_index_with(
                defaults@.take(n as int),
                spec_key_identity(*b),
                key_id_fn(),
            ) == spec_last_index_with(
                defaults@.take(i as int),
                spec_key_identity(*b),
                key_id_fn(),
            ),
        decreases i,
    {
        assert(defaults@.take(i as int).drop_last() =~= defaults@.take(i - 1));
        if defaults[i - 1].same_identity(b) {
            return Some(i - 1);
        }
        i = i - 1;
    }
    None
}

/// Merge user keybindings over `bindings` by identity (see
/// [`spec_merge_bindings`]).
pub fn merge_keybindings(bindings: &mut Vec<KeyBindingConfig>, user: Vec<KeyBindingConfig>)
    ensures
        final(bindings)@ == spec_merge_bindings(
            old(bindings)@,
            user@,
            key_id_fn(),
        ),
{
    let ghost defaults = bindings@;
    let ghost id = key_id_fn();
    for b in it: user.into_iter()
        invariant
            id == key_id_fn(),
            it.seq() == user@,
            bindings@ == spec_merge_bindings(defaults, it.seq().take(it.index() as int), id),
    {
        let ghost k = it.index();
        proof {
            assert(it.seq().take(k + 1).drop_last() =~= it.seq().take(k as int));
            assert(bindings@.take(bindings@.len() as int) =~= bindings@);
            lemma_last_index_bounds(bindings@, spec_key_identity(b), id);
        }
        let n = bindings.len();
        let idx = last_key_index(bindings, n, &b);
        match idx {
            Some(i) => {
                bindings.set(i, b);
            },
            None => {
                bindings.push(b);
            },
        }
    }
    proof {
        assert(user@.take(user@.len() as int) =~= user@);
    }
}

/// Position of the last binding sharing `b`'s identity.
fn last_pointer_index(defaults: &Vec<PointerBindingConfig>, n: usize, b: &PointerBindingConfig) -> (r: Option<
    usize,
>)
    requires
        n <= defaults.len(),
    ensures
        r == (match spec_last_index_with(
            defaults@.take(n as int),
            spec_pointer_identity(*b),
            pointer_id_fn(),
        ) {
            Some(i) => Some(i as usize),
            None => None::<usize>,
        }),
{
    let mut i = n;
    while i > 0
        invariant
            i <= n <= defaults.len(),
            spec_last_index_with(
                defaults@.take(n as int),
                spec_pointer_identity(*b),
                pointer_id_fn(),
            ) == spec_last_index_with(
                defaults@.take(i as int),
                spec_pointer_identity(*b),
                pointer_id_fn(),
            ),
        decreases i,
    {
        assert(defaults@.take(i as int).drop_last() =~= defaults@.take(i - 1));
        if defaults[i - 1].same_identity(b) {
            return Some(i - 1);
        }
        i = i - 1;
    }
    None
}

/// Merge user pointer bindings over `bindings` by identity (see
/// [`spec_merge_bindings`]).
pub fn merge_pointer_bindings(bindings: &mut Vec<PointerBindingConfig>, user: Vec<PointerBindingConfig>)
    ensures
        final(bindings)@ == spec_merge_bindings(
            old(bindings)@,
            user@,
            pointer_id_fn(),
        ),
{
    let ghost defaults = bindings@;
    let ghost id = pointer_id_fn();
    for b in it: user.into_iter()
        invariant
            id == pointer_id_fn(),
            it.seq() == user@,
            bindings@ == spec_merge_bindings(defaults, it.seq().take(it.index() as int), id),
    {
        let ghost k = it.index();
        proof {
            assert(it.seq().take(k + 1).drop_last() =~= it.seq().take(k as int));
            assert(bindings@.take(bindings@.len() as int) =~= bindings@);
            lemma_last_index_bounds(bindings@, spec_pointer_identity(b), id);
        }
        let n = bindings.len();
        let idx = last_pointer_index(bindings, n, &b);
        match idx {
            Some(i) => {
                bindings.set(i, b);
            },
            None => {
                bindings.push(b);
            },
        }
    }
    proof {
        assert(user@.take(user@.len() as int) =~= user@);
    }
}


/// `base`'s layout with every field that `over` sets overridden.
pub open spec fn spec_merge_layout(base: LayoutConfig, over: LayoutConfig) -> LayoutConfig {
    LayoutConfig {
        gap: spec_override(base.gap, over.gap),
        margin_top: spec_override(base.margin_top, over.margin_top),
        margin_right: spec_override(base.margin_right, over.margin_right),
        margin_bottom: spec_override(base.margin_bottom, over.margin_bottom),
        margin_left: spec_override(base.margin_left, over.margin_left),
        default_float_ratio: spec_override(base.default_float_ratio, over.default_float_ratio),
        preview_border_color: spec_override(base.preview_border_color, over.preview_border_color),
        preview_border_width: spec_override(base.preview_border_width, over.preview_border_width),
    }
}

/// The configuration `merge` produces from `base` and `other`.
pub open spec fn spec_merged(base: Config, other: Config, result: Config) -> bool {
    &&& result.layout == spec_merge_layout(base.layout, other.layout)
    &&& result.decorations == other.decorations
    &&& result.border_width == spec_override(base.border_width, other.border_width)
    &&& result.border_color_focused == spec_override(
        base.border_color_focused,
        other.border_color_focused,
    )
    &&& result.border_color_unfocused == spec_override(
        base.border_color_unfocused,
        other.border_color_unfocused,
    )
    &&& result.resize_delta_ratio == spec_override(base.resize_delta_ratio, other.resize_delta_ratio)
    &&& result.resize_delta_percent == spec_override(
        base.resize_delta_percent,
        other.resize_delta_percent,
    )
    &&& result.rules == other.rules
    &&& result.keyboard_layout == (if other.keyboard_layout is Some {
        other.keyboard_layout
    } else {
        base.keyboard_layout
    })
    &&& result.input_devices == (if other.input_devices@.len() > 0 {
        other.input_devices
    } else {
        base.input_devices
    })
    &&& result.keybindings@ == spec_merge_bindings(base.keybindings@, other.keybindings@, key_id_fn())
    &&& result.pointer_bindings@ == spec_merge_bindings(
        base.pointer_bindings@,
        other.pointer_bindings@,
        pointer_id_fn(),
    )
}

/// The color used when a border color is unset: opaque white.
pub open spec fn spec_color_or_white(c: Option<u32>) -> u32 {
    match c {
        Some(v) => v,
        None => 0xffff_ffffu32,
    }
}

impl Config {
    /// Precompute `(focused, unfocused)` RGBA border colors; an unset color
    /// is opaque white.
    pub fn border_rgba(&self) -> (r: (Rgba, Rgba))
        ensures
            r == (
                spec_argb_to_rgba(spec_color_or_white(self.border_color_focused)),
                spec_argb_to_rgba(spec_color_or_white(self.border_color_unfocused)),
            ),
    {
        let focused = match self.border_color_focused {
            Some(v) => v,
            None => 0xffff_ffffu32,
        };
        let unfocused = match self.border_color_unfocused {
            Some(v) => v,
            None => 0xffff_ffffu32,
        };
        (argb_to_rgba(focused), argb_to_rgba(unfocused))
    }

    /// Load the built-in default configuration.
    pub fn load() -> (r: Config)
        ensures
            crate::defaults::spec_is_default_config(r),
    {
        crate::defaults::defaults()
    }

    /// Merge `other` into this config: layout, border and resize fields
    /// are overridden where `other` sets them; `decorations` and `rules` are
    /// taken from `other`; keyboard layout and input devices are replaced
    /// when `other` has any; keybindings and pointer bindings are merged by
    /// identity (see [`spec_merge_bindings`]).
    pub fn merge(&mut self, other: Config)
        ensures
            spec_merged(*old(self), other, *final(self)),
    {
        let Config {
            layout,
            decorations,
            border_width,
            border_color_focused,
            border_color_unfocused,
            keybindings,
            pointer_bindings,
            resize_delta_ratio,
            resize_delta_percent,
            rules,
            keyboard_layout,
            input_devices,
        } = other;
        apply_if_some(&mut self.layout.gap, layout.gap);
        apply_if_some(&mut self.layout.margin_top, layout.margin_top);
        apply_if_some(&mut self.layout.margin_right, layout.margin_right);
        apply_if_some(&mut self.layout.margin_bottom, layout.margin_bottom);
        apply_if_some(&mut self.layout.margin_left, layout.margin_left);
        apply_if_some(&mut self.layout.default_float_ratio, layout.default_float_ratio);
        apply_if_some(&mut self.layout.preview_border_color, layout.preview_border_color);
        apply_if_some(&mut self.layout.preview_border_width, layout.preview_border_width);
        self.decorations = decorations;
        apply_if_some(&mut self.border_width, border_width);
        apply_if_some(&mut self.border_color_focused, border_color_focused);
        apply_if_some(&mut self.border_color_unfocused, border_color_unfocused);
        apply_if_some(&mut self.resize_delta_ratio, resize_delta_ratio);
        apply_if_some(&mut self.resize_delta_percent, resize_delta_percent);
        self.rules = rules;
        if keyboard_layout.is_some() {
            self.keyboard_layout = keyboard_layout;
        }
        if input_devices.len() > 0 {
            self.input_devices = input_devices;
        }
        merge_keybindings(&mut self.keybindings, keybindings);
        merge_pointer_bindings(&mut self.pointer_bindings, pointer_bindings);
    }
}
/// The languages a configuration file can be written in.
#[derive(Debug, Clone, Copy, PartialEq, Eq, Structural)]
pub enum ConfigFormat {
    Lua,
    Toml,
}

/// Choose the language of a configuration file from its extension `ext`,
/// compared ignoring ASCII case: `lua` and no extension at all are Lua,
/// `toml` is TOML, and any other extension is refused as unsupported.
pub fn config_format(ext: Option<&str>) -> (r: Result<ConfigFormat>)
    ensures
        match ext {
            None => r == Ok::<ConfigFormat, ConfigError>(ConfigFormat::Lua),
            Some(e) => {
                let l = spec_ascii_lower_seq(e@);
                if l == "lua"@ {
                    r == Ok::<ConfigFormat, ConfigError>(ConfigFormat::Lua)
                } else if l == "toml"@ {
                    r == Ok::<ConfigFormat, ConfigError>(ConfigFormat::Toml)
                } else {
                    r matches Err(ConfigError::InvalidConfig(m)) && m@ == "Unsupported config file extension: "@ + l
                }
            },
        },
{
    match ext {
        None => Ok(ConfigFormat::Lua),
        Some(e) => {
            let l = ascii_lowercase(e);
            if str_eq(l.as_str(), "lua") {
                Ok(ConfigFormat::Lua)
            } else if str_eq(l.as_str(), "toml") {
                Ok(ConfigFormat::Toml)
            } else {
                Err(ConfigError::InvalidConfig(concat_str("Unsupported config file extension: ", l.as_str())))
            }
        },
    }
}
} // verus!
