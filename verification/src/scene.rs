//! Stacking order and border appearance of windows in the rendered scene.
use crate::config::{argb_to_rgba, spec_argb_to_rgba};
use crate::geometry::{FocusDirection, Rect, WindowState, clone_state, state_eq};
use crate::output::OutputId;
use crate::seat::SeatId;
use crate::window::WindowId;
use vstd::prelude::*;

verus! {

/// Bitmask of all four window edges.
pub const ALL_EDGES: u32 = 0b1111;

/// Z-order band of a layout state: tiled and pseudo-tiled at the bottom (0),
/// floating above (1), fullscreen on top (2).
pub open spec fn spec_mode_priority(state: WindowState) -> u8 {
    match state {
        WindowState::Tiled => 0,
        WindowState::PseudoTiled { .. } => 0,
        WindowState::Floating { .. } => 1,
        WindowState::Fullscreen { .. } => 2,
    }
}

/// Map a window's layout state to its z-order band.
pub fn mode_priority(state: &WindowState) -> (r: u8)
    ensures
        r == spec_mode_priority(*state),
{
    match state {
        WindowState::Tiled => 0,
        WindowState::PseudoTiled { .. } => 0,
        WindowState::Floating { .. } => 1,
        WindowState::Fullscreen { .. } => 2,
    }
}

/// The single border edge that previews a pending split toward `direction`.
pub open spec fn spec_preview_edge(direction: FocusDirection) -> u32 {
    match direction {
        FocusDirection::Right => 0b1000,
        FocusDirection::Left => 0b0100,
        FocusDirection::Down => 0b0010,
        FocusDirection::Up => 0b0001,
    }
}

/// Map a pending split direction to the edge bitmask that previews it.
pub fn preview_edge(direction: FocusDirection) -> (r: u32)
    ensures
        r == spec_preview_edge(direction),
{
    match direction {
        FocusDirection::Right => 0b1000,
        FocusDirection::Left => 0b0100,
        FocusDirection::Down => 0b0010,
        FocusDirection::Up => 0b0001,
    }
}

/// Stacking key of a window: (band, 1 if focused else 0, id). Sorting by
/// this key gives a deterministic bottom-to-top order.
pub open spec fn spec_render_stack_priority(
    state: Option<WindowState>,
    focused_window: Option<WindowId>,
    window_id: WindowId,
) -> (u8, u8, u32) {
    let band = match state {
        Some(s) => spec_mode_priority(s),
        None => 0u8,
    };
    let focus: u8 = if focused_window == Some(window_id) { 1 } else { 0 };
    (band, focus, window_id.0)
}

/// Compute the stacking key of a window (see [`spec_render_stack_priority`]).
pub fn render_stack_priority(
    state: Option<&WindowState>,
    focused_window: Option<WindowId>,
    window_id: WindowId,
) -> (r: (u8, u8, u32))
    ensures
        r == spec_render_stack_priority(
            match state {
                Some(s) => Some(*s),
                None => None,
            },
            focused_window,
            window_id,
        ),
{
    let band = match state {
        Some(s) => mode_priority(s),
        None => 0,
    };
    let focus: u8 = match focused_window {
        Some(f) => if f.0 == window_id.0 { 1 } else { 0 },
        None => 0,
    };
    (band, focus, window_id.0)
}

/// Name of a layout state as reported to clients: "tiled", "floating",
/// "pseudo_tiled" or "fullscreen".
pub fn state_tag(state: &WindowState) -> (r: &'static str)
    ensures
        r@ == (match *state {
            WindowState::Tiled => "tiled"@,
            WindowState::Floating { .. } => "floating"@,
            WindowState::PseudoTiled { .. } => "pseudo_tiled"@,
            WindowState::Fullscreen { .. } => "fullscreen"@,
        }),
{
    match state {
        WindowState::Tiled => "tiled",
        WindowState::Floating { .. } => "floating",
        WindowState::PseudoTiled { .. } => "pseudo_tiled",
        WindowState::Fullscreen { .. } => "fullscreen",
    }
}

/// Border of a window drawn by the window manager, as
/// `(edges, width, r, g, b, a)`: `None` when the client draws its own
/// decorations; on the focused window with a split pending, only the
/// previewed edge in the preview colour (the focused colour `focused_argb`
/// when unset, scaled by [`spec_argb_to_rgba`]) and width; otherwise all
/// edges in the focused or unfocused colour `focused_rgba` /
/// `unfocused_rgba`.
pub open spec fn spec_window_border(
    use_client_decorations: bool,
    focused: bool,
    pending_split: Option<FocusDirection>,
    border_width: i32,
    focused_argb: u32,
    focused_rgba: (u32, u32, u32, u32),
    unfocused_rgba: (u32, u32, u32, u32),
    preview_color: Option<u32>,
    preview_width: Option<i32>,
) -> Option<(u32, i32, u32, u32, u32, u32)> {
    if use_client_decorations {
        None
    } else {
        let (rgba, edges, width) = if focused && pending_split.is_some() {
            (
                spec_argb_to_rgba(match preview_color { Some(c) => c, None => focused_argb }),
                spec_preview_edge(pending_split.unwrap()),
                match preview_width { Some(w) => w, None => border_width },
            )
        } else if focused {
            (focused_rgba, ALL_EDGES, border_width)
        } else {
            (unfocused_rgba, ALL_EDGES, border_width)
        };
        Some((edges, width, rgba.0, rgba.1, rgba.2, rgba.3))
    }
}

/// Compute the border of a window (see [`spec_window_border`]).
pub fn window_border(
    use_client_decorations: bool,
    focused: bool,
    pending_split: Option<FocusDirection>,
    border_width: i32,
    focused_argb: u32,
    focused_rgba: (u32, u32, u32, u32),
    unfocused_rgba: (u32, u32, u32, u32),
    preview_color: Option<u32>,
    preview_width: Option<i32>,
) -> (r: Option<(u32, i32, u32, u32, u32, u32)>)
    ensures
        r == spec_window_border(
            use_client_decorations,
            focused,
            pending_split,
            border_width,
            focused_argb,
            focused_rgba,
            unfocused_rgba,
            preview_color,
            preview_width,
        ),
{
    if use_client_decorations {
        return None;
    }
    let (rgba, edges, width): ((u32, u32, u32, u32), u32, i32) = match (focused, pending_split) {
        (true, Some(direction)) => (
            argb_to_rgba(match preview_color { Some(c) => c, None => focused_argb }),
            preview_edge(direction),
            match preview_width { Some(w) => w, None => border_width },
        ),
        (true, None) => (focused_rgba, ALL_EDGES, border_width),
        (false, _) => (unfocused_rgba, ALL_EDGES, border_width),
    };
    Some((edges, width, rgba.0, rgba.1, rgba.2, rgba.3))
}

/// A window's border as drawn by the window manager:
/// `(edges, width, r, g, b, a)`.
pub type Border = (u32, i32, u32, u32, u32, u32);

/// One window of the scene the window manager wants shown.
#[derive(Debug)]
pub struct SceneEntry {
    pub window_id: WindowId,
    pub output_id: OutputId,
    /// Where the window is shown.
    pub rect: Rect,
    pub state: WindowState,
    /// Stacking key (see [`spec_render_stack_priority`]).
    pub z: (u8, u8, u32),
    pub border: Option<Border>,
}

/// A protocol request the window manager issues for a window, an output or
/// a seat.
#[derive(Debug, Clone, Copy, PartialEq, Eq, Structural)]
pub enum Effect {
    ProposeDimensions { window_id: WindowId, width: i32, height: i32 },
    Fullscreen { window_id: WindowId, output_id: OutputId },
    ExitFullscreen { window_id: WindowId },
    UseSsd { window_id: WindowId },
    EnsureNode { window_id: WindowId },
    SetBorders { window_id: WindowId, edges: u32, width: i32, r: u32, g: u32, b: u32, a: u32 },
    SetPosition { window_id: WindowId, x: i32, y: i32 },
    PlaceTop { window_id: WindowId },
    Close { window_id: WindowId },
    FocusWindow { window_id: WindowId },
    SetLayerShellDefault { output_id: OutputId },
    StartPointerOp { seat_id: SeatId },
    EndPointerOp { seat_id: SeatId },
    InformResizeStart { window_id: WindowId },
    InformResizeEnd { window_id: WindowId },
}

/// The scene entry of an arranged window: shown over the whole output when
/// fullscreen and the output's rect is known, in its slot otherwise;
/// stacked by [`spec_render_stack_priority`]; bordered by
/// [`spec_window_border`] (`border` given as its arguments after the
/// decoration flag).
pub open spec fn spec_scene_entry(
    window_id: WindowId,
    output_id: OutputId,
    window_rect: Rect,
    state: WindowState,
    full_rect: Option<Rect>,
    focused_window: Option<WindowId>,
    border: Option<Border>,
) -> SceneEntry {
    let rect = match state {
        WindowState::Fullscreen { .. } => match full_rect {
            Some(r) => r,
            None => window_rect,
        },
        _ => window_rect,
    };
    SceneEntry {
        window_id,
        output_id,
        rect,
        state,
        z: spec_render_stack_priority(Some(state), focused_window, window_id),
        border,
    }
}

/// Build the scene entry of an arranged window (see [`spec_scene_entry`]).
pub fn scene_entry(
    window_id: WindowId,
    output_id: OutputId,
    window_rect: Rect,
    state: WindowState,
    full_rect: Option<Rect>,
    focused_window: Option<WindowId>,
    border: Option<Border>,
) -> (r: SceneEntry)
    ensures
        r == spec_scene_entry(window_id, output_id, window_rect, state, full_rect, focused_window, border),
{
    let rect = match &state {
        WindowState::Fullscreen { .. } => match full_rect {
            Some(r) => r,
            None => window_rect,
        },
        _ => window_rect,
    };
    let z = render_stack_priority(Some(&state), focused_window, window_id);
    SceneEntry { window_id, output_id, rect, state, z, border }
}

/// The manage-phase requests for one window of the desired scene, given
/// its entry in the last managed scene: entering or leaving fullscreen, a
/// new size for a window that is not fullscreen, and server-side
/// decorations once it gets a border.
pub open spec fn spec_manage_effects(last: Option<SceneEntry>, entry: SceneEntry) -> Seq<Effect> {
    let w = entry.window_id;
    let size: Seq<Effect> = seq![Effect::ProposeDimensions { window_id: w, width: entry.rect.width, height: entry.rect.height }];
    let ssd: Seq<Effect> = seq![Effect::UseSsd { window_id: w }];
    let fullscreen: Seq<Effect> = seq![Effect::Fullscreen { window_id: w, output_id: entry.output_id }];
    match last {
        None => (if entry.state is Fullscreen { fullscreen } else { size }) + (if entry.border.is_some() {
            ssd
        } else {
            Seq::empty()
        }),
        Some(l) => {
            let mode: Seq<Effect> = if l.state != entry.state {
                if entry.state is Fullscreen {
                    fullscreen
                } else if l.state is Fullscreen {
                    seq![Effect::ExitFullscreen { window_id: w }]
                } else {
                    Seq::empty()
                }
            } else {
                Seq::empty()
            };
            let resize: Seq<Effect> = if l.rect != entry.rect && !(entry.state is Fullscreen) {
                size
            } else {
                Seq::empty()
            };
            let decorate: Seq<Effect> = if l.border.is_none() && entry.border.is_some() {
                ssd
            } else {
                Seq::empty()
            };
            mode + resize + decorate
        },
    }
}

fn rect_eq(a: Rect, b: Rect) -> (r: bool)
    ensures
        r == (a == b),
{
    a.x == b.x && a.y == b.y && a.width == b.width && a.height == b.height
}

fn border_eq(a: Option<Border>, b: Option<Border>) -> (r: bool)
    ensures
        r == (a == b),
{
    match (a, b) {
        (Some(x), Some(y)) => x.0 == y.0 && x.1 == y.1 && x.2 == y.2 && x.3 == y.3 && x.4 == y.4 && x.5 == y.5,
        (None, None) => true,
        _ => false,
    }
}

/// Compute the manage-phase requests for one window (see
/// [`spec_manage_effects`]).
pub fn manage_effects(last: Option<&SceneEntry>, entry: &SceneEntry) -> (r: Vec<Effect>)
    ensures
        r@ == spec_manage_effects(
            match last {
                Some(l) => Some(*l),
                None => None,
            },
            *entry,
        ),
{
    let w = entry.window_id;
    let is_fullscreen = entry.state.is_fullscreen();
    let mut effects: Vec<Effect> = Vec::new();
    match last {
        None => {
            if is_fullscreen {
                effects.push(Effect::Fullscreen { window_id: w, output_id: entry.output_id });
            } else {
                effects.push(Effect::ProposeDimensions { window_id: w, width: entry.rect.width, height: entry.rect.height });
            }
            if entry.border.is_some() {
                effects.push(Effect::UseSsd { window_id: w });
            }
        },
        Some(l) => {
            if !state_eq(&l.state, &entry.state) {
                if is_fullscreen {
                    effects.push(Effect::Fullscreen { window_id: w, output_id: entry.output_id });
                } else if l.state.is_fullscreen() {
                    effects.push(Effect::ExitFullscreen { window_id: w });
                }
            }
            let ghost after_mode = effects@;
            if !rect_eq(l.rect, entry.rect) && !is_fullscreen {
                effects.push(Effect::ProposeDimensions { window_id: w, width: entry.rect.width, height: entry.rect.height });
            }
            let ghost after_resize = effects@;
            if l.border.is_none() && entry.border.is_some() {
                effects.push(Effect::UseSsd { window_id: w });
            }
        },
    }
    let ghost spec = spec_manage_effects(
        match last {
            Some(l) => Some(*l),
            None => None,
        },
        *entry,
    );
    assert(effects@ =~= spec);
    effects
}

/// Whether stacking key `a` is above `b` (lexicographically greater).
pub open spec fn spec_z_above(a: (u8, u8, u32), b: (u8, u8, u32)) -> bool {
    a.0 > b.0 || (a.0 == b.0 && (a.1 > b.1 || (a.1 == b.1 && a.2 > b.2)))
}

/// The render-phase requests for one window: a render node when it has
/// none; then, for a window in the desired scene, its position, raising and
/// borders — all of them the first time it is shown, afterwards the
/// position when the rect changed (once it has a node), a raise when a
/// floating or fullscreen window moves up the stack, and the borders when
/// they changed.
pub open spec fn spec_render_effects(
    window_id: WindowId,
    has_node: bool,
    last: Option<SceneEntry>,
    entry: Option<SceneEntry>,
) -> Seq<Effect> {
    let node: Seq<Effect> = if has_node { Seq::empty() } else { seq![Effect::EnsureNode { window_id }] };
    match entry {
        None => node,
        Some(e) => {
            let raisable = e.state is Floating || e.state is Fullscreen;
            let position: Seq<Effect> = seq![Effect::SetPosition { window_id, x: e.rect.x, y: e.rect.y }];
            let raise: Seq<Effect> = seq![Effect::PlaceTop { window_id }];
            let borders: Seq<Effect> = match e.border {
                Some(b) => seq![Effect::SetBorders { window_id, edges: b.0, width: b.1, r: b.2, g: b.3, b: b.4, a: b.5 }],
                None => Seq::empty(),
            };
            match last {
                None => node + position + (if raisable { raise } else { Seq::empty() }) + borders,
                Some(l) => node + (if has_node && l.rect != e.rect { position } else { Seq::empty() }) + (
                if spec_z_above(e.z, l.z) && raisable {
                    raise
                } else {
                    Seq::empty()
                }) + (if l.border != e.border { borders } else { Seq::empty() }),
            }
        },
    }
}

/// Compute the render-phase requests for one window (see
/// [`spec_render_effects`]).
pub fn render_effects(
    window_id: WindowId,
    has_node: bool,
    last: Option<&SceneEntry>,
    entry: Option<&SceneEntry>,
) -> (r: Vec<Effect>)
    ensures
        r@ == spec_render_effects(
            window_id,
            has_node,
            match last {
                Some(l) => Some(*l),
                None => None,
            },
            match entry {
                Some(e) => Some(*e),
                None => None,
            },
        ),
{
    let mut effects: Vec<Effect> = Vec::new();
    if !has_node {
        effects.push(Effect::EnsureNode { window_id });
    }
    let e = match entry {
        Some(e) => e,
        None => return effects,
    };
    let raisable = e.state.is_floating() || e.state.is_fullscreen();
    let ghost node = effects@;
    match last {
        None => {
            effects.push(Effect::SetPosition { window_id, x: e.rect.x, y: e.rect.y });
            if raisable {
                effects.push(Effect::PlaceTop { window_id });
            }
            let ghost before_borders = effects@;
            if let Some(b) = e.border {
                effects.push(Effect::SetBorders { window_id, edges: b.0, width: b.1, r: b.2, g: b.3, b: b.4, a: b.5 });
            }
        },
        Some(l) => {
            if has_node && !rect_eq(l.rect, e.rect) {
                effects.push(Effect::SetPosition { window_id, x: e.rect.x, y: e.rect.y });
            }
            let ghost after_position = effects@;
            let above = e.z.0 > l.z.0 || (e.z.0 == l.z.0 && (e.z.1 > l.z.1 || (e.z.1 == l.z.1 && e.z.2 > l.z.2)));
            if above && raisable {
                effects.push(Effect::PlaceTop { window_id });
            }
            let ghost after_raise = effects@;
            if !border_eq(l.border, e.border) {
                if let Some(b) = e.border {
                    effects.push(Effect::SetBorders { window_id, edges: b.0, width: b.1, r: b.2, g: b.3, b: b.4, a: b.5 });
                }
            }
        },
    }
    let ghost spec = spec_render_effects(
        window_id,
        has_node,
        match last {
            Some(l) => Some(*l),
            None => None,
        },
        match entry {
            Some(x) => Some(*x),
            None => None,
        },
    );
    assert(effects@ =~= spec);
    effects
}


/// The stacking bands rise from tiled and pseudo-tiled windows, through
/// floating ones, to fullscreen ones: for any floating rect `r`, tiled and
/// pseudo-tiled sizes `p` and restore states `s`, fullscreen lies strictly
/// above floating, which lies strictly above tiled and pseudo-tiled, and
/// sorting by stacking key puts the higher band over the lower whatever
/// the focus and the identifiers.
pub proof fn law_mode_bands_rise(r: Rect, p: Rect, s: WindowState, f: Option<WindowId>, a: WindowId, b: WindowId)
    ensures
        spec_mode_priority(WindowState::Fullscreen { restore: Box::new(s) }) > spec_mode_priority(
            WindowState::Floating { rect: r },
        ),
        spec_mode_priority(WindowState::Floating { rect: r }) > spec_mode_priority(WindowState::Tiled),
        spec_mode_priority(WindowState::Floating { rect: r }) > spec_mode_priority(
            WindowState::PseudoTiled { rect: p },
        ),
        spec_z_above(
            spec_render_stack_priority(Some(WindowState::Fullscreen { restore: Box::new(s) }), f, a),
            spec_render_stack_priority(Some(WindowState::Floating { rect: r }), f, b),
        ),
        spec_z_above(
            spec_render_stack_priority(Some(WindowState::Floating { rect: r }), f, a),
            spec_render_stack_priority(Some(WindowState::Tiled), f, b),
        ),
{
}

} // verus!
