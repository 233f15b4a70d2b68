//! The scene the window manager wants shown, computed from its state: one
//! entry per arranged window of every known output, with the rectangle,
//! stacking key and border the window should have.
use crate::geometry::{Rect, WindowState, clone_state};
use crate::output::OutputId;
use crate::scene::{SceneEntry, scene_entry, spec_scene_entry, spec_window_border, window_border};
use crate::tree::LayoutTree;
use crate::window::WindowId;
use crate::wm::{WMState, lemma_found_at, output_key, window_key};
use vstd::prelude::*;

verus! {

impl WMState {
    /// Width of the borders the window manager draws, 0 when unset.
    pub open spec fn spec_border_width(self) -> i32 {
        match self.appearance.border_width {
            Some(w) => w,
            None => 0,
        }
    }

    /// Colour of the focused border, opaque white when unset.
    pub open spec fn spec_focused_argb(self) -> u32 {
        match self.appearance.border_color_focused {
            Some(c) => c,
            None => 0xffff_ffffu32,
        }
    }

    /// Colour of the unfocused border, opaque white when unset.
    pub open spec fn spec_unfocused_argb(self) -> u32 {
        match self.appearance.border_color_unfocused {
            Some(c) => c,
            None => 0xffff_ffffu32,
        }
    }

    /// The colour `argb` of an ordinary border as `(r, g, b, a)`: scaled
    /// to full 32-bit channels (see [`crate::config::spec_argb_to_rgba`])
    /// once a configuration is loaded; with none loaded, borders are opaque
    /// white in 8-bit channels, `(0xff, 0xff, 0xff, 0xff)`.
    pub open spec fn spec_border_rgba(self, argb: u32) -> (u32, u32, u32, u32) {
        match self.layout_config {
            Some(_) => crate::config::spec_argb_to_rgba(argb),
            None => (0xff, 0xff, 0xff, 0xff),
        }
    }

    /// The colour of an ordinary border (see
    /// [`WMState::spec_border_rgba`]).
    fn border_rgba(&self, argb: u32) -> (r: (u32, u32, u32, u32))
        ensures
            r == self.spec_border_rgba(argb),
    {
        match self.layout_config {
            Some(_) => crate::config::argb_to_rgba(argb),
            None => (0xff, 0xff, 0xff, 0xff),
        }
    }

    /// The scene entry of window `id`, arranged at `rect` in `state` on
    /// output `o` whose full rectangle is `full`, for a window known as
    /// `w`: see [`spec_scene_entry`] and [`spec_window_border`], the
    /// preview of a pending split taking the configured preview colour and
    /// width.
    pub open spec fn spec_entry_for(
        self,
        o: OutputId,
        full: Option<Rect>,
        w: crate::window::Window,
        id: u32,
        rect: Rect,
        state: WindowState,
    ) -> SceneEntry {
        let focused = self.focus.focused_window == Some(id);
        let border = spec_window_border(
            w.spec_use_client_decorations(self.appearance.decorations),
            focused,
            self.pending_split,
            self.spec_border_width(),
            self.spec_focused_argb(),
            self.spec_border_rgba(self.spec_focused_argb()),
            self.spec_border_rgba(self.spec_unfocused_argb()),
            match self.layout_config {
                Some(c) => c.preview_border_color,
                None => None,
            },
            match self.layout_config {
                Some(c) => c.preview_border_width,
                None => None,
            },
        );
        let fw = match self.focus.focused_window {
            Some(f) => Some(WindowId(f)),
            None => None,
        };
        spec_scene_entry(WindowId(id), o, rect, state, full, fw, border)
    }

    /// The scene entries of the arranged windows `es` of output `o` (full
    /// rectangle `full`), in order, leaving out windows that are not known.
    pub open spec fn spec_entries_scene(
        self,
        o: OutputId,
        full: Option<Rect>,
        es: Seq<(u32, Rect, WindowState)>,
    ) -> Seq<SceneEntry>
        decreases es.len(),
    {
        if es.len() == 0 {
            Seq::empty()
        } else {
            let r = self.spec_entries_scene(o, full, es.drop_last());
            let (id, rect, state) = es.last();
            match self.window(WindowId(id)) {
                Some(w) => r.push(self.spec_entry_for(o, full, w, id, rect, state)),
                None => r,
            }
        }
    }

    /// The scene of the trees `ts`, in order, leaving out the trees of
    /// outputs that are not known.
    pub open spec fn spec_trees_scene(self, ts: Seq<(OutputId, LayoutTree)>) -> Seq<SceneEntry>
        decreases ts.len(),
    {
        if ts.len() == 0 {
            Seq::empty()
        } else {
            let r = self.spec_trees_scene(ts.drop_last());
            let (o, t) = ts.last();
            match self.output(o) {
                Some(out) => r + self.spec_entries_scene(o, out.spec_rect(), t.entries()),
                None => r,
            }
        }
    }

    /// The scene entries of the arranged windows `es` (see
    /// [`WMState::spec_entries_scene`]), appended to `scene`.
    fn push_entries_scene(
        &self,
        o: OutputId,
        full: Option<Rect>,
        es: &Vec<(u32, Rect, WindowState)>,
        scene: &mut Vec<SceneEntry>,
    )
        ensures
            final(scene)@ == old(scene)@ + self.spec_entries_scene(o, full, es@),
    {
        let ghost start = scene@;
        let decorations = self.appearance.decorations;
        let border_width = match self.appearance.border_width {
            Some(w) => w,
            None => 0,
        };
        let focused_argb = match self.appearance.border_color_focused {
            Some(c) => c,
            None => 0xffff_ffffu32,
        };
        let unfocused_argb = match self.appearance.border_color_unfocused {
            Some(c) => c,
            None => 0xffff_ffffu32,
        };
        let focused_rgba = self.border_rgba(focused_argb);
        let unfocused_rgba = self.border_rgba(unfocused_argb);
        let (preview_color, preview_width) = match self.layout_config {
            Some(c) => (c.preview_border_color, c.preview_border_width),
            None => (None, None),
        };
        let fw = match self.focus.focused_window {
            Some(f) => Some(WindowId(f)),
            None => None,
        };
        let mut k: usize = 0;
        proof {
            assert(es@.take(0) =~= Seq::<(u32, Rect, WindowState)>::empty());
            assert(start + Seq::<SceneEntry>::empty() =~= start);
        }
        while k < es.len()
            invariant
                k <= es@.len(),
                scene@ == start + self.spec_entries_scene(o, full, es@.take(k as int)),
                decorations == self.appearance.decorations,
                border_width == self.spec_border_width(),
                focused_argb == self.spec_focused_argb(),
                unfocused_argb == self.spec_unfocused_argb(),
                focused_rgba == self.spec_border_rgba(self.spec_focused_argb()),
                unfocused_rgba == self.spec_border_rgba(self.spec_unfocused_argb()),
                preview_color == (match self.layout_config {
                    Some(c) => c.preview_border_color,
                    None => None,
                }),
                preview_width == (match self.layout_config {
                    Some(c) => c.preview_border_width,
                    None => None,
                }),
                fw == (match self.focus.focused_window {
                    Some(f) => Some(WindowId(f)),
                    None => None,
                }),
            decreases es@.len() - k,
        {
            let id = es[k].0;
            let rect = es[k].1;
            proof {
                assert(es@.take(k + 1).drop_last() =~= es@.take(k as int));
                assert(es@.take(k + 1).last() == es@[k as int]);
            }
            match self.find_window(WindowId(id)) {
                Some(wi) => {
                    let state = clone_state(&es[k].2);
                    let focused = match self.focus.focused_window {
                        Some(f) => f == id,
                        None => false,
                    };
                    let border = window_border(
                        self.windows[wi].use_client_decorations(decorations),
                        focused,
                        self.pending_split,
                        border_width,
                        focused_argb,
                        focused_rgba,
                        unfocused_rgba,
                        preview_color,
                        preview_width,
                    );
                    let entry = scene_entry(WindowId(id), o, rect, state, full, fw, border);
                    proof {
                        assert(entry == self.spec_entry_for(o, full, self.windows@[wi as int], id, rect, es@[k as int].2));
                    }
                    scene.push(entry);
                    proof {
                        assert(scene@ =~= start + self.spec_entries_scene(o, full, es@.take(k + 1)));
                    }
                },
                None => {
                    proof {
                        assert(scene@ =~= start + self.spec_entries_scene(o, full, es@.take(k + 1)));
                    }
                },
            }
            k = k + 1;
        }
        proof {
            assert(es@.take(es@.len() as int) =~= es@);
        }
    }

    /// The scene the window manager wants shown (see
    /// [`WMState::spec_trees_scene`]): each known output's tree as it was
    /// last arranged, fullscreen windows over the whole output.
    pub fn desired_scene(&self) -> (r: Vec<SceneEntry>)
        ensures
            r@ == self.spec_trees_scene(self.output_trees@),
    {
        let mut scene: Vec<SceneEntry> = Vec::new();
        let mut k: usize = 0;
        while k < self.output_trees.len()
            invariant
                k <= self.output_trees@.len(),
                scene@ == self.spec_trees_scene(self.output_trees@.take(k as int)),
            decreases self.output_trees@.len() - k,
        {
            let o = self.output_trees[k].0;
            proof {
                assert(self.output_trees@.take(k + 1).drop_last() =~= self.output_trees@.take(k as int));
                assert(self.output_trees@.take(k + 1).last() == self.output_trees@[k as int]);
            }
            match self.find_output(o) {
                Some(oi) => {
                    let full = self.outputs[oi].rect();
                    let es = self.output_trees[k].1.arranged_windows_readonly();
                    self.push_entries_scene(o, full, &es, &mut scene);
                },
                None => {},
            }
            k = k + 1;
        }
        proof {
            assert(self.output_trees@.take(self.output_trees@.len() as int) =~= self.output_trees@);
        }
        scene
    }
}

} // verus!
