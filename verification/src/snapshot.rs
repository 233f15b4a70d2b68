//! What clients querying the window manager are told: its windows, its
//! outputs and its focus, as plain records (their encoding for the wire is
//! the caller's business).
use crate::geometry::{Rect, WindowState};
use crate::output::{Output, OutputId};
use crate::scene::state_tag;
use crate::window::WindowId;
use crate::wm::WMState;
use vstd::prelude::*;

verus! {

/// A window as reported to clients: its identifier, output, title and
/// application identifier (empty when unknown), process identifier (0 when
/// unknown), rectangle as last arranged and layout state name.
#[derive(Debug)]
pub struct WindowSnapshot {
    pub id: u32,
    pub output_id: u32,
    pub title: String,
    pub app_id: String,
    pub pid: i32,
    pub rect: Rect,
    pub state: &'static str,
}

/// The fields of a window snapshot as plain values.
pub type WindowSnapshotView = (u32, u32, Seq<char>, Seq<char>, i32, Rect, Seq<char>);

impl View for WindowSnapshot {
    type V = WindowSnapshotView;

    open spec fn view(&self) -> WindowSnapshotView {
        (self.id, self.output_id, self.title@, self.app_id@, self.pid, self.rect, self.state@)
    }
}

/// An output as reported to clients: its identifier, full rectangle and
/// tiling area (when known), and the window its tree has focused.
#[derive(Debug, Clone, Copy, PartialEq, Eq)]
pub struct OutputSnapshot {
    pub id: u32,
    pub rect: Option<Rect>,
    pub work_area: Option<Rect>,
    pub focused_window: Option<u32>,
}

/// The focus as reported to clients: the focused window, the focused
/// output and the focus stack.
#[derive(Debug)]
pub struct FocusSnapshot {
    pub window_id: Option<u32>,
    pub output_id: Option<u32>,
    pub focus_stack: Vec<u32>,
}

/// The name clients see for a layout state.
pub open spec fn spec_state_name(s: WindowState) -> Seq<char> {
    match s {
        WindowState::Tiled => "tiled"@,
        WindowState::Floating { .. } => "floating"@,
        WindowState::PseudoTiled { .. } => "pseudo_tiled"@,
        WindowState::Fullscreen { .. } => "fullscreen"@,
    }
}

/// The text of an optional string, empty when there is none.
pub open spec fn spec_text_or_empty(s: Option<String>) -> Seq<char> {
    match s {
        Some(t) => t@,
        None => Seq::empty(),
    }
}

fn text_or_empty(s: &Option<String>) -> (r: String)
    ensures
        r@ == spec_text_or_empty(*s),
{
    match s {
        Some(t) => t.clone(),
        None => String::new(),
    }
}

impl WMState {
    /// The snapshot of arranged entry `e` of output `o`'s tree.
    pub open spec fn spec_window_snapshot(self, o: OutputId, e: (u32, Rect, WindowState)) -> WindowSnapshotView {
        let w = self.window(WindowId(e.0));
        (
            e.0,
            o.0,
            match w {
                Some(w) => spec_text_or_empty(w.title),
                None => Seq::empty(),
            },
            match w {
                Some(w) => spec_text_or_empty(w.app_id),
                None => Seq::empty(),
            },
            match w {
                Some(w) => w.pid,
                None => 0,
            },
            e.1,
            spec_state_name(e.2),
        )
    }

    /// The window snapshots of the trees of outputs `outs`, output by
    /// output, each tree's windows in arrangement order.
    pub open spec fn spec_windows_snapshot(self, outs: Seq<Output>) -> Seq<WindowSnapshotView>
        decreases outs.len(),
    {
        if outs.len() == 0 {
            Seq::empty()
        } else {
            let o = outs.last().id;
            self.spec_windows_snapshot(outs.drop_last()) + match self.tree(o) {
                Some(t) => Seq::new(t.entries().len(), |i: int| self.spec_window_snapshot(o, t.entries()[i])),
                None => Seq::empty(),
            }
        }
    }

    /// The snapshot of output `out`.
    pub open spec fn spec_output_snapshot(self, out: Output) -> OutputSnapshot {
        OutputSnapshot {
            id: out.id.0,
            rect: out.spec_rect(),
            work_area: out.spec_tiling_rect(),
            focused_window: match self.tree(out.id) {
                Some(t) => t.focused,
                None => None,
            },
        }
    }

    fn window_snapshot(&self, o: OutputId, id: u32, rect: Rect, state: &WindowState) -> (r: WindowSnapshot)
        ensures
            r@ == self.spec_window_snapshot(o, (id, rect, *state)),
    {
        let (title, app_id, pid) = match self.find_window(WindowId(id)) {
            Some(wi) => {
                let w = &self.windows[wi];
                (text_or_empty(&w.title), text_or_empty(&w.app_id), w.pid)
            },
            None => (String::new(), String::new(), 0i32),
        };
        WindowSnapshot { id, output_id: o.0, title, app_id, pid, rect, state: state_tag(state) }
    }

    /// Snapshot the windows of every known output that has a tree (see
    /// [`WMState::spec_windows_snapshot`]).
    pub fn snapshot_windows(&self) -> (r: Vec<WindowSnapshot>)
        ensures
            r@.map_values(|s: WindowSnapshot| s@) == self.spec_windows_snapshot(self.outputs@),
    {
        let mut r: Vec<WindowSnapshot> = Vec::new();
        let mut i: usize = 0;
        assert(self.outputs@.take(0) =~= Seq::<Output>::empty());
        while i < self.outputs.len()
            invariant
                i <= self.outputs@.len(),
                r@.map_values(|s: WindowSnapshot| s@) == self.spec_windows_snapshot(self.outputs@.take(i as int)),
            decreases self.outputs@.len() - i,
        {
            proof {
                assert(self.outputs@.take(i + 1).drop_last() =~= self.outputs@.take(i as int));
                assert(self.outputs@.take(i + 1).last() == self.outputs@[i as int]);
            }
            let o = self.outputs[i].id;
            let ghost before = r@.map_values(|s: WindowSnapshot| s@);
            match self.find_tree(o) {
                Some(ti) => {
                    let es = self.output_trees[ti].1.arranged_windows_readonly();
                    let ghost t = self.output_trees@[ti as int].1;
                    assert(self.tree(o) == Some(t));
                    let mut k: usize = 0;
                    while k < es.len()
                        invariant
                            k <= es@.len(),
                            es@ == t.entries(),
                            r@.map_values(|s: WindowSnapshot| s@) == before + Seq::new(
                                k as nat,
                                |j: int| self.spec_window_snapshot(o, t.entries()[j]),
                            ),
                        decreases es@.len() - k,
                    {
                        let e = &es[k];
                        let snap = self.window_snapshot(o, e.0, e.1, &e.2);
                        let ghost prev = r@;
                        r.push(snap);
                        proof {
                            assert(r@.map_values(|s: WindowSnapshot| s@) =~= prev.map_values(|s: WindowSnapshot| s@).push(snap@));
                            assert(before + Seq::new(
                                (k + 1) as nat,
                                |j: int| self.spec_window_snapshot(o, t.entries()[j]),
                            ) =~= (before + Seq::new(
                                k as nat,
                                |j: int| self.spec_window_snapshot(o, t.entries()[j]),
                            )).push(self.spec_window_snapshot(o, t.entries()[k as int])));
                        }
                        k = k + 1;
                    }
                },
                None => {
                    assert(before + Seq::<WindowSnapshotView>::empty() =~= before);
                },
            }
            i = i + 1;
        }
        assert(self.outputs@.take(self.outputs@.len() as int) =~= self.outputs@);
        r
    }

    /// Snapshot every known output, in order (see
    /// [`WMState::spec_output_snapshot`]).
    pub fn snapshot_outputs(&self) -> (r: Vec<OutputSnapshot>)
        ensures
            r@ == self.outputs@.map_values(|o: Output| self.spec_output_snapshot(o)),
    {
        let mut r: Vec<OutputSnapshot> = Vec::new();
        let mut i: usize = 0;
        while i < self.outputs.len()
            invariant
                i <= self.outputs@.len(),
                r@ == self.outputs@.take(i as int).map_values(|o: Output| self.spec_output_snapshot(o)),
            decreases self.outputs@.len() - i,
        {
            let out = &self.outputs[i];
            let focused_window = match self.find_tree(out.id) {
                Some(ti) => self.output_trees[ti].1.focused_window(),
                None => None,
            };
            r.push(OutputSnapshot { id: out.id.0, rect: out.rect(), work_area: out.tiling_rect(), focused_window });
            assert(self.outputs@.take(i + 1).map_values(|o: Output| self.spec_output_snapshot(o))
                =~= self.outputs@.take(i as int).map_values(|o: Output| self.spec_output_snapshot(o)).push(
                self.spec_output_snapshot(self.outputs@[i as int]),
            ));
            i = i + 1;
        }
        assert(self.outputs@.take(self.outputs@.len() as int) =~= self.outputs@);
        r
    }

    /// Snapshot the focus: the focused window and output, and the focus
    /// stack as it stands.
    pub fn snapshot_focused(&self) -> (r: FocusSnapshot)
        ensures
            r.window_id == self.focus.focused_window,
            r.output_id == (match self.focused_output {
                Some(o) => Some(o.0),
                None => None,
            }),
            r.focus_stack@ == self.focus.stack@,
    {
        let mut stack: Vec<u32> = Vec::new();
        let mut i: usize = 0;
        while i < self.focus.stack.len()
            invariant
                i <= self.focus.stack@.len(),
                stack@ == self.focus.stack@.take(i as int),
            decreases self.focus.stack@.len() - i,
        {
            stack.push(self.focus.stack[i]);
            assert(self.focus.stack@.take(i + 1) =~= self.focus.stack@.take(i as int).push(self.focus.stack@[i as int]));
            i = i + 1;
        }
        assert(self.focus.stack@.take(self.focus.stack@.len() as int) =~= self.focus.stack@);
        FocusSnapshot {
            window_id: self.focus.focused_window,
            output_id: match self.focused_output {
                Some(o) => Some(o.0),
                None => None,
            },
            focus_stack: stack,
        }
    }
}

} // verus!
