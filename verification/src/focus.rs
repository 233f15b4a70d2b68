//! Focus bookkeeping: the most-recently-focused stack of windows, the
//! focused window, and the focus still to be sent to the compositor.
use vstd::prelude::*;

verus! {

/// `s` without any occurrence of `id`, in order.
pub open spec fn spec_without(s: Seq<u32>, id: u32) -> Seq<u32> {
    s.filter(|x: u32| x != id)
}

/// The focus stack and the focus pointers kept with it.
#[derive(Debug, Clone)]
pub struct FocusState {
    /// Windows by most recent focus, most recent first.
    pub stack: Vec<u32>,
    /// The focused window.
    pub focused_window: Option<u32>,
    /// A window whose focus is still to be sent to the compositor.
    pub pending_focus: Option<u32>,
}

/// `v` without any occurrence of `id`, in order.
fn without(v: &Vec<u32>, id: u32) -> (r: Vec<u32>)
    ensures
        r@ == spec_without(v@, id),
{
    let mut out: Vec<u32> = Vec::new();
    let mut i: usize = 0;
    while i < v.len()
        invariant
            i <= v.len(),
            out@ == spec_without(v@.take(i as int), id),
        decreases v.len() - i,
    {
        proof {
            assert(v@.take(i + 1).drop_last() =~= v@.take(i as int));
            assert(v@.take(i + 1).last() == v@[i as int]);
            reveal(Seq::filter);
        }
        if v[i] != id {
            out.push(v[i]);
        }
        i = i + 1;
    }
    proof {
        assert(v@.take(v@.len() as int) =~= v@);
    }
    out
}

/// `t.push(v)` holds `x` exactly when `t` does or `v` is `x`.
proof fn lemma_push_contains(t: Seq<u32>, v: u32, x: u32)
    ensures
        t.push(v).contains(x) == (t.contains(x) || v == x),
{
    if t.contains(x) {
        let i = choose|i: int| 0 <= i < t.len() && t[i] == x;
        assert(t.push(v)[i] == x);
    }
    if v == x {
        assert(t.push(v)[t.len() as int] == x);
    }
    if t.push(v).contains(x) {
        let i = choose|i: int| 0 <= i < t.push(v).len() && t.push(v)[i] == x;
        if i < t.len() {
            assert(t[i] == x);
        }
    }
}

/// Filtering keeps exactly the elements other than `id`.
pub proof fn lemma_without_contains(s: Seq<u32>, id: u32, x: u32)
    ensures
        spec_without(s, id).contains(x) == (s.contains(x) && x != id),
    decreases s.len(),
{
    reveal(Seq::filter);
    if s.len() > 0 {
        let init = s.drop_last();
        lemma_without_contains(init, id, x);
        assert(s =~= init.push(s.last()));
        lemma_push_contains(init, s.last(), x);
        if s.last() != id {
            lemma_push_contains(spec_without(init, id), s.last(), x);
        }
    } else {
        assert(spec_without(s, id) =~= Seq::<u32>::empty());
    }
}

impl FocusState {
    /// No focus at all.
    pub fn new() -> (r: FocusState)
        ensures
            r.stack@.len() == 0,
            r.focused_window is None,
            r.pending_focus is None,
    {
        FocusState { stack: Vec::new(), focused_window: None, pending_focus: None }
    }

    /// Move `id` to the top of the stack and make it the focused window.
    pub fn push_focus(&mut self, id: u32)
        ensures
            final(self).stack@ == seq![id] + spec_without(old(self).stack@, id),
            final(self).focused_window == Some(id),
            final(self).pending_focus == old(self).pending_focus,
    {
        let rest = without(&self.stack, id);
        let mut stack: Vec<u32> = Vec::new();
        stack.push(id);
        let mut i: usize = 0;
        while i < rest.len()
            invariant
                i <= rest.len(),
                stack@ == seq![id] + rest@.take(i as int),
            decreases rest.len() - i,
        {
            stack.push(rest[i]);
            proof {
                assert(rest@.take(i + 1) =~= rest@.take(i as int).push(rest@[i as int]));
            }
            i = i + 1;
        }
        proof {
            assert(rest@.take(rest@.len() as int) =~= rest@);
        }
        self.stack = stack;
        self.focused_window = Some(id);
    }

    /// Forget `id`: it leaves the stack; when it was focused, focus goes to
    /// the new top of the stack (or nowhere); a pending focus on it follows.
    pub fn remove_focus_for_window(&mut self, id: u32)
        ensures
            final(self).stack@ == spec_without(old(self).stack@, id),
            final(self).focused_window == (if old(self).focused_window == Some(id) {
                if final(self).stack@.len() > 0 {
                    Some(final(self).stack@[0])
                } else {
                    None
                }
            } else {
                old(self).focused_window
            }),
            final(self).pending_focus == (if old(self).pending_focus == Some(id) {
                final(self).focused_window
            } else {
                old(self).pending_focus
            }),
    {
        self.stack = without(&self.stack, id);
        let was_focused = match self.focused_window {
            Some(f) => f == id,
            None => false,
        };
        if was_focused {
            self.focused_window = if self.stack.len() > 0 {
                Some(self.stack[0])
            } else {
                None
            };
        }
        let was_pending = match self.pending_focus {
            Some(p) => p == id,
            None => false,
        };
        if was_pending {
            self.pending_focus = self.focused_window;
        }
    }
}

/// Where focus goes when the focused window closes: the window its output's
/// layout now focuses, if that window is still known; else the focused
/// window after the stack was updated, if still known.
pub open spec fn spec_next_focus(layout_focus: Option<u32>, layout_known: bool, focused: Option<u32>, focused_known: bool) -> Option<u32> {
    if layout_focus.is_some() && layout_known {
        layout_focus
    } else if focused.is_some() && focused_known {
        focused
    } else {
        None
    }
}

/// Choose where focus goes when the focused window closes (see
/// [`spec_next_focus`]).
pub fn next_focus(layout_focus: Option<u32>, layout_known: bool, focused: Option<u32>, focused_known: bool) -> (r: Option<u32>)
    ensures
        r == spec_next_focus(layout_focus, layout_known, focused, focused_known),
{
    if layout_focus.is_some() && layout_known {
        layout_focus
    } else if focused.is_some() && focused_known {
        focused
    } else {
        None
    }
}

/// Focusing a window puts it on top of a stack that holds no window twice,
/// holds it once, and keeps every other window.
pub proof fn law_push_focus(stack: Seq<u32>, id: u32)
    requires
        stack.no_duplicates(),
    ensures
        ({
            let s = seq![id] + spec_without(stack, id);
            &&& s[0] == id
            &&& s.no_duplicates()
            &&& forall|x: u32| #[trigger] s.contains(x) == (stack.contains(x) || x == id)
        }),
{
    let w = spec_without(stack, id);
    let s = seq![id] + w;
    stack.filter_lemma(|y: u32| y != id);
    assert forall|x: u32| #[trigger] s.contains(x) == (stack.contains(x) || x == id) by {
        lemma_without_contains(stack, id, x);
        if w.contains(x) {
            let i = choose|i: int| 0 <= i < w.len() && w[i] == x;
            assert(s[i + 1] == x);
        }
        if s.contains(x) && x != id {
            let i = choose|i: int| 0 <= i < s.len() && s[i] == x;
            assert(w[i - 1] == x);
        }
        if x == id {
            assert(s[0] == x);
        }
    }
    lemma_filter_no_dups(stack, id);
    assert forall|i: int, j: int| 0 <= i < s.len() && 0 <= j < s.len() && i != j implies s[i] != s[j] by {
        if i == 0 && j > 0 {
            assert(w.contains(s[j]));
            lemma_without_contains(stack, id, s[j]);
        } else if j == 0 && i > 0 {
            assert(w.contains(s[i]));
            lemma_without_contains(stack, id, s[i]);
        } else if i > 0 && j > 0 {
            assert(w[i - 1] != w[j - 1]);
        }
    }
}

/// Filtering a stack without duplicates leaves none.
proof fn lemma_filter_no_dups(s: Seq<u32>, id: u32)
    requires
        s.no_duplicates(),
    ensures
        spec_without(s, id).no_duplicates(),
    decreases s.len(),
{
    reveal(Seq::filter);
    if s.len() > 0 {
        let init = s.drop_last();
        assert(init.no_duplicates());
        lemma_filter_no_dups(init, id);
        let w = spec_without(init, id);
        if s.last() != id {
            lemma_without_contains(init, id, s.last());
            assert(!init.contains(s.last())) by {
                if init.contains(s.last()) {
                    let k = choose|k: int| 0 <= k < init.len() && init[k] == s.last();
                    assert(s[k] == s[s.len() - 1]);
                }
            }
            assert forall|i: int, j: int| 0 <= i < w.push(s.last()).len() && 0 <= j < w.push(s.last()).len() && i != j implies w.push(s.last())[i] != w.push(s.last())[j] by {
                if i == w.len() {
                    assert(w.contains(w[j]));
                } else if j == w.len() {
                    assert(w.contains(w[i]));
                }
            }
        }
    }
}

/// Forgetting a window removes it from the stack and keeps the others in
/// their order.
pub proof fn law_remove_focus(stack: Seq<u32>, id: u32)
    ensures
        !spec_without(stack, id).contains(id),
        forall|x: u32| x != id ==> #[trigger] spec_without(stack, id).contains(x) == stack.contains(x),
{
    lemma_without_contains(stack, id, id);
    assert forall|x: u32| x != id implies #[trigger] spec_without(stack, id).contains(x) == stack.contains(x) by {
        lemma_without_contains(stack, id, x);
    }
}

} // verus!
