//! Window rules applied to a window once its identifying metadata is known.
use crate::geometry::{Rect, WindowState, clone_state, opt_state_eq};
use crate::rules::{WindowRule, opt_str_view, spec_rule_matches, spec_rule_pending};
use crate::schema::{opt_as_str, opt_string_view};
use crate::tree::{LayoutTree, lemma_after_set_state};
use crate::window::Window;
use vstd::prelude::*;

verus! {

/// An ordered list of window rules; a later matching rule overrides an
/// earlier one.
#[derive(Debug, Clone)]
pub struct WindowRules {
    pub rules: Vec<WindowRule>,
}

/// `s`, or the empty string when unknown.
pub open spec fn spec_or_empty(s: Option<Seq<char>>) -> Seq<char> {
    match s {
        Some(v) => v,
        None => Seq::empty(),
    }
}

/// Whether a rule applies to a window with this metadata: it does not wait
/// for metadata, and its criteria match (unknown fields read as empty).
pub open spec fn spec_rule_applies(rule: WindowRule, app_id: Option<Seq<char>>, title: Option<Seq<char>>) -> bool {
    !spec_rule_pending(rule, app_id, title) && spec_rule_matches(
        rule,
        spec_or_empty(app_id),
        spec_or_empty(title),
    )
}

/// The state a rule sets: floating and pseudo-tiled targets take the rule's
/// rect, or the window's pseudo-tiled rect when the rule gives none.
pub open spec fn spec_rule_target(rule: WindowRule, pseudo_rect: Rect) -> WindowState {
    let rect = match rule.floating_rect {
        Some(r) => r,
        None => pseudo_rect,
    };
    match rule.target {
        WindowState::Floating { .. } => WindowState::Floating { rect },
        WindowState::PseudoTiled { .. } => WindowState::PseudoTiled { rect },
        other => other,
    }
}

/// The tree after applying, in order, every rule of `rules` that applies to
/// window `id`, and whether any did.
pub open spec fn spec_apply_rules(
    rules: Seq<WindowRule>,
    app_id: Option<Seq<char>>,
    title: Option<Seq<char>>,
    pseudo_rect: Rect,
    t: LayoutTree,
    id: u32,
) -> (LayoutTree, bool)
    decreases rules.len(),
{
    if rules.len() == 0 {
        (t, false)
    } else {
        let (t1, applied) = spec_apply_rules(rules.drop_last(), app_id, title, pseudo_rect, t, id);
        let rule = rules.last();
        if spec_rule_applies(rule, app_id, title) {
            (t1.after_set_state(id, spec_rule_target(rule, pseudo_rect)).0, true)
        } else {
            (t1, applied)
        }
    }
}

/// The tree after rules turned window `id` fullscreen: the state to return
/// to becomes the state the window had before the rules (tiled when it had
/// none), unless that state was fullscreen itself.
pub open spec fn spec_fix_restore(t: LayoutTree, id: u32, before: Option<WindowState>) -> LayoutTree {
    match t.state_of(id) {
        Some(WindowState::Fullscreen { restore }) => if before matches Some(WindowState::Fullscreen { .. }) {
            t.after_set_state(id, WindowState::Fullscreen { restore }).0
        } else {
            t.after_set_state(
                id,
                WindowState::Fullscreen {
                    restore: Box::new(
                        match before {
                            Some(b) => b,
                            None => WindowState::Tiled,
                        },
                    ),
                },
            ).0
        },
        _ => t,
    }
}

impl WindowRules {
    /// Build a rule matcher from an ordered list of rules.
    pub fn new(rules: Vec<WindowRule>) -> (r: WindowRules)
        ensures
            r.rules@ == rules@,
    {
        WindowRules { rules }
    }

    /// The window, the tree and the result after evaluating the rules for a
    /// window (`ratio` in permyriad). A window whose rules were applied is
    /// left alone. Otherwise every applying rule sets the window's state in
    /// order; the window counts as done once no rule waits for metadata; a
    /// window turned fullscreen keeps its earlier state to return to; the
    /// result says whether the window's state changed.
    pub open spec fn spec_evaluate(self, window: Window, t: LayoutTree, fallback: Rect, ratio: int) -> (
        Window,
        LayoutTree,
        bool,
    ) {
        if window.rules_applied {
            (window, t, false)
        } else {
            let app_id = opt_string_view(window.app_id);
            let title = opt_string_view(window.title);
            let id = window.id.0;
            let before = t.state_of(id);
            let pseudo = window.spec_pseudo_tiled_rect(fallback, ratio);
            let (t1, applied) = spec_apply_rules(self.rules@, app_id, title, pseudo, t, id);
            let pending = exists|i: int|
                0 <= i < self.rules@.len() && spec_rule_pending(#[trigger] self.rules@[i], app_id, title);
            let w1 = Window { rules_applied: !pending, ..window };
            if !applied {
                (w1, t1, false)
            } else {
                let t2 = spec_fix_restore(t1, id, before);
                (w1, t2, t2.state_of(id) != before)
            }
        }
    }

    /// Apply every rule that matches the window (see
    /// [`WindowRules::spec_evaluate`]); returns whether its state changed.
    pub fn evaluate(&self, window: &mut Window, tree: &mut LayoutTree, fallback: Rect, ratio: u32) -> (r: bool)
        requires
            old(tree).wf(),
        ensures
            final(tree).wf(),
            (*final(window), *final(tree), r) == self.spec_evaluate(*old(window), *old(tree), fallback, ratio as int),
    {
        if window.rules_applied {
            return false;
        }
        let ghost t0 = *tree;
        let ghost app_v = opt_string_view(window.app_id);
        let ghost title_v = opt_string_view(window.title);
        let id = window.id.0;
        let before: Option<WindowState> = match tree.window_state(id) {
            Some(s) => Some(clone_state(s)),
            None => None,
        };
        let pseudo = window.pseudo_tiled_rect(fallback, ratio);
        let mut applied = false;
        let mut pending = false;
        let mut i: usize = 0;
        while i < self.rules.len()
            invariant
                i <= self.rules.len(),
                tree.wf(),
                app_v == opt_string_view(window.app_id),
                title_v == opt_string_view(window.title),
                id == window.id.0,
                (*tree, applied) == spec_apply_rules(self.rules@.take(i as int), app_v, title_v, pseudo, t0, id),
                pending == exists|j: int| 0 <= j < i && spec_rule_pending(#[trigger] self.rules@[j], app_v, title_v),
            decreases self.rules.len() - i,
        {
            let rule = &self.rules[i];
            let app_id = opt_as_str(&window.app_id);
            let title = opt_as_str(&window.title);
            proof {
                assert(self.rules@.take(i + 1).drop_last() =~= self.rules@.take(i as int));
                assert(self.rules@.take(i + 1).last() == self.rules@[i as int]);
            }
            let waits = rule.is_pending_metadata(app_id, title);
            if waits {
                pending = true;
            } else {
                let app_str = match app_id {
                    Some(a) => a,
                    None => "",
                };
                let title_str = match title {
                    Some(t) => t,
                    None => "",
                };
                proof {
                    reveal_strlit("");
                    assert(app_str@ == spec_or_empty(app_v));
                    assert(title_str@ == spec_or_empty(title_v));
                }
                if rule.matches(app_str, title_str) {
                    let rect = match rule.floating_rect {
                        Some(r) => r,
                        None => pseudo,
                    };
                    let target = match &rule.target {
                        WindowState::Floating { .. } => WindowState::Floating { rect },
                        WindowState::PseudoTiled { .. } => WindowState::PseudoTiled { rect },
                        other => clone_state(other),
                    };
                    proof {
                        lemma_after_set_state(*tree, id, target);
                    }
                    tree.set_window_state(id, target);
                    applied = true;
                }
            }
            i = i + 1;
        }
        proof {
            assert(self.rules@.take(self.rules@.len() as int) =~= self.rules@);
        }
        window.rules_applied = !pending;
        if !applied {
            return false;
        }
        let ghost t1 = *tree;
        let current: Option<WindowState> = match tree.window_state(id) {
            Some(s) => Some(clone_state(s)),
            None => None,
        };
        match current {
            Some(WindowState::Fullscreen { restore }) => {
                let was_fullscreen = match &before {
                    Some(WindowState::Fullscreen { .. }) => true,
                    _ => false,
                };
                let next = if was_fullscreen {
                    WindowState::Fullscreen { restore }
                } else {
                    let restore_state = match &before {
                        Some(b) => clone_state(b),
                        None => WindowState::Tiled,
                    };
                    WindowState::Fullscreen { restore: Box::new(restore_state) }
                };
                proof {
                    lemma_after_set_state(*tree, id, next);
                }
                tree.set_window_state(id, next);
            },
            _ => {},
        }
        let after = tree.window_state(id);
        let before_ref = match &before {
            Some(b) => Some(b),
            None => None,
        };
        !opt_state_eq(after, before_ref)
    }
}

/// Applying rules keeps the tree well formed, its windows and its focus.
pub proof fn lemma_apply_rules_keeps(
    rules: Seq<WindowRule>,
    app_id: Option<Seq<char>>,
    title: Option<Seq<char>>,
    pseudo_rect: Rect,
    t: LayoutTree,
    id: u32,
)
    requires
        t.wf(),
    ensures
        spec_apply_rules(rules, app_id, title, pseudo_rect, t, id).0.wf(),
        forall|y: u32| #[trigger] spec_apply_rules(rules, app_id, title, pseudo_rect, t, id).0.has_window(y) == t.has_window(y),
        spec_apply_rules(rules, app_id, title, pseudo_rect, t, id).0.focused == t.focused,
    decreases rules.len(),
{
    if rules.len() > 0 {
        lemma_apply_rules_keeps(rules.drop_last(), app_id, title, pseudo_rect, t, id);
        let t1 = spec_apply_rules(rules.drop_last(), app_id, title, pseudo_rect, t, id).0;
        lemma_after_set_state(t1, id, spec_rule_target(rules.last(), pseudo_rect));
    }
}

/// All rules that apply to a window take effect in order, and the later
/// wins: the window's state afterwards is the one set by the last rule that
/// applies.
pub proof fn law_last_applying_rule_wins(
    rules: Seq<WindowRule>,
    app_id: Option<Seq<char>>,
    title: Option<Seq<char>>,
    pseudo_rect: Rect,
    t: LayoutTree,
    id: u32,
    k: int,
)
    requires
        t.wf(),
        t.has_window(id),
        0 <= k < rules.len(),
        spec_rule_applies(rules[k], app_id, title),
        forall|j: int| k < j < rules.len() ==> !spec_rule_applies(#[trigger] rules[j], app_id, title),
    ensures
        spec_apply_rules(rules, app_id, title, pseudo_rect, t, id).0.state_of(id) == Some(
            spec_rule_target(rules[k], pseudo_rect),
        ),
        spec_apply_rules(rules, app_id, title, pseudo_rect, t, id).1,
    decreases rules.len(),
{
    let prev = rules.drop_last();
    lemma_apply_rules_keeps(prev, app_id, title, pseudo_rect, t, id);
    let t1 = spec_apply_rules(prev, app_id, title, pseudo_rect, t, id).0;
    if k == rules.len() - 1 {
        lemma_after_set_state(t1, id, spec_rule_target(rules[k], pseudo_rect));
    } else {
        assert(!spec_rule_applies(rules[rules.len() - 1], app_id, title));
        assert forall|j: int| k < j < prev.len() implies !spec_rule_applies(#[trigger] prev[j], app_id, title) by {
            assert(prev[j] == rules[j]);
        }
        law_last_applying_rule_wins(prev, app_id, title, pseudo_rect, t, id, k);
    }
}

} // verus!
