//! Window rules: criteria on a window's `app_id` / `title` and the state a
//! matching window is put into.
use crate::geometry::{Rect, WindowState};
use crate::text::{spec_starts_with, str_eq, str_starts_with};
use vstd::prelude::*;

verus! {

#[verifier::external_type_specification]
#[verifier::external_body]
pub struct ExRegex(regex::Regex);

/// Whether `pattern` compiles as a regular expression whose compiled form
/// stays within `size_limit` bytes (`regex::RegexBuilder::size_limit`).
pub uninterp spec fn regex_compiles(pattern: Seq<char>, size_limit: usize) -> bool;

/// Compiled-size limit for rule regular expressions: 1 MiB, so that a
/// pathological pattern is refused instead of compiled.
pub const RULE_REGEX_SIZE_LIMIT: usize = 1048576;

/// Whether `pattern` compiles as a rule regular expression (under
/// [`RULE_REGEX_SIZE_LIMIT`]).
pub open spec fn rule_regex_compiles(pattern: Seq<char>) -> bool {
    regex_compiles(pattern, RULE_REGEX_SIZE_LIMIT)
}

/// Whether the regular expression `pattern` matches somewhere in `input`
/// (unanchored search, the `regex` crate's `is_match`).
pub uninterp spec fn regex_accepts(pattern: Seq<char>, input: Seq<char>) -> bool;

/// Builds a `regex::Regex` from `source` through `regex::RegexBuilder` with
/// the given `size_limit`. Trusted: it yields a value exactly when the
/// pattern compiles under that limit ([`regex_compiles`]).
#[verifier::external_body]
fn compile_regex(source: &str, size_limit: usize) -> (r: Option<regex::Regex>)
    ensures
        r is Some == regex_compiles(source@, size_limit),
{
    regex::RegexBuilder::new(source).size_limit(size_limit).build().ok()
}

/// A compiled regular expression together with the source it was compiled
/// from. The only constructor compiles `source`, so `regex` always belongs
/// to `source`.
#[derive(Debug)]
pub struct CompiledRegex {
    source: String,
    regex: regex::Regex,
}

/// Calls `regex::Regex::clone`. Trusted only to return; nothing is said of
/// the copy, which is kept as the compiled form of the same source text.
#[verifier::external_body]
fn clone_compiled(re: &regex::Regex) -> regex::Regex {
    re.clone()
}

impl Clone for CompiledRegex {
    fn clone(&self) -> (r: Self)
        ensures
            r.source_text() == self.source_text(),
    {
        CompiledRegex { source: self.source.clone(), regex: clone_compiled(&self.regex) }
    }
}

impl CompiledRegex {
    /// The pattern text this regex was compiled from.
    pub closed spec fn source_text(&self) -> Seq<char> {
        self.source@
    }

    /// Compile `source`, or `None` when it does not compile.
    pub fn compile(source: &str) -> (r: Option<CompiledRegex>)
        ensures
            r is Some == rule_regex_compiles(source@),
            r matches Some(c) ==> c.source_text() == source@,
    {
        match compile_regex(source, RULE_REGEX_SIZE_LIMIT) {
            Some(regex) => Some(CompiledRegex { source: crate::text::to_owned_string(source), regex }),
            None => None,
        }
    }

    /// The pattern text this regex was compiled from.
    pub fn as_str(&self) -> (r: &str)
        ensures
            r@ == self.source_text(),
    {
        self.source.as_str()
    }
}

/// Calls `regex::Regex::is_match` on the compiled regex. Trusted: since the
/// regex was compiled from its stored source, the answer is
/// [`regex_accepts`] of that source and `input`.
#[verifier::external_body]
fn regex_is_match(re: &CompiledRegex, input: &str) -> (r: bool)
    ensures
        r == regex_accepts(re.source_text(), input@),
{
    re.regex.is_match(input)
}

/// How a single `app_id`/`title` criterion matches a window string.
#[derive(Debug, Clone)]
pub enum RulePattern {
    Exact(String),
    Prefix(String),
    Regex(CompiledRegex),
}

/// Whether `pattern` matches `s`: equality, prefix, or regex search.
pub open spec fn spec_pattern_matches(pattern: RulePattern, s: Seq<char>) -> bool {
    match pattern {
        RulePattern::Exact(p) => p@ == s,
        RulePattern::Prefix(p) => spec_starts_with(s, p@),
        RulePattern::Regex(r) => regex_accepts(r.source_text(), s),
    }
}

impl RulePattern {
    /// Build an `Exact` pattern: matched with equality.
    pub fn exact(s: &str) -> (r: RulePattern)
        ensures
            r matches RulePattern::Exact(p) && p@ == s@,
    {
        RulePattern::Exact(crate::text::to_owned_string(s))
    }

    /// Build a `Prefix` pattern: matched with `starts_with`.
    pub fn prefix(s: &str) -> (r: RulePattern)
        ensures
            r matches RulePattern::Prefix(p) && p@ == s@,
    {
        RulePattern::Prefix(crate::text::to_owned_string(s))
    }

    /// Build a `Regex` pattern; `None` if the pattern fails to compile.
    pub fn regex(s: &str) -> (r: Option<RulePattern>)
        ensures
            r is Some == rule_regex_compiles(s@),
            r matches Some(p) ==> p matches RulePattern::Regex(c) && c.source_text() == s@,
    {
        match CompiledRegex::compile(s) {
            Some(c) => Some(RulePattern::Regex(c)),
            None => None,
        }
    }

    pub fn matches(&self, s: &str) -> (r: bool)
        ensures
            r == spec_pattern_matches(*self, s@),
    {
        match self {
            RulePattern::Exact(p) => str_eq(p.as_str(), s),
            RulePattern::Prefix(p) => str_starts_with(s, p.as_str()),
            RulePattern::Regex(re) => regex_is_match(re, s),
        }
    }
}

/// A window rule: `None` criteria match anything.
#[derive(Debug, Clone)]
pub struct WindowRule {
    /// Criterion matched against the window's `app_id`.
    pub app_id: Option<RulePattern>,
    /// Criterion matched against the window's `title`.
    pub title: Option<RulePattern>,
    /// Desired window state.
    pub target: WindowState,
    /// Optional explicit rect for `floating` / `pseudo_tiled` targets.
    pub floating_rect: Option<Rect>,
}

/// A rule field matches when it has no pattern or its pattern matches.
pub open spec fn spec_field_matches(pattern: Option<RulePattern>, input: Seq<char>) -> bool {
    match pattern {
        Some(p) => spec_pattern_matches(p, input),
        None => true,
    }
}

/// A rule waits for metadata while a field it tests is still unknown.
pub open spec fn spec_rule_pending(
    rule: WindowRule,
    app_id: Option<Seq<char>>,
    title: Option<Seq<char>>,
) -> bool {
    (rule.app_id is Some && app_id is None) || (rule.title is Some && title is None)
}

pub open spec fn spec_rule_matches(rule: WindowRule, app_id: Seq<char>, title: Seq<char>) -> bool {
    spec_field_matches(rule.app_id, app_id) && spec_field_matches(rule.title, title)
}

fn field_matches(pattern: &Option<RulePattern>, input: &str) -> (r: bool)
    ensures
        r == spec_field_matches(*pattern, input@),
{
    match pattern {
        Some(p) => p.matches(input),
        None => true,
    }
}

/// View of an optional string slice.
pub open spec fn opt_str_view(s: Option<&str>) -> Option<Seq<char>> {
    match s {
        Some(v) => Some(v@),
        None => None,
    }
}

impl WindowRule {
    pub fn is_pending_metadata(&self, app_id: Option<&str>, title: Option<&str>) -> (r: bool)
        ensures
            r == spec_rule_pending(*self, opt_str_view(app_id), opt_str_view(title)),
    {
        (self.app_id.is_some() && app_id.is_none()) || (self.title.is_some() && title.is_none())
    }

    pub fn matches(&self, app_id: &str, title: &str) -> (r: bool)
        ensures
            r == spec_rule_matches(*self, app_id@, title@),
    {
        if !field_matches(&self.app_id, app_id) {
            return false;
        }
        if !field_matches(&self.title, title) {
            return false;
        }
        true
    }
}


/// A rule matches a window exactly when each criterion it sets matches:
/// an `app_id` or `title` pattern that is set and fails keeps the rule from
/// matching, whatever the other criterion does; a criterion left unset
/// matches anything.
pub proof fn law_rule_matches_every_set_criterion(rule: WindowRule, app_id: Seq<char>, title: Seq<char>)
    ensures
        spec_rule_matches(rule, app_id, title) == ((rule.app_id matches Some(p) ==> spec_pattern_matches(
            p,
            app_id,
        )) && (rule.title matches Some(q) ==> spec_pattern_matches(q, title))),
        rule.app_id matches Some(p) && !spec_pattern_matches(p, app_id) ==> !spec_rule_matches(rule, app_id, title),
        rule.title matches Some(q) && !spec_pattern_matches(q, title) ==> !spec_rule_matches(rule, app_id, title),
{
}

} // verus!
