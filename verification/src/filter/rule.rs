//! Filter rules and the list that decides what is transferred.

use vstd::prelude::*;

use crate::error::{FilterError, FilterErrorView};
use crate::filter::pattern::{pattern_matches, pattern_of, Pattern, PatternView};
use crate::options::text_views;
use crate::text::{after_prefix, from_chars, has_prefix, starts_with, to_chars, trim, trimmed};

verus! {

/// Action to take when a filter rule matches.
#[derive(Debug, Clone, Copy, PartialEq, Eq, Structural)]
pub enum FilterAction {
    /// The file takes part in the transfer.
    Include,
    /// The file is left out of the transfer.
    Exclude,
}

/// A single filter rule: an action paired with a pattern.
#[derive(Debug, Clone)]
pub struct FilterRule {
    pub action: FilterAction,
    pub pattern: Pattern,
}

/// The view of a [`FilterRule`].
#[verifier::ext_equal]
pub struct RuleView {
    pub action: FilterAction,
    pub pattern: PatternView,
}

impl View for FilterRule {
    type V = RuleView;

    open spec fn view(&self) -> RuleView {
        RuleView { action: self.action, pattern: self.pattern@ }
    }
}

/// The action and the pattern text of a rule.
pub open spec fn rule_parts(s: Seq<char>) -> Option<(FilterAction, Seq<char>)> {
    let t = trimmed(s);
    if starts_with(t, "- "@) {
        Some((FilterAction::Exclude, trimmed(t.skip("- "@.len() as int))))
    } else if starts_with(t, "+ "@) {
        Some((FilterAction::Include, trimmed(t.skip("+ "@.len() as int))))
    } else if starts_with(t, "exclude "@) {
        Some((FilterAction::Exclude, trimmed(t.skip("exclude "@.len() as int))))
    } else if starts_with(t, "include "@) {
        Some((FilterAction::Include, trimmed(t.skip("include "@.len() as int))))
    } else {
        None
    }
}

/// The rule of an action and a pattern text.
pub open spec fn rule_with(action: FilterAction, pattern: Seq<char>) -> Result<
    RuleView,
    FilterErrorView,
> {
    match pattern_of(pattern) {
        Ok(pattern) => Ok(RuleView { action, pattern }),
        Err(e) => Err(e),
    }
}

/// The rule that a text denotes.
pub open spec fn rule_of(s: Seq<char>) -> Result<RuleView, FilterErrorView> {
    match rule_parts(s) {
        Some((action, pattern)) => rule_with(action, pattern),
        None => Err(FilterErrorView::InvalidRule { rule: trimmed(s) }),
    }
}

impl FilterRule {
    fn with(action: FilterAction, pattern: &str) -> (r: Result<FilterRule, FilterError>)
        ensures
            match r {
                Ok(v) => rule_with(action, pattern@) == Ok::<RuleView, FilterErrorView>(v@),
                Err(e) => rule_with(action, pattern@) == Err::<RuleView, FilterErrorView>(e@),
            },
    {
        match Pattern::new(pattern) {
            Ok(pattern) => Ok(FilterRule { action, pattern }),
            Err(e) => Err(e),
        }
    }

    /// Parse a filter rule from a string.
    ///
    /// Accepted formats:
    /// - `- pattern` and `exclude pattern`
    /// - `+ pattern` and the long form of it
    pub fn parse(s: &str) -> (r: Result<FilterRule, FilterError>)
        ensures
            match r {
                Ok(v) => rule_of(s@) == Ok::<RuleView, FilterErrorView>(v@),
                Err(e) => rule_of(s@) == Err::<RuleView, FilterErrorView>(e@),
            },
    {
        let chars = to_chars(s);
        let t = trim(chars.as_slice());
        let (action, rest): (FilterAction, &[char]) = if has_prefix(t, "- ") {
            (FilterAction::Exclude, after_prefix(t, "- "))
        } else if has_prefix(t, "+ ") {
            (FilterAction::Include, after_prefix(t, "+ "))
        } else if has_prefix(t, "exclude ") {
            (FilterAction::Exclude, after_prefix(t, "exclude "))
        } else if has_prefix(t, "include ") {
            (FilterAction::Include, after_prefix(t, "include "))
        } else {
            return Err(FilterError::InvalidRule { rule: from_chars(t) });
        };
        let pattern = from_chars(trim(rest));
        FilterRule::with(action, pattern.as_str())
    }

    /// A copy of this rule.
    pub fn copied(&self) -> (r: FilterRule)
        ensures
            r@ == self@,
    {
        FilterRule { action: self.action, pattern: self.pattern.copied() }
    }

    /// Test whether this rule matches a given path.
    pub fn matches(&self, path: &[u8], is_dir: bool) -> (r: bool)
        ensures
            r == pattern_matches(self@.pattern, path@, is_dir),
    {
        self.pattern.matches(path, is_dir)
    }
}

/// An ordered list of filter rules.
///
/// Rules are evaluated in order; the first matching rule determines the
/// outcome. If no rule matches, the file takes part in the transfer. Rules
/// that were added inside a scope leave the list with it.
#[derive(Debug, Clone)]
pub struct FilterRuleList {
    rules: Vec<FilterRule>,
    scopes: Vec<usize>,
}

/// The view of a [`FilterRuleList`]: its rules, and how many there were when
/// each open scope began.
#[verifier::ext_equal]
pub struct RuleListView {
    pub rules: Seq<RuleView>,
    pub scopes: Seq<usize>,
}

/// The views of rules.
pub open spec fn rule_views(s: Seq<FilterRule>) -> Seq<RuleView> {
    Seq::new(s.len(), |i: int| s[i]@)
}

impl View for FilterRuleList {
    type V = RuleListView;

    closed spec fn view(&self) -> RuleListView {
        RuleListView { rules: rule_views(self.rules@), scopes: self.scopes@ }
    }
}

/// A path takes part in the transfer: the first rule that matches it says so,
/// or no rule matches it.
pub open spec fn passes(rules: Seq<RuleView>, path: Seq<u8>, is_dir: bool) -> bool
    decreases rules.len(),
{
    if rules.len() == 0 {
        true
    } else if pattern_matches(rules[0].pattern, path, is_dir) {
        rules[0].action == FilterAction::Include
    } else {
        passes(rules.skip(1), path, is_dir)
    }
}

/// The first matching rule decides, whatever comes after it.
pub proof fn first_match_decides(rules: Seq<RuleView>, k: int, path: Seq<u8>, is_dir: bool)
    requires
        0 <= k < rules.len(),
        pattern_matches(rules[k].pattern, path, is_dir),
        forall|i: int|
            0 <= i < k ==> !pattern_matches(#[trigger] rules[i].pattern, path, is_dir),
    ensures
        passes(rules, path, is_dir) == (rules[k].action == FilterAction::Include),
    decreases k,
{
    if k > 0 {
        assert(!pattern_matches(rules[0].pattern, path, is_dir));
        let t = rules.skip(1);
        assert forall|i: int| 0 <= i < k - 1 implies !pattern_matches(
            #[trigger] t[i].pattern,
            path,
            is_dir,
        ) by {
            assert(t[i] == rules[i + 1]);
        }
        first_match_decides(t, k - 1, path, is_dir);
    }
}

/// Where no rule matches, a path takes part in the transfer.
pub proof fn no_match_passes(rules: Seq<RuleView>, path: Seq<u8>, is_dir: bool)
    requires
        forall|i: int|
            0 <= i < rules.len() ==> !pattern_matches(#[trigger] rules[i].pattern, path, is_dir),
    ensures
        passes(rules, path, is_dir),
    decreases rules.len(),
{
    if rules.len() > 0 {
        assert(!pattern_matches(rules[0].pattern, path, is_dir));
        let t = rules.skip(1);
        assert forall|i: int| 0 <= i < t.len() implies !pattern_matches(
            #[trigger] t[i].pattern,
            path,
            is_dir,
        ) by {
            assert(t[i] == rules[i + 1]);
        }
        no_match_passes(t, path, is_dir);
    }
}

/// The list with a new scope open.
pub open spec fn scope_begun(v: RuleListView) -> RuleListView {
    RuleListView { scopes: v.scopes.push(v.rules.len() as usize), ..v }
}

/// The list without its innermost scope.
pub open spec fn scope_ended(v: RuleListView) -> RuleListView {
    if v.scopes.len() == 0 {
        v
    } else {
        RuleListView {
            rules: if v.scopes.last() <= v.rules.len() {
                v.rules.take(v.scopes.last() as int)
            } else {
                v.rules
            },
            scopes: v.scopes.drop_last(),
        }
    }
}

/// How texts become rules.
pub enum RuleSource {
    /// Each text is a rule.
    Rules,
    /// Each text is a pattern that is let in.
    Includes,
    /// Each text is a pattern that is left out.
    Excludes,
}

/// The rule that a text denotes.
pub open spec fn rule_from(source: RuleSource, s: Seq<char>) -> Result<RuleView, FilterErrorView> {
    match source {
        RuleSource::Rules => rule_of(s),
        RuleSource::Includes => rule_with(FilterAction::Include, s),
        RuleSource::Excludes => rule_with(FilterAction::Exclude, s),
    }
}

/// The rules of a list of texts, or the error of the first that is none.
pub open spec fn rules_from(source: RuleSource, texts: Seq<Seq<char>>) -> Result<
    Seq<RuleView>,
    FilterErrorView,
>
    decreases texts.len(),
{
    if texts.len() == 0 {
        Ok(Seq::empty())
    } else {
        match rules_from(source, texts.drop_last()) {
            Err(e) => Err(e),
            Ok(rules) => match rule_from(source, texts.last()) {
                Err(e) => Err(e),
                Ok(rule) => Ok(rules.push(rule)),
            },
        }
    }
}

/// One list of rules and then another.
pub open spec fn rules_and(
    a: Result<Seq<RuleView>, FilterErrorView>,
    b: Result<Seq<RuleView>, FilterErrorView>,
) -> Result<Seq<RuleView>, FilterErrorView> {
    match a {
        Err(e) => Err(e),
        Ok(x) => match b {
            Err(e) => Err(e),
            Ok(y) => Ok(x + y),
        },
    }
}

/// The rules of a command line: filter rules first, then what is let in, then
/// what is left out.
pub open spec fn option_rules(
    excludes: Seq<Seq<char>>,
    includes: Seq<Seq<char>>,
    filters: Seq<Seq<char>>,
) -> Result<Seq<RuleView>, FilterErrorView> {
    rules_and(
        rules_and(
            rules_from(RuleSource::Rules, filters),
            rules_from(RuleSource::Includes, includes),
        ),
        rules_from(RuleSource::Excludes, excludes),
    )
}

/// The outcome of adding one rule.
pub open spec fn added(
    before: RuleListView,
    after: RuleListView,
    rule: Result<RuleView, FilterErrorView>,
    r: Result<(), FilterError>,
) -> bool {
    match r {
        Ok(_) => rule is Ok && after == (RuleListView {
            rules: before.rules.push(rule->Ok_0),
            ..before
        }),
        Err(e) => rule == Err::<RuleView, FilterErrorView>(e@) && after == before,
    }
}

impl FilterRuleList {
    pub fn new() -> (r: FilterRuleList)
        ensures
            r@.rules == Seq::<RuleView>::empty(),
            r@.scopes == Seq::<usize>::empty(),
    {
        let r = FilterRuleList { rules: Vec::new(), scopes: Vec::new() };
        assert(r@.rules =~= Seq::<RuleView>::empty());
        r
    }

    /// Add a rule behind the others.
    pub fn push(&mut self, rule: FilterRule)
        ensures
            final(self)@ == (RuleListView { rules: old(self)@.rules.push(rule@), ..old(self)@ }),
    {
        self.rules.push(rule);
        assert(self@.rules =~= old(self)@.rules.push(rule@));
    }

    /// Add the rules of another list behind the others.
    pub(crate) fn append(&mut self, more: FilterRuleList)
        ensures
            final(self)@ == (RuleListView {
                rules: old(self)@.rules + more@.rules,
                ..old(self)@
            }),
    {
        let mut rules = more.rules;
        self.rules.append(&mut rules);
        assert(self@.rules =~= old(self)@.rules + more@.rules);
    }

    fn push_result(&mut self, rule: Result<FilterRule, FilterError>) -> (r: Result<(), FilterError>)
        ensures
            match rule {
                Ok(v) => r is Ok && final(self)@ == (RuleListView {
                    rules: old(self)@.rules.push(v@),
                    ..old(self)@
                }),
                Err(e) => r == Err::<(), FilterError>(e) && final(self)@ == old(self)@,
            },
    {
        match rule {
            Ok(v) => {
                self.push(v);
                Ok(())
            },
            Err(e) => Err(e),
        }
    }

    /// Add an exclude pattern (from `--exclude`).
    pub fn add_exclude(&mut self, pattern: &str) -> (r: Result<(), FilterError>)
        ensures
            added(
                old(self)@,
                final(self)@,
                rule_with(FilterAction::Exclude, pattern@),
                r,
            ),
    {
        self.push_result(FilterRule::with(FilterAction::Exclude, pattern))
    }

    /// Add a pattern that is let in.
    pub fn add_include(&mut self, pattern: &str) -> (r: Result<(), FilterError>)
        ensures
            added(
                old(self)@,
                final(self)@,
                rule_with(FilterAction::Include, pattern@),
                r,
            ),
    {
        self.push_result(FilterRule::with(FilterAction::Include, pattern))
    }

    /// Add a filter rule string (from `--filter` / `-f`).
    pub fn add_rule(&mut self, rule: &str) -> (r: Result<(), FilterError>)
        ensures
            added(old(self)@, final(self)@, rule_of(rule@), r),
    {
        self.push_result(FilterRule::parse(rule))
    }

    pub(crate) fn add_all(&mut self, source: RuleSource, texts: &[String]) -> (r: Result<(), FilterError>)
        ensures
            match r {
                Ok(_) => {
                    let rules = rules_from(source, text_views(texts@));
                    rules is Ok && final(self)@ == (RuleListView {
                        rules: old(self)@.rules + rules->Ok_0,
                        ..old(self)@
                    })
                },
                Err(e) => rules_from(source, text_views(texts@)) == Err::<
                    Seq<RuleView>,
                    FilterErrorView,
                >(e@),
            },
    {
        let ghost all = text_views(texts@);
        let ghost had = self@;
        let mut i: usize = 0;
        proof {
            assert(all.take(0) =~= Seq::empty());
            assert(had.rules + Seq::<RuleView>::empty() =~= had.rules);
        }
        while i < texts.len()
            invariant
                i <= texts.len(),
                all == text_views(texts@),
                rules_from(source, all.take(i as int)) is Ok,
                self@ == (RuleListView {
                    rules: had.rules + rules_from(source, all.take(i as int))->Ok_0,
                    ..had
                }),
            decreases texts.len() - i,
        {
            let ghost so_far = rules_from(source, all.take(i as int))->Ok_0;
            let text = texts[i].as_str();
            let one = match source {
                RuleSource::Rules => FilterRule::parse(text),
                RuleSource::Includes => FilterRule::with(FilterAction::Include, text),
                RuleSource::Excludes => FilterRule::with(FilterAction::Exclude, text),
            };
            proof {
                let t = all.take(i + 1);
                assert(t.drop_last() =~= all.take(i as int));
                assert(t.last() == text@);
                if one is Err {
                    first_error_stays(source, all, i + 1);
                }
            }
            match one {
                Ok(v) => {
                    proof {
                        assert((had.rules + so_far).push(v@) =~= had.rules + so_far.push(v@));
                    }
                    self.push(v);
                },
                Err(e) => {
                    return Err(e);
                },
            }
            i = i + 1;
        }
        assert(all.take(i as int) =~= all);
        Ok(())
    }

    /// Build a filter rule list from the lists of a command line.
    pub fn from_options(
        excludes: &[String],
        includes: &[String],
        filters: &[String],
    ) -> (r: Result<FilterRuleList, FilterError>)
        ensures
            match r {
                Ok(list) => option_rules(
                    text_views(excludes@),
                    text_views(includes@),
                    text_views(filters@),
                ) == Ok::<Seq<RuleView>, FilterErrorView>(list@.rules) && list@.scopes
                    == Seq::<usize>::empty(),
                Err(e) => option_rules(
                    text_views(excludes@),
                    text_views(includes@),
                    text_views(filters@),
                ) == Err::<Seq<RuleView>, FilterErrorView>(e@),
            },
    {
        let mut list = FilterRuleList::new();
        match list.add_all(RuleSource::Rules, filters) {
            Err(e) => {
                return Err(e);
            },
            Ok(_) => {},
        }
        let ghost a = list@.rules;
        assert(a =~= rules_from(RuleSource::Rules, text_views(filters@))->Ok_0);
        match list.add_all(RuleSource::Includes, includes) {
            Err(e) => {
                return Err(e);
            },
            Ok(_) => {},
        }
        match list.add_all(RuleSource::Excludes, excludes) {
            Err(e) => Err(e),
            Ok(_) => Ok(list),
        }
    }

    /// Check whether a path takes part in the transfer.
    pub fn is_included(&self, path: &[u8], is_dir: bool) -> (r: bool)
        ensures
            r == passes(self@.rules, path@, is_dir),
    {
        let ghost rules = self@.rules;
        let mut i: usize = 0;
        assert(rules.skip(0) =~= rules);
        while i < self.rules.len()
            invariant
                i <= self.rules.len(),
                rules == rule_views(self.rules@),
                passes(rules, path@, is_dir) == passes(rules.skip(i as int), path@, is_dir),
            decreases self.rules.len() - i,
        {
            proof {
                assert(rules.skip(i as int)[0] == self.rules@[i as int]@);
                assert(rules.skip(i as int).skip(1) =~= rules.skip(i + 1));
            }
            if self.rules[i].matches(path, is_dir) {
                return match self.rules[i].action {
                    FilterAction::Include => true,
                    FilterAction::Exclude => false,
                };
            }
            i = i + 1;
        }
        true
    }

    /// Number of rules.
    pub fn len(&self) -> (r: usize)
        ensures
            r == self@.rules.len(),
    {
        self.rules.len()
    }

    /// Whether the rule list is empty.
    pub fn is_empty(&self) -> (r: bool)
        ensures
            r == (self@.rules.len() == 0),
    {
        self.rules.len() == 0
    }

    /// Begin a scope: what is added from here on leaves with it.
    pub fn push_scope(&mut self)
        ensures
            final(self)@ == scope_begun(old(self)@),
    {
        let n: usize = self.rules.len();
        self.scopes.push(n);
        assert(self@ =~= scope_begun(old(self)@));
    }

    /// End the innermost scope, and with it the rules that were added inside.
    pub fn pop_scope(&mut self)
        ensures
            final(self)@ == scope_ended(old(self)@),
    {
        match self.scopes.pop() {
            Some(n) => {
                if n <= self.rules.len() {
                    self.rules.truncate(n);
                    assert(self@.rules =~= old(self)@.rules.take(n as int));
                }
                assert(self@.scopes =~= old(self)@.scopes.drop_last());
            },
            None => {},
        }
    }
}

impl Default for FilterRuleList {
    fn default() -> (r: FilterRuleList)
        ensures
            r@.rules == Seq::<RuleView>::empty(),
            r@.scopes == Seq::<usize>::empty(),
    {
        FilterRuleList::new()
    }
}

/// A list that has failed stays failed, with the same error.
proof fn first_error_stays(source: RuleSource, texts: Seq<Seq<char>>, n: int)
    requires
        0 <= n <= texts.len(),
        rules_from(source, texts.take(n)) is Err,
    ensures
        rules_from(source, texts) == rules_from(source, texts.take(n)),
    decreases texts.len() - n,
{
    if n == texts.len() {
        assert(texts.take(n) =~= texts);
    } else {
        assert(texts.take(n + 1).drop_last() =~= texts.take(n));
        first_error_stays(source, texts, n + 1);
    }
}

/// A scope that begins, takes rules and ends leaves the list as it was.
pub proof fn scope_restores(before: RuleListView, inside: Seq<RuleView>)
    requires
        before.rules.len() <= usize::MAX,
    ensures
        scope_ended(
            (RuleListView { rules: before.rules + inside, ..scope_begun(before) }),
        ) == before,
{
    assert((before.rules + inside).take(before.rules.len() as int) =~= before.rules);
    assert(scope_begun(before).scopes.drop_last() =~= before.scopes);
}

} // verus!
