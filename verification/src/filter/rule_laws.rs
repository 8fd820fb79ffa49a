//! How texts become rules, and which rule decides.

use vstd::prelude::*;

use crate::error::FilterErrorView;
use crate::filter::files::{rules_among, said_lines};
use crate::filter::pattern::{pattern_matches, pattern_of};
use crate::filter::rule::{
    option_rules, passes, rule_of, rule_with, rules_from, FilterAction, RuleSource, RuleView,
};
use crate::text::{line_end, starts_with, trimmed, trimmed_end, trimmed_start};

verus! {

/// Whether a character of a rule's text counts as white space.
pub open spec fn blank(c: char) -> bool {
    let n = c as u32;
    9 <= n <= 13 || n == 0x20 || n == 0x85 || n == 0xA0 || n == 0x1680 || 0x2000 <= n <= 0x200A || n
        == 0x2028 || n == 0x2029 || n == 0x202F || n == 0x205F || n == 0x3000
}

/// Nothing but white space.
pub open spec fn all_blank(s: Seq<char>) -> bool {
    forall|i: int| 0 <= i < s.len() ==> blank(#[trigger] s[i])
}

/// No white space at either end.
pub open spec fn tight(s: Seq<char>) -> bool {
    s.len() > 0 ==> !blank(s[0]) && !blank(s.last())
}

/// A text without the white space at its ends is what stands between them.
pub proof fn trimming_drops_the_ends(a: Seq<char>, t: Seq<char>, b: Seq<char>)
    requires
        all_blank(a),
        all_blank(b),
        tight(t),
    ensures
        trimmed(a + t + b) == t,
{
    if t.len() > 0 {
        starts_dropped(a, t + b);
        assert(a + t + b =~= a + (t + b));
        ends_dropped(t, b);
    } else {
        assert(a + t + b =~= (a + b) + Seq::<char>::empty());
        starts_dropped(a + b, Seq::empty());
        assert(trimmed_end(Seq::<char>::empty()) =~= t);
    }
}

proof fn starts_dropped(a: Seq<char>, t: Seq<char>)
    requires
        all_blank(a),
        t.len() > 0 ==> !blank(t[0]),
    ensures
        trimmed_start(a + t) == t,
    decreases a.len(),
{
    if a.len() > 0 {
        assert((a + t)[0] == a[0]);
        assert((a + t).skip(1) =~= a.skip(1) + t);
        starts_dropped(a.skip(1), t);
    } else {
        assert(a + t =~= t);
    }
}

proof fn ends_dropped(t: Seq<char>, b: Seq<char>)
    requires
        all_blank(b),
        t.len() > 0 ==> !blank(t.last()),
    ensures
        trimmed_end(t + b) == t,
    decreases b.len(),
{
    if b.len() > 0 {
        assert((t + b).last() == b.last());
        assert((t + b).drop_last() =~= t + b.drop_last());
        ends_dropped(t, b.drop_last());
    } else {
        assert(t + b =~= t);
    }
}

/// `- P` and `exclude P` exclude what the pattern matches, `+ P` and `include P`
/// let it pass.
pub proof fn prefixes_say_what_a_rule_does(p: Seq<char>)
    requires
        p.len() > 0,
        tight(p),
    ensures
        rule_of(seq!['-', ' '] + p) == rule_with(FilterAction::Exclude, p),
        rule_of(seq!['+', ' '] + p) == rule_with(FilterAction::Include, p),
        rule_of(seq!['e', 'x', 'c', 'l', 'u', 'd', 'e', ' '] + p) == rule_with(
            FilterAction::Exclude,
            p,
        ),
        rule_of(seq!['i', 'n', 'c', 'l', 'u', 'd', 'e', ' '] + p) == rule_with(
            FilterAction::Include,
            p,
        ),
{
    reveal_strlit("- ");
    reveal_strlit("+ ");
    reveal_strlit("exclude ");
    reveal_strlit("include ");
    prefix_is_cut(seq!['-', ' '], p);
    prefix_is_cut(seq!['+', ' '], p);
    prefix_is_cut(seq!['e', 'x', 'c', 'l', 'u', 'd', 'e', ' '], p);
    prefix_is_cut(seq!['i', 'n', 'c', 'l', 'u', 'd', 'e', ' '], p);
    assert("- "@ =~= seq!['-', ' ']);
    assert("+ "@ =~= seq!['+', ' ']);
    assert("exclude "@ =~= seq!['e', 'x', 'c', 'l', 'u', 'd', 'e', ' ']);
    assert("include "@ =~= seq!['i', 'n', 'c', 'l', 'u', 'd', 'e', ' ']);
    other_start("- "@, seq!['+', ' '] + p);
    other_start("- "@, "exclude "@ + p);
    other_start("- "@, "include "@ + p);
    other_start("+ "@, "exclude "@ + p);
    other_start("+ "@, "include "@ + p);
    other_start("exclude "@, "include "@ + p);
}

proof fn prefix_is_cut(h: Seq<char>, p: Seq<char>)
    requires
        p.len() > 0,
        h.len() > 0,
        !blank(h[0]),
        tight(p),
    ensures
        trimmed(h + p) == h + p,
        starts_with(h + p, h),
        (h + p).skip(h.len() as int) == p,
        trimmed(p) == p,
{
    let e = Seq::<char>::empty();
    trimming_drops_the_ends(e, h + p, e);
    trimming_drops_the_ends(e, p, e);
    assert(e + (h + p) + e =~= h + p);
    assert(e + p + e =~= p);
    assert((h + p).take(h.len() as int) =~= h);
    assert((h + p).skip(h.len() as int) =~= p);
}

proof fn other_start(h: Seq<char>, t: Seq<char>)
    requires
        h.len() > 0,
        t.len() > 0,
        h[0] != t[0],
    ensures
        !starts_with(t, h),
{
    if h.len() <= t.len() {
        assert(t.take(h.len() as int)[0] == t[0]);
    }
}

/// A text that says neither is no rule.
pub proof fn other_texts_are_no_rules(s: Seq<char>)
    requires
        tight(s),
        s.len() > 0,
        s[0] != '-' && s[0] != '+' && s[0] != 'e' && s[0] != 'i',
    ensures
        rule_of(s) == Err::<RuleView, FilterErrorView>(FilterErrorView::InvalidRule { rule: s }),
{
    let e = Seq::<char>::empty();
    trimming_drops_the_ends(e, s, e);
    assert(e + s + e =~= s);
    reveal_strlit("- ");
    reveal_strlit("+ ");
    reveal_strlit("exclude ");
    reveal_strlit("include ");
    other_start("- "@, s);
    other_start("+ "@, s);
    other_start("exclude "@, s);
    other_start("include "@, s);
}

/// A rule has the action that was asked for and the pattern of its text.
pub proof fn rule_has_action_and_pattern(action: FilterAction, p: Seq<char>)
    ensures
        rule_with(action, p) is Ok <==> pattern_of(p) is Ok,
        rule_with(action, p) is Ok ==> rule_with(action, p)->Ok_0.action == action && rule_with(
            action,
            p,
        )->Ok_0.pattern == pattern_of(p)->Ok_0,
        rule_with(action, p) is Err ==> rule_with(action, p)->Err_0 == pattern_of(p)->Err_0,
{
}

/// The first rule that matches decides; where none does, everything passes.
pub proof fn rules_decide_in_order(
    r: RuleView,
    rules: Seq<RuleView>,
    path: Seq<u8>,
    is_dir: bool,
)
    ensures
        passes(Seq::empty(), path, is_dir),
        pattern_matches(r.pattern, path, is_dir) && r.action == FilterAction::Include ==> passes(
            seq![r] + rules,
            path,
            is_dir,
        ),
        pattern_matches(r.pattern, path, is_dir) && r.action == FilterAction::Exclude ==> !passes(
            seq![r] + rules,
            path,
            is_dir,
        ),
        !pattern_matches(r.pattern, path, is_dir) ==> passes(seq![r] + rules, path, is_dir)
            == passes(rules, path, is_dir),
{
    assert((seq![r] + rules).skip(1) =~= rules);
}

/// Rules given by options come in this order: rule texts, includes, excludes. One
/// text is one rule, and the first bad one is reported.
pub proof fn given_rules_have_an_order(
    x: Seq<Seq<char>>,
    i: Seq<Seq<char>>,
    f: Seq<Seq<char>>,
    t: Seq<char>,
)
    ensures
        ({
            let none = Seq::<Seq<char>>::empty();
            let a = option_rules(none, none, f);
            let b = option_rules(none, i, none);
            let c = option_rules(x, none, none);
            let all = option_rules(x, i, f);
            &&& a is Ok && b is Ok && c is Ok ==> all is Ok && all->Ok_0 == a->Ok_0 + b->Ok_0
                + c->Ok_0
            &&& a is Err ==> all is Err && all->Err_0 == a->Err_0
            &&& a is Ok && b is Err ==> all is Err && all->Err_0 == b->Err_0
            &&& a is Ok && b is Ok && c is Err ==> all is Err && all->Err_0 == c->Err_0
        }),
        one_rule(option_rules(seq![t], Seq::empty(), Seq::empty()), rule_with(
            FilterAction::Exclude,
            t,
        )),
        one_rule(option_rules(Seq::empty(), seq![t], Seq::empty()), rule_with(
            FilterAction::Include,
            t,
        )),
        one_rule(option_rules(Seq::empty(), Seq::empty(), seq![t]), rule_of(t)),
{
    reveal_with_fuel(rules_from, 2);
    let none = Seq::<Seq<char>>::empty();
    assert(seq![t].drop_last() =~= none);
    let e = Seq::<RuleView>::empty();
    for_each_source(f, RuleSource::Rules);
    for_each_source(i, RuleSource::Includes);
    for_each_source(x, RuleSource::Excludes);
    for_each_source(seq![t], RuleSource::Rules);
    for_each_source(seq![t], RuleSource::Includes);
    for_each_source(seq![t], RuleSource::Excludes);
}

/// One rule in a list, or its error.
pub open spec fn one_rule(
    rules: Result<Seq<RuleView>, FilterErrorView>,
    rule: Result<RuleView, FilterErrorView>,
) -> bool {
    match rule {
        Ok(r) => rules is Ok && rules->Ok_0 == seq![r],
        Err(e) => rules is Err && rules->Err_0 == e,
    }
}

proof fn for_each_source(texts: Seq<Seq<char>>, source: RuleSource)
    ensures
        rules_from(source, texts) is Ok ==> {
            let r = rules_from(source, texts)->Ok_0;
            let e = Seq::<RuleView>::empty();
            e + r == r && r + e == r && e.push(r[0]) == seq![r[0]]
        },
        rules_from(source, Seq::empty()) == Ok::<Seq<RuleView>, FilterErrorView>(Seq::empty()),
{
    if rules_from(source, texts) is Ok {
        let r = rules_from(source, texts)->Ok_0;
        let e = Seq::<RuleView>::empty();
        assert(e + r =~= r);
        assert(r + e =~= r);
        assert(e.push(r[0]) =~= seq![r[0]]);
    }
}

/// Texts become rules in order; a bad one is reported unless one before it is.
pub proof fn texts_become_rules_in_order(texts: Seq<Seq<char>>, t: Seq<char>)
    ensures
        ({
            let before = option_rules(texts, Seq::empty(), Seq::empty());
            let all = option_rules(texts.push(t), Seq::empty(), Seq::empty());
            let one = rule_with(FilterAction::Exclude, t);
            &&& before is Ok && one is Ok ==> all is Ok && all->Ok_0 == before->Ok_0.push(
                one->Ok_0,
            )
            &&& before is Err ==> all is Err && all->Err_0 == before->Err_0
            &&& before is Ok && one is Err ==> all is Err && all->Err_0 == one->Err_0
        }),
{
    assert(texts.push(t).drop_last() =~= texts);
    for_each_source(texts, RuleSource::Excludes);
    for_each_source(texts.push(t), RuleSource::Excludes);
    for_each_source(texts, RuleSource::Rules);
    for_each_source(texts, RuleSource::Includes);
}

/// Of the lines of a directory's own filter file those that are rules count, in
/// order; the others are passed over.
pub proof fn bad_lines_are_passed_over(texts: Seq<Seq<char>>, t: Seq<char>)
    ensures
        rules_among(Seq::empty()).len() == 0,
        rule_of(t) is Ok ==> rules_among(texts.push(t)) == rules_among(texts).push(
            rule_of(t)->Ok_0,
        ),
        rule_of(t) is Err ==> rules_among(texts.push(t)) == rules_among(texts),
{
    assert(texts.push(t).drop_last() =~= texts);
}

/// A line of a filter file says what is left of it without white space, unless
/// that is nothing or a comment. Comments begin with `#` or `;`.
pub proof fn comments_say_nothing(s: Seq<char>)
    requires
        forall|i: int| 0 <= i < s.len() ==> s[i] != '\n',
    ensures
        ({
            let t = trimmed(s);
            &&& t.len() == 0 || t[0] == '#' || t[0] == ';' ==> said_lines(s, 0).len() == 0
            &&& t.len() > 0 && t[0] != '#' && t[0] != ';' ==> said_lines(s, 0) == seq![t]
        }),
{
    if s.len() > 0 {
        whole_line(s, 0);
        assert(s.subrange(0, s.len() as int) =~= s);
        assert(said_lines(s, s.len() as int + 1) =~= Seq::empty());
        assert(seq![trimmed(s)] + Seq::<Seq<char>>::empty() =~= seq![trimmed(s)]);
    } else {
        assert(trimmed(s) =~= s);
    }
}

proof fn whole_line(s: Seq<char>, i: int)
    requires
        0 <= i <= s.len(),
        forall|j: int| 0 <= j < s.len() ==> s[j] != '\n',
    ensures
        line_end(s, i) == s.len(),
    decreases s.len() - i,
{
    if i < s.len() {
        whole_line(s, i + 1);
    }
}

/// Lines count each for itself: what two texts with a line end between them say
/// is what the one says and what the other says.
pub proof fn lines_say_apart(a: Seq<char>, b: Seq<char>)
    ensures
        said_lines(a + seq!['\n'] + b, 0) == said_lines(a, 0) + said_lines(b, 0),
{
    said_before(a, b, 0);
}

proof fn line_end_shifts(s: Seq<char>, b: Seq<char>, k: int, i: int)
    requires
        0 <= k,
        s.len() == k + b.len(),
        s.skip(k) == b,
        0 <= i <= b.len(),
    ensures
        line_end(s, k + i) == k + line_end(b, i),
    decreases b.len() - i,
{
    if i < b.len() {
        assert(b[i] == s.skip(k)[i]);
        if b[i] != '\n' {
            line_end_shifts(s, b, k, i + 1);
        }
    }
}

proof fn said_behind(s: Seq<char>, b: Seq<char>, k: int, i: int)
    requires
        0 <= k,
        s.len() == k + b.len(),
        s.skip(k) == b,
        0 <= i,
    ensures
        said_lines(s, k + i) == said_lines(b, i),
    decreases b.len() + 1 - i,
{
    if i < b.len() {
        line_end_shifts(s, b, k, i);
        crate::text::line_end_bound(b, i);
        let e = line_end(b, i);
        assert(s.subrange(k + i, k + e) =~= b.subrange(i, e));
        said_behind(s, b, k, e + 1);
    }
}

proof fn said_before(a: Seq<char>, b: Seq<char>, i: int)
    requires
        0 <= i <= a.len() + 1,
    ensures
        said_lines(a + seq!['\n'] + b, i) == said_lines(a, i) + said_lines(b, 0),
    decreases a.len() + 1 - i,
{
    let s = a + seq!['\n'] + b;
    assert(s.skip(a.len() as int + 1) =~= b);
    if i == a.len() + 1 {
        said_behind(s, b, a.len() as int + 1, 0);
        assert(said_lines(a, i) + said_lines(b, 0) =~= said_lines(b, 0));
    } else {
        line_end_before(a, b, i);
        let e = line_end(a, i);
        crate::text::line_end_bound(s, i);
        assert(s.subrange(i, e) =~= a.subrange(i, e));
        said_before(a, b, e + 1);
        if i == a.len() {
            assert(s.subrange(i, e) =~= Seq::<char>::empty());
            assert(trimmed(Seq::<char>::empty()) =~= Seq::<char>::empty());
        }
        let line = trimmed(s.subrange(i, e));
        let rest = said_lines(a, e + 1);
        assert((seq![line] + rest) + said_lines(b, 0) =~= seq![line] + (rest + said_lines(b, 0)));
        assert(said_lines(a, i) + said_lines(b, 0) =~= said_lines(s, i));
    }
}

proof fn line_end_before(a: Seq<char>, b: Seq<char>, i: int)
    requires
        0 <= i <= a.len(),
    ensures
        line_end(a + seq!['\n'] + b, i) == line_end(a, i),
        i <= line_end(a, i) <= a.len(),
    decreases a.len() - i,
{
    let s = a + seq!['\n'] + b;
    if i == a.len() {
        assert(s[i] == '\n');
    } else {
        assert(s[i] == a[i]);
        if a[i] != '\n' {
            line_end_before(a, b, i + 1);
        }
    }
}

} // verus!
