//! Rules that stand in files.
//!
//! A file holds one rule or pattern on a line. Spaces around it do not count;
//! empty lines and lines that begin with `#` or `;` say nothing.

use vstd::prelude::*;

use crate::error::{FilterError, FilterErrorView};
use crate::filter::rule::{
    rule_of, rule_views, rules_from, FilterRule, FilterRuleList, RuleListView, RuleSource, RuleView,
};
use crate::options::text_views;
use crate::text::{
    from_chars, line_end, line_end_bound, lossy_string, lossy_text, to_chars, trim, trimmed,
};

verus! {

/// A line says something.
pub open spec fn says_something(line: Seq<char>) -> bool {
    line.len() > 0 && line[0] != '#' && line[0] != ';'
}

/// What the lines of a text say, from a place on.
pub open spec fn said_lines(s: Seq<char>, i: int) -> Seq<Seq<char>>
    decreases s.len() + 1 - i,
{
    if i < 0 || i >= s.len() {
        Seq::empty()
    } else {
        proof {
            line_end_bound(s, i);
        }
        let e = line_end(s, i);
        let line = trimmed(s.subrange(i, e));
        let rest = said_lines(s, e + 1);
        if says_something(line) {
            seq![line] + rest
        } else {
            rest
        }
    }
}

/// What the lines of a file say.
pub fn rule_lines(content: &[u8]) -> (r: Vec<String>)
    ensures
        text_views(r@) == said_lines(lossy_text(content@), 0),
{
    let text = lossy_string(content);
    let chars = to_chars(text.as_str());
    let ghost s = lossy_text(content@);
    let ghost all = said_lines(s, 0);
    let mut out: Vec<String> = Vec::new();
    let mut i: usize = 0;
    proof {
        assert(text_views(out@) =~= Seq::empty());
        assert(Seq::<Seq<char>>::empty() + all =~= all);
    }
    while i < chars.len()
        invariant
            i <= chars.len(),
            chars@ == s,
            s == lossy_text(content@),
            all == said_lines(s, 0),
            all == text_views(out@) + said_lines(s, i as int),
        decreases chars.len() - i,
    {
        let start: usize = i;
        proof {
            line_end_bound(s, start as int);
        }
        while i < chars.len() && chars[i] != '\n'
            invariant
                start <= i <= chars.len(),
                chars@ == s,
                line_end(s, start as int) == line_end(s, i as int),
            decreases chars.len() - i,
        {
            i = i + 1;
        }
        let line = trim(vstd::slice::slice_subrange(chars.as_slice(), start, i));
        let ghost had = text_views(out@);
        let ghost rest = said_lines(s, i + 1);
        if line.len() > 0 && line[0] != '#' && line[0] != ';' {
            let said = from_chars(line);
            let ghost sv = said@;
            out.push(said);
            assert(text_views(out@) =~= had.push(sv));
            assert(had + (seq![sv] + rest) =~= had.push(sv) + rest);
        }
        if i == chars.len() {
            assert(rest =~= Seq::<Seq<char>>::empty());
            assert(text_views(out@) + rest =~= text_views(out@));
            return out;
        }
        i = i + 1;
    }
    assert(text_views(out@) + Seq::<Seq<char>>::empty() =~= text_views(out@));
    out
}

/// The rules among texts; what is no rule is passed over.
pub open spec fn rules_among(texts: Seq<Seq<char>>) -> Seq<RuleView>
    decreases texts.len(),
{
    if texts.len() == 0 {
        Seq::empty()
    } else {
        let before = rules_among(texts.drop_last());
        match rule_of(texts.last()) {
            Ok(rule) => before.push(rule),
            Err(_) => before,
        }
    }
}

/// The rules in a directory's own filter file; what is no rule is passed over.
pub fn rules_in_file(content: &[u8]) -> (r: Vec<FilterRule>)
    ensures
        rule_views(r@) == rules_among(said_lines(lossy_text(content@), 0)),
{
    let lines = rule_lines(content);
    let ghost all = text_views(lines@);
    let mut out: Vec<FilterRule> = Vec::new();
    let mut i: usize = 0;
    assert(all.take(0) =~= Seq::empty());
    assert(rule_views(out@) =~= Seq::empty());
    while i < lines.len()
        invariant
            i <= lines.len(),
            all == text_views(lines@),
            rule_views(out@) == rules_among(all.take(i as int)),
        decreases lines.len() - i,
    {
        proof {
            assert(all.take(i + 1).drop_last() =~= all.take(i as int));
            assert(all.take(i + 1).last() == lines@[i as int]@);
        }
        match FilterRule::parse(lines[i].as_str()) {
            Ok(rule) => {
                let ghost had = rule_views(out@);
                let ghost rv = rule@;
                out.push(rule);
                assert(rule_views(out@) =~= had.push(rv));
            },
            Err(_) => {},
        }
        i = i + 1;
    }
    assert(all.take(i as int) =~= all);
    out
}

/// The outcome of adding rules: all of them, or none where one is wrong.
pub open spec fn all_added(
    before: RuleListView,
    after: RuleListView,
    rules: Result<Seq<RuleView>, FilterErrorView>,
    r: Result<(), FilterError>,
) -> bool {
    match r {
        Ok(_) => rules is Ok && after == (RuleListView {
            rules: before.rules + rules->Ok_0,
            ..before
        }),
        Err(e) => rules == Err::<Seq<RuleView>, FilterErrorView>(e@) && after == before,
    }
}

impl FilterRuleList {
    fn add_lines(&mut self, source: RuleSource, content: &[u8]) -> (r: Result<(), FilterError>)
        ensures
            all_added(
                old(self)@,
                final(self)@,
                rules_from(source, said_lines(lossy_text(content@), 0)),
                r,
            ),
    {
        let lines = rule_lines(content);
        let mut more = FilterRuleList::new();
        match more.add_all(source, lines.as_slice()) {
            Ok(_) => {
                let ghost added = more@.rules;
                assert(added =~= rules_from(source, text_views(lines@))->Ok_0);
                self.append(more);
                Ok(())
            },
            Err(e) => Err(e),
        }
    }

    /// Add the patterns in a file (from `--exclude-from`) as ones that are left
    /// out.
    pub fn add_excludes_from_file(&mut self, content: &[u8]) -> (r: Result<(), FilterError>)
        ensures
            all_added(
                old(self)@,
                final(self)@,
                rules_from(RuleSource::Excludes, said_lines(lossy_text(content@), 0)),
                r,
            ),
    {
        self.add_lines(RuleSource::Excludes, content)
    }

    /// Add the patterns in a file (from the counterpart of `--exclude-from`) as
    /// ones that are let in.
    pub fn add_includes_from_file(&mut self, content: &[u8]) -> (r: Result<(), FilterError>)
        ensures
            all_added(
                old(self)@,
                final(self)@,
                rules_from(RuleSource::Includes, said_lines(lossy_text(content@), 0)),
                r,
            ),
    {
        self.add_lines(RuleSource::Includes, content)
    }
}

} // verus!
