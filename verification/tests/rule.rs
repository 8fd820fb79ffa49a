use ferrosync_core::filter::files::{rule_lines, rules_in_file};
use ferrosync_core::filter::{FilterAction, FilterRule, FilterRuleList};

#[test]
fn test_parse_exclude() {
    let rule = FilterRule::parse("- *.tmp").unwrap();
    assert_eq!(rule.action, FilterAction::Exclude);
    assert!(rule.matches(b"foo.tmp", false));
}

#[test]
fn test_parse_include() {
    let rule = FilterRule::parse("+ *.rs").unwrap();
    assert_eq!(rule.action, FilterAction::Include);
    assert!(rule.matches(b"main.rs", false));
}

#[test]
fn test_parse_long_form() {
    let rule = FilterRule::parse("exclude *.log").unwrap();
    assert_eq!(rule.action, FilterAction::Exclude);

    let rule = FilterRule::parse("include *.txt").unwrap();
    assert_eq!(rule.action, FilterAction::Include);
}

#[test]
fn test_parse_invalid() {
    assert!(FilterRule::parse("bad rule").is_err());
}

#[test]
fn test_rule_list_exclude() {
    let mut list = FilterRuleList::new();
    list.add_exclude("*.tmp").unwrap();
    list.add_exclude("*.log").unwrap();

    assert!(!list.is_included(b"foo.tmp", false));
    assert!(!list.is_included(b"bar.log", false));
    assert!(list.is_included(b"main.rs", false));
}

#[test]
fn test_rule_list_include_before_exclude() {
    let mut list = FilterRuleList::new();
    list.add_include("important.log").unwrap();
    list.add_exclude("*.log").unwrap();

    assert!(list.is_included(b"important.log", false));
    assert!(!list.is_included(b"debug.log", false));
}

#[test]
fn test_rule_list_default_include() {
    let list = FilterRuleList::new();
    assert!(list.is_included(b"anything", false));
    assert!(list.is_included(b"any/path/at/all", true));
}

#[test]
fn test_from_options() {
    let excludes = vec!["*.tmp".to_string(), "*.bak".to_string()];
    let includes = vec!["important.tmp".to_string()];
    let filters = vec![];

    let list = FilterRuleList::from_options(&excludes, &includes, &filters).unwrap();
    assert_eq!(list.len(), 3);

    // include rule comes before exclude, so important.tmp is included.
    assert!(list.is_included(b"important.tmp", false));
    assert!(!list.is_included(b"other.tmp", false));
}

#[test]
fn test_filter_rules_priority() {
    let filters = vec!["- *.secret".to_string()];
    let includes = vec!["*.secret".to_string()];
    let excludes = vec![];

    let list = FilterRuleList::from_options(&excludes, &includes, &filters).unwrap();

    // Filter rule comes first, overrides the include.
    assert!(!list.is_included(b"password.secret", false));
}

#[test]
fn test_dir_only_filter() {
    let mut list = FilterRuleList::new();
    list.add_exclude("build/").unwrap();

    assert!(!list.is_included(b"build", true));
    assert!(list.is_included(b"build", false)); // file named "build" is ok
}

#[test]
fn files_hold_a_rule_on_a_line() {
    let content = b"# comment\n\n  - *.o \r\n; comment\nnonsense\n+ keep\n- *.a";
    assert_eq!(rule_lines(content), vec!["- *.o", "nonsense", "+ keep", "- *.a"]);
    let rules = rules_in_file(content);
    let actions: Vec<FilterAction> = rules.iter().map(|r| r.action).collect();
    assert_eq!(
        actions,
        vec![FilterAction::Exclude, FilterAction::Include, FilterAction::Exclude]
    );
    assert_eq!(rules[0].pattern.source(), "*.o");
    assert!(rules_in_file(b"").is_empty());
}

#[test]
fn patterns_of_files_are_added_together_or_not_at_all() {
    let mut filters = FilterRuleList::default();
    assert!(filters.is_empty());
    filters.add_includes_from_file(b"keep.tmp\n").unwrap();
    filters.add_excludes_from_file(b"*.tmp\n*.bak").unwrap();
    assert_eq!(filters.len(), 3);
    assert!(filters.is_included(b"keep.tmp", false));
    assert!(!filters.is_included(b"x.tmp", false));
    assert!(!filters.is_included(b"x.bak", false));
    assert!(filters.add_excludes_from_file(b"*.log\n[").is_err());
    assert_eq!(filters.len(), 3);
}
