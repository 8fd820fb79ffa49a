use ferrosync_core::error::FilterError;
use ferrosync_core::filter::Pattern;

#[test]
fn test_literal_match() {
    let p = Pattern::new("foo.txt").unwrap();
    assert!(p.matches(b"foo.txt", false));
    assert!(p.matches(b"bar/foo.txt", false));
    assert!(!p.matches(b"foo.txt.bak", false));
}

#[test]
fn test_star() {
    let p = Pattern::new("*.txt").unwrap();
    assert!(p.matches(b"foo.txt", false));
    assert!(p.matches(b"bar/baz.txt", false));
    assert!(!p.matches(b"foo.rs", false));
}

#[test]
fn test_double_star() {
    let p = Pattern::new("**/*.txt").unwrap();
    assert!(p.matches(b"foo.txt", false));
    assert!(p.matches(b"a/b/c.txt", false));
    assert!(!p.matches(b"foo.rs", false));
}

#[test]
fn test_question_mark() {
    let p = Pattern::new("?.txt").unwrap();
    assert!(p.matches(b"a.txt", false));
    assert!(!p.matches(b"ab.txt", false));
    assert!(!p.matches(b".txt", false));
}

#[test]
fn test_anchored() {
    let p = Pattern::new("/foo.txt").unwrap();
    assert!(p.matches(b"foo.txt", false));
    assert!(!p.matches(b"bar/foo.txt", false));
}

#[test]
fn test_dir_only() {
    let p = Pattern::new("build/").unwrap();
    assert!(p.matches(b"build", true));
    assert!(!p.matches(b"build", false));
}

#[test]
fn test_char_class() {
    let p = Pattern::new("[abc].txt").unwrap();
    assert!(p.matches(b"a.txt", false));
    assert!(p.matches(b"b.txt", false));
    assert!(!p.matches(b"d.txt", false));
}

#[test]
fn test_negated_char_class() {
    let p = Pattern::new("[!abc].txt").unwrap();
    assert!(!p.matches(b"a.txt", false));
    assert!(p.matches(b"d.txt", false));
}

#[test]
fn test_char_range() {
    let p = Pattern::new("[a-z].txt").unwrap();
    assert!(p.matches(b"m.txt", false));
    assert!(!p.matches(b"1.txt", false));
}

#[test]
fn test_path_with_slashes() {
    let p = Pattern::new("src/*.rs").unwrap();
    assert!(p.matches(b"src/main.rs", false));
    assert!(!p.matches(b"tests/main.rs", false));
    // Anchored because contains /
    assert!(!p.matches(b"foo/src/main.rs", false));
}

#[test]
fn test_double_star_path() {
    let p = Pattern::new("src/**/*.rs").unwrap();
    assert!(p.matches(b"src/main.rs", false));
    assert!(p.matches(b"src/foo/bar/baz.rs", false));
}

#[test]
fn test_unterminated_char_class() {
    let result = Pattern::new("[abc");
    assert!(matches!(result, Err(FilterError::InvalidPattern { .. })));
}

#[test]
fn the_source_is_what_was_written() {
    for text in ["src/*.rs", "/src", "*.o", "build/", "/a/b/"] {
        assert_eq!(Pattern::new(text).unwrap().source(), text);
    }
    let p = Pattern::new("src/*.rs").unwrap();
    assert!(p.matches(b"src/main.rs", false));
    assert!(!p.matches(b"x/src/main.rs", false));
}
