use ferrosync_core::options::{DeleteMode, TransferOptions, Verbosity};

#[test]
fn test_default_options() {
    let opts = TransferOptions::default();
    assert!(!opts.recursive());
    assert!(!opts.compress());
    assert!(!opts.dry_run());
    assert_eq!(opts.delete(), DeleteMode::Off);
    assert_eq!(opts.verbosity(), Verbosity::Normal);
    assert!(!opts.is_archive());
}

#[test]
fn test_archive_mode() {
    let opts = TransferOptions::builder().archive().build();
    assert!(opts.is_archive());
    assert!(opts.recursive());
    assert!(opts.preserve_links());
    assert!(opts.preserve_perms());
    assert!(opts.preserve_times());
    assert!(opts.preserve_group());
    assert!(opts.preserve_owner());
    assert!(opts.preserve_devices());
    assert!(opts.preserve_specials());
}

#[test]
fn test_builder_chaining() {
    let opts = TransferOptions::builder()
        .recursive(true)
        .compress(true)
        .compress_level(3)
        .delete(DeleteMode::During)
        .dry_run(true)
        .verbosity(Verbosity::Verbose)
        .exclude("*.tmp")
        .exclude("*.log")
        .source(b"/src".to_vec())
        .dest(b"/dst".to_vec())
        .build();

    assert!(opts.recursive());
    assert!(opts.compress());
    assert_eq!(opts.compress_level(), 3);
    assert_eq!(opts.delete(), DeleteMode::During);
    assert!(opts.dry_run());
    assert_eq!(opts.verbosity(), Verbosity::Verbose);
    assert_eq!(opts.exclude(), &["*.tmp", "*.log"]);
    assert_eq!(opts.source(), &[b"/src".to_vec()]);
    assert_eq!(opts.dest(), Some(&b"/dst".to_vec()));
}

#[test]
fn test_compress_level_clamped() {
    let opts = TransferOptions::builder().compress_level(99).build();
    assert_eq!(opts.compress_level(), 9);

    let opts = TransferOptions::builder().compress_level(0).build();
    assert_eq!(opts.compress_level(), 1);
}
