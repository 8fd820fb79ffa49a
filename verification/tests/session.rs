use ferrosync_core::engine::server_args::{build_server_options, parse_server_args};
use ferrosync_core::engine::session::SyncDirection;
use ferrosync_core::options::{DeleteMode, TransferOptions, Verbosity};

/// The condensed flag string (first element of the args vector).
fn condensed(args: &[String]) -> &str {
    &args[0]
}

/// Check if a long-form option is present in the args vector.
fn has_long(args: &[String], opt: &str) -> bool {
    args.iter().any(|a| a == opt)
}

/// Check if any long-form option starts with the given prefix.
fn has_long_prefix(args: &[String], prefix: &str) -> bool {
    args.iter().any(|a| a.starts_with(prefix))
}

#[test]
fn test_build_server_options_archive() {
    let opts = TransferOptions::builder().archive().build();
    let args = build_server_options(&opts, true);
    let c = condensed(&args);
    assert!(c.contains('l'), "missing -l (links)");
    assert!(c.contains('o'), "missing -o (owner)");
    assert!(c.contains('g'), "missing -g (group)");
    assert!(c.contains('D'), "missing -D (devices)");
    assert!(c.contains('t'), "missing -t (times)");
    assert!(c.contains('p'), "missing -p (perms)");
    assert!(c.contains('r'), "missing -r (recursive)");
    assert!(c.contains("e."), "missing capability string");
}

#[test]
fn test_build_server_options_compress() {
    let opts = TransferOptions::builder().compress(true).build();
    let args = build_server_options(&opts, true);
    assert!(condensed(&args).contains('z'), "missing -z (compress)");
}

#[test]
fn test_build_server_options_dry_run() {
    let opts = TransferOptions::builder().dry_run(true).build();
    let args = build_server_options(&opts, true);
    assert!(condensed(&args).contains('n'), "missing -n (dry-run)");
}

#[test]
fn test_build_server_options_delete() {
    let opts = TransferOptions::builder()
        .delete(DeleteMode::During)
        .build();
    let args = build_server_options(&opts, true);
    assert!(has_long(&args, "--delete-during"));
}

#[test]
fn test_build_server_options_verbose() {
    let opts = TransferOptions::builder()
        .verbosity(Verbosity::VeryVerbose)
        .build();
    let args = build_server_options(&opts, true);
    assert!(condensed(&args).contains("vv"), "missing -vv");
}

#[test]
fn test_build_server_options_minimal() {
    let opts = TransferOptions::default();
    let args = build_server_options(&opts, true);
    assert!(condensed(&args).starts_with('-'));
    assert!(condensed(&args).contains("e."));
}

#[test]
fn test_sync_direction_eq() {
    assert_eq!(SyncDirection::Push, SyncDirection::Push);
    assert_ne!(SyncDirection::Push, SyncDirection::Pull);
}

#[test]
fn test_build_server_options_ignore_times() {
    let opts = TransferOptions::builder().ignore_times(true).build();
    let args = build_server_options(&opts, true);
    assert!(condensed(&args).contains('I'), "missing -I (ignore-times)");
}

#[test]
fn test_build_server_options_prune_empty_dirs() {
    let opts = TransferOptions::builder().prune_empty_dirs(true).build();
    let args = build_server_options(&opts, true);
    assert!(
        condensed(&args).contains('m'),
        "missing -m (prune-empty-dirs)"
    );
}

#[test]
fn test_build_server_options_size_only() {
    let opts = TransferOptions::builder().size_only(true).build();
    let args = build_server_options(&opts, true);
    assert!(has_long(&args, "--size-only"));
}

#[test]
fn test_build_server_options_existing() {
    let opts = TransferOptions::builder().existing(true).build();
    let args = build_server_options(&opts, true);
    assert!(has_long(&args, "--existing"));
}

#[test]
fn test_build_server_options_ignore_existing() {
    let opts = TransferOptions::builder().ignore_existing(true).build();
    let args = build_server_options(&opts, true);
    assert!(has_long(&args, "--ignore-existing"));
}

#[test]
fn test_build_server_options_max_delete() {
    let opts = TransferOptions::builder().max_delete(42).build();
    let args = build_server_options(&opts, true);
    assert!(has_long_prefix(&args, "--max-delete=42"));
}

#[test]
fn test_roundtrip_new_flags() {
    let opts = TransferOptions::builder()
        .archive()
        .ignore_times(true)
        .size_only(true)
        .existing(true)
        .ignore_existing(true)
        .max_delete(99)
        .prune_empty_dirs(true)
        .build();

    let args = build_server_options(&opts, true);
    let parsed = parse_server_args(&args, b"/tmp/test".to_vec(), true);

    assert!(parsed.ignore_times());
    assert!(parsed.size_only());
    assert!(parsed.existing());
    assert!(parsed.ignore_existing());
    assert_eq!(parsed.max_delete(), Some(99));
    assert!(parsed.prune_empty_dirs());
}

#[test]
fn test_roundtrip_batch2_flags() {
    let opts = TransferOptions::builder()
        .copy_links(true)
        .safe_links(true)
        .keep_dirlinks(true)
        .remove_source_files(true)
        .dirs(true)
        .cvs_exclude(true)
        .modify_window(2)
        .append_verify(true)
        .block_size(4096)
        .chmod("Du+rwx")
        .chown_uid(1000)
        .chown_gid(1000)
        .build();

    let args = build_server_options(&opts, true);
    let parsed = parse_server_args(&args, b"/tmp/test".to_vec(), true);

    assert!(parsed.copy_links());
    assert!(parsed.safe_links());
    assert!(parsed.keep_dirlinks());
    assert!(parsed.remove_source_files());
    assert!(parsed.dirs());
    assert!(parsed.cvs_exclude());
    assert_eq!(parsed.modify_window(), 2);
    assert!(parsed.append_verify());
    assert_eq!(parsed.block_size(), Some(4096));
    assert_eq!(parsed.chmod(), &["Du+rwx"]);
    assert_eq!(parsed.chown_uid(), Some(1000));
    assert_eq!(parsed.chown_gid(), Some(1000));
}

#[test]
fn test_roundtrip_batch3_flags() {
    let opts = TransferOptions::builder()
        .partial(true)
        .relative(true)
        .filter_merge_files(2)
        .list_only(true)
        .fuzzy(true)
        .build();

    let args = build_server_options(&opts, true);
    let parsed = parse_server_args(&args, b"/tmp/test".to_vec(), true);

    assert!(parsed.partial());
    assert!(parsed.relative());
    assert_eq!(parsed.filter_merge_files(), 2);
    assert!(parsed.list_only());
    assert!(parsed.fuzzy());
}

#[test]
fn test_roundtrip_batch4_flags() {
    let opts = TransferOptions::builder()
        .preserve_hard_links(true)
        .preserve_acls(true)
        .preserve_xattrs(true)
        .fake_super(true)
        .build();

    let args = build_server_options(&opts, true);
    let parsed = parse_server_args(&args, b"/tmp/test".to_vec(), true);

    assert!(parsed.preserve_hard_links());
    assert!(parsed.preserve_acls());
    assert!(parsed.preserve_xattrs());
    assert!(parsed.fake_super());
}

#[test]
fn every_verbosity_is_read_back() {
    for v in [
        Verbosity::Quiet,
        Verbosity::Normal,
        Verbosity::Verbose,
        Verbosity::VeryVerbose,
        Verbosity::Debug,
    ] {
        let opts = TransferOptions::builder().archive().verbosity(v).build();
        for am_sender in [true, false] {
            let args = build_server_options(&opts, am_sender);
            let parsed = parse_server_args(&args, b"/m".to_vec(), am_sender);
            assert_eq!(parsed.verbosity(), v);
        }
    }
}
