//! The option strings of `rsync --server`.
//!
//! A client tells the remote side its options in an argument list: one
//! argument of condensed single-letter flags that ends in the capability
//! string, followed by long options. The remote side reads the list back.

use vstd::prelude::*;

use crate::options::{
    opt_path, path_views, text_views, ArchiveFlags, BehaviorFlags, DeleteMode, Limits, OptionsView,
    OutputFlags, PathOptionsView, TextOptionsView, TransferOptions, TransferOptionsBuilder,
    TreeFlags, Verbosity,
};
use crate::protocol::handshake::{build_capability_string, capabilities};
use crate::text::{
    after_prefix, chars_are, decimal, find_char, find_char_is_first, from_chars, has_prefix,
    lossy_string, lossy_text, numeral_chars, parse_numeral, parse_signed, position_of, push_chars,
    push_text, read_i32, read_numeral, signed_decimal, signed_decimal_string, starts_with, to_chars,
};

verus! {

// ---------------------------------------------------------------------------
// The condensed argument
// ---------------------------------------------------------------------------

/// On/off options with their letters, in the order in which they are sent.
pub open spec fn archive_switches(v: OptionsView) -> Seq<(bool, char)> {
    seq![
        (v.archive.preserve_links, 'l'),
        (v.archive.preserve_owner, 'o'),
        (v.archive.preserve_group, 'g'),
        (v.archive.preserve_devices || v.archive.preserve_specials, 'D'),
        (v.archive.preserve_times, 't'),
        (v.archive.preserve_perms, 'p'),
        (v.archive.recursive, 'r'),
    ]
}

/// On/off options with their letters, in the order in which they are sent.
pub open spec fn first_switches(v: OptionsView) -> Seq<(bool, char)> {
    seq![
        (v.output.compress, 'z'),
        (v.behavior.checksum_mode, 'c'),
        (v.behavior.update, 'u'),
        (v.output.dry_run, 'n'),
        (v.behavior.whole_file, 'W'),
        (v.tree.one_file_system, 'x'),
    ]
}

/// On/off options with their letters, in the order in which they are sent.
pub open spec fn second_switches(v: OptionsView) -> Seq<(bool, char)> {
    seq![
        (v.behavior.sparse, 'S'),
        (v.behavior.ignore_times, 'I'),
        (v.tree.prune_empty_dirs, 'm'),
        (v.tree.relative, 'R'),
        (v.tree.copy_links, 'L'),
        (v.tree.keep_dirlinks, 'K'),
    ]
}

/// On/off options with their letters, in the order in which they are sent.
pub open spec fn third_switches(v: OptionsView) -> Seq<(bool, char)> {
    seq![
        (v.tree.dirs, 'd'),
        (v.tree.cvs_exclude, 'C'),
        (v.behavior.fuzzy, 'y'),
        (v.tree.preserve_hard_links, 'H'),
        (v.tree.preserve_acls, 'A'),
        (v.tree.preserve_xattrs, 'X'),
    ]
}

/// All on/off options with their letters, in the order in which they are sent.
pub open spec fn switches(v: OptionsView) -> Seq<(bool, char)> {
    archive_switches(v) + first_switches(v) + second_switches(v) + third_switches(v)
}

/// The letters whose condition holds.
pub open spec fn chosen(table: Seq<(bool, char)>) -> Seq<char>
    decreases table.len(),
{
    if table.len() == 0 {
        Seq::empty()
    } else if table.last().0 {
        chosen(table.drop_last()).push(table.last().1)
    } else {
        chosen(table.drop_last())
    }
}

/// The letters of the on/off options that are set.
pub open spec fn switch_letters(v: OptionsView) -> Seq<char> {
    chosen(switches(v))
}

/// The letters of the verbosity.
pub open spec fn verbosity_letters(v: Verbosity) -> Seq<char> {
    match v {
        Verbosity::Quiet => seq!['q'],
        Verbosity::Normal => Seq::empty(),
        Verbosity::Verbose => seq!['v'],
        Verbosity::VeryVerbose => seq!['v', 'v'],
        Verbosity::Debug => seq!['v', 'v', 'v'],
    }
}

/// One letter for each level of per-directory filter files.
pub open spec fn merge_letters(n: nat) -> Seq<char> {
    Seq::new(n, |i: int| 'F')
}

/// All letters before the capability string.
pub open spec fn all_letters(v: OptionsView) -> Seq<char> {
    switch_letters(v) + merge_letters(v.limits.filter_merge_files as nat) + verbosity_letters(
        v.output.verbosity,
    )
}

/// The condensed argument. The capability string is last, since `e` takes the
/// rest of the argument as its value. A sender does not advertise incremental
/// recursion.
pub open spec fn condensed_arg(v: OptionsView, am_sender: bool) -> Seq<char> {
    seq!['-'] + all_letters(v) + seq!['e'] + capabilities(
        v.archive.recursive && !am_sender,
        true,
        false,
    )
}

// ---------------------------------------------------------------------------
// The long options
// ---------------------------------------------------------------------------

/// An option without a value, where the condition holds.
pub open spec fn flag_arg(cond: bool, text: Seq<char>) -> Seq<Seq<char>> {
    if cond {
        seq![text]
    } else {
        Seq::empty()
    }
}

/// An option with a value, where there is one.
pub open spec fn value_arg(prefix: Seq<char>, value: Option<Seq<char>>) -> Seq<Seq<char>> {
    match value {
        Some(x) => seq![prefix + x],
        None => Seq::empty(),
    }
}

/// An option for each value of a list.
pub open spec fn list_args(prefix: Seq<char>, values: Seq<Seq<char>>) -> Seq<Seq<char>> {
    Seq::new(values.len(), |i: int| prefix + values[i])
}

/// The text of an optional number.
pub open spec fn opt_decimal(n: Option<u64>) -> Option<Seq<char>> {
    match n {
        Some(x) => Some(decimal(x as nat)),
        None => None,
    }
}

/// The text of an optional signed number.
pub open spec fn opt_signed(n: Option<i32>) -> Option<Seq<char>> {
    match n {
        Some(x) => Some(signed_decimal(x as int)),
        None => None,
    }
}

/// The decimal numeral of an optional id, empty where there is none.
pub open spec fn id_text(n: Option<u32>) -> Seq<char> {
    match n {
        Some(x) => decimal(x as nat),
        None => Seq::empty(),
    }
}

/// The value of the owner option, where an owner or a group is set.
pub open spec fn chown_value(uid: Option<u32>, gid: Option<u32>) -> Option<Seq<char>> {
    if uid is Some || gid is Some {
        Some(id_text(uid) + seq![':'] + id_text(gid))
    } else {
        None
    }
}

/// The texts of paths.
pub open spec fn shown_paths(paths: Seq<Seq<u8>>) -> Seq<Seq<char>> {
    Seq::new(paths.len(), |i: int| lossy_text(paths[i]))
}

/// The text of an optional path.
pub open spec fn shown_path(path: Option<Seq<u8>>) -> Option<Seq<char>> {
    match path {
        Some(p) => Some(lossy_text(p)),
        None => None,
    }
}

/// The delete option.
pub open spec fn delete_args(mode: DeleteMode) -> Seq<Seq<char>> {
    match mode {
        DeleteMode::Off => Seq::empty(),
        DeleteMode::Before => seq!["--delete-before"@],
        DeleteMode::During => seq!["--delete-during"@],
        DeleteMode::After => seq!["--delete-after"@],
        DeleteMode::Excluded => seq!["--delete-excluded"@],
    }
}

/// Long options on how files are written.
pub open spec fn write_args(v: OptionsView) -> Seq<Seq<char>> {
    flag_arg(v.behavior.inplace, "--inplace"@) + flag_arg(v.tree.numeric_ids, "--numeric-ids"@)
        + flag_arg(v.behavior.append, "--append"@)
}

/// Long options on which files are skipped.
pub open spec fn skip_args(v: OptionsView) -> Seq<Seq<char>> {
    flag_arg(v.behavior.size_only, "--size-only"@) + flag_arg(v.behavior.existing, "--existing"@)
        + flag_arg(v.behavior.ignore_existing, "--ignore-existing"@)
}

/// Long options on deletion limits, links and sources.
pub open spec fn source_args(v: OptionsView) -> Seq<Seq<char>> {
    value_arg("--max-delete="@, opt_decimal(v.limits.max_delete)) + flag_arg(
        v.tree.safe_links,
        "--safe-links"@,
    ) + flag_arg(v.tree.remove_source_files, "--remove-source-files"@) + flag_arg(
        v.behavior.append_verify,
        "--append-verify"@,
    )
}

/// The time tolerance that is sent.
pub open spec fn sent_window(v: OptionsView) -> Option<u64> {
    if v.limits.modify_window > 0 {
        Some(v.limits.modify_window as u64)
    } else {
        None
    }
}

/// The basis directories that are sent: a sender's only.
pub open spec fn sent_links(v: OptionsView, am_sender: bool) -> Seq<Seq<char>> {
    if am_sender {
        shown_paths(v.paths.link_dest)
    } else {
        Seq::empty()
    }
}

/// Long options on times, blocks, permissions, owners and pattern files.
pub open spec fn tuning_args(v: OptionsView) -> Seq<Seq<char>> {
    value_arg("--modify-window="@, opt_decimal(sent_window(v))) + value_arg(
        "--block-size="@,
        opt_signed(v.limits.block_size),
    ) + list_args("--chmod="@, v.texts.chmod) + value_arg(
        "--chown="@,
        chown_value(v.limits.chown_uid, v.limits.chown_gid),
    ) + list_args("--exclude-from="@, shown_paths(v.paths.exclude_from)) + list_args(
        "--include-from="@,
        shown_paths(v.paths.include_from),
    )
}

/// Long options on partial files.
pub open spec fn partial_args(v: OptionsView) -> Seq<Seq<char>> {
    flag_arg(v.behavior.partial, "--partial"@) + value_arg(
        "--partial-dir="@,
        shown_path(v.paths.partial_dir),
    )
}

/// Long options on listing, attributes and deletion.
pub open spec fn delete_mode_args(v: OptionsView) -> Seq<Seq<char>> {
    flag_arg(v.output.list_only, "--list-only"@) + flag_arg(v.tree.fake_super, "--fake-super"@)
        + delete_args(v.output.delete)
}

/// Long options for basis directories.
pub open spec fn link_args(v: OptionsView, am_sender: bool) -> Seq<Seq<char>> {
    list_args("--link-dest="@, sent_links(v, am_sender))
}

/// The long options, each an argument of its own.
pub open spec fn long_options(v: OptionsView, am_sender: bool) -> Seq<Seq<char>> {
    write_args(v) + skip_args(v) + source_args(v) + tuning_args(v) + partial_args(v)
        + delete_mode_args(v) + link_args(v, am_sender)
}

/// The argument list for `rsync --server`.
pub open spec fn server_args(v: OptionsView, am_sender: bool) -> Seq<Seq<char>> {
    seq![condensed_arg(v, am_sender)] + long_options(v, am_sender)
}

// ---------------------------------------------------------------------------
// Building the list
// ---------------------------------------------------------------------------

fn push_arg(args: &mut Vec<String>, text: &[char])
    ensures
        text_views(final(args)@) == text_views(old(args)@) + seq![text@],
{
    args.push(from_chars(text));
    assert(text_views(args@) =~= text_views(old(args)@) + seq![text@]);
}

fn push_flag(args: &mut Vec<String>, cond: bool, text: &str)
    ensures
        text_views(final(args)@) == text_views(old(args)@) + flag_arg(cond, text@),
{
    if cond {
        let c = to_chars(text);
        push_arg(args, c.as_slice());
    }
    assert(text_views(args@) =~= text_views(old(args)@) + flag_arg(cond, text@));
}

fn push_value(args: &mut Vec<String>, prefix: &str, value: &[char])
    ensures
        text_views(final(args)@) == text_views(old(args)@) + value_arg(prefix@, Some(value@)),
{
    let mut c = to_chars(prefix);
    push_chars(&mut c, value);
    push_arg(args, c.as_slice());
}

fn push_paths(args: &mut Vec<String>, prefix: &str, paths: &[Vec<u8>])
    ensures
        text_views(final(args)@) == text_views(old(args)@) + list_args(
            prefix@,
            shown_paths(path_views(paths@)),
        ),
{
    let ghost all = list_args(prefix@, shown_paths(path_views(paths@)));
    let mut i: usize = 0;
    assert(text_views(args@) =~= text_views(old(args)@) + all.take(0));
    while i < paths.len()
        invariant
            i <= paths.len(),
            all == list_args(prefix@, shown_paths(path_views(paths@))),
            all.len() == paths.len(),
            text_views(args@) == text_views(old(args)@) + all.take(i as int),
        decreases paths.len() - i,
    {
        let shown = lossy_string(paths[i].as_slice());
        let c = to_chars(shown.as_str());
        push_value(args, prefix, c.as_slice());
        assert(path_views(paths@)[i as int] == paths@[i as int]@);
        assert(all[i as int] == prefix@ + c@);
        i += 1;
        assert(text_views(args@) =~= text_views(old(args)@) + all.take(i as int));
    }
    assert(all.take(all.len() as int) =~= all);
}

fn push_texts(args: &mut Vec<String>, prefix: &str, texts: &[String])
    ensures
        text_views(final(args)@) == text_views(old(args)@) + list_args(prefix@, text_views(texts@)),
{
    let ghost all = list_args(prefix@, text_views(texts@));
    let mut i: usize = 0;
    assert(text_views(args@) =~= text_views(old(args)@) + all.take(0));
    while i < texts.len()
        invariant
            i <= texts.len(),
            all == list_args(prefix@, text_views(texts@)),
            all.len() == texts.len(),
            text_views(args@) == text_views(old(args)@) + all.take(i as int),
        decreases texts.len() - i,
    {
        let c = to_chars(texts[i].as_str());
        push_value(args, prefix, c.as_slice());
        assert(text_views(texts@)[i as int] == texts@[i as int]@);
        assert(all[i as int] == prefix@ + c@);
        i += 1;
        assert(text_views(args@) =~= text_views(old(args)@) + all.take(i as int));
    }
    assert(all.take(all.len() as int) =~= all);
}

fn push_archive_switches(t: &mut Vec<(bool, char)>, opts: &TransferOptions)
    ensures
        final(t)@ == old(t)@ + archive_switches(opts@),
{
    t.push((opts.preserve_links(), 'l'));
    t.push((opts.preserve_owner(), 'o'));
    t.push((opts.preserve_group(), 'g'));
    t.push((opts.preserve_devices() || opts.preserve_specials(), 'D'));
    t.push((opts.preserve_times(), 't'));
    t.push((opts.preserve_perms(), 'p'));
    t.push((opts.recursive(), 'r'));
    assert(t@ =~= old(t)@ + archive_switches(opts@));
}

fn push_first_switches(t: &mut Vec<(bool, char)>, opts: &TransferOptions)
    ensures
        final(t)@ == old(t)@ + first_switches(opts@),
{
    t.push((opts.compress(), 'z'));
    t.push((opts.checksum_mode(), 'c'));
    t.push((opts.update(), 'u'));
    t.push((opts.dry_run(), 'n'));
    t.push((opts.whole_file(), 'W'));
    t.push((opts.one_file_system(), 'x'));
    assert(t@ =~= old(t)@ + first_switches(opts@));
}

fn push_second_switches(t: &mut Vec<(bool, char)>, opts: &TransferOptions)
    ensures
        final(t)@ == old(t)@ + second_switches(opts@),
{
    t.push((opts.sparse(), 'S'));
    t.push((opts.ignore_times(), 'I'));
    t.push((opts.prune_empty_dirs(), 'm'));
    t.push((opts.relative(), 'R'));
    t.push((opts.copy_links(), 'L'));
    t.push((opts.keep_dirlinks(), 'K'));
    assert(t@ =~= old(t)@ + second_switches(opts@));
}

fn push_third_switches(t: &mut Vec<(bool, char)>, opts: &TransferOptions)
    ensures
        final(t)@ == old(t)@ + third_switches(opts@),
{
    t.push((opts.dirs(), 'd'));
    t.push((opts.cvs_exclude(), 'C'));
    t.push((opts.fuzzy(), 'y'));
    t.push((opts.preserve_hard_links(), 'H'));
    t.push((opts.preserve_acls(), 'A'));
    t.push((opts.preserve_xattrs(), 'X'));
    assert(t@ =~= old(t)@ + third_switches(opts@));
}

/// The table of the on/off options.
fn switch_table(opts: &TransferOptions) -> (t: Vec<(bool, char)>)
    ensures
        t@ == switches(opts@),
{
    let mut t: Vec<(bool, char)> = Vec::new();
    push_archive_switches(&mut t, opts);
    assert(t@ =~= archive_switches(opts@));
    push_first_switches(&mut t, opts);
    push_second_switches(&mut t, opts);
    push_third_switches(&mut t, opts);
    t
}

/// The letters of the on/off options.
fn build_switches(opts: &TransferOptions) -> (out: Vec<char>)
    ensures
        out@ == switch_letters(opts@),
{
    let t = switch_table(opts);
    let mut out: Vec<char> = Vec::new();
    let mut i: usize = 0;
    assert(t@.take(0) =~= Seq::<(bool, char)>::empty());
    while i < t.len()
        invariant
            i <= t.len(),
            out@ == chosen(t@.take(i as int)),
        decreases t.len() - i,
    {
        let (cond, c) = t[i];
        assert(t@.take(i + 1).drop_last() =~= t@.take(i as int));
        assert(t@.take(i + 1).last() == (cond, c));
        if cond {
            out.push(c);
        }
        i += 1;
    }
    assert(t@.take(t@.len() as int) =~= t@);
    out
}

/// The condensed argument.
fn build_condensed(opts: &TransferOptions, am_sender: bool) -> (r: Vec<char>)
    ensures
        r@ == condensed_arg(opts@, am_sender),
{
    let mut out: Vec<char> = Vec::new();
    out.push('-');
    let switches = build_switches(opts);
    push_chars(&mut out, switches.as_slice());
    let ghost with_switches = out@;
    let n: u8 = opts.filter_merge_files();
    let mut i: u8 = 0;
    assert(out@ =~= with_switches + merge_letters(0));
    while i < n
        invariant
            i <= n,
            out@ == with_switches + merge_letters(i as nat),
        decreases n - i,
    {
        out.push('F');
        i += 1;
        assert(out@ =~= with_switches + merge_letters(i as nat));
    }
    match opts.verbosity() {
        Verbosity::Quiet => {
            out.push('q');
        },
        Verbosity::Normal => {},
        Verbosity::Verbose => {
            out.push('v');
        },
        Verbosity::VeryVerbose => {
            out.push('v');
            out.push('v');
        },
        Verbosity::Debug => {
            out.push('v');
            out.push('v');
            out.push('v');
        },
    }
    assert(out@ =~= seq!['-'] + all_letters(opts@));
    out.push('e');
    let use_inc_recurse = opts.recursive() && !am_sender;
    let caps = build_capability_string(use_inc_recurse, true, false);
    push_text(&mut out, caps.as_str());
    assert(out@ =~= condensed_arg(opts@, am_sender));
    out
}

/// Arguments appended one run after the other are appended as a whole.
proof fn join(base: Seq<Seq<char>>, a: Seq<Seq<char>>, b: Seq<Seq<char>>)
    ensures
        base + a + b == base + (a + b),
{
    assert(base + a + b =~= base + (a + b));
}

fn push_opt_number(args: &mut Vec<String>, prefix: &str, n: Option<u64>)
    ensures
        text_views(final(args)@) == text_views(old(args)@) + value_arg(prefix@, opt_decimal(n)),
{
    match n {
        Some(n) => {
            let c = numeral_chars(n, 10);
            push_value(args, prefix, c.as_slice());
        },
        None => {
            assert(text_views(args@) =~= text_views(old(args)@) + value_arg(
                prefix@,
                opt_decimal(n),
            ));
        },
    }
}

fn push_write_args(args: &mut Vec<String>, opts: &TransferOptions)
    ensures
        text_views(final(args)@) == text_views(old(args)@) + write_args(opts@),
{
    let ghost base = text_views(args@);
    let ghost v = opts@;
    push_flag(args, opts.inplace(), "--inplace");
    push_flag(args, opts.numeric_ids(), "--numeric-ids");
    push_flag(args, opts.append(), "--append");
    proof {
        let p1 = flag_arg(v.behavior.inplace, "--inplace"@);
        let p2 = flag_arg(v.tree.numeric_ids, "--numeric-ids"@);
        let p3 = flag_arg(v.behavior.append, "--append"@);
        join(base, p1, p2);
        join(base, p1 + p2, p3);
    }
}

fn push_skip_args(args: &mut Vec<String>, opts: &TransferOptions)
    ensures
        text_views(final(args)@) == text_views(old(args)@) + skip_args(opts@),
{
    let ghost base = text_views(args@);
    let ghost v = opts@;
    push_flag(args, opts.size_only(), "--size-only");
    push_flag(args, opts.existing(), "--existing");
    push_flag(args, opts.ignore_existing(), "--ignore-existing");
    proof {
        let p1 = flag_arg(v.behavior.size_only, "--size-only"@);
        let p2 = flag_arg(v.behavior.existing, "--existing"@);
        let p3 = flag_arg(v.behavior.ignore_existing, "--ignore-existing"@);
        join(base, p1, p2);
        join(base, p1 + p2, p3);
    }
}

fn push_source_args(args: &mut Vec<String>, opts: &TransferOptions)
    ensures
        text_views(final(args)@) == text_views(old(args)@) + source_args(opts@),
{
    let ghost base = text_views(args@);
    let ghost v = opts@;
    push_opt_number(args, "--max-delete=", opts.max_delete());
    push_flag(args, opts.safe_links(), "--safe-links");
    push_flag(args, opts.remove_source_files(), "--remove-source-files");
    push_flag(args, opts.append_verify(), "--append-verify");
    proof {
        let p1 = value_arg("--max-delete="@, opt_decimal(v.limits.max_delete));
        let p2 = flag_arg(v.tree.safe_links, "--safe-links"@);
        let p3 = flag_arg(v.tree.remove_source_files, "--remove-source-files"@);
        let p4 = flag_arg(v.behavior.append_verify, "--append-verify"@);
        join(base, p1, p2);
        join(base, p1 + p2, p3);
        join(base, p1 + p2 + p3, p4);
    }
}

/// The value of the owner option.
fn chown_chars(uid: Option<u32>, gid: Option<u32>) -> (r: Vec<char>)
    ensures
        r@ == id_text(uid) + seq![':'] + id_text(gid),
{
    let mut out: Vec<char> = Vec::new();
    if let Some(u) = uid {
        let c = numeral_chars(u as u64, 10);
        push_chars(&mut out, c.as_slice());
    }
    out.push(':');
    if let Some(g) = gid {
        let c = numeral_chars(g as u64, 10);
        push_chars(&mut out, c.as_slice());
    }
    assert(out@ =~= id_text(uid) + seq![':'] + id_text(gid));
    out
}

fn push_tuning_args(args: &mut Vec<String>, opts: &TransferOptions)
    ensures
        text_views(final(args)@) == text_views(old(args)@) + tuning_args(opts@),
{
    let ghost base = text_views(args@);
    let ghost v = opts@;
    let window: Option<u64> = if opts.modify_window() > 0 {
        Some(opts.modify_window() as u64)
    } else {
        None
    };
    push_opt_number(args, "--modify-window=", window);
    push_opt_signed(args, "--block-size=", opts.block_size());
    push_texts(args, "--chmod=", opts.chmod());
    push_chown(args, opts.chown_uid(), opts.chown_gid());
    push_paths(args, "--exclude-from=", opts.exclude_from());
    push_paths(args, "--include-from=", opts.include_from());
    proof {
        let p1 = value_arg("--modify-window="@, opt_decimal(window));
        let p2 = value_arg("--block-size="@, opt_signed(v.limits.block_size));
        let p3 = list_args("--chmod="@, v.texts.chmod);
        let p4 = value_arg("--chown="@, chown_value(v.limits.chown_uid, v.limits.chown_gid));
        let p5 = list_args("--exclude-from="@, shown_paths(v.paths.exclude_from));
        let p6 = list_args("--include-from="@, shown_paths(v.paths.include_from));
        join(base, p1, p2);
        join(base, p1 + p2, p3);
        join(base, p1 + p2 + p3, p4);
        join(base, p1 + p2 + p3 + p4, p5);
        join(base, p1 + p2 + p3 + p4 + p5, p6);
    }
}

fn push_opt_signed(args: &mut Vec<String>, prefix: &str, n: Option<i32>)
    ensures
        text_views(final(args)@) == text_views(old(args)@) + value_arg(prefix@, opt_signed(n)),
{
    match n {
        Some(n) => {
            let text = signed_decimal_string(n as i64);
            let c = to_chars(text.as_str());
            push_value(args, prefix, c.as_slice());
        },
        None => {
            assert(text_views(args@) =~= text_views(old(args)@) + value_arg(
                prefix@,
                opt_signed(n),
            ));
        },
    }
}

fn push_chown(args: &mut Vec<String>, uid: Option<u32>, gid: Option<u32>)
    ensures
        text_views(final(args)@) == text_views(old(args)@) + value_arg(
            "--chown="@,
            chown_value(uid, gid),
        ),
{
    if uid.is_some() || gid.is_some() {
        let c = chown_chars(uid, gid);
        push_value(args, "--chown=", c.as_slice());
    } else {
        assert(text_views(args@) =~= text_views(old(args)@) + value_arg(
            "--chown="@,
            chown_value(uid, gid),
        ));
    }
}

fn push_opt_path(args: &mut Vec<String>, prefix: &str, path: Option<&Vec<u8>>)
    ensures
        text_views(final(args)@) == text_views(old(args)@) + value_arg(
            prefix@,
            shown_path(opt_path(path)),
        ),
{
    match path {
        Some(p) => {
            let shown = lossy_string(p.as_slice());
            let c = to_chars(shown.as_str());
            push_value(args, prefix, c.as_slice());
        },
        None => {
            assert(text_views(args@) =~= text_views(old(args)@) + value_arg(
                prefix@,
                shown_path(opt_path(path)),
            ));
        },
    }
}

fn push_delete(args: &mut Vec<String>, mode: DeleteMode)
    ensures
        text_views(final(args)@) == text_views(old(args)@) + delete_args(mode),
{
    match mode {
        DeleteMode::Before => push_flag(args, true, "--delete-before"),
        DeleteMode::During => push_flag(args, true, "--delete-during"),
        DeleteMode::After => push_flag(args, true, "--delete-after"),
        DeleteMode::Excluded => push_flag(args, true, "--delete-excluded"),
        DeleteMode::Off => {
            assert(text_views(args@) =~= text_views(old(args)@) + delete_args(mode));
        },
    }
}

fn push_partial_args(args: &mut Vec<String>, opts: &TransferOptions)
    ensures
        text_views(final(args)@) == text_views(old(args)@) + partial_args(opts@),
{
    let ghost base = text_views(args@);
    let ghost v = opts@;
    push_flag(args, opts.partial(), "--partial");
    push_opt_path(args, "--partial-dir=", opts.partial_dir());
    proof {
        let p1 = flag_arg(v.behavior.partial, "--partial"@);
        let p2 = value_arg("--partial-dir="@, shown_path(v.paths.partial_dir));
        join(base, p1, p2);
    }
}

fn push_delete_mode_args(args: &mut Vec<String>, opts: &TransferOptions)
    ensures
        text_views(final(args)@) == text_views(old(args)@) + delete_mode_args(opts@),
{
    let ghost base = text_views(args@);
    let ghost v = opts@;
    push_flag(args, opts.list_only(), "--list-only");
    push_flag(args, opts.fake_super(), "--fake-super");
    push_delete(args, opts.delete());
    proof {
        let p1 = flag_arg(v.output.list_only, "--list-only"@);
        let p2 = flag_arg(v.tree.fake_super, "--fake-super"@);
        let p3 = delete_args(v.output.delete);
        join(base, p1, p2);
        join(base, p1 + p2, p3);
    }
}

fn push_link_args(args: &mut Vec<String>, opts: &TransferOptions, am_sender: bool)
    ensures
        text_views(final(args)@) == text_views(old(args)@) + link_args(opts@, am_sender),
{
    if am_sender {
        push_paths(args, "--link-dest=", opts.link_dest());
    } else {
        assert(text_views(args@) =~= text_views(old(args)@) + link_args(opts@, am_sender));
    }
}

/// Build the argument list for `rsync --server`.
///
/// Returns a vector of separate arguments: the condensed single-char flag
/// string (with the `e`-prefixed capability string) as the first element,
/// followed by any long-form options as individual elements.
pub fn build_server_options(opts: &TransferOptions, am_sender: bool) -> (r: Vec<String>)
    ensures
        text_views(r@) == server_args(opts@, am_sender),
{
    let mut args: Vec<String> = Vec::new();
    let condensed = build_condensed(opts, am_sender);
    push_arg(&mut args, condensed.as_slice());
    assert(text_views(args@) =~= seq![condensed_arg(opts@, am_sender)]);
    push_write_args(&mut args, opts);
    push_skip_args(&mut args, opts);
    push_source_args(&mut args, opts);
    push_tuning_args(&mut args, opts);
    push_partial_args(&mut args, opts);
    push_delete_mode_args(&mut args, opts);
    push_link_args(&mut args, opts, am_sender);
    proof {
        let v = opts@;
        let base = seq![condensed_arg(v, am_sender)];
        let p1 = write_args(v);
        let p2 = skip_args(v);
        let p3 = source_args(v);
        let p4 = tuning_args(v);
        let p5 = partial_args(v);
        let p6 = delete_mode_args(v);
        let p7 = link_args(v, am_sender);
        join(base, p1, p2);
        join(base, p1 + p2, p3);
        join(base, p1 + p2 + p3, p4);
        join(base, p1 + p2 + p3 + p4, p5);
        join(base, p1 + p2 + p3 + p4 + p5, p6);
        join(base, p1 + p2 + p3 + p4 + p5 + p6, p7);
    }
    args
}

// ---------------------------------------------------------------------------
// Reading the list
// ---------------------------------------------------------------------------

/// Arguments that only say which program role is asked for.
pub open spec fn is_role_arg(s: Seq<char>) -> bool {
    s == "--server"@ || s == "--sender"@ || s == "."@
}

/// Whether an argument is a long option.
pub open spec fn is_long(s: Seq<char>) -> bool {
    !is_role_arg(s) && starts_with(s, "--"@)
}

/// Whether an argument can be the condensed one.
pub open spec fn is_condensed(s: Seq<char>) -> bool {
    !is_role_arg(s) && !starts_with(s, "--"@) && s.len() > 0 && s[0] == '-'
}

/// The condensed argument: the first that can be.
pub open spec fn find_condensed(args: Seq<Seq<char>>) -> Option<Seq<char>>
    decreases args.len(),
{
    if args.len() == 0 {
        None
    } else {
        match find_condensed(args.drop_last()) {
            Some(c) => Some(c),
            None => if is_condensed(args.last()) {
                Some(args.last())
            } else {
                None
            },
        }
    }
}

/// The long options among the arguments, in order.
pub open spec fn find_long(args: Seq<Seq<char>>) -> Seq<Seq<char>>
    decreases args.len(),
{
    if args.len() == 0 {
        Seq::empty()
    } else if is_long(args.last()) {
        find_long(args.drop_last()).push(args.last())
    } else {
        find_long(args.drop_last())
    }
}

/// The letters of a condensed argument: what stands between the dash and the
/// first `e`.
pub open spec fn letters_of(condensed: Seq<char>) -> Seq<char> {
    condensed.subrange(1, find_char(condensed, 'e'))
}

/// The options of this group after a letter.
pub open spec fn archive_after(a: ArchiveFlags, c: char) -> ArchiveFlags {
    if c == 'l' {
        ArchiveFlags { preserve_links: true, ..a }
    } else if c == 'o' {
        ArchiveFlags { preserve_owner: true, ..a }
    } else if c == 'g' {
        ArchiveFlags { preserve_group: true, ..a }
    } else if c == 'D' {
        ArchiveFlags { preserve_devices: true, preserve_specials: true, ..a }
    } else if c == 't' {
        ArchiveFlags { preserve_times: true, ..a }
    } else if c == 'p' {
        ArchiveFlags { preserve_perms: true, ..a }
    } else if c == 'r' {
        ArchiveFlags { recursive: true, ..a }
    } else {
        a
    }
}

/// The options of this group after a letter.
pub open spec fn behavior_after(a: BehaviorFlags, c: char) -> BehaviorFlags {
    if c == 'c' {
        BehaviorFlags { checksum_mode: true, ..a }
    } else if c == 'u' {
        BehaviorFlags { update: true, ..a }
    } else if c == 'W' {
        BehaviorFlags { whole_file: true, ..a }
    } else if c == 'S' {
        BehaviorFlags { sparse: true, ..a }
    } else if c == 'I' {
        BehaviorFlags { ignore_times: true, ..a }
    } else if c == 'y' {
        BehaviorFlags { fuzzy: true, ..a }
    } else {
        a
    }
}

/// The options of this group after a letter.
pub open spec fn tree_after(a: TreeFlags, c: char) -> TreeFlags {
    if c == 'x' {
        TreeFlags { one_file_system: true, ..a }
    } else if c == 'm' {
        TreeFlags { prune_empty_dirs: true, ..a }
    } else if c == 'R' {
        TreeFlags { relative: true, ..a }
    } else if c == 'L' {
        TreeFlags { copy_links: true, ..a }
    } else if c == 'K' {
        TreeFlags { keep_dirlinks: true, ..a }
    } else if c == 'd' {
        TreeFlags { dirs: true, ..a }
    } else if c == 'C' {
        TreeFlags { cvs_exclude: true, ..a }
    } else if c == 'H' {
        TreeFlags { preserve_hard_links: true, ..a }
    } else if c == 'A' {
        TreeFlags { preserve_acls: true, ..a }
    } else if c == 'X' {
        TreeFlags { preserve_xattrs: true, ..a }
    } else {
        a
    }
}

/// The verbosity after one more letter for it.
pub open spec fn raised(v: Verbosity) -> Verbosity {
    match v {
        Verbosity::Quiet => Verbosity::Verbose,
        Verbosity::Normal => Verbosity::Verbose,
        Verbosity::Verbose => Verbosity::VeryVerbose,
        Verbosity::VeryVerbose => Verbosity::Debug,
        Verbosity::Debug => Verbosity::Debug,
    }
}

/// The options of this group after a letter.
pub open spec fn output_after(a: OutputFlags, c: char) -> OutputFlags {
    if c == 'z' {
        OutputFlags { compress: true, ..a }
    } else if c == 'n' {
        OutputFlags { dry_run: true, ..a }
    } else if c == 'v' {
        OutputFlags { verbosity: raised(a.verbosity), ..a }
    } else if c == 'q' {
        OutputFlags { verbosity: Verbosity::Quiet, ..a }
    } else {
        a
    }
}

/// The options after a letter.
pub open spec fn apply_letter(v: OptionsView, c: char) -> OptionsView {
    OptionsView {
        archive: archive_after(v.archive, c),
        behavior: behavior_after(v.behavior, c),
        tree: tree_after(v.tree, c),
        output: output_after(v.output, c),
        ..v
    }
}

/// The options after a run of letters.
pub open spec fn apply_letters(v: OptionsView, s: Seq<char>) -> OptionsView
    decreases s.len(),
{
    if s.len() == 0 {
        v
    } else {
        apply_letter(apply_letters(v, s.drop_last()), s.last())
    }
}

/// How often the letter of the per-directory filter files occurs, at most 255.
pub open spec fn count_merge(s: Seq<char>) -> u8
    decreases s.len(),
{
    if s.len() == 0 {
        0
    } else {
        let n = count_merge(s.drop_last());
        if s.last() == 'F' && n < 255 {
            (n + 1) as u8
        } else {
            n
        }
    }
}

/// A number, where the text is one that fits.
pub open spec fn number_of(s: Seq<char>, max: nat) -> Option<nat> {
    parse_numeral(s, 10, max)
}

/// The options after an owner option with the given value.
pub open spec fn apply_chown(v: OptionsView, value: Seq<char>) -> OptionsView {
    let colon = find_char(value, ':');
    if colon >= value.len() {
        v
    } else {
        OptionsView {
            limits: Limits {
                chown_uid: match number_of(value.take(colon), 0xFFFF_FFFF) {
                    Some(n) => Some(n as u32),
                    None => v.limits.chown_uid,
                },
                chown_gid: match number_of(value.skip(colon + 1), 0xFFFF_FFFF) {
                    Some(n) => Some(n as u32),
                    None => v.limits.chown_gid,
                },
                ..v.limits
            },
            ..v
        }
    }
}

/// The path that a text stands for.
pub open spec fn path_of(text: Seq<char>) -> Seq<u8> {
    vstd::utf8::encode_utf8(text)
}

/// The options of this group after a long option without a value.
pub open spec fn behavior_switched(a: BehaviorFlags, s: Seq<char>) -> BehaviorFlags {
    if s == "--inplace"@ {
        BehaviorFlags { inplace: true, ..a }
    } else if s == "--append"@ {
        BehaviorFlags { append: true, ..a }
    } else if s == "--size-only"@ {
        BehaviorFlags { size_only: true, ..a }
    } else if s == "--existing"@ {
        BehaviorFlags { existing: true, ..a }
    } else if s == "--ignore-existing"@ {
        BehaviorFlags { ignore_existing: true, ..a }
    } else if s == "--append-verify"@ {
        BehaviorFlags { append_verify: true, ..a }
    } else if s == "--partial"@ {
        BehaviorFlags { partial: true, ..a }
    } else {
        a
    }
}

/// The options of this group after a long option without a value.
pub open spec fn tree_switched(a: TreeFlags, s: Seq<char>) -> TreeFlags {
    if s == "--numeric-ids"@ {
        TreeFlags { numeric_ids: true, ..a }
    } else if s == "--safe-links"@ {
        TreeFlags { safe_links: true, ..a }
    } else if s == "--remove-source-files"@ {
        TreeFlags { remove_source_files: true, ..a }
    } else if s == "--fake-super"@ {
        TreeFlags { fake_super: true, ..a }
    } else {
        a
    }
}

/// The options of this group after a long option without a value.
pub open spec fn output_switched(a: OutputFlags, s: Seq<char>) -> OutputFlags {
    if s == "--list-only"@ {
        OutputFlags { list_only: true, ..a }
    } else if s == "--delete-before"@ {
        OutputFlags { delete: DeleteMode::Before, ..a }
    } else if s == "--delete-during"@ {
        OutputFlags { delete: DeleteMode::During, ..a }
    } else if s == "--delete-after"@ {
        OutputFlags { delete: DeleteMode::After, ..a }
    } else if s == "--delete-excluded"@ {
        OutputFlags { delete: DeleteMode::Excluded, ..a }
    } else {
        a
    }
}

/// The options after a long option without a value. Other options change nothing.
pub open spec fn apply_switch(v: OptionsView, s: Seq<char>) -> OptionsView {
    OptionsView {
        behavior: behavior_switched(v.behavior, s),
        tree: tree_switched(v.tree, s),
        output: output_switched(v.output, s),
        ..v
    }
}

/// What follows a prefix.
pub open spec fn value_of(s: Seq<char>, prefix: Seq<char>) -> Seq<char> {
    s.skip(prefix.len() as int)
}

/// The options after a long option with a value. A number that cannot be read
/// changes nothing, and neither do other options.
pub open spec fn apply_value(v: OptionsView, s: Seq<char>) -> OptionsView {
    if starts_with(s, "--max-delete="@) {
        match number_of(value_of(s, "--max-delete="@), 0xFFFF_FFFF_FFFF_FFFF) {
            Some(n) => OptionsView {
                limits: Limits { max_delete: Some(n as u64), ..v.limits },
                ..v
            },
            None => v,
        }
    } else if starts_with(s, "--modify-window="@) {
        match number_of(value_of(s, "--modify-window="@), 0xFFFF_FFFF) {
            Some(n) => OptionsView { limits: Limits { modify_window: n as u32, ..v.limits }, ..v },
            None => v,
        }
    } else if starts_with(s, "--block-size="@) {
        match parse_signed(value_of(s, "--block-size="@), 0x7FFF_FFFF) {
            Some(n) => OptionsView {
                limits: Limits { block_size: Some(n as i32), ..v.limits },
                ..v
            },
            None => v,
        }
    } else if starts_with(s, "--chmod="@) {
        OptionsView {
            texts: TextOptionsView {
                chmod: v.texts.chmod.push(value_of(s, "--chmod="@)),
                ..v.texts
            },
            ..v
        }
    } else if starts_with(s, "--chown="@) {
        apply_chown(v, value_of(s, "--chown="@))
    } else if starts_with(s, "--exclude-from="@) {
        OptionsView {
            paths: PathOptionsView {
                exclude_from: v.paths.exclude_from.push(path_of(value_of(s, "--exclude-from="@))),
                ..v.paths
            },
            ..v
        }
    } else if starts_with(s, "--include-from="@) {
        OptionsView {
            paths: PathOptionsView {
                include_from: v.paths.include_from.push(path_of(value_of(s, "--include-from="@))),
                ..v.paths
            },
            ..v
        }
    } else if starts_with(s, "--link-dest="@) {
        OptionsView {
            paths: PathOptionsView {
                link_dest: v.paths.link_dest.push(path_of(value_of(s, "--link-dest="@))),
                ..v.paths
            },
            ..v
        }
    } else if starts_with(s, "--partial-dir="@) {
        OptionsView {
            paths: PathOptionsView {
                partial_dir: Some(path_of(value_of(s, "--partial-dir="@))),
                ..v.paths
            },
            ..v
        }
    } else {
        v
    }
}

/// The options after a long option.
#[verifier::opaque]
pub open spec fn apply_long(v: OptionsView, s: Seq<char>) -> OptionsView {
    apply_value(apply_switch(v, s), s)
}

/// The options after a run of long options.
pub open spec fn apply_longs(v: OptionsView, args: Seq<Seq<char>>) -> OptionsView
    decreases args.len(),
{
    if args.len() == 0 {
        v
    } else {
        apply_long(apply_longs(v, args.drop_last()), args.last())
    }
}

/// The options after the letters of a condensed argument.
pub open spec fn apply_condensed(v: OptionsView, condensed: Seq<char>) -> OptionsView {
    let w = apply_letters(v, letters_of(condensed));
    OptionsView {
        limits: Limits {
            filter_merge_files: count_merge(letters_of(condensed)),
            ..w.limits
        },
        ..w
    }
}

/// The options with the module's path as source or destination.
pub open spec fn with_module(v: OptionsView, path: Seq<u8>, am_sender: bool) -> OptionsView {
    if am_sender {
        OptionsView {
            paths: PathOptionsView { source: v.paths.source.push(path), ..v.paths },
            ..v
        }
    } else {
        OptionsView { paths: PathOptionsView { dest: Some(path), ..v.paths }, ..v }
    }
}

/// The options that an argument list stands for.
pub open spec fn parsed_args(args: Seq<Seq<char>>, path: Seq<u8>, am_sender: bool) -> OptionsView {
    let condensed = find_condensed(args)->0;
    with_module(
        apply_longs(apply_condensed(OptionsView::initial(), condensed), find_long(args)),
        path,
        am_sender,
    )
}

fn archive_letter(a: ArchiveFlags, c: char) -> (r: ArchiveFlags)
    ensures
        r == archive_after(a, c),
{
    if c == 'l' {
        ArchiveFlags { preserve_links: true, ..a }
    } else if c == 'o' {
        ArchiveFlags { preserve_owner: true, ..a }
    } else if c == 'g' {
        ArchiveFlags { preserve_group: true, ..a }
    } else if c == 'D' {
        ArchiveFlags { preserve_devices: true, preserve_specials: true, ..a }
    } else if c == 't' {
        ArchiveFlags { preserve_times: true, ..a }
    } else if c == 'p' {
        ArchiveFlags { preserve_perms: true, ..a }
    } else if c == 'r' {
        ArchiveFlags { recursive: true, ..a }
    } else {
        a
    }
}

fn behavior_letter(a: BehaviorFlags, c: char) -> (r: BehaviorFlags)
    ensures
        r == behavior_after(a, c),
{
    if c == 'c' {
        BehaviorFlags { checksum_mode: true, ..a }
    } else if c == 'u' {
        BehaviorFlags { update: true, ..a }
    } else if c == 'W' {
        BehaviorFlags { whole_file: true, ..a }
    } else if c == 'S' {
        BehaviorFlags { sparse: true, ..a }
    } else if c == 'I' {
        BehaviorFlags { ignore_times: true, ..a }
    } else if c == 'y' {
        BehaviorFlags { fuzzy: true, ..a }
    } else {
        a
    }
}

fn tree_letter(a: TreeFlags, c: char) -> (r: TreeFlags)
    ensures
        r == tree_after(a, c),
{
    if c == 'x' {
        TreeFlags { one_file_system: true, ..a }
    } else if c == 'm' {
        TreeFlags { prune_empty_dirs: true, ..a }
    } else if c == 'R' {
        TreeFlags { relative: true, ..a }
    } else if c == 'L' {
        TreeFlags { copy_links: true, ..a }
    } else if c == 'K' {
        TreeFlags { keep_dirlinks: true, ..a }
    } else if c == 'd' {
        TreeFlags { dirs: true, ..a }
    } else if c == 'C' {
        TreeFlags { cvs_exclude: true, ..a }
    } else if c == 'H' {
        TreeFlags { preserve_hard_links: true, ..a }
    } else if c == 'A' {
        TreeFlags { preserve_acls: true, ..a }
    } else if c == 'X' {
        TreeFlags { preserve_xattrs: true, ..a }
    } else {
        a
    }
}

fn output_letter(a: OutputFlags, c: char) -> (r: OutputFlags)
    ensures
        r == output_after(a, c),
{
    if c == 'z' {
        OutputFlags { compress: true, ..a }
    } else if c == 'n' {
        OutputFlags { dry_run: true, ..a }
    } else if c == 'v' {
        let verbosity = match a.verbosity {
            Verbosity::Quiet => Verbosity::Verbose,
            Verbosity::Normal => Verbosity::Verbose,
            Verbosity::Verbose => Verbosity::VeryVerbose,
            Verbosity::VeryVerbose => Verbosity::Debug,
            Verbosity::Debug => Verbosity::Debug,
        };
        OutputFlags { verbosity, ..a }
    } else if c == 'q' {
        OutputFlags { verbosity: Verbosity::Quiet, ..a }
    } else {
        a
    }
}

fn parse_letter(b: TransferOptionsBuilder, c: char) -> (r: TransferOptionsBuilder)
    ensures
        r@ == apply_letter(b@, c),
{
    let archive = archive_letter(b.archive_group(), c);
    let behavior = behavior_letter(b.behavior_group(), c);
    let tree = tree_letter(b.tree_group(), c);
    let output = output_letter(b.output_group(), c);
    b.with_archive_group(archive).with_behavior_group(behavior).with_tree_group(
        tree,
    ).with_output_group(output)
}

fn behavior_switch(a: BehaviorFlags, s: &[char]) -> (r: BehaviorFlags)
    ensures
        r == behavior_switched(a, s@),
{
    if chars_are(s, "--inplace") {
        BehaviorFlags { inplace: true, ..a }
    } else if chars_are(s, "--append") {
        BehaviorFlags { append: true, ..a }
    } else if chars_are(s, "--size-only") {
        BehaviorFlags { size_only: true, ..a }
    } else if chars_are(s, "--existing") {
        BehaviorFlags { existing: true, ..a }
    } else if chars_are(s, "--ignore-existing") {
        BehaviorFlags { ignore_existing: true, ..a }
    } else if chars_are(s, "--append-verify") {
        BehaviorFlags { append_verify: true, ..a }
    } else if chars_are(s, "--partial") {
        BehaviorFlags { partial: true, ..a }
    } else {
        a
    }
}

fn tree_switch(a: TreeFlags, s: &[char]) -> (r: TreeFlags)
    ensures
        r == tree_switched(a, s@),
{
    if chars_are(s, "--numeric-ids") {
        TreeFlags { numeric_ids: true, ..a }
    } else if chars_are(s, "--safe-links") {
        TreeFlags { safe_links: true, ..a }
    } else if chars_are(s, "--remove-source-files") {
        TreeFlags { remove_source_files: true, ..a }
    } else if chars_are(s, "--fake-super") {
        TreeFlags { fake_super: true, ..a }
    } else {
        a
    }
}

fn output_switch(a: OutputFlags, s: &[char]) -> (r: OutputFlags)
    ensures
        r == output_switched(a, s@),
{
    if chars_are(s, "--list-only") {
        OutputFlags { list_only: true, ..a }
    } else if chars_are(s, "--delete-before") {
        OutputFlags { delete: DeleteMode::Before, ..a }
    } else if chars_are(s, "--delete-during") {
        OutputFlags { delete: DeleteMode::During, ..a }
    } else if chars_are(s, "--delete-after") {
        OutputFlags { delete: DeleteMode::After, ..a }
    } else if chars_are(s, "--delete-excluded") {
        OutputFlags { delete: DeleteMode::Excluded, ..a }
    } else {
        a
    }
}

fn parse_switch(b: TransferOptionsBuilder, s: &[char]) -> (r: TransferOptionsBuilder)
    ensures
        r@ == apply_switch(b@, s@),
{
    let behavior = behavior_switch(b.behavior_group(), s);
    let tree = tree_switch(b.tree_group(), s);
    let output = output_switch(b.output_group(), s);
    b.with_behavior_group(behavior).with_tree_group(tree).with_output_group(output)
}

/// The bytes of a text.
fn path_bytes(s: &[char]) -> (r: Vec<u8>)
    ensures
        r@ == path_of(s@),
{
    let text = from_chars(s);
    vstd::slice::slice_to_vec(text.as_str().as_bytes())
}

fn parse_chown(b: TransferOptionsBuilder, value: &[char]) -> (r: TransferOptionsBuilder)
    ensures
        r@ == apply_chown(b@, value@),
{
    let colon = position_of(value, ':');
    if colon >= value.len() {
        return b;
    }
    let uid_part = vstd::slice::slice_subrange(value, 0, colon);
    let gid_part = vstd::slice::slice_subrange(value, colon + 1, value.len());
    assert(uid_part@ =~= value@.take(colon as int));
    assert(gid_part@ =~= value@.skip(colon + 1));
    let b1 = match read_numeral(uid_part, 10, 0xFFFF_FFFF) {
        Some(n) => b.chown_uid(n as u32),
        None => b,
    };
    match read_numeral(gid_part, 10, 0xFFFF_FFFF) {
        Some(n) => b1.chown_gid(n as u32),
        None => b1,
    }
}

fn parse_value(b: TransferOptionsBuilder, s: &[char]) -> (r: TransferOptionsBuilder)
    ensures
        r@ == apply_value(b@, s@),
{
    if has_prefix(s, "--max-delete=") {
        match read_numeral(after_prefix(s, "--max-delete="), 10, 0xFFFF_FFFF_FFFF_FFFF) {
            Some(n) => b.max_delete(n),
            None => b,
        }
    } else if has_prefix(s, "--modify-window=") {
        match read_numeral(after_prefix(s, "--modify-window="), 10, 0xFFFF_FFFF) {
            Some(n) => b.modify_window(n as u32),
            None => b,
        }
    } else if has_prefix(s, "--block-size=") {
        match read_i32(after_prefix(s, "--block-size=")) {
            Some(n) => b.block_size(n),
            None => b,
        }
    } else if has_prefix(s, "--chmod=") {
        let spec_text = from_chars(after_prefix(s, "--chmod="));
        b.chmod(spec_text.as_str())
    } else if has_prefix(s, "--chown=") {
        parse_chown(b, after_prefix(s, "--chown="))
    } else if has_prefix(s, "--exclude-from=") {
        b.exclude_from(path_bytes(after_prefix(s, "--exclude-from=")))
    } else if has_prefix(s, "--include-from=") {
        b.include_from(path_bytes(after_prefix(s, "--include-from=")))
    } else if has_prefix(s, "--link-dest=") {
        b.link_dest(path_bytes(after_prefix(s, "--link-dest=")))
    } else if has_prefix(s, "--partial-dir=") {
        b.partial_dir(path_bytes(after_prefix(s, "--partial-dir=")))
    } else {
        b
    }
}

fn parse_condensed(b: TransferOptionsBuilder, condensed: &[char]) -> (r: TransferOptionsBuilder)
    requires
        condensed.len() > 0,
        condensed[0] == '-',
    ensures
        r@ == apply_condensed(b@, condensed@),
{
    let end = position_of(condensed, 'e');
    proof {
        find_char_is_first(condensed@, 'e');
    }
    let letters = vstd::slice::slice_subrange(condensed, 1, end);
    assert(letters@ =~= letters_of(condensed@));
    let ghost start = b@;
    let mut out = b;
    let mut count: u8 = 0;
    let mut i: usize = 0;
    assert(letters@.take(0) =~= Seq::<char>::empty());
    while i < letters.len()
        invariant
            i <= letters.len(),
            out@ == apply_letters(start, letters@.take(i as int)),
            count == count_merge(letters@.take(i as int)),
        decreases letters.len() - i,
    {
        let c = letters[i];
        assert(letters@.take(i + 1).drop_last() =~= letters@.take(i as int));
        assert(letters@.take(i + 1).last() == c);
        if c == 'F' && count < 255 {
            count = count + 1;
        }
        out = parse_letter(out, c);
        i += 1;
    }
    assert(letters@.take(letters@.len() as int) =~= letters@);
    out.filter_merge_files(count)
}

/// Parse the argument list of `rsync --server`.
///
/// This is the inverse of [`build_server_options`]. The server uses it to
/// reconstruct a [`TransferOptions`] from the flags the client sent. The
/// `module_dir` is used as the dest (for receive) or source (for send). One
/// of the arguments has to be a condensed one.
pub fn parse_server_args(args: &[String], module_dir: Vec<u8>, am_sender: bool) -> (r:
    TransferOptions)
    requires
        find_condensed(text_views(args@)) is Some,
    ensures
        r@ == parsed_args(text_views(args@), module_dir@, am_sender),
{
    let ghost views = text_views(args@);
    let mut condensed: Vec<char> = Vec::new();
    let mut found = false;
    let mut i: usize = 0;
    while i < args.len()
        invariant
            i <= args.len(),
            views == text_views(args@),
            views.len() == args.len(),
            find_condensed(views.take(i as int)) == (if found {
                Some(condensed@)
            } else {
                None
            }),
            found ==> condensed.len() > 0 && condensed@[0] == '-',
        decreases args.len() - i,
    {
        proof {
            assert(views.take(i + 1).drop_last() =~= views.take(i as int));
            assert(views.take(i + 1).last() == args@[i as int]@);
        }
        if !found {
            let a = to_chars(args[i].as_str());
            if arg_is_condensed(a.as_slice()) {
                condensed = a;
                found = true;
            }
        }
        i += 1;
    }
    assert(views.take(views.len() as int) =~= views);
    let mut builder = parse_condensed(TransferOptions::builder(), condensed.as_slice());
    let ghost start = builder@;
    let mut j: usize = 0;
    assert(find_long(views.take(0)) =~= Seq::<Seq<char>>::empty());
    while j < args.len()
        invariant
            j <= args.len(),
            views == text_views(args@),
            views.len() == args.len(),
            builder@ == apply_longs(start, find_long(views.take(j as int))),
        decreases args.len() - j,
    {
        let a = to_chars(args[j].as_str());
        proof {
            assert(views.take(j + 1).drop_last() =~= views.take(j as int));
            assert(views.take(j + 1).last() == a@);
            let l = find_long(views.take(j as int));
            assert(l.push(a@).drop_last() =~= l);
            reveal(apply_long);
        }
        if arg_is_long(a.as_slice()) {
            builder = parse_value(parse_switch(builder, a.as_slice()), a.as_slice());
        }
        j += 1;
    }
    if am_sender {
        builder.source(module_dir).build()
    } else {
        builder.dest(module_dir).build()
    }
}

fn arg_is_role(s: &[char]) -> (r: bool)
    ensures
        r == is_role_arg(s@),
{
    chars_are(s, "--server") || chars_are(s, "--sender") || chars_are(s, ".")
}

fn arg_is_long(s: &[char]) -> (r: bool)
    ensures
        r == is_long(s@),
{
    !arg_is_role(s) && has_prefix(s, "--")
}

fn arg_is_condensed(s: &[char]) -> (r: bool)
    ensures
        r == is_condensed(s@),
{
    !arg_is_role(s) && !has_prefix(s, "--") && s.len() > 0 && s[0] == '-'
}

} // verus!
