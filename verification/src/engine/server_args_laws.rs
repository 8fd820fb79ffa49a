//! What a client sends is what the server reads.
//!
//! Reading the argument list that was built from options gives back those of
//! the options that the list carries.

use vstd::prelude::*;

use crate::engine::server_args::{
    all_letters, apply_condensed, apply_letters, apply_long, apply_longs, apply_switch,
    archive_switches, chosen, chown_value, condensed_arg, count_merge, delete_args,
    delete_mode_args, link_args, partial_args, skip_args, source_args, write_args,
    find_condensed, find_long, first_switches, flag_arg, id_text, is_condensed, is_long,
    letters_of, list_args, long_options, merge_letters, number_of, opt_decimal, opt_signed,
    parsed_args, path_of, second_switches, sent_links, sent_window, server_args, shown_path,
    shown_paths, switch_letters, switches, third_switches, tuning_args, value_arg,
    value_of, verbosity_letters, with_module,
};
use crate::filelist::entry::valid_text_is_kept;
use crate::options::{
    ArchiveFlags, BehaviorFlags, DeleteMode, Limits, OptionsView, OutputFlags, PathOptionsView,
    TextOptionsView, TreeFlags, Verbosity,
};
use crate::text::{
    decimal, found_at, is_digit, lossy_text, numeral_is_read_back, signed_decimal, starts_with,
    unsigned_body, written_numeral_parses, written_signed_parses,
};

verus! {

// ---------------------------------------------------------------------------
// What the list carries
// ---------------------------------------------------------------------------

/// The options that the server has after reading the client's list.
pub open spec fn carried(v: OptionsView, path: Seq<u8>, am_sender: bool) -> OptionsView {
    let special = v.archive.preserve_devices || v.archive.preserve_specials;
    OptionsView {
        archive: ArchiveFlags {
            preserve_devices: special,
            preserve_specials: special,
            ..v.archive
        },
        behavior: BehaviorFlags { backup: false, ..v.behavior },
        tree: v.tree,
        output: OutputFlags {
            progress: false,
            stats: false,
            itemize_changes: false,
            ..v.output
        },
        limits: Limits {
            filter_merge_files: v.limits.filter_merge_files,
            modify_window: v.limits.modify_window,
            max_delete: v.limits.max_delete,
            block_size: v.limits.block_size,
            chown_uid: v.limits.chown_uid,
            chown_gid: v.limits.chown_gid,
            ..Limits::initial()
        },
        texts: TextOptionsView { chmod: v.texts.chmod, ..OptionsView::initial().texts },
        paths: PathOptionsView {
            source: if am_sender {
                seq![path]
            } else {
                Seq::empty()
            },
            dest: if am_sender {
                None
            } else {
                Some(path)
            },
            link_dest: if am_sender {
                v.paths.link_dest
            } else {
                Seq::empty()
            },
            exclude_from: v.paths.exclude_from,
            include_from: v.paths.include_from,
            partial_dir: v.paths.partial_dir,
            ..OptionsView::initial().paths
        },
    }
}

/// Whether every path that is sent as text is UTF-8.
pub open spec fn paths_are_text(v: OptionsView) -> bool {
    &&& forall|i: int|
        0 <= i < v.paths.exclude_from.len() ==> vstd::utf8::valid_utf8(
            #[trigger] v.paths.exclude_from[i],
        )
    &&& forall|i: int|
        0 <= i < v.paths.include_from.len() ==> vstd::utf8::valid_utf8(
            #[trigger] v.paths.include_from[i],
        )
    &&& forall|i: int|
        0 <= i < v.paths.link_dest.len() ==> vstd::utf8::valid_utf8(#[trigger] v.paths.link_dest[i])
    &&& v.paths.partial_dir is Some ==> vstd::utf8::valid_utf8(v.paths.partial_dir->0)
}

// ---------------------------------------------------------------------------
// Letters
// ---------------------------------------------------------------------------

/// Whether a table sets a letter.
spec fn listed(t: Seq<(bool, char)>, c: char) -> bool {
    exists|i: int| 0 <= i < t.len() && (#[trigger] t[i]).0 && t[i].1 == c
}

proof fn chosen_contains(t: Seq<(bool, char)>, c: char)
    ensures
        chosen(t).contains(c) == listed(t, c),
    decreases t.len(),
{
    if t.len() > 0 {
        let h = t.drop_last();
        chosen_contains(h, c);
        if listed(h, c) {
            let i = choose|i: int| 0 <= i < h.len() && (#[trigger] h[i]).0 && h[i].1 == c;
            assert(t[i] == h[i]);
        }
        if listed(t, c) && !(t.last().0 && t.last().1 == c) {
            let i = choose|i: int| 0 <= i < t.len() && (#[trigger] t[i]).0 && t[i].1 == c;
            assert(h[i] == t[i]);
        }
        if t.last().0 {
            contains_push(chosen(h), t.last().1, c);
            if t.last().1 == c {
                assert(t[t.len() - 1].0);
            }
        }
    }
}

proof fn contains_push(s: Seq<char>, x: char, c: char)
    ensures
        s.push(x).contains(c) == (s.contains(c) || x == c),
{
    let t = s.push(x);
    if s.contains(c) {
        let i = choose|i: int| 0 <= i < s.len() && s[i] == c;
        assert(t[i] == c);
    }
    if x == c {
        assert(t[s.len() as int] == c);
    }
    if t.contains(c) && x != c {
        let i = choose|i: int| 0 <= i < t.len() && t[i] == c;
        assert(s[i] == c);
    }
}

proof fn contains_concat(a: Seq<char>, b: Seq<char>, c: char)
    ensures
        (a + b).contains(c) == (a.contains(c) || b.contains(c)),
{
    let t = a + b;
    if a.contains(c) {
        let i = choose|i: int| 0 <= i < a.len() && a[i] == c;
        assert(t[i] == c);
    }
    if b.contains(c) {
        let i = choose|i: int| 0 <= i < b.len() && b[i] == c;
        assert(t[a.len() + i] == c);
    }
    if t.contains(c) && !a.contains(c) {
        let i = choose|i: int| 0 <= i < t.len() && t[i] == c;
        if i < a.len() {
            assert(a[i] == c);
        } else {
            assert(b[i - a.len()] == c);
        }
    }
}

proof fn listed_concat(a: Seq<(bool, char)>, b: Seq<(bool, char)>, c: char)
    ensures
        listed(a + b, c) == (listed(a, c) || listed(b, c)),
{
    let t = a + b;
    if listed(a, c) {
        let i = choose|i: int| 0 <= i < a.len() && (#[trigger] a[i]).0 && a[i].1 == c;
        assert(t[i] == a[i]);
    }
    if listed(b, c) {
        let i = choose|i: int| 0 <= i < b.len() && (#[trigger] b[i]).0 && b[i].1 == c;
        assert(t[a.len() + i] == b[i]);
    }
    if listed(t, c) && !listed(a, c) {
        let i = choose|i: int| 0 <= i < t.len() && (#[trigger] t[i]).0 && t[i].1 == c;
        if i < a.len() {
            assert(a[i] == t[i]);
        } else {
            assert(b[i - a.len()] == t[i]);
        }
    }
}

/// Whether a letter belongs to an option of the table.
spec fn letter_set(v: OptionsView, c: char) -> bool {
    if c == 'l' {
        v.archive.preserve_links
    } else if c == 'o' {
        v.archive.preserve_owner
    } else if c == 'g' {
        v.archive.preserve_group
    } else if c == 'D' {
        v.archive.preserve_devices || v.archive.preserve_specials
    } else if c == 't' {
        v.archive.preserve_times
    } else if c == 'p' {
        v.archive.preserve_perms
    } else if c == 'r' {
        v.archive.recursive
    } else if c == 'z' {
        v.output.compress
    } else if c == 'c' {
        v.behavior.checksum_mode
    } else if c == 'u' {
        v.behavior.update
    } else if c == 'n' {
        v.output.dry_run
    } else if c == 'W' {
        v.behavior.whole_file
    } else if c == 'x' {
        v.tree.one_file_system
    } else if c == 'S' {
        v.behavior.sparse
    } else if c == 'I' {
        v.behavior.ignore_times
    } else if c == 'm' {
        v.tree.prune_empty_dirs
    } else if c == 'R' {
        v.tree.relative
    } else if c == 'L' {
        v.tree.copy_links
    } else if c == 'K' {
        v.tree.keep_dirlinks
    } else if c == 'd' {
        v.tree.dirs
    } else if c == 'C' {
        v.tree.cvs_exclude
    } else if c == 'y' {
        v.behavior.fuzzy
    } else if c == 'H' {
        v.tree.preserve_hard_links
    } else if c == 'A' {
        v.tree.preserve_acls
    } else if c == 'X' {
        v.tree.preserve_xattrs
    } else {
        false
    }
}

proof fn listed_in_archive_switches(v: OptionsView, c: char)
    ensures
        listed(archive_switches(v), c) == (letter_set(v, c) && (c == 'l' || c == 'o' || c == 'g' || c == 'D' || c == 't' || c == 'p' || c == 'r')),
{
    let t = archive_switches(v);
    assert(t[0].1 == 'l');
    assert(t[1].1 == 'o');
    assert(t[2].1 == 'g');
    assert(t[3].1 == 'D');
    assert(t[4].1 == 't');
    assert(t[5].1 == 'p');
    assert(t[6].1 == 'r');
}

proof fn listed_in_first_switches(v: OptionsView, c: char)
    ensures
        listed(first_switches(v), c) == (letter_set(v, c) && (c == 'z' || c == 'c' || c == 'u' || c == 'n' || c == 'W' || c == 'x')),
{
    let t = first_switches(v);
    assert(t[0].1 == 'z');
    assert(t[1].1 == 'c');
    assert(t[2].1 == 'u');
    assert(t[3].1 == 'n');
    assert(t[4].1 == 'W');
    assert(t[5].1 == 'x');
}

proof fn listed_in_second_switches(v: OptionsView, c: char)
    ensures
        listed(second_switches(v), c) == (letter_set(v, c) && (c == 'S' || c == 'I' || c == 'm' || c == 'R' || c == 'L' || c == 'K')),
{
    let t = second_switches(v);
    assert(t[0].1 == 'S');
    assert(t[1].1 == 'I');
    assert(t[2].1 == 'm');
    assert(t[3].1 == 'R');
    assert(t[4].1 == 'L');
    assert(t[5].1 == 'K');
}

proof fn listed_in_third_switches(v: OptionsView, c: char)
    ensures
        listed(third_switches(v), c) == (letter_set(v, c) && (c == 'd' || c == 'C' || c == 'y' || c == 'H' || c == 'A' || c == 'X')),
{
    let t = third_switches(v);
    assert(t[0].1 == 'd');
    assert(t[1].1 == 'C');
    assert(t[2].1 == 'y');
    assert(t[3].1 == 'H');
    assert(t[4].1 == 'A');
    assert(t[5].1 == 'X');
}

/// A letter is sent exactly where its option is set.
proof fn switch_letters_contain(v: OptionsView, c: char)
    ensures
        switch_letters(v).contains(c) == letter_set(v, c),
{
    chosen_contains(switches(v), c);
    listed_concat(archive_switches(v), first_switches(v), c);
    listed_concat(archive_switches(v) + first_switches(v), second_switches(v), c);
    listed_concat(
        archive_switches(v) + first_switches(v) + second_switches(v),
        third_switches(v),
        c,
    );
    listed_in_archive_switches(v, c);
    listed_in_first_switches(v, c);
    listed_in_second_switches(v, c);
    listed_in_third_switches(v, c);
}

/// Which characters stand in front of the capability string.
proof fn all_letters_contain(v: OptionsView, c: char)
    ensures
        c != 'F' && c != 'q' && c != 'v' ==> all_letters(v).contains(c) == letter_set(v, c),
{
    let m = merge_letters(v.limits.filter_merge_files as nat);
    let q = verbosity_letters(v.output.verbosity);
    contains_concat(switch_letters(v) + m, q, c);
    contains_concat(switch_letters(v), m, c);
    switch_letters_contain(v, c);
    if m.contains(c) {
        let i = choose|i: int| 0 <= i < m.len() && m[i] == c;
        assert(m[i] == 'F');
    }
}

/// Letters are taken one run after the other.
proof fn letters_in_turn(v: OptionsView, s: Seq<char>, t: Seq<char>)
    ensures
        apply_letters(v, s + t) == apply_letters(apply_letters(v, s), t),
    decreases t.len(),
{
    if t.len() > 0 {
        letters_in_turn(v, s, t.drop_last());
        assert((s + t).drop_last() =~= s + t.drop_last());
        assert((s + t).last() == t.last());
    } else {
        assert(s + t =~= s);
    }
}

/// Only its own letters change the verbosity.
proof fn verbosity_after_others(v: OptionsView, s: Seq<char>)
    requires
        !s.contains('v'),
        !s.contains('q'),
    ensures
        apply_letters(v, s).output.verbosity == v.output.verbosity,
    decreases s.len(),
{
    if s.len() > 0 {
        let h = s.drop_last();
        assert(s =~= h.push(s.last()));
        contains_push(h, s.last(), 'v');
        contains_push(h, s.last(), 'q');
        verbosity_after_others(v, h);
    }
}

/// The letters of a verbosity are read back.
proof fn verbosity_after_letters(v: OptionsView, b: Verbosity)
    requires
        v.output.verbosity is Normal,
    ensures
        apply_letters(v, verbosity_letters(b)).output.verbosity == b,
{
    let q = verbosity_letters(b);
    reveal_with_fuel(apply_letters, 4);
    if q.len() > 0 {
        let h = q.drop_last();
        if h.len() > 0 {
            let g = h.drop_last();
            assert(g.len() > 0 ==> g.drop_last().len() == 0);
        }
    }
}

/// The verbosity is read back from all letters.
proof fn verbosity_kept(v: OptionsView)
    ensures
        apply_letters(OptionsView::initial(), all_letters(v)).output.verbosity
            == v.output.verbosity,
{
    let i = OptionsView::initial();
    let m = merge_letters(v.limits.filter_merge_files as nat);
    let s = switch_letters(v) + m;
    contains_concat(switch_letters(v), m, 'v');
    contains_concat(switch_letters(v), m, 'q');
    switch_letters_contain(v, 'v');
    switch_letters_contain(v, 'q');
    assert(forall|k: int| 0 <= k < m.len() ==> m[k] == 'F');
    verbosity_after_others(i, s);
    letters_in_turn(i, s, verbosity_letters(v.output.verbosity));
    verbosity_after_letters(apply_letters(i, s), v.output.verbosity);
}

/// The options of this group after a run of letters.
#[verifier::spinoff_prover]
#[verifier::rlimit(60)]
proof fn archive_after_letters(v: OptionsView, s: Seq<char>)
    ensures
        apply_letters(v, s).archive == (ArchiveFlags {
            preserve_links: v.archive.preserve_links || s.contains('l'),
            preserve_owner: v.archive.preserve_owner || s.contains('o'),
            preserve_group: v.archive.preserve_group || s.contains('g'),
            preserve_devices: v.archive.preserve_devices || s.contains('D'),
            preserve_specials: v.archive.preserve_specials || s.contains('D'),
            preserve_times: v.archive.preserve_times || s.contains('t'),
            preserve_perms: v.archive.preserve_perms || s.contains('p'),
            recursive: v.archive.recursive || s.contains('r'),
            ..v.archive
        }),
    decreases s.len(),
{
    if s.len() > 0 {
        let h = s.drop_last();
        archive_after_letters(v, h);
        assert(s =~= h.push(s.last()));
        contains_push(h, s.last(), 'l');
        contains_push(h, s.last(), 'o');
        contains_push(h, s.last(), 'g');
        contains_push(h, s.last(), 'D');
        contains_push(h, s.last(), 't');
        contains_push(h, s.last(), 'p');
        contains_push(h, s.last(), 'r');
    }
}

/// The options of this group after a run of letters.
#[verifier::spinoff_prover]
#[verifier::rlimit(60)]
proof fn behavior_after_letters(v: OptionsView, s: Seq<char>)
    ensures
        apply_letters(v, s).behavior == (BehaviorFlags {
            checksum_mode: v.behavior.checksum_mode || s.contains('c'),
            update: v.behavior.update || s.contains('u'),
            whole_file: v.behavior.whole_file || s.contains('W'),
            sparse: v.behavior.sparse || s.contains('S'),
            ignore_times: v.behavior.ignore_times || s.contains('I'),
            fuzzy: v.behavior.fuzzy || s.contains('y'),
            ..v.behavior
        }),
    decreases s.len(),
{
    if s.len() > 0 {
        let h = s.drop_last();
        behavior_after_letters(v, h);
        assert(s =~= h.push(s.last()));
        contains_push(h, s.last(), 'c');
        contains_push(h, s.last(), 'u');
        contains_push(h, s.last(), 'W');
        contains_push(h, s.last(), 'S');
        contains_push(h, s.last(), 'I');
        contains_push(h, s.last(), 'y');
    }
}

/// The options of this group after a run of letters.
#[verifier::spinoff_prover]
#[verifier::rlimit(60)]
proof fn tree_after_letters(v: OptionsView, s: Seq<char>)
    ensures
        apply_letters(v, s).tree == (TreeFlags {
            one_file_system: v.tree.one_file_system || s.contains('x'),
            prune_empty_dirs: v.tree.prune_empty_dirs || s.contains('m'),
            relative: v.tree.relative || s.contains('R'),
            copy_links: v.tree.copy_links || s.contains('L'),
            keep_dirlinks: v.tree.keep_dirlinks || s.contains('K'),
            dirs: v.tree.dirs || s.contains('d'),
            cvs_exclude: v.tree.cvs_exclude || s.contains('C'),
            preserve_hard_links: v.tree.preserve_hard_links || s.contains('H'),
            preserve_acls: v.tree.preserve_acls || s.contains('A'),
            preserve_xattrs: v.tree.preserve_xattrs || s.contains('X'),
            ..v.tree
        }),
    decreases s.len(),
{
    if s.len() > 0 {
        let h = s.drop_last();
        tree_after_letters(v, h);
        assert(s =~= h.push(s.last()));
        contains_push(h, s.last(), 'x');
        contains_push(h, s.last(), 'm');
        contains_push(h, s.last(), 'R');
        contains_push(h, s.last(), 'L');
        contains_push(h, s.last(), 'K');
        contains_push(h, s.last(), 'd');
        contains_push(h, s.last(), 'C');
        contains_push(h, s.last(), 'H');
        contains_push(h, s.last(), 'A');
        contains_push(h, s.last(), 'X');
    }
}

/// The options of this group after a run of letters.
#[verifier::spinoff_prover]
#[verifier::rlimit(60)]
proof fn output_after_letters(v: OptionsView, s: Seq<char>)
    ensures
        apply_letters(v, s).output == (OutputFlags {
            compress: v.output.compress || s.contains('z'),
            dry_run: v.output.dry_run || s.contains('n'),
            verbosity: apply_letters(v, s).output.verbosity,
            ..v.output
        }),
    decreases s.len(),
{
    if s.len() > 0 {
        let h = s.drop_last();
        output_after_letters(v, h);
        assert(s =~= h.push(s.last()));
        contains_push(h, s.last(), 'z');
        contains_push(h, s.last(), 'n');
    }
}

/// Letters leave numbers, texts and paths as they are.
proof fn rest_after_letters(v: OptionsView, s: Seq<char>)
    ensures
        apply_letters(v, s).limits == v.limits,
        apply_letters(v, s).texts == v.texts,
        apply_letters(v, s).paths == v.paths,
    decreases s.len(),
{
    if s.len() > 0 {
        rest_after_letters(v, s.drop_last());
    }
}

proof fn no_merge_letters(s: Seq<char>, t: Seq<char>)
    requires
        !t.contains('F'),
    ensures
        count_merge(s + t) == count_merge(s),
    decreases t.len(),
{
    if t.len() > 0 {
        let h = t.drop_last();
        assert(t =~= h.push(t.last()));
        contains_push(h, t.last(), 'F');
        no_merge_letters(s, h);
        assert((s + t).drop_last() =~= s + h);
        assert((s + t).last() == t.last());
    } else {
        assert(s + t =~= s);
    }
}

proof fn merge_letters_counted(s: Seq<char>, n: nat)
    requires
        count_merge(s) == 0,
        n <= 255,
    ensures
        count_merge(s + merge_letters(n)) == n,
    decreases n,
{
    if n > 0 {
        let m = (n - 1) as nat;
        merge_letters_counted(s, m);
        let t = s + merge_letters(n);
        assert(t.drop_last() =~= s + merge_letters(m));
        assert(t.last() == 'F');
    } else {
        assert(s + merge_letters(0) =~= s);
    }
}

/// The number of filter file letters is read back.
proof fn merge_level_kept(v: OptionsView)
    ensures
        count_merge(all_letters(v)) == v.limits.filter_merge_files,
{
    let s = switch_letters(v);
    let n = v.limits.filter_merge_files as nat;
    let q = verbosity_letters(v.output.verbosity);
    switch_letters_contain(v, 'F');
    assert(Seq::<char>::empty() + s =~= s);
    no_merge_letters(Seq::empty(), s);
    merge_letters_counted(s, n);
    assert(!q.contains('F'));
    no_merge_letters(s + merge_letters(n), q);
}

/// The letters are found again in the condensed argument.
proof fn letters_found(v: OptionsView, am_sender: bool)
    ensures
        letters_of(condensed_arg(v, am_sender)) == all_letters(v),
        is_condensed(condensed_arg(v, am_sender)),
        !is_long(condensed_arg(v, am_sender)),
{
    let l = all_letters(v);
    let c = condensed_arg(v, am_sender);
    let n = 1 + l.len();
    all_letters_contain(v, 'e');
    all_letters_contain(v, '-');
    assert(c[n as int] == 'e');
    assert forall|i: int| 0 <= i < n implies c[i] != 'e' by {
        if i > 0 {
            assert(c[i] == l[i - 1]);
            assert(l.contains(l[i - 1]));
        } else {
            assert(c[0] == '-');
        }
    }
    found_at(c, 'e', n as int);
    assert(letters_of(c) =~= l);
    assert(c[0] == '-');
    assert(c[1] != '-') by {
        if l.len() > 0 {
            assert(c[1] == l[0]);
            assert(l.contains(l[0]));
        }
    }
    literal_facts();
    assert(starts_with(c, "--"@) ==> c.take(2)[1] == '-');
}

/// What the server has after the condensed argument.
spec fn after_condensed(v: OptionsView) -> OptionsView {
    let special = v.archive.preserve_devices || v.archive.preserve_specials;
    OptionsView {
        archive: ArchiveFlags {
            preserve_devices: special,
            preserve_specials: special,
            ..v.archive
        },
        behavior: BehaviorFlags {
            checksum_mode: v.behavior.checksum_mode,
            update: v.behavior.update,
            whole_file: v.behavior.whole_file,
            sparse: v.behavior.sparse,
            ignore_times: v.behavior.ignore_times,
            fuzzy: v.behavior.fuzzy,
            ..BehaviorFlags::initial()
        },
        tree: TreeFlags {
            safe_links: false,
            remove_source_files: false,
            numeric_ids: false,
            fake_super: false,
            ..v.tree
        },
        output: OutputFlags {
            compress: v.output.compress,
            dry_run: v.output.dry_run,
            verbosity: v.output.verbosity,
            ..OutputFlags::initial()
        },
        limits: Limits {
            filter_merge_files: v.limits.filter_merge_files,
            ..Limits::initial()
        },
        ..OptionsView::initial()
    }
}

proof fn condensed_read_back(v: OptionsView, am_sender: bool)
    ensures
        apply_condensed(OptionsView::initial(), condensed_arg(v, am_sender)) == after_condensed(v),
{
    let i = OptionsView::initial();
    let l = all_letters(v);
    letters_found(v, am_sender);
    merge_level_kept(v);
    archive_after_letters(i, l);
    behavior_after_letters(i, l);
    tree_after_letters(i, l);
    output_after_letters(i, l);
    verbosity_kept(v);
    rest_after_letters(i, l);
    all_letters_contain(v, 'l');
    all_letters_contain(v, 'o');
    all_letters_contain(v, 'g');
    all_letters_contain(v, 'D');
    all_letters_contain(v, 't');
    all_letters_contain(v, 'p');
    all_letters_contain(v, 'r');
    all_letters_contain(v, 'z');
    all_letters_contain(v, 'c');
    all_letters_contain(v, 'u');
    all_letters_contain(v, 'n');
    all_letters_contain(v, 'W');
    all_letters_contain(v, 'x');
    all_letters_contain(v, 'S');
    all_letters_contain(v, 'I');
    all_letters_contain(v, 'm');
    all_letters_contain(v, 'R');
    all_letters_contain(v, 'L');
    all_letters_contain(v, 'K');
    all_letters_contain(v, 'd');
    all_letters_contain(v, 'C');
    all_letters_contain(v, 'y');
    all_letters_contain(v, 'H');
    all_letters_contain(v, 'A');
    all_letters_contain(v, 'X');
}

// ---------------------------------------------------------------------------
// Finding the arguments
// ---------------------------------------------------------------------------

proof fn condensed_is_first(c: Seq<char>, rest: Seq<Seq<char>>)
    requires
        is_condensed(c),
    ensures
        find_condensed(seq![c] + rest) == Some(c),
    decreases rest.len(),
{
    let all = seq![c] + rest;
    if rest.len() > 0 {
        condensed_is_first(c, rest.drop_last());
        assert(all.drop_last() =~= seq![c] + rest.drop_last());
    } else {
        assert(all =~= seq![c]);
        assert(all.drop_last() =~= Seq::<Seq<char>>::empty());
        assert(find_condensed(all.drop_last()) is None);
        assert(all.last() == c);
    }
}

proof fn longs_are_found(c: Seq<char>, rest: Seq<Seq<char>>)
    requires
        !is_long(c),
        forall|i: int| 0 <= i < rest.len() ==> is_long(#[trigger] rest[i]),
    ensures
        find_long(seq![c] + rest) == rest,
    decreases rest.len(),
{
    let all = seq![c] + rest;
    if rest.len() > 0 {
        let h = rest.drop_last();
        assert forall|i: int| 0 <= i < h.len() implies is_long(#[trigger] h[i]) by {
            assert(h[i] == rest[i]);
        }
        longs_are_found(c, h);
        assert(all.drop_last() =~= seq![c] + h);
        assert(all.last() == rest.last());
        assert(rest.last() == rest[rest.len() - 1]);
        assert(h.push(rest.last()) =~= rest);
    } else {
        assert(all.drop_last() =~= Seq::<Seq<char>>::empty());
        assert(all.last() == c);
        assert(find_long(all.drop_last()) =~= Seq::<Seq<char>>::empty());
        assert(find_long(all) =~= Seq::<Seq<char>>::empty());
        assert(rest =~= Seq::<Seq<char>>::empty());
    }
}

/// Whether every argument of a run is a long option.
spec fn all_long(args: Seq<Seq<char>>) -> bool {
    forall|i: int| 0 <= i < args.len() ==> is_long(#[trigger] args[i])
}

proof fn long_concat(a: Seq<Seq<char>>, b: Seq<Seq<char>>)
    requires
        all_long(a),
        all_long(b),
    ensures
        all_long(a + b),
{
    let t = a + b;
    assert forall|i: int| 0 <= i < t.len() implies is_long(#[trigger] t[i]) by {
        if i < a.len() {
            assert(t[i] == a[i]);
        } else {
            assert(t[i] == b[i - a.len()]);
        }
    }
}

proof fn applied_in_turn(v: OptionsView, a: Seq<Seq<char>>, b: Seq<Seq<char>>)
    ensures
        apply_longs(v, a + b) == apply_longs(apply_longs(v, a), b),
    decreases b.len(),
{
    if b.len() > 0 {
        applied_in_turn(v, a, b.drop_last());
        assert((a + b).drop_last() =~= a + b.drop_last());
        assert((a + b).last() == b.last());
    } else {
        assert(a + b =~= a);
    }
}

proof fn applied_once(v: OptionsView, s: Seq<char>)
    ensures
        apply_longs(v, seq![s]) == apply_long(v, s),
        apply_longs(v, Seq::empty()) == v,
{
    let t = seq![s];
    assert(t.drop_last() =~= Seq::<Seq<char>>::empty());
    assert(t.last() == s);
    assert(apply_longs(v, t.drop_last()) == v);
}

// ---------------------------------------------------------------------------
// The option texts
// ---------------------------------------------------------------------------

/// Lengths and telling characters of the option texts.
proof fn literal_facts()
    ensures
        "--inplace"@.len() == 9,
        "--inplace"@[0] == '-',
        "--inplace"@[1] == '-',
        "--inplace"@[2] == 'i',
        "--inplace"@[3] == 'n',
        "--inplace"@[4] == 'p',
        "--numeric-ids"@.len() == 13,
        "--numeric-ids"@[0] == '-',
        "--numeric-ids"@[1] == '-',
        "--numeric-ids"@[2] == 'n',
        "--numeric-ids"@[3] == 'u',
        "--numeric-ids"@[4] == 'm',
        "--numeric-ids"@[9] == '-',
        "--append"@.len() == 8,
        "--append"@[0] == '-',
        "--append"@[1] == '-',
        "--append"@[2] == 'a',
        "--append"@[3] == 'p',
        "--append"@[4] == 'p',
        "--size-only"@.len() == 11,
        "--size-only"@[0] == '-',
        "--size-only"@[1] == '-',
        "--size-only"@[2] == 's',
        "--size-only"@[3] == 'i',
        "--size-only"@[4] == 'z',
        "--size-only"@[9] == 'l',
        "--existing"@.len() == 10,
        "--existing"@[0] == '-',
        "--existing"@[1] == '-',
        "--existing"@[2] == 'e',
        "--existing"@[3] == 'x',
        "--existing"@[4] == 'i',
        "--existing"@[9] == 'g',
        "--ignore-existing"@.len() == 17,
        "--ignore-existing"@[0] == '-',
        "--ignore-existing"@[1] == '-',
        "--ignore-existing"@[2] == 'i',
        "--ignore-existing"@[3] == 'g',
        "--ignore-existing"@[4] == 'n',
        "--ignore-existing"@[9] == 'e',
        "--safe-links"@.len() == 12,
        "--safe-links"@[0] == '-',
        "--safe-links"@[1] == '-',
        "--safe-links"@[2] == 's',
        "--safe-links"@[3] == 'a',
        "--safe-links"@[4] == 'f',
        "--safe-links"@[9] == 'n',
        "--remove-source-files"@.len() == 21,
        "--remove-source-files"@[0] == '-',
        "--remove-source-files"@[1] == '-',
        "--remove-source-files"@[2] == 'r',
        "--remove-source-files"@[3] == 'e',
        "--remove-source-files"@[4] == 'm',
        "--remove-source-files"@[9] == 's',
        "--append-verify"@.len() == 15,
        "--append-verify"@[0] == '-',
        "--append-verify"@[1] == '-',
        "--append-verify"@[2] == 'a',
        "--append-verify"@[3] == 'p',
        "--append-verify"@[4] == 'p',
        "--append-verify"@[9] == 'v',
        "--partial"@.len() == 9,
        "--partial"@[0] == '-',
        "--partial"@[1] == '-',
        "--partial"@[2] == 'p',
        "--partial"@[3] == 'a',
        "--partial"@[4] == 'r',
        "--list-only"@.len() == 11,
        "--list-only"@[0] == '-',
        "--list-only"@[1] == '-',
        "--list-only"@[2] == 'l',
        "--list-only"@[3] == 'i',
        "--list-only"@[4] == 's',
        "--list-only"@[9] == 'l',
        "--fake-super"@.len() == 12,
        "--fake-super"@[0] == '-',
        "--fake-super"@[1] == '-',
        "--fake-super"@[2] == 'f',
        "--fake-super"@[3] == 'a',
        "--fake-super"@[4] == 'k',
        "--fake-super"@[9] == 'p',
        "--delete-before"@.len() == 15,
        "--delete-before"@[0] == '-',
        "--delete-before"@[1] == '-',
        "--delete-before"@[2] == 'd',
        "--delete-before"@[3] == 'e',
        "--delete-before"@[4] == 'l',
        "--delete-before"@[9] == 'b',
        "--delete-during"@.len() == 15,
        "--delete-during"@[0] == '-',
        "--delete-during"@[1] == '-',
        "--delete-during"@[2] == 'd',
        "--delete-during"@[3] == 'e',
        "--delete-during"@[4] == 'l',
        "--delete-during"@[9] == 'd',
        "--delete-after"@.len() == 14,
        "--delete-after"@[0] == '-',
        "--delete-after"@[1] == '-',
        "--delete-after"@[2] == 'd',
        "--delete-after"@[3] == 'e',
        "--delete-after"@[4] == 'l',
        "--delete-after"@[9] == 'a',
        "--delete-excluded"@.len() == 17,
        "--delete-excluded"@[0] == '-',
        "--delete-excluded"@[1] == '-',
        "--delete-excluded"@[2] == 'd',
        "--delete-excluded"@[3] == 'e',
        "--delete-excluded"@[4] == 'l',
        "--delete-excluded"@[9] == 'e',
        "--max-delete="@.len() == 13,
        "--max-delete="@[0] == '-',
        "--max-delete="@[1] == '-',
        "--max-delete="@[2] == 'm',
        "--max-delete="@[3] == 'a',
        "--max-delete="@[4] == 'x',
        "--max-delete="@[9] == 'e',
        "--modify-window="@.len() == 16,
        "--modify-window="@[0] == '-',
        "--modify-window="@[1] == '-',
        "--modify-window="@[2] == 'm',
        "--modify-window="@[3] == 'o',
        "--modify-window="@[4] == 'd',
        "--modify-window="@[9] == 'w',
        "--block-size="@.len() == 13,
        "--block-size="@[0] == '-',
        "--block-size="@[1] == '-',
        "--block-size="@[2] == 'b',
        "--block-size="@[3] == 'l',
        "--block-size="@[4] == 'o',
        "--block-size="@[9] == 'i',
        "--chmod="@.len() == 8,
        "--chmod="@[0] == '-',
        "--chmod="@[1] == '-',
        "--chmod="@[2] == 'c',
        "--chmod="@[3] == 'h',
        "--chmod="@[4] == 'm',
        "--chown="@.len() == 8,
        "--chown="@[0] == '-',
        "--chown="@[1] == '-',
        "--chown="@[2] == 'c',
        "--chown="@[3] == 'h',
        "--chown="@[4] == 'o',
        "--exclude-from="@.len() == 15,
        "--exclude-from="@[0] == '-',
        "--exclude-from="@[1] == '-',
        "--exclude-from="@[2] == 'e',
        "--exclude-from="@[3] == 'x',
        "--exclude-from="@[4] == 'c',
        "--exclude-from="@[9] == '-',
        "--include-from="@.len() == 15,
        "--include-from="@[0] == '-',
        "--include-from="@[1] == '-',
        "--include-from="@[2] == 'i',
        "--include-from="@[3] == 'n',
        "--include-from="@[4] == 'c',
        "--include-from="@[9] == '-',
        "--link-dest="@.len() == 12,
        "--link-dest="@[0] == '-',
        "--link-dest="@[1] == '-',
        "--link-dest="@[2] == 'l',
        "--link-dest="@[3] == 'i',
        "--link-dest="@[4] == 'n',
        "--link-dest="@[9] == 's',
        "--partial-dir="@.len() == 14,
        "--partial-dir="@[0] == '-',
        "--partial-dir="@[1] == '-',
        "--partial-dir="@[2] == 'p',
        "--partial-dir="@[3] == 'a',
        "--partial-dir="@[4] == 'r',
        "--partial-dir="@[9] == '-',
        "--server"@.len() == 8,
        "--server"@[0] == '-',
        "--server"@[1] == '-',
        "--server"@[2] == 's',
        "--server"@[3] == 'e',
        "--server"@[4] == 'r',
        "--sender"@.len() == 8,
        "--sender"@[0] == '-',
        "--sender"@[1] == '-',
        "--sender"@[2] == 's',
        "--sender"@[3] == 'e',
        "--sender"@[4] == 'n',
        "."@.len() == 1,
        "."@[0] == '.',
        "--"@.len() == 2,
        "--"@[0] == '-',
        "--"@[1] == '-',
{
    reveal_strlit("--inplace");
    reveal_strlit("--numeric-ids");
    reveal_strlit("--append");
    reveal_strlit("--size-only");
    reveal_strlit("--existing");
    reveal_strlit("--ignore-existing");
    reveal_strlit("--safe-links");
    reveal_strlit("--remove-source-files");
    reveal_strlit("--append-verify");
    reveal_strlit("--partial");
    reveal_strlit("--list-only");
    reveal_strlit("--fake-super");
    reveal_strlit("--delete-before");
    reveal_strlit("--delete-during");
    reveal_strlit("--delete-after");
    reveal_strlit("--delete-excluded");
    reveal_strlit("--max-delete=");
    reveal_strlit("--modify-window=");
    reveal_strlit("--block-size=");
    reveal_strlit("--chmod=");
    reveal_strlit("--chown=");
    reveal_strlit("--exclude-from=");
    reveal_strlit("--include-from=");
    reveal_strlit("--link-dest=");
    reveal_strlit("--partial-dir=");
    reveal_strlit("--server");
    reveal_strlit("--sender");
    reveal_strlit(".");
    reveal_strlit("--");
}

/// A text with a prefix in front.
proof fn prefixed(prefix: Seq<char>, x: Seq<char>)
    ensures
        starts_with(prefix + x, prefix),
        value_of(prefix + x, prefix) == x,
        forall|i: int| 0 <= i < prefix.len() ==> (prefix + x)[i] == prefix[i],
{
    assert((prefix + x).take(prefix.len() as int) =~= prefix);
    assert(value_of(prefix + x, prefix) =~= x);
}

/// A text that differs from a prefix somewhere does not start with it.
proof fn not_prefixed(s: Seq<char>, prefix: Seq<char>, i: int)
    requires
        0 <= i < prefix.len(),
        i < s.len() ==> s[i] != prefix[i],
    ensures
        !starts_with(s, prefix),
{
    if starts_with(s, prefix) {
        assert(s.take(prefix.len() as int)[i] == prefix[i]);
    }
}

proof fn inplace_applied(v: OptionsView)
    ensures
        apply_long(v, "--inplace"@) == (OptionsView { behavior: BehaviorFlags { inplace: true, ..v.behavior }, ..v }),
        is_long("--inplace"@),
{
    reveal(apply_long);
    literal_facts();
    let s = "--inplace"@;
    not_prefixed(s, "--max-delete="@, 2);
    not_prefixed(s, "--modify-window="@, 2);
    not_prefixed(s, "--block-size="@, 2);
    not_prefixed(s, "--chmod="@, 2);
    not_prefixed(s, "--chown="@, 2);
    not_prefixed(s, "--exclude-from="@, 2);
    not_prefixed(s, "--include-from="@, 4);
    not_prefixed(s, "--link-dest="@, 2);
    not_prefixed(s, "--partial-dir="@, 2);
    assert(s.take(2) =~= "--"@);
}

proof fn numeric_ids_applied(v: OptionsView)
    ensures
        apply_long(v, "--numeric-ids"@) == (OptionsView { tree: TreeFlags { numeric_ids: true, ..v.tree }, ..v }),
        is_long("--numeric-ids"@),
{
    reveal(apply_long);
    literal_facts();
    let s = "--numeric-ids"@;
    not_prefixed(s, "--max-delete="@, 2);
    not_prefixed(s, "--modify-window="@, 2);
    not_prefixed(s, "--block-size="@, 2);
    not_prefixed(s, "--chmod="@, 2);
    not_prefixed(s, "--chown="@, 2);
    not_prefixed(s, "--exclude-from="@, 2);
    not_prefixed(s, "--include-from="@, 2);
    not_prefixed(s, "--link-dest="@, 2);
    not_prefixed(s, "--partial-dir="@, 2);
    assert(s.take(2) =~= "--"@);
}

proof fn append_applied(v: OptionsView)
    ensures
        apply_long(v, "--append"@) == (OptionsView { behavior: BehaviorFlags { append: true, ..v.behavior }, ..v }),
        is_long("--append"@),
{
    reveal(apply_long);
    literal_facts();
    let s = "--append"@;
    not_prefixed(s, "--max-delete="@, 2);
    not_prefixed(s, "--modify-window="@, 2);
    not_prefixed(s, "--block-size="@, 2);
    not_prefixed(s, "--chmod="@, 2);
    not_prefixed(s, "--chown="@, 2);
    not_prefixed(s, "--exclude-from="@, 2);
    not_prefixed(s, "--include-from="@, 2);
    not_prefixed(s, "--link-dest="@, 2);
    not_prefixed(s, "--partial-dir="@, 2);
    assert(s.take(2) =~= "--"@);
}

proof fn size_only_applied(v: OptionsView)
    ensures
        apply_long(v, "--size-only"@) == (OptionsView { behavior: BehaviorFlags { size_only: true, ..v.behavior }, ..v }),
        is_long("--size-only"@),
{
    reveal(apply_long);
    literal_facts();
    let s = "--size-only"@;
    not_prefixed(s, "--max-delete="@, 2);
    not_prefixed(s, "--modify-window="@, 2);
    not_prefixed(s, "--block-size="@, 2);
    not_prefixed(s, "--chmod="@, 2);
    not_prefixed(s, "--chown="@, 2);
    not_prefixed(s, "--exclude-from="@, 2);
    not_prefixed(s, "--include-from="@, 2);
    not_prefixed(s, "--link-dest="@, 2);
    not_prefixed(s, "--partial-dir="@, 2);
    assert(s.take(2) =~= "--"@);
}

proof fn existing_applied(v: OptionsView)
    ensures
        apply_long(v, "--existing"@) == (OptionsView { behavior: BehaviorFlags { existing: true, ..v.behavior }, ..v }),
        is_long("--existing"@),
{
    reveal(apply_long);
    literal_facts();
    let s = "--existing"@;
    not_prefixed(s, "--max-delete="@, 2);
    not_prefixed(s, "--modify-window="@, 2);
    not_prefixed(s, "--block-size="@, 2);
    not_prefixed(s, "--chmod="@, 2);
    not_prefixed(s, "--chown="@, 2);
    not_prefixed(s, "--exclude-from="@, 4);
    not_prefixed(s, "--include-from="@, 2);
    not_prefixed(s, "--link-dest="@, 2);
    not_prefixed(s, "--partial-dir="@, 2);
    assert(s.take(2) =~= "--"@);
}

proof fn ignore_existing_applied(v: OptionsView)
    ensures
        apply_long(v, "--ignore-existing"@) == (OptionsView { behavior: BehaviorFlags { ignore_existing: true, ..v.behavior }, ..v }),
        is_long("--ignore-existing"@),
{
    reveal(apply_long);
    literal_facts();
    let s = "--ignore-existing"@;
    not_prefixed(s, "--max-delete="@, 2);
    not_prefixed(s, "--modify-window="@, 2);
    not_prefixed(s, "--block-size="@, 2);
    not_prefixed(s, "--chmod="@, 2);
    not_prefixed(s, "--chown="@, 2);
    not_prefixed(s, "--exclude-from="@, 2);
    not_prefixed(s, "--include-from="@, 3);
    not_prefixed(s, "--link-dest="@, 2);
    not_prefixed(s, "--partial-dir="@, 2);
    assert(s.take(2) =~= "--"@);
}

proof fn safe_links_applied(v: OptionsView)
    ensures
        apply_long(v, "--safe-links"@) == (OptionsView { tree: TreeFlags { safe_links: true, ..v.tree }, ..v }),
        is_long("--safe-links"@),
{
    reveal(apply_long);
    literal_facts();
    let s = "--safe-links"@;
    not_prefixed(s, "--max-delete="@, 2);
    not_prefixed(s, "--modify-window="@, 2);
    not_prefixed(s, "--block-size="@, 2);
    not_prefixed(s, "--chmod="@, 2);
    not_prefixed(s, "--chown="@, 2);
    not_prefixed(s, "--exclude-from="@, 2);
    not_prefixed(s, "--include-from="@, 2);
    not_prefixed(s, "--link-dest="@, 2);
    not_prefixed(s, "--partial-dir="@, 2);
    assert(s.take(2) =~= "--"@);
}

proof fn remove_source_files_applied(v: OptionsView)
    ensures
        apply_long(v, "--remove-source-files"@) == (OptionsView { tree: TreeFlags { remove_source_files: true, ..v.tree }, ..v }),
        is_long("--remove-source-files"@),
{
    reveal(apply_long);
    literal_facts();
    let s = "--remove-source-files"@;
    not_prefixed(s, "--max-delete="@, 2);
    not_prefixed(s, "--modify-window="@, 2);
    not_prefixed(s, "--block-size="@, 2);
    not_prefixed(s, "--chmod="@, 2);
    not_prefixed(s, "--chown="@, 2);
    not_prefixed(s, "--exclude-from="@, 2);
    not_prefixed(s, "--include-from="@, 2);
    not_prefixed(s, "--link-dest="@, 2);
    not_prefixed(s, "--partial-dir="@, 2);
    assert(s.take(2) =~= "--"@);
}

proof fn append_verify_applied(v: OptionsView)
    ensures
        apply_long(v, "--append-verify"@) == (OptionsView { behavior: BehaviorFlags { append_verify: true, ..v.behavior }, ..v }),
        is_long("--append-verify"@),
{
    reveal(apply_long);
    literal_facts();
    let s = "--append-verify"@;
    not_prefixed(s, "--max-delete="@, 2);
    not_prefixed(s, "--modify-window="@, 2);
    not_prefixed(s, "--block-size="@, 2);
    not_prefixed(s, "--chmod="@, 2);
    not_prefixed(s, "--chown="@, 2);
    not_prefixed(s, "--exclude-from="@, 2);
    not_prefixed(s, "--include-from="@, 2);
    not_prefixed(s, "--link-dest="@, 2);
    not_prefixed(s, "--partial-dir="@, 2);
    assert(s.take(2) =~= "--"@);
}

proof fn partial_applied(v: OptionsView)
    ensures
        apply_long(v, "--partial"@) == (OptionsView { behavior: BehaviorFlags { partial: true, ..v.behavior }, ..v }),
        is_long("--partial"@),
{
    reveal(apply_long);
    literal_facts();
    let s = "--partial"@;
    not_prefixed(s, "--max-delete="@, 2);
    not_prefixed(s, "--modify-window="@, 2);
    not_prefixed(s, "--block-size="@, 2);
    not_prefixed(s, "--chmod="@, 2);
    not_prefixed(s, "--chown="@, 2);
    not_prefixed(s, "--exclude-from="@, 2);
    not_prefixed(s, "--include-from="@, 2);
    not_prefixed(s, "--link-dest="@, 2);
    not_prefixed(s, "--partial-dir="@, 9);
    assert(s.take(2) =~= "--"@);
}

proof fn list_only_applied(v: OptionsView)
    ensures
        apply_long(v, "--list-only"@) == (OptionsView { output: OutputFlags { list_only: true, ..v.output }, ..v }),
        is_long("--list-only"@),
{
    reveal(apply_long);
    literal_facts();
    let s = "--list-only"@;
    not_prefixed(s, "--max-delete="@, 2);
    not_prefixed(s, "--modify-window="@, 2);
    not_prefixed(s, "--block-size="@, 2);
    not_prefixed(s, "--chmod="@, 2);
    not_prefixed(s, "--chown="@, 2);
    not_prefixed(s, "--exclude-from="@, 2);
    not_prefixed(s, "--include-from="@, 2);
    not_prefixed(s, "--link-dest="@, 4);
    not_prefixed(s, "--partial-dir="@, 2);
    assert(s.take(2) =~= "--"@);
}

proof fn fake_super_applied(v: OptionsView)
    ensures
        apply_long(v, "--fake-super"@) == (OptionsView { tree: TreeFlags { fake_super: true, ..v.tree }, ..v }),
        is_long("--fake-super"@),
{
    reveal(apply_long);
    literal_facts();
    let s = "--fake-super"@;
    not_prefixed(s, "--max-delete="@, 2);
    not_prefixed(s, "--modify-window="@, 2);
    not_prefixed(s, "--block-size="@, 2);
    not_prefixed(s, "--chmod="@, 2);
    not_prefixed(s, "--chown="@, 2);
    not_prefixed(s, "--exclude-from="@, 2);
    not_prefixed(s, "--include-from="@, 2);
    not_prefixed(s, "--link-dest="@, 2);
    not_prefixed(s, "--partial-dir="@, 2);
    assert(s.take(2) =~= "--"@);
}

proof fn delete_before_applied(v: OptionsView)
    ensures
        apply_long(v, "--delete-before"@) == (OptionsView { output: OutputFlags { delete: DeleteMode::Before, ..v.output }, ..v }),
        is_long("--delete-before"@),
{
    reveal(apply_long);
    literal_facts();
    let s = "--delete-before"@;
    not_prefixed(s, "--max-delete="@, 2);
    not_prefixed(s, "--modify-window="@, 2);
    not_prefixed(s, "--block-size="@, 2);
    not_prefixed(s, "--chmod="@, 2);
    not_prefixed(s, "--chown="@, 2);
    not_prefixed(s, "--exclude-from="@, 2);
    not_prefixed(s, "--include-from="@, 2);
    not_prefixed(s, "--link-dest="@, 2);
    not_prefixed(s, "--partial-dir="@, 2);
    assert(s.take(2) =~= "--"@);
}

proof fn delete_during_applied(v: OptionsView)
    ensures
        apply_long(v, "--delete-during"@) == (OptionsView { output: OutputFlags { delete: DeleteMode::During, ..v.output }, ..v }),
        is_long("--delete-during"@),
{
    reveal(apply_long);
    literal_facts();
    let s = "--delete-during"@;
    not_prefixed(s, "--max-delete="@, 2);
    not_prefixed(s, "--modify-window="@, 2);
    not_prefixed(s, "--block-size="@, 2);
    not_prefixed(s, "--chmod="@, 2);
    not_prefixed(s, "--chown="@, 2);
    not_prefixed(s, "--exclude-from="@, 2);
    not_prefixed(s, "--include-from="@, 2);
    not_prefixed(s, "--link-dest="@, 2);
    not_prefixed(s, "--partial-dir="@, 2);
    assert(s.take(2) =~= "--"@);
}

proof fn delete_after_applied(v: OptionsView)
    ensures
        apply_long(v, "--delete-after"@) == (OptionsView { output: OutputFlags { delete: DeleteMode::After, ..v.output }, ..v }),
        is_long("--delete-after"@),
{
    reveal(apply_long);
    literal_facts();
    let s = "--delete-after"@;
    not_prefixed(s, "--max-delete="@, 2);
    not_prefixed(s, "--modify-window="@, 2);
    not_prefixed(s, "--block-size="@, 2);
    not_prefixed(s, "--chmod="@, 2);
    not_prefixed(s, "--chown="@, 2);
    not_prefixed(s, "--exclude-from="@, 2);
    not_prefixed(s, "--include-from="@, 2);
    not_prefixed(s, "--link-dest="@, 2);
    not_prefixed(s, "--partial-dir="@, 2);
    assert(s.take(2) =~= "--"@);
}

proof fn delete_excluded_applied(v: OptionsView)
    ensures
        apply_long(v, "--delete-excluded"@) == (OptionsView { output: OutputFlags { delete: DeleteMode::Excluded, ..v.output }, ..v }),
        is_long("--delete-excluded"@),
{
    reveal(apply_long);
    literal_facts();
    let s = "--delete-excluded"@;
    not_prefixed(s, "--max-delete="@, 2);
    not_prefixed(s, "--modify-window="@, 2);
    not_prefixed(s, "--block-size="@, 2);
    not_prefixed(s, "--chmod="@, 2);
    not_prefixed(s, "--chown="@, 2);
    not_prefixed(s, "--exclude-from="@, 2);
    not_prefixed(s, "--include-from="@, 2);
    not_prefixed(s, "--link-dest="@, 2);
    not_prefixed(s, "--partial-dir="@, 2);
    assert(s.take(2) =~= "--"@);
}

proof fn inplace_step(v: OptionsView, cond: bool)
    ensures
        apply_longs(v, flag_arg(cond, "--inplace"@)) == (if cond {
            OptionsView { behavior: BehaviorFlags { inplace: true, ..v.behavior }, ..v }
        } else {
            v
        }),
        all_long(flag_arg(cond, "--inplace"@)),
{
    inplace_applied(v);
    applied_once(v, "--inplace"@);
}

proof fn numeric_ids_step(v: OptionsView, cond: bool)
    ensures
        apply_longs(v, flag_arg(cond, "--numeric-ids"@)) == (if cond {
            OptionsView { tree: TreeFlags { numeric_ids: true, ..v.tree }, ..v }
        } else {
            v
        }),
        all_long(flag_arg(cond, "--numeric-ids"@)),
{
    numeric_ids_applied(v);
    applied_once(v, "--numeric-ids"@);
}

proof fn append_step(v: OptionsView, cond: bool)
    ensures
        apply_longs(v, flag_arg(cond, "--append"@)) == (if cond {
            OptionsView { behavior: BehaviorFlags { append: true, ..v.behavior }, ..v }
        } else {
            v
        }),
        all_long(flag_arg(cond, "--append"@)),
{
    append_applied(v);
    applied_once(v, "--append"@);
}

proof fn size_only_step(v: OptionsView, cond: bool)
    ensures
        apply_longs(v, flag_arg(cond, "--size-only"@)) == (if cond {
            OptionsView { behavior: BehaviorFlags { size_only: true, ..v.behavior }, ..v }
        } else {
            v
        }),
        all_long(flag_arg(cond, "--size-only"@)),
{
    size_only_applied(v);
    applied_once(v, "--size-only"@);
}

proof fn existing_step(v: OptionsView, cond: bool)
    ensures
        apply_longs(v, flag_arg(cond, "--existing"@)) == (if cond {
            OptionsView { behavior: BehaviorFlags { existing: true, ..v.behavior }, ..v }
        } else {
            v
        }),
        all_long(flag_arg(cond, "--existing"@)),
{
    existing_applied(v);
    applied_once(v, "--existing"@);
}

proof fn ignore_existing_step(v: OptionsView, cond: bool)
    ensures
        apply_longs(v, flag_arg(cond, "--ignore-existing"@)) == (if cond {
            OptionsView { behavior: BehaviorFlags { ignore_existing: true, ..v.behavior }, ..v }
        } else {
            v
        }),
        all_long(flag_arg(cond, "--ignore-existing"@)),
{
    ignore_existing_applied(v);
    applied_once(v, "--ignore-existing"@);
}

proof fn safe_links_step(v: OptionsView, cond: bool)
    ensures
        apply_longs(v, flag_arg(cond, "--safe-links"@)) == (if cond {
            OptionsView { tree: TreeFlags { safe_links: true, ..v.tree }, ..v }
        } else {
            v
        }),
        all_long(flag_arg(cond, "--safe-links"@)),
{
    safe_links_applied(v);
    applied_once(v, "--safe-links"@);
}

proof fn remove_source_files_step(v: OptionsView, cond: bool)
    ensures
        apply_longs(v, flag_arg(cond, "--remove-source-files"@)) == (if cond {
            OptionsView { tree: TreeFlags { remove_source_files: true, ..v.tree }, ..v }
        } else {
            v
        }),
        all_long(flag_arg(cond, "--remove-source-files"@)),
{
    remove_source_files_applied(v);
    applied_once(v, "--remove-source-files"@);
}

proof fn append_verify_step(v: OptionsView, cond: bool)
    ensures
        apply_longs(v, flag_arg(cond, "--append-verify"@)) == (if cond {
            OptionsView { behavior: BehaviorFlags { append_verify: true, ..v.behavior }, ..v }
        } else {
            v
        }),
        all_long(flag_arg(cond, "--append-verify"@)),
{
    append_verify_applied(v);
    applied_once(v, "--append-verify"@);
}

proof fn partial_step(v: OptionsView, cond: bool)
    ensures
        apply_longs(v, flag_arg(cond, "--partial"@)) == (if cond {
            OptionsView { behavior: BehaviorFlags { partial: true, ..v.behavior }, ..v }
        } else {
            v
        }),
        all_long(flag_arg(cond, "--partial"@)),
{
    partial_applied(v);
    applied_once(v, "--partial"@);
}

proof fn list_only_step(v: OptionsView, cond: bool)
    ensures
        apply_longs(v, flag_arg(cond, "--list-only"@)) == (if cond {
            OptionsView { output: OutputFlags { list_only: true, ..v.output }, ..v }
        } else {
            v
        }),
        all_long(flag_arg(cond, "--list-only"@)),
{
    list_only_applied(v);
    applied_once(v, "--list-only"@);
}

proof fn fake_super_step(v: OptionsView, cond: bool)
    ensures
        apply_longs(v, flag_arg(cond, "--fake-super"@)) == (if cond {
            OptionsView { tree: TreeFlags { fake_super: true, ..v.tree }, ..v }
        } else {
            v
        }),
        all_long(flag_arg(cond, "--fake-super"@)),
{
    fake_super_applied(v);
    applied_once(v, "--fake-super"@);
}

proof fn delete_step(v: OptionsView, mode: DeleteMode)
    ensures
        apply_longs(v, delete_args(mode)) == (if mode == DeleteMode::Off {
            v
        } else {
            OptionsView { output: OutputFlags { delete: mode, ..v.output }, ..v }
        }),
        all_long(delete_args(mode)),
{
    delete_before_applied(v);
    delete_during_applied(v);
    delete_after_applied(v);
    delete_excluded_applied(v);
    applied_once(v, "--delete-before"@);
    applied_once(v, "--delete-during"@);
    applied_once(v, "--delete-after"@);
    applied_once(v, "--delete-excluded"@);
}

/// An option with this prefix is no option without a value and has no other prefix.
proof fn max_delete_is_told(v: OptionsView, x: Seq<char>)
    ensures
        ({
            let s = "--max-delete="@ + x;
            &&& apply_switch(v, s) == v
            &&& starts_with(s, "--max-delete="@)
            &&& value_of(s, "--max-delete="@) == x
            &&& is_long(s)
            &&& !starts_with(s, "--modify-window="@)
            &&& !starts_with(s, "--block-size="@)
            &&& !starts_with(s, "--chmod="@)
            &&& !starts_with(s, "--chown="@)
            &&& !starts_with(s, "--exclude-from="@)
            &&& !starts_with(s, "--include-from="@)
            &&& !starts_with(s, "--link-dest="@)
            &&& !starts_with(s, "--partial-dir="@)
        }),
{
    literal_facts();
    let s = "--max-delete="@ + x;
    prefixed("--max-delete="@, x);
    assert(s[0] == '-');
    assert(s[1] == '-');
    assert(s[2] == 'm');
    assert(s[3] == 'a');
    assert(s[4] == 'x');
    not_prefixed(s, "--modify-window="@, 3);
    not_prefixed(s, "--block-size="@, 2);
    not_prefixed(s, "--chmod="@, 2);
    not_prefixed(s, "--chown="@, 2);
    not_prefixed(s, "--exclude-from="@, 2);
    not_prefixed(s, "--include-from="@, 2);
    not_prefixed(s, "--link-dest="@, 2);
    not_prefixed(s, "--partial-dir="@, 2);
    assert(s.take(2) =~= "--"@);
}

/// An option with this prefix is no option without a value and has no other prefix.
proof fn modify_window_is_told(v: OptionsView, x: Seq<char>)
    ensures
        ({
            let s = "--modify-window="@ + x;
            &&& apply_switch(v, s) == v
            &&& starts_with(s, "--modify-window="@)
            &&& value_of(s, "--modify-window="@) == x
            &&& is_long(s)
            &&& !starts_with(s, "--max-delete="@)
            &&& !starts_with(s, "--block-size="@)
            &&& !starts_with(s, "--chmod="@)
            &&& !starts_with(s, "--chown="@)
            &&& !starts_with(s, "--exclude-from="@)
            &&& !starts_with(s, "--include-from="@)
            &&& !starts_with(s, "--link-dest="@)
            &&& !starts_with(s, "--partial-dir="@)
        }),
{
    literal_facts();
    let s = "--modify-window="@ + x;
    prefixed("--modify-window="@, x);
    assert(s[0] == '-');
    assert(s[1] == '-');
    assert(s[2] == 'm');
    assert(s[3] == 'o');
    assert(s[4] == 'd');
    not_prefixed(s, "--max-delete="@, 3);
    not_prefixed(s, "--block-size="@, 2);
    not_prefixed(s, "--chmod="@, 2);
    not_prefixed(s, "--chown="@, 2);
    not_prefixed(s, "--exclude-from="@, 2);
    not_prefixed(s, "--include-from="@, 2);
    not_prefixed(s, "--link-dest="@, 2);
    not_prefixed(s, "--partial-dir="@, 2);
    assert(s.take(2) =~= "--"@);
}

/// An option with this prefix is no option without a value and has no other prefix.
proof fn block_size_is_told(v: OptionsView, x: Seq<char>)
    ensures
        ({
            let s = "--block-size="@ + x;
            &&& apply_switch(v, s) == v
            &&& starts_with(s, "--block-size="@)
            &&& value_of(s, "--block-size="@) == x
            &&& is_long(s)
            &&& !starts_with(s, "--max-delete="@)
            &&& !starts_with(s, "--modify-window="@)
            &&& !starts_with(s, "--chmod="@)
            &&& !starts_with(s, "--chown="@)
            &&& !starts_with(s, "--exclude-from="@)
            &&& !starts_with(s, "--include-from="@)
            &&& !starts_with(s, "--link-dest="@)
            &&& !starts_with(s, "--partial-dir="@)
        }),
{
    literal_facts();
    let s = "--block-size="@ + x;
    prefixed("--block-size="@, x);
    assert(s[0] == '-');
    assert(s[1] == '-');
    assert(s[2] == 'b');
    assert(s[3] == 'l');
    assert(s[4] == 'o');
    not_prefixed(s, "--max-delete="@, 2);
    not_prefixed(s, "--modify-window="@, 2);
    not_prefixed(s, "--chmod="@, 2);
    not_prefixed(s, "--chown="@, 2);
    not_prefixed(s, "--exclude-from="@, 2);
    not_prefixed(s, "--include-from="@, 2);
    not_prefixed(s, "--link-dest="@, 2);
    not_prefixed(s, "--partial-dir="@, 2);
    assert(s.take(2) =~= "--"@);
}

/// An option with this prefix is no option without a value and has no other prefix.
proof fn chmod_is_told(v: OptionsView, x: Seq<char>)
    ensures
        ({
            let s = "--chmod="@ + x;
            &&& apply_switch(v, s) == v
            &&& starts_with(s, "--chmod="@)
            &&& value_of(s, "--chmod="@) == x
            &&& is_long(s)
            &&& !starts_with(s, "--max-delete="@)
            &&& !starts_with(s, "--modify-window="@)
            &&& !starts_with(s, "--block-size="@)
            &&& !starts_with(s, "--chown="@)
            &&& !starts_with(s, "--exclude-from="@)
            &&& !starts_with(s, "--include-from="@)
            &&& !starts_with(s, "--link-dest="@)
            &&& !starts_with(s, "--partial-dir="@)
        }),
{
    literal_facts();
    let s = "--chmod="@ + x;
    prefixed("--chmod="@, x);
    assert(s[0] == '-');
    assert(s[1] == '-');
    assert(s[2] == 'c');
    assert(s[3] == 'h');
    assert(s[4] == 'm');
    not_prefixed(s, "--max-delete="@, 2);
    not_prefixed(s, "--modify-window="@, 2);
    not_prefixed(s, "--block-size="@, 2);
    not_prefixed(s, "--chown="@, 4);
    not_prefixed(s, "--exclude-from="@, 2);
    not_prefixed(s, "--include-from="@, 2);
    not_prefixed(s, "--link-dest="@, 2);
    not_prefixed(s, "--partial-dir="@, 2);
    assert(s.take(2) =~= "--"@);
}

/// An option with this prefix is no option without a value and has no other prefix.
proof fn chown_is_told(v: OptionsView, x: Seq<char>)
    ensures
        ({
            let s = "--chown="@ + x;
            &&& apply_switch(v, s) == v
            &&& starts_with(s, "--chown="@)
            &&& value_of(s, "--chown="@) == x
            &&& is_long(s)
            &&& !starts_with(s, "--max-delete="@)
            &&& !starts_with(s, "--modify-window="@)
            &&& !starts_with(s, "--block-size="@)
            &&& !starts_with(s, "--chmod="@)
            &&& !starts_with(s, "--exclude-from="@)
            &&& !starts_with(s, "--include-from="@)
            &&& !starts_with(s, "--link-dest="@)
            &&& !starts_with(s, "--partial-dir="@)
        }),
{
    literal_facts();
    let s = "--chown="@ + x;
    prefixed("--chown="@, x);
    assert(s[0] == '-');
    assert(s[1] == '-');
    assert(s[2] == 'c');
    assert(s[3] == 'h');
    assert(s[4] == 'o');
    not_prefixed(s, "--max-delete="@, 2);
    not_prefixed(s, "--modify-window="@, 2);
    not_prefixed(s, "--block-size="@, 2);
    not_prefixed(s, "--chmod="@, 4);
    not_prefixed(s, "--exclude-from="@, 2);
    not_prefixed(s, "--include-from="@, 2);
    not_prefixed(s, "--link-dest="@, 2);
    not_prefixed(s, "--partial-dir="@, 2);
    assert(s.take(2) =~= "--"@);
}

/// An option with this prefix is no option without a value and has no other prefix.
proof fn exclude_from_is_told(v: OptionsView, x: Seq<char>)
    ensures
        ({
            let s = "--exclude-from="@ + x;
            &&& apply_switch(v, s) == v
            &&& starts_with(s, "--exclude-from="@)
            &&& value_of(s, "--exclude-from="@) == x
            &&& is_long(s)
            &&& !starts_with(s, "--max-delete="@)
            &&& !starts_with(s, "--modify-window="@)
            &&& !starts_with(s, "--block-size="@)
            &&& !starts_with(s, "--chmod="@)
            &&& !starts_with(s, "--chown="@)
            &&& !starts_with(s, "--include-from="@)
            &&& !starts_with(s, "--link-dest="@)
            &&& !starts_with(s, "--partial-dir="@)
        }),
{
    literal_facts();
    let s = "--exclude-from="@ + x;
    prefixed("--exclude-from="@, x);
    assert(s[0] == '-');
    assert(s[1] == '-');
    assert(s[2] == 'e');
    assert(s[3] == 'x');
    assert(s[4] == 'c');
    not_prefixed(s, "--max-delete="@, 2);
    not_prefixed(s, "--modify-window="@, 2);
    not_prefixed(s, "--block-size="@, 2);
    not_prefixed(s, "--chmod="@, 2);
    not_prefixed(s, "--chown="@, 2);
    not_prefixed(s, "--include-from="@, 2);
    not_prefixed(s, "--link-dest="@, 2);
    not_prefixed(s, "--partial-dir="@, 2);
    assert(s.take(2) =~= "--"@);
}

/// An option with this prefix is no option without a value and has no other prefix.
proof fn include_from_is_told(v: OptionsView, x: Seq<char>)
    ensures
        ({
            let s = "--include-from="@ + x;
            &&& apply_switch(v, s) == v
            &&& starts_with(s, "--include-from="@)
            &&& value_of(s, "--include-from="@) == x
            &&& is_long(s)
            &&& !starts_with(s, "--max-delete="@)
            &&& !starts_with(s, "--modify-window="@)
            &&& !starts_with(s, "--block-size="@)
            &&& !starts_with(s, "--chmod="@)
            &&& !starts_with(s, "--chown="@)
            &&& !starts_with(s, "--exclude-from="@)
            &&& !starts_with(s, "--link-dest="@)
            &&& !starts_with(s, "--partial-dir="@)
        }),
{
    literal_facts();
    let s = "--include-from="@ + x;
    prefixed("--include-from="@, x);
    assert(s[0] == '-');
    assert(s[1] == '-');
    assert(s[2] == 'i');
    assert(s[3] == 'n');
    assert(s[4] == 'c');
    not_prefixed(s, "--max-delete="@, 2);
    not_prefixed(s, "--modify-window="@, 2);
    not_prefixed(s, "--block-size="@, 2);
    not_prefixed(s, "--chmod="@, 2);
    not_prefixed(s, "--chown="@, 2);
    not_prefixed(s, "--exclude-from="@, 2);
    not_prefixed(s, "--link-dest="@, 2);
    not_prefixed(s, "--partial-dir="@, 2);
    assert(s.take(2) =~= "--"@);
}

/// An option with this prefix is no option without a value and has no other prefix.
proof fn link_dest_is_told(v: OptionsView, x: Seq<char>)
    ensures
        ({
            let s = "--link-dest="@ + x;
            &&& apply_switch(v, s) == v
            &&& starts_with(s, "--link-dest="@)
            &&& value_of(s, "--link-dest="@) == x
            &&& is_long(s)
            &&& !starts_with(s, "--max-delete="@)
            &&& !starts_with(s, "--modify-window="@)
            &&& !starts_with(s, "--block-size="@)
            &&& !starts_with(s, "--chmod="@)
            &&& !starts_with(s, "--chown="@)
            &&& !starts_with(s, "--exclude-from="@)
            &&& !starts_with(s, "--include-from="@)
            &&& !starts_with(s, "--partial-dir="@)
        }),
{
    literal_facts();
    let s = "--link-dest="@ + x;
    prefixed("--link-dest="@, x);
    assert(s[0] == '-');
    assert(s[1] == '-');
    assert(s[2] == 'l');
    assert(s[3] == 'i');
    assert(s[4] == 'n');
    not_prefixed(s, "--max-delete="@, 2);
    not_prefixed(s, "--modify-window="@, 2);
    not_prefixed(s, "--block-size="@, 2);
    not_prefixed(s, "--chmod="@, 2);
    not_prefixed(s, "--chown="@, 2);
    not_prefixed(s, "--exclude-from="@, 2);
    not_prefixed(s, "--include-from="@, 2);
    not_prefixed(s, "--partial-dir="@, 2);
    assert(s.take(2) =~= "--"@);
}

/// An option with this prefix is no option without a value and has no other prefix.
proof fn partial_dir_is_told(v: OptionsView, x: Seq<char>)
    ensures
        ({
            let s = "--partial-dir="@ + x;
            &&& apply_switch(v, s) == v
            &&& starts_with(s, "--partial-dir="@)
            &&& value_of(s, "--partial-dir="@) == x
            &&& is_long(s)
            &&& !starts_with(s, "--max-delete="@)
            &&& !starts_with(s, "--modify-window="@)
            &&& !starts_with(s, "--block-size="@)
            &&& !starts_with(s, "--chmod="@)
            &&& !starts_with(s, "--chown="@)
            &&& !starts_with(s, "--exclude-from="@)
            &&& !starts_with(s, "--include-from="@)
            &&& !starts_with(s, "--link-dest="@)
        }),
{
    literal_facts();
    let s = "--partial-dir="@ + x;
    prefixed("--partial-dir="@, x);
    assert(s[0] == '-');
    assert(s[1] == '-');
    assert(s[2] == 'p');
    assert(s[3] == 'a');
    assert(s[4] == 'r');
    not_prefixed(s, "--max-delete="@, 2);
    not_prefixed(s, "--modify-window="@, 2);
    not_prefixed(s, "--block-size="@, 2);
    not_prefixed(s, "--chmod="@, 2);
    not_prefixed(s, "--chown="@, 2);
    not_prefixed(s, "--exclude-from="@, 2);
    not_prefixed(s, "--include-from="@, 2);
    not_prefixed(s, "--link-dest="@, 2);
    assert(s.take(2) =~= "--"@);
}

/// A number of deletions is read back.
proof fn max_delete_step(v: OptionsView, n: Option<u64>)
    ensures
        apply_longs(v, value_arg("--max-delete="@, opt_decimal(n))) == (if n is Some {
            OptionsView { limits: Limits { max_delete: n, ..v.limits }, ..v }
        } else {
            v
        }),
        all_long(value_arg("--max-delete="@, opt_decimal(n))),
{
    reveal(apply_long);
    applied_once(v, Seq::empty());
    if n is Some {
        let x = decimal(n->0 as nat);
        max_delete_is_told(v, x);
        written_numeral_parses(n->0 as nat, 10, 0xFFFF_FFFF_FFFF_FFFF);
        applied_once(v, "--max-delete="@ + x);
    }
}

/// A time tolerance is read back.
proof fn modify_window_step(v: OptionsView, n: Option<u64>)
    requires
        n is Some ==> n->0 <= 0xFFFF_FFFF,
    ensures
        apply_longs(v, value_arg("--modify-window="@, opt_decimal(n))) == (OptionsView {
            limits: Limits {
                modify_window: if n is Some {
                    n->0 as u32
                } else {
                    v.limits.modify_window
                },
                ..v.limits
            },
            ..v
        }),
        all_long(value_arg("--modify-window="@, opt_decimal(n))),
{
    reveal(apply_long);
    applied_once(v, Seq::empty());
    if n is Some {
        let x = decimal(n->0 as nat);
        modify_window_is_told(v, x);
        written_numeral_parses(n->0 as nat, 10, 0xFFFF_FFFF);
        applied_once(v, "--modify-window="@ + x);
    }
}

/// A block size is read back.
proof fn block_size_step(v: OptionsView, n: Option<i32>)
    ensures
        apply_longs(v, value_arg("--block-size="@, opt_signed(n))) == (if n is Some {
            OptionsView { limits: Limits { block_size: n, ..v.limits }, ..v }
        } else {
            v
        }),
        all_long(value_arg("--block-size="@, opt_signed(n))),
{
    reveal(apply_long);
    applied_once(v, Seq::empty());
    if n is Some {
        let x = signed_decimal(n->0 as int);
        block_size_is_told(v, x);
        written_signed_parses(n->0 as int, 0x7FFF_FFFF);
        applied_once(v, "--block-size="@ + x);
    }
}

/// Permission changes are read back.
proof fn chmod_step(v: OptionsView, xs: Seq<Seq<char>>)
    ensures
        apply_longs(v, list_args("--chmod="@, xs)) == (OptionsView {
            texts: TextOptionsView { chmod: v.texts.chmod + xs, ..v.texts },
            ..v
        }),
        all_long(list_args("--chmod="@, xs)),
    decreases xs.len(),
{
    reveal(apply_long);
    let args = list_args("--chmod="@, xs);
    if xs.len() > 0 {
        let h = xs.drop_last();
        chmod_step(v, h);
        assert(args.drop_last() =~= list_args("--chmod="@, h));
        assert(args.last() == "--chmod="@ + xs.last());
        let w = apply_longs(v, args.drop_last());
        chmod_is_told(w, xs.last());
        assert((v.texts.chmod + h).push(xs.last()) =~= v.texts.chmod + xs);
        assert(args =~= args.drop_last() + seq![args.last()]);
        long_concat(args.drop_last(), seq![args.last()]);
    } else {
        assert(args =~= Seq::<Seq<char>>::empty());
        assert(v.texts.chmod + xs =~= v.texts.chmod);
    }
}

/// The paths that texts stand for.
spec fn paths_of(xs: Seq<Seq<char>>) -> Seq<Seq<u8>> {
    Seq::new(xs.len(), |i: int| path_of(xs[i]))
}

/// These paths are read back as the paths that their texts stand for.
proof fn exclude_from_step(v: OptionsView, xs: Seq<Seq<char>>)
    ensures
        apply_longs(v, list_args("--exclude-from="@, xs)) == (OptionsView {
            paths: PathOptionsView { exclude_from: v.paths.exclude_from + paths_of(xs), ..v.paths },
            ..v
        }),
        all_long(list_args("--exclude-from="@, xs)),
    decreases xs.len(),
{
    reveal(apply_long);
    let args = list_args("--exclude-from="@, xs);
    if xs.len() > 0 {
        let h = xs.drop_last();
        exclude_from_step(v, h);
        assert(args.drop_last() =~= list_args("--exclude-from="@, h));
        assert(args.last() == "--exclude-from="@ + xs.last());
        let w = apply_longs(v, args.drop_last());
        exclude_from_is_told(w, xs.last());
        assert((v.paths.exclude_from + paths_of(h)).push(path_of(xs.last())) =~= v.paths.exclude_from
            + paths_of(xs));
        assert(args =~= args.drop_last() + seq![args.last()]);
        long_concat(args.drop_last(), seq![args.last()]);
    } else {
        assert(args =~= Seq::<Seq<char>>::empty());
        assert(v.paths.exclude_from + paths_of(xs) =~= v.paths.exclude_from);
    }
}

/// These paths are read back as the paths that their texts stand for.
proof fn include_from_step(v: OptionsView, xs: Seq<Seq<char>>)
    ensures
        apply_longs(v, list_args("--include-from="@, xs)) == (OptionsView {
            paths: PathOptionsView { include_from: v.paths.include_from + paths_of(xs), ..v.paths },
            ..v
        }),
        all_long(list_args("--include-from="@, xs)),
    decreases xs.len(),
{
    reveal(apply_long);
    let args = list_args("--include-from="@, xs);
    if xs.len() > 0 {
        let h = xs.drop_last();
        include_from_step(v, h);
        assert(args.drop_last() =~= list_args("--include-from="@, h));
        assert(args.last() == "--include-from="@ + xs.last());
        let w = apply_longs(v, args.drop_last());
        include_from_is_told(w, xs.last());
        assert((v.paths.include_from + paths_of(h)).push(path_of(xs.last())) =~= v.paths.include_from
            + paths_of(xs));
        assert(args =~= args.drop_last() + seq![args.last()]);
        long_concat(args.drop_last(), seq![args.last()]);
    } else {
        assert(args =~= Seq::<Seq<char>>::empty());
        assert(v.paths.include_from + paths_of(xs) =~= v.paths.include_from);
    }
}

/// These paths are read back as the paths that their texts stand for.
proof fn link_dest_step(v: OptionsView, xs: Seq<Seq<char>>)
    ensures
        apply_longs(v, list_args("--link-dest="@, xs)) == (OptionsView {
            paths: PathOptionsView { link_dest: v.paths.link_dest + paths_of(xs), ..v.paths },
            ..v
        }),
        all_long(list_args("--link-dest="@, xs)),
    decreases xs.len(),
{
    reveal(apply_long);
    let args = list_args("--link-dest="@, xs);
    if xs.len() > 0 {
        let h = xs.drop_last();
        link_dest_step(v, h);
        assert(args.drop_last() =~= list_args("--link-dest="@, h));
        assert(args.last() == "--link-dest="@ + xs.last());
        let w = apply_longs(v, args.drop_last());
        link_dest_is_told(w, xs.last());
        assert((v.paths.link_dest + paths_of(h)).push(path_of(xs.last())) =~= v.paths.link_dest
            + paths_of(xs));
        assert(args =~= args.drop_last() + seq![args.last()]);
        long_concat(args.drop_last(), seq![args.last()]);
    } else {
        assert(args =~= Seq::<Seq<char>>::empty());
        assert(v.paths.link_dest + paths_of(xs) =~= v.paths.link_dest);
    }
}

/// Paths that are UTF-8 come back from their texts.
proof fn shown_paths_kept(paths: Seq<Seq<u8>>)
    requires
        forall|i: int| 0 <= i < paths.len() ==> vstd::utf8::valid_utf8(#[trigger] paths[i]),
    ensures
        paths_of(shown_paths(paths)) == paths,
{
    assert forall|i: int| 0 <= i < paths.len() implies paths_of(shown_paths(paths))[i]
        == paths[i] by {
        valid_text_is_kept(paths[i]);
    }
    assert(paths_of(shown_paths(paths)) =~= paths);
}

/// The directory of partial files is read back.
proof fn partial_dir_step(v: OptionsView, path: Option<Seq<u8>>)
    requires
        path is Some ==> vstd::utf8::valid_utf8(path->0),
    ensures
        apply_longs(v, value_arg("--partial-dir="@, shown_path(path))) == (if path is Some {
            OptionsView { paths: PathOptionsView { partial_dir: path, ..v.paths }, ..v }
        } else {
            v
        }),
        all_long(value_arg("--partial-dir="@, shown_path(path))),
{
    reveal(apply_long);
    applied_once(v, Seq::empty());
    if path is Some {
        let x = lossy_text(path->0);
        valid_text_is_kept(path->0);
        partial_dir_is_told(v, x);
        applied_once(v, "--partial-dir="@ + x);
    }
}

/// The text of an id is read back: as the id, or as nothing where there is none.
proof fn id_text_read_back(n: Option<u32>)
    ensures
        number_of(id_text(n), 0xFFFF_FFFF) == (match n {
            Some(x) => Some(x as nat),
            None => None::<nat>,
        }),
        forall|i: int| 0 <= i < id_text(n).len() ==> id_text(n)[i] != ':',
{
    match n {
        Some(x) => {
            written_numeral_parses(x as nat, 10, 0xFFFF_FFFF);
            numeral_is_read_back(x as nat, 10);
            let s = decimal(x as nat);
            assert forall|i: int| 0 <= i < s.len() implies s[i] != ':' by {
                assert(is_digit(s[i], 10));
            }
        },
        None => {
            assert(unsigned_body(id_text(n)).len() == 0);
        },
    }
}

/// Owner and group are read back.
proof fn chown_step(v: OptionsView, uid: Option<u32>, gid: Option<u32>)
    ensures
        apply_longs(v, value_arg("--chown="@, chown_value(uid, gid))) == (OptionsView {
            limits: Limits {
                chown_uid: if uid is Some { uid } else { v.limits.chown_uid },
                chown_gid: if gid is Some { gid } else { v.limits.chown_gid },
                ..v.limits
            },
            ..v
        }),
        all_long(value_arg("--chown="@, chown_value(uid, gid))),
{
    reveal(apply_long);
    applied_once(v, Seq::empty());
    if uid is Some || gid is Some {
        let a = id_text(uid);
        let b = id_text(gid);
        let x = a + seq![':'] + b;
        id_text_read_back(uid);
        id_text_read_back(gid);
        chown_is_told(v, x);
        applied_once(v, "--chown="@ + x);
        assert(x[a.len() as int] == ':');
        assert forall|i: int| 0 <= i < a.len() implies x[i] != ':' by {
            assert(x[i] == a[i]);
        }
        found_at(x, ':', a.len() as int);
        assert(x.take(a.len() as int) =~= a);
        assert(x.skip(a.len() as int + 1) =~= b);
    }
}

// ---------------------------------------------------------------------------
// The whole list
// ---------------------------------------------------------------------------

/// Runs of options are applied one after the other.
proof fn chain2(
    s0: OptionsView,
    s1: OptionsView,
    s2: OptionsView,
    p1: Seq<Seq<char>>,
    p2: Seq<Seq<char>>,
)
    requires
        apply_longs(s0, p1) == s1,
        all_long(p1),
        apply_longs(s1, p2) == s2,
        all_long(p2),
    ensures
        apply_longs(s0, p1 + p2) == s2,
        all_long(p1 + p2),
{
    applied_in_turn(s0, p1, p2);
    long_concat(p1, p2);
}

proof fn chain3(
    s0: OptionsView,
    s1: OptionsView,
    s2: OptionsView,
    s3: OptionsView,
    p1: Seq<Seq<char>>,
    p2: Seq<Seq<char>>,
    p3: Seq<Seq<char>>,
)
    requires
        apply_longs(s0, p1) == s1,
        all_long(p1),
        apply_longs(s1, p2) == s2,
        all_long(p2),
        apply_longs(s2, p3) == s3,
        all_long(p3),
    ensures
        apply_longs(s0, p1 + p2 + p3) == s3,
        all_long(p1 + p2 + p3),
{
    applied_in_turn(s0, p1, p2);
    long_concat(p1, p2);
    applied_in_turn(s0, p1 + p2, p3);
    long_concat(p1 + p2, p3);
}

proof fn chain4(
    s0: OptionsView,
    s1: OptionsView,
    s2: OptionsView,
    s3: OptionsView,
    s4: OptionsView,
    p1: Seq<Seq<char>>,
    p2: Seq<Seq<char>>,
    p3: Seq<Seq<char>>,
    p4: Seq<Seq<char>>,
)
    requires
        apply_longs(s0, p1) == s1,
        all_long(p1),
        apply_longs(s1, p2) == s2,
        all_long(p2),
        apply_longs(s2, p3) == s3,
        all_long(p3),
        apply_longs(s3, p4) == s4,
        all_long(p4),
    ensures
        apply_longs(s0, p1 + p2 + p3 + p4) == s4,
        all_long(p1 + p2 + p3 + p4),
{
    applied_in_turn(s0, p1, p2);
    long_concat(p1, p2);
    applied_in_turn(s0, p1 + p2, p3);
    long_concat(p1 + p2, p3);
    applied_in_turn(s0, p1 + p2 + p3, p4);
    long_concat(p1 + p2 + p3, p4);
}

proof fn chain6(
    s0: OptionsView,
    s1: OptionsView,
    s2: OptionsView,
    s3: OptionsView,
    s4: OptionsView,
    s5: OptionsView,
    s6: OptionsView,
    p1: Seq<Seq<char>>,
    p2: Seq<Seq<char>>,
    p3: Seq<Seq<char>>,
    p4: Seq<Seq<char>>,
    p5: Seq<Seq<char>>,
    p6: Seq<Seq<char>>,
)
    requires
        apply_longs(s0, p1) == s1,
        all_long(p1),
        apply_longs(s1, p2) == s2,
        all_long(p2),
        apply_longs(s2, p3) == s3,
        all_long(p3),
        apply_longs(s3, p4) == s4,
        all_long(p4),
        apply_longs(s4, p5) == s5,
        all_long(p5),
        apply_longs(s5, p6) == s6,
        all_long(p6),
    ensures
        apply_longs(s0, p1 + p2 + p3 + p4 + p5 + p6) == s6,
        all_long(p1 + p2 + p3 + p4 + p5 + p6),
{
    applied_in_turn(s0, p1, p2);
    long_concat(p1, p2);
    applied_in_turn(s0, p1 + p2, p3);
    long_concat(p1 + p2, p3);
    applied_in_turn(s0, p1 + p2 + p3, p4);
    long_concat(p1 + p2 + p3, p4);
    applied_in_turn(s0, p1 + p2 + p3 + p4, p5);
    long_concat(p1 + p2 + p3 + p4, p5);
    applied_in_turn(s0, p1 + p2 + p3 + p4 + p5, p6);
    long_concat(p1 + p2 + p3 + p4 + p5, p6);
}

proof fn chain7(
    s0: OptionsView,
    s1: OptionsView,
    s2: OptionsView,
    s3: OptionsView,
    s4: OptionsView,
    s5: OptionsView,
    s6: OptionsView,
    s7: OptionsView,
    p1: Seq<Seq<char>>,
    p2: Seq<Seq<char>>,
    p3: Seq<Seq<char>>,
    p4: Seq<Seq<char>>,
    p5: Seq<Seq<char>>,
    p6: Seq<Seq<char>>,
    p7: Seq<Seq<char>>,
)
    requires
        apply_longs(s0, p1) == s1,
        all_long(p1),
        apply_longs(s1, p2) == s2,
        all_long(p2),
        apply_longs(s2, p3) == s3,
        all_long(p3),
        apply_longs(s3, p4) == s4,
        all_long(p4),
        apply_longs(s4, p5) == s5,
        all_long(p5),
        apply_longs(s5, p6) == s6,
        all_long(p6),
        apply_longs(s6, p7) == s7,
        all_long(p7),
    ensures
        apply_longs(s0, p1 + p2 + p3 + p4 + p5 + p6 + p7) == s7,
        all_long(p1 + p2 + p3 + p4 + p5 + p6 + p7),
{
    applied_in_turn(s0, p1, p2);
    long_concat(p1, p2);
    applied_in_turn(s0, p1 + p2, p3);
    long_concat(p1 + p2, p3);
    applied_in_turn(s0, p1 + p2 + p3, p4);
    long_concat(p1 + p2 + p3, p4);
    applied_in_turn(s0, p1 + p2 + p3 + p4, p5);
    long_concat(p1 + p2 + p3 + p4, p5);
    applied_in_turn(s0, p1 + p2 + p3 + p4 + p5, p6);
    long_concat(p1 + p2 + p3 + p4 + p5, p6);
    applied_in_turn(s0, p1 + p2 + p3 + p4 + p5 + p6, p7);
    long_concat(p1 + p2 + p3 + p4 + p5 + p6, p7);
}

#[verifier::opaque]
spec fn inplace_in_group(b: BehaviorFlags, v: OptionsView) -> BehaviorFlags {
    if v.behavior.inplace {
        BehaviorFlags { inplace: true, ..b }
    } else {
        b
    }
}

#[verifier::opaque]
spec fn inplace_piece(v: OptionsView) -> Seq<Seq<char>> {
    flag_arg(v.behavior.inplace, "--inplace"@)
}

#[verifier::opaque]
spec fn with_inplace(s: OptionsView, v: OptionsView) -> OptionsView {
    if v.behavior.inplace {
        OptionsView { behavior: BehaviorFlags { inplace: true, ..s.behavior }, ..s }
    } else {
        s
    }
}

proof fn inplace_told(s: OptionsView, v: OptionsView)
    ensures
        apply_longs(s, inplace_piece(v)) == with_inplace(s, v),
        all_long(inplace_piece(v)),
{
    reveal(inplace_piece);
    reveal(with_inplace);
    inplace_step(s, v.behavior.inplace);
}

#[verifier::opaque]
spec fn numeric_ids_in_group(b: TreeFlags, v: OptionsView) -> TreeFlags {
    if v.tree.numeric_ids {
        TreeFlags { numeric_ids: true, ..b }
    } else {
        b
    }
}

#[verifier::opaque]
spec fn numeric_ids_piece(v: OptionsView) -> Seq<Seq<char>> {
    flag_arg(v.tree.numeric_ids, "--numeric-ids"@)
}

#[verifier::opaque]
spec fn with_numeric_ids(s: OptionsView, v: OptionsView) -> OptionsView {
    if v.tree.numeric_ids {
        OptionsView { tree: TreeFlags { numeric_ids: true, ..s.tree }, ..s }
    } else {
        s
    }
}

proof fn numeric_ids_told(s: OptionsView, v: OptionsView)
    ensures
        apply_longs(s, numeric_ids_piece(v)) == with_numeric_ids(s, v),
        all_long(numeric_ids_piece(v)),
{
    reveal(numeric_ids_piece);
    reveal(with_numeric_ids);
    numeric_ids_step(s, v.tree.numeric_ids);
}

#[verifier::opaque]
spec fn append_in_group(b: BehaviorFlags, v: OptionsView) -> BehaviorFlags {
    if v.behavior.append {
        BehaviorFlags { append: true, ..b }
    } else {
        b
    }
}

#[verifier::opaque]
spec fn append_piece(v: OptionsView) -> Seq<Seq<char>> {
    flag_arg(v.behavior.append, "--append"@)
}

#[verifier::opaque]
spec fn with_append(s: OptionsView, v: OptionsView) -> OptionsView {
    if v.behavior.append {
        OptionsView { behavior: BehaviorFlags { append: true, ..s.behavior }, ..s }
    } else {
        s
    }
}

proof fn append_told(s: OptionsView, v: OptionsView)
    ensures
        apply_longs(s, append_piece(v)) == with_append(s, v),
        all_long(append_piece(v)),
{
    reveal(append_piece);
    reveal(with_append);
    append_step(s, v.behavior.append);
}

spec fn with_write_args(s: OptionsView, v: OptionsView) -> OptionsView {
    with_append(with_numeric_ids(with_inplace(s, v), v), v)
}

/// This run of options is read back.
proof fn write_args_read_back(s: OptionsView, v: OptionsView)
    ensures
        apply_longs(s, write_args(v)) == with_write_args(s, v),
        all_long(write_args(v)),
{
    let s1 = with_inplace(s, v);
    inplace_told(s, v);
    let s2 = with_numeric_ids(s1, v);
    numeric_ids_told(s1, v);
    let s3 = with_append(s2, v);
    append_told(s2, v);
    assert(write_args(v) == inplace_piece(v) + numeric_ids_piece(v) + append_piece(v)) by {
        reveal(inplace_piece);
        reveal(numeric_ids_piece);
        reveal(append_piece);
    }
    chain3(s, s1, s2, s3, inplace_piece(v), numeric_ids_piece(v), append_piece(v));
}

#[verifier::opaque]
spec fn size_only_in_group(b: BehaviorFlags, v: OptionsView) -> BehaviorFlags {
    if v.behavior.size_only {
        BehaviorFlags { size_only: true, ..b }
    } else {
        b
    }
}

#[verifier::opaque]
spec fn size_only_piece(v: OptionsView) -> Seq<Seq<char>> {
    flag_arg(v.behavior.size_only, "--size-only"@)
}

#[verifier::opaque]
spec fn with_size_only(s: OptionsView, v: OptionsView) -> OptionsView {
    if v.behavior.size_only {
        OptionsView { behavior: BehaviorFlags { size_only: true, ..s.behavior }, ..s }
    } else {
        s
    }
}

proof fn size_only_told(s: OptionsView, v: OptionsView)
    ensures
        apply_longs(s, size_only_piece(v)) == with_size_only(s, v),
        all_long(size_only_piece(v)),
{
    reveal(size_only_piece);
    reveal(with_size_only);
    size_only_step(s, v.behavior.size_only);
}

#[verifier::opaque]
spec fn existing_in_group(b: BehaviorFlags, v: OptionsView) -> BehaviorFlags {
    if v.behavior.existing {
        BehaviorFlags { existing: true, ..b }
    } else {
        b
    }
}

#[verifier::opaque]
spec fn existing_piece(v: OptionsView) -> Seq<Seq<char>> {
    flag_arg(v.behavior.existing, "--existing"@)
}

#[verifier::opaque]
spec fn with_existing(s: OptionsView, v: OptionsView) -> OptionsView {
    if v.behavior.existing {
        OptionsView { behavior: BehaviorFlags { existing: true, ..s.behavior }, ..s }
    } else {
        s
    }
}

proof fn existing_told(s: OptionsView, v: OptionsView)
    ensures
        apply_longs(s, existing_piece(v)) == with_existing(s, v),
        all_long(existing_piece(v)),
{
    reveal(existing_piece);
    reveal(with_existing);
    existing_step(s, v.behavior.existing);
}

#[verifier::opaque]
spec fn ignore_existing_in_group(b: BehaviorFlags, v: OptionsView) -> BehaviorFlags {
    if v.behavior.ignore_existing {
        BehaviorFlags { ignore_existing: true, ..b }
    } else {
        b
    }
}

#[verifier::opaque]
spec fn ignore_existing_piece(v: OptionsView) -> Seq<Seq<char>> {
    flag_arg(v.behavior.ignore_existing, "--ignore-existing"@)
}

#[verifier::opaque]
spec fn with_ignore_existing(s: OptionsView, v: OptionsView) -> OptionsView {
    if v.behavior.ignore_existing {
        OptionsView { behavior: BehaviorFlags { ignore_existing: true, ..s.behavior }, ..s }
    } else {
        s
    }
}

proof fn ignore_existing_told(s: OptionsView, v: OptionsView)
    ensures
        apply_longs(s, ignore_existing_piece(v)) == with_ignore_existing(s, v),
        all_long(ignore_existing_piece(v)),
{
    reveal(ignore_existing_piece);
    reveal(with_ignore_existing);
    ignore_existing_step(s, v.behavior.ignore_existing);
}

spec fn with_skip_args(s: OptionsView, v: OptionsView) -> OptionsView {
    with_ignore_existing(with_existing(with_size_only(s, v), v), v)
}

/// This run of options is read back.
proof fn skip_args_read_back(s: OptionsView, v: OptionsView)
    ensures
        apply_longs(s, skip_args(v)) == with_skip_args(s, v),
        all_long(skip_args(v)),
{
    let s1 = with_size_only(s, v);
    size_only_told(s, v);
    let s2 = with_existing(s1, v);
    existing_told(s1, v);
    let s3 = with_ignore_existing(s2, v);
    ignore_existing_told(s2, v);
    assert(skip_args(v) == size_only_piece(v) + existing_piece(v) + ignore_existing_piece(v)) by {
        reveal(size_only_piece);
        reveal(existing_piece);
        reveal(ignore_existing_piece);
    }
    chain3(s, s1, s2, s3, size_only_piece(v), existing_piece(v), ignore_existing_piece(v));
}

#[verifier::opaque]
spec fn max_delete_in_group(b: Limits, v: OptionsView) -> Limits {
    if v.limits.max_delete is Some {
        Limits { max_delete: v.limits.max_delete, ..b }
    } else {
        b
    }
}

#[verifier::opaque]
spec fn max_delete_piece(v: OptionsView) -> Seq<Seq<char>> {
    value_arg("--max-delete="@, opt_decimal(v.limits.max_delete))
}

#[verifier::opaque]
spec fn with_max_delete(s: OptionsView, v: OptionsView) -> OptionsView {
    if v.limits.max_delete is Some {
        OptionsView { limits: Limits { max_delete: v.limits.max_delete, ..s.limits }, ..s }
    } else {
        s
    }
}

proof fn max_delete_told(s: OptionsView, v: OptionsView)
    ensures
        apply_longs(s, max_delete_piece(v)) == with_max_delete(s, v),
        all_long(max_delete_piece(v)),
{
    reveal(max_delete_piece);
    reveal(with_max_delete);
    max_delete_step(s, v.limits.max_delete);
}

#[verifier::opaque]
spec fn safe_links_in_group(b: TreeFlags, v: OptionsView) -> TreeFlags {
    if v.tree.safe_links {
        TreeFlags { safe_links: true, ..b }
    } else {
        b
    }
}

#[verifier::opaque]
spec fn safe_links_piece(v: OptionsView) -> Seq<Seq<char>> {
    flag_arg(v.tree.safe_links, "--safe-links"@)
}

#[verifier::opaque]
spec fn with_safe_links(s: OptionsView, v: OptionsView) -> OptionsView {
    if v.tree.safe_links {
        OptionsView { tree: TreeFlags { safe_links: true, ..s.tree }, ..s }
    } else {
        s
    }
}

proof fn safe_links_told(s: OptionsView, v: OptionsView)
    ensures
        apply_longs(s, safe_links_piece(v)) == with_safe_links(s, v),
        all_long(safe_links_piece(v)),
{
    reveal(safe_links_piece);
    reveal(with_safe_links);
    safe_links_step(s, v.tree.safe_links);
}

#[verifier::opaque]
spec fn remove_source_files_in_group(b: TreeFlags, v: OptionsView) -> TreeFlags {
    if v.tree.remove_source_files {
        TreeFlags { remove_source_files: true, ..b }
    } else {
        b
    }
}

#[verifier::opaque]
spec fn remove_source_files_piece(v: OptionsView) -> Seq<Seq<char>> {
    flag_arg(v.tree.remove_source_files, "--remove-source-files"@)
}

#[verifier::opaque]
spec fn with_remove_source_files(s: OptionsView, v: OptionsView) -> OptionsView {
    if v.tree.remove_source_files {
        OptionsView { tree: TreeFlags { remove_source_files: true, ..s.tree }, ..s }
    } else {
        s
    }
}

proof fn remove_source_files_told(s: OptionsView, v: OptionsView)
    ensures
        apply_longs(s, remove_source_files_piece(v)) == with_remove_source_files(s, v),
        all_long(remove_source_files_piece(v)),
{
    reveal(remove_source_files_piece);
    reveal(with_remove_source_files);
    remove_source_files_step(s, v.tree.remove_source_files);
}

#[verifier::opaque]
spec fn append_verify_in_group(b: BehaviorFlags, v: OptionsView) -> BehaviorFlags {
    if v.behavior.append_verify {
        BehaviorFlags { append_verify: true, ..b }
    } else {
        b
    }
}

#[verifier::opaque]
spec fn append_verify_piece(v: OptionsView) -> Seq<Seq<char>> {
    flag_arg(v.behavior.append_verify, "--append-verify"@)
}

#[verifier::opaque]
spec fn with_append_verify(s: OptionsView, v: OptionsView) -> OptionsView {
    if v.behavior.append_verify {
        OptionsView { behavior: BehaviorFlags { append_verify: true, ..s.behavior }, ..s }
    } else {
        s
    }
}

proof fn append_verify_told(s: OptionsView, v: OptionsView)
    ensures
        apply_longs(s, append_verify_piece(v)) == with_append_verify(s, v),
        all_long(append_verify_piece(v)),
{
    reveal(append_verify_piece);
    reveal(with_append_verify);
    append_verify_step(s, v.behavior.append_verify);
}

spec fn with_source_args(s: OptionsView, v: OptionsView) -> OptionsView {
    with_append_verify(with_remove_source_files(with_safe_links(with_max_delete(s, v), v), v), v)
}

/// This run of options is read back.
proof fn source_args_read_back(s: OptionsView, v: OptionsView)
    ensures
        apply_longs(s, source_args(v)) == with_source_args(s, v),
        all_long(source_args(v)),
{
    let s1 = with_max_delete(s, v);
    max_delete_told(s, v);
    let s2 = with_safe_links(s1, v);
    safe_links_told(s1, v);
    let s3 = with_remove_source_files(s2, v);
    remove_source_files_told(s2, v);
    let s4 = with_append_verify(s3, v);
    append_verify_told(s3, v);
    assert(source_args(v) == max_delete_piece(v) + safe_links_piece(v) + remove_source_files_piece(v) + append_verify_piece(v)) by {
        reveal(max_delete_piece);
        reveal(safe_links_piece);
        reveal(remove_source_files_piece);
        reveal(append_verify_piece);
    }
    chain4(s, s1, s2, s3, s4, max_delete_piece(v), safe_links_piece(v), remove_source_files_piece(v), append_verify_piece(v));
}

#[verifier::opaque]
spec fn modify_window_in_group(b: Limits, v: OptionsView) -> Limits {
    if sent_window(v) is Some {
        Limits { modify_window: v.limits.modify_window, ..b }
    } else {
        b
    }
}

#[verifier::opaque]
spec fn modify_window_piece(v: OptionsView) -> Seq<Seq<char>> {
    value_arg("--modify-window="@, opt_decimal(sent_window(v)))
}

#[verifier::opaque]
spec fn with_modify_window(s: OptionsView, v: OptionsView) -> OptionsView {
    if sent_window(v) is Some {
        OptionsView { limits: Limits { modify_window: v.limits.modify_window, ..s.limits }, ..s }
    } else {
        s
    }
}

proof fn modify_window_told(s: OptionsView, v: OptionsView)
    ensures
        apply_longs(s, modify_window_piece(v)) == with_modify_window(s, v),
        all_long(modify_window_piece(v)),
{
    reveal(modify_window_piece);
    reveal(with_modify_window);
    modify_window_step(s, sent_window(v));
}

#[verifier::opaque]
spec fn block_size_in_group(b: Limits, v: OptionsView) -> Limits {
    if v.limits.block_size is Some {
        Limits { block_size: v.limits.block_size, ..b }
    } else {
        b
    }
}

#[verifier::opaque]
spec fn block_size_piece(v: OptionsView) -> Seq<Seq<char>> {
    value_arg("--block-size="@, opt_signed(v.limits.block_size))
}

#[verifier::opaque]
spec fn with_block_size(s: OptionsView, v: OptionsView) -> OptionsView {
    if v.limits.block_size is Some {
        OptionsView { limits: Limits { block_size: v.limits.block_size, ..s.limits }, ..s }
    } else {
        s
    }
}

proof fn block_size_told(s: OptionsView, v: OptionsView)
    ensures
        apply_longs(s, block_size_piece(v)) == with_block_size(s, v),
        all_long(block_size_piece(v)),
{
    reveal(block_size_piece);
    reveal(with_block_size);
    block_size_step(s, v.limits.block_size);
}

#[verifier::opaque]
spec fn chmod_in_group(b: TextOptionsView, v: OptionsView) -> TextOptionsView {
    TextOptionsView { chmod: b.chmod + v.texts.chmod, ..b }
}

#[verifier::opaque]
spec fn chmod_piece(v: OptionsView) -> Seq<Seq<char>> {
    list_args("--chmod="@, v.texts.chmod)
}

#[verifier::opaque]
spec fn with_chmod(s: OptionsView, v: OptionsView) -> OptionsView {
    OptionsView { texts: TextOptionsView { chmod: s.texts.chmod + v.texts.chmod, ..s.texts }, ..s }
}

proof fn chmod_told(s: OptionsView, v: OptionsView)
    ensures
        apply_longs(s, chmod_piece(v)) == with_chmod(s, v),
        all_long(chmod_piece(v)),
{
    reveal(chmod_piece);
    reveal(with_chmod);
    chmod_step(s, v.texts.chmod);
}

#[verifier::opaque]
spec fn chown_in_group(b: Limits, v: OptionsView) -> Limits {
    Limits { chown_uid: if v.limits.chown_uid is Some { v.limits.chown_uid } else { b.chown_uid }, chown_gid: if v.limits.chown_gid is Some { v.limits.chown_gid } else { b.chown_gid }, ..b }
}

#[verifier::opaque]
spec fn chown_piece(v: OptionsView) -> Seq<Seq<char>> {
    value_arg("--chown="@, chown_value(v.limits.chown_uid, v.limits.chown_gid))
}

#[verifier::opaque]
spec fn with_chown(s: OptionsView, v: OptionsView) -> OptionsView {
    OptionsView { limits: Limits { chown_uid: if v.limits.chown_uid is Some { v.limits.chown_uid } else { s.limits.chown_uid }, chown_gid: if v.limits.chown_gid is Some { v.limits.chown_gid } else { s.limits.chown_gid }, ..s.limits }, ..s }
}

proof fn chown_told(s: OptionsView, v: OptionsView)
    ensures
        apply_longs(s, chown_piece(v)) == with_chown(s, v),
        all_long(chown_piece(v)),
{
    reveal(chown_piece);
    reveal(with_chown);
    chown_step(s, v.limits.chown_uid, v.limits.chown_gid);
}

#[verifier::opaque]
spec fn exclude_from_in_group(b: PathOptionsView, v: OptionsView) -> PathOptionsView {
    PathOptionsView { exclude_from: b.exclude_from + paths_of(shown_paths(v.paths.exclude_from)), ..b }
}

#[verifier::opaque]
spec fn exclude_from_piece(v: OptionsView) -> Seq<Seq<char>> {
    list_args("--exclude-from="@, shown_paths(v.paths.exclude_from))
}

#[verifier::opaque]
spec fn with_exclude_from(s: OptionsView, v: OptionsView) -> OptionsView {
    OptionsView { paths: PathOptionsView { exclude_from: s.paths.exclude_from + paths_of(shown_paths(v.paths.exclude_from)), ..s.paths }, ..s }
}

proof fn exclude_from_told(s: OptionsView, v: OptionsView)
    ensures
        apply_longs(s, exclude_from_piece(v)) == with_exclude_from(s, v),
        all_long(exclude_from_piece(v)),
{
    reveal(exclude_from_piece);
    reveal(with_exclude_from);
    exclude_from_step(s, shown_paths(v.paths.exclude_from));
}

#[verifier::opaque]
spec fn include_from_in_group(b: PathOptionsView, v: OptionsView) -> PathOptionsView {
    PathOptionsView { include_from: b.include_from + paths_of(shown_paths(v.paths.include_from)), ..b }
}

#[verifier::opaque]
spec fn include_from_piece(v: OptionsView) -> Seq<Seq<char>> {
    list_args("--include-from="@, shown_paths(v.paths.include_from))
}

#[verifier::opaque]
spec fn with_include_from(s: OptionsView, v: OptionsView) -> OptionsView {
    OptionsView { paths: PathOptionsView { include_from: s.paths.include_from + paths_of(shown_paths(v.paths.include_from)), ..s.paths }, ..s }
}

proof fn include_from_told(s: OptionsView, v: OptionsView)
    ensures
        apply_longs(s, include_from_piece(v)) == with_include_from(s, v),
        all_long(include_from_piece(v)),
{
    reveal(include_from_piece);
    reveal(with_include_from);
    include_from_step(s, shown_paths(v.paths.include_from));
}

spec fn with_tuning_args(s: OptionsView, v: OptionsView) -> OptionsView {
    with_include_from(with_exclude_from(with_chown(with_chmod(with_block_size(with_modify_window(s, v), v), v), v), v), v)
}

/// This run of options is read back.
proof fn tuning_args_read_back(s: OptionsView, v: OptionsView)
    ensures
        apply_longs(s, tuning_args(v)) == with_tuning_args(s, v),
        all_long(tuning_args(v)),
{
    let s1 = with_modify_window(s, v);
    modify_window_told(s, v);
    let s2 = with_block_size(s1, v);
    block_size_told(s1, v);
    let s3 = with_chmod(s2, v);
    chmod_told(s2, v);
    let s4 = with_chown(s3, v);
    chown_told(s3, v);
    let s5 = with_exclude_from(s4, v);
    exclude_from_told(s4, v);
    let s6 = with_include_from(s5, v);
    include_from_told(s5, v);
    assert(tuning_args(v) == modify_window_piece(v) + block_size_piece(v) + chmod_piece(v) + chown_piece(v) + exclude_from_piece(v) + include_from_piece(v)) by {
        reveal(modify_window_piece);
        reveal(block_size_piece);
        reveal(chmod_piece);
        reveal(chown_piece);
        reveal(exclude_from_piece);
        reveal(include_from_piece);
    }
    chain6(s, s1, s2, s3, s4, s5, s6, modify_window_piece(v), block_size_piece(v), chmod_piece(v), chown_piece(v), exclude_from_piece(v), include_from_piece(v));
}

#[verifier::opaque]
spec fn partial_in_group(b: BehaviorFlags, v: OptionsView) -> BehaviorFlags {
    if v.behavior.partial {
        BehaviorFlags { partial: true, ..b }
    } else {
        b
    }
}

#[verifier::opaque]
spec fn partial_piece(v: OptionsView) -> Seq<Seq<char>> {
    flag_arg(v.behavior.partial, "--partial"@)
}

#[verifier::opaque]
spec fn with_partial(s: OptionsView, v: OptionsView) -> OptionsView {
    if v.behavior.partial {
        OptionsView { behavior: BehaviorFlags { partial: true, ..s.behavior }, ..s }
    } else {
        s
    }
}

proof fn partial_told(s: OptionsView, v: OptionsView)
    ensures
        apply_longs(s, partial_piece(v)) == with_partial(s, v),
        all_long(partial_piece(v)),
{
    reveal(partial_piece);
    reveal(with_partial);
    partial_step(s, v.behavior.partial);
}

#[verifier::opaque]
spec fn partial_dir_in_group(b: PathOptionsView, v: OptionsView) -> PathOptionsView {
    if v.paths.partial_dir is Some {
        PathOptionsView { partial_dir: v.paths.partial_dir, ..b }
    } else {
        b
    }
}

#[verifier::opaque]
spec fn partial_dir_piece(v: OptionsView) -> Seq<Seq<char>> {
    value_arg("--partial-dir="@, shown_path(v.paths.partial_dir))
}

#[verifier::opaque]
spec fn with_partial_dir(s: OptionsView, v: OptionsView) -> OptionsView {
    if v.paths.partial_dir is Some {
        OptionsView { paths: PathOptionsView { partial_dir: v.paths.partial_dir, ..s.paths }, ..s }
    } else {
        s
    }
}

proof fn partial_dir_told(s: OptionsView, v: OptionsView)
    requires
        v.paths.partial_dir is Some ==> vstd::utf8::valid_utf8(v.paths.partial_dir->0),
    ensures
        apply_longs(s, partial_dir_piece(v)) == with_partial_dir(s, v),
        all_long(partial_dir_piece(v)),
{
    reveal(partial_dir_piece);
    reveal(with_partial_dir);
    partial_dir_step(s, v.paths.partial_dir);
}

spec fn with_partial_args(s: OptionsView, v: OptionsView) -> OptionsView {
    with_partial_dir(with_partial(s, v), v)
}

/// This run of options is read back.
proof fn partial_args_read_back(s: OptionsView, v: OptionsView)
    requires
        v.paths.partial_dir is Some ==> vstd::utf8::valid_utf8(v.paths.partial_dir->0),
    ensures
        apply_longs(s, partial_args(v)) == with_partial_args(s, v),
        all_long(partial_args(v)),
{
    let s1 = with_partial(s, v);
    partial_told(s, v);
    let s2 = with_partial_dir(s1, v);
    partial_dir_told(s1, v);
    assert(partial_args(v) == partial_piece(v) + partial_dir_piece(v)) by {
        reveal(partial_piece);
        reveal(partial_dir_piece);
    }
    chain2(s, s1, s2, partial_piece(v), partial_dir_piece(v));
}

#[verifier::opaque]
spec fn list_only_in_group(b: OutputFlags, v: OptionsView) -> OutputFlags {
    if v.output.list_only {
        OutputFlags { list_only: true, ..b }
    } else {
        b
    }
}

#[verifier::opaque]
spec fn list_only_piece(v: OptionsView) -> Seq<Seq<char>> {
    flag_arg(v.output.list_only, "--list-only"@)
}

#[verifier::opaque]
spec fn with_list_only(s: OptionsView, v: OptionsView) -> OptionsView {
    if v.output.list_only {
        OptionsView { output: OutputFlags { list_only: true, ..s.output }, ..s }
    } else {
        s
    }
}

proof fn list_only_told(s: OptionsView, v: OptionsView)
    ensures
        apply_longs(s, list_only_piece(v)) == with_list_only(s, v),
        all_long(list_only_piece(v)),
{
    reveal(list_only_piece);
    reveal(with_list_only);
    list_only_step(s, v.output.list_only);
}

#[verifier::opaque]
spec fn fake_super_in_group(b: TreeFlags, v: OptionsView) -> TreeFlags {
    if v.tree.fake_super {
        TreeFlags { fake_super: true, ..b }
    } else {
        b
    }
}

#[verifier::opaque]
spec fn fake_super_piece(v: OptionsView) -> Seq<Seq<char>> {
    flag_arg(v.tree.fake_super, "--fake-super"@)
}

#[verifier::opaque]
spec fn with_fake_super(s: OptionsView, v: OptionsView) -> OptionsView {
    if v.tree.fake_super {
        OptionsView { tree: TreeFlags { fake_super: true, ..s.tree }, ..s }
    } else {
        s
    }
}

proof fn fake_super_told(s: OptionsView, v: OptionsView)
    ensures
        apply_longs(s, fake_super_piece(v)) == with_fake_super(s, v),
        all_long(fake_super_piece(v)),
{
    reveal(fake_super_piece);
    reveal(with_fake_super);
    fake_super_step(s, v.tree.fake_super);
}

#[verifier::opaque]
spec fn delete_in_group(b: OutputFlags, v: OptionsView) -> OutputFlags {
    if v.output.delete != DeleteMode::Off {
        OutputFlags { delete: v.output.delete, ..b }
    } else {
        b
    }
}

#[verifier::opaque]
spec fn delete_piece(v: OptionsView) -> Seq<Seq<char>> {
    delete_args(v.output.delete)
}

#[verifier::opaque]
spec fn with_delete(s: OptionsView, v: OptionsView) -> OptionsView {
    if v.output.delete != DeleteMode::Off {
        OptionsView { output: OutputFlags { delete: v.output.delete, ..s.output }, ..s }
    } else {
        s
    }
}

proof fn delete_told(s: OptionsView, v: OptionsView)
    ensures
        apply_longs(s, delete_piece(v)) == with_delete(s, v),
        all_long(delete_piece(v)),
{
    reveal(delete_piece);
    reveal(with_delete);
    delete_step(s, v.output.delete);
}

spec fn with_delete_mode_args(s: OptionsView, v: OptionsView) -> OptionsView {
    with_delete(with_fake_super(with_list_only(s, v), v), v)
}

/// This run of options is read back.
proof fn delete_mode_args_read_back(s: OptionsView, v: OptionsView)
    ensures
        apply_longs(s, delete_mode_args(v)) == with_delete_mode_args(s, v),
        all_long(delete_mode_args(v)),
{
    let s1 = with_list_only(s, v);
    list_only_told(s, v);
    let s2 = with_fake_super(s1, v);
    fake_super_told(s1, v);
    let s3 = with_delete(s2, v);
    delete_told(s2, v);
    assert(delete_mode_args(v) == list_only_piece(v) + fake_super_piece(v) + delete_piece(v)) by {
        reveal(list_only_piece);
        reveal(fake_super_piece);
        reveal(delete_piece);
    }
    chain3(s, s1, s2, s3, list_only_piece(v), fake_super_piece(v), delete_piece(v));
}

proof fn inplace_keeps(s: OptionsView, v: OptionsView)
    ensures
        with_inplace(s, v).behavior == inplace_in_group(s.behavior, v),
        with_inplace(s, v).archive == s.archive,
        with_inplace(s, v).tree == s.tree,
        with_inplace(s, v).output == s.output,
        with_inplace(s, v).limits == s.limits,
        with_inplace(s, v).texts == s.texts,
        with_inplace(s, v).paths == s.paths,
{
    reveal(with_inplace);
    reveal(inplace_in_group);
}

proof fn numeric_ids_keeps(s: OptionsView, v: OptionsView)
    ensures
        with_numeric_ids(s, v).tree == numeric_ids_in_group(s.tree, v),
        with_numeric_ids(s, v).archive == s.archive,
        with_numeric_ids(s, v).behavior == s.behavior,
        with_numeric_ids(s, v).output == s.output,
        with_numeric_ids(s, v).limits == s.limits,
        with_numeric_ids(s, v).texts == s.texts,
        with_numeric_ids(s, v).paths == s.paths,
{
    reveal(with_numeric_ids);
    reveal(numeric_ids_in_group);
}

proof fn append_keeps(s: OptionsView, v: OptionsView)
    ensures
        with_append(s, v).behavior == append_in_group(s.behavior, v),
        with_append(s, v).archive == s.archive,
        with_append(s, v).tree == s.tree,
        with_append(s, v).output == s.output,
        with_append(s, v).limits == s.limits,
        with_append(s, v).texts == s.texts,
        with_append(s, v).paths == s.paths,
{
    reveal(with_append);
    reveal(append_in_group);
}

proof fn size_only_keeps(s: OptionsView, v: OptionsView)
    ensures
        with_size_only(s, v).behavior == size_only_in_group(s.behavior, v),
        with_size_only(s, v).archive == s.archive,
        with_size_only(s, v).tree == s.tree,
        with_size_only(s, v).output == s.output,
        with_size_only(s, v).limits == s.limits,
        with_size_only(s, v).texts == s.texts,
        with_size_only(s, v).paths == s.paths,
{
    reveal(with_size_only);
    reveal(size_only_in_group);
}

proof fn existing_keeps(s: OptionsView, v: OptionsView)
    ensures
        with_existing(s, v).behavior == existing_in_group(s.behavior, v),
        with_existing(s, v).archive == s.archive,
        with_existing(s, v).tree == s.tree,
        with_existing(s, v).output == s.output,
        with_existing(s, v).limits == s.limits,
        with_existing(s, v).texts == s.texts,
        with_existing(s, v).paths == s.paths,
{
    reveal(with_existing);
    reveal(existing_in_group);
}

proof fn ignore_existing_keeps(s: OptionsView, v: OptionsView)
    ensures
        with_ignore_existing(s, v).behavior == ignore_existing_in_group(s.behavior, v),
        with_ignore_existing(s, v).archive == s.archive,
        with_ignore_existing(s, v).tree == s.tree,
        with_ignore_existing(s, v).output == s.output,
        with_ignore_existing(s, v).limits == s.limits,
        with_ignore_existing(s, v).texts == s.texts,
        with_ignore_existing(s, v).paths == s.paths,
{
    reveal(with_ignore_existing);
    reveal(ignore_existing_in_group);
}

proof fn max_delete_keeps(s: OptionsView, v: OptionsView)
    ensures
        with_max_delete(s, v).limits == max_delete_in_group(s.limits, v),
        with_max_delete(s, v).archive == s.archive,
        with_max_delete(s, v).behavior == s.behavior,
        with_max_delete(s, v).tree == s.tree,
        with_max_delete(s, v).output == s.output,
        with_max_delete(s, v).texts == s.texts,
        with_max_delete(s, v).paths == s.paths,
{
    reveal(with_max_delete);
    reveal(max_delete_in_group);
}

proof fn safe_links_keeps(s: OptionsView, v: OptionsView)
    ensures
        with_safe_links(s, v).tree == safe_links_in_group(s.tree, v),
        with_safe_links(s, v).archive == s.archive,
        with_safe_links(s, v).behavior == s.behavior,
        with_safe_links(s, v).output == s.output,
        with_safe_links(s, v).limits == s.limits,
        with_safe_links(s, v).texts == s.texts,
        with_safe_links(s, v).paths == s.paths,
{
    reveal(with_safe_links);
    reveal(safe_links_in_group);
}

proof fn remove_source_files_keeps(s: OptionsView, v: OptionsView)
    ensures
        with_remove_source_files(s, v).tree == remove_source_files_in_group(s.tree, v),
        with_remove_source_files(s, v).archive == s.archive,
        with_remove_source_files(s, v).behavior == s.behavior,
        with_remove_source_files(s, v).output == s.output,
        with_remove_source_files(s, v).limits == s.limits,
        with_remove_source_files(s, v).texts == s.texts,
        with_remove_source_files(s, v).paths == s.paths,
{
    reveal(with_remove_source_files);
    reveal(remove_source_files_in_group);
}

proof fn append_verify_keeps(s: OptionsView, v: OptionsView)
    ensures
        with_append_verify(s, v).behavior == append_verify_in_group(s.behavior, v),
        with_append_verify(s, v).archive == s.archive,
        with_append_verify(s, v).tree == s.tree,
        with_append_verify(s, v).output == s.output,
        with_append_verify(s, v).limits == s.limits,
        with_append_verify(s, v).texts == s.texts,
        with_append_verify(s, v).paths == s.paths,
{
    reveal(with_append_verify);
    reveal(append_verify_in_group);
}

proof fn modify_window_keeps(s: OptionsView, v: OptionsView)
    ensures
        with_modify_window(s, v).limits == modify_window_in_group(s.limits, v),
        with_modify_window(s, v).archive == s.archive,
        with_modify_window(s, v).behavior == s.behavior,
        with_modify_window(s, v).tree == s.tree,
        with_modify_window(s, v).output == s.output,
        with_modify_window(s, v).texts == s.texts,
        with_modify_window(s, v).paths == s.paths,
{
    reveal(with_modify_window);
    reveal(modify_window_in_group);
}

proof fn block_size_keeps(s: OptionsView, v: OptionsView)
    ensures
        with_block_size(s, v).limits == block_size_in_group(s.limits, v),
        with_block_size(s, v).archive == s.archive,
        with_block_size(s, v).behavior == s.behavior,
        with_block_size(s, v).tree == s.tree,
        with_block_size(s, v).output == s.output,
        with_block_size(s, v).texts == s.texts,
        with_block_size(s, v).paths == s.paths,
{
    reveal(with_block_size);
    reveal(block_size_in_group);
}

proof fn chmod_keeps(s: OptionsView, v: OptionsView)
    ensures
        with_chmod(s, v).texts == chmod_in_group(s.texts, v),
        with_chmod(s, v).archive == s.archive,
        with_chmod(s, v).behavior == s.behavior,
        with_chmod(s, v).tree == s.tree,
        with_chmod(s, v).output == s.output,
        with_chmod(s, v).limits == s.limits,
        with_chmod(s, v).paths == s.paths,
{
    reveal(with_chmod);
    reveal(chmod_in_group);
}

proof fn chown_keeps(s: OptionsView, v: OptionsView)
    ensures
        with_chown(s, v).limits == chown_in_group(s.limits, v),
        with_chown(s, v).archive == s.archive,
        with_chown(s, v).behavior == s.behavior,
        with_chown(s, v).tree == s.tree,
        with_chown(s, v).output == s.output,
        with_chown(s, v).texts == s.texts,
        with_chown(s, v).paths == s.paths,
{
    reveal(with_chown);
    reveal(chown_in_group);
}

proof fn exclude_from_keeps(s: OptionsView, v: OptionsView)
    ensures
        with_exclude_from(s, v).paths == exclude_from_in_group(s.paths, v),
        with_exclude_from(s, v).archive == s.archive,
        with_exclude_from(s, v).behavior == s.behavior,
        with_exclude_from(s, v).tree == s.tree,
        with_exclude_from(s, v).output == s.output,
        with_exclude_from(s, v).limits == s.limits,
        with_exclude_from(s, v).texts == s.texts,
{
    reveal(with_exclude_from);
    reveal(exclude_from_in_group);
}

proof fn include_from_keeps(s: OptionsView, v: OptionsView)
    ensures
        with_include_from(s, v).paths == include_from_in_group(s.paths, v),
        with_include_from(s, v).archive == s.archive,
        with_include_from(s, v).behavior == s.behavior,
        with_include_from(s, v).tree == s.tree,
        with_include_from(s, v).output == s.output,
        with_include_from(s, v).limits == s.limits,
        with_include_from(s, v).texts == s.texts,
{
    reveal(with_include_from);
    reveal(include_from_in_group);
}

proof fn partial_keeps(s: OptionsView, v: OptionsView)
    ensures
        with_partial(s, v).behavior == partial_in_group(s.behavior, v),
        with_partial(s, v).archive == s.archive,
        with_partial(s, v).tree == s.tree,
        with_partial(s, v).output == s.output,
        with_partial(s, v).limits == s.limits,
        with_partial(s, v).texts == s.texts,
        with_partial(s, v).paths == s.paths,
{
    reveal(with_partial);
    reveal(partial_in_group);
}

proof fn partial_dir_keeps(s: OptionsView, v: OptionsView)
    ensures
        with_partial_dir(s, v).paths == partial_dir_in_group(s.paths, v),
        with_partial_dir(s, v).archive == s.archive,
        with_partial_dir(s, v).behavior == s.behavior,
        with_partial_dir(s, v).tree == s.tree,
        with_partial_dir(s, v).output == s.output,
        with_partial_dir(s, v).limits == s.limits,
        with_partial_dir(s, v).texts == s.texts,
{
    reveal(with_partial_dir);
    reveal(partial_dir_in_group);
}

proof fn list_only_keeps(s: OptionsView, v: OptionsView)
    ensures
        with_list_only(s, v).output == list_only_in_group(s.output, v),
        with_list_only(s, v).archive == s.archive,
        with_list_only(s, v).behavior == s.behavior,
        with_list_only(s, v).tree == s.tree,
        with_list_only(s, v).limits == s.limits,
        with_list_only(s, v).texts == s.texts,
        with_list_only(s, v).paths == s.paths,
{
    reveal(with_list_only);
    reveal(list_only_in_group);
}

proof fn fake_super_keeps(s: OptionsView, v: OptionsView)
    ensures
        with_fake_super(s, v).tree == fake_super_in_group(s.tree, v),
        with_fake_super(s, v).archive == s.archive,
        with_fake_super(s, v).behavior == s.behavior,
        with_fake_super(s, v).output == s.output,
        with_fake_super(s, v).limits == s.limits,
        with_fake_super(s, v).texts == s.texts,
        with_fake_super(s, v).paths == s.paths,
{
    reveal(with_fake_super);
    reveal(fake_super_in_group);
}

proof fn delete_keeps(s: OptionsView, v: OptionsView)
    ensures
        with_delete(s, v).output == delete_in_group(s.output, v),
        with_delete(s, v).archive == s.archive,
        with_delete(s, v).behavior == s.behavior,
        with_delete(s, v).tree == s.tree,
        with_delete(s, v).limits == s.limits,
        with_delete(s, v).texts == s.texts,
        with_delete(s, v).paths == s.paths,
{
    reveal(with_delete);
    reveal(delete_in_group);
}

/// Reading the arguments that were built from options gives back what they
/// carry: every option of the list, with devices and special files taken
/// together, and the module's path as source or destination. Paths that are
/// sent have to be UTF-8.
pub proof fn server_args_read_back(v: OptionsView, path: Seq<u8>, am_sender: bool)
    requires
        paths_are_text(v),
    ensures
        find_condensed(server_args(v, am_sender)) == Some(condensed_arg(v, am_sender)),
        parsed_args(server_args(v, am_sender), path, am_sender) == carried(v, path, am_sender),
{
    let c = condensed_arg(v, am_sender);
    let longs = long_options(v, am_sender);
    letters_found(v, am_sender);
    condensed_read_back(v, am_sender);
    long_options_read_back(v, am_sender);
    condensed_is_first(c, longs);
    longs_are_found(c, longs);
    final_groups(v, before_module(v, am_sender), path, am_sender);
}

/// The long options are read back.
proof fn long_options_read_back(v: OptionsView, am_sender: bool)
    requires
        paths_are_text(v),
    ensures
        apply_longs(after_condensed(v), long_options(v, am_sender)) == before_module(v, am_sender),
        all_long(long_options(v, am_sender)),
{
    let s0 = after_condensed(v);
    let s1 = with_write_args(s0, v);
    let s2 = with_skip_args(s1, v);
    let s3 = with_source_args(s2, v);
    let s4 = with_tuning_args(s3, v);
    let s5 = with_partial_args(s4, v);
    let s6 = with_delete_mode_args(s5, v);
    assert(s6 == with_longs(v));
    let links = sent_links(v, am_sender);
    let s7 = OptionsView {
        paths: PathOptionsView { link_dest: s6.paths.link_dest + paths_of(links), ..s6.paths },
        ..s6
    };
    write_args_read_back(s0, v);
    skip_args_read_back(s1, v);
    source_args_read_back(s2, v);
    tuning_args_read_back(s3, v);
    partial_args_read_back(s4, v);
    delete_mode_args_read_back(s5, v);
    link_dest_step(s6, links);
    chain7(
        s0,
        s1,
        s2,
        s3,
        s4,
        s5,
        s6,
        s7,
        write_args(v),
        skip_args(v),
        source_args(v),
        tuning_args(v),
        partial_args(v),
        delete_mode_args(v),
        link_args(v, am_sender),
    );
    groups_of_longs(v);
    archive_read_back(v, am_sender);
    behavior_read_back(v, am_sender);
    tree_read_back(v, am_sender);
    output_read_back(v, am_sender);
    limits_read_back(v, am_sender);
    texts_read_back(v, am_sender);
    paths_read_back(v, am_sender);
}

/// The options after all arguments, before the link directories.
spec fn with_longs(v: OptionsView) -> OptionsView {
    with_delete_mode_args(
        with_partial_args(
            with_tuning_args(
                with_source_args(with_skip_args(with_write_args(after_condensed(v), v), v), v),
                v,
            ),
            v,
        ),
        v,
    )
}

proof fn groups_of_longs(v: OptionsView)
    ensures
        with_longs(v).archive == after_condensed(v).archive,
        with_longs(v).behavior == partial_in_group(append_verify_in_group(ignore_existing_in_group(existing_in_group(size_only_in_group(append_in_group(inplace_in_group(after_condensed(v).behavior, v), v), v), v), v), v), v),
        with_longs(v).tree == fake_super_in_group(remove_source_files_in_group(safe_links_in_group(numeric_ids_in_group(after_condensed(v).tree, v), v), v), v),
        with_longs(v).output == delete_in_group(list_only_in_group(after_condensed(v).output, v), v),
        with_longs(v).limits == chown_in_group(block_size_in_group(modify_window_in_group(max_delete_in_group(after_condensed(v).limits, v), v), v), v),
        with_longs(v).texts == chmod_in_group(after_condensed(v).texts, v),
        with_longs(v).paths == partial_dir_in_group(include_from_in_group(exclude_from_in_group(after_condensed(v).paths, v), v), v),
{
    let s0 = after_condensed(v);
    let s1 = with_inplace(s0, v);
    inplace_keeps(s0, v);
    let s2 = with_numeric_ids(s1, v);
    numeric_ids_keeps(s1, v);
    let s3 = with_append(s2, v);
    append_keeps(s2, v);
    let s4 = with_size_only(s3, v);
    size_only_keeps(s3, v);
    let s5 = with_existing(s4, v);
    existing_keeps(s4, v);
    let s6 = with_ignore_existing(s5, v);
    ignore_existing_keeps(s5, v);
    let s7 = with_max_delete(s6, v);
    max_delete_keeps(s6, v);
    let s8 = with_safe_links(s7, v);
    safe_links_keeps(s7, v);
    let s9 = with_remove_source_files(s8, v);
    remove_source_files_keeps(s8, v);
    let s10 = with_append_verify(s9, v);
    append_verify_keeps(s9, v);
    let s11 = with_modify_window(s10, v);
    modify_window_keeps(s10, v);
    let s12 = with_block_size(s11, v);
    block_size_keeps(s11, v);
    let s13 = with_chmod(s12, v);
    chmod_keeps(s12, v);
    let s14 = with_chown(s13, v);
    chown_keeps(s13, v);
    let s15 = with_exclude_from(s14, v);
    exclude_from_keeps(s14, v);
    let s16 = with_include_from(s15, v);
    include_from_keeps(s15, v);
    let s17 = with_partial(s16, v);
    partial_keeps(s16, v);
    let s18 = with_partial_dir(s17, v);
    partial_dir_keeps(s17, v);
    let s19 = with_list_only(s18, v);
    list_only_keeps(s18, v);
    let s20 = with_fake_super(s19, v);
    fake_super_keeps(s19, v);
    let s21 = with_delete(s20, v);
    delete_keeps(s20, v);
}

proof fn archive_read_back(v: OptionsView, am_sender: bool)
    ensures
        after_condensed(v).archive
            == before_module(v, am_sender).archive,
{
}

proof fn behavior_read_back(v: OptionsView, am_sender: bool)
    ensures
        partial_in_group(append_verify_in_group(ignore_existing_in_group(existing_in_group(size_only_in_group(append_in_group(inplace_in_group(after_condensed(v).behavior, v), v), v), v), v), v), v)
            == before_module(v, am_sender).behavior,
{
    reveal(inplace_in_group);
    reveal(append_in_group);
    reveal(size_only_in_group);
    reveal(existing_in_group);
    reveal(ignore_existing_in_group);
    reveal(append_verify_in_group);
    reveal(partial_in_group);
}

proof fn tree_read_back(v: OptionsView, am_sender: bool)
    ensures
        fake_super_in_group(remove_source_files_in_group(safe_links_in_group(numeric_ids_in_group(after_condensed(v).tree, v), v), v), v)
            == before_module(v, am_sender).tree,
{
    reveal(numeric_ids_in_group);
    reveal(safe_links_in_group);
    reveal(remove_source_files_in_group);
    reveal(fake_super_in_group);
}

proof fn output_read_back(v: OptionsView, am_sender: bool)
    ensures
        delete_in_group(list_only_in_group(after_condensed(v).output, v), v)
            == before_module(v, am_sender).output,
{
    reveal(list_only_in_group);
    reveal(delete_in_group);
}

proof fn limits_read_back(v: OptionsView, am_sender: bool)
    ensures
        chown_in_group(block_size_in_group(modify_window_in_group(max_delete_in_group(after_condensed(v).limits, v), v), v), v)
            == before_module(v, am_sender).limits,
{
    reveal(max_delete_in_group);
    reveal(modify_window_in_group);
    reveal(block_size_in_group);
    reveal(chown_in_group);
}

proof fn texts_read_back(v: OptionsView, am_sender: bool)
    ensures
        chmod_in_group(after_condensed(v).texts, v)
            == before_module(v, am_sender).texts,
{
    reveal(chmod_in_group);
    assert(Seq::<Seq<char>>::empty() + v.texts.chmod =~= v.texts.chmod);
}

proof fn paths_read_back(v: OptionsView, am_sender: bool)
    requires
        paths_are_text(v),
    ensures
        ({
            let w = partial_dir_in_group(include_from_in_group(exclude_from_in_group(after_condensed(v).paths, v), v), v);
            PathOptionsView {
                link_dest: w.link_dest + paths_of(sent_links(v, am_sender)),
                ..w
            } == before_module(v, am_sender).paths
        }),
{
    shown_paths_kept(v.paths.exclude_from);
    shown_paths_kept(v.paths.include_from);
    shown_paths_kept(v.paths.link_dest);
    let e = Seq::<Seq<u8>>::empty();
    assert(e + v.paths.exclude_from =~= v.paths.exclude_from);
    assert(e + v.paths.include_from =~= v.paths.include_from);
    assert(e + v.paths.link_dest =~= v.paths.link_dest);
    assert(e + paths_of(Seq::<Seq<char>>::empty()) =~= e);
    reveal(exclude_from_in_group);
    reveal(include_from_in_group);
    reveal(partial_dir_in_group);
}

proof fn final_groups(v: OptionsView, s3: OptionsView, path: Seq<u8>, am_sender: bool)
    requires
        s3 == before_module(v, am_sender),
    ensures
        with_module(s3, path, am_sender) == carried(v, path, am_sender),
{
    assert(Seq::<Seq<u8>>::empty().push(path) =~= seq![path]);
}

/// What the server has after all arguments.
spec fn before_module(v: OptionsView, am_sender: bool) -> OptionsView {
    let c = carried(v, Seq::empty(), am_sender);
    OptionsView {
        paths: PathOptionsView {
            source: Seq::empty(),
            dest: None,
            ..c.paths
        },
        ..c
    }
}

} // verus!
