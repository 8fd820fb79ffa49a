//! What names, numbers and listing lines of entries say.

use vstd::prelude::*;

use vstd::utf8::encode_utf8;

use crate::filelist::entry::{
    basename_of, date_of_day, day_has_one_date, day_number, days_before_month, days_before_year,
    days_in_month, dirname_of, entry_name_of, file_name_of, first_marker, is_date,
    last_slash_is_last, link_identity, list_line, mode_text, mtime_text, rdev_major_of,
    rdev_minor_of, two_digits, without_trailing, year_has_its_days, year_text, CivilDate, EntryView,
};
use crate::fs::metadata::{entry_for, FileMetadata};
use crate::text::{digit_char, lossy_text, numeral, signed_decimal};

verus! {

// ---------------------------------------------------------------------------
// Names
// ---------------------------------------------------------------------------

/// No byte is a slash.
pub open spec fn without_slash(s: Seq<u8>) -> bool {
    forall|i: int| 0 <= i < s.len() ==> s[i] != 0x2F
}

/// A path splits at its last slash into its directory and its name.
pub proof fn paths_split_at_the_last_slash(d: Seq<u8>, b: Seq<u8>)
    requires
        without_slash(b),
    ensures
        dirname_of(d + seq![0x2Fu8] + b) == Some(d),
        basename_of(d + seq![0x2Fu8] + b) == b,
        dirname_of(b) is None,
        basename_of(b) == b,
{
    let s = d + seq![0x2Fu8] + b;
    let k = crate::filelist::entry::last_slash(s);
    last_slash_is_last(s);
    last_slash_is_last(b);
    assert(s[d.len() as int] == 0x2F);
    if k > d.len() {
        assert(s[k] == b[k - d.len() - 1]);
    }
    assert(k == d.len());
    assert(s.take(k) =~= d);
    assert(s.skip(k + 1) =~= b);
    assert(b.skip(0) =~= b);
}

/// The name of a path is what follows its last slash, where that is a name.
/// Slashes at the end do not count, and dots alone are no name.
pub proof fn last_component_is_the_name(d: Seq<u8>, b: Seq<u8>, s: Seq<u8>)
    requires
        without_slash(b),
        b.len() > 0,
        b != seq![0x2Eu8],
    ensures
        b != seq![0x2Eu8, 0x2Eu8] ==> file_name_of(d + seq![0x2Fu8] + b) == Some(b) && file_name_of(
            b,
        ) == Some(b),
        b == seq![0x2Eu8, 0x2Eu8] ==> file_name_of(d + seq![0x2Fu8] + b) is None && file_name_of(
            b,
        ) is None,
        file_name_of(s.push(0x2F)) == file_name_of(s),
        file_name_of(Seq::<u8>::empty()) is None,
        entry_name_of(b, false) == (if file_name_of(b) is Some {
            b
        } else {
            Seq::empty()
        }),
{
    let p = d + seq![0x2Fu8] + b;
    paths_split_at_the_last_slash(d, b);
    assert(p.last() == b.last());
    if p.last() == 0x2E && p[p.len() - 2] == 0x2F {
        if b.len() >= 2 {
            assert(p[p.len() - 2] == b[b.len() - 2]);
        }
        assert(b =~= seq![0x2Eu8]);
    }
    assert(without_trailing(p) == p);
    assert(without_trailing(b) == b);
    assert(s.push(0x2F).drop_last() =~= s);
    let e = Seq::<u8>::empty();
    assert(without_trailing(e) == e);
    assert(basename_of(e) =~= e);
}

/// Under `--relative` the name is what follows the first `/./`; without one it is
/// the path without a leading slash.
pub proof fn marked_part_is_kept(source: Seq<u8>, a: Seq<u8>, b: Seq<u8>)
    ensures
        ({
            let t = encode_utf8(lossy_text(source));
            let unmarked = |n: int|
                forall|i: int|
                    #![trigger t[i]]
                    0 <= i < n && i + 3 <= t.len() ==> !(t[i] == 0x2F && t[i + 1] == 0x2E && t[i
                        + 2] == 0x2F);
            &&& t == a + seq![0x2Fu8, 0x2Eu8, 0x2Fu8] + b && unmarked(a.len() as int)
                ==> entry_name_of(source, true) == b
            &&& unmarked(t.len() as int) && t.len() > 0 && t[0] == 0x2F ==> entry_name_of(
                source,
                true,
            ) == t.skip(1)
            &&& unmarked(t.len() as int) && (t.len() == 0 || t[0] != 0x2F) ==> entry_name_of(
                source,
                true,
            ) == t
        }),
{
    let t = encode_utf8(lossy_text(source));
    let unmarked = |n: int|
        forall|i: int|
            #![trigger t[i]]
            0 <= i < n && i + 3 <= t.len() ==> !(t[i] == 0x2F && t[i + 1] == 0x2E && t[i + 2]
                == 0x2F);
    if t == a + seq![0x2Fu8, 0x2Eu8, 0x2Fu8] + b && unmarked(a.len() as int) {
        let n = a.len() as int;
        assert(t[n] == 0x2F && t[n + 1] == 0x2E && t[n + 2] == 0x2F);
        marker_found(t, 0, n);
        assert(t.skip(n + 3) =~= b);
    }
    if unmarked(t.len() as int) {
        no_marker_found(t, 0);
    }
}

proof fn marker_found(t: Seq<u8>, i: int, n: int)
    requires
        0 <= i <= n,
        n + 3 <= t.len(),
        t[n] == 0x2F && t[n + 1] == 0x2E && t[n + 2] == 0x2F,
        forall|j: int|
            #![trigger t[j]]
            i <= j < n && j + 3 <= t.len() ==> !(t[j] == 0x2F && t[j + 1] == 0x2E && t[j + 2]
                == 0x2F),
    ensures
        first_marker(t, i) == n,
    decreases n - i,
{
    if i < n {
        assert(!(t[i] == 0x2F && t[i + 1] == 0x2E && t[i + 2] == 0x2F));
        marker_found(t, i + 1, n);
    }
}

proof fn no_marker_found(t: Seq<u8>, i: int)
    requires
        0 <= i,
        forall|j: int|
            #![trigger t[j]]
            i <= j && j + 3 <= t.len() ==> !(t[j] == 0x2F && t[j + 1] == 0x2E && t[j + 2] == 0x2F),
    ensures
        first_marker(t, i) == -1,
    decreases t.len() - i,
{
    if i + 3 <= t.len() {
        assert(!(t[i] == 0x2F && t[i + 1] == 0x2E && t[i + 2] == 0x2F));
        no_marker_found(t, i + 1);
    }
}

// ---------------------------------------------------------------------------
// Numbers
// ---------------------------------------------------------------------------

/// A device number is 256 times its major number and its minor number.
pub proof fn device_numbers_have_two_parts(rdev: u64)
    ensures
        rdev_minor_of(rdev) < 256,
        rdev < 0x100_0000_0000 ==> rdev == rdev_major_of(rdev) * 256 + rdev_minor_of(rdev),
{
}

/// A regular file with more than one link has an identity, which is its own;
/// other entries have none.
pub proof fn linked_files_have_an_identity(e: EntryView)
    ensures
        link_identity(e) is Some <==> e.hard_link_info is Some && e.hard_link_info->0.nlink > 1
            && e.mode & 0o170000 == 0o100000,
        link_identity(e) is Some ==> link_identity(e) == e.hard_link_info,
{
}

/// An entry has what the metadata says, each in its place, and nothing else.
pub proof fn entry_is_what_was_found(m: FileMetadata, name: Seq<u8>)
    ensures
        ({
            let e = entry_for(m, name);
            &&& e.name == name && e.len == m.len && e.mode == m.mode
            &&& e.mtime == m.mtime && e.mtime_nsec == m.mtime_nsec
            &&& e.uid == m.uid && e.gid == m.gid && e.rdev == m.rdev
            &&& m.nlink <= 1 ==> e.hard_link_info is None
            &&& m.nlink > 1 ==> e.hard_link_info is Some && e.hard_link_info->0.dev == m.dev
                && e.hard_link_info->0.ino == m.ino && e.hard_link_info->0.nlink == m.nlink
            &&& e.link_target.len() == 0 && e.checksum.len() == 0 && e.flags == 0
            &&& e.user_name.len() == 0 && e.group_name.len() == 0 && e.hlink_source is None
        }),
{
}

// ---------------------------------------------------------------------------
// Listing lines
// ---------------------------------------------------------------------------

/// The first letter of a mode is that of the type; nine more say who may read,
/// write and execute.
pub proof fn mode_letters_are_bits(mode: u32)
    ensures
        ({
            let t = mode_text(mode);
            let kind = mode & 0o170000;
            &&& t.len() == 10
            &&& kind == 0o040000 ==> t[0] == 'd'
            &&& kind == 0o120000 ==> t[0] == 'l'
            &&& kind == 0o060000 ==> t[0] == 'b'
            &&& kind == 0o020000 ==> t[0] == 'c'
            &&& kind == 0o010000 ==> t[0] == 'p'
            &&& kind == 0o140000 ==> t[0] == 's'
            &&& kind == 0o100000 ==> t[0] == '-'
            &&& t[1] == (if mode & 0o400 != 0 { 'r' } else { '-' })
            &&& t[2] == (if mode & 0o200 != 0 { 'w' } else { '-' })
            &&& t[4] == (if mode & 0o040 != 0 { 'r' } else { '-' })
            &&& t[5] == (if mode & 0o020 != 0 { 'w' } else { '-' })
            &&& t[7] == (if mode & 0o004 != 0 { 'r' } else { '-' })
            &&& t[8] == (if mode & 0o002 != 0 { 'w' } else { '-' })
            &&& mode & 0o4000 == 0 ==> t[3] == (if mode & 0o100 != 0 { 'x' } else { '-' })
            &&& mode & 0o4000 != 0 ==> t[3] == (if mode & 0o100 != 0 { 's' } else { 'S' })
            &&& mode & 0o2000 == 0 ==> t[6] == (if mode & 0o010 != 0 { 'x' } else { '-' })
            &&& mode & 0o2000 != 0 ==> t[6] == (if mode & 0o010 != 0 { 's' } else { 'S' })
            &&& mode & 0o1000 == 0 ==> t[9] == (if mode & 0o001 != 0 { 'x' } else { '-' })
            &&& mode & 0o1000 != 0 ==> t[9] == (if mode & 0o001 != 0 { 't' } else { 'T' })
        }),
{
}

/// The first of January 1970 is day 0. Within a month days count up by one; the
/// first of a month follows the last day of the month before, and the first of
/// January the last of December.
pub proof fn days_count_up(d: CivilDate, leap: bool)
    requires
        i64::MIN < d.year < i64::MAX,
        1 <= d.month <= 12,
        1 <= d.day < u32::MAX,
        leap == (d.year % 4 == 0 && (d.year % 100 != 0 || d.year % 400 == 0)),
    ensures
        day_number(CivilDate { year: 1970, month: 1, day: 1 }) == 0,
        !is_date(CivilDate { day: 0, ..d }),
        !is_date(CivilDate { month: 0, ..d }),
        !is_date(CivilDate { month: (d.month + 12) as u32, ..d }),
        day_number(CivilDate { day: (d.day + 1) as u32, ..d }) == day_number(d) + 1,
        ({
            let last = if d.month == 2 {
                if leap { 29u32 } else { 28 }
            } else if d.month == 4 || d.month == 6 || d.month == 9 || d.month == 11 {
                30
            } else {
                31
            };
            let end = CivilDate { day: last, ..d };
            &&& is_date(d) <==> d.day <= last
            &&& d.month < 12 ==> day_number(
                CivilDate { month: (d.month + 1) as u32, day: 1, ..d },
            ) == day_number(end) + 1
            &&& d.month == 12 ==> day_number(
                CivilDate { year: (d.year + 1) as i64, month: 1, day: 1 },
            ) == day_number(end) + 1
        }),
{
    let y = d.year as int;
    assert(days_before_month(y, 1) == 0);
    assert(days_before_month(1970, 1) == 0);
    assert(days_before_year(1970) == 719162);
    if d.month < 12 {
        assert(days_before_month(y, d.month + 1) == days_before_month(y, d.month as int)
            + days_in_month(y, d.month as int));
    } else {
        months_of_a_year(y);
        year_has_its_days(y);
        assert(days_before_month(y + 1, 1) == 0);
    }
}

proof fn months_of_a_year(y: int)
    ensures
        days_before_month(y, 12) == 306 + days_in_month(y, 2),
{
    reveal_with_fuel(days_before_month, 13);
}

/// A time is shown by the date and the time of its day, each number with its
/// digits.
#[verifier::spinoff_prover]
#[verifier::rlimit(60)]
pub proof fn times_are_shown_by_date(mtime: i64, d: CivilDate, secs: int)
    requires
        is_date(d),
        0 <= secs < 86400,
        mtime == day_number(d) * 86400 + secs,
        0 <= d.year <= 9999,
    ensures
        ({
            let y = d.year as int;
            let h = secs / 3600;
            let m = secs / 60 % 60;
            let s = secs % 60;
            let c = |n: int| (48 + n) as char;
            mtime_text(mtime) == seq![
                c(y / 1000),
                c(y / 100 % 10),
                c(y / 10 % 10),
                c(y % 10),
                '/',
                c(d.month as int / 10),
                c(d.month as int % 10),
                '/',
                c(d.day as int / 10),
                c(d.day as int % 10),
                ' ',
                c(h / 10),
                c(h % 10),
                ':',
                c(m / 10),
                c(m % 10),
                ':',
                c(s / 10),
                c(s % 10),
            ]
        }),
{
    let n = day_number(d);
    parts_of_time(mtime as int, n, secs);
    assert(date_of_day(n) == d) by {
        assert(is_date(d) && day_number(d) == n);
        day_has_one_date(d, date_of_day(n));
    }
    four_digits_shown(d.year as int);
    two_digits_shown(d.month as int);
    two_digits_shown(d.day as int);
    two_digits_shown(secs / 3600);
    minutes_of_day(secs);
    two_digits_shown(secs / 60 % 60);
    two_digits_shown(secs % 60);
}

proof fn minutes_of_day(secs: int)
    requires
        0 <= secs < 86400,
    ensures
        secs % 3600 / 60 == secs / 60 % 60,
        0 <= secs / 3600 < 24,
{
}

proof fn parts_of_time(t: int, n: int, secs: int)
    requires
        t == n * 86400 + secs,
        0 <= secs < 86400,
    ensures
        t / 86400 == n,
        t % 86400 == secs,
{
}

proof fn two_digits_shown(n: int)
    requires
        0 <= n < 100,
    ensures
        two_digits(n) == seq![(48 + n / 10) as char, (48 + n % 10) as char],
{
    reveal_with_fuel(numeral, 3);
    assert(digit_char(0) == '0');
    assert(two_digits(n) =~= seq![(48 + n / 10) as char, (48 + n % 10) as char]);
}

proof fn four_digits_shown(n: int)
    requires
        0 <= n <= 9999,
    ensures
        year_text(n) == seq![
            (48 + n / 1000) as char,
            (48 + n / 100 % 10) as char,
            (48 + n / 10 % 10) as char,
            (48 + n % 10) as char,
        ],
{
    reveal_with_fuel(numeral, 5);
    assert(digit_char(0) == '0');
    assert(n / 10 / 10 == n / 100);
    assert(n / 100 / 10 == n / 1000);
    assert(year_text(n) =~= seq![
        (48 + n / 1000) as char,
        (48 + n / 100 % 10) as char,
        (48 + n / 10 % 10) as char,
        (48 + n % 10) as char,
    ]);
}

/// A listing line is the mode, the size to the right of twelve columns, the time
/// and the name, with spaces between.
pub proof fn listing_line_has_its_columns(mode: u32, len: i64, mtime: i64, name: Seq<char>)
    ensures
        ({
            let line = list_line(mode, len, mtime, name);
            let n = signed_decimal(len as int);
            let t = mtime_text(mtime);
            let w = if n.len() < 12 { 12int } else { n.len() as int };
            &&& line.len() == 10 + 1 + w + 1 + t.len() + 1 + name.len()
            &&& line.take(10) == mode_text(mode)
            &&& line[10] == ' '
            &&& forall|i: int| 11 <= i < 11 + w - n.len() ==> line[i] == ' '
            &&& line.subrange(11 + w - n.len(), 11 + w) == n
            &&& line[11 + w] == ' '
            &&& line.subrange(12 + w, 12 + w + t.len()) == t
            &&& line[12 + w + t.len()] == ' '
            &&& line.skip(13 + w + t.len()) == name
        }),
{
    let line = list_line(mode, len, mtime, name);
    let n = signed_decimal(len as int);
    let t = mtime_text(mtime);
    let w = if n.len() < 12 { 12int } else { n.len() as int };
    assert(line.take(10) =~= mode_text(mode));
    assert(line.subrange(11 + w - n.len(), 11 + w) =~= n);
    assert(line.subrange(12 + w, 12 + w + t.len()) =~= t);
    assert(line.skip(13 + w + t.len()) =~= name);
}

} // verus!
