//! Fake-super metadata (`--fake-super`).
//!
//! Privileged metadata (uid, gid, mode, device numbers) is kept in the
//! `user.rsync.%stat` extended attribute in place of being applied. This lets
//! users without privileges preserve ownership and special permissions.

use vstd::prelude::*;
use vstd::utf8::{decode_utf8, encode_utf8, valid_utf8};

use crate::filelist::entry::same_bytes;
use crate::fs::metadata::FileMetadata;
use crate::text::{
    all_digits, char_is_space, decimal, find_char, found_at, from_chars, is_digit, is_space,
    numeral, numeral_chars, numeral_is_read_back, parse_numeral, position_of, push_chars,
    read_numeral, to_chars, trimmed_start, utf8_string, written_numeral_parses,
};

verus! {

/// What the attribute holds: mode, user, group and device number.
pub type Stat = (u32, u32, u32, u64);

// ---------------------------------------------------------------------------
// Words
// ---------------------------------------------------------------------------

/// How long the first word of a text is.
pub open spec fn word_len(s: Seq<char>) -> int
    decreases s.len(),
{
    if s.len() == 0 || is_space(s[0]) {
        0
    } else {
        1 + word_len(s.skip(1))
    }
}

/// The length of a word lies within the text.
pub proof fn word_len_bound(s: Seq<char>)
    ensures
        0 <= word_len(s) <= s.len(),
        s.len() > 0 && !is_space(s[0]) ==> word_len(s) > 0,
        trimmed_start(s).len() <= s.len(),
        trimmed_start(s).len() > 0 ==> !is_space(trimmed_start(s)[0]),
    decreases s.len(),
{
    if s.len() > 0 {
        word_len_bound(s.skip(1));
    }
}

/// The words of a text: what white space separates.
pub open spec fn words(s: Seq<char>) -> Seq<Seq<char>>
    decreases s.len(),
{
    proof {
        word_len_bound(s);
        word_len_bound(trimmed_start(s));
    }
    let t = trimmed_start(s);
    if t.len() == 0 {
        Seq::empty()
    } else {
        seq![t.take(word_len(t))] + words(t.skip(word_len(t)))
    }
}

proof fn word_ends(w: Seq<char>, rest: Seq<char>)
    requires
        forall|i: int| 0 <= i < w.len() ==> !is_space(#[trigger] w[i]),
        rest.len() > 0 ==> is_space(rest[0]),
    ensures
        word_len(w + rest) == w.len(),
    decreases w.len(),
{
    if w.len() > 0 {
        let t = w + rest;
        assert(t[0] == w[0]);
        assert(t.skip(1) =~= w.skip(1) + rest);
        assert forall|i: int| 0 <= i < w.skip(1).len() implies !is_space(
            #[trigger] w.skip(1)[i],
        ) by {
            assert(w.skip(1)[i] == w[i + 1]);
        }
        word_ends(w.skip(1), rest);
    } else {
        assert(w + rest =~= rest);
    }
}

/// A word and what follows it.
proof fn words_split(w: Seq<char>, rest: Seq<char>)
    requires
        w.len() > 0,
        forall|i: int| 0 <= i < w.len() ==> !is_space(#[trigger] w[i]),
        rest.len() > 0 ==> is_space(rest[0]),
    ensures
        words(w + rest) == seq![w] + words(rest),
{
    let s = w + rest;
    assert(s[0] == w[0]);
    assert(trimmed_start(s) == s);
    word_ends(w, rest);
    assert(s.take(w.len() as int) =~= w);
    assert(s.skip(w.len() as int) =~= rest);
}

/// White space before a text adds no word.
proof fn words_after_space(rest: Seq<char>)
    ensures
        words(seq![' '] + rest) == words(rest),
{
    let s = seq![' '] + rest;
    assert(s.skip(1) =~= rest);
    assert(trimmed_start(s) == trimmed_start(rest));
}

/// The words of a text.
fn split_words(s: &[char]) -> (r: Vec<Vec<char>>)
    ensures
        r.len() == words(s@).len(),
        forall|i: int| 0 <= i < r.len() ==> (#[trigger] r@[i])@ == words(s@)[i],
{
    let mut out: Vec<Vec<char>> = Vec::new();
    let mut i: usize = 0;
    let ghost all = words(s@);
    assert(s@.skip(0) =~= s@);
    loop
        invariant
            i <= s.len(),
            all == words(s@),
            out.len() + words(s@.skip(i as int)).len() == all.len(),
            forall|j: int| 0 <= j < out.len() ==> (#[trigger] out@[j])@ == all[j],
            forall|j: int|
                0 <= j < words(s@.skip(i as int)).len() ==> #[trigger] words(s@.skip(i as int))[j]
                    == all[j + out.len()],
        decreases s.len() - i,
    {
        if i == s.len() {
            assert(words(s@.skip(i as int)) =~= Seq::empty());
            return out;
        }
        let ghost t = s@.skip(i as int);
        if char_is_space(s[i]) {
            proof {
                assert(t[0] == s@[i as int]);
                assert(t.skip(1) =~= s@.skip(i + 1));
                assert(trimmed_start(t) == trimmed_start(t.skip(1)));
                assert(words(t) == words(t.skip(1)));
            }
            i = i + 1;
        } else {
            let start: usize = i;
            proof {
                assert(t[0] == s@[i as int]);
                word_len_bound(t);
            }
            while i < s.len() && !char_is_space(s[i])
                invariant
                    start <= i <= s.len(),
                    word_len(t) == i - start + word_len(s@.skip(i as int)),
                decreases s.len() - i,
            {
                let ghost u = s@.skip(i as int);
                proof {
                    assert(u[0] == s@[i as int]);
                    assert(u.skip(1) =~= s@.skip(i + 1));
                }
                i = i + 1;
            }
            proof {
                let u = s@.skip(i as int);
                if i < s.len() {
                    assert(u[0] == s@[i as int]);
                }
                assert(word_len(u) == 0);
            }
            let word = vstd::slice::slice_to_vec(vstd::slice::slice_subrange(s, start, i));
            proof {
                assert(word@ =~= t.take(word_len(t)));
                assert(t.skip(word_len(t)) =~= s@.skip(i as int));
                assert(words(t) == seq![word@] + words(s@.skip(i as int)));
                assert(words(t)[0] == word@);
                assert forall|j: int|
                    0 <= j < words(s@.skip(i as int)).len() implies #[trigger] words(
                    s@.skip(i as int),
                )[j] == all[j + out.len() + 1] by {
                    assert(words(t)[j + 1] == all[j + 1 + out.len()]);
                }
            }
            out.push(word);
        }
    }
}

// ---------------------------------------------------------------------------
// The attribute's value
// ---------------------------------------------------------------------------

/// Name of the extended attribute that holds the metadata.
pub open spec fn stat_attr() -> Seq<u8> {
    encode_utf8("user.rsync.%stat"@)
}

/// The two sides of the first colon.
pub open spec fn colon_pair(s: Seq<char>) -> Option<(Seq<char>, Seq<char>)> {
    let p = find_char(s, ':');
    if p < s.len() {
        Some((s.take(p), s.skip(p + 1)))
    } else {
        None
    }
}

/// A device number from its two parts.
pub open spec fn device(major: nat, minor: nat) -> u64 {
    ((major as u64) << 8) | (minor as u64)
}

/// The device number in the third word; there is none without it, nor without
/// a colon in it.
pub open spec fn device_in(w: Seq<Seq<char>>) -> Option<u64> {
    let pair = if w.len() > 2 {
        colon_pair(w[2])
    } else {
        None
    };
    match pair {
        None => Some(0u64),
        Some((a, b)) => match (
            parse_numeral(a, 10, 0xFFFF_FFFF_FFFF_FFFF),
            parse_numeral(b, 10, 0xFFFF_FFFF_FFFF_FFFF),
        ) {
            (Some(major), Some(minor)) => Some(device(major, minor)),
            _ => None,
        },
    }
}

/// The owners in the second word.
pub open spec fn owners_in(w: Seq<Seq<char>>) -> Option<(u32, u32)> {
    if w.len() < 2 {
        None
    } else {
        match colon_pair(w[1]) {
            None => None,
            Some((a, b)) => match (
                parse_numeral(a, 10, 0xFFFF_FFFF),
                parse_numeral(b, 10, 0xFFFF_FFFF),
            ) {
                (Some(uid), Some(gid)) => Some((uid as u32, gid as u32)),
                _ => None,
            },
        }
    }
}

/// The mode in the first word, in octal.
pub open spec fn mode_in(w: Seq<Seq<char>>) -> Option<u32> {
    if w.len() < 1 {
        None
    } else {
        match parse_numeral(w[0], 8, 0xFFFF_FFFF) {
            Some(m) => Some(m as u32),
            None => None,
        }
    }
}

/// The metadata that words denote.
pub open spec fn stat_in(w: Seq<Seq<char>>) -> Option<Stat> {
    match (mode_in(w), owners_in(w), device_in(w)) {
        (Some(mode), Some((uid, gid)), Some(rdev)) => Some((mode, uid, gid, rdev)),
        _ => None,
    }
}

/// The metadata that a value of the attribute denotes.
pub open spec fn stat_of(value: Seq<u8>) -> Option<Stat> {
    if valid_utf8(value) {
        stat_in(words(decode_utf8(value)))
    } else {
        None
    }
}

/// The text of a value: octal mode, owners, device number.
pub open spec fn stat_text(s: Stat) -> Seq<char> {
    numeral(s.0 as nat, 8) + (seq![' '] + (decimal(s.1 as nat) + seq![':'] + decimal(s.2 as nat) + (
    seq![' '] + (decimal((s.3 >> 8) as nat) + seq![':'] + decimal((s.3 & 0xFF) as nat)))))
}

/// The value of the attribute for metadata.
pub open spec fn stat_value(s: Stat) -> Seq<u8> {
    encode_utf8(stat_text(s))
}

proof fn digits_are_plain(s: Seq<char>, base: nat)
    requires
        base <= 10,
        all_digits(s, base),
    ensures
        forall|i: int| 0 <= i < s.len() ==> !is_space(#[trigger] s[i]) && s[i] != ':',
{
    assert forall|i: int| 0 <= i < s.len() implies !is_space(#[trigger] s[i]) && s[i] != ':' by {
        assert(is_digit(s[i], base));
    }
}

proof fn pair_found(a: Seq<char>, b: Seq<char>)
    requires
        forall|i: int| 0 <= i < a.len() ==> #[trigger] a[i] != ':',
    ensures
        colon_pair(a + seq![':'] + b) == Some((a, b)),
{
    let s = a + seq![':'] + b;
    assert forall|i: int| 0 <= i < a.len() implies s[i] != ':' by {
        assert(s[i] == a[i]);
    }
    found_at(s, ':', a.len() as int);
    assert(s.take(a.len() as int) =~= a);
    assert(s.skip(a.len() as int + 1) =~= b);
}

proof fn pair_is_word(a: Seq<char>, b: Seq<char>)
    requires
        all_digits(a, 10),
        all_digits(b, 10),
    ensures
        colon_pair(a + seq![':'] + b) == Some((a, b)),
        forall|i: int|
            0 <= i < (a + seq![':'] + b).len() ==> !is_space(#[trigger] (a + seq![':'] + b)[i]),
{
    digits_are_plain(a, 10);
    digits_are_plain(b, 10);
    pair_found(a, b);
    let s = a + seq![':'] + b;
    assert forall|i: int| 0 <= i < s.len() implies !is_space(#[trigger] s[i]) by {
        if i < a.len() {
            assert(s[i] == a[i]);
        } else if i == a.len() {
            assert(s[i] == ':');
        } else {
            assert(s[i] == b[i - a.len() - 1]);
        }
    }
}

/// What was stored in the attribute is read back from it.
pub proof fn stat_read_back(s: Stat)
    ensures
        stat_of(stat_value(s)) == Some(s),
{
    let major = s.3 >> 8;
    let minor = s.3 & 0xFF;
    let m = numeral(s.0 as nat, 8);
    let u = decimal(s.1 as nat);
    let g = decimal(s.2 as nat);
    let x = decimal(major as nat);
    let y = decimal(minor as nat);
    numeral_is_read_back(s.0 as nat, 8);
    numeral_is_read_back(s.1 as nat, 10);
    numeral_is_read_back(s.2 as nat, 10);
    numeral_is_read_back(major as nat, 10);
    numeral_is_read_back(minor as nat, 10);
    written_numeral_parses(s.0 as nat, 8, 0xFFFF_FFFF);
    written_numeral_parses(s.1 as nat, 10, 0xFFFF_FFFF);
    written_numeral_parses(s.2 as nat, 10, 0xFFFF_FFFF);
    written_numeral_parses(major as nat, 10, 0xFFFF_FFFF_FFFF_FFFF);
    written_numeral_parses(minor as nat, 10, 0xFFFF_FFFF_FFFF_FFFF);
    digits_are_plain(m, 8);
    pair_is_word(u, g);
    pair_is_word(x, y);
    let ug = u + seq![':'] + g;
    let xy = x + seq![':'] + y;
    let sp = seq![' '];
    let none = Seq::<char>::empty();
    assert(xy + none =~= xy);
    words_split(xy, none);
    assert(words(none) =~= Seq::<Seq<char>>::empty());
    words_after_space(xy);
    words_split(ug, sp + xy);
    words_after_space(ug + (sp + xy));
    words_split(m, sp + (ug + (sp + xy)));
    let t = stat_text(s);
    let w = words(t);
    assert(w =~= seq![m, ug, xy]);
    vstd::utf8::encode_utf8_valid_utf8(t);
    vstd::utf8::encode_utf8_decode_utf8(t);
    let r = s.3;
    assert(((r >> 8) << 8) | (r & 0xFF) == r) by (bit_vector);
    assert(w[0] == m && w[1] == ug && w[2] == xy);
    assert(mode_in(w) == Some(s.0));
    assert(owners_in(w) == Some((s.1, s.2)));
    assert(device_in(w) == Some(s.3));
    assert(stat_in(w) == Some(s));
}

/// Reads and writes the attribute's value.
pub struct FakeSuperFs;

impl FakeSuperFs {
    /// Parse the attribute's value into (mode, uid, gid, rdev).
    pub fn parse_stat(value: &[u8]) -> (r: Option<(u32, u32, u32, u64)>)
        ensures
            r == stat_of(value@),
    {
        let text = match utf8_string(value) {
            Some(t) => t,
            None => {
                return None;
            },
        };
        let chars = to_chars(text.as_str());
        let parts = split_words(chars.as_slice());
        if parts.len() < 2 {
            return None;
        }
        let ghost w = words(chars@);
        assert(parts@[0]@ == w[0] && parts@[1]@ == w[1]);
        let mode: u64 = match read_numeral(parts[0].as_slice(), 8, 0xFFFF_FFFF) {
            Some(n) => n,
            None => {
                return None;
            },
        };
        let (uid, gid): (u64, u64) = match parse_pair(parts[1].as_slice(), 0xFFFF_FFFF) {
            Some(p) => p,
            None => {
                return None;
            },
        };
        let mut rdev: u64 = 0;
        if parts.len() > 2 {
            assert(parts@[2]@ == w[2]);
            if position_of(parts[2].as_slice(), ':') < parts[2].len() {
                match parse_pair(parts[2].as_slice(), 0xFFFF_FFFF_FFFF_FFFF) {
                    Some((major, minor)) => {
                        rdev = (major << 8) | minor;
                    },
                    None => {
                        return None;
                    },
                }
            }
        }
        Some((mode as u32, uid as u32, gid as u32, rdev))
    }

    /// Format metadata into the attribute's value.
    pub fn format_stat(mode: u32, uid: u32, gid: u32, rdev: u64) -> (r: Vec<u8>)
        ensures
            r@ == stat_value((mode, uid, gid, rdev)),
    {
        let mut out = numeral_chars(mode as u64, 8);
        out.push(' ');
        push_chars(&mut out, numeral_chars(uid as u64, 10).as_slice());
        out.push(':');
        push_chars(&mut out, numeral_chars(gid as u64, 10).as_slice());
        out.push(' ');
        push_chars(&mut out, numeral_chars(rdev >> 8, 10).as_slice());
        out.push(':');
        push_chars(&mut out, numeral_chars(rdev & 0xFF, 10).as_slice());
        assert(out@ =~= stat_text((mode, uid, gid, rdev)));
        let text = from_chars(out.as_slice());
        vstd::slice::slice_to_vec(text.as_str().as_bytes())
    }

    /// Overlay stored metadata onto real metadata when the attribute is present.
    pub fn overlay_metadata(meta: FileMetadata, value: Option<&[u8]>) -> (r: FileMetadata)
        ensures
            r == (match value {
                Some(v) => match stat_of(v@) {
                    Some((mode, uid, gid, rdev)) => FileMetadata { mode, uid, gid, rdev, ..meta },
                    None => meta,
                },
                None => meta,
            }),
    {
        match value {
            Some(v) => match Self::parse_stat(v) {
                Some((mode, uid, gid, rdev)) => FileMetadata { mode, uid, gid, rdev, ..meta },
                None => meta,
            },
            None => meta,
        }
    }

    /// The stored metadata, or the real metadata where nothing is stored yet.
    pub fn current_stat(meta: &FileMetadata, value: Option<&[u8]>) -> (r: (u32, u32, u32, u64))
        ensures
            r == (match value {
                Some(v) => match stat_of(v@) {
                    Some(s) => s,
                    None => (meta.mode, meta.uid, meta.gid, meta.rdev),
                },
                None => (meta.mode, meta.uid, meta.gid, meta.rdev),
            }),
    {
        let actual: (u32, u32, u32, u64) = (meta.mode, meta.uid, meta.gid, meta.rdev);
        match value {
            Some(v) => match Self::parse_stat(v) {
                Some(s) => s,
                None => actual,
            },
            None => actual,
        }
    }

    /// The value and the real permissions of a new directory: whatever mode is
    /// meant is stored, and the directory itself is made accessible.
    pub fn new_directory(mode: u32) -> (r: (Vec<u8>, u32))
        ensures
            r.0@ == stat_value((mode | 0o040000, 0, 0, 0)),
            r.1 == 0o755,
    {
        (Self::format_stat(mode | 0o040000, 0, 0, 0), 0o755)
    }

    /// The value and the real permissions after a change of mode: owner and
    /// device number stay, and what is really set has no special bits and no
    /// write permission for others.
    pub fn with_permissions(current: (u32, u32, u32, u64), mode: u32) -> (r: (Vec<u8>, u32))
        ensures
            r.0@ == stat_value((mode, current.1, current.2, current.3)),
            r.1 == (mode & 0o7777) & 0o755,
    {
        (Self::format_stat(mode, current.1, current.2, current.3), (mode & 0o7777) & 0o755)
    }

    /// The value after a change of owner: mode and device number stay.
    pub fn with_owner(current: (u32, u32, u32, u64), uid: u32, gid: u32) -> (r: Vec<u8>)
        ensures
            r@ == stat_value((current.0, uid, gid, current.3)),
    {
        Self::format_stat(current.0, uid, gid, current.3)
    }

    /// Whether an attribute is shown to callers: all are but the one that holds
    /// the metadata.
    pub fn shows_attr(name: &[u8]) -> (r: bool)
        ensures
            r == (name@ != stat_attr()),
    {
        !same_bytes(name, "user.rsync.%stat".as_bytes())
    }
}

/// Reads two numbers with a colon between them.
fn parse_pair(s: &[char], max: u64) -> (r: Option<(u64, u64)>)
    ensures
        r == (match colon_pair(s@) {
            None => None,
            Some((a, b)) => match (
                parse_numeral(a, 10, max as nat),
                parse_numeral(b, 10, max as nat),
            ) {
                (Some(x), Some(y)) => Some((x as u64, y as u64)),
                _ => None,
            },
        }),
{
    let p: usize = position_of(s, ':');
    if p >= s.len() {
        return None;
    }
    let a = vstd::slice::slice_subrange(s, 0, p);
    let b = vstd::slice::slice_subrange(s, p + 1, s.len());
    proof {
        assert(a@ =~= s@.take(p as int));
        assert(b@ =~= s@.skip(p + 1));
    }
    match (read_numeral(a, 10, max), read_numeral(b, 10, max)) {
        (Some(x), Some(y)) => Some((x, y)),
        _ => None,
    }
}

} // verus!
