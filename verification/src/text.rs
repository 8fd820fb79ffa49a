//! Text as sequences of characters: numerals, searching and splitting.
//!
//! Strings are read into character vectors, worked on there, and turned back
//! into strings at the end. Every function here is total.

use vstd::prelude::*;
use vstd::string::*;

verus! {

/// Appends one character, by `String::push`: the string afterwards is the
/// string before with the character behind it.
#[verifier::external_body]
pub(crate) fn push_char(s: &mut String, c: char)
    ensures
        final(s)@ == old(s)@.push(c),
{
    s.push(c);
}

/// The characters of a string, in order.
pub fn to_chars(s: &str) -> (r: Vec<char>)
    ensures
        r@ == s@,
{
    let mut out: Vec<char> = Vec::new();
    for c in it: s.chars()
        invariant
            it.seq() == s@,
            out@ == s@.take(it.index() as int),
    {
        out.push(c);
    }
    assert(s@.take(s@.len() as int) =~= s@);
    out
}

/// The string that holds the given characters.
pub fn from_chars(v: &[char]) -> (r: String)
    ensures
        r@ == v@,
{
    let mut out = String::new();
    let mut i: usize = 0;
    while i < v.len()
        invariant
            i <= v.len(),
            out@ == v@.take(i as int),
        decreases v.len() - i,
    {
        push_char(&mut out, v[i]);
        i += 1;
    }
    assert(v@.take(v@.len() as int) =~= v@);
    out
}

/// Whether two character slices are equal.
pub fn same_chars(a: &[char], b: &[char]) -> (r: bool)
    ensures
        r == (a@ == b@),
{
    if a.len() != b.len() {
        return false;
    }
    let mut i: usize = 0;
    while i < a.len()
        invariant
            i <= a.len(),
            a.len() == b.len(),
            forall|j: int| 0 <= j < i ==> a@[j] == b@[j],
        decreases a.len() - i,
    {
        if a[i] != b[i] {
            return false;
        }
        i += 1;
    }
    assert(a@ =~= b@);
    true
}

// ---------------------------------------------------------------------------
// Numerals
// ---------------------------------------------------------------------------

/// The character of a digit below ten.
pub open spec fn digit_char(d: nat) -> char {
    (48 + d) as char
}

/// The numeral of `n` to the given base, without leading zeros.
pub open spec fn numeral(n: nat, base: nat) -> Seq<char>
    decreases n,
{
    if base < 2 || n < base {
        seq![digit_char(n)]
    } else {
        proof {
            assert(n / base < n) by (nonlinear_arith)
                requires
                    n >= base,
                    base >= 2,
            ;
        }
        numeral(n / base, base).push(digit_char(n % base))
    }
}

/// The character of a hexadecimal digit.
pub open spec fn hex_char(d: nat) -> char {
    if d < 10 {
        digit_char(d)
    } else {
        (87 + d) as char
    }
}

/// The hexadecimal numeral of `n`, without leading zeros.
pub open spec fn hex_numeral(n: nat) -> Seq<char>
    decreases n,
{
    if n < 16 {
        seq![hex_char(n)]
    } else {
        hex_numeral(n / 16).push(hex_char(n % 16))
    }
}

/// Each byte as two hexadecimal digits.
pub open spec fn hex_text(bytes: Seq<u8>) -> Seq<char>
    decreases bytes.len(),
{
    if bytes.len() == 0 {
        Seq::empty()
    } else {
        hex_text(bytes.drop_last()).push(hex_char((bytes.last() / 16) as nat)).push(
            hex_char((bytes.last() % 16) as nat),
        )
    }
}

/// The decimal numeral of a natural number.
pub open spec fn decimal(n: nat) -> Seq<char> {
    numeral(n, 10)
}

/// The decimal numeral of an integer, with a leading minus sign below zero.
pub open spec fn signed_decimal(n: int) -> Seq<char> {
    if n < 0 {
        seq!['-'] + decimal((-n) as nat)
    } else {
        decimal(n as nat)
    }
}

/// Whether a character is a digit of the base.
pub open spec fn is_digit(c: char, base: nat) -> bool {
    48 <= c as u32 && (c as u32) < 48 + base
}

/// Whether every character is a digit of the base.
pub open spec fn all_digits(s: Seq<char>, base: nat) -> bool {
    forall|i: int| 0 <= i < s.len() ==> is_digit(#[trigger] s[i], base)
}

/// The number that a run of digits stands for.
pub open spec fn digits_value(s: Seq<char>, base: nat) -> nat
    decreases s.len(),
{
    if s.len() == 0 {
        0
    } else {
        digits_value(s.drop_last(), base) * base + (s.last() as u32 - 48) as nat
    }
}

/// The digits of a numeral that may carry a leading plus sign.
pub open spec fn unsigned_body(s: Seq<char>) -> Seq<char> {
    if s.len() > 0 && s[0] == '+' {
        s.skip(1)
    } else {
        s
    }
}

/// The number that a numeral stands for, where it is one and is at most `max`.
pub open spec fn parse_numeral(s: Seq<char>, base: nat, max: nat) -> Option<nat> {
    let body = unsigned_body(s);
    if body.len() > 0 && all_digits(body, base) && digits_value(body, base) <= max {
        Some(digits_value(body, base))
    } else {
        None
    }
}

/// The integer that a signed decimal numeral stands for, where it is one and
/// lies between `-max - 1` and `max`.
pub open spec fn parse_signed(s: Seq<char>, max: nat) -> Option<int> {
    if s.len() > 0 && s[0] == '-' {
        let body = s.skip(1);
        if body.len() > 0 && all_digits(body, 10) && digits_value(body, 10) <= max + 1 {
            Some(-(digits_value(body, 10) as int))
        } else {
            None
        }
    } else {
        match parse_numeral(s, 10, max) {
            Some(n) => Some(n as int),
            None => None,
        }
    }
}

/// A numeral is a non-empty run of digits that stands for the number it was made of.
pub proof fn numeral_is_read_back(n: nat, base: nat)
    requires
        2 <= base <= 10,
    ensures
        numeral(n, base).len() > 0,
        all_digits(numeral(n, base), base),
        digits_value(numeral(n, base), base) == n,
    decreases n,
{
    if n < base {
        let s = numeral(n, base);
        assert(s =~= seq![digit_char(n)]);
        assert(s.drop_last() =~= Seq::<char>::empty());
        assert(digits_value(s.drop_last(), base) == 0);
        assert(s.last() as u32 == 48 + n);
        assert(0 * base == 0) by (nonlinear_arith);
    } else {
        assert(n / base < n) by (nonlinear_arith)
            requires
                n >= base,
                base >= 2,
        ;
        numeral_is_read_back(n / base, base);
        let head = numeral(n / base, base);
        let s = numeral(n, base);
        assert(s == head.push(digit_char(n % base)));
        assert(s.drop_last() =~= head);
        assert(n % base < base) by (nonlinear_arith)
            requires
                base >= 2,
        ;
        assert(s.last() as u32 == 48 + n % base);
        assert((n / base) * base + n % base == n) by (nonlinear_arith)
            requires
                base >= 2,
        ;
    }
}

/// Reading a numeral that was written gives the number back.
pub proof fn written_numeral_parses(n: nat, base: nat, max: nat)
    requires
        2 <= base <= 10,
        n <= max,
    ensures
        parse_numeral(numeral(n, base), base, max) == Some(n),
{
    numeral_is_read_back(n, base);
    let s = numeral(n, base);
    assert(is_digit(s[0], base));
    assert(s[0] != '+');
}

/// Reading a signed decimal that was written gives the integer back.
pub proof fn written_signed_parses(n: int, max: nat)
    requires
        -max - 1 <= n <= max,
    ensures
        parse_signed(signed_decimal(n), max) == Some(n),
{
    let s = signed_decimal(n);
    if n < 0 {
        numeral_is_read_back((-n) as nat, 10);
        assert(s.skip(1) =~= decimal((-n) as nat));
    } else {
        written_numeral_parses(n as nat, 10, max);
        numeral_is_read_back(n as nat, 10);
        assert(is_digit(s[0], 10));
    }
}

/// The numeral of `n` to a base from two to ten.
pub fn numeral_chars(n: u64, base: u64) -> (r: Vec<char>)
    requires
        2 <= base <= 10,
    ensures
        r@ == numeral(n as nat, base as nat),
    decreases n,
{
    if n < base {
        let mut out: Vec<char> = Vec::new();
        out.push((48u8 + n as u8) as char);
        assert(out@ =~= numeral(n as nat, base as nat));
        out
    } else {
        assert(n / base < n) by (nonlinear_arith)
            requires
                n >= base,
                base >= 2,
        ;
        assert(n % base < base) by (nonlinear_arith)
            requires
                base >= 2,
        ;
        let mut out = numeral_chars(n / base, base);
        out.push((48u8 + (n % base) as u8) as char);
        out
    }
}

fn hex_digit(d: u8) -> (r: char)
    requires
        d < 16,
    ensures
        r == hex_char(d as nat),
{
    if d < 10 {
        (48 + d) as char
    } else {
        (87 + d) as char
    }
}

/// The hexadecimal numeral of a number.
pub fn hex_chars(n: u32) -> (r: Vec<char>)
    ensures
        r@ == hex_numeral(n as nat),
    decreases n,
{
    if n < 16 {
        let mut out: Vec<char> = Vec::new();
        out.push(hex_digit(n as u8));
        assert(out@ =~= hex_numeral(n as nat));
        out
    } else {
        let mut out = hex_chars(n / 16);
        out.push(hex_digit((n % 16) as u8));
        out
    }
}

/// Each byte as two hexadecimal digits.
pub fn hex_string(bytes: &[u8]) -> (r: String)
    ensures
        r@ == hex_text(bytes@),
{
    let mut out: Vec<char> = Vec::new();
    let mut i: usize = 0;
    assert(out@ =~= hex_text(bytes@.take(0)));
    while i < bytes.len()
        invariant
            i <= bytes.len(),
            out@ == hex_text(bytes@.take(i as int)),
        decreases bytes.len() - i,
    {
        proof {
            assert(bytes@.take(i + 1).drop_last() =~= bytes@.take(i as int));
            assert(bytes@.take(i + 1).last() == bytes@[i as int]);
        }
        out.push(hex_digit(bytes[i] / 16));
        out.push(hex_digit(bytes[i] % 16));
        i = i + 1;
    }
    assert(bytes@.take(i as int) =~= bytes@);
    from_chars(out.as_slice())
}

/// The decimal numeral of a number.
pub fn decimal_string(n: u64) -> (r: String)
    ensures
        r@ == decimal(n as nat),
{
    let v = numeral_chars(n, 10);
    from_chars(&v)
}

/// The decimal numeral of a signed number.
pub fn signed_decimal_string(n: i64) -> (r: String)
    ensures
        r@ == signed_decimal(n as int),
{
    if n < 0 {
        let m: u64 = if n == i64::MIN {
            9223372036854775808u64
        } else {
            (-n) as u64
        };
        let v = numeral_chars(m, 10);
        let mut out: Vec<char> = Vec::new();
        out.push('-');
        let mut v2 = v;
        out.append(&mut v2);
        assert(out@ =~= signed_decimal(n as int));
        from_chars(&out)
    } else {
        decimal_string(n as u64)
    }
}

/// Reads a run of digits, as long as the number stays at most `max`.
fn digits_number(s: &[char], base: u64, max: u64) -> (r: Option<u64>)
    requires
        2 <= base <= 10,
        max <= 0xFFFF_FFFF_FFFF_FFFF,
    ensures
        r == (if all_digits(s@, base as nat) && digits_value(s@, base as nat) <= max {
            Some(digits_value(s@, base as nat) as u64)
        } else {
            None
        }),
{
    let mut acc: u64 = 0;
    let mut i: usize = 0;
    while i < s.len()
        invariant
            i <= s.len(),
            2 <= base <= 10,
            all_digits(s@.take(i as int), base as nat),
            acc == digits_value(s@.take(i as int), base as nat),
            acc <= max,
        decreases s.len() - i,
    {
        let c = s[i];
        let u: u32 = c as u32;
        proof {
            assert(s@.take(i + 1).drop_last() =~= s@.take(i as int));
            assert(s@.take(i + 1).last() == c);
        }
        if u < 48 || (u - 48) as u64 >= base {
            assert(!is_digit(s@[i as int], base as nat));
            return None;
        }
        let d: u64 = (u - 48) as u64;
        assert(acc as u128 * base as u128 <= 0xFFFF_FFFF_FFFF_FFFF * 10) by (nonlinear_arith)
            requires
                acc <= 0xFFFF_FFFF_FFFF_FFFF,
                base <= 10,
        ;
        let wide: u128 = acc as u128 * base as u128 + d as u128;
        if wide > max as u128 {
            proof {
                prefix_value_is_smaller(s@, i + 1, base as nat);
            }
            return None;
        }
        acc = wide as u64;
        i += 1;
    }
    assert(s@.take(s@.len() as int) =~= s@);
    Some(acc)
}

/// A prefix of a run of digits stands for no more than the whole run.
proof fn prefix_value_is_smaller(s: Seq<char>, n: int, base: nat)
    requires
        0 <= n <= s.len(),
        2 <= base <= 10,
    ensures
        all_digits(s, base) ==> digits_value(s.take(n), base) <= digits_value(s, base),
    decreases s.len(),
{
    if n < s.len() && all_digits(s, base) {
        let t = s.drop_last();
        assert(all_digits(t, base)) by {
            assert forall|i: int| 0 <= i < t.len() implies is_digit(#[trigger] t[i], base) by {
                assert(t[i] == s[i]);
            }
        }
        prefix_value_is_smaller(t, n, base);
        assert(t.take(n) =~= s.take(n));
        assert(is_digit(s[s.len() - 1], base));
        assert(digits_value(t, base) <= digits_value(t, base) * base) by (nonlinear_arith)
            requires
                base >= 1,
        ;
    } else if n == s.len() {
        assert(s.take(n) =~= s);
    }
}

/// Reads an unsigned numeral to a base from two to ten.
pub fn read_numeral(s: &[char], base: u64, max: u64) -> (r: Option<u64>)
    requires
        2 <= base <= 10,
    ensures
        r == (match parse_numeral(s@, base as nat, max as nat) {
            Some(n) => Some(n as u64),
            None => None::<u64>,
        }),
{
    if s.len() > 0 && s[0] == '+' {
        let body = vstd::slice::slice_subrange(s, 1, s.len());
        assert(body@ =~= s@.skip(1));
        if body.len() == 0 {
            None
        } else {
            digits_number(body, base, max)
        }
    } else if s.len() == 0 {
        None
    } else {
        digits_number(s, base, max)
    }
}

/// Reads a signed 32-bit decimal numeral.
pub fn read_i32(s: &[char]) -> (r: Option<i32>)
    ensures
        r == (match parse_signed(s@, 0x7FFF_FFFF) {
            Some(n) => Some(n as i32),
            None => None::<i32>,
        }),
{
    if s.len() > 0 && s[0] == '-' {
        let body = vstd::slice::slice_subrange(s, 1, s.len());
        assert(body@ =~= s@.skip(1));
        if body.len() == 0 {
            return None;
        }
        match digits_number(body, 10, 0x8000_0000) {
            Some(n) => {
                let m: i64 = n as i64;
                Some((0 - m) as i32)
            },
            None => None,
        }
    } else {
        match read_numeral(s, 10, 0x7FFF_FFFF) {
            Some(n) => Some(n as i32),
            None => None,
        }
    }
}

// ---------------------------------------------------------------------------
// Padding and joining
// ---------------------------------------------------------------------------

/// A text with `fill` in front of it up to a width.
pub open spec fn pad_left(s: Seq<char>, width: nat, fill: char) -> Seq<char> {
    if s.len() < width {
        Seq::new((width - s.len()) as nat, |i: int| fill) + s
    } else {
        s
    }
}

/// Puts `fill` in front of a text up to a width.
pub fn pad_left_chars(s: &[char], width: usize, fill: char) -> (r: Vec<char>)
    ensures
        r@ == pad_left(s@, width as nat, fill),
{
    let mut out: Vec<char> = Vec::new();
    if s.len() < width {
        let n: usize = width - s.len();
        let mut i: usize = 0;
        while i < n
            invariant
                i <= n,
                out@ == Seq::new(i as nat, |j: int| fill),
            decreases n - i,
        {
            out.push(fill);
            i += 1;
            assert(out@ =~= Seq::new(i as nat, |j: int| fill));
        }
    }
    let ghost before = out@;
    push_chars(&mut out, s);
    assert(out@ =~= pad_left(s@, width as nat, fill));
    out
}

/// Appends characters.
pub fn push_chars(out: &mut Vec<char>, s: &[char])
    ensures
        final(out)@ == old(out)@ + s@,
{
    out.extend_from_slice(s);
    assert(out@ =~= old(out)@ + s@);
}

/// Appends the characters of a string.
pub fn push_text(out: &mut Vec<char>, s: &str)
    ensures
        final(out)@ == old(out)@ + s@,
{
    let c = to_chars(s);
    push_chars(out, c.as_slice());
}

// ---------------------------------------------------------------------------
// Searching
// ---------------------------------------------------------------------------

/// Whether a text starts with another.
pub open spec fn starts_with(s: Seq<char>, prefix: Seq<char>) -> bool {
    prefix.len() <= s.len() && s.take(prefix.len() as int) == prefix
}

/// The position of the first occurrence of a character, or the length.
pub open spec fn find_char(s: Seq<char>, c: char) -> int
    decreases s.len(),
{
    if s.len() == 0 {
        0
    } else if s[0] == c {
        0
    } else {
        1 + find_char(s.skip(1), c)
    }
}

/// What the search for a character finds: its first position, or none.
pub proof fn find_char_is_first(s: Seq<char>, c: char)
    ensures
        0 <= find_char(s, c) <= s.len(),
        forall|i: int| 0 <= i < find_char(s, c) ==> s[i] != c,
        find_char(s, c) < s.len() ==> s[find_char(s, c)] == c,
    decreases s.len(),
{
    if s.len() > 0 && s[0] != c {
        let t = s.skip(1);
        find_char_is_first(t, c);
        assert forall|i: int| 0 <= i < find_char(s, c) implies s[i] != c by {
            if i > 0 {
                assert(s[i] == t[i - 1]);
            }
        }
    }
}

/// A position with the character and none before it is where it is found.
pub proof fn found_at(s: Seq<char>, c: char, n: int)
    requires
        0 <= n <= s.len(),
        forall|i: int| 0 <= i < n ==> s[i] != c,
        n < s.len() ==> s[n] == c,
    ensures
        find_char(s, c) == n,
{
    find_char_is_first(s, c);
    let m = find_char(s, c);
    if m < n {
        assert(s[m] != c);
    } else if m > n {
        assert(s[n] != c);
    }
}

/// Whether a text starts with another.
pub fn has_prefix(s: &[char], prefix: &str) -> (r: bool)
    ensures
        r == starts_with(s@, prefix@),
        r ==> prefix@.len() <= s.len(),
{
    let p = to_chars(prefix);
    if p.len() > s.len() {
        return false;
    }
    let head = vstd::slice::slice_subrange(s, 0, p.len());
    assert(head@ =~= s@.take(p@.len() as int));
    same_chars(head, p.as_slice())
}

/// What follows a prefix of the given text.
pub fn after_prefix<'a>(s: &'a [char], prefix: &str) -> (r: &'a [char])
    requires
        prefix@.len() <= s.len(),
    ensures
        r@ == s@.skip(prefix@.len() as int),
{
    let p = to_chars(prefix);
    let rest = vstd::slice::slice_subrange(s, p.len(), s.len());
    assert(rest@ =~= s@.skip(p@.len() as int));
    rest
}

/// Whether characters are those of a string.
pub fn chars_are(s: &[char], text: &str) -> (r: bool)
    ensures
        r == (s@ == text@),
{
    let p = to_chars(text);
    same_chars(s, p.as_slice())
}

/// The position of the first occurrence of a character, or the length.
pub fn position_of(s: &[char], c: char) -> (r: usize)
    ensures
        r == find_char(s@, c),
        r <= s.len(),
{
    let mut i: usize = 0;
    while i < s.len() && s[i] != c
        invariant
            i <= s.len(),
            forall|j: int| 0 <= j < i ==> s@[j] != c,
        decreases s.len() - i,
    {
        i += 1;
    }
    proof {
        found_at(s@, c, i as int);
    }
    i
}

// ---------------------------------------------------------------------------
// Text and bytes
// ---------------------------------------------------------------------------

/// What stands in place of bytes that are not UTF-8.
pub uninterp spec fn lossy_replacement(bytes: Seq<u8>) -> Seq<char>;

/// The text that stands for bytes: the text that they encode where they are
/// UTF-8.
pub open spec fn lossy_text(bytes: Seq<u8>) -> Seq<char> {
    if vstd::utf8::valid_utf8(bytes) {
        vstd::utf8::decode_utf8(bytes)
    } else {
        lossy_replacement(bytes)
    }
}

/// Decodes bytes by `String::from_utf8_lossy`. Bytes that are UTF-8 come out
/// as the text they encode. In other bytes, what is not UTF-8 is replaced by
/// replacement characters; that text is named and not described further.
#[verifier::external_body]
pub(crate) fn lossy_string(bytes: &[u8]) -> (r: String)
    ensures
        r@ == (if vstd::utf8::valid_utf8(bytes@) {
            vstd::utf8::decode_utf8(bytes@)
        } else {
            lossy_replacement(bytes@)
        }),
{
    String::from_utf8_lossy(bytes).into_owned()
}

/// Decodes bytes by `String::from_utf8`, which succeeds where they are UTF-8
/// and gives the text that they encode.
#[verifier::external_body]
pub(crate) fn utf8_string(bytes: &[u8]) -> (r: Option<String>)
    ensures
        match r {
            Some(s) => vstd::utf8::valid_utf8(bytes@) && s@ == vstd::utf8::decode_utf8(bytes@),
            None => !vstd::utf8::valid_utf8(bytes@),
        },
{
    String::from_utf8(bytes.to_vec()).ok()
}

// ---------------------------------------------------------------------------
// White space
// ---------------------------------------------------------------------------

/// A character with the Unicode property `White_Space`.
pub open spec fn is_space(c: char) -> bool {
    let n = c as u32;
    9 <= n <= 13 || n == 0x20 || n == 0x85 || n == 0xA0 || n == 0x1680 || 0x2000 <= n <= 0x200A || n
        == 0x2028 || n == 0x2029 || n == 0x202F || n == 0x205F || n == 0x3000
}

/// Whether a character is white space.
pub fn char_is_space(c: char) -> (r: bool)
    ensures
        r == is_space(c),
{
    let n: u32 = c as u32;
    (9 <= n && n <= 13) || n == 0x20 || n == 0x85 || n == 0xA0 || n == 0x1680 || (0x2000 <= n && n
        <= 0x200A) || n == 0x2028 || n == 0x2029 || n == 0x202F || n == 0x205F || n == 0x3000
}

/// A text without the white space at its start.
pub open spec fn trimmed_start(s: Seq<char>) -> Seq<char>
    decreases s.len(),
{
    if s.len() > 0 && is_space(s[0]) {
        trimmed_start(s.skip(1))
    } else {
        s
    }
}

/// A text without the white space at its end.
pub open spec fn trimmed_end(s: Seq<char>) -> Seq<char>
    decreases s.len(),
{
    if s.len() > 0 && is_space(s.last()) {
        trimmed_end(s.drop_last())
    } else {
        s
    }
}

/// A text without the white space at its ends.
pub open spec fn trimmed(s: Seq<char>) -> Seq<char> {
    trimmed_end(trimmed_start(s))
}

/// A text without the white space at its ends.
pub fn trim<'a>(s: &'a [char]) -> (r: &'a [char])
    ensures
        r@ == trimmed(s@),
{
    let mut lo: usize = 0;
    assert(s@.skip(0) =~= s@);
    while lo < s.len() && char_is_space(s[lo])
        invariant
            lo <= s.len(),
            trimmed_start(s@) == trimmed_start(s@.skip(lo as int)),
        decreases s.len() - lo,
    {
        assert(s@.skip(lo as int).skip(1) =~= s@.skip(lo + 1));
        lo = lo + 1;
    }
    let mut hi: usize = s.len();
    let ghost t = s@.skip(lo as int);
    assert(s@.subrange(lo as int, hi as int) =~= t);
    while lo < hi && char_is_space(s[hi - 1])
        invariant
            lo <= hi <= s.len(),
            trimmed_end(t) == trimmed_end(s@.subrange(lo as int, hi as int)),
        decreases hi - lo,
    {
        assert(s@.subrange(lo as int, hi as int).drop_last() =~= s@.subrange(
            lo as int,
            hi - 1,
        ));
        hi = hi - 1;
    }
    vstd::slice::slice_subrange(s, lo, hi)
}

/// Where a line ends.
pub open spec fn line_end(s: Seq<char>, i: int) -> int
    decreases s.len() - i,
{
    if i >= s.len() || s[i] == '\n' {
        i
    } else {
        line_end(s, i + 1)
    }
}

/// A line ends behind its start.
pub proof fn line_end_bound(s: Seq<char>, i: int)
    requires
        i <= s.len(),
    ensures
        i <= line_end(s, i) <= s.len(),
    decreases s.len() - i,
{
    if i < s.len() {
        line_end_bound(s, i + 1);
    }
}

} // verus!
