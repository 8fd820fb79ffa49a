//! What metadata says on other file systems.

use vstd::prelude::*;

use crate::fs::fake_super::{device, stat_text};
use crate::fs::windows::{attr_mode, unix_time};
use crate::text::{decimal, numeral};

verus! {

/// Modes made of attributes: a reparse point is a link that everybody may use, a
/// directory can be searched, and what is read-only cannot be written.
pub proof fn attributes_make_modes(attrs: u32, is_dir: bool)
    ensures
        ({
            let m = attr_mode(attrs, is_dir);
            let readonly = attrs & 0x1 != 0;
            &&& attrs & 0x400 != 0 ==> m == 0o120777
            &&& attrs & 0x400 == 0 && is_dir && readonly ==> m == 0o040555
            &&& attrs & 0x400 == 0 && is_dir && !readonly ==> m == 0o040755
            &&& attrs & 0x400 == 0 && !is_dir && readonly ==> m == 0o100444
            &&& attrs & 0x400 == 0 && !is_dir && !readonly ==> m == 0o100644
        }),
{
    assert(0o120000u32 | 0o777 == 0o120777 && 0o040000u32 | 0o555 == 0o040555 && 0o040000u32 | 0o755
        == 0o040755 && 0o100000u32 | 0o444 == 0o100444 && 0o100000u32 | 0o644 == 0o100644)
        by (bit_vector);
}

/// Times count tenths of microseconds from 1601; the first of January 1970 is
/// second 0.
pub proof fn times_count_from_1601(secs: int, tenths: int)
    requires
        0 <= secs < 0x1_0000_0000,
        0 <= tenths < 10_000_000,
    ensures
        unix_time(((11_644_473_600 + secs) * 10_000_000 + tenths) as u64) == (
            secs as i64,
            (tenths * 100) as u32,
        ),
{
    let ft = (11_644_473_600 + secs) * 10_000_000 + tenths;
    assert(ft / 10_000_000 == 11_644_473_600 + secs);
    assert(ft % 10_000_000 == tenths);
}

/// Metadata kept beside a file is its mode in octal, owner and group, and the two
/// parts of the device number.
pub proof fn kept_metadata_is_text(mode: u32, uid: u32, gid: u32, major: u32, minor: u8)
    ensures
        stat_text((mode, uid, gid, device(major as nat, minor as nat))) == numeral(mode as nat, 8)
            + seq![' '] + decimal(uid as nat) + seq![':'] + decimal(gid as nat) + seq![' ']
            + decimal(major as nat) + seq![':'] + decimal(minor as nat),
{
    let d = device(major as nat, minor as nat);
    let a = major as u64;
    let b = minor as u64;
    assert(((a << 8) | b) >> 8 == a && ((a << 8) | b) & 0xFF == b) by (bit_vector)
        requires
            a < 0x1_0000_0000,
            b < 0x100,
    ;
    assert(d == (a << 8) | b);
    assert(stat_text((mode, uid, gid, d)) =~= numeral(mode as nat, 8) + seq![' '] + decimal(
        uid as nat,
    ) + seq![':'] + decimal(gid as nat) + seq![' '] + decimal(major as nat) + seq![':'] + decimal(
        minor as nat,
    ));
}

} // verus!
