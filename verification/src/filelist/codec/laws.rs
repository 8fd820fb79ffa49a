//! What stands in the records of a file list.

use vstd::prelude::*;

use vstd::utf8::encode_utf8;

use crate::filelist::attributes::{sent_attrs, xattr_skipped, AttrView, FoundAttr};
use crate::filelist::codec::{entry_bytes, entry_flags, received};
use crate::filelist::codec::fields::{common_prefix, flags_bytes, name_bytes, prefix_from};
use crate::filelist::codec::hlink::{
    hlink_bytes, link_action, linked_entry, resolved_action, resolved_seen, seen_after,
    HardLinkAction,
};
use crate::filelist::codec::options::FileListOptions;
use crate::filelist::codec::state::DeltaView;
use crate::filelist::entry::{EntryView, HardLinkInfo};
use crate::filelist::idlist::{id_list_bytes, id_lists_bytes, id_names, ids_bytes};
use crate::filelist::xmit::flag_if;
use crate::options::OptionsView;
use crate::protocol::handshake::NegotiatedProtocol;
use crate::protocol::varint::{
    int_bytes, varint30_bytes, varint_bytes, varlong30_bytes, varlong_bytes,
};

verus! {

// ---------------------------------------------------------------------------
// Flags and names
// ---------------------------------------------------------------------------

/// Each flag of a record says one thing: what is the same as in the record
/// before, what follows, or what the entry is.
pub proof fn flags_say_what_is_the_same(
    e: EntryView,
    st: DeltaView,
    o: FileListOptions,
    act: HardLinkAction,
)
    ensures
        ({
            let f = entry_flags(e, st, o, act);
            let n = common_prefix(st.prev_name, e.name);
            let kind = e.mode & 0o170000;
            let pv = o.protocol_version;
            let device = (o.preserve_devices && (kind == 0o060000 || kind == 0o020000)) || (
            o.preserve_specials && (kind == 0o010000 || kind == 0o140000) && pv < 31);
            &&& f & 0x1 != 0 <==> e.flags & 0x1 != 0
            &&& f & 0x2 != 0 <==> e.mode == st.prev_mode
            &&& f & 0x4 != 0 <==> device && pv < 28 && e.rdev == st.prev_rdev
            &&& f & 0x8 != 0 <==> o.preserve_uid && e.uid == st.prev_uid
            &&& f & 0x10 != 0 <==> o.preserve_gid && e.gid == st.prev_gid
            &&& f & 0x20 != 0 <==> n > 0
            &&& f & 0x40 != 0 <==> e.name.len() - n > 255
            &&& f & 0x80 != 0 <==> e.mtime == st.prev_mtime
            &&& f & 0x100 != 0 <==> device && pv >= 28 && (e.rdev / 256) % 0x1_0000_0000
                == st.prev_rdev_major
            &&& f & 0x200 != 0 <==> act != HardLinkAction::NotHardLinked
            &&& f & 0x400 != 0 <==> o.preserve_uid && e.uid != st.prev_uid && pv >= 30
                && e.user_name.len() > 0 && e.user_name != st.prev_user_name
            &&& f & 0x800 != 0 <==> o.preserve_gid && e.gid != st.prev_gid && pv >= 30
                && e.group_name.len() > 0 && e.group_name != st.prev_group_name
            &&& f & 0x1000 != 0 <==> act == HardLinkAction::FirstOccurrence
            &&& f & 0x2000 != 0 <==> pv >= 31 && e.mtime_nsec != 0
        }),
{
    let pv = o.protocol_version;
    let n = common_prefix(st.prev_name, e.name);
    let rdev = crate::filelist::codec::fields::sends_rdev(e.mode, o);
    let a = flag_if(e.flags & 0x1 != 0, 0x1);
    let b = flag_if(e.mode == st.prev_mode, 0x2);
    let c = flag_if(rdev && pv < 28 && e.rdev == st.prev_rdev, 0x4);
    let d = flag_if(o.preserve_uid && e.uid == st.prev_uid, 0x8);
    let g = flag_if(o.preserve_gid && e.gid == st.prev_gid, 0x10);
    let h = flag_if(n > 0, 0x20);
    let i = flag_if(e.name.len() - n > 255, 0x40);
    let j = flag_if(e.mtime == st.prev_mtime, 0x80);
    let k = flag_if(
        rdev && pv >= 28 && crate::filelist::entry::rdev_major_of(e.rdev) == st.prev_rdev_major,
        0x100,
    );
    let l = flag_if(act != HardLinkAction::NotHardLinked, 0x200);
    let m = flag_if(crate::filelist::codec::user_follows(e, st, o), 0x400);
    let p = flag_if(crate::filelist::codec::group_follows(e, st, o), 0x800);
    let q = flag_if(act == HardLinkAction::FirstOccurrence, 0x1000);
    let r = flag_if(pv >= 31 && e.mtime_nsec != 0, 0x2000);
    let f = a | b | c | d | g | h | i | j | k | l | m | p | q | r;
    assert(f == entry_flags(e, st, o, act));
    bits_are_apart(a, b, c, d, g, h, i, j, k, l, m, p, q, r);
}

proof fn bits_are_apart(
    a: u32,
    b: u32,
    c: u32,
    d: u32,
    g: u32,
    h: u32,
    i: u32,
    j: u32,
    k: u32,
    l: u32,
    m: u32,
    p: u32,
    q: u32,
    r: u32,
)
    by (bit_vector)
    requires
        a == 0 || a == 0x1,
        b == 0 || b == 0x2,
        c == 0 || c == 0x4,
        d == 0 || d == 0x8,
        g == 0 || g == 0x10,
        h == 0 || h == 0x20,
        i == 0 || i == 0x40,
        j == 0 || j == 0x80,
        k == 0 || k == 0x100,
        l == 0 || l == 0x200,
        m == 0 || m == 0x400,
        p == 0 || p == 0x800,
        q == 0 || q == 0x1000,
        r == 0 || r == 0x2000,
    ensures
        (a | b | c | d | g | h | i | j | k | l | m | p | q | r) & 0x1 == a,
        (a | b | c | d | g | h | i | j | k | l | m | p | q | r) & 0x2 == b,
        (a | b | c | d | g | h | i | j | k | l | m | p | q | r) & 0x4 == c,
        (a | b | c | d | g | h | i | j | k | l | m | p | q | r) & 0x8 == d,
        (a | b | c | d | g | h | i | j | k | l | m | p | q | r) & 0x10 == g,
        (a | b | c | d | g | h | i | j | k | l | m | p | q | r) & 0x20 == h,
        (a | b | c | d | g | h | i | j | k | l | m | p | q | r) & 0x40 == i,
        (a | b | c | d | g | h | i | j | k | l | m | p | q | r) & 0x80 == j,
        (a | b | c | d | g | h | i | j | k | l | m | p | q | r) & 0x100 == k,
        (a | b | c | d | g | h | i | j | k | l | m | p | q | r) & 0x200 == l,
        (a | b | c | d | g | h | i | j | k | l | m | p | q | r) & 0x400 == m,
        (a | b | c | d | g | h | i | j | k | l | m | p | q | r) & 0x800 == p,
        (a | b | c | d | g | h | i | j | k | l | m | p | q | r) & 0x1000 == q,
        (a | b | c | d | g | h | i | j | k | l | m | p | q | r) & 0x2000 == r,
{
}

/// The common start of two names is as long as they agree, up to 255 bytes.
pub proof fn common_start_is_the_longest(a: Seq<u8>, b: Seq<u8>)
    ensures
        ({
            let n = common_prefix(a, b);
            &&& 0 <= n <= 255 && n <= a.len() && n <= b.len()
            &&& forall|i: int| 0 <= i < n ==> a[i] == b[i]
            &&& n == 255 || n == a.len() || n == b.len() || a[n] != b[n]
        }),
{
    agree_from(a, b, 0);
}

proof fn agree_from(a: Seq<u8>, b: Seq<u8>, from: int)
    requires
        0 <= from <= 255,
        from <= a.len(),
        from <= b.len(),
    ensures
        ({
            let n = prefix_from(a, b, from);
            &&& from <= n <= 255 && n <= a.len() && n <= b.len()
            &&& forall|i: int| from <= i < n ==> a[i] == b[i]
            &&& n == 255 || n == a.len() || n == b.len() || a[n] != b[n]
        }),
    decreases 255 - from,
{
    if !(from >= 255 || from >= a.len() || from >= b.len() || a[from] != b[from]) {
        agree_from(a, b, from + 1);
    }
}

/// A name goes without what it shares with the one before: the length of that, if
/// there is any, the length of the rest, and the rest.
pub proof fn names_go_without_their_common_start(name: Seq<u8>, prev: Seq<u8>, version: u8)
    ensures
        ({
            let n = common_prefix(prev, name);
            let rest = name.len() - n;
            let b = name_bytes(name, prev, version);
            &&& n == 0 && rest <= 255 ==> b == seq![rest as u8] + name
            &&& n > 0 && rest <= 255 ==> b == seq![n as u8, rest as u8] + name.skip(n)
            &&& n == 0 && 255 < rest < 0x1_0000_0000 ==> b == varint30_bytes(rest as u32, version)
                + name
            &&& n > 0 && 255 < rest < 0x1_0000_0000 ==> b == seq![n as u8] + varint30_bytes(
                rest as u32,
                version,
            ) + name.skip(n)
        }),
{
    let n = common_prefix(prev, name);
    let rest = name.len() - n;
    common_start_is_the_longest(prev, name);
    assert(name.skip(0) =~= name);
    let e = Seq::<u8>::empty();
    if rest <= 255 {
        assert(e + seq![rest as u8] =~= seq![rest as u8]);
        assert(seq![n as u8] + seq![rest as u8] =~= seq![n as u8, rest as u8]);
    } else if rest < 0x1_0000_0000 {
        let v = varint30_bytes(rest as u32, version);
        assert(e + v =~= v);
        assert(crate::filelist::codec::fields::low32(rest as nat) == rest as u32);
    }
}

// ---------------------------------------------------------------------------
// Records
// ---------------------------------------------------------------------------

/// From protocol 30 on a record is the flags, the name, the size, and what is not
/// the same as before: time, fraction, mode, owner, group, device, link and
/// checksum, each where it is wanted.
pub proof fn record_has_its_fields_in_order(
    e: EntryView,
    st: DeltaView,
    o: FileListOptions,
    act: HardLinkAction,
)
    requires
        o.protocol_version >= 30,
        !(act is DuplicateOf),
        e.link_target.len() < 0x1_0000_0000,
        e.checksum.len() == o.checksum_len,
    ensures
        ({
            let pv = o.protocol_version;
            let none = Seq::<u8>::empty();
            let kind = e.mode & 0o170000;
            let device = (o.preserve_devices && (kind == 0o060000 || kind == 0o020000)) || (
            o.preserve_specials && (kind == 0o010000 || kind == 0o140000) && pv < 31);
            let named = |id: u32, name: Seq<u8>, prev: Seq<u8>|
                varint_bytes(id) + (if name.len() > 0 && name != prev {
                    seq![(name.len() % 0x100) as u8] + name
                } else {
                    none
                });
            entry_bytes(e, st, o, act) == flags_bytes(entry_flags(e, st, o, act), o) + name_bytes(
                e.name,
                st.prev_name,
                pv,
            ) + varlong30_bytes(e.len, 3, pv) + (if e.mtime == st.prev_mtime {
                none
            } else {
                varlong_bytes(e.mtime, 4)
            }) + (if pv >= 31 && e.mtime_nsec != 0 {
                varint_bytes(e.mtime_nsec)
            } else {
                none
            }) + (if e.mode == st.prev_mode {
                none
            } else {
                int_bytes(e.mode as i32)
            }) + (if o.preserve_uid && e.uid != st.prev_uid {
                named(e.uid, e.user_name, st.prev_user_name)
            } else {
                none
            }) + (if o.preserve_gid && e.gid != st.prev_gid {
                named(e.gid, e.group_name, st.prev_group_name)
            } else {
                none
            }) + (if device {
                (if (e.rdev / 256) % 0x1_0000_0000 == st.prev_rdev_major {
                    none
                } else {
                    varint30_bytes(((e.rdev / 256) % 0x1_0000_0000) as u32, pv)
                }) + varint_bytes((e.rdev % 256) as u32)
            } else {
                none
            }) + (if o.preserve_links && kind == 0o120000 {
                varint30_bytes(e.link_target.len() as u32, pv) + e.link_target
            } else {
                none
            }) + (if o.always_checksum && kind == 0o100000 {
                e.checksum
            } else {
                none
            })
        }),
{
    let pv = o.protocol_version;
    assert(crate::filelist::codec::fields::low32(e.link_target.len()) == e.link_target.len() as u32);
    let m = e.mode;
    assert(crate::protocol::varint::i32_of(m as nat) == m as i32) by {
        assert(m < 0x8000_0000u32 ==> m as i32 == m) by (bit_vector);
        assert(m >= 0x8000_0000u32 ==> m as i32 == m - 0x1_0000_0000) by (bit_vector);
    }
    assert(e.checksum.take(o.checksum_len as int) =~= e.checksum);
    let none = Seq::<u8>::empty();
    assert(hlink_bytes(act) =~= none);
    let named = |id: u32, name: Seq<u8>, prev: Seq<u8>|
        varint_bytes(id) + (if name.len() > 0 && name != prev {
            seq![(name.len() % 0x100) as u8] + name
        } else {
            none
        });
    let u = if o.preserve_uid && e.uid != st.prev_uid {
        named(e.uid, e.user_name, st.prev_user_name)
    } else {
        none
    };
    let g = if o.preserve_gid && e.gid != st.prev_gid {
        named(e.gid, e.group_name, st.prev_group_name)
    } else {
        none
    };
    assert(crate::filelist::codec::owners_bytes(e, st, o) == u + g);
    let sends = crate::filelist::codec::fields::sends_rdev(e.mode, o);
    let r = crate::filelist::codec::fields::rdev_bytes(
        sends,
        e.rdev,
        e.rdev == st.prev_rdev,
        crate::filelist::entry::rdev_major_of(e.rdev) == st.prev_rdev_major,
        pv,
    );
    let l = crate::filelist::codec::fields::link_bytes(
        crate::filelist::codec::fields::sends_link(e.mode, o),
        e.link_target,
        pv,
    );
    let c = crate::filelist::codec::fields::checksum_bytes(
        crate::filelist::codec::fields::sends_checksum(e.mode, o),
        e.checksum,
        o.checksum_len as nat,
    );
    regrouped(
        flags_bytes(entry_flags(e, st, o, act), o),
        name_bytes(e.name, st.prev_name, pv),
        varlong30_bytes(e.len, 3, pv),
        crate::filelist::codec::fields::mtime_bytes(e.mtime, e.mtime == st.prev_mtime, pv),
        crate::filelist::codec::fields::nsec_bytes(e.mtime_nsec, pv),
        crate::filelist::codec::fields::mode_bytes(e.mode, e.mode == st.prev_mode),
        u,
        g,
        r,
        l,
        c,
    );
}

proof fn regrouped(
    f: Seq<u8>,
    n: Seq<u8>,
    s: Seq<u8>,
    t: Seq<u8>,
    ns: Seq<u8>,
    m: Seq<u8>,
    u: Seq<u8>,
    g: Seq<u8>,
    r: Seq<u8>,
    l: Seq<u8>,
    c: Seq<u8>,
)
    ensures
        f + (n + (Seq::<u8>::empty() + ((s + (t + (ns + m))) + ((u + g) + (r + (l + c)))))) == f + n
            + s + t + ns + m + u + g + r + l + c,
{
    let tail = u + g + r + l + c;
    assert((u + g) + (r + (l + c)) =~= tail);
    let head = s + t + ns + m;
    assert(s + (t + (ns + m)) =~= head);
    assert(Seq::<u8>::empty() + (head + tail) =~= head + tail);
    assert(head + tail =~= head + u + g + r + l + c);
    assert(f + (n + (head + tail)) =~= (f + n) + (head + tail));
    assert((f + n) + head =~= f + n + s + t + ns + m);
    assert((f + n) + (head + tail) =~= ((f + n) + head) + tail);
    let x = f + n + s + t + ns + m;
    assert(x + tail =~= x + u + g + r + l + c);
}

/// What a record tells is what the entry was: name, size, time and mode always,
/// other things where they are wanted, and nothing where they are not.
pub proof fn records_tell_what_is_wanted(
    e: EntryView,
    enc: DeltaView,
    dec: DeltaView,
    o: FileListOptions,
    act: HardLinkAction,
)
    ensures
        ({
            let r = received(e, enc, dec, o, act);
            let kind = e.mode & 0o170000;
            let pv = o.protocol_version;
            &&& r.name == e.name && r.len == e.len && r.mtime == e.mtime && r.mode == e.mode
            &&& r.mtime_nsec == (if pv >= 31 { e.mtime_nsec } else { 0 })
            &&& r.hlink_source is None && r.hard_link_info is None
            &&& o.preserve_uid ==> r.uid == e.uid
            &&& o.preserve_gid ==> r.gid == e.gid
            &&& o.preserve_devices && (kind == 0o060000 || kind == 0o020000) ==> r.rdev == e.rdev
            &&& !o.preserve_devices && !o.preserve_specials ==> r.rdev == 0
            &&& kind == 0o100000 || kind == 0o040000 || kind == 0o120000 ==> r.rdev == 0
            &&& o.preserve_links && kind == 0o120000 ==> r.link_target == e.link_target
            &&& !o.preserve_links || kind != 0o120000 ==> r.link_target.len() == 0
            &&& o.always_checksum && kind == 0o100000 && e.checksum.len() == o.checksum_len
                ==> r.checksum == e.checksum
            &&& o.always_checksum && kind == 0o100000 && e.checksum.len() < o.checksum_len ==> {
                &&& r.checksum.len() == o.checksum_len
                &&& r.checksum.take(e.checksum.len() as int) == e.checksum
                &&& forall|i: int|
                    e.checksum.len() <= i < r.checksum.len() ==> r.checksum[i] == 0
            }
            &&& !o.always_checksum || (kind != 0o100000 && pv >= 28) ==> r.checksum.len() == 0
        }),
{
    assert(e.checksum.len() == o.checksum_len ==> e.checksum.take(o.checksum_len as int)
        =~= e.checksum);
    let r = received(e, enc, dec, o, act);
    if o.always_checksum && e.mode & 0o170000 == 0o100000 && e.checksum.len() < o.checksum_len {
        assert(r.checksum.take(e.checksum.len() as int) =~= e.checksum);
    }
}

/// Flags take a varint where that was agreed on. Else they take one byte; from
/// protocol 28 on two where the high byte says something or nothing is said at
/// all, and then the extension flag is set. No record begins with a zero.
pub proof fn flags_take_one_or_two_bytes(flags: u32, o: FileListOptions)
    requires
        flags < 0x1_0000,
    ensures
        ({
            let b = flags_bytes(flags, o);
            let wide = flags >= 0x100 || flags == 0;
            &&& o.xfer_flags_as_varint && flags != 0 ==> b == varint_bytes(flags)
            &&& o.xfer_flags_as_varint && flags == 0 ==> b == varint_bytes(0x4)
            &&& !o.xfer_flags_as_varint && o.protocol_version >= 28 && wide ==> b.len() == 2 && b[0]
                == ((flags | 0x4) % 0x100) && b[1] == flags / 0x100
            &&& !o.xfer_flags_as_varint && o.protocol_version >= 28 && !wide ==> b == seq![
                flags as u8,
            ]
            &&& !o.xfer_flags_as_varint && o.protocol_version < 28 && flags % 0x100 != 0 ==> b
                == seq![(flags % 0x100) as u8]
            &&& !o.xfer_flags_as_varint && o.protocol_version < 28 && flags % 0x100 == 0 ==> b
                == seq![0x1u8]
        }),
{
    assert((flags & 0xFF00 != 0) == (flags >= 0x100) && (flags & 0xFF) == flags % 0x100 && (flags
        | 0x4) < 0x1_0000 && (flags | 0x4) / 0x100 == flags / 0x100) by (bit_vector)
        requires
            flags < 0x1_0000,
    ;
    let w = (flags | 0x4) as nat;
    crate::protocol::laws::low_bytes_come_first(w);
}

// ---------------------------------------------------------------------------
// Hard links
// ---------------------------------------------------------------------------

/// The first name of a file is sent as such and remembered under its place; every
/// further one points back to it. A file with one name is not linked, and without
/// `-H` none is.
pub proof fn later_names_point_to_the_first(
    seen: Map<u128, i32>,
    a: HardLinkInfo,
    b: HardLinkInfo,
    index: i32,
    o: FileListOptions,
)
    ensures
        a.nlink <= 1 ==> link_action(seen, a) == HardLinkAction::NotHardLinked && seen_after(
            seen,
            a,
            index,
        ) == seen,
        a.nlink > 1 ==> link_action(Map::empty(), a) == HardLinkAction::FirstOccurrence,
        a.nlink > 1 && b.nlink > 1 && a.dev == b.dev && a.ino == b.ino && link_action(seen, a)
            == HardLinkAction::FirstOccurrence ==> link_action(seen_after(seen, a, index), b)
            == HardLinkAction::DuplicateOf(index),
        a.dev != b.dev || a.ino != b.ino ==> link_action(seen_after(seen, a, index), b)
            == link_action(seen, b),
        link_action(seen, a) is DuplicateOf ==> seen_after(seen, a, index) == seen,
        o.preserve_hard_links ==> resolved_action(o, Some(a), seen) == link_action(seen, a)
            && resolved_seen(o, Some(a), seen, index) == seen_after(seen, a, index),
        !o.preserve_hard_links ==> resolved_action(o, Some(a), seen)
            == HardLinkAction::NotHardLinked && resolved_seen(o, Some(a), seen, index) == seen,
        resolved_action(o, None, seen) == HardLinkAction::NotHardLinked,
{
    if crate::filelist::codec::hlink::link_key(a.dev, a.ino)
        == crate::filelist::codec::hlink::link_key(b.dev, b.ino) {
        crate::filelist::codec::hlink::link_key_is_unique(a.dev, a.ino, b.dev, b.ino);
    }
}

/// An entry that points back is the first one under another name, and knows of
/// which it is a link.
pub proof fn links_are_like_the_first(first: EntryView, name: Seq<u8>, flags: u32)
    ensures
        ({
            let e = linked_entry(first, name, flags);
            &&& e.name == name && e.flags == flags && e.hlink_source == Some(first.name)
            &&& e.len == first.len && e.mtime == first.mtime && e.mode == first.mode
            &&& e.uid == first.uid && e.gid == first.gid && e.rdev == first.rdev
            &&& e.checksum == first.checksum && e.link_target == first.link_target
        }),
{
}

// ---------------------------------------------------------------------------
// Owners and attributes
// ---------------------------------------------------------------------------

/// The first entry that gives a name for a number decides it; entries without a
/// name say nothing.
pub proof fn first_name_of_a_number_counts(es: Seq<EntryView>, e: EntryView, id: u32)
    ensures
        id_names(Seq::empty(), false) == Map::<u32, Seq<u8>>::empty(),
        id_names(Seq::empty(), true) == Map::<u32, Seq<u8>>::empty(),
        id_names(es, false).dom().contains(id) ==> id_names(es.push(e), false).dom().contains(id)
            && id_names(es.push(e), false)[id] == id_names(es, false)[id],
        id_names(es, true).dom().contains(id) ==> id_names(es.push(e), true).dom().contains(id)
            && id_names(es.push(e), true)[id] == id_names(es, true)[id],
        !id_names(es, false).dom().contains(e.uid) && e.user_name.len() > 0 ==> id_names(
            es.push(e),
            false,
        ) == id_names(es, false).insert(e.uid, e.user_name),
        !id_names(es, true).dom().contains(e.gid) && e.group_name.len() > 0 ==> id_names(
            es.push(e),
            true,
        ) == id_names(es, true).insert(e.gid, e.group_name),
        e.user_name.len() == 0 ==> id_names(es.push(e), false) == id_names(es, false),
        e.group_name.len() == 0 ==> id_names(es.push(e), true) == id_names(es, true),
{
    assert(es.push(e).drop_last() =~= es);
}

/// A list of owners goes by number, each with its name, and ends with a zero. It is
/// sent for users and groups apart, where they are preserved.
pub proof fn owners_go_by_number(
    names: Map<u32, Seq<u8>>,
    id: u32,
    o: FileListOptions,
    es: Seq<EntryView>,
)
    requires
        0 < id,
        id < u32::MAX,
        names.dom().contains(id) ==> names[id].len() <= 255,
    ensures
        ids_bytes(names, 1, o.protocol_version).len() == 0,
        names.dom().contains(id) ==> ids_bytes(names, (id + 1) as nat, o.protocol_version)
            == ids_bytes(names, id as nat, o.protocol_version) + (varint30_bytes(
            id,
            o.protocol_version,
        ) + (seq![names[id].len() as u8] + names[id])),
        !names.dom().contains(id) ==> ids_bytes(names, (id + 1) as nat, o.protocol_version)
            == ids_bytes(names, id as nat, o.protocol_version),
        !o.xmit_id0_names ==> id_list_bytes(names, o) == ids_bytes(
            names,
            0x1_0000_0000,
            o.protocol_version,
        ) + varint30_bytes(0, o.protocol_version),
        !o.preserve_uid && !o.preserve_gid ==> id_lists_bytes(es, o).len() == 0,
        o.preserve_uid && !o.preserve_gid ==> id_lists_bytes(es, o) == id_list_bytes(
            id_names(es, false),
            o,
        ),
        !o.preserve_uid && o.preserve_gid ==> id_lists_bytes(es, o) == id_list_bytes(
            id_names(es, true),
            o,
        ),
        o.preserve_uid && o.preserve_gid ==> id_lists_bytes(es, o) == id_list_bytes(
            id_names(es, false),
            o,
        ) + id_list_bytes(id_names(es, true), o),
{
    let e = Seq::<u8>::empty();
    let a = id_list_bytes(id_names(es, false), o);
    let b = id_list_bytes(id_names(es, true), o);
    assert(a + e =~= a);
    assert(e + b =~= b);
    let s = ids_bytes(names, id as nat, o.protocol_version);
    assert(s + e =~= s);
    let t = ids_bytes(names, 0x1_0000_0000, o.protocol_version) + varint30_bytes(
        0,
        o.protocol_version,
    );
    assert(t + e =~= t);
    if names.dom().contains(id) {
        assert(names[id].take(names[id].len() as int) =~= names[id]);
    }
}

/// Attributes of the system and those that stand for a file's own metadata stay
/// behind; others are sent with their value, the name with a zero byte behind it.
/// What cannot be read is left out.
pub proof fn own_attributes_stay_behind(found: Seq<FoundAttr>, a: FoundAttr, rest: Seq<u8>)
    ensures
        sent_attrs(Seq::empty()).len() == 0,
        xattr_skipped(encode_utf8("system."@) + rest),
        xattr_skipped(encode_utf8("user.rsync.%"@) + rest),
        a.value is None || xattr_skipped(a.name@) ==> sent_attrs(found.push(a)) == sent_attrs(
            found,
        ),
        a.value is Some && !xattr_skipped(a.name@) ==> sent_attrs(found.push(a)) == sent_attrs(
            found,
        ).push(AttrView { name: a.name@.push(0), value: a.value->0@ }),
{
    assert(found.push(a).drop_last() =~= found);
    let s = encode_utf8("system."@);
    let t = encode_utf8("user.rsync.%"@);
    assert((s + rest).take(s.len() as int) =~= s);
    assert((t + rest).take(t.len() as int) =~= t);
}

// ---------------------------------------------------------------------------
// Options
// ---------------------------------------------------------------------------

/// Records hold what the options ask for, in the protocol that was agreed on.
pub proof fn records_go_by_the_options(p: NegotiatedProtocol, o: OptionsView)
    ensures
        ({
            let f = FileListOptions::negotiated(p, o);
            &&& f.protocol_version == p.version
            &&& f.preserve_uid == o.archive.preserve_owner
            &&& f.preserve_gid == (o.archive.preserve_group || o.archive.preserve_owner)
            &&& f.preserve_devices == o.archive.preserve_devices
            &&& f.preserve_specials == o.archive.preserve_specials
            &&& f.preserve_links == o.archive.preserve_links
            &&& f.preserve_hard_links == o.tree.preserve_hard_links
            &&& f.always_checksum == o.behavior.checksum_mode
            &&& f.numeric_ids == o.tree.numeric_ids
        }),
{
}

} // verus!
