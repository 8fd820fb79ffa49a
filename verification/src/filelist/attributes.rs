//! Extended attributes and access lists of entries.

use vstd::prelude::*;
use vstd::utf8::encode_utf8;

use crate::filelist::entry::{copy_bytes, file_type, same_bytes, FileEntry, S_IFDIR, WIRE_S_IFLNK};
use crate::order::{
    bytes_are_ordered, bytes_in_order, bytes_le, inserted, is_ordered, sorted_by, sorting_keeps,
    sorting_puts_in_order,
};

verus! {

// ---------------------------------------------------------------------------
// Extended attributes
// ---------------------------------------------------------------------------

/// An extended attribute that a file was found to have.
#[derive(Debug)]
pub struct FoundAttr {
    pub name: Vec<u8>,
    /// The value, where it could be read.
    pub value: Option<Vec<u8>>,
}

/// An extended attribute in wire form: its name ends with a zero byte.
#[derive(Debug)]
pub struct XattrEntry {
    pub name: Vec<u8>,
    pub value: Vec<u8>,
}

/// The view of an [`XattrEntry`].
#[verifier::ext_equal]
pub struct AttrView {
    pub name: Seq<u8>,
    pub value: Seq<u8>,
}

impl View for XattrEntry {
    type V = AttrView;

    open spec fn view(&self) -> AttrView {
        AttrView { name: self.name@, value: self.value@ }
    }
}

/// The views of attributes.
pub open spec fn attr_views(s: Seq<XattrEntry>) -> Seq<AttrView> {
    Seq::new(s.len(), |i: int| s[i]@)
}

/// Some bytes start with others.
pub open spec fn has_start(s: Seq<u8>, start: Seq<u8>) -> bool {
    start.len() <= s.len() && s.take(start.len() as int) == start
}

/// Attributes that are not sent: those of the system, which hold the access
/// lists among others, and those that hold metadata of this program.
pub open spec fn xattr_skipped(name: Seq<u8>) -> bool {
    has_start(name, encode_utf8("system."@)) || has_start(name, encode_utf8("user.rsync.%"@))
}

/// The attributes that are sent, in the order in which they were found.
pub open spec fn sent_attrs(found: Seq<FoundAttr>) -> Seq<AttrView>
    decreases found.len(),
{
    if found.len() == 0 {
        Seq::empty()
    } else {
        let others = sent_attrs(found.drop_last());
        let a = found.last();
        match a.value {
            Some(v) => if xattr_skipped(a.name@) {
                others
            } else {
                others.push(AttrView { name: a.name@.push(0), value: v@ })
            },
            None => others,
        }
    }
}

/// Attributes in the order of their names.
pub open spec fn attrs_by_name() -> spec_fn(AttrView, AttrView) -> bool {
    |a: AttrView, b: AttrView| bytes_le(a.name, b.name)
}

/// The attributes that are sent, by name.
pub open spec fn wire_attrs(found: Seq<FoundAttr>) -> Seq<AttrView> {
    sorted_by(sent_attrs(found), attrs_by_name())
}

fn starts_with_bytes(s: &[u8], start: &[u8]) -> (r: bool)
    ensures
        r == has_start(s@, start@),
{
    if s.len() < start.len() {
        return false;
    }
    let head = vstd::slice::slice_subrange(s, 0, start.len());
    assert(head@ =~= s@.take(start.len() as int));
    same_bytes(head, start)
}

/// Puts an attribute in its place among attributes that are sorted.
fn insert_attr(v: &mut Vec<XattrEntry>, e: XattrEntry)
    ensures
        attr_views(final(v)@) == inserted(attr_views(old(v)@), e@, attrs_by_name()),
{
    let ghost s = attr_views(v@);
    let ghost le = attrs_by_name();
    let mut k: usize = v.len();
    assert(s.take(k as int) =~= s);
    assert(inserted(s, e@, le) =~= inserted(s.take(k as int), e@, le) + s.skip(k as int));
    while k > 0 && !bytes_in_order(v[k - 1].name.as_slice(), e.name.as_slice())
        invariant
            k <= v.len(),
            s == attr_views(v@),
            le == attrs_by_name(),
            inserted(s, e@, le) == inserted(s.take(k as int), e@, le) + s.skip(k as int),
        decreases k,
    {
        proof {
            let t = s.take(k as int);
            assert(t.last() == v@[k - 1]@);
            assert(t.drop_last() =~= s.take(k - 1));
            assert(inserted(t, e@, le) + s.skip(k as int) =~= inserted(s.take(k - 1), e@, le)
                + s.skip(k - 1));
        }
        k = k - 1;
    }
    proof {
        let t = s.take(k as int);
        if k > 0 {
            assert(t.last() == v@[k - 1]@);
        }
        assert(inserted(t, e@, le) == t.push(e@));
        assert(s.insert(k as int, e@) =~= t.push(e@) + s.skip(k as int));
    }
    let ghost x = e@;
    v.insert(k, e);
    assert(attr_views(v@) =~= s.insert(k as int, x));
}

/// Enricher that selects extended attributes.
#[derive(Debug, Clone, Copy, PartialEq, Eq, Structural)]
pub struct XattrEnricher;

impl XattrEnricher {
    /// Check if an xattr name should be skipped.
    pub fn should_skip(name: &[u8]) -> (r: bool)
        ensures
            r == xattr_skipped(name@),
    {
        starts_with_bytes(name, "system.".as_bytes()) || starts_with_bytes(
            name,
            "user.rsync.%".as_bytes(),
        )
    }

    /// The attribute in wire form.
    pub fn wire_entry(name: &[u8], value: Vec<u8>) -> (r: XattrEntry)
        ensures
            r@ == (AttrView { name: name@.push(0), value: value@ }),
    {
        let mut wire_name = copy_bytes(name);
        wire_name.push(0);
        XattrEntry { name: wire_name, value }
    }

    /// The attributes of an entry that are sent, sorted by name. A symbolic
    /// link has none; `found` is nothing where attributes could not be listed.
    pub fn collect(entry: &FileEntry, found: Option<Vec<FoundAttr>>) -> (r: Option<
        Vec<XattrEntry>,
    >)
        ensures
            ({
                let sent = match found {
                    Some(f) => if file_type(entry@.mode) == WIRE_S_IFLNK {
                        Seq::empty()
                    } else {
                        wire_attrs(f@)
                    },
                    None => Seq::empty(),
                };
                match r {
                    Some(v) => sent.len() > 0 && attr_views(v@) == sent,
                    None => sent.len() == 0,
                }
            }),
    {
        if entry.is_symlink() {
            return None;
        }
        let found = match found {
            Some(f) => f,
            None => {
                return None;
            },
        };
        let ghost all = found@;
        let mut out: Vec<XattrEntry> = Vec::new();
        let mut i: usize = 0;
        assert(all.take(0) =~= Seq::empty());
        assert(attr_views(out@) =~= Seq::empty());
        while i < found.len()
            invariant
                i <= found.len(),
                all == found@,
                attr_views(out@) == wire_attrs(all.take(i as int)),
            decreases found.len() - i,
        {
            let a = &found[i];
            proof {
                assert(all.take(i + 1).drop_last() =~= all.take(i as int));
                assert(all.take(i + 1).last() == *a);
            }
            let ghost had = sent_attrs(all.take(i as int));
            match &a.value {
                Some(v) => if !Self::should_skip(a.name.as_slice()) {
                    let e = Self::wire_entry(a.name.as_slice(), copy_bytes(v.as_slice()));
                    assert(had.push(e@).drop_last() =~= had);
                    insert_attr(&mut out, e);
                },
                None => {},
            }
            i = i + 1;
        }
        assert(all.take(i as int) =~= all);
        assert(attr_views(out@).len() == out.len());
        if out.len() == 0 {
            None
        } else {
            Some(out)
        }
    }
}

/// Attributes are sent in the order of their names, each as often as it was
/// found and none that is held back.
pub proof fn attributes_go_by_name(found: Seq<FoundAttr>)
    ensures
        is_ordered(wire_attrs(found), attrs_by_name()),
        wire_attrs(found).to_multiset() == sent_attrs(found).to_multiset(),
        forall|i: int|
            0 <= i < sent_attrs(found).len() ==> {
                let n = (#[trigger] sent_attrs(found)[i]).name;
                n.len() > 0 && n.last() == 0 && !xattr_skipped(n.drop_last())
            },
    decreases found.len(),
{
    bytes_are_ordered();
    sorting_puts_in_order(sent_attrs(found), attrs_by_name());
    sorting_keeps(sent_attrs(found), attrs_by_name());
    if found.len() > 0 {
        attributes_go_by_name(found.drop_last());
        let a = found.last();
        assert(a.name@.push(0).drop_last() =~= a.name@);
        let others = sent_attrs(found.drop_last());
        assert forall|i: int| 0 <= i < sent_attrs(found).len() implies {
            let n = (#[trigger] sent_attrs(found)[i]).name;
            n.len() > 0 && n.last() == 0 && !xattr_skipped(n.drop_last())
        } by {
            if i < others.len() {
                assert(sent_attrs(found)[i] == others[i]);
            }
        }
    }
}

// ---------------------------------------------------------------------------
// Access lists
// ---------------------------------------------------------------------------

/// The access lists of a file.
#[derive(Debug)]
pub struct PosixAcl<A> {
    /// Who may do what with the file.
    pub access: A,
    /// What new files in a directory start with.
    pub default: Option<A>,
}

/// Enricher that selects access lists.
#[derive(Debug, Clone, Copy, PartialEq, Eq, Structural)]
pub struct AclEnricher;

impl AclEnricher {
    /// The attribute that holds the access list of an entry. A symbolic link
    /// has none.
    pub fn access_attr(entry: &FileEntry) -> (r: Option<Vec<u8>>)
        ensures
            match r {
                Some(n) => file_type(entry@.mode) != WIRE_S_IFLNK && n@ == encode_utf8(
                    "system.posix_acl_access"@,
                ),
                None => file_type(entry@.mode) == WIRE_S_IFLNK,
            },
    {
        if entry.is_symlink() {
            None
        } else {
            Some(copy_bytes("system.posix_acl_access".as_bytes()))
        }
    }

    /// The attribute that holds the list that new files start with. Only a
    /// directory has one.
    pub fn default_attr(entry: &FileEntry) -> (r: Option<Vec<u8>>)
        ensures
            match r {
                Some(n) => file_type(entry@.mode) == S_IFDIR && n@ == encode_utf8(
                    "system.posix_acl_default"@,
                ),
                None => file_type(entry@.mode) != S_IFDIR,
            },
    {
        if entry.is_dir() {
            Some(copy_bytes("system.posix_acl_default".as_bytes()))
        } else {
            None
        }
    }

    /// The access lists of an entry, from the lists that could be read. Without
    /// an access list it has none.
    pub fn collect<A>(entry: &FileEntry, access: Option<A>, default: Option<A>) -> (r: Option<
        PosixAcl<A>,
    >)
        ensures
            r == (match access {
                Some(access) => if file_type(entry@.mode) == WIRE_S_IFLNK {
                    None
                } else {
                    Some(
                        PosixAcl {
                            access,
                            default: if file_type(entry@.mode) == S_IFDIR {
                                default
                            } else {
                                None
                            },
                        },
                    )
                },
                None => None,
            }),
    {
        if entry.is_symlink() {
            return None;
        }
        let is_dir = entry.is_dir();
        match access {
            Some(access) => Some(
                PosixAcl {
                    access,
                    default: if is_dir {
                        default
                    } else {
                        None
                    },
                },
            ),
            None => None,
        }
    }
}

} // verus!
