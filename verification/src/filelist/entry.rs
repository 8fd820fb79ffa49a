//! File list entry representation.
//!
//! [`FileEntry`] holds all metadata for a single file in an rsync transfer.
//! The codec layer handles wire format differences between protocol versions.

use vstd::prelude::*;
use vstd::string::*;

use crate::text::{
    decimal, from_chars, lossy_string, lossy_text, numeral_chars, pad_left, pad_left_chars,
    push_chars, push_text, signed_decimal, signed_decimal_string, to_chars,
};

verus! {

// ---------------------------------------------------------------------------
// Wire mode constants
// ---------------------------------------------------------------------------

/// File type bitmask (POSIX S_IFMT).
pub const S_IFMT: u32 = 0o170000;

/// Regular file.
pub const S_IFREG: u32 = 0o100000;

/// Directory.
pub const S_IFDIR: u32 = 0o040000;

/// Symlink. Identical on all Unix platforms and on the wire.
pub const S_IFLNK: u32 = 0o120000;

/// Symlink, as written on the wire.
pub const WIRE_S_IFLNK: u32 = 0o120000;

/// Block device.
pub const S_IFBLK: u32 = 0o060000;

/// Character device.
pub const S_IFCHR: u32 = 0o020000;

/// FIFO.
pub const S_IFIFO: u32 = 0o010000;

/// Socket.
pub const S_IFSOCK: u32 = 0o140000;

/// The file type bits of a mode.
pub open spec fn file_type(mode: u32) -> u32 {
    mode & S_IFMT
}

// ---------------------------------------------------------------------------
// Entries
// ---------------------------------------------------------------------------

/// Hard-link identity from the source filesystem.
#[derive(Debug, Clone, Copy, PartialEq, Eq, Structural)]
pub struct HardLinkInfo {
    pub dev: u64,
    pub ino: u64,
    pub nlink: u64,
}

/// The hard-link identity of an entry: that of a regular file with more than
/// one link.
pub open spec fn link_identity(e: EntryView) -> Option<HardLinkInfo> {
    match e.hard_link_info {
        Some(info) => if file_type(e.mode) == S_IFREG && info.nlink > 1 {
            Some(info)
        } else {
            None
        },
        None => None,
    }
}

/// Metadata for a single file in an rsync file list.
#[derive(Debug, PartialEq, Eq)]
pub struct FileEntry {
    /// Full relative path (dirname + basename), stored as bytes for
    /// wire compatibility (rsync paths are not guaranteed UTF-8).
    pub name: Vec<u8>,
    /// File size in bytes.
    pub len: i64,
    /// Modification time (Unix timestamp, seconds).
    pub mtime: i64,
    /// Modification time nanoseconds (proto >= 31, 0 otherwise).
    pub mtime_nsec: u32,
    /// Unix file mode (type + permissions), in wire format.
    pub mode: u32,
    /// Owner user ID (0 if not preserved).
    pub uid: u32,
    /// Owner group ID (0 if not preserved).
    pub gid: u32,
    /// Device number (major << 8 | minor) for device/special files.
    pub rdev: u64,
    /// Symlink target path (empty if not a symlink).
    pub link_target: Vec<u8>,
    /// File-level checksum (when `--checksum` is used), empty otherwise.
    pub checksum: Vec<u8>,
    /// Flags from the XMIT encoding (used during transfer, not persisted).
    pub flags: u32,
    /// Owner username (proto >= 30, when name follows uid).
    pub user_name: Vec<u8>,
    /// Group name (proto >= 30, when name follows gid).
    pub group_name: Vec<u8>,
    /// For hardlink duplicates: name of the first occurrence to hardlink from.
    /// `None` for first occurrences and non-hardlinked files.
    pub hlink_source: Option<Vec<u8>>,
    /// Hard-link identity from the source filesystem (dev, ino, nlink).
    pub hard_link_info: Option<HardLinkInfo>,
}

/// The view of a [`FileEntry`].
#[verifier::ext_equal]
pub struct EntryView {
    pub name: Seq<u8>,
    pub len: i64,
    pub mtime: i64,
    pub mtime_nsec: u32,
    pub mode: u32,
    pub uid: u32,
    pub gid: u32,
    pub rdev: u64,
    pub link_target: Seq<u8>,
    pub checksum: Seq<u8>,
    pub flags: u32,
    pub user_name: Seq<u8>,
    pub group_name: Seq<u8>,
    pub hlink_source: Option<Seq<u8>>,
    pub hard_link_info: Option<HardLinkInfo>,
}

/// The view of an optional byte string.
pub open spec fn opt_bytes(o: Option<Vec<u8>>) -> Option<Seq<u8>> {
    match o {
        Some(v) => Some(v@),
        None => None,
    }
}

impl View for FileEntry {
    type V = EntryView;

    open spec fn view(&self) -> EntryView {
        EntryView {
            name: self.name@,
            len: self.len,
            mtime: self.mtime,
            mtime_nsec: self.mtime_nsec,
            mode: self.mode,
            uid: self.uid,
            gid: self.gid,
            rdev: self.rdev,
            link_target: self.link_target@,
            checksum: self.checksum@,
            flags: self.flags,
            user_name: self.user_name@,
            group_name: self.group_name@,
            hlink_source: opt_bytes(self.hlink_source),
            hard_link_info: self.hard_link_info,
        }
    }
}

/// The views of a run of entries.
pub open spec fn entry_views(s: Seq<FileEntry>) -> Seq<EntryView> {
    Seq::new(s.len(), |i: int| s[i]@)
}

/// The entry with a name and nothing else.
pub open spec fn empty_entry(name: Seq<u8>) -> EntryView {
    EntryView {
        name,
        len: 0,
        mtime: 0,
        mtime_nsec: 0,
        mode: 0,
        uid: 0,
        gid: 0,
        rdev: 0,
        link_target: Seq::empty(),
        checksum: Seq::empty(),
        flags: 0,
        user_name: Seq::empty(),
        group_name: Seq::empty(),
        hlink_source: None,
        hard_link_info: None,
    }
}

/// A copy of a byte string.
pub fn copy_bytes(v: &[u8]) -> (r: Vec<u8>)
    ensures
        r@ == v@,
{
    vstd::slice::slice_to_vec(v)
}

/// A copy of an optional byte string.
pub fn copy_opt_bytes(o: &Option<Vec<u8>>) -> (r: Option<Vec<u8>>)
    ensures
        opt_bytes(r) == opt_bytes(*o),
{
    match o {
        Some(v) => Some(copy_bytes(v)),
        None => None,
    }
}

/// Whether two byte strings are equal.
pub fn same_bytes(a: &[u8], b: &[u8]) -> (r: bool)
    ensures
        r == (a@ == b@),
{
    if a.len() != b.len() {
        return false;
    }
    let mut i: usize = 0;
    while i < a.len()
        invariant
            i <= a.len(),
            a.len() == b.len(),
            forall|j: int| 0 <= j < i ==> a@[j] == b@[j],
        decreases a.len() - i,
    {
        if a[i] != b[i] {
            return false;
        }
        i += 1;
    }
    assert(a@ =~= b@);
    true
}

/// The position of the last slash, or -1.
pub open spec fn last_slash(s: Seq<u8>) -> int
    decreases s.len(),
{
    if s.len() == 0 {
        -1
    } else if s.last() == 0x2F {
        s.len() - 1
    } else {
        last_slash(s.drop_last())
    }
}

/// The last slash is a slash, and no slash follows it.
pub proof fn last_slash_is_last(s: Seq<u8>)
    ensures
        -1 <= last_slash(s) < s.len(),
        last_slash(s) >= 0 ==> s[last_slash(s)] == 0x2F,
        forall|i: int| last_slash(s) < i < s.len() ==> s[i] != 0x2F,
    decreases s.len(),
{
    if s.len() > 0 && s.last() != 0x2F {
        let t = s.drop_last();
        last_slash_is_last(t);
        assert forall|i: int| last_slash(s) < i < s.len() implies s[i] != 0x2F by {
            if i < t.len() {
                assert(t[i] == s[i]);
            }
        }
    }
}

/// The part of a path before its last slash, where it has one.
pub open spec fn dirname_of(s: Seq<u8>) -> Option<Seq<u8>> {
    if last_slash(s) >= 0 {
        Some(s.take(last_slash(s)))
    } else {
        None
    }
}

/// The part of a path behind its last slash.
pub open spec fn basename_of(s: Seq<u8>) -> Seq<u8> {
    s.skip(last_slash(s) + 1)
}

/// Finds the last slash of a path.
pub fn find_last_slash(s: &[u8]) -> (r: Option<usize>)
    ensures
        r == (if last_slash(s@) >= 0 {
            Some(last_slash(s@) as usize)
        } else {
            None
        }),
        r is Some ==> r->0 < s.len(),
{
    let mut i: usize = s.len();
    assert(s@.take(s@.len() as int) =~= s@);
    while i > 0
        invariant
            i <= s.len(),
            last_slash(s@) == last_slash(s@.take(i as int)),
        decreases i,
    {
        assert(s@.take(i as int).last() == s@[i - 1]);
        assert(s@.take(i as int).drop_last() =~= s@.take(i - 1));
        if s[i - 1] == 0x2F {
            return Some(i - 1);
        }
        i -= 1;
    }
    None
}

impl FileEntry {
    /// An entry with a name and nothing else.
    pub fn named(name: Vec<u8>) -> (r: FileEntry)
        ensures
            r@ == empty_entry(name@),
    {
        FileEntry {
            name,
            len: 0,
            mtime: 0,
            mtime_nsec: 0,
            mode: 0,
            uid: 0,
            gid: 0,
            rdev: 0,
            link_target: Vec::new(),
            checksum: Vec::new(),
            flags: 0,
            user_name: Vec::new(),
            group_name: Vec::new(),
            hlink_source: None,
            hard_link_info: None,
        }
    }

    /// Returns true if this entry is a regular file.
    pub fn is_file(&self) -> (r: bool)
        ensures
            r == (file_type(self.mode) == S_IFREG),
    {
        (self.mode & S_IFMT) == S_IFREG
    }

    /// Returns true if this entry is a directory.
    pub fn is_dir(&self) -> (r: bool)
        ensures
            r == (file_type(self.mode) == S_IFDIR),
    {
        (self.mode & S_IFMT) == S_IFDIR
    }

    /// Returns true if this entry is a symlink.
    pub fn is_symlink(&self) -> (r: bool)
        ensures
            r == (file_type(self.mode) == WIRE_S_IFLNK),
    {
        (self.mode & S_IFMT) == WIRE_S_IFLNK
    }

    /// Returns true if this entry is a block or character device.
    pub fn is_device(&self) -> (r: bool)
        ensures
            r == (file_type(self.mode) == S_IFBLK || file_type(self.mode) == S_IFCHR),
    {
        let ft = self.mode & S_IFMT;
        ft == S_IFBLK || ft == S_IFCHR
    }

    /// Returns hard-link identity info for regular files with nlink > 1.
    /// Directories and other non-regular files are never hardlink candidates.
    pub fn hard_link_info(&self) -> (r: Option<&HardLinkInfo>)
        ensures
            r == (match link_identity(self@) {
                Some(info) => Some(&info),
                None => None,
            }),
    {
        if self.is_file() {
            match &self.hard_link_info {
                Some(info) => if info.nlink > 1 {
                    Some(info)
                } else {
                    None
                },
                None => None,
            }
        } else {
            None
        }
    }

    /// Returns true if this entry is a special file (FIFO or socket).
    pub fn is_special(&self) -> (r: bool)
        ensures
            r == (file_type(self.mode) == S_IFIFO || file_type(self.mode) == S_IFSOCK),
    {
        let ft = self.mode & S_IFMT;
        ft == S_IFIFO || ft == S_IFSOCK
    }

    /// Extract the dirname portion (everything before the last `/`).
    /// Returns `None` if there is no directory component.
    pub fn dirname(&self) -> (r: Option<&[u8]>)
        ensures
            match r {
                Some(d) => dirname_of(self.name@) == Some(d@),
                None => dirname_of(self.name@) is None,
            },
    {
        proof {
            last_slash_is_last(self.name@);
        }
        match find_last_slash(self.name.as_slice()) {
            Some(pos) => {
                let d = vstd::slice::slice_subrange(self.name.as_slice(), 0, pos);
                assert(d@ =~= self.name@.take(pos as int));
                Some(d)
            },
            None => None,
        }
    }

    /// Extract the basename portion (everything after the last `/`).
    pub fn basename(&self) -> (r: &[u8])
        ensures
            r@ == basename_of(self.name@),
    {
        proof {
            last_slash_is_last(self.name@);
        }
        match find_last_slash(self.name.as_slice()) {
            Some(pos) => {
                let b = vstd::slice::slice_subrange(
                    self.name.as_slice(),
                    pos + 1,
                    self.name.len(),
                );
                assert(b@ =~= basename_of(self.name@));
                b
            },
            None => {
                assert(self.name@.skip(0) =~= self.name@);
                self.name.as_slice()
            },
        }
    }

    /// Device major number.
    pub fn rdev_major(&self) -> (r: u32)
        ensures
            r == rdev_major_of(self.rdev),
    {
        ((self.rdev / 256) % 0x1_0000_0000) as u32
    }

    /// Device minor number.
    pub fn rdev_minor(&self) -> (r: u32)
        ensures
            r == rdev_minor_of(self.rdev),
    {
        (self.rdev % 256) as u32
    }

    /// The name as a path, byte for byte.
    pub fn path(&self) -> (r: Vec<u8>)
        ensures
            r@ == self.name@,
    {
        Self::name_to_pathbuf(self.name.as_slice())
    }

    /// Converts a name to a path. Paths are byte strings, so every byte is kept.
    pub fn name_to_pathbuf(bytes: &[u8]) -> (r: Vec<u8>)
        ensures
            r@ == bytes@,
    {
        copy_bytes(bytes)
    }

    /// Format this entry for `--list-only` output (rsync ls -l style).
    /// Bytes of the name that are not UTF-8 are shown as replacement characters.
    pub fn format_list_entry(&self) -> (r: String)
        ensures
            r@ == list_line(self.mode, self.len, self.mtime, lossy_text(self.name@)),
    {
        let name = lossy_string(self.name.as_slice());
        format_list_line(self.mode, self.len, self.mtime, &name)
    }
}

impl Clone for FileEntry {
    fn clone(&self) -> (r: FileEntry)
        ensures
            r@ == self@,
    {
        FileEntry {
            name: copy_bytes(&self.name),
            len: self.len,
            mtime: self.mtime,
            mtime_nsec: self.mtime_nsec,
            mode: self.mode,
            uid: self.uid,
            gid: self.gid,
            rdev: self.rdev,
            link_target: copy_bytes(&self.link_target),
            checksum: copy_bytes(&self.checksum),
            flags: self.flags,
            user_name: copy_bytes(&self.user_name),
            group_name: copy_bytes(&self.group_name),
            hlink_source: copy_opt_bytes(&self.hlink_source),
            hard_link_info: self.hard_link_info,
        }
    }
}

impl Default for FileEntry {
    fn default() -> (r: FileEntry)
        ensures
            r@ == empty_entry(Seq::empty()),
    {
        let name: Vec<u8> = Vec::new();
        FileEntry::named(name)
    }
}

/// The major number of a device number, of which 32 bits are kept.
pub open spec fn rdev_major_of(rdev: u64) -> u32 {
    ((rdev / 256) % 0x1_0000_0000) as u32
}

/// The minor number of a device number.
pub open spec fn rdev_minor_of(rdev: u64) -> u32 {
    (rdev % 256) as u32
}

/// Convert a platform file mode to the wire representation.
///
/// Symlink modes use the wire's file-type bits, which are the platform's own.
pub fn to_wire_mode(mode: u32) -> (r: u32)
    ensures
        r == mode,
{
    if (mode & S_IFMT) == S_IFLNK {
        assert(mode & 0o170000 == 0o120000 ==> (mode & !0o170000u32) | 0o120000 == mode)
            by (bit_vector);
        (mode & !S_IFMT) | WIRE_S_IFLNK
    } else {
        mode
    }
}

/// Convert a wire file mode back to the platform representation.
pub fn from_wire_mode(mode: u32) -> (r: u32)
    ensures
        r == mode,
{
    if (mode & S_IFMT) == WIRE_S_IFLNK {
        assert(mode & 0o170000 == 0o120000 ==> (mode & !0o170000u32) | 0o120000 == mode)
            by (bit_vector);
        (mode & !S_IFMT) | S_IFLNK
    } else {
        mode
    }
}

// ---------------------------------------------------------------------------
// Entry names
// ---------------------------------------------------------------------------

/// Whether the marker `/./` stands at a position.
pub open spec fn marker_at(s: Seq<u8>, i: int) -> bool {
    0 <= i && i + 3 <= s.len() && s[i] == 0x2F && s[i + 1] == 0x2E && s[i + 2] == 0x2F
}

/// The position of the first `/./` from `i` on, or -1.
pub open spec fn first_marker(s: Seq<u8>, i: int) -> int
    decreases s.len() - i,
{
    if i < 0 || i + 3 > s.len() {
        -1
    } else if marker_at(s, i) {
        i
    } else {
        first_marker(s, i + 1)
    }
}

/// A path without its trailing slashes and `/.` components.
pub open spec fn without_trailing(s: Seq<u8>) -> Seq<u8>
    decreases s.len(),
{
    if s.len() > 0 && s.last() == 0x2F {
        without_trailing(s.drop_last())
    } else if s.len() >= 2 && s.last() == 0x2E && s[s.len() - 2] == 0x2F {
        without_trailing(s.drop_last())
    } else {
        s
    }
}

/// The last component of a path, where it is a name: not empty, not `.` and
/// not `..`.
pub open spec fn file_name_of(s: Seq<u8>) -> Option<Seq<u8>> {
    let base = basename_of(without_trailing(s));
    if base.len() == 0 || base == seq![0x2Eu8] || base == seq![0x2Eu8, 0x2Eu8] {
        None
    } else {
        Some(base)
    }
}

/// The part of a path that `--relative` keeps: what follows the first `/./`,
/// else the path without a leading slash.
pub open spec fn relative_name_of(source: Seq<u8>) -> Seq<u8> {
    let pos = first_marker(source, 0);
    if pos >= 0 {
        source.skip(pos + 3)
    } else if source.len() > 0 && source[0] == 0x2F {
        source.skip(1)
    } else {
        source
    }
}

/// The name under which a source path enters the file list. With `relative`
/// it is taken from the path's text.
pub open spec fn entry_name_of(source: Seq<u8>, relative: bool) -> Seq<u8> {
    if relative {
        relative_name_of(vstd::utf8::encode_utf8(lossy_text(source)))
    } else {
        match file_name_of(source) {
            Some(n) => n,
            None => Seq::empty(),
        }
    }
}

/// The last component of a path, where it is a name.
pub fn path_file_name(s: &[u8]) -> (r: Option<Vec<u8>>)
    ensures
        opt_bytes(r) == file_name_of(s@),
{
    let mut end: usize = s.len();
    assert(s@.take(s@.len() as int) =~= s@);
    loop
        invariant
            end <= s.len(),
            without_trailing(s@) == without_trailing(s@.take(end as int)),
        ensures
            end <= s.len(),
            without_trailing(s@) == s@.take(end as int),
        decreases end,
    {
        let ghost t = s@.take(end as int);
        if end > 0 {
            assert(t.last() == s@[end - 1]);
            assert(t.drop_last() =~= s@.take(end - 1));
            if end >= 2 {
                assert(t[t.len() - 2] == s@[end - 2]);
            }
        }
        if end > 0 && s[end - 1] == 0x2F {
            end = end - 1;
        } else if end >= 2 && s[end - 1] == 0x2E && s[end - 2] == 0x2F {
            end = end - 1;
        } else {
            break;
        }
    }
    let t = vstd::slice::slice_subrange(s, 0, end);
    assert(t@ =~= s@.take(end as int));
    proof {
        last_slash_is_last(t@);
    }
    let start: usize = match find_last_slash(t) {
        Some(p) => p + 1,
        None => 0,
    };
    let base = vstd::slice::slice_subrange(t, start, end);
    assert(base@ =~= basename_of(t@));
    if base.len() == 0 {
        return None;
    }
    if base.len() == 1 && base[0] == 0x2E {
        assert(base@ =~= seq![0x2Eu8]);
        return None;
    }
    if base.len() == 2 && base[0] == 0x2E && base[1] == 0x2E {
        assert(base@ =~= seq![0x2Eu8, 0x2Eu8]);
        return None;
    }
    assert(base@ != seq![0x2Eu8]);
    assert(base@ != seq![0x2Eu8, 0x2Eu8]);
    Some(copy_bytes(base))
}

/// The text of bytes that are UTF-8 encodes these bytes.
pub proof fn valid_text_is_kept(bytes: Seq<u8>)
    ensures
        vstd::utf8::valid_utf8(bytes) ==> vstd::utf8::encode_utf8(lossy_text(bytes)) == bytes,
{
    if vstd::utf8::valid_utf8(bytes) {
        vstd::utf8::decode_utf8_encode_utf8(bytes);
    }
}

/// The part of a path that `--relative` keeps.
pub fn relative_name(source: &[u8]) -> (r: Vec<u8>)
    ensures
        r@ == relative_name_of(source@),
{
    let mut i: usize = 0;
    while source.len() >= 3 && i <= source.len() - 3
        invariant
            i <= source.len(),
            first_marker(source@, 0) == first_marker(source@, i as int),
        decreases source.len() - i,
    {
        if source[i] == 0x2F && source[i + 1] == 0x2E && source[i + 2] == 0x2F {
            let after = vstd::slice::slice_subrange(source, i + 3, source.len());
            assert(after@ =~= source@.skip(i + 3));
            return copy_bytes(after);
        }
        i += 1;
    }
    if source.len() > 0 && source[0] == 0x2F {
        let after = vstd::slice::slice_subrange(source, 1, source.len());
        assert(after@ =~= source@.skip(1));
        return copy_bytes(after);
    }
    copy_bytes(source)
}

/// Compute the entry name from a source path, optionally preserving the
/// full relative path structure.
///
/// When `relative` is true (rsync's `-R` / `--relative`), the entry name
/// holds intermediate directories so that the receiver can recreate the
/// source's directory hierarchy. If the path contains a `/./` marker,
/// everything after the marker becomes the name. Otherwise the full path
/// minus the leading `/` is used.
///
/// When `relative` is false, only the basename is returned.
pub fn compute_entry_name(source: &[u8], relative: bool) -> (r: Vec<u8>)
    ensures
        r@ == entry_name_of(source@, relative),
        relative && vstd::utf8::valid_utf8(source@) ==> r@ == relative_name_of(source@),
{
    if relative {
        let text = lossy_string(source);
        proof {
            valid_text_is_kept(source@);
        }
        return relative_name(text.as_str().as_bytes());
    }
    match path_file_name(source) {
        Some(n) => n,
        None => Vec::new(),
    }
}

// ---------------------------------------------------------------------------
// Listing format
// ---------------------------------------------------------------------------

/// The letter of a file type.
pub open spec fn type_letter(mode: u32) -> char {
    let t = file_type(mode);
    if t == S_IFDIR {
        'd'
    } else if t == S_IFLNK {
        'l'
    } else if t == S_IFBLK {
        'b'
    } else if t == S_IFCHR {
        'c'
    } else if t == S_IFIFO {
        'p'
    } else if t == S_IFSOCK {
        's'
    } else {
        '-'
    }
}

/// `letter` where the bit is set, else a dash.
pub open spec fn perm_letter(mode: u32, bit: u32, letter: char) -> char {
    if mode & bit != 0 {
        letter
    } else {
        '-'
    }
}

/// The letter of an execute bit that a special bit may overlay.
pub open spec fn exec_letter(mode: u32, special: u32, exec: u32, both: char, only: char) -> char {
    if mode & special != 0 {
        if mode & exec != 0 {
            both
        } else {
            only
        }
    } else if mode & exec != 0 {
        'x'
    } else {
        '-'
    }
}

/// A mode as a permission string such as `drwxr-xr-x`.
pub open spec fn mode_text(mode: u32) -> Seq<char> {
    seq![
        type_letter(mode),
        perm_letter(mode, 0o400, 'r'),
        perm_letter(mode, 0o200, 'w'),
        exec_letter(mode, 0o4000, 0o100, 's', 'S'),
        perm_letter(mode, 0o040, 'r'),
        perm_letter(mode, 0o020, 'w'),
        exec_letter(mode, 0o2000, 0o010, 's', 'S'),
        perm_letter(mode, 0o004, 'r'),
        perm_letter(mode, 0o002, 'w'),
        exec_letter(mode, 0o1000, 0o001, 't', 'T'),
    ]
}

fn perm_char(mode: u32, bit: u32, letter: char) -> (r: char)
    ensures
        r == perm_letter(mode, bit, letter),
{
    if mode & bit != 0 {
        letter
    } else {
        '-'
    }
}

fn exec_char(mode: u32, special: u32, exec_bit: u32, both: char, only: char) -> (r: char)
    ensures
        r == exec_letter(mode, special, exec_bit, both, only),
{
    if mode & special != 0 {
        if mode & exec_bit != 0 {
            both
        } else {
            only
        }
    } else if mode & exec_bit != 0 {
        'x'
    } else {
        '-'
    }
}

/// Format a Unix mode as a human-readable permission string (e.g., "drwxr-xr-x").
pub fn format_mode(mode: u32) -> (r: String)
    ensures
        r@ == mode_text(mode),
{
    let t = mode & S_IFMT;
    let file_type_char = if t == S_IFDIR {
        'd'
    } else if t == S_IFLNK {
        'l'
    } else if t == S_IFBLK {
        'b'
    } else if t == S_IFCHR {
        'c'
    } else if t == S_IFIFO {
        'p'
    } else if t == S_IFSOCK {
        's'
    } else {
        '-'
    };
    let mut v: Vec<char> = Vec::new();
    v.push(file_type_char);
    v.push(perm_char(mode, 0o400, 'r'));
    v.push(perm_char(mode, 0o200, 'w'));
    v.push(exec_char(mode, 0o4000, 0o100, 's', 'S'));
    v.push(perm_char(mode, 0o040, 'r'));
    v.push(perm_char(mode, 0o020, 'w'));
    v.push(exec_char(mode, 0o2000, 0o010, 's', 'S'));
    v.push(perm_char(mode, 0o004, 'r'));
    v.push(perm_char(mode, 0o002, 'w'));
    v.push(exec_char(mode, 0o1000, 0o001, 't', 'T'));
    assert(v@ =~= mode_text(mode));
    from_chars(&v)
}

/// A calendar date.
#[derive(Debug, Clone, Copy, PartialEq, Eq, Structural)]
pub struct CivilDate {
    pub year: i64,
    pub month: u32,
    pub day: u32,
}

/// Whether a year of the Gregorian calendar has a leap day.
pub open spec fn is_leap_year(y: int) -> bool {
    y % 4 == 0 && (y % 100 != 0 || y % 400 == 0)
}

/// The number of days of a month.
pub open spec fn days_in_month(y: int, m: int) -> int {
    if m == 2 {
        if is_leap_year(y) {
            29
        } else {
            28
        }
    } else if m == 4 || m == 6 || m == 9 || m == 11 {
        30
    } else {
        31
    }
}

/// The number of days from the start of year 1 to the start of year `y`.
pub open spec fn days_before_year(y: int) -> int {
    365 * (y - 1) + (y - 1) / 4 - (y - 1) / 100 + (y - 1) / 400
}

/// The number of days of a year before its month `m`.
pub open spec fn days_before_month(y: int, m: int) -> int
    decreases m,
{
    if m <= 1 {
        0
    } else {
        days_before_month(y, m - 1) + days_in_month(y, m - 1)
    }
}

/// The number of days from 1970-01-01 to a date.
pub open spec fn day_number(date: CivilDate) -> int {
    days_before_year(date.year as int) + days_before_month(date.year as int, date.month as int)
        + date.day - 1 - 719162
}

/// Whether a date exists in the calendar.
pub open spec fn is_date(date: CivilDate) -> bool {
    1 <= date.month <= 12 && 1 <= date.day <= days_in_month(date.year as int, date.month as int)
}

/// The calendar date of a day counted from 1970-01-01.
pub fn civil_from_days(days: i64) -> (r: CivilDate)
    requires
        -106751991167301 <= days <= 106751991167301,
    ensures
        is_date(r),
        day_number(r) == days,
        r.year > -400_000_000_000,
{
    let z: i64 = days + 719468;
    let era: i64 = if z >= 0 {
        z / 146097
    } else {
        -((-z + 146096) / 146097)
    };
    let doe: i64 = z - era * 146097;
    assert(0 <= doe < 146097);
    let yoe: i64 = (doe - doe / 1460 + doe / 36524 - doe / 146096) / 365;
    proof {
        year_of_era(doe as int);
    }
    let doy: i64 = doe - (365 * yoe + yoe / 4 - yoe / 100);
    let mp: i64 = (5 * doy + 2) / 153;
    let d: i64 = doy - (153 * mp + 2) / 5 + 1;
    let m: i64 = if mp < 10 {
        mp + 3
    } else {
        mp - 9
    };
    let y0: i64 = yoe + era * 400;
    let y: i64 = if m <= 2 {
        y0 + 1
    } else {
        y0
    };
    let date = CivilDate { year: y, month: m as u32, day: d as u32 };
    proof {
        month_of_year(doy as int);
        date_is_counted(era as int, yoe as int, doy as int, date);
    }
    date
}

/// The year inside a 400-year era that starts on the first of March, and the
/// day inside that year.
proof fn year_of_era(doe: int)
    requires
        0 <= doe < 146097,
    ensures
        ({
            let yoe = (doe - doe / 1460 + doe / 36524 - doe / 146096) / 365;
            let doy = doe - (365 * yoe + yoe / 4 - yoe / 100);
            &&& 0 <= yoe < 400
            &&& 0 <= doy <= 365
            &&& doy == 365 ==> is_leap_year(yoe + 1)
        }),
{
}

/// The month inside a year that starts in March, and the day inside that month.
proof fn month_of_year(doy: int)
    requires
        0 <= doy <= 365,
    ensures
        ({
            let mp = (5 * doy + 2) / 153;
            let d = doy - (153 * mp + 2) / 5 + 1;
            &&& 0 <= mp <= 11
            &&& 1 <= d <= 31
            &&& mp == 1 || mp == 3 || mp == 6 || mp == 8 ==> d <= 30
            &&& mp == 11 ==> d <= 29
            &&& mp == 11 && d == 29 ==> doy == 365
        }),
{
}

/// The date found in an era has the day number that it was found for.
#[verifier::spinoff_prover]
#[verifier::rlimit(40)]
proof fn date_is_counted(era: int, yoe: int, doy: int, date: CivilDate)
    requires
        0 <= yoe < 400,
        0 <= doy <= 365,
        doy == 365 ==> is_leap_year(yoe + 1),
        ({
            let mp = (5 * doy + 2) / 153;
            let d = doy - (153 * mp + 2) / 5 + 1;
            let m = if mp < 10 { mp + 3 } else { mp - 9 };
            let y = yoe + era * 400 + (if m <= 2 { 1int } else { 0int });
            date.year == y && date.month == m && date.day == d
        }),
    ensures
        is_date(date),
        day_number(date) == era * 146097 + 365 * yoe + yoe / 4 - yoe / 100 + doy - 719468,
{
    month_of_year(doy);
    let march_year = yoe + era * 400;
    march_years_counted(era, yoe);
    leap_day_counted(march_year);
    months_counted(date.year as int, date.month as int);
    leap_years_repeat(era, yoe);
    let mp = (5 * doy + 2) / 153;
    if date.month >= 3 {
        assert(date.year == march_year);
        assert(date.month == mp + 3);
    } else {
        assert(date.year == march_year + 1);
        assert(date.month == mp - 9);
        if date.month == 2 {
            assert(mp == 11);
        }
    }
}

/// The calendar repeats every 400 years.
proof fn leap_years_repeat(era: int, yoe: int)
    ensures
        is_leap_year(yoe + era * 400 + 1) == is_leap_year(yoe + 1),
{
    multiple_drops_out(yoe + 1, era * 100, 4);
    multiple_drops_out(yoe + 1, era * 4, 100);
    multiple_drops_out(yoe + 1, era, 400);
}

/// A multiple of the divisor does not change a remainder.
proof fn multiple_drops_out(a: int, k: int, d: int)
    requires
        d > 0,
    ensures
        (a + k * d) % d == a % d,
        (a + k * d) / d == a / d + k,
{
    vstd::arithmetic::div_mod::lemma_mod_multiples_vanish(k, a, d);
    vstd::arithmetic::div_mod::lemma_hoist_over_denominator(a, k, d as nat);
    vstd::arithmetic::mul::lemma_mul_is_commutative(k, d);
}

/// The days of the years before a year that starts in March.
spec fn days_before_march_year(y: int) -> int {
    365 * y + y / 4 - y / 100 + y / 400
}

proof fn march_years_counted(era: int, yoe: int)
    requires
        0 <= yoe < 400,
    ensures
        days_before_march_year(yoe + era * 400) == era * 146097 + 365 * yoe + yoe / 4 - yoe / 100,
{
    multiple_drops_out(yoe, era * 100, 4);
    multiple_drops_out(yoe, era * 4, 100);
    multiple_drops_out(yoe, era, 400);
}

proof fn leap_day_counted(y: int)
    ensures
        days_before_year(y + 1) == days_before_march_year(y),
        days_before_year(y) == days_before_march_year(y) - 365 - (if is_leap_year(y) {
            1int
        } else {
            0int
        }),
{
    step_of_quotient(y, 4);
    step_of_quotient(y, 100);
    step_of_quotient(y, 400);
    assert(y % 400 == 0 ==> y % 100 == 0);
    assert(y % 100 == 0 ==> y % 4 == 0);
}

/// A year has 365 days, and one more where it is a leap year.
pub proof fn year_has_its_days(y: int)
    ensures
        days_before_year(y + 1) - days_before_year(y) == 365 + (if is_leap_year(y) {
            1int
        } else {
            0int
        }),
{
    leap_day_counted(y);
}

/// A quotient grows by one exactly where the divisor divides.
proof fn step_of_quotient(y: int, d: int)
    requires
        d > 1,
    ensures
        y / d - (y - 1) / d == (if y % d == 0 {
            1int
        } else {
            0int
        }),
{
    let q = y / d;
    let r = y % d;
    vstd::arithmetic::div_mod::lemma_fundamental_div_mod(y, d);
    vstd::arithmetic::mul::lemma_mul_is_commutative(d, q);
    if r == 0 {
        vstd::arithmetic::mul::lemma_mul_is_distributive_sub_other_way(d, q, 1);
        vstd::arithmetic::div_mod::lemma_fundamental_div_mod_converse(y - 1, d, q - 1, d - 1);
    } else {
        vstd::arithmetic::div_mod::lemma_fundamental_div_mod_converse(y - 1, d, q, r - 1);
    }
}

proof fn months_counted(y: int, m: int)
    requires
        1 <= m <= 12,
    ensures
        days_before_month(y, m) == (if m >= 3 {
            59 + (if is_leap_year(y) {
                1int
            } else {
                0int
            }) + (153 * (m - 3) + 2) / 5
        } else {
            31 * (m - 1)
        }),
{
    reveal_with_fuel(days_before_month, 13);
}

/// The time of day that a listing shows: the seconds since midnight.
pub open spec fn shown_seconds(mtime: i64) -> int {
    mtime as int % 86400
}

/// The day that a listing shows, counted from 1970-01-01.
pub open spec fn shown_day(mtime: i64) -> int {
    mtime as int / 86400
}

/// A year padded with zeros to four characters, the sign counted and first.
pub open spec fn year_text(y: int) -> Seq<char> {
    if y < 0 {
        seq!['-'] + pad_left(decimal((-y) as nat), 3, '0')
    } else {
        pad_left(decimal(y as nat), 4, '0')
    }
}

/// A number padded with zeros to two digits.
pub open spec fn two_digits(n: int) -> Seq<char> {
    pad_left(decimal(n as nat), 2, '0')
}

/// A date and a time of day as `YYYY/MM/DD HH:MM:SS`.
pub open spec fn date_time_text(date: CivilDate, secs: int) -> Seq<char> {
    year_text(date.year as int) + seq!['/'] + two_digits(date.month as int) + seq!['/']
        + two_digits(date.day as int) + seq![' '] + two_digits(secs / 3600) + seq![':']
        + two_digits(secs % 3600 / 60) + seq![':'] + two_digits(secs % 60)
}

/// The date with a day number.
pub open spec fn date_of_day(n: int) -> CivilDate {
    choose|date: CivilDate| is_date(date) && day_number(date) == n
}

/// A modification time as `YYYY/MM/DD HH:MM:SS`.
pub open spec fn mtime_text(mtime: i64) -> Seq<char> {
    date_time_text(date_of_day(shown_day(mtime)), shown_seconds(mtime))
}

/// A line of a listing: permissions, size, time and name.
pub open spec fn list_line(mode: u32, len: i64, mtime: i64, name: Seq<char>) -> Seq<char> {
    mode_text(mode) + seq![' '] + pad_left(signed_decimal(len as int), 12, ' ') + seq![' ']
        + mtime_text(mtime) + seq![' '] + name
}

/// Every month lies inside its year.
proof fn months_fit_year(y: int, m: int, d: int)
    requires
        1 <= m <= 12,
        1 <= d <= days_in_month(y, m),
    ensures
        0 <= days_before_month(y, m) + d - 1 < days_before_year(y + 1) - days_before_year(y),
{
    reveal_with_fuel(days_before_month, 13);
}

/// Later years start later.
proof fn years_are_ordered(a: int, b: int)
    requires
        a <= b,
    ensures
        days_before_year(a) <= days_before_year(b),
    decreases b - a,
{
    if a < b {
        years_are_ordered(a, b - 1);
    }
}

/// A day number belongs to one date only.
pub proof fn day_has_one_date(a: CivilDate, b: CivilDate)
    requires
        is_date(a),
        is_date(b),
        day_number(a) == day_number(b),
    ensures
        a == b,
{
    let ya = a.year as int;
    let yb = b.year as int;
    months_fit_year(ya, a.month as int, a.day as int);
    months_fit_year(yb, b.month as int, b.day as int);
    if ya < yb {
        years_are_ordered(ya + 1, yb);
    } else if yb < ya {
        years_are_ordered(yb + 1, ya);
    }
    assert(ya == yb);
    reveal_with_fuel(days_before_month, 13);
}

/// The date with a day number is the one that has it.
proof fn found_date(date: CivilDate, n: int)
    requires
        is_date(date),
        day_number(date) == n,
    ensures
        date_of_day(n) == date,
{
    day_has_one_date(date, date_of_day(n));
}

fn push_two_digits(out: &mut Vec<char>, n: u64)
    ensures
        final(out)@ == old(out)@ + two_digits(n as int),
{
    let v = numeral_chars(n, 10);
    let p = pad_left_chars(v.as_slice(), 2, '0');
    push_chars(out, p.as_slice());
}

fn push_year(out: &mut Vec<char>, y: i64)
    requires
        y > i64::MIN,
    ensures
        final(out)@ == old(out)@ + year_text(y as int),
{
    if y < 0 {
        let v = numeral_chars((-y) as u64, 10);
        let p = pad_left_chars(v.as_slice(), 3, '0');
        out.push('-');
        push_chars(out, p.as_slice());
        assert(out@ =~= old(out)@ + year_text(y as int));
    } else {
        let v = numeral_chars(y as u64, 10);
        let p = pad_left_chars(v.as_slice(), 4, '0');
        push_chars(out, p.as_slice());
    }
}

/// Format a date and a time of day as YYYY/MM/DD HH:MM:SS.
pub fn format_date_time(date: CivilDate, secs: u32) -> (r: String)
    requires
        date.year > i64::MIN,
    ensures
        r@ == date_time_text(date, secs as int),
{
    let mut out: Vec<char> = Vec::new();
    push_year(&mut out, date.year);
    out.push('/');
    push_two_digits(&mut out, date.month as u64);
    out.push('/');
    push_two_digits(&mut out, date.day as u64);
    out.push(' ');
    push_two_digits(&mut out, (secs / 3600) as u64);
    out.push(':');
    push_two_digits(&mut out, (secs % 3600 / 60) as u64);
    out.push(':');
    push_two_digits(&mut out, (secs % 60) as u64);
    assert(out@ =~= date_time_text(date, secs as int));
    from_chars(out.as_slice())
}

/// Format a Unix timestamp as YYYY/MM/DD HH:MM:SS, in UTC.
pub fn format_mtime(mtime: i64) -> (r: String)
    ensures
        r@ == mtime_text(mtime),
{
    let days: i64 = if mtime >= 0 {
        mtime / 86400
    } else {
        -1 - (-(mtime + 1)) / 86400
    };
    assert(days == shown_day(mtime));
    let secs: u32 = if mtime >= 0 {
        (mtime % 86400) as u32
    } else {
        (86399 - (-(mtime + 1)) % 86400) as u32
    };
    assert(secs == shown_seconds(mtime));
    let date = civil_from_days(days);
    proof {
        found_date(date, days as int);
    }
    format_date_time(date, secs)
}

/// Format one line of a listing.
pub fn format_list_line(mode: u32, len: i64, mtime: i64, name: &str) -> (r: String)
    ensures
        r@ == list_line(mode, len, mtime, name@),
{
    let mut out: Vec<char> = Vec::new();
    let mode_str = format_mode(mode);
    push_text(&mut out, mode_str.as_str());
    out.push(' ');
    let size = signed_decimal_string(len);
    let size_chars = to_chars(size.as_str());
    let padded = pad_left_chars(size_chars.as_slice(), 12, ' ');
    push_chars(&mut out, padded.as_slice());
    out.push(' ');
    let time_str = format_mtime(mtime);
    push_text(&mut out, time_str.as_str());
    out.push(' ');
    push_text(&mut out, name);
    assert(out@ =~= list_line(mode, len, mtime, name@));
    from_chars(out.as_slice())
}

} // verus!
