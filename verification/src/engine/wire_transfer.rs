//! What client and server share in a transfer over the wire.

use std::collections::HashMap;

use vstd::prelude::*;
use vstd::utf8::encode_utf8;

use crate::error::{
    FerrosyncError, FsError, IoFailure, ProtocolError, ProtocolErrorView,
};
use crate::filelist::entry::{copy_bytes, EntryView, FileEntry};
use crate::options::path_views;
use crate::path::{join_path, joined};
use crate::protocol::handshake::NegotiatedProtocol;
use crate::protocol::varint::{
    ndx_bytes, read_varlong30, varlong30_at, varlong30_bytes, varlong30_read_back, write_ndx,
    write_varlong30, NdxState, NDX_DONE,
};
use crate::protocol::wire::{holds_at, holds_split, WireReader};
use crate::stats::TransferStats;
use crate::text::{lossy_string, lossy_text};

verus! {

broadcast use vstd::std_specs::hash::group_hash_axioms;

// ---------------------------------------------------------------------------
// Errors
// ---------------------------------------------------------------------------

/// Errors from wire-level transfer loops.
#[derive(Debug)]
pub enum WireError {
    Protocol(ProtocolError),
    Fs(FsError),
    Io(IoFailure),
}

impl From<ProtocolError> for WireError {
    fn from(e: ProtocolError) -> (r: Self) {
        WireError::Protocol(e)
    }
}

impl vstd::std_specs::convert::FromSpecImpl<ProtocolError> for WireError {
    open spec fn obeys_from_spec() -> bool {
        true
    }

    open spec fn from_spec(e: ProtocolError) -> Self {
        WireError::Protocol(e)
    }
}

impl From<FsError> for WireError {
    fn from(e: FsError) -> (r: Self) {
        WireError::Fs(e)
    }
}

impl vstd::std_specs::convert::FromSpecImpl<FsError> for WireError {
    open spec fn obeys_from_spec() -> bool {
        true
    }

    open spec fn from_spec(e: FsError) -> Self {
        WireError::Fs(e)
    }
}

impl From<IoFailure> for WireError {
    fn from(e: IoFailure) -> (r: Self) {
        WireError::Io(e)
    }
}

impl vstd::std_specs::convert::FromSpecImpl<IoFailure> for WireError {
    open spec fn obeys_from_spec() -> bool {
        true
    }

    open spec fn from_spec(e: IoFailure) -> Self {
        WireError::Io(e)
    }
}

/// What a wire error is made of an error: itself, or what it says, where it has
/// no place in a transfer.
pub open spec fn wire_error_of(e: FerrosyncError, r: WireError) -> bool {
    match e {
        FerrosyncError::Protocol(p) => r == WireError::Protocol(p),
        FerrosyncError::Fs(f) => r == WireError::Fs(f),
        FerrosyncError::Transport(t) => r is Protocol && r->Protocol_0@ == (
        ProtocolErrorView::Handshake { message: t.text() }),
        FerrosyncError::Filter(f) => r is Protocol && r->Protocol_0@ == (
        ProtocolErrorView::Handshake { message: f.text() }),
    }
}

impl From<FerrosyncError> for WireError {
    fn from(e: FerrosyncError) -> (r: Self)
        ensures
            wire_error_of(e, r),
    {
        match e {
            FerrosyncError::Protocol(p) => WireError::Protocol(p),
            FerrosyncError::Fs(f) => WireError::Fs(f),
            FerrosyncError::Transport(t) => WireError::Protocol(
                ProtocolError::Handshake { message: t.message() },
            ),
            FerrosyncError::Filter(f) => WireError::Protocol(
                ProtocolError::Handshake { message: f.message() },
            ),
        }
    }
}

impl vstd::std_specs::convert::FromSpecImpl<FerrosyncError> for WireError {
    open spec fn obeys_from_spec() -> bool {
        false
    }

    open spec fn from_spec(e: FerrosyncError) -> Self {
        choose|r: WireError| wire_error_of(e, r)
    }
}

impl From<WireError> for FerrosyncError {
    fn from(e: WireError) -> (r: Self) {
        match e {
            WireError::Protocol(p) => FerrosyncError::Protocol(p),
            WireError::Fs(f) => FerrosyncError::Fs(f),
            WireError::Io(io) => FerrosyncError::Protocol(ProtocolError::Io(io)),
        }
    }
}

impl vstd::std_specs::convert::FromSpecImpl<WireError> for FerrosyncError {
    open spec fn obeys_from_spec() -> bool {
        true
    }

    open spec fn from_spec(e: WireError) -> Self {
        match e {
            WireError::Protocol(p) => FerrosyncError::Protocol(p),
            WireError::Fs(f) => FerrosyncError::Fs(f),
            WireError::Io(io) => FerrosyncError::Protocol(ProtocolError::Io(io)),
        }
    }
}

impl WireError {
    /// What the error says.
    pub open spec fn text(&self) -> Seq<char> {
        match *self {
            WireError::Protocol(e) => e.text(),
            WireError::Fs(e) => e.text(),
            WireError::Io(e) => "I/O error: "@ + e.message@,
        }
    }

    /// What the error says.
    pub fn message(&self) -> (r: String)
        ensures
            r@ == self.text(),
    {
        match self {
            WireError::Protocol(e) => e.message(),
            WireError::Fs(e) => e.message(),
            WireError::Io(e) => {
                let mut out: Vec<char> = Vec::new();
                crate::text::push_text(&mut out, "I/O error: ");
                crate::text::push_text(&mut out, e.message.as_str());
                assert(out@ =~= self.text());
                crate::text::from_chars(out.as_slice())
            },
        }
    }
}

// ---------------------------------------------------------------------------
// Where source files are
// ---------------------------------------------------------------------------

/// Where the data of entries is looked for.
pub trait FileReader {
    /// The paths, in the order in which they are tried.
    spec fn places(&self, e: EntryView) -> Seq<Seq<u8>>;

    /// The paths at which the data of an entry is looked for, in order. The
    /// first that can be read has it; where none can, the file is empty.
    fn paths(&self, entry: &FileEntry) -> (r: Vec<Vec<u8>>)
        ensures
            path_views(r@) == self.places(entry@),
    ;
}

/// The name of an entry as text below a directory.
pub open spec fn text_below(dir: Seq<u8>, name: Seq<u8>) -> Seq<u8> {
    joined(dir, encode_utf8(lossy_text(name)))
}

fn path_below(dir: &[u8], name: &[u8]) -> (r: Vec<u8>)
    ensures
        r@ == text_below(dir@, name@),
{
    let text = lossy_string(name);
    join_path(dir, text.as_str().as_bytes())
}

/// Reads source files from local paths. A single source that is a directory
/// holds the entries; other sources are the files themselves.
#[derive(Debug)]
pub struct LocalFileReader<'a> {
    source_paths: &'a [Vec<u8>],
    is_dir: bool,
}

impl<'a> LocalFileReader<'a> {
    /// The source paths.
    pub closed spec fn sources(&self) -> Seq<Seq<u8>> {
        path_views(self.source_paths@)
    }

    /// Whether a single source is a directory.
    pub closed spec fn single_dir(&self) -> bool {
        self.is_dir
    }

    /// A reader for sources. `is_dir` says whether a single source is a
    /// directory.
    pub fn new(source_paths: &'a [Vec<u8>], is_dir: bool) -> (r: Self)
        ensures
            r.sources() == path_views(source_paths@),
            r.single_dir() == is_dir,
    {
        LocalFileReader { source_paths, is_dir }
    }
}

/// Where the data of an entry is looked for among local sources.
pub open spec fn local_places(sources: Seq<Seq<u8>>, single_dir: bool, name: Seq<u8>) -> Seq<
    Seq<u8>,
> {
    if sources.len() == 1 && single_dir {
        seq![text_below(sources[0], name)]
    } else {
        sources
    }
}

impl<'a> FileReader for LocalFileReader<'a> {
    open spec fn places(&self, e: EntryView) -> Seq<Seq<u8>> {
        local_places(self.sources(), self.single_dir(), e.name)
    }

    fn paths(&self, entry: &FileEntry) -> (r: Vec<Vec<u8>>) {
        let mut out: Vec<Vec<u8>> = Vec::new();
        if self.source_paths.len() == 1 && self.is_dir {
            out.push(path_below(self.source_paths[0].as_slice(), entry.name.as_slice()));
        } else {
            let mut i: usize = 0;
            while i < self.source_paths.len()
                invariant
                    i <= self.source_paths.len(),
                    out.len() == i,
                    forall|j: int| 0 <= j < i ==> (#[trigger] out@[j])@ == self.source_paths@[j]@,
                decreases self.source_paths.len() - i,
            {
                let p = copy_bytes(self.source_paths[i].as_slice());
                out.push(p);
                i = i + 1;
            }
        }
        assert(path_views(out@) =~= self.places(entry@));
        out
    }
}

/// Reads source files from a module directory.
#[derive(Debug)]
pub struct ModuleFileReader<'a> {
    root: &'a [u8],
}

impl<'a> ModuleFileReader<'a> {
    /// The directory of the module.
    pub closed spec fn dir(&self) -> Seq<u8> {
        self.root@
    }

    /// A reader for a module.
    pub fn new(root: &'a [u8]) -> (r: Self)
        ensures
            r.dir() == root@,
    {
        ModuleFileReader { root }
    }
}

impl<'a> FileReader for ModuleFileReader<'a> {
    open spec fn places(&self, e: EntryView) -> Seq<Seq<u8>> {
        seq![text_below(self.dir(), e.name)]
    }

    fn paths(&self, entry: &FileEntry) -> (r: Vec<Vec<u8>>) {
        let mut out: Vec<Vec<u8>> = Vec::new();
        out.push(path_below(self.root, entry.name.as_slice()));
        assert(path_views(out@) =~= self.places(entry@));
        out
    }
}

// ---------------------------------------------------------------------------
// The wire format of a session
// ---------------------------------------------------------------------------

/// What the transfer loops need to know of the negotiated protocol.
#[derive(Debug, Clone, Copy, PartialEq, Eq, Structural)]
pub struct WireFormat {
    /// The protocol version.
    pub version: u8,
    /// How many phases a transfer has after the first.
    pub phase_count: u32,
    /// Whether file lists are exchanged directory by directory.
    pub incremental: bool,
}

impl WireFormat {
    /// From protocol 29 on flags stand behind each index.
    pub open spec fn item_flags(self) -> bool {
        self.version >= 29
    }

    /// From protocol 31 on the goodbye has one more round.
    pub open spec fn exit_sync(self) -> bool {
        self.version >= 31
    }

    /// The format of a session.
    pub fn new(protocol: &NegotiatedProtocol, phase_count: u32) -> (r: WireFormat)
        ensures
            r == (WireFormat {
                version: protocol.version,
                phase_count,
                incremental: protocol.incremental(),
            }),
    {
        WireFormat {
            version: protocol.version,
            phase_count,
            incremental: protocol.supports_incremental_flist(),
        }
    }

    /// Whether flags stand behind each index.
    pub fn has_iflags(&self) -> (r: bool)
        ensures
            r == self.item_flags(),
    {
        self.version >= 29
    }

    /// Whether the goodbye has one more round.
    pub fn has_error_exit_sync(&self) -> (r: bool)
        ensures
            r == self.exit_sync(),
    {
        self.version >= 31
    }
}

/// The index of the first entry: 1 where the list is exchanged directory by
/// directory.
pub open spec fn first_ndx(incremental: bool, recursive: bool) -> int {
    if incremental && recursive {
        1
    } else {
        0
    }
}

/// The entry of each index: consecutive indices stand for consecutive entries.
pub open spec fn ndx_entries(start: int, n: nat) -> Map<i32, usize> {
    Map::new(|k: i32| start <= k < start + n, |k: i32| (k - start) as usize)
}

/// Build the NDX-to-entry-index mapping.
pub fn build_ndx_map(
    entries: &[FileEntry],
    protocol: &NegotiatedProtocol,
    is_recursive: bool,
) -> (r: HashMap<i32, usize>)
    requires
        entries.len() < i32::MAX,
    ensures
        r@ == ndx_entries(first_ndx(protocol.incremental(), is_recursive), entries@.len()),
{
    let start: i32 = if protocol.supports_incremental_flist() && is_recursive {
        1
    } else {
        0
    };
    let mut map: HashMap<i32, usize> = HashMap::new();
    let mut i: usize = 0;
    assert(map@ =~= ndx_entries(start as int, 0));
    while i < entries.len()
        invariant
            i <= entries.len(),
            entries.len() < i32::MAX,
            0 <= start <= 1,
            map@ == ndx_entries(start as int, i as nat),
        decreases entries.len() - i,
    {
        map.insert(start + i as i32, i);
        i = i + 1;
        assert(map@ =~= ndx_entries(start as int, i as nat));
    }
    map
}

// ---------------------------------------------------------------------------
// Statistics
// ---------------------------------------------------------------------------

/// The bytes of the statistics: what was read, what was written, the size of
/// all files, and from protocol 29 on two times, which are not measured.
pub open spec fn stats_bytes(stats: TransferStats, wire: WireFormat) -> Seq<u8> {
    let v = wire.version;
    varlong30_bytes(0, 3, v) + varlong30_bytes(stats.bytes_sent as i64, 3, v) + varlong30_bytes(
        stats.total_size as i64,
        3,
        v,
    ) + (if wire.item_flags() {
        varlong30_bytes(0, 3, v) + varlong30_bytes(0, 3, v)
    } else {
        Seq::empty()
    })
}

/// Write transfer stats.
pub fn write_stats(w: &mut Vec<u8>, stats: &TransferStats, wire: &WireFormat)
    ensures
        final(w)@ == old(w)@ + stats_bytes(*stats, *wire),
{
    write_varlong30(w, 0, 3, wire.version);
    write_varlong30(w, stats.bytes_sent as i64, 3, wire.version);
    write_varlong30(w, stats.total_size as i64, 3, wire.version);
    if wire.has_iflags() {
        write_varlong30(w, 0, 3, wire.version);
        write_varlong30(w, 0, 3, wire.version);
    }
    assert(w@ =~= old(w)@ + stats_bytes(*stats, *wire));
}

/// Where `n` numbers at a position end.
pub open spec fn numbers_at(s: Seq<u8>, p: int, n: nat, version: u8) -> Result<
    int,
    ProtocolErrorView,
>
    decreases n,
{
    if n == 0 {
        Ok(p)
    } else {
        match varlong30_at(s, p, 3, version) {
            Err(e) => Err(e),
            Ok((_, q)) => numbers_at(s, q, (n - 1) as nat, version),
        }
    }
}

/// Where the statistics at a position end.
pub open spec fn stats_at(s: Seq<u8>, p: int, wire: WireFormat) -> Result<int, ProtocolErrorView> {
    numbers_at(
        s,
        p,
        if wire.item_flags() {
            5
        } else {
            3
        },
        wire.version,
    )
}

/// Read transfer stats from the sender. They are not kept.
pub fn read_stats(r: &mut WireReader, wire: &WireFormat) -> (res: Result<(), ProtocolError>)
    requires
        old(r).wf(),
    ensures
        final(r).wf(),
        final(r).buf@ == old(r).buf@,
        match stats_at(old(r).buf@, old(r).pos as int, *wire) {
            Ok(q) => res is Ok && final(r).pos == q,
            Err(e) => res is Err && res->Err_0@ == e,
        },
{
    let ghost s = r.buf@;
    let ghost p0 = r.pos as int;
    let n: usize = if wire.has_iflags() {
        5
    } else {
        3
    };
    let mut i: usize = 0;
    while i < n
        invariant
            i <= n,
            r.wf(),
            r.buf@ == s,
            s == old(r).buf@,
            p0 == old(r).pos,
            n == (if wire.item_flags() {
                5int
            } else {
                3
            }),
            stats_at(s, p0, *wire) == numbers_at(s, r.pos as int, (n - i) as nat, wire.version),
        decreases n - i,
    {
        match read_varlong30(r, 3, wire.version) {
            Err(e) => {
                return Err(e);
            },
            Ok(_) => {},
        }
        i = i + 1;
    }
    Ok(())
}

/// The reader of the statistics stops just where the writer did.
pub proof fn stats_read_back(s: Seq<u8>, p: int, stats: TransferStats, wire: WireFormat)
    requires
        0 <= p,
        holds_at(s, p, stats_bytes(stats, wire)),
    ensures
        stats_at(s, p, wire) == Ok::<int, ProtocolErrorView>(p + stats_bytes(stats, wire).len()),
{
    let v = wire.version;
    let a = varlong30_bytes(0, 3, v);
    let b = varlong30_bytes(stats.bytes_sent as i64, 3, v);
    let c = varlong30_bytes(stats.total_size as i64, 3, v);
    let d = if wire.item_flags() {
        varlong30_bytes(0, 3, v) + varlong30_bytes(0, 3, v)
    } else {
        Seq::empty()
    };
    holds_split(s, p, a + b + c, d);
    holds_split(s, p, a + b, c);
    holds_split(s, p, a, b);
    let n: nat = if wire.item_flags() {
        5
    } else {
        3
    };
    let q = p + a.len() + b.len() + c.len();
    number_read_on(s, p, 0, (n - 1) as nat, v);
    number_read_on(s, p + a.len(), stats.bytes_sent as i64, (n - 2) as nat, v);
    number_read_on(s, p + a.len() + b.len(), stats.total_size as i64, (n - 3) as nat, v);
    if wire.item_flags() {
        holds_split(s, q, a, a);
        number_read_on(s, q, 0, 1, v);
        number_read_on(s, q + a.len(), 0, 0, v);
    }
}

proof fn number_read_on(s: Seq<u8>, p: int, v: i64, n: nat, version: u8)
    requires
        0 <= p,
        holds_at(s, p, varlong30_bytes(v, 3, version)),
    ensures
        numbers_at(s, p, n + 1, version) == numbers_at(
            s,
            p + varlong30_bytes(v, 3, version).len(),
            n,
            version,
        ),
{
    varlong30_read_back(s, p, v, 3, version);
}

// ---------------------------------------------------------------------------
// Phases and goodbyes
// ---------------------------------------------------------------------------

/// One turn of an exchange of end markers.
#[derive(Debug, Clone, Copy, PartialEq, Eq, Structural)]
pub enum Turn {
    /// The end marker is sent.
    Send,
    /// An index is awaited.
    Await,
}

/// The bytes of the end marker.
pub open spec fn done_bytes(version: u8) -> Seq<u8> {
    ndx_bytes(NDX_DONE, NdxState::initial(), version)
}

/// The bytes of the end marker do not depend on the indices before it.
pub proof fn done_is_always_the_same(st: NdxState, version: u8)
    ensures
        ndx_bytes(NDX_DONE, st, version) == done_bytes(version),
{
}

/// The bytes of the end marker.
pub fn done_marker(version: u8) -> (r: Vec<u8>)
    ensures
        r@ == done_bytes(version),
{
    let mut out: Vec<u8> = Vec::new();
    let mut st = NdxState::default();
    write_ndx(&mut out, NDX_DONE, &mut st, version);
    assert(out@ =~= done_bytes(version));
    out
}

/// How often a side sends, or awaits, in an exchange.
pub open spec fn count_of(turns: Seq<Turn>, t: Turn) -> nat
    decreases turns.len(),
{
    if turns.len() == 0 {
        0
    } else {
        count_of(turns.drop_last(), t) + (if turns.last() == t {
            1nat
        } else {
            0
        })
    }
}

/// The turns of a client's sender at the end.
pub open spec fn sender_goodbye_turns(wire: WireFormat) -> Seq<Turn> {
    if wire.exit_sync() {
        seq![Turn::Await, Turn::Send, Turn::Await]
    } else {
        seq![Turn::Await]
    }
}

/// The turns of a client's receiver at the end.
pub open spec fn receiver_goodbye_turns(wire: WireFormat) -> Seq<Turn> {
    if wire.exit_sync() {
        seq![Turn::Send, Turn::Await, Turn::Send, Turn::Send]
    } else {
        seq![Turn::Send, Turn::Await, Turn::Send]
    }
}

/// The turns of a server's sender at the end.
pub open spec fn server_sender_goodbye_turns(wire: WireFormat) -> Seq<Turn> {
    if wire.exit_sync() {
        seq![Turn::Send, Turn::Await, Turn::Await, Turn::Await]
    } else {
        seq![Turn::Send, Turn::Await, Turn::Await]
    }
}

/// The turns of a server's receiver at the end.
pub open spec fn server_receiver_goodbye_turns(wire: WireFormat) -> Seq<Turn> {
    if wire.exit_sync() {
        seq![Turn::Send, Turn::Send]
    } else {
        seq![Turn::Send]
    }
}

/// Rounds of sending and awaiting.
pub open spec fn rounds(n: nat) -> Seq<Turn>
    decreases n,
{
    if n == 0 {
        Seq::empty()
    } else {
        rounds((n - 1) as nat).push(Turn::Send).push(Turn::Await)
    }
}

/// How many rounds a client's receiver goes through: one for each phase and,
/// where lists come directory by directory, one for each list but the first.
pub open spec fn phase_rounds(wire: WireFormat, num_flists: usize) -> int {
    (if wire.incremental && num_flists as u32 > 0 {
        num_flists as u32 - 1
    } else {
        0
    }) + wire.phase_count + 1
}

/// Sender goodbye exchange.
pub fn sender_goodbye(wire: &WireFormat) -> (r: Vec<Turn>)
    ensures
        r@ == sender_goodbye_turns(*wire),
{
    let mut t: Vec<Turn> = Vec::new();
    t.push(Turn::Await);
    if wire.has_error_exit_sync() {
        t.push(Turn::Send);
        t.push(Turn::Await);
    }
    assert(t@ =~= sender_goodbye_turns(*wire));
    t
}

/// Receiver goodbye exchange.
pub fn receiver_goodbye(wire: &WireFormat) -> (r: Vec<Turn>)
    ensures
        r@ == receiver_goodbye_turns(*wire),
{
    let mut t: Vec<Turn> = Vec::new();
    t.push(Turn::Send);
    t.push(Turn::Await);
    t.push(Turn::Send);
    if wire.has_error_exit_sync() {
        t.push(Turn::Send);
    }
    assert(t@ =~= receiver_goodbye_turns(*wire));
    t
}

/// Server-side sender goodbye exchange.
pub fn server_sender_goodbye(wire: &WireFormat) -> (r: Vec<Turn>)
    ensures
        r@ == server_sender_goodbye_turns(*wire),
{
    let mut t: Vec<Turn> = Vec::new();
    t.push(Turn::Send);
    t.push(Turn::Await);
    t.push(Turn::Await);
    if wire.has_error_exit_sync() {
        t.push(Turn::Await);
    }
    assert(t@ =~= server_sender_goodbye_turns(*wire));
    t
}

/// Server-side receiver goodbye exchange.
pub fn server_receiver_goodbye(wire: &WireFormat) -> (r: Vec<Turn>)
    ensures
        r@ == server_receiver_goodbye_turns(*wire),
{
    let mut t: Vec<Turn> = Vec::new();
    t.push(Turn::Send);
    if wire.has_error_exit_sync() {
        t.push(Turn::Send);
    }
    assert(t@ =~= server_receiver_goodbye_turns(*wire));
    t
}

fn push_rounds(t: &mut Vec<Turn>, n: u64)
    ensures
        final(t)@ == old(t)@ + rounds(n as nat),
{
    let ghost had = t@;
    let mut i: u64 = 0;
    assert(had + rounds(0) =~= had);
    while i < n
        invariant
            i <= n,
            t@ == had + rounds(i as nat),
        decreases n - i,
    {
        t.push(Turn::Send);
        t.push(Turn::Await);
        i = i + 1;
        assert(t@ =~= had + rounds(i as nat));
    }
}

/// Receiver-side phase exchange.
pub fn receiver_phase_exchange(wire: &WireFormat, num_flists: usize) -> (r: Vec<Turn>)
    requires
        phase_rounds(*wire, num_flists) <= u32::MAX,
    ensures
        r@ == rounds(phase_rounds(*wire, num_flists) as nat),
{
    let lists: u32 = num_flists as u32;
    let cleanup: u32 = if wire.incremental && lists > 0 {
        lists - 1
    } else {
        0
    };
    let mut t: Vec<Turn> = Vec::new();
    let n: u32 = cleanup + wire.phase_count + 1;
    push_rounds(&mut t, n as u64);
    assert(t@ =~= rounds(n as nat));
    t
}

/// Server-side receiver phase exchange: the sender answers each marker but the
/// last, then sends its own last one.
pub fn server_receiver_phase_exchange(wire: &WireFormat) -> (r: Vec<Turn>)
    ensures
        r@ == rounds(wire.phase_count as nat + 1),
{
    let mut t: Vec<Turn> = Vec::new();
    push_rounds(&mut t, wire.phase_count as u64 + 1);
    assert(t@ =~= rounds(wire.phase_count as nat + 1));
    t
}

/// No side of a goodbye waits in vain: what one awaits, the other sends.
pub proof fn goodbyes_match(wire: WireFormat)
    ensures
        count_of(sender_goodbye_turns(wire), Turn::Await) <= count_of(
            server_receiver_goodbye_turns(wire),
            Turn::Send,
        ),
        count_of(server_receiver_goodbye_turns(wire), Turn::Await) <= count_of(
            sender_goodbye_turns(wire),
            Turn::Send,
        ),
        count_of(receiver_goodbye_turns(wire), Turn::Await) <= count_of(
            server_sender_goodbye_turns(wire),
            Turn::Send,
        ),
        count_of(server_sender_goodbye_turns(wire), Turn::Await) <= count_of(
            receiver_goodbye_turns(wire),
            Turn::Send,
        ),
{
    reveal_with_fuel(count_of, 5);
}

/// In rounds a side sends as often as it awaits.
pub proof fn rounds_balance(n: nat)
    ensures
        count_of(rounds(n), Turn::Send) == n,
        count_of(rounds(n), Turn::Await) == n,
    decreases n,
{
    if n > 0 {
        rounds_balance((n - 1) as nat);
        let r = rounds((n - 1) as nat);
        reveal_with_fuel(count_of, 3);
        assert(rounds(n).drop_last() =~= r.push(Turn::Send));
        assert(r.push(Turn::Send).drop_last() =~= r);
    }
}

} // verus!
