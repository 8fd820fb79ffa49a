//! Transfer options that affect the file list wire format.

use vstd::prelude::*;

use crate::options::{OptionsView, TransferConfig, TransferOptions};
use crate::protocol::handshake::{NegotiatedProtocol, ID0_NAMES};

verus! {

/// Options that control which fields are present in the file list wire format.
#[derive(Debug, Clone, Copy, PartialEq, Eq, Structural)]
pub struct FileListOptions {
    /// Negotiated protocol version.
    pub protocol_version: u8,
    /// True if XMIT flags are sent as varints (only from protocol 30 on).
    pub xfer_flags_as_varint: bool,
    /// True if uid is preserved (-o).
    pub preserve_uid: bool,
    /// True if gid is preserved (-g).
    pub preserve_gid: bool,
    /// True if device files are preserved (--devices).
    pub preserve_devices: bool,
    /// True if special files are preserved (--specials).
    pub preserve_specials: bool,
    /// True if symlinks are preserved (-l).
    pub preserve_links: bool,
    /// True if hard links are preserved (-H).
    pub preserve_hard_links: bool,
    /// True if always computing checksums (-c).
    pub always_checksum: bool,
    /// Length of the file-level checksum (typically 16 for MD4/MD5).
    pub checksum_len: usize,
    /// Whether to send/expect uid 0/gid 0 name entries after the id list
    /// terminator.
    pub xmit_id0_names: bool,
    /// True if `--numeric-ids` is active. When set, uid/gid name lists
    /// are not exchanged on the wire.
    pub numeric_ids: bool,
}

impl FileListOptions {
    /// Flags are sent as varints from protocol 30 on only.
    pub open spec fn wf(self) -> bool {
        self.xfer_flags_as_varint ==> self.protocol_version >= 30
    }

    /// Before protocol 30 an error code follows the list.
    pub open spec fn trailing_io_error(self) -> bool {
        self.protocol_version < 30
    }

    /// The options of a negotiated session.
    pub open spec fn negotiated(p: NegotiatedProtocol, o: OptionsView) -> FileListOptions {
        FileListOptions {
            protocol_version: p.version,
            xfer_flags_as_varint: p.varint_flags(),
            preserve_uid: o.archive.preserve_owner,
            preserve_gid: o.archive.preserve_group || o.archive.preserve_owner,
            preserve_devices: o.archive.preserve_devices,
            preserve_specials: o.archive.preserve_specials,
            preserve_links: o.archive.preserve_links,
            preserve_hard_links: o.tree.preserve_hard_links,
            always_checksum: o.behavior.checksum_mode,
            checksum_len: p.checksum.spec_digest_len(),
            xmit_id0_names: p.id0_names(),
            numeric_ids: o.tree.numeric_ids,
        }
    }

    /// Create codec options from a negotiated protocol and transfer options.
    pub fn from_protocol(proto: &NegotiatedProtocol, opts: &TransferConfig) -> (r: FileListOptions)
        ensures
            r == FileListOptions::negotiated(*proto, opts@),
            r.wf(),
    {
        FileListOptions {
            protocol_version: proto.version,
            xfer_flags_as_varint: proto.varint_flist_flags(),
            preserve_uid: opts.preserve_owner(),
            preserve_gid: opts.preserve_group() || opts.preserve_owner(),
            preserve_devices: opts.preserve_devices(),
            preserve_specials: opts.preserve_specials(),
            preserve_links: opts.preserve_links(),
            preserve_hard_links: opts.preserve_hard_links(),
            always_checksum: opts.checksum_mode(),
            checksum_len: proto.checksum.digest_len(),
            xmit_id0_names: proto.compat_flags & ID0_NAMES != 0,
            numeric_ids: opts.numeric_ids(),
        }
    }

    /// Create codec options from a negotiated protocol and transfer options.
    pub fn from_protocol_legacy(proto: &NegotiatedProtocol, opts: &TransferOptions) -> (r:
        FileListOptions)
        ensures
            r == FileListOptions::negotiated(*proto, opts@),
            r.wf(),
    {
        Self::from_protocol(proto, opts)
    }

    /// The options before anything was negotiated.
    pub open spec fn initial() -> FileListOptions {
        FileListOptions {
            protocol_version: 31,
            xfer_flags_as_varint: true,
            preserve_uid: false,
            preserve_gid: false,
            preserve_devices: false,
            preserve_specials: false,
            preserve_links: false,
            preserve_hard_links: false,
            always_checksum: false,
            checksum_len: 16,
            xmit_id0_names: true,
            numeric_ids: false,
        }
    }
}

impl Default for FileListOptions {
    fn default() -> (r: Self)
        ensures
            r == FileListOptions::initial(),
            r.wf(),
    {
        FileListOptions {
            protocol_version: 31,
            xfer_flags_as_varint: true,
            preserve_uid: false,
            preserve_gid: false,
            preserve_devices: false,
            preserve_specials: false,
            preserve_links: false,
            preserve_hard_links: false,
            always_checksum: false,
            checksum_len: 16,
            xmit_id0_names: true,
            numeric_ids: false,
        }
    }
}

} // verus!
