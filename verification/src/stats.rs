//! What a transfer has done, in numbers.

use vstd::prelude::*;

verus! {

/// Transfer statistics.
#[derive(Debug, Clone, Copy, PartialEq, Eq, Structural)]
pub struct TransferStats {
    /// Files in the list.
    pub total_files: u64,
    /// Files that were transferred, linked or copied.
    pub files_transferred: u64,
    /// Files that were up to date.
    pub files_skipped: u64,
    /// Files that were deleted on the receiver.
    pub files_deleted: u64,
    /// Directories that were created.
    pub directories_created: u64,
    /// Symbolic links that were created.
    pub symlinks: u64,
    /// Size of the transferred files.
    pub total_size: u64,
    /// Bytes that were sent as they are.
    pub literal_data: u64,
    /// Bytes that were found on the receiver.
    pub matched_data: u64,
    /// Bytes sent.
    pub bytes_sent: u64,
    /// Bytes received.
    pub bytes_received: u64,
}

impl TransferStats {
    /// Nothing done yet.
    pub open spec fn zero() -> TransferStats {
        TransferStats {
            total_files: 0,
            files_transferred: 0,
            files_skipped: 0,
            files_deleted: 0,
            directories_created: 0,
            symlinks: 0,
            total_size: 0,
            literal_data: 0,
            matched_data: 0,
            bytes_sent: 0,
            bytes_received: 0,
        }
    }

    /// Both together.
    pub open spec fn plus(self, d: TransferStats) -> TransferStats {
        TransferStats {
            total_files: (self.total_files + d.total_files) as u64,
            files_transferred: (self.files_transferred + d.files_transferred) as u64,
            files_skipped: (self.files_skipped + d.files_skipped) as u64,
            files_deleted: (self.files_deleted + d.files_deleted) as u64,
            directories_created: (self.directories_created + d.directories_created) as u64,
            symlinks: (self.symlinks + d.symlinks) as u64,
            total_size: (self.total_size + d.total_size) as u64,
            literal_data: (self.literal_data + d.literal_data) as u64,
            matched_data: (self.matched_data + d.matched_data) as u64,
            bytes_sent: (self.bytes_sent + d.bytes_sent) as u64,
            bytes_received: (self.bytes_received + d.bytes_received) as u64,
        }
    }

    /// Both together fit the counters.
    pub open spec fn fits(self, d: TransferStats) -> bool {
        &&& self.total_files + d.total_files <= u64::MAX
        &&& self.files_transferred + d.files_transferred <= u64::MAX
        &&& self.files_skipped + d.files_skipped <= u64::MAX
        &&& self.files_deleted + d.files_deleted <= u64::MAX
        &&& self.directories_created + d.directories_created <= u64::MAX
        &&& self.symlinks + d.symlinks <= u64::MAX
        &&& self.total_size + d.total_size <= u64::MAX
        &&& self.literal_data + d.literal_data <= u64::MAX
        &&& self.matched_data + d.matched_data <= u64::MAX
        &&& self.bytes_sent + d.bytes_sent <= u64::MAX
        &&& self.bytes_received + d.bytes_received <= u64::MAX
    }

    /// Nothing done yet.
    pub fn new() -> (r: TransferStats)
        ensures
            r == TransferStats::zero(),
    {
        TransferStats {
            total_files: 0,
            files_transferred: 0,
            files_skipped: 0,
            files_deleted: 0,
            directories_created: 0,
            symlinks: 0,
            total_size: 0,
            literal_data: 0,
            matched_data: 0,
            bytes_sent: 0,
            bytes_received: 0,
        }
    }

    /// Whether the counters can take what one step has done.
    pub fn can_record(&self, d: &TransferStats) -> (r: bool)
        ensures
            r == self.fits(*d),
    {
        d.total_files <= u64::MAX - self.total_files && d.files_transferred <= u64::MAX
            - self.files_transferred && d.files_skipped <= u64::MAX - self.files_skipped
            && d.files_deleted <= u64::MAX - self.files_deleted && d.directories_created
            <= u64::MAX - self.directories_created && d.symlinks <= u64::MAX - self.symlinks
            && d.total_size <= u64::MAX - self.total_size && d.literal_data <= u64::MAX
            - self.literal_data && d.matched_data <= u64::MAX - self.matched_data
            && d.bytes_sent <= u64::MAX - self.bytes_sent && d.bytes_received <= u64::MAX
            - self.bytes_received
    }

    /// Adds what one step has done.
    pub fn record(&mut self, d: TransferStats)
        requires
            old(self).fits(d),
        ensures
            *final(self) == old(self).plus(d),
    {
        self.total_files = self.total_files + d.total_files;
        self.files_transferred = self.files_transferred + d.files_transferred;
        self.files_skipped = self.files_skipped + d.files_skipped;
        self.files_deleted = self.files_deleted + d.files_deleted;
        self.directories_created = self.directories_created + d.directories_created;
        self.symlinks = self.symlinks + d.symlinks;
        self.total_size = self.total_size + d.total_size;
        self.literal_data = self.literal_data + d.literal_data;
        self.matched_data = self.matched_data + d.matched_data;
        self.bytes_sent = self.bytes_sent + d.bytes_sent;
        self.bytes_received = self.bytes_received + d.bytes_received;
    }
}

} // verus!
