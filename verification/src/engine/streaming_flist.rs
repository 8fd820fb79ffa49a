//! File lists whose entries are used while the rest still arrives.

use vstd::prelude::*;

verus! {

/// How many entries wait at most, where nothing else was asked for.
pub const DEFAULT_CAPACITY: usize = 256;

/// Error returned when pushing to a streaming file list whose consumer
/// has been dropped.
#[derive(Debug, Clone, Copy, PartialEq, Eq, Structural)]
pub enum StreamingPushError {
    ReceiverDropped,
}

impl StreamingPushError {
    /// What the error says.
    pub fn message(&self) -> (r: String)
        ensures
            r@ == "streaming file list receiver was dropped"@,
    {
        "streaming file list receiver was dropped".to_owned()
    }
}

} // verus!
