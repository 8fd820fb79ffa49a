//! File lists: entries, their wire format, and their order.

pub mod attributes;
pub mod codec;
pub mod entry;
pub mod entry_laws;
pub mod exchange;
pub mod groups;
pub mod idlist;
pub mod incremental;
pub mod list;
pub mod list_laws;
pub mod scan_laws;
pub mod scanner;
pub mod sort;
pub mod walk;
pub mod walk_laws;
pub mod xmit;
