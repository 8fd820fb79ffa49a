//! The protocol and decision core of an rsync-compatible file synchroniser.

pub mod engine;
pub mod error;
pub mod error_text;
pub mod filelist;
pub mod filter;
pub mod fs;
pub mod options;
pub mod options_laws;
pub mod order;
pub mod path;
pub mod path_laws;
pub mod protocol;
pub mod stats;
pub mod text;
