//! Transfer engine: what is transferred, when, and how.

pub mod checkpoint;
pub mod concurrent;
pub mod decision_laws;
pub mod delete;
pub mod delete_laws;
pub mod file_decision;
pub mod file_laws;
pub mod fuzzy;
pub mod generator;
pub mod progress;
pub mod progress_laws;
pub mod receiver;
pub mod receiver_engine;
pub mod receiver_laws;
pub mod run_laws;
pub mod sender;
pub mod server_args;
pub mod server_args_laws;
pub mod session;
pub mod session_laws;
pub mod streaming_flist;
pub mod transfer;
pub mod transfer_laws;
pub mod wire_laws;
pub mod wire_receiver;
pub mod wire_sender;
pub mod wire_transfer;
