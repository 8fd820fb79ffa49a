//! Wire protocol: byte streams, integers and session parameters.

pub mod handshake;
pub mod laws;
pub mod sum;
pub mod varint;
pub mod wire;
