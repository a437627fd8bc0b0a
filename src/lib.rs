//! Move synchronisation for a two-player networked chess game: the wire
//! codec of the protocol messages, the connection handshake, the guarded
//! shared board and the per-role decisions of the relay.

pub mod board;
pub mod codec;
pub mod handshake;
pub mod relay;
pub mod wire;
