//! The packet catalogue, by connection state.

pub mod handshake;
pub mod login;
pub mod play;
