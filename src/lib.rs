//! Core of a small game server: the VarInt codec, big-endian wire fields,
//! packet framing and the packet catalogue, the per-connection state machine,
//! and the decisions of the tick scheduler over the client registry.

pub mod varint;
pub mod wire;
pub mod packet;
pub mod packets;
pub mod registry;
pub mod response_data;
pub mod session;
