//! Wire codec, framing and connection state machine of a Minecraft-style
//! protocol endpoint.

pub mod bytes;
pub mod connection;
pub mod error;
pub mod handshake;
pub mod login;
pub mod nbt;
pub mod packet;
pub mod packet_data;
pub mod play;
pub mod position;
pub mod reader;
pub mod state;
pub mod status;
pub mod text;

use vstd::prelude::*;

verus! {

/// The game release that the status response names.
pub const GAME_VERSION: &'static str = "1.20.1";

/// The one protocol version that a handshake may declare.
pub const PROTOCOL_VERSION: u64 = 763;

} // verus!
