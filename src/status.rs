//! The status response that answers a server-list ping. Its text document is
//! rendered outside this library; the library frames it.
use crate::packet::{frame_bytes, write_packet};
use crate::packet_data::{string_bytes, write_string};
use crate::text::Text;
use crate::{GAME_VERSION, PROTOCOL_VERSION};
use vstd::prelude::*;

verus! {

/// The game release and protocol number a server speaks.
#[derive(Debug)]
pub struct Version {
    pub name: String,
    pub protocol: u64,
}

/// A player listed in the status sample.
#[derive(Debug)]
pub struct Player {
    pub name: String,
    pub id: String,
}

/// How many players a server takes and has, with a sample of them.
#[derive(Debug)]
pub struct Players {
    pub max: u64,
    pub online: u64,
    pub sample: Vec<Player>,
}

/// What a server reports about itself before anyone logs in.
#[derive(Debug)]
pub struct StatusResponse {
    pub version: Version,
    pub players: Players,
    pub description: Text,
    pub favicon: Option<String>,
    pub previews_chat: bool,
    pub enforces_secure_chat: bool,
}

/// The message id of a status response.
pub const STATUS_RESPONSE_ID: u64 = 0x00;

/// The server's name in the status description.
pub const DESCRIPTION: &'static str = "oxidized crafting";

/// The most players the status response announces.
pub const MAX_PLAYERS: u64 = 20;

impl Default for StatusResponse {
    fn default() -> (r: StatusResponse)
        ensures
            r.version.name@ == GAME_VERSION@,
            r.version.protocol == PROTOCOL_VERSION,
            r.players.max == MAX_PLAYERS,
            r.players.online == 0,
            r.players.sample@.len() == 0,
            r.description.text@ == DESCRIPTION@,
            r.favicon is None,
            !r.previews_chat,
            !r.enforces_secure_chat,
    {
        StatusResponse {
            version: Version { name: GAME_VERSION.to_owned(), protocol: PROTOCOL_VERSION },
            players: Players { max: MAX_PLAYERS, online: 0, sample: Vec::new() },
            description: Text::from(DESCRIPTION.to_owned()),
            favicon: None,
            previews_chat: false,
            enforces_secure_chat: false,
        }
    }
}

impl StatusResponse {
    /// Appends the status response frame that carries the rendered text
    /// `document` as a string field.
    pub fn write(document: &str, buffer: &mut Vec<u8>)
        ensures
            final(buffer)@ == old(buffer)@ + frame_bytes(
                STATUS_RESPONSE_ID as nat,
                string_bytes(document@),
            ),
    {
        let mut packet_data: Vec<u8> = Vec::new();
        write_string(&mut packet_data, document);
        assert(packet_data@ =~= string_bytes(document@));
        write_packet(buffer, STATUS_RESPONSE_ID, packet_data);
    }
}

} // verus!
