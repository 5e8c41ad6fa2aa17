//! The session-join message that opens play, and the game modes it names.
use crate::bytes::be_bytes;
use crate::nbt::Nbt;
use crate::packet::{frame_bytes, write_packet};
use crate::packet_data::{
    bool_byte, push_all, string_bytes, varint_bytes, write_bool, write_int, write_long,
    write_string, write_varint,
};
use crate::position::{pack_position, Location};
use vstd::prelude::*;

verus! {

#[derive(Debug, Clone, Copy, PartialEq, Eq, Structural)]
pub enum Gamemode {
    Survival,
    Creative,
    Adventure,
    Spectator,
}

/// The wire number of a game mode.
pub open spec fn gamemode_id(g: Gamemode) -> u8 {
    match g {
        Gamemode::Survival => 0,
        Gamemode::Creative => 1,
        Gamemode::Adventure => 2,
        Gamemode::Spectator => 3,
    }
}

impl Gamemode {
    pub fn get_id(&self) -> (r: u8)
        ensures
            r == gamemode_id(*self),
    {
        match self {
            Gamemode::Survival => 0,
            Gamemode::Creative => 1,
            Gamemode::Adventure => 2,
            Gamemode::Spectator => 3,
        }
    }

    /// Appends the game mode's byte.
    pub fn write(&self, buffer: &mut Vec<u8>)
        ensures
            final(buffer)@ == old(buffer)@.push(gamemode_id(*self)),
    {
        buffer.push(self.get_id());
    }
}

/// A game mode that may be absent.
#[derive(Debug, Clone, Copy, PartialEq, Eq, Structural)]
pub enum OptionalGamemode {
    Absent,
    Gamemode(Gamemode),
}

/// The wire byte of an optional game mode: the signed byte -1 when absent.
pub open spec fn optional_gamemode_byte(g: OptionalGamemode) -> u8 {
    match g {
        OptionalGamemode::Absent => 0xff,
        OptionalGamemode::Gamemode(m) => gamemode_id(m),
    }
}

impl OptionalGamemode {
    /// Appends the optional game mode's byte.
    pub fn write(&self, buffer: &mut Vec<u8>)
        ensures
            final(buffer)@ == old(buffer)@.push(optional_gamemode_byte(*self)),
    {
        let id: u8 = match self {
            OptionalGamemode::Absent => 0xff,
            OptionalGamemode::Gamemode(gamemode) => gamemode.get_id(),
        };
        buffer.push(id);
    }
}

/// The message that starts a play session, sent once right after a login
/// success.
pub struct Login {
    pub entity_id: i32,
    pub is_hardcore: bool,
    pub gamemode: Gamemode,
    pub previous_gamemode: OptionalGamemode,
    pub dimensions: Vec<String>,
    /// The pre-serialized registry document, written verbatim.
    pub registry_codec: Vec<u8>,
    pub current_dimension_type: String,
    pub current_dimension_name: String,
    pub hashed_seed: i64,
    pub view_distance: u64,
    pub simulation_distance: u64,
    pub reduced_debug_info: bool,
    pub enable_respawn_screen: bool,
    pub debug_world: bool,
    pub is_flat: bool,
    pub death_location: Option<Location>,
    pub portal_cooldown: u64,
}

/// The message id of the session-join message.
pub const LOGIN_ID: u64 = 0x28;

/// The string fields of `names`, one after another.
pub open spec fn identifiers_bytes(names: Seq<String>) -> Seq<u8>
    decreases names.len(),
{
    if names.len() == 0 {
        Seq::empty()
    } else {
        identifiers_bytes(names.drop_last()) + string_bytes(names.last()@)
    }
}

/// The optional last death location: a flag, then the dimension name and
/// the packed position if present.
pub open spec fn death_location_bytes(l: Option<Location>) -> Seq<u8> {
    match l {
        None => seq![0u8],
        Some(loc) => seq![1u8] + string_bytes(loc.dimension_name@) + be_bytes(
            pack_position(loc.position.x, loc.position.y, loc.position.z) as nat,
            8,
        ),
    }
}

/// The fields of the session-join message before the registry document.
pub open spec fn login_head(l: Login) -> Seq<u8> {
    be_bytes(l.entity_id as u32 as nat, 4) + seq![bool_byte(l.is_hardcore)] + seq![
        gamemode_id(l.gamemode),
    ] + seq![optional_gamemode_byte(l.previous_gamemode)] + varint_bytes(l.dimensions@.len())
        + identifiers_bytes(l.dimensions@)
}

/// The dimension, seed and distance fields of the session-join message.
pub open spec fn login_settings(l: Login) -> Seq<u8> {
    string_bytes(l.current_dimension_type@) + string_bytes(l.current_dimension_name@) + be_bytes(
        l.hashed_seed as u64 as nat,
        8,
    ) + varint_bytes(0) + varint_bytes(l.view_distance as nat) + varint_bytes(
        l.simulation_distance as nat,
    )
}

/// The flag, death location and portal cooldown fields of the session-join
/// message.
pub open spec fn login_flags(l: Login) -> Seq<u8> {
    seq![bool_byte(l.reduced_debug_info)] + seq![bool_byte(l.enable_respawn_screen)] + seq![
        bool_byte(l.debug_world),
    ] + seq![bool_byte(l.is_flat)] + death_location_bytes(l.death_location) + varint_bytes(
        l.portal_cooldown as nat,
    )
}

/// The fields of the session-join message after the registry document.
pub open spec fn login_tail(l: Login) -> Seq<u8> {
    login_settings(l) + login_flags(l)
}

/// The payload of the session-join message: the fields before the registry
/// document, the document verbatim, and the fields after it.
pub open spec fn login_payload(l: Login) -> Seq<u8> {
    login_head(l) + l.registry_codec@ + login_tail(l)
}

/// The session-join payload of the default settings with `registry_codec`
/// as the registry document.
pub open spec fn default_login_payload(registry_codec: Seq<u8>) -> Seq<u8> {
    be_bytes(0, 4) + seq![0u8] + seq![3u8] + seq![0xffu8] + varint_bytes(0) + registry_codec
        + string_bytes("minecraft:overworld"@) + string_bytes("overworld"@) + be_bytes(0, 8)
        + varint_bytes(0) + varint_bytes(2) + varint_bytes(8) + seq![0u8] + seq![1u8] + seq![1u8]
        + seq![0u8] + seq![0u8] + varint_bytes(0)
}

/// Appends the optional last death location.
fn write_death_location(buffer: &mut Vec<u8>, death_location: &Option<Location>)
    ensures
        final(buffer)@ == old(buffer)@ + death_location_bytes(*death_location),
{
    let ghost b0 = buffer@;
    match death_location {
        Some(location) => {
            write_bool(buffer, true);
            write_string(buffer, location.dimension_name.as_str());
            location.position.write(buffer);
        },
        None => write_bool(buffer, false),
    };
    assert(buffer@ =~= b0 + death_location_bytes(*death_location));
}

impl Default for Login {
    /// The session settings this server uses, with the empty document as the
    /// registry.
    fn default() -> (r: Login)
        ensures
            login_payload(r) == default_login_payload(seq![0u8]),
    {
        let mut registry_codec: Vec<u8> = Vec::new();
        Nbt::Empty.write(&mut registry_codec);
        Login::with_registry_codec(registry_codec)
    }
}

impl Login {
    /// The default session settings with `registry_codec` as the
    /// pre-serialized registry document.
    pub fn with_registry_codec(registry_codec: Vec<u8>) -> (r: Login)
        ensures
            login_payload(r) == default_login_payload(registry_codec@),
    {
        let r = Login {
            entity_id: 0,
            is_hardcore: false,
            gamemode: Gamemode::Spectator,
            previous_gamemode: OptionalGamemode::Absent,
            dimensions: Vec::new(),
            registry_codec,
            current_dimension_type: "minecraft:overworld".to_owned(),
            current_dimension_name: "overworld".to_owned(),
            hashed_seed: 0,
            view_distance: 2,
            simulation_distance: 8,
            reduced_debug_info: false,
            enable_respawn_screen: true,
            debug_world: true,
            is_flat: false,
            death_location: None,
            portal_cooldown: 0,
        };
        assert(r.dimensions@ =~= Seq::<String>::empty());
        assert(identifiers_bytes(r.dimensions@) =~= Seq::<u8>::empty());
        assert(login_payload(r) =~= default_login_payload(registry_codec@));
        r
    }

    /// Appends the fields before the registry document.
    fn write_head(&self, buffer: &mut Vec<u8>)
        ensures
            final(buffer)@ == old(buffer)@ + login_head(*self),
    {
        let ghost b0 = buffer@;
        write_int(buffer, self.entity_id);
        write_bool(buffer, self.is_hardcore);
        self.gamemode.write(buffer);
        self.previous_gamemode.write(buffer);
        write_varint(buffer, self.dimensions.len() as u64);
        let ghost b1 = buffer@;
        let mut i: usize = 0;
        while i < self.dimensions.len()
            invariant
                i <= self.dimensions@.len(),
                buffer@ == b1 + identifiers_bytes(self.dimensions@.take(i as int)),
            decreases self.dimensions@.len() - i,
        {
            write_string(buffer, self.dimensions[i].as_str());
            assert(self.dimensions@.take(i as int + 1).drop_last() =~= self.dimensions@.take(
                i as int,
            ));
            i = i + 1;
        }
        assert(self.dimensions@.take(i as int) =~= self.dimensions@);
        assert(buffer@ =~= b0 + login_head(*self));
    }

    /// Appends the dimension, seed and distance fields.
    fn write_settings(&self, buffer: &mut Vec<u8>)
        ensures
            final(buffer)@ == old(buffer)@ + login_settings(*self),
    {
        let ghost b0 = buffer@;
        write_string(buffer, self.current_dimension_type.as_str());
        write_string(buffer, self.current_dimension_name.as_str());
        write_long(buffer, self.hashed_seed);
        write_varint(buffer, 0);
        write_varint(buffer, self.view_distance);
        write_varint(buffer, self.simulation_distance);
        assert(buffer@ =~= b0 + login_settings(*self));
    }

    /// Appends the flag, death location and portal cooldown fields.
    fn write_flags(&self, buffer: &mut Vec<u8>)
        ensures
            final(buffer)@ == old(buffer)@ + login_flags(*self),
    {
        let ghost b0 = buffer@;
        write_bool(buffer, self.reduced_debug_info);
        write_bool(buffer, self.enable_respawn_screen);
        write_bool(buffer, self.debug_world);
        write_bool(buffer, self.is_flat);
        write_death_location(buffer, &self.death_location);
        write_varint(buffer, self.portal_cooldown);
        assert(buffer@ =~= b0 + login_flags(*self));
    }

    /// Appends the session-join frame.
    pub fn write(&self, buffer: &mut Vec<u8>)
        ensures
            final(buffer)@ == old(buffer)@ + frame_bytes(LOGIN_ID as nat, login_payload(*self)),
    {
        let mut packet_data: Vec<u8> = Vec::new();
        self.write_head(&mut packet_data);
        push_all(&mut packet_data, self.registry_codec.as_slice());
        self.write_settings(&mut packet_data);
        self.write_flags(&mut packet_data);
        assert(packet_data@ =~= login_payload(*self));
        write_packet(buffer, LOGIN_ID, packet_data);
    }
}

} // verus!
