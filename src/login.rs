//! The login exchange: the client's login start and the server's login
//! success.
use crate::bytes::be_bytes;
use crate::error::ProtocolError;
use crate::packet::{frame_bytes, write_packet, Packet};
use crate::packet_data::{
    lemma_fixed_bound, parse_bool, parse_fixed, parse_string, read_bool, read_string, read_uuid,
    string_bytes, varint_bytes, write_string, write_uuid, write_varint,
};
use vstd::prelude::*;

verus! {

/// The client's request to log in.
#[derive(Debug)]
pub struct LoginStart {
    pub name: String,
    pub uuid: Option<u128>,
}

/// What a login start holds, as plain values.
pub struct LoginStartView {
    pub name: Seq<char>,
    pub uuid: Option<u128>,
}

/// A login start at the front of `s`, and the bytes after it: the player's
/// name, then a flag, then the identifier if the flag is set.
pub open spec fn parse_login_start(s: Seq<u8>) -> Result<(LoginStartView, Seq<u8>), ProtocolError> {
    match parse_string(s) {
        Err(e) => Err(e),
        Ok((name, k1)) => {
            let s1 = s.skip(k1 as int);
            match parse_bool(s1) {
                Err(e) => Err(e),
                Ok((false, k2)) => Ok((LoginStartView { name, uuid: None }, s1.skip(k2 as int))),
                Ok((true, k2)) => {
                    let s2 = s1.skip(k2 as int);
                    match parse_fixed(s2, 16) {
                        Err(e) => Err(e),
                        Ok((id, k3)) => Ok(
                            (LoginStartView { name, uuid: Some(id as u128) }, s2.skip(k3 as int)),
                        ),
                    }
                },
            }
        },
    }
}

impl LoginStart {
    /// Decodes a login start from the payload of `packet`.
    pub fn read(packet: &mut Packet) -> (r: Result<LoginStart, ProtocolError>)
        ensures
            final(packet).id == old(packet).id,
            match parse_login_start(old(packet).data@) {
                Ok((l, rest)) => r matches Ok(ls) && ls.name@ == l.name && ls.uuid == l.uuid
                    && final(packet).data@ == rest,
                Err(e) => r matches Err(e2) && e2 == e,
            },
    {
        let name = match read_string(&mut packet.data) {
            Ok(n) => n,
            Err(e) => return Err(e),
        };
        let has_uuid = match read_bool(&mut packet.data) {
            Ok(b) => b,
            Err(e) => return Err(e),
        };
        if has_uuid {
            proof {
                lemma_fixed_bound(packet.data@, 16);
            }
            match read_uuid(&mut packet.data) {
                Ok(id) => Ok(LoginStart { name, uuid: Some(id) }),
                Err(e) => Err(e),
            }
        } else {
            Ok(LoginStart { name, uuid: None })
        }
    }
}

/// The server's acceptance of a login.
pub struct LoginSuccess<'a> {
    pub uuid: u128,
    pub username: &'a str,
}

/// The payload of a login success: the identifier, the name, and an empty
/// list of properties.
pub open spec fn login_success_payload(uuid: u128, username: Seq<char>) -> Seq<u8> {
    be_bytes(uuid as nat, 16) + string_bytes(username) + varint_bytes(0)
}

/// The message id of a login success.
pub const LOGIN_SUCCESS_ID: u64 = 0x02;

impl<'a> LoginSuccess<'a> {
    /// Appends the login success frame.
    pub fn write(&self, buffer: &mut Vec<u8>)
        ensures
            final(buffer)@ == old(buffer)@ + frame_bytes(
                LOGIN_SUCCESS_ID as nat,
                login_success_payload(self.uuid, self.username@),
            ),
    {
        let mut packet_data: Vec<u8> = Vec::new();
        write_uuid(&mut packet_data, self.uuid);
        write_string(&mut packet_data, self.username);
        write_varint(&mut packet_data, 0);
        assert(packet_data@ =~= login_success_payload(self.uuid, self.username@));
        write_packet(buffer, LOGIN_SUCCESS_ID, packet_data);
    }
}

} // verus!
