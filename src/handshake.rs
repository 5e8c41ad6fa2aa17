//! The handshake that opens every connection.
use crate::error::ProtocolError;
use crate::packet::Packet;
use crate::packet_data::{parse_fixed, parse_string, parse_varint, read_short, read_string, read_varint};
use crate::state::{LoginState, State};
use crate::PROTOCOL_VERSION;
use vstd::prelude::*;

verus! {

/// The first message of a connection.
#[derive(Debug)]
pub struct Handshake {
    pub protocol_version: u64,
    pub address: String,
    pub port: u16,
    pub next_state: State,
}

/// What a handshake holds, as plain values.
pub struct HandshakeView {
    pub protocol_version: nat,
    pub address: Seq<char>,
    pub port: nat,
    pub next_state: State,
}

/// The state that a handshake's request number asks for, if any.
pub open spec fn requested_state(n: nat) -> Option<State> {
    if n == 1 {
        Some(State::Status)
    } else if n == 2 {
        Some(State::Login(LoginState::AwaitingLoginStart))
    } else {
        None
    }
}

/// A handshake at the front of `s`, and the bytes after it. The protocol
/// version is checked before anything after it is decoded.
pub open spec fn parse_handshake(s: Seq<u8>) -> Result<(HandshakeView, Seq<u8>), ProtocolError> {
    match parse_varint(s) {
        Err(e) => Err(e),
        Ok((version, k1)) => {
            if version != PROTOCOL_VERSION {
                Err(ProtocolError::VersionMismatch)
            } else {
                let s1 = s.skip(k1 as int);
                match parse_string(s1) {
                    Err(e) => Err(e),
                    Ok((address, k2)) => {
                        let s2 = s1.skip(k2 as int);
                        match parse_fixed(s2, 2) {
                            Err(e) => Err(e),
                            Ok((port, k3)) => {
                                let s3 = s2.skip(k3 as int);
                                match parse_varint(s3) {
                                    Err(e) => Err(e),
                                    Ok((next, k4)) => match requested_state(next) {
                                        None => Err(ProtocolError::InvalidNextState),
                                        Some(next_state) => Ok(
                                            (
                                                HandshakeView {
                                                    protocol_version: version,
                                                    address,
                                                    port,
                                                    next_state,
                                                },
                                                s3.skip(k4 as int),
                                            ),
                                        ),
                                    },
                                }
                            },
                        }
                    },
                }
            }
        },
    }
}

impl Handshake {
    /// Decodes a handshake from the payload of `packet`.
    pub fn read(packet: &mut Packet) -> (r: Result<Handshake, ProtocolError>)
        ensures
            final(packet).id == old(packet).id,
            match parse_handshake(old(packet).data@) {
                Ok((h, rest)) => r matches Ok(hs) && hs.protocol_version == h.protocol_version
                    && hs.address@ == h.address && hs.port == h.port && hs.next_state
                    == h.next_state && final(packet).data@ == rest,
                Err(e) => r matches Err(e2) && e2 == e,
            },
    {
        let protocol_version = match read_varint(&mut packet.data) {
            Ok(v) => v,
            Err(e) => return Err(e),
        };
        proof {
            crate::packet_data::lemma_parse_varint_bound(old(packet).data@);
        }
        if protocol_version != PROTOCOL_VERSION {
            return Err(ProtocolError::VersionMismatch);
        }
        let address = match read_string(&mut packet.data) {
            Ok(a) => a,
            Err(e) => return Err(e),
        };
        proof {
            crate::packet_data::lemma_fixed_bound(packet.data@, 2);
            reveal_with_fuel(crate::bytes::pow256, 3);
        }
        let port = match read_short(&mut packet.data) {
            Ok(p) => p,
            Err(e) => return Err(e),
        };
        let ghost before_next = packet.data@;
        let requested = match read_varint(&mut packet.data) {
            Ok(n) => n,
            Err(e) => return Err(e),
        };
        proof {
            crate::packet_data::lemma_parse_varint_bound(before_next);
        }
        let next_state = if requested == 1 {
            State::Status
        } else if requested == 2 {
            State::Login(LoginState::AwaitingLoginStart)
        } else {
            return Err(ProtocolError::InvalidNextState);
        };
        Ok(Handshake { protocol_version, address, port, next_state })
    }
}

} // verus!
