//! The per-connection state machine: what each message does in each state.
//!
//! The caller reads a frame, hands it to `handle_packet` with the current
//! state, sends the reply's bytes, and closes the connection when the reply
//! says so or when an error comes back.
use crate::bytes::be_bytes;
use crate::error::ProtocolError;
use crate::handshake::{parse_handshake, Handshake};
use crate::login::{login_success_payload, parse_login_start, LoginStart, LoginSuccess, LOGIN_SUCCESS_ID};
use crate::packet::{frame_bytes, write_packet, Packet};
use crate::packet_data::{lemma_fixed_bound, parse_fixed, push_all, read_long, string_bytes, write_long};
use crate::play::{default_login_payload, Login, LOGIN_ID};
use crate::state::{state_kind, PlayerInfo, State, StateKind};
use crate::status::{StatusResponse, STATUS_RESPONSE_ID};
use vstd::prelude::*;

verus! {

/// The documents that replies embed, rendered outside this library.
pub struct Documents {
    /// The status document, sent as a string field.
    pub status: String,
    /// The registry document of the session-join message, sent verbatim.
    pub registry_codec: Vec<u8>,
    /// The reason sent, verbatim, when a message arrives during play.
    pub disconnect: Vec<u8>,
}

/// What to send back, and whether to close the connection after sending it.
pub struct Reply {
    pub bytes: Vec<u8>,
    pub close: bool,
}

/// The message id of the pong that answers a ping.
pub const PONG_ID: u64 = 0x01;

/// The message id of the disconnect sent during play.
pub const DISCONNECT_ID: u64 = 0x17;

/// Whether a connection in state `k` has an action for message id `id`.
pub open spec fn handles(id: u64, k: StateKind) -> bool {
    match k {
        StateKind::Handshake => id == 0,
        StateKind::Status => id == 0 || id == 1,
        StateKind::Login => id == 0,
        StateKind::Play => true,
    }
}

/// Whether a connection may go from state `a` to state `b`: it stays where
/// it is, leaves the handshake for status or login, or leaves login for play.
pub open spec fn moves_forward(a: StateKind, b: StateKind) -> bool {
    ||| a == b
    ||| a == StateKind::Handshake && (b == StateKind::Status || b == StateKind::Login)
    ||| a == StateKind::Login && b == StateKind::Play
}

/// The reply to a successful login: the login success, then the
/// session-join message.
pub open spec fn login_reply(uuid: u128, name: Seq<char>, registry_codec: Seq<u8>) -> Seq<u8> {
    frame_bytes(LOGIN_SUCCESS_ID as nat, login_success_payload(uuid, name)) + frame_bytes(
        LOGIN_ID as nat,
        default_login_payload(registry_codec),
    )
}

fn copy_bytes(bytes: &Vec<u8>) -> (r: Vec<u8>)
    ensures
        r@ == bytes@,
{
    let mut r: Vec<u8> = Vec::new();
    push_all(&mut r, bytes.as_slice());
    assert(r@ =~= bytes@);
    r
}

/// Takes one received message through the state machine.
pub fn handle_packet(state: &mut State, packet: Packet, documents: &Documents) -> (r: Result<
    Reply,
    ProtocolError,
>)
    ensures
        !handles(packet.id, state_kind(*old(state))) ==> r == Err::<Reply, ProtocolError>(
            ProtocolError::UnexpectedMessage(packet.id, state_kind(*old(state))),
        ),
        packet.id == 0 && state_kind(*old(state)) == StateKind::Handshake ==> match parse_handshake(
            packet.data@,
        ) {
            Ok((h, _)) => r matches Ok(reply) && reply.bytes@.len() == 0 && !reply.close
                && *final(state) == h.next_state,
            Err(e) => r == Err::<Reply, ProtocolError>(e),
        },
        packet.id == 0 && state_kind(*old(state)) == StateKind::Status ==> (r matches Ok(reply)
            && reply.bytes@ == frame_bytes(STATUS_RESPONSE_ID as nat, string_bytes(documents.status@))
            && !reply.close),
        packet.id == 1 && state_kind(*old(state)) == StateKind::Status ==> match parse_fixed(
            packet.data@,
            8,
        ) {
            Ok((token, _)) => r matches Ok(reply) && reply.bytes@ == frame_bytes(
                PONG_ID as nat,
                be_bytes(token, 8),
            ) && reply.close,
            Err(e) => r == Err::<Reply, ProtocolError>(e),
        },
        packet.id == 0 && state_kind(*old(state)) == StateKind::Login ==> match parse_login_start(
            packet.data@,
        ) {
            Ok((l, _)) => match l.uuid {
                Some(u) => (r matches Ok(reply) && reply.bytes@ == login_reply(
                    u,
                    l.name,
                    documents.registry_codec@,
                ) && !reply.close) && (*final(state) matches State::Play(p) && p.name@ == l.name
                    && p.uuid == Some(u)),
                None => r == Err::<Reply, ProtocolError>(ProtocolError::MissingIdentifier),
            },
            Err(e) => r == Err::<Reply, ProtocolError>(e),
        },
        state_kind(*old(state)) == StateKind::Play ==> (r matches Ok(reply) && reply.bytes@
            == frame_bytes(DISCONNECT_ID as nat, documents.disconnect@) && reply.close),
        r is Err || state_kind(*old(state)) == StateKind::Status || state_kind(*old(state))
            == StateKind::Play ==> *final(state) == *old(state),
        moves_forward(state_kind(*old(state)), state_kind(*final(state))),
{
    let kind = state.kind();
    let mut packet = packet;
    match (packet.id, kind) {
        (0, StateKind::Handshake) => {
            let handshake = match Handshake::read(&mut packet) {
                Ok(h) => h,
                Err(e) => return Err(e),
            };
            *state = handshake.next_state;
            Ok(Reply { bytes: Vec::new(), close: false })
        },
        (0, StateKind::Status) => {
            let mut out: Vec<u8> = Vec::new();
            StatusResponse::write(documents.status.as_str(), &mut out);
            assert(out@ =~= frame_bytes(STATUS_RESPONSE_ID as nat, string_bytes(documents.status@)));
            Ok(Reply { bytes: out, close: false })
        },
        (1, StateKind::Status) => {
            let ghost payload = packet.data@;
            proof {
                lemma_fixed_bound(payload, 8);
                reveal_with_fuel(crate::bytes::pow256, 9);
            }
            let ping = match read_long(&mut packet.data) {
                Ok(t) => t,
                Err(e) => return Err(e),
            };
            proof {
                if let Ok((t, _)) = parse_fixed(payload, 8) {
                    let w = t as u64;
                    assert((w as i64) as u64 == w) by (bit_vector);
                }
            }
            let mut pong: Vec<u8> = Vec::new();
            write_long(&mut pong, ping);
            let mut out: Vec<u8> = Vec::new();
            write_packet(&mut out, PONG_ID, pong);
            Ok(Reply { bytes: out, close: true })
        },
        (0, StateKind::Login) => {
            let login_start = match LoginStart::read(&mut packet) {
                Ok(l) => l,
                Err(e) => return Err(e),
            };
            let uuid = match login_start.uuid {
                Some(u) => u,
                None => return Err(ProtocolError::MissingIdentifier),
            };
            let mut out: Vec<u8> = Vec::new();
            let success = LoginSuccess { uuid, username: login_start.name.as_str() };
            success.write(&mut out);
            let login = Login::with_registry_codec(copy_bytes(&documents.registry_codec));
            login.write(&mut out);
            assert(out@ =~= login_reply(uuid, login_start.name@, documents.registry_codec@));
            *state = State::Play(PlayerInfo { name: login_start.name, uuid: Some(uuid) });
            Ok(Reply { bytes: out, close: false })
        },
        (_, StateKind::Play) => {
            let mut out: Vec<u8> = Vec::new();
            write_packet(&mut out, DISCONNECT_ID, copy_bytes(&documents.disconnect));
            assert(out@ =~= frame_bytes(DISCONNECT_ID as nat, documents.disconnect@));
            Ok(Reply { bytes: out, close: true })
        },
        (id, k) => Err(ProtocolError::UnexpectedMessage(id, k)),
    }
}

} // verus!
