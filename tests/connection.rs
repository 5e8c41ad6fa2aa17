use oxidized_crafting::connection::{handle_packet, Documents};
use oxidized_crafting::error::ProtocolError;
use oxidized_crafting::packet::{write_packet, Packet};
use oxidized_crafting::packet_data::{
    read_long, read_string, read_uuid, read_varint, write_bool, write_long, write_short,
    write_string, write_uuid, write_varint,
};
use oxidized_crafting::reader::Reader;
use oxidized_crafting::state::{LoginState, State, StateKind};
use oxidized_crafting::PROTOCOL_VERSION;

const STATUS_DOCUMENT: &str = "{\"description\":{\"text\":\"oxidized crafting\"}}";
const DISCONNECT_DOCUMENT: &[u8] = b"{\"text\":\"play is not implemented\"}";

fn documents() -> Documents {
    Documents {
        status: String::from(STATUS_DOCUMENT),
        registry_codec: vec![0x0a, 0x00, 0x00, 0x00],
        disconnect: DISCONNECT_DOCUMENT.to_vec(),
    }
}

fn packet(id: u64, payload: Vec<u8>) -> Packet {
    let mut frame = vec![];
    write_packet(&mut frame, id, payload);
    Packet::read(&mut Reader::new(frame)).unwrap()
}

fn handshake(version: u64, next_state: u64) -> Packet {
    let mut payload = vec![];
    write_varint(&mut payload, version);
    write_string(&mut payload, "localhost");
    write_short(&mut payload, 25565);
    write_varint(&mut payload, next_state);
    packet(0x00, payload)
}

fn login_start(name: &str, uuid: Option<u128>) -> Packet {
    let mut payload = vec![];
    write_string(&mut payload, name);
    match uuid {
        Some(u) => {
            write_bool(&mut payload, true);
            write_uuid(&mut payload, u);
        }
        None => write_bool(&mut payload, false),
    }
    packet(0x00, payload)
}

#[test]
fn status_ping_scenario() {
    let docs = documents();
    let mut state = State::Handshake;

    let reply = handle_packet(&mut state, handshake(PROTOCOL_VERSION, 1), &docs).unwrap();
    assert!(reply.bytes.is_empty());
    assert!(!reply.close);
    assert_eq!(state.kind(), StateKind::Status);

    let reply = handle_packet(&mut state, packet(0x00, vec![]), &docs).unwrap();
    assert!(!reply.close);
    let mut sent = Reader::new(reply.bytes);
    let mut response = Packet::read(&mut sent).unwrap();
    assert_eq!(response.id, 0x00);
    assert_eq!(read_string(&mut response.data).unwrap(), STATUS_DOCUMENT);
    assert_eq!(sent.remaining(), 0);
    assert_eq!(state.kind(), StateKind::Status);

    let mut ping = vec![];
    write_long(&mut ping, 0x0102030405060708);
    let reply = handle_packet(&mut state, packet(0x01, ping), &docs).unwrap();
    assert!(reply.close);
    assert_eq!(reply.bytes, vec![9, 0x01, 1, 2, 3, 4, 5, 6, 7, 8]);
    let mut sent = Reader::new(reply.bytes);
    let mut pong = Packet::read(&mut sent).unwrap();
    assert_eq!(pong.id, 0x01);
    assert_eq!(read_long(&mut pong.data).unwrap(), 0x0102030405060708);
}

#[test]
fn version_mismatch_scenario() {
    let docs = documents();
    let mut state = State::Handshake;
    let result = handle_packet(&mut state, handshake(PROTOCOL_VERSION + 1, 1), &docs);
    assert!(matches!(result, Err(ProtocolError::VersionMismatch)));
    assert_eq!(state.kind(), StateKind::Handshake);
}

#[test]
fn login_happy_path_scenario() {
    let docs = documents();
    let uuid: u128 = 0x0123_4567_89ab_cdef_0123_4567_89ab_cdef;
    let mut state = State::Handshake;

    let reply = handle_packet(&mut state, handshake(PROTOCOL_VERSION, 2), &docs).unwrap();
    assert!(reply.bytes.is_empty());
    assert!(matches!(state, State::Login(LoginState::AwaitingLoginStart)));

    let reply = handle_packet(&mut state, login_start("Steve", Some(uuid)), &docs).unwrap();
    assert!(!reply.close);
    let mut sent = Reader::new(reply.bytes);

    let mut success = Packet::read(&mut sent).unwrap();
    assert_eq!(success.id, 0x02);
    assert_eq!(read_uuid(&mut success.data).unwrap(), uuid);
    assert_eq!(read_string(&mut success.data).unwrap(), "Steve");
    assert_eq!(read_varint(&mut success.data).unwrap(), 0);
    assert_eq!(success.data.remaining(), 0);

    let join = Packet::read(&mut sent).unwrap();
    assert_eq!(join.id, 0x28);
    assert_eq!(sent.remaining(), 0);

    match &state {
        State::Play(info) => {
            assert_eq!(info.name, "Steve");
            assert_eq!(info.uuid, Some(uuid));
        }
        _ => panic!("the login did not reach play"),
    }
    assert_eq!(state.username(), Some("Steve"));
}

#[test]
fn any_message_in_play_disconnects() {
    let docs = documents();
    let mut state = State::Handshake;
    handle_packet(&mut state, handshake(PROTOCOL_VERSION, 2), &docs).unwrap();
    handle_packet(&mut state, login_start("Alex", Some(7)), &docs).unwrap();

    let reply = handle_packet(&mut state, packet(0x42, vec![1, 2, 3]), &docs).unwrap();
    assert!(reply.close);
    let mut sent = Reader::new(reply.bytes);
    let mut disconnect = Packet::read(&mut sent).unwrap();
    assert_eq!(disconnect.id, 0x17);
    assert_eq!(disconnect.data.take_rest(), DISCONNECT_DOCUMENT.to_vec());
    assert_eq!(state.username(), Some("Alex"));
}

#[test]
fn invalid_next_state_is_rejected() {
    let docs = documents();
    let mut state = State::Handshake;
    let result = handle_packet(&mut state, handshake(PROTOCOL_VERSION, 3), &docs);
    assert!(matches!(result, Err(ProtocolError::InvalidNextState)));
    assert_eq!(state.kind(), StateKind::Handshake);
}

#[test]
fn login_without_identifier_is_rejected() {
    let docs = documents();
    let mut state = State::Login(LoginState::AwaitingLoginStart);
    let result = handle_packet(&mut state, login_start("Steve", None), &docs);
    assert!(matches!(result, Err(ProtocolError::MissingIdentifier)));
    assert_eq!(state.kind(), StateKind::Login);
    assert_eq!(state.username(), None);
}

#[test]
fn unexpected_messages_leave_the_state_alone() {
    let docs = documents();
    let mut state = State::Handshake;
    let result = handle_packet(&mut state, packet(0x01, vec![]), &docs);
    assert!(matches!(
        result,
        Err(ProtocolError::UnexpectedMessage(0x01, StateKind::Handshake))
    ));
    assert_eq!(state.kind(), StateKind::Handshake);

    let mut state = State::Status;
    let result = handle_packet(&mut state, packet(0x02, vec![]), &docs);
    assert!(matches!(
        result,
        Err(ProtocolError::UnexpectedMessage(0x02, StateKind::Status))
    ));
    assert_eq!(state.kind(), StateKind::Status);

    let mut state = State::Login(LoginState::AwaitingLoginStart);
    let result = handle_packet(&mut state, packet(0x01, vec![]), &docs);
    assert!(matches!(
        result,
        Err(ProtocolError::UnexpectedMessage(0x01, StateKind::Login))
    ));
    assert_eq!(state.kind(), StateKind::Login);
}

#[test]
fn truncated_ping_is_rejected() {
    let docs = documents();
    let mut state = State::Status;
    let result = handle_packet(&mut state, packet(0x01, vec![1, 2, 3]), &docs);
    assert!(matches!(result, Err(ProtocolError::Truncated)));
}
