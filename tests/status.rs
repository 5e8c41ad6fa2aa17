use oxidized_crafting::packet::Packet;
use oxidized_crafting::packet_data::read_string;
use oxidized_crafting::reader::Reader;
use oxidized_crafting::status::StatusResponse;
use oxidized_crafting::{GAME_VERSION, PROTOCOL_VERSION};

fn render(status: &StatusResponse) -> String {
    format!(
        "{{\"version\":{{\"name\":\"{}\",\"protocol\":{}}},\"players\":{{\"max\":{},\"online\":{}}},\"description\":{{\"text\":\"{}\"}},\"previewsChat\":{},\"enforcesSecureChat\":{}}}",
        status.version.name,
        status.version.protocol,
        status.players.max,
        status.players.online,
        status.description.text,
        status.previews_chat,
        status.enforces_secure_chat
    )
}

#[test]
fn test_status() {
    let status = StatusResponse::default();
    let status_json = render(&status);
    let mut packet_buf = vec![];
    StatusResponse::write(&status_json, &mut packet_buf);

    let mut cursor = Reader::new(packet_buf);
    let mut packet = Packet::read(&mut cursor).unwrap();

    assert_eq!(0x00, packet.id);
    assert_eq!(status_json, read_string(&mut packet.data).unwrap());
}

#[test]
fn default_status_values() {
    let status = StatusResponse::default();
    assert_eq!(status.version.name, GAME_VERSION);
    assert_eq!(status.version.protocol, PROTOCOL_VERSION);
    assert_eq!(status.players.max, 20);
    assert_eq!(status.players.online, 0);
    assert!(status.players.sample.is_empty());
    assert_eq!(status.description.text, "oxidized crafting");
    assert!(status.favicon.is_none());
    assert!(!status.previews_chat);
    assert!(!status.enforces_secure_chat);
}
