use oxidized_crafting::nbt::Nbt;
use oxidized_crafting::packet::Packet;
use oxidized_crafting::play::{Gamemode, Login, OptionalGamemode};
use oxidized_crafting::reader::Reader;
use oxidized_crafting::position::{Location, Position};
use oxidized_crafting::text::Text;

#[test]
fn gamemode_ids() {
    assert_eq!(Gamemode::Survival.get_id(), 0);
    assert_eq!(Gamemode::Creative.get_id(), 1);
    assert_eq!(Gamemode::Adventure.get_id(), 2);
    assert_eq!(Gamemode::Spectator.get_id(), 3);
    let mut buf = vec![];
    Gamemode::Adventure.write(&mut buf);
    OptionalGamemode::Absent.write(&mut buf);
    OptionalGamemode::Gamemode(Gamemode::Creative).write(&mut buf);
    assert_eq!(buf, vec![2, 0xff, 1]);
}

#[test]
fn empty_nbt_is_one_end_tag() {
    let mut buf = vec![];
    Nbt::Empty.write(&mut buf);
    assert_eq!(buf, vec![0]);
}

#[test]
fn text_from_string() {
    let text = Text::from(String::from("hello"));
    assert_eq!(text.text, "hello");
}

fn expected_default_payload(registry_codec: &[u8]) -> Vec<u8> {
    let mut p = vec![0, 0, 0, 0, 0, 3, 0xff, 0];
    p.extend_from_slice(registry_codec);
    p.push(19);
    p.extend_from_slice(b"minecraft:overworld");
    p.push(9);
    p.extend_from_slice(b"overworld");
    p.extend_from_slice(&[0, 0, 0, 0, 0, 0, 0, 0]);
    p.extend_from_slice(&[0, 2, 8, 0, 1, 1, 0, 0, 0]);
    p
}

#[test]
fn default_session_join_bytes() {
    let mut buf = vec![];
    Login::default().write(&mut buf);
    let mut sent = Reader::new(buf);
    let mut join = Packet::read(&mut sent).unwrap();
    assert_eq!(join.id, 0x28);
    assert_eq!(join.data.take_rest(), expected_default_payload(&[0]));
}

#[test]
fn session_join_embeds_the_registry_document_verbatim() {
    let codec = vec![0x0a, 0x00, 0x03, b'a', b'b', b'c', 0x00];
    let mut buf = vec![];
    Login::with_registry_codec(codec.clone()).write(&mut buf);
    let mut join = Packet::read(&mut Reader::new(buf)).unwrap();
    assert_eq!(join.data.take_rest(), expected_default_payload(&codec));
}

#[test]
fn session_join_with_dimensions_and_death_location() {
    let mut login = Login::default();
    login.dimensions = vec![String::from("minecraft:overworld")];
    login.death_location = Some(Location {
        position: Position::new(1, 2, 3),
        dimension_name: String::from("nether"),
    });
    login.portal_cooldown = 300;
    let mut buf = vec![];
    login.write(&mut buf);
    let mut join = Packet::read(&mut Reader::new(buf)).unwrap();
    let payload = join.data.take_rest();
    assert_eq!(payload[7], 1);
    assert_eq!(payload[8], 19);
    assert_eq!(&payload[9..28], b"minecraft:overworld");
    let tail = &payload[payload.len() - 18..];
    assert_eq!(tail[0], 1);
    assert_eq!(tail[1], 6);
    assert_eq!(&tail[2..8], b"nether");
    let packed = (1u64 << 38) | (3u64 << 12) | 2;
    assert_eq!(&tail[8..16], &packed.to_be_bytes());
    assert_eq!(&tail[16..18], &[0xac, 0x02]);
}
