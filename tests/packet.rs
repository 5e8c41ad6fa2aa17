use oxidized_crafting::error::ProtocolError;
use oxidized_crafting::packet::{write_packet, Packet};
use oxidized_crafting::packet_data::{read_varint, write_varint};
use oxidized_crafting::reader::Reader;

#[test]
fn test_packet() {
    let data = 56789;
    let mut data_buf = vec![];
    write_varint(&mut data_buf, data);

    let mut packet_buf = vec![];
    write_packet(&mut packet_buf, 0x1234, data_buf);

    let mut cursor = Reader::new(packet_buf);
    let mut packet = Packet::read(&mut cursor).unwrap();

    assert_eq!(data, read_varint(&mut packet.data).unwrap());
}

#[test]
fn frame_layout() {
    let mut buf = vec![];
    write_packet(&mut buf, 0x01, vec![0xaa, 0xbb]);
    assert_eq!(buf, vec![3, 0x01, 0xaa, 0xbb]);
}

#[test]
fn frame_round_trip_keeps_id_and_payload() {
    let payload: Vec<u8> = (0..200u8).collect();
    let mut buf = vec![];
    write_packet(&mut buf, 300, payload.clone());
    write_packet(&mut buf, 0, vec![]);
    let mut cursor = Reader::new(buf);
    let mut first = Packet::read(&mut cursor).unwrap();
    assert_eq!(first.id, 300);
    assert_eq!(first.data.take_rest(), payload);
    let mut second = Packet::read(&mut cursor).unwrap();
    assert_eq!(second.id, 0);
    assert_eq!(second.data.take_rest(), Vec::<u8>::new());
    assert_eq!(cursor.remaining(), 0);
}

#[test]
fn frame_shorter_than_its_length_is_truncated() {
    let mut cursor = Reader::new(vec![5, 0x00, 1, 2]);
    assert!(matches!(Packet::read(&mut cursor), Err(ProtocolError::Truncated)));
    assert_eq!(cursor.remaining(), 4);
}

#[test]
fn frame_without_an_id_is_truncated() {
    let mut cursor = Reader::new(vec![0]);
    assert!(matches!(Packet::read(&mut cursor), Err(ProtocolError::Truncated)));
}

#[test]
fn frame_with_an_overlong_length_overflows() {
    let mut cursor = Reader::new(vec![0x80, 0x80, 0x80, 0x80, 0x80, 0x01]);
    assert!(matches!(Packet::read(&mut cursor), Err(ProtocolError::VarIntOverflow)));
}
