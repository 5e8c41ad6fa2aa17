use oxidized_crafting::position::Position;
use oxidized_crafting::reader::Reader;

#[test]
fn position_packs_fields_in_place() {
    let p = Position::new(1, 2, 3);
    assert_eq!(p.packed(), (1u64 << 38) | (3u64 << 12) | 2);
    let q = Position::new(-1, -1, -1);
    assert_eq!(q.packed(), u64::MAX);
}

#[test]
fn position_round_trips_with_negative_values() {
    let cases = [
        (0, 0, 0),
        (1, 2, 3),
        (-1, -1, -1),
        (-33554432, -2048, -33554432),
        (33554431, 2047, 33554431),
        (-12345, 64, 987654),
    ];
    for (x, y, z) in cases {
        let p = Position::new(x, y, z);
        assert_eq!(Position::from_packed(p.packed()), p);
        let mut buf = vec![];
        p.write(&mut buf);
        assert_eq!(buf.len(), 8);
        assert_eq!(Position::read(&mut Reader::new(buf)), Ok(p));
    }
}

#[test]
fn position_is_written_big_endian() {
    let mut buf = vec![];
    Position::new(1, 0, 0).write(&mut buf);
    assert_eq!(buf, vec![0, 0, 0, 0x40, 0, 0, 0, 0]);
}
