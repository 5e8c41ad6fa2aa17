//! Block positions packed into one 64-bit big-endian field.
use crate::bytes::be_bytes;
use crate::error::ProtocolError;
use crate::packet_data::{parse_fixed, read_long, write_long};
use crate::reader::Reader;
use vstd::prelude::*;

verus! {

/// A block position. The wire form keeps 26 bits of `x` and `z` and 12 bits
/// of `y`.
#[derive(Debug, Clone, Copy, PartialEq, Eq, Structural)]
pub struct Position {
    pub x: i32,
    pub y: i16,
    pub z: i32,
}

/// A position in a named dimension.
#[derive(Debug)]
pub struct Location {
    pub position: Position,
    pub dimension_name: String,
}

/// The packed form: `x` in bits 63 to 38, `z` in bits 37 to 12 and `y` in
/// bits 11 to 0, each in two's complement of its width.
pub open spec fn pack_position(x: i32, y: i16, z: i32) -> u64 {
    (((x as u64) & 0x3ff_ffff) << 38u64) | (((z as u64) & 0x3ff_ffff) << 12u64) | ((y as u64)
        & 0xfff)
}

/// Bits 63 to 38 of `v`, sign-extended.
pub open spec fn packed_x(v: u64) -> i32 {
    ((v as i64) >> 38u64) as i32
}

/// Bits 37 to 12 of `v`, sign-extended.
pub open spec fn packed_z(v: u64) -> i32 {
    (((v << 26u64) as i64) >> 38u64) as i32
}

/// Bits 11 to 0 of `v`, sign-extended.
pub open spec fn packed_y(v: u64) -> i16 {
    (((v << 52u64) as i64) >> 52u64) as i16
}

/// The coordinates that the packed form keeps exactly.
pub open spec fn position_in_range(x: i32, y: i16, z: i32) -> bool {
    &&& -0x200_0000 <= x < 0x200_0000
    &&& -0x800 <= y < 0x800
    &&& -0x200_0000 <= z < 0x200_0000
}

/// Unpacking a packed position gives back its coordinates, negative ones
/// included, whenever they lie in the ranges that the packed form keeps.
pub proof fn lemma_position_round_trip(x: i32, y: i16, z: i32)
    requires
        position_in_range(x, y, z),
    ensures
        packed_x(pack_position(x, y, z)) == x,
        packed_y(pack_position(x, y, z)) == y,
        packed_z(pack_position(x, y, z)) == z,
{
    assert(packed_x(pack_position(x, y, z)) == x) by (bit_vector)
        requires
            -0x200_0000 <= x < 0x200_0000,
    ;
    assert(packed_y(pack_position(x, y, z)) == y) by (bit_vector)
        requires
            -0x800 <= y < 0x800,
    ;
    assert(packed_z(pack_position(x, y, z)) == z) by (bit_vector)
        requires
            -0x200_0000 <= z < 0x200_0000,
    ;
}

impl Position {
    pub fn new(x: i32, y: i16, z: i32) -> (p: Position)
        ensures
            p == (Position { x, y, z }),
    {
        Position { x, y, z }
    }

    /// The packed 64-bit form.
    pub fn packed(&self) -> (v: u64)
        ensures
            v == pack_position(self.x, self.y, self.z),
    {
        (((self.x as u64) & 0x3ff_ffff) << 38u64) | (((self.z as u64) & 0x3ff_ffff) << 12u64) | ((
        self.y as u64) & 0xfff)
    }

    /// The position whose packed form is `v`.
    pub fn from_packed(v: u64) -> (p: Position)
        ensures
            p == (Position { x: packed_x(v), y: packed_y(v), z: packed_z(v) }),
    {
        Position {
            x: ((v as i64) >> 38u64) as i32,
            y: (((v << 52u64) as i64) >> 52u64) as i16,
            z: (((v << 26u64) as i64) >> 38u64) as i32,
        }
    }

    /// Appends the packed form, big-endian.
    pub fn write(&self, buffer: &mut Vec<u8>)
        ensures
            final(buffer)@ == old(buffer)@ + be_bytes(pack_position(self.x, self.y, self.z) as nat, 8),
    {
        let v = self.packed();
        assert(v as i64 as u64 == v) by (bit_vector);
        write_long(buffer, v as i64);
    }

    /// Reads a packed position.
    pub fn read(src: &mut Reader) -> (r: Result<Position, ProtocolError>)
        ensures
            match parse_fixed(old(src)@, 8) {
                Ok((v, k)) => r == Ok::<Position, ProtocolError>(
                    Position { x: packed_x(v as u64), y: packed_y(v as u64), z: packed_z(v as u64) },
                ) && final(src)@ == old(src)@.skip(k as int),
                Err(e) => r == Err::<Position, ProtocolError>(e) && final(src)@ == old(src)@,
            },
    {
        match read_long(src) {
            Ok(v) => {
                proof {
                    if let Ok((n, _)) = parse_fixed(old(src)@, 8) {
                        let w = n as u64;
                        assert((w as i64) as u64 == w) by (bit_vector);
                    }
                }
                Ok(Position::from_packed(v as u64))
            },
            Err(e) => Err(e),
        }
    }
}

} // verus!
