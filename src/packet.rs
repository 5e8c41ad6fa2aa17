//! Frames: `[VarInt length][VarInt message id][payload]`, where the length
//! counts the id's bytes and the payload's.
use crate::error::ProtocolError;
use crate::packet_data::{
    lemma_parse_varint_bound, lemma_varint_round_trip, parse_varint, peek_varint, push_all, read_varint, varint_bytes,
    write_varint,
};
use crate::reader::Reader;
use vstd::prelude::*;

verus! {

/// One received message: its id and the payload that follows the id.
pub struct Packet {
    pub id: u64,
    pub data: Reader,
}

/// The bytes of a frame that carries `payload` under message id `id`.
pub open spec fn frame_bytes(id: nat, payload: Seq<u8>) -> Seq<u8> {
    varint_bytes(varint_bytes(id).len() + payload.len()) + varint_bytes(id) + payload
}

/// The frame at the front of `s`: its message id, its payload, and the
/// number of bytes it takes.
pub open spec fn parse_frame(s: Seq<u8>) -> Result<(nat, Seq<u8>, nat), ProtocolError> {
    match parse_varint(s) {
        Err(e) => Err(e),
        Ok((len, k)) => {
            if k + len > s.len() {
                Err(ProtocolError::Truncated)
            } else {
                let body = s.subrange(k as int, (k + len) as int);
                match parse_varint(body) {
                    Err(e) => Err(e),
                    Ok((id, j)) => Ok((id, body.skip(j as int), k + len)),
                }
            }
        }
    }
}

impl Packet {
    /// Reads one frame from the front of `source`. Nothing is consumed when
    /// it fails.
    pub fn read(source: &mut Reader) -> (r: Result<Packet, ProtocolError>)
        ensures
            match parse_frame(old(source)@) {
                Ok((id, payload, n)) => r matches Ok(p) && p.id == id && p.data@ == payload
                    && final(source)@ == old(source)@.skip(n as int),
                Err(e) => r matches Err(e2) && e2 == e && final(source)@ == old(source)@,
            },
    {
        let (len, k) = match peek_varint(source) {
            Ok(p) => p,
            Err(e) => return Err(e),
        };
        if len > (source.remaining() - k) as u64 {
            return Err(ProtocolError::Truncated);
        }
        let len = len as usize;
        let body = source.peek_bytes(k, len);
        let mut data = Reader::new(body);
        match read_varint(&mut data) {
            Ok(id) => {
                proof {
                    lemma_parse_varint_bound(body@);
                }
                source.advance(k + len);
                Ok(Packet { id, data })
            },
            Err(e) => Err(e),
        }
    }
}

/// Appends the frame that carries `data` under message id `id`.
pub fn write_packet(buffer: &mut Vec<u8>, id: u64, data: Vec<u8>)
    ensures
        final(buffer)@ == old(buffer)@ + frame_bytes(id as nat, data@),
{
    let mut buf: Vec<u8> = Vec::new();
    write_varint(&mut buf, id);
    push_all(&mut buf, data.as_slice());
    let length = buf.len();
    write_varint(buffer, length as u64);
    push_all(buffer, buf.as_slice());
    assert(buffer@ =~= old(buffer)@ + frame_bytes(id as nat, data@));
}

/// Reading back a written frame gives its message id and payload exactly,
/// whatever bytes follow it, as long as the id and the frame length each fit
/// in the five groups that a VarInt may have.
pub proof fn lemma_frame_round_trip(id: nat, payload: Seq<u8>, rest: Seq<u8>)
    requires
        id < 0x8_0000_0000,
        varint_bytes(id).len() + payload.len() < 0x8_0000_0000,
    ensures
        parse_frame(frame_bytes(id, payload) + rest) == Ok::<
            (nat, Seq<u8>, nat),
            ProtocolError,
        >((id, payload, frame_bytes(id, payload).len())),
{
    let len = varint_bytes(id).len() + payload.len();
    let body = varint_bytes(id) + payload;
    let s = frame_bytes(id, payload) + rest;
    assert(s =~= varint_bytes(len) + (body + rest));
    lemma_varint_round_trip(len, body + rest);
    let k = varint_bytes(len).len();
    assert(s.subrange(k as int, (k + len) as int) =~= body);
    assert(body =~= varint_bytes(id) + payload);
    lemma_varint_round_trip(id, payload);
    assert(body.skip(varint_bytes(id).len() as int) =~= payload);
}

} // verus!
