//! Field encodings: VarInt, big-endian fixed-width integers, booleans,
//! 128-bit identifiers and length-prefixed UTF-8 strings.
//!
//! Every reader is described by a parser on the unread bytes that returns the
//! value and the number of bytes it takes, or the error. A reader that fails
//! consumes nothing.
use crate::bytes::{
    be_bytes, be_value, lemma_be_bytes_len, lemma_be_round_trip, lemma_be_value_bound,
    lemma_pow256_le_u128, pow256, push_be,
};
use crate::error::ProtocolError;
use crate::reader::Reader;
use vstd::prelude::*;
use vstd::string::StringSliceAdditionalSpecFns;
use vstd::utf8::{
    decode_utf8, encode_utf8, encode_utf8_decode_utf8, encode_utf8_valid_utf8, valid_utf8,
};

verus! {

/// The VarInt encoding of `v`: seven bits per byte, least significant group
/// first, with the high bit set on every byte but the last.
pub open spec fn varint_bytes(v: nat) -> Seq<u8>
    decreases v,
{
    if v < 128 {
        seq![v as u8]
    } else {
        seq![(v % 128 + 128) as u8] + varint_bytes(v / 128)
    }
}

/// Decodes the VarInt groups of `s` that start at index `i`: the value they
/// hold, counted from group `i`, and the index just past the last group.
/// The group at index 4 must be the last one.
pub open spec fn varint_groups(s: Seq<u8>, i: nat) -> Result<(nat, nat), ProtocolError>
    decreases 5 - i,
{
    if i >= s.len() {
        Err(ProtocolError::Truncated)
    } else if s[i as int] < 128 {
        Ok((s[i as int] as nat, i + 1))
    } else if i + 1 >= 5 {
        Err(ProtocolError::VarIntOverflow)
    } else {
        match varint_groups(s, i + 1) {
            Ok((v, n)) => Ok((((s[i as int] - 128) + 128 * v) as nat, n)),
            Err(e) => Err(e),
        }
    }
}

/// The VarInt at the front of `s` and the number of bytes it takes.
pub open spec fn parse_varint(s: Seq<u8>) -> Result<(nat, nat), ProtocolError> {
    varint_groups(s, 0)
}

/// A big-endian number of `n` bytes at the front of `s`.
pub open spec fn parse_fixed(s: Seq<u8>, n: nat) -> Result<(nat, nat), ProtocolError> {
    if s.len() < n {
        Err(ProtocolError::Truncated)
    } else {
        Ok((be_value(s.take(n as int)), n))
    }
}

/// The wire byte of a boolean.
pub open spec fn bool_byte(b: bool) -> u8 {
    if b {
        1
    } else {
        0
    }
}

/// A boolean byte at the front of `s`.
pub open spec fn parse_bool(s: Seq<u8>) -> Result<(bool, nat), ProtocolError> {
    if s.len() == 0 {
        Err(ProtocolError::Truncated)
    } else if s[0] == 0 {
        Ok((false, 1))
    } else if s[0] == 1 {
        Ok((true, 1))
    } else {
        Err(ProtocolError::InvalidBool)
    }
}

/// A string field: the VarInt byte length of the UTF-8 text, then the text.
pub open spec fn string_bytes(chars: Seq<char>) -> Seq<u8> {
    varint_bytes(encode_utf8(chars).len()) + encode_utf8(chars)
}

/// A string field at the front of `s`: its characters and the number of
/// bytes it takes.
pub open spec fn parse_string(s: Seq<u8>) -> Result<(Seq<char>, nat), ProtocolError> {
    match parse_varint(s) {
        Err(e) => Err(e),
        Ok((len, k)) => {
            if k + len > s.len() {
                Err(ProtocolError::Truncated)
            } else if !valid_utf8(s.subrange(k as int, (k + len) as int)) {
                Err(ProtocolError::InvalidUtf8)
            } else {
                Ok((decode_utf8(s.subrange(k as int, (k + len) as int)), k + len))
            }
        }
    }
}

/// 128 raised to the power `n`.
pub open spec fn pow128(n: nat) -> nat
    decreases n,
{
    if n == 0 {
        1
    } else {
        128 * pow128((n - 1) as nat)
    }
}

/// Places the value of later groups above the `acc` already gathered from
/// groups worth `scale` each.
spec fn shift_groups(acc: nat, scale: nat, r: Result<(nat, nat), ProtocolError>) -> Result<
    (nat, nat),
    ProtocolError,
> {
    match r {
        Ok((v, n)) => Ok((acc + scale * v, n)),
        Err(e) => Err(e),
    }
}

proof fn lemma_shift_groups_step(s: Seq<u8>, i: nat, acc: nat, scale: nat)
    requires
        i < s.len(),
        s[i as int] >= 128,
        i + 1 < 5,
    ensures
        shift_groups(acc, scale, varint_groups(s, i)) == shift_groups(
            (acc + scale * (s[i as int] - 128)) as nat,
            scale * 128,
            varint_groups(s, i + 1),
        ),
{
    let b = s[i as int] - 128;
    match varint_groups(s, i + 1) {
        Ok((v, n)) => {
            assert(acc + scale * (b + 128 * v) == (acc + scale * b) + (scale * 128) * v)
                by (nonlinear_arith);
        },
        Err(e) => {},
    }
}

/// A VarInt decodes to less than `2^35`, and takes between 1 and 5 bytes.
pub proof fn lemma_varint_groups_bound(s: Seq<u8>, i: nat)
    requires
        i < 5,
    ensures
        varint_groups(s, i) matches Ok((v, n)) ==> v < pow128((5 - i) as nat) && i < n <= 5 && n
            <= s.len(),
    decreases 5 - i,
{
    if i < s.len() && s[i as int] >= 128 && i + 1 < 5 {
        lemma_varint_groups_bound(s, i + 1);
        if let Ok((v, n)) = varint_groups(s, i + 1) {
            let p = pow128((5 - i - 1) as nat);
            assert(pow128((5 - i) as nat) == 128 * p);
            assert((s[i as int] - 128) + 128 * v < 128 * p) by (nonlinear_arith)
                requires
                    v < p,
                    0 <= s[i as int] - 128 < 128,
            ;
        }
    } else if i < s.len() && s[i as int] < 128 {
        lemma_pow128_positive((4 - i) as nat);
        assert(pow128((5 - i) as nat) == 128 * pow128((4 - i) as nat));
    }
}

proof fn lemma_pow128_monotonic(a: nat, b: nat)
    requires
        a <= b,
    ensures
        pow128(a) <= pow128(b),
    decreases b,
{
    if a < b {
        lemma_pow128_monotonic(a, (b - 1) as nat);
    }
}

proof fn lemma_pow128_positive(n: nat)
    ensures
        pow128(n) >= 1,
    decreases n,
{
    if n > 0 {
        lemma_pow128_positive((n - 1) as nat);
    }
}

/// A decoded VarInt is below `2^35` and takes between 1 and 5 of the bytes.
pub proof fn lemma_parse_varint_bound(s: Seq<u8>)
    ensures
        parse_varint(s) matches Ok((v, n)) ==> v < 0x8_0000_0000 && 1 <= n <= 5 && n <= s.len(),
{
    lemma_varint_groups_bound(s, 0);
    reveal_with_fuel(pow128, 6);
}

/// A VarInt is canonical when every byte but the last carries the
/// continuation bit, the last does not, and no group after the first is a
/// zero padding group at the end.
pub open spec fn is_canonical_varint(s: Seq<u8>) -> bool {
    &&& s.len() >= 1
    &&& forall|j: int| 0 <= j < s.len() - 1 ==> s[j] >= 128
    &&& s.last() < 128
    &&& (s.len() == 1 || s.last() != 0)
}

proof fn lemma_varint_groups_of_encoding(s: Seq<u8>, i: nat, v: nat, rest: Seq<u8>)
    requires
        i < 5,
        i <= s.len(),
        s.skip(i as int) == varint_bytes(v) + rest,
        v < pow128((5 - i) as nat),
    ensures
        varint_groups(s, i) == Ok::<(nat, nat), ProtocolError>((v, i + varint_bytes(v).len())),
    decreases v,
{
    assert(varint_bytes(v).len() >= 1);
    assert(s.skip(i as int).len() >= 1);
    assert(s[i as int] == s.skip(i as int)[0]);
    assert(s[i as int] == varint_bytes(v)[0]);
    if v >= 128 {
        assert(pow128((5 - i) as nat) == 128 * pow128((4 - i) as nat));
        if i + 1 >= 5 {
            assert(pow128(0) == 1);
        }
        assert(s.skip(i as int + 1) =~= varint_bytes(v / 128) + rest) by {
            assert(s.skip(i as int + 1) =~= s.skip(i as int).skip(1));
            assert((varint_bytes(v) + rest).skip(1) =~= varint_bytes(v / 128) + rest);
        }
        assert(v / 128 < pow128((4 - i) as nat)) by {
            lemma_pow128_positive((4 - i) as nat);
            assert(v / 128 < pow128((4 - i) as nat)) by (nonlinear_arith)
                requires
                    v < 128 * pow128((4 - i) as nat),
            ;
        }
        lemma_varint_groups_of_encoding(s, i + 1, v / 128, rest);
        assert((v % 128 + 128) as u8 - 128 + 128 * (v / 128) == v) by (nonlinear_arith);
    }
}

/// Decoding the VarInt encoding of any value below `2^35`, whatever bytes
/// follow it, gives the value back and stops right after the encoding.
pub proof fn lemma_varint_round_trip(v: nat, rest: Seq<u8>)
    requires
        v < 0x8_0000_0000,
    ensures
        parse_varint(varint_bytes(v) + rest) == Ok::<(nat, nat), ProtocolError>(
            (v, varint_bytes(v).len()),
        ),
{
    reveal_with_fuel(pow128, 6);
    let s = varint_bytes(v) + rest;
    assert(s.skip(0) =~= s);
    lemma_varint_groups_of_encoding(s, 0, v, rest);
}

/// The encoding of every value is canonical.
pub proof fn lemma_varint_canonical(v: nat)
    ensures
        is_canonical_varint(varint_bytes(v)),
    decreases v,
{
    if v >= 128 {
        lemma_varint_canonical(v / 128);
        let t = varint_bytes(v / 128);
        let s = varint_bytes(v);
        assert(s =~= seq![(v % 128 + 128) as u8] + t);
        assert forall|j: int| 0 <= j < s.len() - 1 implies s[j] >= 128 by {
            if j > 0 {
                assert(s[j] == t[j - 1]);
            }
        }
        assert(s.last() == t.last());
        if t.len() == 1 {
            assert(v / 128 >= 1);
            assert(t[0] == (v / 128) as u8);
        }
    }
}

proof fn lemma_canonical_groups_unique(s: Seq<u8>, i: nat, v: nat)
    requires
        i < 5,
        i < s.len(),
        is_canonical_varint(s.skip(i as int)),
        varint_groups(s, i) == Ok::<(nat, nat), ProtocolError>((v, s.len())),
    ensures
        s.skip(i as int) == varint_bytes(v),
    decreases 5 - i,
{
    let t = s.skip(i as int);
    assert(s[i as int] == t[0]);
    if t.len() == 1 {
        assert(t =~= seq![v as u8]);
    } else {
        assert(s[i as int] >= 128);
        if let Ok((w, n)) = varint_groups(s, i + 1) {
            let u = s.skip(i as int + 1);
            assert(u =~= t.drop_first());
            assert(is_canonical_varint(u)) by {
                assert forall|j: int| 0 <= j < u.len() - 1 implies u[j] >= 128 by {
                    assert(u[j] == t[j + 1]);
                }
                assert(u.last() == t.last());
            }
            lemma_canonical_groups_unique(s, i + 1, w);
            if w == 0 {
                assert(u.last() == 0);
            }
            assert(v == (s[i as int] - 128) + 128 * w);
            assert(v % 128 == s[i as int] - 128 && v / 128 == w) by (nonlinear_arith)
                requires
                    v == (s[i as int] - 128) + 128 * w,
                    0 <= s[i as int] - 128 < 128,
            ;
            assert(t =~= seq![(v % 128 + 128) as u8] + varint_bytes(v / 128));
        }
    }
}

/// A canonical VarInt that decodes to `v`, using all of its bytes, is the
/// encoding of `v`: every value has exactly one canonical encoding.
pub proof fn lemma_varint_canonical_unique(s: Seq<u8>, v: nat)
    requires
        is_canonical_varint(s),
        parse_varint(s) == Ok::<(nat, nat), ProtocolError>((v, s.len())),
    ensures
        s == varint_bytes(v),
{
    assert(s.skip(0) =~= s);
    lemma_canonical_groups_unique(s, 0, v);
}

/// A VarInt whose first five bytes all carry the continuation bit is
/// rejected as too long, whatever follows.
pub proof fn lemma_varint_six_groups_overflow(s: Seq<u8>)
    requires
        s.len() >= 5,
        forall|j: int| 0 <= j < 5 ==> s[j] >= 128,
    ensures
        parse_varint(s) == Err::<(nat, nat), ProtocolError>(ProtocolError::VarIntOverflow),
{
    assert(s[0] >= 128 && s[1] >= 128 && s[2] >= 128 && s[3] >= 128 && s[4] >= 128);
    reveal_with_fuel(varint_groups, 6);
}

/// Reading back a fixed-width field of `n` bytes gives its value, whatever
/// bytes follow it.
pub proof fn lemma_fixed_round_trip(v: nat, n: nat, rest: Seq<u8>)
    requires
        v < pow256(n),
    ensures
        parse_fixed(be_bytes(v, n) + rest, n) == Ok::<(nat, nat), ProtocolError>((v, n)),
{
    lemma_be_bytes_len(v, n);
    assert((be_bytes(v, n) + rest).take(n as int) =~= be_bytes(v, n));
    lemma_be_round_trip(v, n);
}

/// Reading back a string field gives its characters, whatever bytes follow
/// it, as long as its byte length fits in a VarInt.
pub proof fn lemma_string_round_trip(chars: Seq<char>, rest: Seq<u8>)
    requires
        encode_utf8(chars).len() < 0x8_0000_0000,
    ensures
        parse_string(string_bytes(chars) + rest) == Ok::<(Seq<char>, nat), ProtocolError>(
            (chars, string_bytes(chars).len()),
        ),
{
    let b = encode_utf8(chars);
    let s = string_bytes(chars) + rest;
    assert(s =~= varint_bytes(b.len()) + (b + rest));
    lemma_varint_round_trip(b.len(), b + rest);
    let k = varint_bytes(b.len()).len();
    assert(s.subrange(k as int, (k + b.len()) as int) =~= b);
    encode_utf8_valid_utf8(chars);
    encode_utf8_decode_utf8(chars);
}

/// Decodes the VarInt at the front of `src` without consuming it: its value
/// and the number of bytes it takes.
pub fn peek_varint(src: &Reader) -> (r: Result<(u64, usize), ProtocolError>)
    ensures
        match parse_varint(src@) {
            Ok((v, n)) => r == Ok::<(u64, usize), ProtocolError>((v as u64, n as usize)) && v
                < 0x8_0000_0000 && 1 <= n <= 5 && n <= src@.len(),
            Err(e) => r == Err::<(u64, usize), ProtocolError>(e),
        },
{
    let ghost s = src@;
    let mut value: u64 = 0;
    let mut scale: u64 = 1;
    let mut i: usize = 0;
    assert(pow128(0) == 1);
    proof {
        lemma_varint_groups_bound(s, 0);
        reveal_with_fuel(pow128, 6);
    }
    loop
        invariant
            s == src@,
            i < 5,
            scale == pow128(i as nat),
            value < scale,
            scale <= 0x1000_0000,
            shift_groups(value as nat, scale as nat, varint_groups(s, i as nat)) == shift_groups(
                0,
                1,
                varint_groups(s, 0),
            ),
            pow128(5) == 0x8_0000_0000,
            varint_groups(s, 0) matches Ok((v, n)) ==> v < pow128(5) && 0 < n <= 5 && n <= s.len(),
        decreases 5 - i,
    {
        if i >= src.remaining() {
            return Err(ProtocolError::Truncated);
        }
        let b = src.peek(i);
        if b < 128 {
            assert(value + scale * b < 128 * scale) by (nonlinear_arith)
                requires
                    value < scale,
                    b < 128,
            ;
            value = value + scale * (b as u64);
            return Ok((value, i + 1));
        }
        if i + 1 >= 5 {
            return Err(ProtocolError::VarIntOverflow);
        }
        proof {
            lemma_shift_groups_step(s, i as nat, value as nat, scale as nat);
            assert(value + scale * (b - 128) < 128 * scale) by (nonlinear_arith)
                requires
                    value < scale,
                    b < 256,
                    b >= 128,
            ;
            assert(pow128(i as nat + 1) == 128 * pow128(i as nat));
            reveal_with_fuel(pow128, 5);
            assert(pow128(3) == 0x20_0000);
            lemma_pow128_monotonic(i as nat, 3);
        }
        value = value + scale * ((b - 128) as u64);
        scale = scale * 128;
        i = i + 1;
    }
}

/// Reads a VarInt.
pub fn read_varint(src: &mut Reader) -> (r: Result<u64, ProtocolError>)
    ensures
        match parse_varint(old(src)@) {
            Ok((v, n)) => r == Ok::<u64, ProtocolError>(v as u64) && final(src)@ == old(src)@.skip(
                n as int,
            ),
            Err(e) => r == Err::<u64, ProtocolError>(e) && final(src)@ == old(src)@,
        },
{
    match peek_varint(src) {
        Ok((v, n)) => {
            src.advance(n);
            Ok(v)
        },
        Err(e) => Err(e),
    }
}

/// Appends the VarInt encoding of `value`.
pub fn write_varint(buffer: &mut Vec<u8>, value: u64)
    ensures
        final(buffer)@ == old(buffer)@ + varint_bytes(value as nat),
{
    let mut v = value;
    loop
        invariant
            buffer@ + varint_bytes(v as nat) == old(buffer)@ + varint_bytes(value as nat),
        decreases v,
    {
        if v < 128 {
            let ghost before = buffer@;
            buffer.push(v as u8);
            assert(buffer@ =~= before + varint_bytes(v as nat));
            return;
        }
        let ghost before = buffer@;
        buffer.push((v % 128 + 128) as u8);
        assert(before + varint_bytes(v as nat) =~= buffer@ + varint_bytes((v / 128) as nat));
        v = v / 128;
    }
}

/// Reads the first `n` bytes as a big-endian number.
fn read_fixed(src: &mut Reader, n: usize) -> (r: Result<u128, ProtocolError>)
    requires
        1 <= n <= 16,
    ensures
        match parse_fixed(old(src)@, n as nat) {
            Ok((v, k)) => r == Ok::<u128, ProtocolError>(v as u128) && final(src)@ == old(
                src,
            )@.skip(k as int),
            Err(e) => r == Err::<u128, ProtocolError>(e) && final(src)@ == old(src)@,
        },
{
    if src.remaining() < n {
        return Err(ProtocolError::Truncated);
    }
    let v = src.peek_be(n);
    src.advance(n);
    Ok(v)
}

/// Reads an unsigned 16-bit big-endian integer.
pub fn read_short(src: &mut Reader) -> (r: Result<u16, ProtocolError>)
    ensures
        match parse_fixed(old(src)@, 2) {
            Ok((v, k)) => r == Ok::<u16, ProtocolError>(v as u16) && final(src)@ == old(
                src,
            )@.skip(k as int),
            Err(e) => r == Err::<u16, ProtocolError>(e) && final(src)@ == old(src)@,
        },
{
    proof {
        lemma_fixed_bound(old(src)@, 2);
        reveal_with_fuel(pow256, 3);
    }
    match read_fixed(src, 2) {
        Ok(v) => Ok(v as u16),
        Err(e) => Err(e),
    }
}

/// Reads a signed 32-bit big-endian integer in two's complement.
pub fn read_int(src: &mut Reader) -> (r: Result<i32, ProtocolError>)
    ensures
        match parse_fixed(old(src)@, 4) {
            Ok((v, k)) => r == Ok::<i32, ProtocolError>(v as u32 as i32) && final(src)@ == old(
                src,
            )@.skip(k as int),
            Err(e) => r == Err::<i32, ProtocolError>(e) && final(src)@ == old(src)@,
        },
{
    proof {
        lemma_fixed_bound(old(src)@, 4);
        reveal_with_fuel(pow256, 5);
    }
    match read_fixed(src, 4) {
        Ok(v) => Ok(v as u32 as i32),
        Err(e) => Err(e),
    }
}

/// Reads a signed 64-bit big-endian integer in two's complement.
pub fn read_long(src: &mut Reader) -> (r: Result<i64, ProtocolError>)
    ensures
        match parse_fixed(old(src)@, 8) {
            Ok((v, k)) => r == Ok::<i64, ProtocolError>(v as u64 as i64) && final(src)@ == old(
                src,
            )@.skip(k as int),
            Err(e) => r == Err::<i64, ProtocolError>(e) && final(src)@ == old(src)@,
        },
{
    proof {
        lemma_fixed_bound(old(src)@, 8);
        reveal_with_fuel(pow256, 9);
    }
    match read_fixed(src, 8) {
        Ok(v) => Ok(v as u64 as i64),
        Err(e) => Err(e),
    }
}

/// Reads a 128-bit identifier, big-endian.
pub fn read_uuid(src: &mut Reader) -> (r: Result<u128, ProtocolError>)
    ensures
        match parse_fixed(old(src)@, 16) {
            Ok((v, k)) => r == Ok::<u128, ProtocolError>(v as u128) && final(src)@ == old(
                src,
            )@.skip(k as int),
            Err(e) => r == Err::<u128, ProtocolError>(e) && final(src)@ == old(src)@,
        },
{
    proof {
        lemma_fixed_bound(old(src)@, 16);
        reveal_with_fuel(pow256, 17);
    }
    read_fixed(src, 16)
}

/// A fixed-width field of `n` bytes holds a value below `256^n`.
pub proof fn lemma_fixed_bound(s: Seq<u8>, n: nat)
    ensures
        parse_fixed(s, n) matches Ok((v, k)) ==> v < pow256(n) && k == n,
{
    if s.len() >= n {
        lemma_be_value_bound(s.take(n as int));
    }
}

/// Reads a boolean byte.
pub fn read_bool(src: &mut Reader) -> (r: Result<bool, ProtocolError>)
    ensures
        match parse_bool(old(src)@) {
            Ok((v, k)) => r == Ok::<bool, ProtocolError>(v) && final(src)@ == old(src)@.skip(
                k as int,
            ),
            Err(e) => r == Err::<bool, ProtocolError>(e) && final(src)@ == old(src)@,
        },
{
    if src.remaining() == 0 {
        return Err(ProtocolError::Truncated);
    }
    let b = src.peek(0);
    if b == 0 {
        src.advance(1);
        Ok(false)
    } else if b == 1 {
        src.advance(1);
        Ok(true)
    } else {
        Err(ProtocolError::InvalidBool)
    }
}

/// Reads a string field.
pub fn read_string(src: &mut Reader) -> (r: Result<String, ProtocolError>)
    ensures
        match parse_string(old(src)@) {
            Ok((chars, k)) => r matches Ok(s) && s@ == chars && final(src)@ == old(src)@.skip(
                k as int,
            ),
            Err(e) => r == Err::<String, ProtocolError>(e) && final(src)@ == old(src)@,
        },
{
    let (len, k) = match peek_varint(src) {
        Ok(p) => p,
        Err(e) => return Err(e),
    };
    if len > (src.remaining() - k) as u64 {
        return Err(ProtocolError::Truncated);
    }
    let len = len as usize;
    let bytes = src.peek_bytes(k, len);
    match string_from_utf8(bytes) {
        Some(s) => {
            src.advance(k + len);
            Ok(s)
        },
        None => Err(ProtocolError::InvalidUtf8),
    }
}

/// Relies on `String::from_utf8`: it accepts exactly the byte sequences that
/// are valid UTF-8 and keeps the characters they encode.
#[verifier::external_body]
fn string_from_utf8(bytes: Vec<u8>) -> (r: Option<String>)
    ensures
        r is Some <==> valid_utf8(bytes@),
        r matches Some(s) ==> s@ == decode_utf8(bytes@),
{
    String::from_utf8(bytes).ok()
}

/// Appends an unsigned 16-bit integer, big-endian.
pub fn write_short(buffer: &mut Vec<u8>, value: u16)
    ensures
        final(buffer)@ == old(buffer)@ + be_bytes(value as nat, 2),
{
    proof {
        reveal_with_fuel(pow256, 3);
    }
    push_be(buffer, value as u128, 2);
}

/// Appends a signed 32-bit integer in two's complement, big-endian.
pub fn write_int(buffer: &mut Vec<u8>, value: i32)
    ensures
        final(buffer)@ == old(buffer)@ + be_bytes(value as u32 as nat, 4),
{
    proof {
        reveal_with_fuel(pow256, 5);
    }
    push_be(buffer, value as u32 as u128, 4);
}

/// Appends a signed 64-bit integer in two's complement, big-endian.
pub fn write_long(buffer: &mut Vec<u8>, value: i64)
    ensures
        final(buffer)@ == old(buffer)@ + be_bytes(value as u64 as nat, 8),
{
    proof {
        reveal_with_fuel(pow256, 9);
    }
    push_be(buffer, value as u64 as u128, 8);
}

/// Appends a 128-bit identifier, big-endian.
pub fn write_uuid(buffer: &mut Vec<u8>, value: u128)
    ensures
        final(buffer)@ == old(buffer)@ + be_bytes(value as nat, 16),
{
    proof {
        lemma_pow256_le_u128(16);
        reveal_with_fuel(pow256, 17);
    }
    push_be(buffer, value, 16);
}

/// Appends a boolean byte.
pub fn write_bool(buffer: &mut Vec<u8>, value: bool)
    ensures
        final(buffer)@ == old(buffer)@.push(bool_byte(value)),
{
    buffer.push(if value { 1 } else { 0 });
}

/// Appends a string field: the VarInt byte length, then the UTF-8 bytes.
pub fn write_string(buffer: &mut Vec<u8>, value: &str)
    ensures
        final(buffer)@ == old(buffer)@ + string_bytes(value@),
{
    let bytes = value.as_bytes();
    write_varint(buffer, bytes.len() as u64);
    push_all(buffer, bytes);
}

/// Appends every byte of `bytes`.
pub fn push_all(buffer: &mut Vec<u8>, bytes: &[u8])
    ensures
        final(buffer)@ == old(buffer)@ + bytes@,
{
    let mut i: usize = 0;
    while i < bytes.len()
        invariant
            i <= bytes@.len(),
            buffer@ == old(buffer)@ + bytes@.take(i as int),
        decreases bytes@.len() - i,
    {
        buffer.push(bytes[i]);
        i = i + 1;
        assert(buffer@ =~= old(buffer)@ + bytes@.take(i as int));
    }
    assert(bytes@.take(i as int) =~= bytes@);
}

} // verus!
