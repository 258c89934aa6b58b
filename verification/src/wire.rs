//! Fields of a frame: a key, then a payload whose shape the key announces.
//!
//! A key is one number: the field's number times eight, plus the code of the
//! payload's shape. A frame is a run of fields, one after the other, with
//! nothing between them and nothing around them.
//!
//! Fields are read as the libraries for protocol buffers read them: a key
//! and the length of a chunk are the low 32 bits of the number that
//! stands there, and a group is passed over up to the key that ends it.

use vstd::prelude::*;
use crate::varint::{
    decode_varint, encode_varint, lemma_decode_varint_bounds, lemma_varint_round_trip, read_varint,
    write_varint, DecodeError,
};

verus! {

/// The shape of a field's payload.
#[derive(Clone, Copy, Debug, PartialEq, Eq, Structural)]
pub enum WireType {
    /// One number.
    Varint,
    /// Eight bytes.
    Fixed64,
    /// A number, then as many bytes as it says.
    LengthDelimited,
    /// Four bytes.
    Fixed32,
    /// A run of fields that ends with a key of shape `EndGroup`. A group
    /// holds no group.
    StartGroup,
    /// Nothing: the key ends a group.
    EndGroup,
}

/// The code that a key carries for a shape.
pub open spec fn wire_code(wire: WireType) -> nat {
    match wire {
        WireType::Varint => 0,
        WireType::Fixed64 => 1,
        WireType::LengthDelimited => 2,
        WireType::StartGroup => 3,
        WireType::EndGroup => 4,
        WireType::Fixed32 => 5,
    }
}

/// The shape that a code stands for, if any.
pub open spec fn wire_of_code(code: nat) -> Option<WireType> {
    if code == 0 {
        Some(WireType::Varint)
    } else if code == 1 {
        Some(WireType::Fixed64)
    } else if code == 2 {
        Some(WireType::LengthDelimited)
    } else if code == 3 {
        Some(WireType::StartGroup)
    } else if code == 4 {
        Some(WireType::EndGroup)
    } else if code == 5 {
        Some(WireType::Fixed32)
    } else {
        None
    }
}

/// The largest field number that a key can carry.
pub const MAX_FIELD_NUMBER: u32 = 0x1fff_ffff;

/// The bytes of the key of field `field` with a payload of shape `wire`.
pub open spec fn encode_key(field: u32, wire: WireType) -> Seq<u8> {
    encode_varint(field as nat * 8 + wire_code(wire))
}

/// The low 32 bits of a number.
pub open spec fn low_32(value: u64) -> u32 {
    (value % 0x1_0000_0000) as u32
}

/// Reads a key from the front of `bytes`: the field's number, the payload's
/// shape, and the key's length in bytes.
///
/// The key is the low 32 bits of the number read. It is `Malformed` where
/// its code stands for no shape, and where the field's number is zero.
pub open spec fn decode_key(bytes: Seq<u8>) -> Result<(u32, WireType, nat), DecodeError> {
    match decode_varint(bytes) {
        Err(e) => Err(e),
        Ok((value, taken)) => {
            let key = low_32(value);
            if key / 8 == 0 {
                Err(DecodeError::Malformed)
            } else {
                match wire_of_code((key % 8) as nat) {
                    None => Err(DecodeError::Malformed),
                    Some(wire) => Ok(((key / 8) as u32, wire, taken)),
                }
            }
        },
    }
}

/// Reads a 32-bit number from the front of `bytes`: the low 32 bits of the
/// number that stands there.
pub open spec fn decode_u32(bytes: Seq<u8>) -> Result<(u32, nat), DecodeError> {
    match decode_varint(bytes) {
        Err(e) => Err(e),
        Ok((value, taken)) => Ok((low_32(value), taken)),
    }
}

/// Reads a length and that many bytes behind it; gives those bytes and the
/// length of both together. The length is the low 32 bits of the number
/// read. Where fewer bytes follow than the length says, the input is
/// `Incomplete`.
pub open spec fn decode_chunk(bytes: Seq<u8>) -> Result<(Seq<u8>, nat), DecodeError> {
    match decode_varint(bytes) {
        Err(e) => Err(e),
        Ok((value, taken)) => {
            let len = low_32(value);
            if bytes.len() - taken < len {
                Err(DecodeError::Incomplete)
            } else {
                Ok((bytes.subrange(taken as int, taken + len), taken + len as nat))
            }
        },
    }
}

/// The length of a payload of shape `wire` at the front of `bytes`, where
/// the shape is no group.
pub open spec fn flat_len(wire: WireType, bytes: Seq<u8>) -> Result<nat, DecodeError> {
    match wire {
        WireType::Varint => match decode_varint(bytes) {
            Err(e) => Err(e),
            Ok((_, taken)) => Ok(taken),
        },
        WireType::Fixed64 => if bytes.len() < 8 {
            Err(DecodeError::Incomplete)
        } else {
            Ok(8)
        },
        WireType::LengthDelimited => match decode_chunk(bytes) {
            Err(e) => Err(e),
            Ok((_, taken)) => Ok(taken),
        },
        WireType::Fixed32 => if bytes.len() < 4 {
            Err(DecodeError::Incomplete)
        } else {
            Ok(4)
        },
        WireType::StartGroup => Err(DecodeError::Malformed),
        WireType::EndGroup => Err(DecodeError::Malformed),
    }
}

/// The length of a group at the front of `bytes`, behind the key that
/// opened it: its fields, and the key that ends it. A group that holds a
/// group is `Malformed`; one that does not end is `Incomplete`.
pub open spec fn group_len(bytes: Seq<u8>) -> Result<nat, DecodeError>
    decreases bytes.len(),
{
    match decode_key(bytes) {
        Err(e) => Err(e),
        Ok((_, wire, taken)) => if wire == WireType::EndGroup {
            Ok(taken)
        } else {
            match flat_len(wire, bytes.skip(taken as int)) {
                Err(e) => Err(e),
                Ok(more) => {
                    proof {
                        lemma_decode_key_bounds(bytes);
                        lemma_flat_len_bounds(wire, bytes.skip(taken as int));
                    }
                    match group_len(bytes.skip((taken + more) as int)) {
                        Err(e) => Err(e),
                        Ok(rest) => Ok(taken + more + rest),
                    }
                },
            }
        },
    }
}

/// The length of a payload of shape `wire` at the front of `bytes`. A key
/// that ends a group where none is open has no payload: it is `Malformed`.
pub open spec fn payload_len(wire: WireType, bytes: Seq<u8>) -> Result<nat, DecodeError> {
    if wire == WireType::StartGroup {
        group_len(bytes)
    } else {
        flat_len(wire, bytes)
    }
}

/// A key that was read took between one and ten bytes of the input.
pub proof fn lemma_decode_key_bounds(bytes: Seq<u8>)
    ensures
        decode_key(bytes) matches Ok((field, _, taken)) ==> 1 <= taken <= bytes.len() && 1
            <= field <= MAX_FIELD_NUMBER,
{
    lemma_decode_varint_bounds(bytes);
}

/// A 32-bit number that was read took between one and ten bytes of the input.
pub proof fn lemma_decode_u32_bounds(bytes: Seq<u8>)
    ensures
        decode_u32(bytes) matches Ok((_, taken)) ==> 1 <= taken <= bytes.len(),
{
    lemma_decode_varint_bounds(bytes);
}

/// A chunk that was read lies within the input.
pub proof fn lemma_decode_chunk_bounds(bytes: Seq<u8>)
    ensures
        decode_chunk(bytes) matches Ok((chunk, taken)) ==> 1 <= taken <= bytes.len()
            && chunk.len() < taken,
{
    lemma_decode_varint_bounds(bytes);
}

/// A payload that is no group and was measured lies within the input and
/// is not empty.
pub proof fn lemma_flat_len_bounds(wire: WireType, bytes: Seq<u8>)
    ensures
        flat_len(wire, bytes) matches Ok(taken) ==> 1 <= taken <= bytes.len(),
{
    lemma_decode_varint_bounds(bytes);
    lemma_decode_chunk_bounds(bytes);
}

/// A group that was measured lies within the input and is not empty.
pub proof fn lemma_group_len_bounds(bytes: Seq<u8>)
    ensures
        group_len(bytes) matches Ok(taken) ==> 1 <= taken <= bytes.len(),
    decreases bytes.len(),
{
    lemma_decode_key_bounds(bytes);
    if let Ok((_, wire, taken)) = decode_key(bytes) {
        if wire != WireType::EndGroup {
            let payload = bytes.skip(taken as int);
            lemma_flat_len_bounds(wire, payload);
            if let Ok(more) = flat_len(wire, payload) {
                lemma_group_len_bounds(bytes.skip((taken + more) as int));
            }
        }
    }
}

/// A payload that was measured lies within the input and is not empty.
pub proof fn lemma_payload_len_bounds(wire: WireType, bytes: Seq<u8>)
    ensures
        payload_len(wire, bytes) matches Ok(taken) ==> 1 <= taken <= bytes.len(),
{
    lemma_flat_len_bounds(wire, bytes);
    lemma_group_len_bounds(bytes);
}

/// A key is read back from its bytes, whatever follows them.
pub proof fn lemma_key_round_trip(field: u32, wire: WireType, tail: Seq<u8>)
    requires
        1 <= field <= MAX_FIELD_NUMBER,
    ensures
        decode_key(encode_key(field, wire) + tail) == Ok::<(u32, WireType, nat), DecodeError>(
            (field, wire, encode_key(field, wire).len()),
        ),
        encode_key(field, wire).len() >= 1,
{
    let key = (field as nat * 8 + wire_code(wire)) as u64;
    lemma_varint_round_trip(key, tail);
}

/// A 32-bit number is read back from its bytes, whatever follows them.
pub proof fn lemma_u32_round_trip(v: u32, tail: Seq<u8>)
    ensures
        decode_u32(encode_varint(v as nat) + tail) == Ok::<(u32, nat), DecodeError>(
            (v, encode_varint(v as nat).len()),
        ),
        encode_varint(v as nat).len() >= 1,
{
    lemma_varint_round_trip(v as u64, tail);
}

/// A chunk is read back from its length and its bytes, whatever follows.
pub proof fn lemma_chunk_round_trip(chunk: Seq<u8>, tail: Seq<u8>)
    requires
        chunk.len() <= u32::MAX,
    ensures
        decode_chunk(encode_varint(chunk.len()) + chunk + tail) == Ok::<
            (Seq<u8>, nat),
            DecodeError,
        >((chunk, encode_varint(chunk.len()).len() + chunk.len())),
{
    let head = encode_varint(chunk.len());
    let all = head + chunk + tail;
    lemma_varint_round_trip(chunk.len() as u64, chunk + tail);
    assert(all =~= head + (chunk + tail));
    assert(all.subrange(head.len() as int, (head.len() + chunk.len()) as int) =~= chunk);
}

/// The code of a shape, as a number to put into a key.
pub fn code_of(wire: WireType) -> (code: u8)
    ensures
        code == wire_code(wire),
{
    match wire {
        WireType::Varint => 0,
        WireType::Fixed64 => 1,
        WireType::LengthDelimited => 2,
        WireType::StartGroup => 3,
        WireType::EndGroup => 4,
        WireType::Fixed32 => 5,
    }
}

/// Appends the key of field `field` with shape `wire` to `out`.
pub fn write_key(out: &mut Vec<u8>, field: u32, wire: WireType)
    requires
        field <= MAX_FIELD_NUMBER,
    ensures
        final(out)@ == old(out)@ + encode_key(field, wire),
{
    let key: u64 = field as u64 * 8 + code_of(wire) as u64;
    write_varint(out, key);
}

/// Reads the key that starts at `start`; gives the field's number, the
/// payload's shape and the place just behind the key.
pub fn read_key(bytes: &[u8], start: usize) -> (r: Result<(u32, WireType, usize), DecodeError>)
    requires
        start <= bytes.len(),
    ensures
        match r {
            Ok((field, wire, next)) => start < next <= bytes.len() && decode_key(
                bytes@.skip(start as int),
            ) == Ok::<(u32, WireType, nat), DecodeError>((field, wire, (next - start) as nat)),
            Err(e) => decode_key(bytes@.skip(start as int)) == Err::<
                (u32, WireType, nat),
                DecodeError,
            >(e),
        },
{
    match read_varint(bytes, start) {
        Err(e) => Err(e),
        Ok((value, next)) => {
            let key: u64 = value % 0x1_0000_0000;
            if key / 8 == 0 {
                return Err(DecodeError::Malformed);
            }
            let field: u32 = (key / 8) as u32;
            let code: u64 = key % 8;
            if code == 0 {
                Ok((field, WireType::Varint, next))
            } else if code == 1 {
                Ok((field, WireType::Fixed64, next))
            } else if code == 2 {
                Ok((field, WireType::LengthDelimited, next))
            } else if code == 3 {
                Ok((field, WireType::StartGroup, next))
            } else if code == 4 {
                Ok((field, WireType::EndGroup, next))
            } else if code == 5 {
                Ok((field, WireType::Fixed32, next))
            } else {
                Err(DecodeError::Malformed)
            }
        },
    }
}

/// Reads the 32-bit number that starts at `start`; gives its value and the
/// place just behind it.
pub fn read_u32(bytes: &[u8], start: usize) -> (r: Result<(u32, usize), DecodeError>)
    requires
        start <= bytes.len(),
    ensures
        match r {
            Ok((value, next)) => start < next <= bytes.len() && decode_u32(
                bytes@.skip(start as int),
            ) == Ok::<(u32, nat), DecodeError>((value, (next - start) as nat)),
            Err(e) => decode_u32(bytes@.skip(start as int)) == Err::<(u32, nat), DecodeError>(e),
        },
{
    match read_varint(bytes, start) {
        Err(e) => Err(e),
        Ok((value, next)) => Ok(((value % 0x1_0000_0000) as u32, next)),
    }
}

/// Reads the length that starts at `start` and finds the bytes it announces;
/// gives the place where they begin and the place just behind them.
pub fn read_chunk(bytes: &[u8], start: usize) -> (r: Result<(usize, usize), DecodeError>)
    requires
        start <= bytes.len(),
    ensures
        match r {
            Ok((from, next)) => start < from <= next <= bytes.len() && decode_chunk(
                bytes@.skip(start as int),
            ) == Ok::<(Seq<u8>, nat), DecodeError>(
                (bytes@.subrange(from as int, next as int), (next - start) as nat),
            ),
            Err(e) => decode_chunk(bytes@.skip(start as int)) == Err::<
                (Seq<u8>, nat),
                DecodeError,
            >(e),
        },
{
    match read_varint(bytes, start) {
        Err(e) => Err(e),
        Ok((value, from)) => {
            let len: u64 = value % 0x1_0000_0000;
            let left: usize = bytes.len() - from;
            if (left as u64) < len {
                return Err(DecodeError::Incomplete);
            }
            let next: usize = from + len as usize;
            proof {
                let input = bytes@.skip(start as int);
                assert(input.subrange(from - start, from - start + len) =~= bytes@.subrange(
                    from as int,
                    next as int,
                ));
            }
            Ok((from, next))
        },
    }
}

/// Finds the end of the payload of shape `wire` that starts at `start`,
/// where the shape is no group.
pub fn skip_flat(bytes: &[u8], start: usize, wire: WireType) -> (r: Result<usize, DecodeError>)
    requires
        start <= bytes.len(),
    ensures
        match r {
            Ok(next) => start < next <= bytes.len() && flat_len(wire, bytes@.skip(start as int))
                == Ok::<nat, DecodeError>((next - start) as nat),
            Err(e) => flat_len(wire, bytes@.skip(start as int)) == Err::<nat, DecodeError>(e),
        },
{
    let left: usize = bytes.len() - start;
    match wire {
        WireType::Varint => match read_varint(bytes, start) {
            Err(e) => Err(e),
            Ok((_, next)) => Ok(next),
        },
        WireType::Fixed64 => if left < 8 {
            Err(DecodeError::Incomplete)
        } else {
            Ok(start + 8)
        },
        WireType::LengthDelimited => match read_chunk(bytes, start) {
            Err(e) => Err(e),
            Ok((_, next)) => Ok(next),
        },
        WireType::Fixed32 => if left < 4 {
            Err(DecodeError::Incomplete)
        } else {
            Ok(start + 4)
        },
        WireType::StartGroup => Err(DecodeError::Malformed),
        WireType::EndGroup => Err(DecodeError::Malformed),
    }
}

/// What a group comes to, given the fields before `taken` and the reading
/// of the rest.
pub open spec fn behind(taken: nat, rest: Result<nat, DecodeError>) -> Result<nat, DecodeError> {
    match rest {
        Ok(more) => Ok(taken + more),
        Err(e) => Err(e),
    }
}

/// Finds the end of the group whose fields start at `start`.
pub fn skip_group(bytes: &[u8], start: usize) -> (r: Result<usize, DecodeError>)
    requires
        start <= bytes.len(),
    ensures
        match r {
            Ok(next) => start < next <= bytes.len() && group_len(bytes@.skip(start as int))
                == Ok::<nat, DecodeError>((next - start) as nat),
            Err(e) => group_len(bytes@.skip(start as int)) == Err::<nat, DecodeError>(e),
        },
{
    let ghost input = bytes@.skip(start as int);
    let mut pos: usize = start;
    loop
        invariant
            start <= pos <= bytes.len(),
            input == bytes@.skip(start as int),
            group_len(input) == behind((pos - start) as nat, group_len(bytes@.skip(pos as int))),
        decreases bytes.len() - pos,
    {
        let ghost here = bytes@.skip(pos as int);
        let (wire, at) = match read_key(bytes, pos) {
            Err(e) => {
                return Err(e);
            },
            Ok((_, wire, at)) => (wire, at),
        };
        match wire {
            WireType::EndGroup => {
                return Ok(at);
            },
            _ => {},
        }
        proof {
            assert(here.skip(at - pos) =~= bytes@.skip(at as int));
        }
        let next = match skip_flat(bytes, at, wire) {
            Err(e) => {
                return Err(e);
            },
            Ok(next) => next,
        };
        proof {
            assert(here.skip(next - pos) =~= bytes@.skip(next as int));
        }
        pos = next;
    }
}

/// Finds the end of the payload of shape `wire` that starts at `start`.
pub fn skip_payload(bytes: &[u8], start: usize, wire: WireType) -> (r: Result<
    usize,
    DecodeError,
>)
    requires
        start <= bytes.len(),
    ensures
        match r {
            Ok(next) => start < next <= bytes.len() && payload_len(
                wire,
                bytes@.skip(start as int),
            ) == Ok::<nat, DecodeError>((next - start) as nat),
            Err(e) => payload_len(wire, bytes@.skip(start as int)) == Err::<nat, DecodeError>(e),
        },
{
    match wire {
        WireType::StartGroup => skip_group(bytes, start),
        _ => skip_flat(bytes, start, wire),
    }
}

} // verus!
