//! Base-128 variable-length integers, the number format of every frame.
//!
//! A value is cut into groups of seven bits, least significant group first.
//! Each group fills one byte; the high bit of a byte says that another group
//! follows. A 64-bit value takes at most ten bytes.
//!
//! Numbers are read as the libraries for protocol buffers read them: of
//! ten groups that spell more than 64 bits the low 64 bits are kept, and a
//! number is cut to the width of its field.

use vstd::prelude::*;

verus! {

/// Why bytes could not be read as a frame.
#[derive(Clone, Copy, Debug, PartialEq, Eq, Structural)]
pub enum DecodeError {
    /// The bytes stop inside a field: they are the start of a frame, and more
    /// input may complete it.
    Incomplete,
    /// The bytes are not the start of any frame.
    Malformed,
}

/// The most bytes one number may take.
pub const MAX_VARINT_LEN: usize = 10;

/// `128` to the power `n`: the first value that `n` groups cannot hold.
pub open spec fn group_limit(n: nat) -> nat
    decreases n,
{
    if n == 0 {
        1
    } else {
        128 * group_limit((n - 1) as nat)
    }
}

/// The bytes of `v`: low group first, high bit set on all but the last byte.
pub open spec fn encode_varint(v: nat) -> Seq<u8>
    decreases v,
{
    if v < 128 {
        seq![v as u8]
    } else {
        seq![(128 + v % 128) as u8] + encode_varint(v / 128)
    }
}

/// Reads groups from the front of `bytes`, at most `budget` of them, and
/// gives the value they spell and how many bytes they took.
///
/// The input is `Incomplete` where it ends before a byte without the high
/// bit, and `Malformed` where `budget` bytes all ask for another.
pub open spec fn parse_groups(bytes: Seq<u8>, budget: nat) -> Result<(nat, nat), DecodeError>
    decreases budget,
{
    if budget == 0 {
        Err(DecodeError::Malformed)
    } else if bytes.len() == 0 {
        Err(DecodeError::Incomplete)
    } else if bytes[0] < 128 {
        Ok((bytes[0] as nat, 1))
    } else {
        match parse_groups(bytes.skip(1), (budget - 1) as nat) {
            Ok((high, taken)) => Ok(((bytes[0] - 128 + 128 * high) as nat, taken + 1)),
            Err(e) => Err(e),
        }
    }
}

/// The low 64 bits of a number.
pub open spec fn low_64(value: nat) -> u64 {
    (value % 0x1_0000_0000_0000_0000) as u64
}

/// Reads one 64-bit number from the front of `bytes`: its value and its
/// length in bytes. Of ten groups that spell more than 64 bits, the low 64
/// bits are the value.
pub open spec fn decode_varint(bytes: Seq<u8>) -> Result<(u64, nat), DecodeError> {
    match parse_groups(bytes, MAX_VARINT_LEN as nat) {
        Ok((value, taken)) => Ok((low_64(value), taken)),
        Err(e) => Err(e),
    }
}

/// What the whole input spells, given the groups before `taken` (worth `low`,
/// with the next group weighing `scale`) and the reading of the rest.
pub open spec fn carry(
    low: nat,
    scale: nat,
    taken: nat,
    rest: Result<(nat, nat), DecodeError>,
) -> Result<(nat, nat), DecodeError> {
    match rest {
        Ok((high, more)) => Ok((low + scale * high, more + taken)),
        Err(e) => Err(e),
    }
}

/// The limits that the reading of a number leans on.
pub proof fn lemma_group_limit_values()
    ensures
        group_limit(0) == 1,
        group_limit(1) == 128,
        group_limit(9) == 0x8000_0000_0000_0000,
        group_limit(10) == 0x40_0000_0000_0000_0000,
{
    reveal_with_fuel(group_limit, 11);
}

/// More groups hold more.
pub proof fn lemma_group_limit_monotonic(a: nat, b: nat)
    requires
        a <= b,
    ensures
        0 < group_limit(a) <= group_limit(b),
    decreases b,
{
    if b == 0 {
    } else if a == b {
        lemma_group_limit_monotonic((a - 1) as nat, (b - 1) as nat);
    } else {
        lemma_group_limit_monotonic(a, (b - 1) as nat);
    }
}

/// A successful reading took between one byte and `budget` bytes, all of them
/// in the input, and spells a value that this many groups can hold.
pub proof fn lemma_parse_groups_bounds(bytes: Seq<u8>, budget: nat)
    ensures
        parse_groups(bytes, budget) matches Ok((value, taken)) ==> {
            &&& 1 <= taken <= budget
            &&& taken <= bytes.len()
            &&& value < group_limit(taken)
        },
    decreases budget,
{
    reveal_with_fuel(group_limit, 2);
    if budget > 0 && bytes.len() > 0 && bytes[0] >= 128 {
        lemma_parse_groups_bounds(bytes.skip(1), (budget - 1) as nat);
    }
}

/// The bytes of a value are as many as its groups, and never none.
pub proof fn lemma_encode_varint_len(v: nat, groups: nat)
    requires
        groups >= 1,
        v < group_limit(groups),
    ensures
        1 <= encode_varint(v).len() <= groups,
    decreases groups,
{
    if v >= 128 {
        if groups == 1 {
            lemma_group_limit_values();
        } else {
            lemma_encode_varint_len(v / 128, (groups - 1) as nat);
        }
    }
}

/// Reading what was written gives the value back, whatever follows it.
pub proof fn lemma_parse_groups_of_encoding(v: nat, tail: Seq<u8>, budget: nat)
    requires
        encode_varint(v).len() <= budget,
    ensures
        parse_groups(encode_varint(v) + tail, budget) == Ok::<(nat, nat), DecodeError>(
            (v, encode_varint(v).len()),
        ),
    decreases v,
{
    let bytes = encode_varint(v) + tail;
    if v < 128 {
        assert(bytes[0] == v as u8);
    } else {
        let rest = encode_varint(v / 128);
        assert(bytes[0] == (128 + v % 128) as u8);
        assert(bytes.skip(1) =~= rest + tail);
        lemma_parse_groups_of_encoding(v / 128, tail, (budget - 1) as nat);
    }
}

/// Every 64-bit value is written in at most ten bytes and read back from
/// them, whatever follows.
pub proof fn lemma_varint_round_trip(v: u64, tail: Seq<u8>)
    ensures
        1 <= encode_varint(v as nat).len() <= MAX_VARINT_LEN,
        decode_varint(encode_varint(v as nat) + tail) == Ok::<(u64, nat), DecodeError>(
            (v, encode_varint(v as nat).len()),
        ),
{
    lemma_group_limit_values();
    lemma_encode_varint_len(v as nat, 10);
    lemma_parse_groups_of_encoding(v as nat, tail, 10);
}

/// A reading by `decode_varint` took between one and ten bytes of the input.
pub proof fn lemma_decode_varint_bounds(bytes: Seq<u8>)
    ensures
        decode_varint(bytes) matches Ok((_, taken)) ==> 1 <= taken <= bytes.len() && taken
            <= MAX_VARINT_LEN,
{
    lemma_parse_groups_bounds(bytes, 10);
}

/// Appends the bytes of `v` to `out`.
pub fn write_varint(out: &mut Vec<u8>, v: u64)
    ensures
        final(out)@ == old(out)@ + encode_varint(v as nat),
{
    let mut rest: u64 = v;
    while rest >= 128
        invariant
            old(out)@ + encode_varint(v as nat) == out@ + encode_varint(rest as nat),
        decreases rest,
    {
        let group: u8 = (rest % 128) as u8 + 128;
        proof {
            let next = encode_varint((rest / 128) as nat);
            assert(out@ + encode_varint(rest as nat) =~= out@.push(group) + next);
        }
        out.push(group);
        rest = rest / 128;
    }
    proof {
        assert(out@ + encode_varint(rest as nat) =~= out@.push(rest as u8));
    }
    out.push(rest as u8);
}

/// Reads one number that starts at `start`; gives its value and the place
/// just behind it.
pub fn read_varint(bytes: &[u8], start: usize) -> (r: Result<(u64, usize), DecodeError>)
    requires
        start <= bytes.len(),
    ensures
        match r {
            Ok((value, next)) => start < next <= bytes.len() && decode_varint(
                bytes@.skip(start as int),
            ) == Ok::<(u64, nat), DecodeError>((value, (next - start) as nat)),
            Err(e) => decode_varint(bytes@.skip(start as int)) == Err::<(u64, nat), DecodeError>(e),
        },
{
    let ghost input = bytes@.skip(start as int);
    let mut low: u128 = 0;
    let mut scale: u128 = 1;
    let mut taken: usize = 0;
    proof {
        lemma_group_limit_values();
        assert(input.skip(0) =~= input);
    }
    while taken < MAX_VARINT_LEN
        invariant
            input == bytes@.skip(start as int),
            start <= bytes.len(),
            taken <= MAX_VARINT_LEN,
            start + taken <= bytes.len(),
            scale == group_limit(taken as nat),
            low < scale,
            parse_groups(input, MAX_VARINT_LEN as nat) == carry(
                low as nat,
                scale as nat,
                taken as nat,
                parse_groups(input.skip(taken as int), (MAX_VARINT_LEN - taken) as nat),
            ),
        decreases MAX_VARINT_LEN - taken,
    {
        let ghost rest = input.skip(taken as int);
        if start + taken == bytes.len() {
            assert(rest.len() == 0);
            return Err(DecodeError::Incomplete);
        }
        let byte: u8 = bytes[start + taken];
        proof {
            assert(rest[0] == byte);
            assert(rest.skip(1) =~= input.skip(taken + 1));
            lemma_group_limit_monotonic(taken as nat, 9);
            lemma_group_limit_values();
        }
        if byte < 128 {
            assert(scale * byte <= 127 * 0x8000_0000_0000_0000) by (nonlinear_arith)
                requires
                    0 <= scale <= 0x8000_0000_0000_0000,
                    0 <= byte < 128,
            ;
            let value: u128 = low + scale * (byte as u128);
            return Ok(((value % 0x1_0000_0000_0000_0000) as u64, start + taken + 1));
        }
        let group: u128 = (byte - 128) as u128;
        assert(scale * group <= 127 * scale && low + scale * group < 128 * scale)
            by (nonlinear_arith)
            requires
                0 <= low < scale,
                0 <= group < 128,
        ;
        proof {
            let inner = parse_groups(input.skip(taken + 1), (MAX_VARINT_LEN - taken - 1) as nat);
            match inner {
                Ok((high, more)) => {
                    assert(low + scale * (group + 128 * high) == (low + scale * group) + (128
                        * scale) * high) by (nonlinear_arith);
                },
                Err(e) => {},
            }
        }
        low = low + scale * group;
        scale = scale * 128;
        taken = taken + 1;
    }
    Err(DecodeError::Malformed)
}

} // verus!
