//! Base-128 variable-length integers, as used by the manifest encoding.
//!
//! An integer is stored least significant group first, seven bits per byte.
//! The top bit of a byte says that another byte follows. At most ten bytes
//! are read, and the value must fit in 64 bits.

use vstd::prelude::*;

verus! {

/// The longest encoding that is read.
pub const MAX_VARINT_LEN: usize = 10;

/// Why a variable-length integer could not be read.
#[derive(Clone, Copy, Debug, PartialEq, Eq, Structural)]
pub enum VarintError {
    /// The input ends before the last byte of the integer.
    Truncated,
    /// The integer takes more than ten bytes or does not fit in 64 bits.
    Overflow,
}

/// 128 to the power `n`.
spec fn pow128(n: nat) -> nat
    decreases n,
{
    if n == 0 {
        1
    } else {
        128 * pow128((n - 1) as nat)
    }
}

/// The unbounded value of the digits that start at `pos`, and the index after
/// the last of them. `used` counts the digits already read before `pos`.
pub open spec fn varint_digits(s: Seq<u8>, pos: int, used: nat) -> Result<(nat, int), VarintError>
    decreases s.len() - pos,
{
    if used >= MAX_VARINT_LEN {
        Err(VarintError::Overflow)
    } else if pos < 0 || pos >= s.len() {
        Err(VarintError::Truncated)
    } else if s[pos] < 0x80 {
        Ok((s[pos] as nat, pos + 1))
    } else {
        match varint_digits(s, pos + 1, used + 1) {
            Ok((high, end)) => Ok(((s[pos] - 0x80) as nat + 128 * high, end)),
            Err(e) => Err(e),
        }
    }
}

/// The integer encoded at `pos` in `s`, and the index of the byte after it.
pub open spec fn decode_varint(s: Seq<u8>, pos: int) -> Result<(u64, int), VarintError> {
    match varint_digits(s, pos, 0) {
        Ok((value, end)) => if value <= u64::MAX {
            Ok((value as u64, end))
        } else {
            Err(VarintError::Overflow)
        },
        Err(e) => Err(e),
    }
}

/// The shortest encoding of `v`.
pub open spec fn encode_varint(v: nat) -> Seq<u8>
    decreases v,
{
    if v < 0x80 {
        seq![v as u8]
    } else {
        seq![(0x80 + v % 0x80) as u8] + encode_varint(v / 0x80)
    }
}

/// A decoded integer ends after its start, within the input, and spans at most
/// the digits that were still allowed.
pub proof fn lemma_varint_digits_span(s: Seq<u8>, pos: int, used: nat)
    ensures
        varint_digits(s, pos, used) matches Ok((_, end)) ==> pos < end <= s.len() && end - pos
            <= MAX_VARINT_LEN - used,
    decreases s.len() - pos,
{
    if used < MAX_VARINT_LEN && 0 <= pos < s.len() && s[pos] >= 0x80 {
        lemma_varint_digits_span(s, pos + 1, used + 1);
    }
}

/// How the powers of 128 grow, and how large the first ten are: the ninth is
/// the top bit of a 64-bit integer, and those below it leave seven bits free.
proof fn lemma_pow128_bounds(n: nat)
    ensures
        pow128(0) == 1,
        pow128(n + 1) == 128 * pow128(n),
        n < 9 ==> pow128(n) <= 0x0100_0000_0000_0000,
        n == 9 ==> pow128(n) == 0x8000_0000_0000_0000,
{
    reveal_with_fuel(pow128, 11);
}

/// The digits of the shortest encoding of `v` are read back as `v`, wherever
/// the encoding stands, as long as `v` is below 128 to the power of the number
/// of digits that may still be read.
proof fn lemma_digits_of_encoding(s: Seq<u8>, pos: int, used: nat, v: nat)
    requires
        used < MAX_VARINT_LEN,
        v < pow128((MAX_VARINT_LEN - used) as nat),
        0 <= pos,
        pos + encode_varint(v).len() <= s.len(),
        s.subrange(pos, pos + encode_varint(v).len()) == encode_varint(v),
    ensures
        varint_digits(s, pos, used) == Ok::<(nat, int), VarintError>(
            (v, pos + encode_varint(v).len()),
        ),
    decreases v,
{
    let code = encode_varint(v);
    assert(s[pos] == s.subrange(pos, pos + code.len())[0]);
    if v >= 0x80 {
        let high = v / 0x80;
        let rest = encode_varint(high);
        lemma_pow128_bounds((MAX_VARINT_LEN - used - 1) as nat);
        assert(code.len() == 1 + rest.len());
        assert(s.subrange(pos + 1, pos + 1 + rest.len()) =~= rest) by {
            assert forall|i: int| 0 <= i < rest.len() implies s[pos + 1 + i] == rest[i] by {
                assert(s[pos + 1 + i] == s.subrange(pos, pos + code.len())[1 + i]);
            }
        }
        if used + 1 == MAX_VARINT_LEN {
            assert(pow128(1) == 128) by {
                reveal_with_fuel(pow128, 2);
            }
        } else {
            lemma_digits_of_encoding(s, pos + 1, used + 1, high);
        }
    }
}

/// Reading the shortest encoding of a 64-bit integer gives the integer back,
/// and ends at the end of the encoding, whatever stands before and after it.
pub proof fn lemma_varint_round_trip(before: Seq<u8>, v: u64, after: Seq<u8>)
    ensures
        decode_varint(before + encode_varint(v as nat) + after, before.len() as int) == Ok::<
            (u64, int),
            VarintError,
        >((v, (before.len() + encode_varint(v as nat).len()) as int)),
{
    let code = encode_varint(v as nat);
    let s = before + code + after;
    assert(pow128(10) > u64::MAX) by {
        reveal_with_fuel(pow128, 11);
    }
    assert(s.subrange(before.len() as int, (before.len() + code.len()) as int) =~= code);
    lemma_digits_of_encoding(s, before.len() as int, 0, v as nat);
}

/// Reads the variable-length integer that starts at `pos`.
///
/// Returns the integer and the index of the byte after it, or the reason why
/// no integer can be read there.
pub fn read_varint(bytes: &[u8], pos: usize) -> (r: Result<(u64, usize), VarintError>)
    ensures
        match r {
            Ok((value, next)) => decode_varint(bytes@, pos as int) == Ok::<
                (u64, int),
                VarintError,
            >((value, next as int)) && pos < next <= bytes.len(),
            Err(e) => decode_varint(bytes@, pos as int) == Err::<(u64, int), VarintError>(e),
        },
{
    let mut value: u64 = 0;
    let mut scale: u64 = 1;
    let mut used: usize = 0;
    let mut cur: usize = pos;
    proof {
        lemma_pow128_bounds(0);
    }
    while used < MAX_VARINT_LEN
        invariant
            used <= MAX_VARINT_LEN,
            cur == pos + used,
            scale == pow128(used as nat),
            value < scale,
            match varint_digits(bytes@, cur as int, used as nat) {
                Ok((rest, end)) => varint_digits(bytes@, pos as int, 0) == Ok::<
                    (nat, int),
                    VarintError,
                >(((value + scale * rest) as nat, end)),
                Err(e) => varint_digits(bytes@, pos as int, 0) == Err::<(nat, int), VarintError>(e),
            },
        decreases MAX_VARINT_LEN - used,
    {
        if cur >= bytes.len() {
            return Err(VarintError::Truncated);
        }
        let b: u8 = bytes[cur];
        proof {
            lemma_pow128_bounds(used as nat);
        }
        if b < 0x80 {
            if used == MAX_VARINT_LEN - 1 && b > 1 {
                assert(value + scale * b > u64::MAX) by (nonlinear_arith)
                    requires
                        scale == 0x8000_0000_0000_0000,
                        b >= 2,
                        value >= 0,
                ;
                return Err(VarintError::Overflow);
            }
            assert(value + scale * b <= u64::MAX && scale * b <= u64::MAX) by (nonlinear_arith)
                requires
                    value < scale,
                    scale <= 0x8000_0000_0000_0000,
                    b < 0x80,
                    scale < 0x8000_0000_0000_0000 ==> scale <= 0x0100_0000_0000_0000,
                    scale == 0x8000_0000_0000_0000 ==> b <= 1,
            ;
            let total: u64 = value + scale * (b as u64);
            return Ok((total, cur + 1));
        }
        if used == MAX_VARINT_LEN - 1 {
            return Err(VarintError::Overflow);
        }
        let digit: u64 = (b - 0x80) as u64;
        assert(value + scale * digit < 128 * scale <= 0x8000_0000_0000_0000) by (nonlinear_arith)
            requires
                value < scale,
                digit < 128,
                scale <= 0x0100_0000_0000_0000,
        ;
        proof {
            if let Ok((high, _)) = varint_digits(bytes@, cur + 1, (used + 1) as nat) {
                assert(value + scale * (digit + 128 * high) == (value + scale * digit) + (128
                    * scale) * high) by (nonlinear_arith);
            }
        }
        value = value + scale * digit;
        scale = scale * 128;
        used = used + 1;
        cur = cur + 1;
    }
    Err(VarintError::Overflow)
}

} // verus!
