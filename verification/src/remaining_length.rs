use vstd::prelude::*;

use crate::error::DecodeError;

verus! {

/// Largest value the remaining-length format can carry: four 7-bit chunks,
/// 2^28 - 1.
pub const REMAINING_LENGTH_MAX: u32 = 268435455;

/// The value chunk of an encoded byte: its low seven bits.
pub open spec fn chunk(b: u8) -> int {
    b as int % 128
}

/// The continuation flag of an encoded byte: its high bit. Set means another
/// byte of the field follows; clear means this byte is the last.
pub open spec fn continues(b: u8) -> bool {
    b as int >= 128
}

/// The weight of the chunk at byte index `i`: 128^i.
pub open spec fn pow128(i: nat) -> int
    decreases i,
{
    if i == 0 {
        1
    } else {
        128 * pow128((i - 1) as nat)
    }
}

/// The value carried by the first `n` encoded bytes of `s`: the sum of
/// `chunk(s[i]) * 128^i` over `i < n`.
pub open spec fn chunks_value(s: Seq<u8>, n: int) -> int
    decreases n,
{
    if n <= 0 {
        0
    } else {
        chunks_value(s, n - 1) + chunk(s[n - 1]) * pow128((n - 1) as nat)
    }
}

/// How many bytes a decode consumes: the index of the first byte whose
/// continuation flag is clear, plus one. Zero when no such byte stands among
/// the first four, in which case the field does not decode.
pub open spec fn consumed_len(s: Seq<u8>) -> int {
    if s.len() >= 1 && !continues(s[0]) {
        1
    } else if s.len() >= 2 && !continues(s[1]) {
        2
    } else if s.len() >= 3 && !continues(s[2]) {
        3
    } else if s.len() >= 4 && !continues(s[3]) {
        4
    } else {
        0
    }
}

/// A remaining-length field decodes exactly when a terminating byte stands
/// among its first four bytes.
pub open spec fn decodes(s: Seq<u8>) -> bool {
    consumed_len(s) != 0
}

/// The value a decodable field carries.
pub open spec fn decoded(s: Seq<u8>) -> int {
    chunks_value(s, consumed_len(s))
}

/// The error on a field that does not decode: a fifth byte available to read
/// convicts the encoding itself; a shorter stream merely ended too early.
pub open spec fn decode_error(s: Seq<u8>) -> DecodeError {
    if s.len() >= 5 {
        DecodeError::MalformedVariableLength
    } else {
        DecodeError::UnexpectedEndOfInput
    }
}

/// Decodes the base-128, little-end-first remaining-length field from the
/// front of `input`. On success the result carries the decoded value and the
/// number of bytes consumed (1 to 4), so the caller knows where the field
/// ends.
pub fn remaining_length(input: &[u8]) -> (r: Result<(u32, usize), DecodeError>)
    ensures
        r is Ok <==> decodes(input@),
        r matches Ok((value, used)) ==> {
            &&& value as int == decoded(input@)
            &&& used as int == consumed_len(input@)
            &&& 1 <= used <= 4
            &&& used <= input@.len()
            &&& value <= REMAINING_LENGTH_MAX
        },
        r matches Err(e) ==> e == decode_error(input@),
{
    let ghost s = input@;
    let mut value: u32 = 0;
    let mut index: usize = 0;
    let mut weight: u32 = 1;
    while index < 4
        invariant
            0 <= index <= 4,
            index <= s.len(),
            input@ == s,
            forall|j: int| 0 <= j < index ==> continues(s[j]),
            weight as int == pow128(index as nat),
            value as int == chunks_value(s, index as int),
            value < weight,
        decreases 4 - index,
    {
        proof {
            lemma_pow128_small();
        }
        if index >= input.len() {
            // No terminator and the stream has ended short of four bytes.
            assert(consumed_len(s) == 0);
            return Err(DecodeError::UnexpectedEndOfInput);
        }
        let b = input[index];
        let c: u32 = (b % 128) as u32;
        proof {
            assert(c as int * weight as int <= 127 * weight as int) by (nonlinear_arith)
                requires
                    c <= 127,
                    weight >= 0,
            ;
        }
        assert(value + c * weight < 128 * weight as int);
        value = value + c * weight;
        if b < 128 {
            assert(consumed_len(s) == index + 1);
            return Ok((value, index + 1));
        }
        weight = weight * 128;
        index = index + 1;
    }
    // Four continuation bytes in a row: the field never terminated.
    assert(consumed_len(s) == 0);
    if input.len() >= 5 {
        Err(DecodeError::MalformedVariableLength)
    } else {
        Err(DecodeError::UnexpectedEndOfInput)
    }
}

/// The base-128 encoding of a value: its low seven bits with the continuation
/// flag set, then the encoding of the rest; a value under 128 is one final
/// byte. This always takes the fewest bytes that can carry the value.
pub open spec fn encoded(v: int) -> Seq<u8>
    decreases v,
{
    if v < 128 {
        seq![v as u8]
    } else {
        seq![(v % 128 + 128) as u8] + encoded(v / 128)
    }
}

/// Encodes a value into its remaining-length bytes, using the minimum number
/// of bytes: one for values up to 127, two up to 16383, three up to 2097151,
/// four for the rest of the range.
pub fn encode_remaining_length(value: u32) -> (r: Vec<u8>)
    requires
        value <= REMAINING_LENGTH_MAX,
    ensures
        r@ == encoded(value as int),
        r@.len() == (if value <= 127 {
            1int
        } else if value <= 16383 {
            2int
        } else if value <= 2097151 {
            3int
        } else {
            4int
        }),
{
    let ghost v = value as int;
    proof {
        lemma_encoded_len(v);
    }
    let mut out: Vec<u8> = Vec::new();
    let mut rest: u32 = value;
    proof {
        assert(encoded(v) =~= out@ + encoded(rest as int));
    }
    while rest >= 128
        invariant
            encoded(v) == out@ + encoded(rest as int),
        decreases rest,
    {
        let b: u8 = (rest % 128) as u8 + 128;
        proof {
            assert(encoded(rest as int) == seq![b] + encoded(rest as int / 128));
            assert(out@.push(b) + encoded(rest as int / 128) =~= out@ + encoded(rest as int));
        }
        out.push(b);
        rest = rest / 128;
    }
    proof {
        assert(out@.push(rest as u8) =~= out@ + encoded(rest as int));
    }
    out.push(rest as u8);
    out
}

/// How many bytes the encoding of a value in range takes: the fewest that can
/// carry it.
pub proof fn lemma_encoded_len(v: int)
    requires
        0 <= v <= REMAINING_LENGTH_MAX,
    ensures
        encoded(v).len() == (if v <= 127 {
            1int
        } else if v <= 16383 {
            2int
        } else if v <= 2097151 {
            3int
        } else {
            4int
        }),
{
    reveal_with_fuel(encoded, 5);
}

/// Decoding inverts encoding: for every value in range the decoder accepts
/// exactly the encoding's bytes and returns the value that was encoded.
pub proof fn lemma_encode_decode_round_trip(v: int)
    requires
        0 <= v <= REMAINING_LENGTH_MAX,
    ensures
        decodes(encoded(v)),
        consumed_len(encoded(v)) == encoded(v).len(),
        decoded(encoded(v)) == v,
{
    reveal_with_fuel(encoded, 5);
    reveal_with_fuel(chunks_value, 5);
    lemma_pow128_small();
    let e = encoded(v);
    let q1 = v / 128;
    let q2 = q1 / 128;
    let q3 = q2 / 128;
    if v <= 127 {
        assert(e =~= seq![v as u8]);
        assert(consumed_len(e) == 1);
    } else if v <= 16383 {
        assert(e =~= seq![(v % 128 + 128) as u8, q1 as u8]);
        assert(consumed_len(e) == 2);
        assert(v == 128 * q1 + v % 128);
    } else if v <= 2097151 {
        assert(e =~= seq![(v % 128 + 128) as u8, (q1 % 128 + 128) as u8, q2 as u8]);
        assert(consumed_len(e) == 3);
        assert(v == 128 * q1 + v % 128);
        assert(q1 == 128 * q2 + q1 % 128);
    } else {
        assert(e =~= seq![
            (v % 128 + 128) as u8,
            (q1 % 128 + 128) as u8,
            (q2 % 128 + 128) as u8,
            q3 as u8,
        ]);
        assert(consumed_len(e) == 4);
        assert(v == 128 * q1 + v % 128);
        assert(q1 == 128 * q2 + q1 % 128);
        assert(q2 == 128 * q3 + q2 % 128);
    }
}

/// The value of the first `n` bytes depends on those bytes alone.
proof fn lemma_chunks_value_agree(s: Seq<u8>, t: Seq<u8>, n: int)
    requires
        n <= s.len(),
        n <= t.len(),
        forall|i: int| 0 <= i < n ==> s[i] == t[i],
    ensures
        chunks_value(s, n) == chunks_value(t, n),
    decreases n,
{
    if n > 0 {
        lemma_chunks_value_agree(s, t, n - 1);
    }
}

/// Decoding stops at the first byte whose continuation flag is clear and
/// reads nothing past it: whatever bytes follow the consumed prefix, the
/// outcome is the same.
pub proof fn lemma_decode_ignores_tail(s: Seq<u8>, tail: Seq<u8>)
    requires
        decodes(s),
    ensures
        ({
            let t = s.take(consumed_len(s)) + tail;
            &&& decodes(t)
            &&& consumed_len(t) == consumed_len(s)
            &&& decoded(t) == decoded(s)
        }),
{
    let n = consumed_len(s);
    let t = s.take(n) + tail;
    assert(forall|i: int| 0 <= i < n ==> t[i] == s[i]);
    assert(consumed_len(t) == n);
    lemma_chunks_value_agree(s, t, n);
}

/// The concrete weights of the four byte positions, and of a fifth for the
/// overflow bound.
proof fn lemma_pow128_small()
    ensures
        pow128(0) == 1,
        pow128(1) == 128,
        pow128(2) == 16384,
        pow128(3) == 2097152,
        pow128(4) == 268435456,
{
    reveal_with_fuel(pow128, 5);
}

} // verus!
