//! What is written is what is read: for each primitive of the wire format,
//! the bits that the writer appends are read back as the value that was
//! written, and the read ends where the written bits end. The bits may stand
//! anywhere in a stream, at any alignment, with anything before and behind
//! them.
use crate::bits::{
    bits_of_bytes, bytes_of_bits, lemma_bits_of_bytes_len, lemma_bytes_of_bits_append,
    lemma_bytes_of_bits_of_bytes, lemma_c_string_take, lemma_value_bits_len,
    lemma_value_bits_value, value_bits,
};
use crate::stream::{
    bytes_at, bytes_from, c_string_at, c_string_consumed, take_signed, take_string, take_uint,
    take_var_bytes, take_var_int32, uint_at,
};
use crate::writer::{signed_bits, string_bits, twos_complement, var_int_bits};
use vstd::arithmetic::power2::{lemma2_to64, lemma2_to64_rest, lemma_pow2_unfold, pow2};
use vstd::prelude::*;
use vstd::utf8::{decode_utf8, encode_utf8, encode_utf8_decode_utf8, encode_utf8_valid_utf8};

verus! {

/// A bit that is written is the bit that is read at that place.
pub proof fn lemma_bool_round_trip(before: Seq<bool>, value: bool, after: Seq<bool>)
    ensures
        (before.push(value) + after)[before.len() as int] == value,
{
}

/// A number below `2^n` that is written with `n` bits is read back with `n`
/// bits, and the read ends behind the `n` bits.
pub proof fn lemma_uint_round_trip(before: Seq<bool>, value: nat, n: nat, after: Seq<bool>)
    requires
        value < pow2(n),
    ensures
        value_bits(value, n).len() == n,
        uint_at(before + value_bits(value, n) + after, before.len() as int, n as int) == value,
        take_uint(before + value_bits(value, n) + after, before.len() as int, n as int) matches Ok(
            found,
        ) && found.0 == value && found.1 == before.len() + n,
{
    lemma_value_bits_value(value, n);
    let all = before + value_bits(value, n) + after;
    assert(all.subrange(before.len() as int, (before.len() + n) as int) =~= value_bits(value, n));
}

/// Bytes that are written are the bytes that are read, as many as were
/// written.
pub proof fn lemma_bytes_round_trip(before: Seq<bool>, bytes: Seq<u8>, after: Seq<bool>)
    ensures
        bits_of_bytes(bytes).len() == 8 * bytes.len(),
        bytes_at(before + bits_of_bytes(bytes) + after, before.len() as int, bytes.len() as int)
            == bytes,
{
    lemma_bits_of_bytes_len(bytes);
    lemma_bytes_of_bits_of_bytes(bytes);
    let all = before + bits_of_bytes(bytes) + after;
    let end = (before.len() + 8 * bytes.len()) as int;
    assert(all.subrange(before.len() as int, end) =~= bits_of_bytes(bytes));
}

/// A signed number that fits in `n` bits and is written with `n` bits is
/// read back with `n` bits.
pub proof fn lemma_signed_round_trip(before: Seq<bool>, value: int, n: nat, after: Seq<bool>)
    requires
        1 <= n,
        -pow2((n - 1) as nat) <= value < pow2((n - 1) as nat),
    ensures
        signed_bits(value, n).len() == n,
        take_signed(
            before + signed_bits(value, n) + after,
            before.len() as int,
            n as int,
        ) matches Ok(found) && found.0 == value && found.1 == before.len() + n,
{
    lemma_pow2_unfold(n);
    lemma_uint_round_trip(before, twos_complement(value, n), n, after);
}

/// The bytes of a number of varying length below `2^(7 * left)` are read
/// back as the number within `left` bytes.
pub proof fn lemma_var_bytes_round_trip(before: Seq<bool>, value: nat, left: nat, after: Seq<bool>)
    requires
        1 <= left,
        value < pow2(7 * left),
    ensures
        take_var_bytes(before + var_int_bits(value) + after, before.len() as int, left) matches Ok(
            found,
        ) && found.0 == value && found.1 == before.len() + var_int_bits(value).len(),
    decreases left,
{
    lemma2_to64();
    let all = before + var_int_bits(value) + after;
    if value < 128 {
        lemma_uint_round_trip(before, value, 8, after);
    } else {
        let first = value_bits(128 + value % 128, 8);
        let rest = var_int_bits(value / 128);
        lemma_value_bits_len(128 + value % 128, 8);
        assert(all =~= before + first + (rest + after));
        lemma_uint_round_trip(before, 128 + value % 128, 8, rest + after);
        if left == 1 {
            assert(pow2(7) == 128);
        } else {
            vstd::arithmetic::power2::lemma_pow2_adds(7, (7 * (left - 1)) as nat);
            assert(value / 128 < pow2((7 * (left - 1)) as nat)) by (nonlinear_arith)
                requires
                    value < 128 * pow2((7 * (left - 1)) as nat),
            ;
            lemma_var_bytes_round_trip(before + first, value / 128, (left - 1) as nat, after);
            assert(all =~= (before + first) + rest + after);
        }
    }
}

/// A number of up to 32 bits that is written with varying length is read
/// back, and the read ends behind the bytes that were written.
pub proof fn lemma_var_int_round_trip(before: Seq<bool>, value: nat, after: Seq<bool>)
    requires
        value < 0x1_0000_0000,
    ensures
        take_var_int32(before + var_int_bits(value) + after, before.len() as int) matches Ok(found)
            && found.0 == value && found.1 == before.len() + var_int_bits(value).len(),
{
    lemma2_to64();
    lemma2_to64_rest();
    assert(pow2(35) == 0x8_0000_0000);
    lemma_var_bytes_round_trip(before, value, 5, after);
}

/// Bytes without a zero byte among them that are written with a zero byte
/// behind them are read back as a NUL-terminated string, and the read ends
/// behind the zero byte.
pub proof fn lemma_c_string_round_trip(before: Seq<bool>, bytes: Seq<u8>, after: Seq<bool>)
    requires
        !bytes.contains(0u8),
    ensures
        c_string_at(before + bits_of_bytes(bytes.push(0u8)) + after, before.len() as int) == bytes,
        c_string_consumed(before + bits_of_bytes(bytes.push(0u8)) + after, before.len() as int)
            == bytes.len() + 1,
{
    let wire = bits_of_bytes(bytes.push(0u8));
    let all = before + wire + after;
    lemma_bits_of_bytes_len(bytes.push(0u8));
    assert(all.skip(before.len() as int) =~= wire + after);
    lemma_bytes_of_bits_append(bytes.push(0u8), after);
    let left = bytes_from(all, before.len() as int);
    assert(left == bytes.push(0u8) + bytes_of_bits(after));
    assert forall|j: int| 0 <= j < bytes.len() implies left[j] != 0 by {
        assert(left[j] == bytes[j]);
        assert(bytes.contains(bytes[j]));
    }
    assert(left[bytes.len() as int] == 0);
    lemma_c_string_take(left, bytes.len() as int);
    assert(left.take(bytes.len() as int) =~= bytes);
}

/// Text without the character NUL that is written as a NUL-terminated string
/// is read back as the same text.
pub proof fn lemma_string_round_trip(before: Seq<bool>, text: Seq<char>, after: Seq<bool>)
    requires
        !encode_utf8(text).contains(0u8),
    ensures
        take_string(before + string_bits(text) + after, before.len() as int) matches Ok(found)
            && decode_utf8(found.0) == text && found.1 == before.len() + string_bits(text).len(),
{
    lemma_c_string_round_trip(before, encode_utf8(text), after);
    encode_utf8_valid_utf8(text);
    encode_utf8_decode_utf8(text);
    lemma_bits_of_bytes_len(encode_utf8(text).push(0u8));
}

} // verus!
