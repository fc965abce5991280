//! The mathematical vocabulary of the wire format: runs of bits, the numbers
//! and bytes they encode, and NUL-terminated byte strings.
//!
//! Everything is little-endian and least-significant-bit first: the first bit
//! of a run is the lowest bit of the number it encodes, and the first eight
//! bits of a run are the first byte.
use vstd::arithmetic::power2::{lemma_pow2_pos, lemma_pow2_unfold, pow2};
use vstd::prelude::*;

verus! {

/// The number that a run of bits encodes, first bit least significant.
pub open spec fn bits_value(bits: Seq<bool>) -> nat
    decreases bits.len(),
{
    if bits.len() == 0 {
        0
    } else {
        (if bits[0] {
            1nat
        } else {
            0nat
        }) + 2 * bits_value(bits.drop_first())
    }
}

/// The lowest `n` bits of `v`, least significant first.
pub open spec fn value_bits(v: nat, n: nat) -> Seq<bool>
    decreases n,
{
    if n == 0 {
        Seq::empty()
    } else {
        seq![v % 2 == 1] + value_bits(v / 2, (n - 1) as nat)
    }
}

/// The bits of a byte string: eight per byte, in order.
pub open spec fn bits_of_bytes(bytes: Seq<u8>) -> Seq<bool>
    decreases bytes.len(),
{
    if bytes.len() == 0 {
        Seq::empty()
    } else {
        value_bits(bytes[0] as nat, 8) + bits_of_bytes(bytes.drop_first())
    }
}

/// The whole bytes that a run of bits holds; up to seven trailing bits that
/// do not fill a byte are left out.
pub open spec fn bytes_of_bits(bits: Seq<bool>) -> Seq<u8>
    decreases bits.len(),
{
    if bits.len() < 8 {
        Seq::empty()
    } else {
        seq![bits_value(bits.take(8)) as u8] + bytes_of_bits(bits.skip(8))
    }
}

/// The bytes before the first zero byte, or all of them where there is none.
pub open spec fn c_string(bytes: Seq<u8>) -> Seq<u8>
    decreases bytes.len(),
{
    if bytes.len() == 0 || bytes[0] == 0 {
        Seq::empty()
    } else {
        seq![bytes[0]] + c_string(bytes.drop_first())
    }
}

/// A number written in `n` bits has `n` bits.
pub proof fn lemma_value_bits_len(v: nat, n: nat)
    ensures
        value_bits(v, n).len() == n,
    decreases n,
{
    if n > 0 {
        lemma_value_bits_len(v / 2, (n - 1) as nat);
    }
}

/// Every byte has eight bits.
pub proof fn lemma_bits_of_bytes_len(bytes: Seq<u8>)
    ensures
        bits_of_bytes(bytes).len() == 8 * bytes.len(),
    decreases bytes.len(),
{
    if bytes.len() > 0 {
        lemma_value_bits_len(bytes[0] as nat, 8);
        lemma_bits_of_bytes_len(bytes.drop_first());
    }
}

/// Bits make as many bytes as they fill: bits that do not fill a byte make
/// none.
pub proof fn lemma_bytes_of_bits_len(bits: Seq<bool>)
    ensures
        bytes_of_bits(bits).len() == bits.len() / 8,
    decreases bits.len(),
{
    if bits.len() >= 8 {
        lemma_bytes_of_bits_len(bits.skip(8));
    }
}

/// A run of `n` bits encodes a number below `2^n`.
pub proof fn lemma_bits_value_bound(bits: Seq<bool>)
    ensures
        bits_value(bits) < pow2(bits.len()),
    decreases bits.len(),
{
    if bits.len() == 0 {
        lemma_pow2_pos(0);
    } else {
        lemma_bits_value_bound(bits.drop_first());
        lemma_pow2_unfold(bits.len());
    }
}

/// Writing the lowest `n` bits of a number below `2^n` and reading them back
/// gives the number.
pub proof fn lemma_value_bits_value(v: nat, n: nat)
    requires
        v < pow2(n),
    ensures
        bits_value(value_bits(v, n)) == v,
        value_bits(v, n).len() == n,
    decreases n,
{
    lemma_value_bits_len(v, n);
    if n == 0 {
        assert(pow2(0) == 1) by {
            vstd::arithmetic::power2::lemma2_to64();
        }
    } else {
        lemma_pow2_unfold(n);
        lemma_value_bits_value(v / 2, (n - 1) as nat);
        let rest = value_bits(v / 2, (n - 1) as nat);
        assert(value_bits(v, n).drop_first() =~= rest);
    }
}

/// Reading a run of bits as a number and writing that number back with the
/// same width gives the run.
pub proof fn lemma_bits_value_bits(bits: Seq<bool>)
    ensures
        value_bits(bits_value(bits), bits.len()) == bits,
    decreases bits.len(),
{
    if bits.len() == 0 {
        assert(value_bits(bits_value(bits), 0) =~= bits);
    } else {
        let rest = bits.drop_first();
        lemma_bits_value_bits(rest);
        let v = bits_value(bits);
        assert(v / 2 == bits_value(rest));
        assert((v % 2 == 1) == bits[0]);
        assert(value_bits(v, bits.len()) =~= bits);
    }
}

/// The bits of a byte string hold exactly its bytes.
pub proof fn lemma_bytes_of_bits_of_bytes(bytes: Seq<u8>)
    ensures
        bytes_of_bits(bits_of_bytes(bytes)) == bytes,
    decreases bytes.len(),
{
    lemma_bits_of_bytes_len(bytes);
    if bytes.len() == 0 {
        assert(bytes_of_bits(bits_of_bytes(bytes)) =~= bytes);
    } else {
        let head = value_bits(bytes[0] as nat, 8);
        let tail = bits_of_bytes(bytes.drop_first());
        let all = bits_of_bytes(bytes);
        lemma_value_bits_len(bytes[0] as nat, 8);
        assert(all.take(8) =~= head);
        assert(all.skip(8) =~= tail);
        assert(pow2(8) == 256) by {
            vstd::arithmetic::power2::lemma2_to64();
        }
        lemma_value_bits_value(bytes[0] as nat, 8);
        lemma_bytes_of_bits_of_bytes(bytes.drop_first());
        assert(bytes_of_bits(all) =~= bytes);
    }
}

/// A run of whole bytes is the bits of the bytes it holds.
pub proof fn lemma_bits_of_bytes_of_bits(bits: Seq<bool>)
    requires
        bits.len() % 8 == 0,
    ensures
        bits_of_bytes(bytes_of_bits(bits)) == bits,
    decreases bits.len(),
{
    if bits.len() < 8 {
        assert(bits_of_bytes(bytes_of_bits(bits)) =~= bits);
    } else {
        let head = bits.take(8);
        let bytes = bytes_of_bits(bits);
        lemma_bits_of_bytes_of_bits(bits.skip(8));
        lemma_bits_value_bound(head);
        assert(pow2(8) == 256) by {
            vstd::arithmetic::power2::lemma2_to64();
        }
        lemma_bits_value_bits(head);
        assert(bytes.drop_first() =~= bytes_of_bits(bits.skip(8)));
        assert(bits_of_bytes(bytes) =~= head + bits.skip(8));
        assert(head + bits.skip(8) =~= bits);
    }
}

/// The string before the terminator is a prefix of the bytes and holds no
/// zero byte; it is shorter than the bytes exactly where a zero byte is among
/// them.
pub proof fn lemma_c_string(bytes: Seq<u8>)
    ensures
        c_string(bytes).is_prefix_of(bytes),
        !c_string(bytes).contains(0u8),
        bytes.contains(0u8) <==> c_string(bytes).len() < bytes.len(),
        bytes.contains(0u8) ==> bytes[c_string(bytes).len() as int] == 0,
    decreases bytes.len(),
{
    let s = c_string(bytes);
    if bytes.len() == 0 {
    } else if bytes[0] == 0 {
        assert(bytes.contains(0u8));
    } else {
        let rest = bytes.drop_first();
        lemma_c_string(rest);
        let t = c_string(rest);
        assert(s =~= seq![bytes[0]] + t);
        assert forall|i: int| 0 <= i < s.len() implies s[i] != 0 by {
            if i > 0 {
                assert(t[i - 1] == s[i]);
                assert(t.contains(t[i - 1]));
            }
        }
        if bytes.contains(0u8) {
            let i = choose|i: int| 0 <= i < bytes.len() && bytes[i] == 0;
            assert(rest[i - 1] == 0);
            assert(rest.contains(0u8));
        }
        if rest.contains(0u8) {
            let i = choose|i: int| 0 <= i < rest.len() && rest[i] == 0;
            assert(bytes[i + 1] == 0);
        }
    }
}

/// Where the first zero byte stands at `n`, the string is the `n` bytes
/// before it; where no byte is zero, it is all of them.
pub proof fn lemma_c_string_take(bytes: Seq<u8>, n: int)
    requires
        0 <= n <= bytes.len(),
        forall|j: int| 0 <= j < n ==> bytes[j] != 0,
        n < bytes.len() ==> bytes[n] == 0,
    ensures
        c_string(bytes) == bytes.take(n),
        bytes.contains(0u8) <==> n < bytes.len(),
    decreases n,
{
    if bytes.len() == 0 || bytes[0] == 0 {
        assert(c_string(bytes) =~= bytes.take(n));
    } else {
        let rest = bytes.drop_first();
        assert forall|j: int| 0 <= j < n - 1 implies rest[j] != 0 by {
            assert(rest[j] == bytes[j + 1]);
        }
        lemma_c_string_take(rest, n - 1);
        assert(c_string(bytes) =~= bytes.take(n));
        if rest.contains(0u8) {
            let i = choose|i: int| 0 <= i < rest.len() && rest[i] == 0;
            assert(bytes[i + 1] == 0);
        }
        if bytes.contains(0u8) {
            let i = choose|i: int| 0 <= i < bytes.len() && bytes[i] == 0;
            assert(rest[i - 1] == 0);
        }
    }
}

/// The first `n` whole bytes of a run of bits are the bytes of its first
/// `8 * n` bits.
pub proof fn lemma_bytes_of_bits_take(bits: Seq<bool>, n: int)
    requires
        0 <= n,
        8 * n <= bits.len(),
    ensures
        bytes_of_bits(bits.take(8 * n)) == bytes_of_bits(bits).take(n),
    decreases n,
{
    lemma_bytes_of_bits_len(bits);
    if n == 0 {
        assert(bytes_of_bits(bits.take(0)) =~= bytes_of_bits(bits).take(0));
    } else {
        lemma_bytes_of_bits_take(bits.skip(8), n - 1);
        assert(bits.take(8 * n).take(8) =~= bits.take(8));
        assert(bits.take(8 * n).skip(8) =~= bits.skip(8).take(8 * (n - 1)));
        lemma_bytes_of_bits_len(bits.skip(8));
        assert(bytes_of_bits(bits.take(8 * n)) =~= bytes_of_bits(bits).take(n));
    }
}

/// The bits of two byte strings, one after the other, are the bits of their
/// concatenation.
pub proof fn lemma_bits_of_bytes_append(a: Seq<u8>, b: Seq<u8>)
    ensures
        bits_of_bytes(a + b) == bits_of_bytes(a) + bits_of_bytes(b),
    decreases a.len(),
{
    if a.len() == 0 {
        assert(a + b =~= b);
        assert(bits_of_bytes(a) + bits_of_bytes(b) =~= bits_of_bytes(b));
    } else {
        lemma_bits_of_bytes_append(a.drop_first(), b);
        assert((a + b).drop_first() =~= a.drop_first() + b);
        assert(bits_of_bytes(a + b) =~= bits_of_bytes(a) + bits_of_bytes(b));
    }
}

/// The whole bytes of a byte string's bits followed by more bits are the
/// byte string followed by the whole bytes of the rest.
pub proof fn lemma_bytes_of_bits_append(a: Seq<u8>, rest: Seq<bool>)
    ensures
        bytes_of_bits(bits_of_bytes(a) + rest) == a + bytes_of_bits(rest),
    decreases a.len(),
{
    if a.len() == 0 {
        assert(bits_of_bytes(a) + rest =~= rest);
        assert(a + bytes_of_bits(rest) =~= bytes_of_bits(rest));
    } else {
        let head = value_bits(a[0] as nat, 8);
        let all = bits_of_bytes(a) + rest;
        lemma_value_bits_len(a[0] as nat, 8);
        lemma_bits_of_bytes_len(a.drop_first());
        assert(all.take(8) =~= head);
        assert(all.skip(8) =~= bits_of_bytes(a.drop_first()) + rest);
        assert(pow2(8) == 256) by {
            vstd::arithmetic::power2::lemma2_to64();
        }
        lemma_value_bits_value(a[0] as nat, 8);
        lemma_bytes_of_bits_append(a.drop_first(), rest);
        assert(bytes_of_bits(all) =~= a + bytes_of_bits(rest));
    }
}

} // verus!
