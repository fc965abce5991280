//! An append-only run of bits, backed by `bitbuffer`.
//!
//! [`Writer`] wraps `bitbuffer::BitWriteStream`. The verifier sees a writer as
//! the bits written through it so far; the private functions of this module
//! call into `bitbuffer` and state, unproved, which bits each call appends.
use crate::bits::{
    bits_of_bytes, lemma_bits_of_bytes_append, lemma_bits_of_bytes_len, lemma_value_bits_len,
    value_bits,
};
use crate::stream::power_of_two;
use bitbuffer::{BitWriteStream, LittleEndian};
use vstd::arithmetic::power2::{lemma2_to64, lemma2_to64_rest, lemma_pow2_unfold, pow2};
use vstd::prelude::*;
use vstd::utf8::encode_utf8;

verus! {

/// An append-only run of bits that fills a byte vector.
#[verifier::external_body]
pub struct Writer<'a> {
    inner: BitWriteStream<'a, LittleEndian>,
}

/// The bits written so far, in order.
pub uninterp spec fn writer_bits(w: Writer<'static>) -> Seq<bool>;

impl<'a> Writer<'a> {
    /// The bits written so far.
    pub open spec fn bits(&self) -> Seq<bool> {
        writer_bits(*self)
    }

    /// `BitWriteStream::new`: a writer that has written nothing yet and will
    /// append its bytes to `data`.
    #[verifier::external_body]
    fn raw_new(data: &'a mut Vec<u8>) -> (r: Self)
        ensures
            writer_bits(r).len() == 0,
    {
        Writer { inner: BitWriteStream::new(data, LittleEndian) }
    }

    /// `BitWriteStream::bit_len`: the number of bits written so far.
    #[verifier::external_body]
    fn raw_bit_len(&self) -> (r: usize)
        ensures
            r == writer_bits(*self).len(),
    {
        self.inner.bit_len()
    }

    /// `BitWriteStream::write_bool`: appends one bit.
    #[verifier::external_body]
    fn raw_write_bool(&mut self, value: bool)
        requires
            writer_bits(*old(self)).len() < usize::MAX,
        ensures
            writer_bits(*final(self)) == writer_bits(*old(self)).push(value),
    {
        let _ = self.inner.write_bool(value);
    }

    /// `BitWriteStream::write_int::<u64>`: appends the lowest `count` bits of
    /// `value`, least significant first.
    #[verifier::external_body]
    fn raw_write_int(&mut self, value: u64, count: usize)
        requires
            count <= 64,
            writer_bits(*old(self)).len() + count <= usize::MAX,
        ensures
            writer_bits(*final(self)) == writer_bits(*old(self)) + value_bits(
                value as nat,
                count as nat,
            ),
    {
        let _ = self.inner.write_int::<u64>(value, count);
    }

    /// `BitWriteStream::write_bytes`: appends the bits of `bytes`.
    #[verifier::external_body]
    fn raw_write_bytes(&mut self, bytes: &[u8])
        requires
            writer_bits(*old(self)).len() + 8 * bytes@.len() <= usize::MAX,
        ensures
            writer_bits(*final(self)) == writer_bits(*old(self)) + bits_of_bytes(bytes@),
    {
        let _ = self.inner.write_bytes(bytes);
    }

    /// A writer that appends to `data` and has written nothing yet.
    pub fn new(data: &'a mut Vec<u8>) -> (r: Self)
        ensures
            r.bits().len() == 0,
    {
        Self::raw_new(data)
    }

    /// The number of bits written so far.
    pub fn bit_len(&self) -> (r: usize)
        ensures
            r == self.bits().len(),
    {
        self.raw_bit_len()
    }

    /// Appends one bit.
    pub fn write_bool(&mut self, value: bool)
        requires
            old(self).bits().len() < usize::MAX,
        ensures
            final(self).bits() == old(self).bits().push(value),
    {
        self.raw_write_bool(value)
    }

    /// Appends the lowest `count` bits of `value`, least significant first.
    pub fn write_int(&mut self, value: u64, count: usize)
        requires
            count <= 64,
            old(self).bits().len() + count <= usize::MAX,
        ensures
            final(self).bits() == old(self).bits() + value_bits(value as nat, count as nat),
    {
        self.raw_write_int(value, count)
    }

    /// Appends the bits of `bytes`.
    pub fn write_bytes(&mut self, bytes: &[u8])
        requires
            old(self).bits().len() + 8 * bytes@.len() <= usize::MAX,
        ensures
            final(self).bits() == old(self).bits() + bits_of_bytes(bytes@),
    {
        self.raw_write_bytes(bytes)
    }
}

/// The number of `n` bits that stands for `v` in two's complement.
pub open spec fn twos_complement(v: int, n: nat) -> nat {
    if v < 0 {
        (v + pow2(n)) as nat
    } else {
        v as nat
    }
}

/// The bits of a signed number of `n` bits.
pub open spec fn signed_bits(v: int, n: nat) -> Seq<bool> {
    value_bits(twos_complement(v, n), n)
}

/// The bits of a number of varying length: seven bits to a byte, lowest
/// first, with the highest bit of every byte but the last set.
pub open spec fn var_int_bits(v: nat) -> Seq<bool>
    decreases v,
{
    if v < 128 {
        value_bits(v, 8)
    } else {
        value_bits(128 + v % 128, 8) + var_int_bits(v / 128)
    }
}

/// The bits of a NUL-terminated string.
pub open spec fn string_bits(text: Seq<char>) -> Seq<bool> {
    bits_of_bytes(encode_utf8(text).push(0u8))
}

impl<'a> Writer<'a> {
    /// Appends `value` as a signed number of `count` bits in two's
    /// complement.
    pub fn write_signed(&mut self, value: i64, count: usize)
        requires
            1 <= count <= 64,
            -pow2((count - 1) as nat) <= value < pow2((count - 1) as nat),
            old(self).bits().len() + count <= usize::MAX,
        ensures
            final(self).bits() == old(self).bits() + signed_bits(value as int, count as nat),
    {
        proof {
            lemma2_to64();
            lemma2_to64_rest();
            lemma_pow2_unfold(count as nat);
        }
        let unsigned: u64 = if value >= 0 {
            value as u64
        } else {
            let below = (-(value + 1)) as u64;
            if count == 64 {
                u64::MAX - below
            } else {
                power_of_two(count) - 1 - below
            }
        };
        self.write_int(unsigned, count);
    }

    /// Appends `value` as a number of varying length.
    pub fn write_var_int32(&mut self, value: u32)
        requires
            old(self).bits().len() + 40 <= usize::MAX,
        ensures
            final(self).bits() == old(self).bits() + var_int_bits(value as nat),
            var_int_bits(value as nat).len() <= 40,
    {
        let ghost start = self.bits();
        let ghost mut done = Seq::<bool>::empty();
        let mut left = value;
        let mut written: usize = 0;
        proof {
            assert(start + done =~= start);
            assert(done + var_int_bits(left as nat) =~= var_int_bits(value as nat));
            lemma2_to64();
            lemma2_to64_rest();
        }
        while left >= 128
            invariant
                written <= 4,
                left < pow2((32 - 7 * written) as nat),
                self.bits() == start + done,
                done.len() == 8 * written,
                done + var_int_bits(left as nat) == var_int_bits(value as nat),
                start.len() + 40 <= usize::MAX,
            decreases left,
        {
            let byte = 128 + (left % 128) as u64;
            proof {
                lemma2_to64();
                lemma_value_bits_len(byte as nat, 8);
                if written < 4 {
                    vstd::arithmetic::power2::lemma_pow2_adds(7, (32 - 7 * (written + 1)) as nat);
                }
                assert((start + done) + value_bits(byte as nat, 8) =~= start + (done + value_bits(
                    byte as nat,
                    8,
                )));
                assert((done + value_bits(byte as nat, 8)) + var_int_bits((left / 128) as nat)
                    =~= done + (value_bits(byte as nat, 8) + var_int_bits((left / 128) as nat)));
            }
            self.write_int(byte, 8);
            proof {
                done = done + value_bits(byte as nat, 8);
            }
            left = left / 128;
            written = written + 1;
        }
        proof {
            lemma_value_bits_len(left as nat, 8);
            assert((start + done) + value_bits(left as nat, 8) =~= start + (done + value_bits(
                left as nat,
                8,
            )));
        }
        self.write_int(left as u64, 8);
    }

    /// Appends the bytes of `text` and a zero byte.
    pub fn write_string(&mut self, text: &str)
        requires
            old(self).bits().len() + 8 * (encode_utf8(text@).len() + 1) <= usize::MAX,
        ensures
            final(self).bits() == old(self).bits() + string_bits(text@),
    {
        let bytes = text.as_bytes();
        proof {
            lemma_bits_of_bytes_len(bytes@);
        }
        self.write_bytes(bytes);
        self.write_int(0, 8);
        proof {
            lemma_bits_of_bytes_append(bytes@, seq![0u8]);
            assert(bytes@.push(0u8) =~= bytes@ + seq![0u8]);
            assert(bits_of_bytes(seq![0u8]) =~= value_bits(0, 8)) by {
                reveal_with_fuel(bits_of_bytes, 2);
                assert(seq![0u8].drop_first() =~= Seq::<u8>::empty());
            }
            assert(old(self).bits() + bits_of_bytes(bytes@) + value_bits(0, 8) =~= old(
                self,
            ).bits() + (bits_of_bytes(bytes@) + value_bits(0, 8)));
        }
    }
}

} // verus!
