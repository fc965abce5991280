//! A read cursor over a window of bits, backed by `bitbuffer`.
//!
//! [`Stream`] wraps `bitbuffer::BitReadStream`. The verifier sees a stream as
//! three mathematical values: the bits of its window, the cursor inside the
//! window, and the offset of the window in the buffer underneath. The private
//! functions of this module call into `bitbuffer` and state, unproved, what
//! each call does to those three values; the public methods are verified
//! against those statements.
use crate::bits::{
    bits_of_bytes, bits_value, bytes_of_bits, c_string, lemma_bits_of_bytes_len,
    lemma_bits_value_bound, lemma_bytes_of_bits_len, lemma_bytes_of_bits_take, lemma_c_string,
    lemma_c_string_take,
};
use crate::text::{find_nul, string_from_utf8};
use bitbuffer::{BitError, BitReadBuffer, BitReadStream, LittleEndian};
use vstd::arithmetic::power2::{lemma2_to64, lemma2_to64_rest, pow2};
use vstd::prelude::*;
use vstd::utf8::{decode_utf8, decode_utf8_encode_utf8, encode_utf8, valid_utf8};

verus! {

/// Why a read failed.
#[derive(Debug, Clone, PartialEq, Eq)]
pub enum ReadError {
    /// More bits were asked for than the number type holds.
    TooManyBits { requested: usize, max: usize },
    /// The read would run past the end of the stream.
    NotEnoughData { requested: usize, bits_left: usize },
    /// The position lies outside the stream.
    IndexOutOfBounds { pos: usize, size: usize },
    /// The bytes of a string are not valid UTF-8. The field is the number of
    /// bytes that the failed read consumed: going back by that many bytes
    /// returns to where the string began.
    Utf8Error(usize),
    /// A number that selects a variant selects none.
    UnmatchedDiscriminant { discriminant: usize },
}

/// A read cursor over a window of bits.
#[verifier::external_body]
#[derive(Debug)]
pub struct Stream<'a> {
    inner: BitReadStream<'a, LittleEndian>,
}

/// The bits of the stream's window, in reading order.
pub uninterp spec fn stream_bits(s: Stream<'static>) -> Seq<bool>;

/// The cursor: how many bits of the window lie before the next read.
pub uninterp spec fn stream_pos(s: Stream<'static>) -> nat;

/// How many bits of the underlying buffer lie before the window.
pub uninterp spec fn stream_start(s: Stream<'static>) -> nat;

/// The longest buffer, in bytes, that a stream can be made over: positions
/// are counted in bits and must leave room for the look-ahead of one machine
/// word that integer reads make.
pub const MAX_BUFFER_BYTES: usize = 0x0fff_ffff;

/// The error of a read of `requested` bits where only `left` are there.
pub open spec fn not_enough_data(requested: int, left: int) -> ReadError {
    ReadError::NotEnoughData {
        requested: if requested <= usize::MAX {
            requested as usize
        } else {
            usize::MAX
        },
        bits_left: left as usize,
    }
}

/// The number that `n` bits at `pos` encode.
pub open spec fn uint_at(bits: Seq<bool>, pos: int, n: int) -> nat {
    bits_value(bits.subrange(pos, pos + n))
}

/// The `n` bytes that start at bit `pos`.
pub open spec fn bytes_at(bits: Seq<bool>, pos: int, n: int) -> Seq<u8> {
    bytes_of_bits(bits.subrange(pos, pos + 8 * n))
}

/// All whole bytes from bit `pos` to the end.
pub open spec fn bytes_from(bits: Seq<bool>, pos: int) -> Seq<u8> {
    bytes_of_bits(bits.skip(pos))
}

/// The bytes of the NUL-terminated string at `pos`: the whole bytes from
/// `pos` up to the first zero byte, or to the end where none is zero.
pub open spec fn c_string_at(bits: Seq<bool>, pos: int) -> Seq<u8> {
    c_string(bytes_from(bits, pos))
}

/// The number of bytes that reading the string at `pos` consumes: the string
/// and its terminator, or all the bytes that are left where the terminator is
/// missing.
pub open spec fn c_string_consumed(bits: Seq<bool>, pos: int) -> nat {
    if bytes_from(bits, pos).contains(0u8) {
        c_string_at(bits, pos).len() + 1
    } else {
        bytes_from(bits, pos).len()
    }
}

/// The bytes of a fixed-width string field: the field's bytes before its
/// first zero byte.
pub open spec fn sized_string_at(bits: Seq<bool>, pos: int, n: int) -> Seq<u8> {
    c_string(bytes_at(bits, pos, n))
}

/// What reading an unsigned number of `n` bits at `pos` gives: the number and
/// the position behind it.
pub open spec fn take_uint(bits: Seq<bool>, pos: int, n: int) -> Result<(nat, int), ReadError> {
    if n <= bits.len() - pos {
        Ok((uint_at(bits, pos, n), pos + n))
    } else {
        Err(not_enough_data(n, bits.len() - pos))
    }
}

/// The number `v` of `n` bits read as two's complement: a number with its
/// highest bit set stands for `v - 2^n`.
pub open spec fn signed_of(v: nat, n: nat) -> int {
    if n > 0 && v >= pow2((n - 1) as nat) {
        v - pow2(n)
    } else {
        v as int
    }
}

/// What reading a signed number of `n` bits at `pos` gives.
pub open spec fn take_signed(bits: Seq<bool>, pos: int, n: int) -> Result<(int, int), ReadError> {
    match take_uint(bits, pos, n) {
        Ok((v, end)) => Ok((signed_of(v, n as nat), end)),
        Err(e) => Err(e),
    }
}

/// What reading one bit at `pos` gives: the bit and the position behind it.
pub open spec fn take_bool(bits: Seq<bool>, pos: int) -> Result<(bool, int), ReadError> {
    if 1 <= bits.len() - pos {
        Ok((bits[pos], pos + 1))
    } else {
        Err(ReadError::NotEnoughData { requested: 1, bits_left: 0 })
    }
}

/// What reading `n` bytes at `pos` gives: the bytes and the position behind
/// them.
pub open spec fn take_bytes(
    bits: Seq<bool>,
    pos: int,
    n: int,
) -> Result<(Seq<u8>, int), ReadError> {
    if 8 * n <= bits.len() - pos {
        Ok((bytes_at(bits, pos, n), pos + 8 * n))
    } else {
        Err(not_enough_data(8 * n, bits.len() - pos))
    }
}

/// What skipping `n` bits at `pos` gives: the position behind them.
pub open spec fn take_skip(bits: Seq<bool>, pos: int, n: int) -> Result<int, ReadError> {
    if n <= bits.len() - pos {
        Ok(pos + n)
    } else {
        Err(not_enough_data(n, bits.len() - pos))
    }
}

/// What reading a NUL-terminated string at `pos` gives: its bytes and the
/// position behind its terminator.
pub open spec fn take_string(bits: Seq<bool>, pos: int) -> Result<(Seq<u8>, int), ReadError> {
    if valid_utf8(c_string_at(bits, pos)) {
        Ok((c_string_at(bits, pos), pos + 8 * c_string_consumed(bits, pos)))
    } else {
        Err(ReadError::Utf8Error(c_string_consumed(bits, pos) as usize))
    }
}

/// What reading a string field of `n` bytes at `pos` gives: the bytes before
/// its first zero byte and the position behind the field.
pub open spec fn take_sized_string(bits: Seq<bool>, pos: int, n: int) -> Result<
    (Seq<u8>, int),
    ReadError,
> {
    if 8 * n > bits.len() - pos {
        Err(not_enough_data(8 * n, bits.len() - pos))
    } else if valid_utf8(sized_string_at(bits, pos, n)) {
        Ok((sized_string_at(bits, pos, n), pos + 8 * n))
    } else {
        Err(ReadError::Utf8Error(n as usize))
    }
}

impl<'a> Stream<'a> {
    /// The bits of the window.
    pub open spec fn bits(&self) -> Seq<bool> {
        stream_bits(*self)
    }

    /// The cursor.
    pub open spec fn position(&self) -> int {
        stream_pos(*self) as int
    }

    /// The number of bits between the cursor and the end.
    pub open spec fn remaining(&self) -> int {
        stream_bits(*self).len() - stream_pos(*self)
    }

    /// The cursor lies inside the window, and no position in the underlying
    /// buffer is near the limit of `usize`.
    pub open spec fn inv(&self) -> bool {
        &&& stream_pos(*self) <= stream_bits(*self).len()
        &&& stream_start(*self) + stream_bits(*self).len() + 64 <= usize::MAX
    }

    /// The stream reads the same window as `old`; the cursor may differ.
    pub open spec fn same_window(&self, old: &Self) -> bool {
        &&& stream_bits(*self) == stream_bits(*old)
        &&& stream_start(*self) == stream_start(*old)
    }

    /// The stream is `old` with the cursor moved to `pos`.
    pub open spec fn moved(&self, old: &Self, pos: int) -> bool {
        &&& stream_bits(*self) == stream_bits(*old)
        &&& stream_start(*self) == stream_start(*old)
        &&& stream_pos(*self) == pos
    }

    /// `BitReadStream::new` over `BitReadBuffer::new`: a stream over all the
    /// bits of `data`, with the cursor at the first.
    #[verifier::external_body]
    fn raw_new(data: &'a [u8]) -> (r: Self)
        requires
            data@.len() * 8 + 64 <= usize::MAX,
        ensures
            stream_bits(r) == bits_of_bytes(data@),
            stream_pos(r) == 0,
            stream_start(r) == 0,
    {
        Stream { inner: BitReadStream::new(BitReadBuffer::new(data, LittleEndian)) }
    }

    /// `BitReadStream::pos`: the cursor.
    #[verifier::external_body]
    fn raw_pos(&self) -> (r: usize)
        requires
            self.inv(),
        ensures
            r == stream_pos(*self),
    {
        self.inner.pos()
    }

    /// `BitReadStream::bits_left`: the number of bits from the cursor to the
    /// end of the window.
    #[verifier::external_body]
    fn raw_bits_left(&self) -> (r: usize)
        requires
            self.inv(),
        ensures
            r == stream_bits(*self).len() - stream_pos(*self),
    {
        self.inner.bits_left()
    }

    /// `BitReadStream::set_pos`: moves the cursor to `pos` where `pos` is not
    /// past the end, and fails without moving it otherwise.
    #[verifier::external_body]
    fn raw_set_pos(&mut self, pos: usize) -> (r: bool)
        requires
            old(self).inv(),
        ensures
            r == (pos <= stream_bits(*old(self)).len()),
            final(self).moved(
                old(self),
                if r {
                    pos as int
                } else {
                    stream_pos(*old(self)) as int
                },
            ),
    {
        self.inner.set_pos(pos).is_ok()
    }

    /// `BitReadStream::skip_bits`: moves the cursor forward by `count` where
    /// that many bits are left, and fails without moving it otherwise.
    #[verifier::external_body]
    fn raw_skip_bits(&mut self, count: usize) -> (r: bool)
        requires
            old(self).inv(),
        ensures
            r == (count <= old(self).remaining()),
            final(self).moved(old(self), stream_pos(*old(self)) + if r { count as int } else { 0 }),
    {
        self.inner.skip_bits(count).is_ok()
    }

    /// `BitReadStream::read_bool`: the bit at the cursor, which moves by one;
    /// fails without moving it where no bit is left.
    #[verifier::external_body]
    fn raw_read_bool(&mut self) -> (r: Option<bool>)
        requires
            old(self).inv(),
        ensures
            r is Some <==> old(self).remaining() >= 1,
            r matches Some(b) ==> b == stream_bits(*old(self))[stream_pos(*old(self)) as int],
            final(self).moved(old(self), stream_pos(*old(self)) + if r is Some { 1int } else { 0 }),
    {
        self.inner.read_bool().ok()
    }

    /// `BitReadStream::read_int::<u64>`: the number that the next `count`
    /// bits encode, first bit least significant; the cursor moves past them.
    /// Fails without moving it where fewer than `count` bits are left.
    #[verifier::external_body]
    fn raw_read_int(&mut self, count: usize) -> (r: Option<u64>)
        requires
            old(self).inv(),
            count <= 64,
        ensures
            r is Some <==> count <= old(self).remaining(),
            r matches Some(v) ==> v == uint_at(
                stream_bits(*old(self)),
                stream_pos(*old(self)) as int,
                count as int,
            ),
            final(self).moved(
                old(self),
                stream_pos(*old(self)) + if r is Some { count as int } else { 0 },
            ),
    {
        self.inner.read_int::<u64>(count).ok()
    }

    /// `BitReadStream::read_bytes`: the next `count` bytes; the cursor moves
    /// past them. Fails without moving it where fewer are left.
    #[verifier::external_body]
    fn raw_read_bytes(&mut self, count: usize) -> (r: Option<Vec<u8>>)
        requires
            old(self).inv(),
            8 * count <= old(self).remaining(),
        ensures
            r matches Some(v) && v@ == bytes_at(
                stream_bits(*old(self)),
                stream_pos(*old(self)) as int,
                count as int,
            ),
            final(self).moved(old(self), stream_pos(*old(self)) + 8 * count),
    {
        self.inner.read_bytes(count).ok().map(|bytes| bytes.into_owned())
    }

    /// `BitReadStream::read_string` without a length: a NUL-terminated
    /// string.
    ///
    /// Where a zero byte is among the whole bytes that are left, the string
    /// is the bytes before the first of them, and the cursor moves past that
    /// zero byte whether or not the bytes are valid UTF-8; the error carries
    /// the number of bytes before the zero byte. Where none is zero, the
    /// cursor moves past all whole bytes that are left, and the call looks at
    /// bits behind the window: a string that comes back starts with the bytes
    /// that were left, and an error carries their number. No other error
    /// comes back, and the length of a string in bytes is a `usize`.
    #[verifier::external_body]
    fn raw_read_string(&mut self) -> (r: Result<String, Option<usize>>)
        requires
            old(self).inv(),
        ensures
            final(self).moved(
                old(self),
                old(self).position() + 8 * c_string_consumed(
                    stream_bits(*old(self)),
                    stream_pos(*old(self)) as int,
                ),
            ),
            !(r matches Err(None)),
            r matches Ok(s) ==> encode_utf8(s@).len() <= usize::MAX,
            bytes_from(stream_bits(*old(self)), stream_pos(*old(self)) as int).contains(0u8) ==> ({
                let raw = c_string_at(stream_bits(*old(self)), stream_pos(*old(self)) as int);
                match r {
                    Ok(s) => valid_utf8(raw) && s@ == decode_utf8(raw),
                    Err(e) => !valid_utf8(raw) && e == Some(raw.len() as usize),
                }
            }),
            !bytes_from(stream_bits(*old(self)), stream_pos(*old(self)) as int).contains(0u8) ==> ({
                let left = bytes_from(stream_bits(*old(self)), stream_pos(*old(self)) as int);
                match r {
                    Ok(s) => left.is_prefix_of(encode_utf8(s@)),
                    Err(e) => e == Some(left.len() as usize),
                }
            }),
    {
        match self.inner.read_string(None) {
            Ok(s) => Ok(s.into_owned()),
            Err(BitError::Utf8Error(_, size)) => Err(Some(size)),
            Err(_) => Err(None),
        }
    }

    /// `BitReadStream::read_bits`: a stream over the next `count` bits, with
    /// its own cursor at their first; the cursor of `self` moves past them.
    #[verifier::external_body]
    fn raw_read_bits(&mut self, count: usize) -> (r: Option<Self>)
        requires
            old(self).inv(),
            count <= old(self).remaining(),
        ensures
            r is Some,
            r matches Some(sub) ==> stream_bits(sub) == stream_bits(*old(self)).subrange(
                stream_pos(*old(self)) as int,
                stream_pos(*old(self)) + count,
            ),
            r matches Some(sub) ==> stream_pos(sub) == 0,
            r matches Some(sub) ==> stream_start(sub) == stream_start(*old(self)) + stream_pos(
                *old(self),
            ),
            final(self).moved(old(self), stream_pos(*old(self)) + count),
    {
        self.inner.read_bits(count).ok().map(|inner| Stream { inner })
    }

    /// A stream over all the bits of `data`, or `None` where `data` is longer
    /// than [`MAX_BUFFER_BYTES`].
    pub fn new(data: &'a [u8]) -> (r: Option<Self>)
        ensures
            r is Some <==> data@.len() <= MAX_BUFFER_BYTES,
            r matches Some(s) ==> s.inv() && s.bits() == bits_of_bytes(data@) && s.position() == 0,
    {
        if data.len() > MAX_BUFFER_BYTES {
            return None;
        }
        proof {
            lemma_bits_of_bytes_len(data@);
        }
        Some(Self::raw_new(data))
    }

    /// The cursor, in bits from the start of the stream.
    pub fn pos(&self) -> (r: usize)
        requires
            self.inv(),
        ensures
            r == self.position(),
    {
        self.raw_pos()
    }

    /// The number of bits between the cursor and the end.
    pub fn bits_left(&self) -> (r: usize)
        requires
            self.inv(),
        ensures
            r == self.remaining(),
    {
        self.raw_bits_left()
    }

    /// The length of the stream in bits.
    pub fn bit_len(&self) -> (r: usize)
        requires
            self.inv(),
        ensures
            r == self.bits().len(),
    {
        self.raw_pos() + self.raw_bits_left()
    }

    /// Moves the cursor to `pos`. A position past the end is refused and the
    /// cursor stays.
    pub fn set_pos(&mut self, pos: usize) -> (r: Result<(), ReadError>)
        requires
            old(self).inv(),
        ensures
            final(self).inv(),
            pos <= old(self).bits().len() ==> r is Ok && final(self).moved(old(self), pos as int),
            pos > old(self).bits().len() ==> final(self).moved(
                old(self),
                old(self).position() as int,
            ) && r == Err::<(), ReadError>(
                ReadError::IndexOutOfBounds { pos, size: old(self).bits().len() as usize },
            ),
    {
        let size = self.bit_len();
        if self.raw_set_pos(pos) {
            Ok(())
        } else {
            Err(ReadError::IndexOutOfBounds { pos, size })
        }
    }

    /// Moves the cursor forward by `count` bits. Where fewer are left the
    /// cursor stays.
    pub fn skip_bits(&mut self, count: usize) -> (r: Result<(), ReadError>)
        requires
            old(self).inv(),
        ensures
            final(self).inv(),
            count <= old(self).remaining() ==> r is Ok && final(self).moved(
                old(self),
                old(self).position() + count,
            ),
            count > old(self).remaining() ==> final(self).moved(
                old(self),
                old(self).position() as int,
            ) && r == Err::<(), ReadError>(
                not_enough_data(count as int, old(self).remaining()),
            ),
    {
        let bits_left = self.raw_bits_left();
        if self.raw_skip_bits(count) {
            Ok(())
        } else {
            Err(ReadError::NotEnoughData { requested: count, bits_left })
        }
    }

    /// Reads one bit.
    pub fn read_bool(&mut self) -> (r: Result<bool, ReadError>)
        requires
            old(self).inv(),
        ensures
            final(self).inv(),
            old(self).remaining() >= 1 ==> final(self).moved(old(self), old(self).position() + 1)
                && r == Ok::<bool, ReadError>(old(self).bits()[old(self).position() as int]),
            old(self).remaining() < 1 ==> final(self).moved(old(self), old(self).position() as int)
                && r == Err::<bool, ReadError>(
                ReadError::NotEnoughData { requested: 1, bits_left: 0 },
            ),
    {
        match self.raw_read_bool() {
            Some(b) => Ok(b),
            None => Err(ReadError::NotEnoughData { requested: 1, bits_left: 0 }),
        }
    }

    /// Reads `count` bits as an unsigned number, first bit least significant.
    ///
    /// More than 64 bits are refused with `TooManyBits`; where fewer than
    /// `count` bits are left the read fails with `NotEnoughData`. The cursor
    /// moves only on success.
    pub fn read_int(&mut self, count: usize) -> (r: Result<u64, ReadError>)
        requires
            old(self).inv(),
        ensures
            final(self).inv(),
            r is Ok <==> count <= 64 && count <= old(self).remaining(),
            r matches Ok(v) ==> v == uint_at(
                old(self).bits(),
                old(self).position() as int,
                count as int,
            ) && v < pow2(count as nat),
            r is Ok ==> final(self).moved(old(self), old(self).position() + count),
            r is Err ==> final(self).moved(old(self), old(self).position() as int),
            count > 64 ==> r == Err::<u64, ReadError>(
                ReadError::TooManyBits { requested: count, max: 64 },
            ),
            count <= 64 && count > old(self).remaining() ==> r == Err::<u64, ReadError>(
                not_enough_data(count as int, old(self).remaining()),
            ),
    {
        if count > 64 {
            return Err(ReadError::TooManyBits { requested: count, max: 64 });
        }
        let bits_left = self.raw_bits_left();
        match self.raw_read_int(count) {
            Some(v) => {
                proof {
                    lemma_bits_value_bound(
                        old(self).bits().subrange(
                            old(self).position() as int,
                            old(self).position() + count,
                        ),
                    );
                }
                Ok(v)
            },
            None => Err(ReadError::NotEnoughData { requested: count, bits_left }),
        }
    }

    /// Reads one byte.
    pub fn read_u8(&mut self) -> (r: Result<u8, ReadError>)
        requires
            old(self).inv(),
        ensures
            final(self).inv(),
            r is Ok <==> 8 <= old(self).remaining(),
            r matches Ok(v) ==> v == uint_at(old(self).bits(), old(self).position() as int, 8)
                && final(self).moved(old(self), old(self).position() + 8),
            r is Err ==> final(self).moved(old(self), old(self).position() as int)
                && r == Err::<u8, ReadError>(not_enough_data(8, old(self).remaining())),
    {
        match self.read_int(8) {
            Ok(v) => {
                proof {
                    lemma2_to64();
                }
                Ok(v as u8)
            },
            Err(e) => Err(e),
        }
    }

    /// Reads two bytes as a little-endian number.
    pub fn read_u16(&mut self) -> (r: Result<u16, ReadError>)
        requires
            old(self).inv(),
        ensures
            final(self).inv(),
            r is Ok <==> 16 <= old(self).remaining(),
            r matches Ok(v) ==> v == uint_at(old(self).bits(), old(self).position() as int, 16)
                && final(self).moved(old(self), old(self).position() + 16),
            r is Err ==> final(self).moved(old(self), old(self).position() as int)
                && r == Err::<u16, ReadError>(not_enough_data(16, old(self).remaining())),
    {
        match self.read_int(16) {
            Ok(v) => {
                proof {
                    lemma2_to64();
                }
                Ok(v as u16)
            },
            Err(e) => Err(e),
        }
    }

    /// Reads four bytes as a little-endian number.
    pub fn read_u32(&mut self) -> (r: Result<u32, ReadError>)
        requires
            old(self).inv(),
        ensures
            final(self).inv(),
            r is Ok <==> 32 <= old(self).remaining(),
            r matches Ok(v) ==> v == uint_at(old(self).bits(), old(self).position() as int, 32)
                && final(self).moved(old(self), old(self).position() + 32),
            r is Err ==> final(self).moved(old(self), old(self).position() as int)
                && r == Err::<u32, ReadError>(not_enough_data(32, old(self).remaining())),
    {
        match self.read_int(32) {
            Ok(v) => {
                proof {
                    lemma2_to64();
                }
                Ok(v as u32)
            },
            Err(e) => Err(e),
        }
    }

    /// Reads `count` bytes. The cursor moves only on success.
    pub fn read_bytes(&mut self, count: usize) -> (r: Result<Vec<u8>, ReadError>)
        requires
            old(self).inv(),
        ensures
            final(self).inv(),
            r is Ok <==> 8 * count <= old(self).remaining(),
            r matches Ok(v) ==> v@ == bytes_at(
                old(self).bits(),
                old(self).position() as int,
                count as int,
            ) && v@.len() == count,
            r is Ok ==> final(self).moved(old(self), old(self).position() + 8 * count),
            r is Err ==> final(self).moved(old(self), old(self).position() as int),
            r matches Err(e) ==> e == not_enough_data(8 * count, old(self).remaining()),
    {
        let bits_left = self.raw_bits_left();
        if count > bits_left / 8 {
            let requested = if count <= usize::MAX / 8 {
                count * 8
            } else {
                usize::MAX
            };
            return Err(ReadError::NotEnoughData { requested, bits_left });
        }
        match self.raw_read_bytes(count) {
            Some(v) => {
                proof {
                    lemma_bytes_of_bits_len(
                        old(self).bits().subrange(
                            old(self).position() as int,
                            old(self).position() + 8 * count,
                        ),
                    );
                }
                Ok(v)
            },
            None => Err(ReadError::NotEnoughData { requested: count * 8, bits_left }),
        }
    }

    /// Takes the next `count` bits as a stream of their own and moves the
    /// cursor past them, whatever is later read from the new stream.
    pub fn read_bits(&mut self, count: usize) -> (r: Result<Self, ReadError>)
        requires
            old(self).inv(),
        ensures
            final(self).inv(),
            r is Ok <==> count <= old(self).remaining(),
            r matches Ok(sub) ==> sub.inv() && sub.position() == 0 && sub.bits() == old(
                self,
            ).bits().subrange(old(self).position() as int, old(self).position() + count)
                && final(self).moved(old(self), old(self).position() + count),
            r is Err ==> final(self).moved(old(self), old(self).position() as int),
            r matches Err(e) ==> e == (ReadError::NotEnoughData {
                requested: count,
                bits_left: old(self).remaining() as usize,
            }),
    {
        let bits_left = self.raw_bits_left();
        if count > bits_left {
            return Err(ReadError::NotEnoughData { requested: count, bits_left });
        }
        match self.raw_read_bits(count) {
            Some(sub) => Ok(sub),
            None => Err(ReadError::NotEnoughData { requested: count, bits_left }),
        }
    }

    /// Reads a NUL-terminated string and moves the cursor past its
    /// terminator.
    ///
    /// The string is made of the whole bytes from the cursor up to the first
    /// zero byte. Where no zero byte is left, the string is all the whole
    /// bytes that are left and the cursor moves past them. The cursor moves
    /// in the same way where the bytes are not valid UTF-8; the error then
    /// carries the number of bytes that the cursor moved by.
    pub fn read_string(&mut self) -> (r: Result<String, ReadError>)
        requires
            old(self).inv(),
        ensures
            final(self).inv(),
            final(self).moved(
                old(self),
                old(self).position() + 8 * c_string_consumed(
                    old(self).bits(),
                    old(self).position(),
                ),
            ),
            r is Ok <==> valid_utf8(c_string_at(old(self).bits(), old(self).position())),
            r matches Ok(s) ==> s@ == decode_utf8(
                c_string_at(old(self).bits(), old(self).position()),
            ),
            r matches Err(e) ==> e == ReadError::Utf8Error(
                c_string_consumed(old(self).bits(), old(self).position()) as usize,
            ),
    {
        let ghost bits = self.bits();
        let ghost pos = self.position();
        let ghost left = bytes_from(bits, pos);
        proof {
            lemma_c_string(left);
            lemma_bytes_of_bits_len(bits.skip(pos));
        }
        let start = self.raw_pos();
        let first = self.raw_read_string();
        let consumed = (self.raw_pos() - start) / 8;
        let terminated = match &first {
            Ok(s) => {
                proof {
                    if left.contains(0u8) {
                        decode_utf8_encode_utf8(c_string(left));
                    }
                }
                s.as_str().len() < consumed
            },
            Err(Some(n)) => *n < consumed,
            Err(None) => false,
        };
        if terminated {
            match first {
                Ok(s) => Ok(s),
                Err(_) => Err(ReadError::Utf8Error(consumed)),
            }
        } else {
            // Without a terminator the first read may have looked at bits
            // behind the end of the stream: the bytes that are left are read
            // again, on their own.
            let _ = self.raw_set_pos(start);
            match self.raw_read_bytes(consumed) {
                Some(bytes) => {
                    proof {
                        lemma_bytes_of_bits_take(bits.skip(pos), consumed as int);
                        assert(bits.subrange(pos, pos + 8 * consumed) =~= bits.skip(pos).take(
                            8 * consumed,
                        ));
                        assert(left.take(consumed as int) =~= left);
                        assert(c_string(left) =~= left);
                    }
                    match string_from_utf8(bytes) {
                        Ok(s) => Ok(s),
                        Err(_) => Err(ReadError::Utf8Error(consumed)),
                    }
                },
                None => Err(ReadError::Utf8Error(consumed)),
            }
        }
    }

    /// Reads a string field of `count` bytes: the cursor moves past all of
    /// them, and the string is the bytes before the field's first zero byte.
    ///
    /// Where fewer than `count` bytes are left the cursor stays. Where the
    /// bytes before the first zero byte are not valid UTF-8, the cursor has
    /// moved and the error carries `count`.
    pub fn read_sized_string(&mut self, count: usize) -> (r: Result<String, ReadError>)
        requires
            old(self).inv(),
        ensures
            final(self).inv(),
            8 * count > old(self).remaining() ==> final(self).moved(old(self), old(self).position())
                && (r matches Err(e) && e == not_enough_data(8 * count, old(self).remaining())),
            8 * count <= old(self).remaining() ==> final(self).moved(
                old(self),
                old(self).position() + 8 * count,
            ) && ({
                let raw = sized_string_at(old(self).bits(), old(self).position(), count as int);
                match r {
                    Ok(s) => valid_utf8(raw) && s@ == decode_utf8(raw),
                    Err(e) => !valid_utf8(raw) && e == ReadError::Utf8Error(count),
                }
            }),
    {
        let mut bytes = match self.read_bytes(count) {
            Ok(bytes) => bytes,
            Err(e) => {
                return Err(e);
            },
        };
        let end = find_nul(bytes.as_slice());
        proof {
            lemma_c_string_take(bytes@, end as int);
        }
        bytes.truncate(end);
        match string_from_utf8(bytes) {
            Ok(s) => Ok(s),
            Err(_) => Err(ReadError::Utf8Error(count)),
        }
    }
}

/// `2^e`.
pub fn power_of_two(e: usize) -> (r: u64)
    requires
        e < 64,
    ensures
        r == pow2(e as nat),
{
    let mut r: u64 = 1;
    let mut i: usize = 0;
    proof {
        lemma2_to64();
    }
    while i < e
        invariant
            i <= e < 64,
            r == pow2(i as nat),
        decreases e - i,
    {
        proof {
            vstd::arithmetic::power2::lemma_pow2_unfold((i + 1) as nat);
            vstd::arithmetic::power2::lemma_pow2_strictly_increases((i + 1) as nat, 64);
            lemma2_to64_rest();
        }
        r = r * 2;
        i = i + 1;
    }
    r
}

/// The number `v` of `count` bits read as two's complement.
pub fn to_signed(v: u64, count: usize) -> (r: i64)
    requires
        count <= 64,
        v < pow2(count as nat),
    ensures
        r == signed_of(v as nat, count as nat),
{
    if count == 0 {
        proof {
            lemma2_to64();
        }
        return 0;
    }
    let half = power_of_two(count - 1);
    proof {
        lemma2_to64();
        lemma2_to64_rest();
        vstd::arithmetic::power2::lemma_pow2_unfold(count as nat);
        if count < 64 {
            vstd::arithmetic::power2::lemma_pow2_strictly_increases((count - 1) as nat, 63);
        }
    }
    if v < half {
        v as i64
    } else {
        let low = (v - half) as i64;
        let negative_half: i64 = if count == 64 {
            i64::MIN
        } else {
            -(half as i64)
        };
        low + negative_half
    }
}

impl<'a> Stream<'a> {
    /// Reads `count` bits as a signed number in two's complement.
    pub fn read_signed(&mut self, count: usize) -> (r: Result<i64, ReadError>)
        requires
            old(self).inv(),
        ensures
            final(self).inv(),
            final(self).same_window(old(self)),
            count <= 64 ==> (match take_signed(
                old(self).bits(),
                old(self).position(),
                count as int,
            ) {
                Ok((v, end)) => r == Ok::<i64, ReadError>(v as i64) && final(self).position()
                    == end && i64::MIN <= v <= i64::MAX,
                Err(e) => r == Err::<i64, ReadError>(e) && final(self).position() == old(
                    self,
                ).position(),
            }),
            count > 64 ==> r is Err && final(self).position() == old(self).position(),
    {
        match self.read_int(count) {
            Ok(v) => Ok(to_signed(v, count)),
            Err(e) => Err(e),
        }
    }
}

/// The greatest number of bytes of a number of varying length.
pub const VAR_INT_BYTES: usize = 5;

/// What reading a number of varying length at `pos` gives, with at most
/// `left` bytes: each byte brings seven bits, lowest first, and its highest
/// bit tells whether another byte follows.
pub open spec fn take_var_bytes(
    bits: Seq<bool>,
    pos: int,
    left: nat,
) -> Result<(nat, int), ReadError>
    decreases left,
{
    if left == 0 {
        Ok((0nat, pos))
    } else {
        match take_uint(bits, pos, 8) {
            Err(e) => Err(e),
            Ok((byte, p1)) => if byte >= 128 {
                match take_var_bytes(bits, p1, (left - 1) as nat) {
                    Err(e) => Err(e),
                    Ok((rest, end)) => Ok(((byte - 128 + 128 * rest) as nat, end)),
                }
            } else {
                Ok((byte, p1))
            },
        }
    }
}

/// What reading a number of varying length of up to 32 bits at `pos` gives:
/// at most five bytes, of which the bits above the 32nd are dropped.
pub open spec fn take_var_int32(bits: Seq<bool>, pos: int) -> Result<(nat, int), ReadError> {
    match take_var_bytes(bits, pos, 5) {
        Err(e) => Err(e),
        Ok((v, end)) => Ok((v % 0x1_0000_0000, end)),
    }
}

/// A number of varying length ends inside the data, not before the place
/// where it starts.
pub proof fn lemma_var_bytes_end(bits: Seq<bool>, pos: int, left: nat)
    requires
        0 <= pos <= bits.len(),
    ensures
        take_var_bytes(bits, pos, left) matches Ok((_, end)) ==> pos <= end <= bits.len(),
    decreases left,
{
    if left > 0 && take_uint(bits, pos, 8) is Ok {
        lemma_var_bytes_end(bits, pos + 8, (left - 1) as nat);
    }
}

impl<'a> Stream<'a> {
    /// Reads the bytes of a number of varying length, at most `left` of
    /// them.
    fn read_var_bytes(&mut self, left: usize) -> (r: Result<u64, ReadError>)
        requires
            old(self).inv(),
            left <= 5,
        ensures
            final(self).inv(),
            final(self).same_window(old(self)),
            (match take_var_bytes(old(self).bits(), old(self).position(), left as nat) {
                Ok((v, end)) => r == Ok::<u64, ReadError>(v as u64) && final(self).position()
                    == end && v < pow2((7 * left) as nat) && v < 0x8_0000_0000,
                Err(e) => r == Err::<u64, ReadError>(e),
            }),
        decreases left,
    {
        proof {
            lemma2_to64();
            lemma2_to64_rest();
        }
        if left == 0 {
            return Ok(0);
        }
        let byte = match self.read_u8() {
            Ok(v) => v,
            Err(e) => {
                return Err(e);
            },
        };
        proof {
            vstd::arithmetic::power2::lemma_pow2_adds(7, (7 * (left - 1)) as nat);
            if left < 5 {
                vstd::arithmetic::power2::lemma_pow2_strictly_increases((7 * left) as nat, 35);
            }
            assert(pow2(35) == 0x8_0000_0000);
        }
        if byte >= 128 {
            match self.read_var_bytes(left - 1) {
                Ok(rest) => {
                    assert((byte - 128 + 128 * rest) < pow2((7 * left) as nat)) by (nonlinear_arith)
                        requires
                            rest < pow2((7 * (left - 1)) as nat),
                            byte < 256,
                            byte >= 128,
                            pow2((7 * left) as nat) == 128 * pow2((7 * (left - 1)) as nat),
                    ;
                    Ok((byte - 128) as u64 + 128 * rest)
                },
                Err(e) => Err(e),
            }
        } else {
            proof {
                vstd::arithmetic::power2::lemma_pow2_pos((7 * (left - 1)) as nat);
            }
            Ok(byte as u64)
        }
    }

    /// Reads a number of varying length of up to 32 bits.
    pub fn read_var_int32(&mut self) -> (r: Result<u32, ReadError>)
        requires
            old(self).inv(),
        ensures
            final(self).inv(),
            final(self).same_window(old(self)),
            (match take_var_int32(old(self).bits(), old(self).position()) {
                Ok((v, end)) => r == Ok::<u32, ReadError>(v as u32) && final(self).position()
                    == end,
                Err(e) => r == Err::<u32, ReadError>(e),
            }),
    {
        match self.read_var_bytes(VAR_INT_BYTES) {
            Ok(v) => Ok((v % 0x1_0000_0000) as u32),
            Err(e) => Err(e),
        }
    }
}

} // verus!
