//! Data types shared by the messages of a demo.
use crate::bits::{
    bits_of_bytes, c_string, lemma_bits_of_bytes_append, lemma_bits_of_bytes_len,
    lemma_bytes_of_bits_take, lemma_c_string, value_bits,
};
use crate::stream::{bytes_from, c_string_at, c_string_consumed, ReadError, Stream};
use crate::text::string_from_utf8;
use crate::writer::Writer;
use vstd::prelude::*;
use vstd::std_specs::convert::FromSpecImpl;
use vstd::utf8::{decode_utf8_encode_utf8, encode_utf8, valid_utf8};

pub mod userinfo;

verus! {

/// A string off the wire that may not be valid UTF-8: either text, or the
/// bytes as they were found. No byte is ever lost.
#[derive(Debug, Clone, PartialEq, Eq)]
pub enum MaybeUtf8String {
    Valid(String),
    Invalid(Vec<u8>),
}

/// What stands for malformed bytes where text is asked for.
pub open spec fn malformed_text() -> Seq<char> {
    "-- Malformed utf8 --"@
}

impl MaybeUtf8String {
    /// The bytes of the string.
    pub open spec fn bytes(&self) -> Seq<u8> {
        match self {
            MaybeUtf8String::Valid(s) => encode_utf8(s@),
            MaybeUtf8String::Invalid(b) => b@,
        }
    }

    /// The string as text; malformed bytes are stood for by a fixed notice.
    pub open spec fn text(&self) -> Seq<char> {
        match self {
            MaybeUtf8String::Valid(s) => s@,
            MaybeUtf8String::Invalid(_) => malformed_text(),
        }
    }

    /// The bits of the string on the wire: its bytes and a zero byte.
    pub open spec fn wire_bits(&self) -> Seq<bool> {
        bits_of_bytes(self.bytes().push(0u8))
    }

    /// The string that the bytes `raw` stand for: text where they are valid
    /// UTF-8, the bytes themselves where they are not.
    pub open spec fn from_bytes_spec(raw: Seq<u8>, value: Self) -> bool {
        &&& value.bytes() == raw
        &&& value is Valid <==> valid_utf8(raw)
    }

    /// The string that the bytes stand for: text where they are valid UTF-8,
    /// the bytes themselves where they are not.
    pub fn from_bytes(bytes: Vec<u8>) -> (r: Self)
        ensures
            Self::from_bytes_spec(bytes@, r),
    {
        match string_from_utf8(bytes) {
            Ok(s) => {
                proof {
                    decode_utf8_encode_utf8(bytes@);
                }
                MaybeUtf8String::Valid(s)
            },
            Err(bytes) => MaybeUtf8String::Invalid(bytes),
        }
    }

    /// The bytes of the string, whether or not they are text.
    pub fn as_bytes(&self) -> (r: &[u8])
        ensures
            r@ == self.bytes(),
    {
        match self {
            MaybeUtf8String::Valid(s) => s.as_str().as_bytes(),
            MaybeUtf8String::Invalid(b) => b.as_slice(),
        }
    }

    /// The string as text; malformed bytes are stood for by a fixed notice.
    pub fn as_ref(&self) -> (r: &str)
        ensures
            r@ == self.text(),
    {
        match self {
            MaybeUtf8String::Valid(s) => s.as_str(),
            MaybeUtf8String::Invalid(_) => "-- Malformed utf8 --",
        }
    }

    /// The string as owned text; malformed bytes are stood for by a fixed
    /// notice.
    pub fn into_string(self) -> (r: String)
        ensures
            r@ == self.text(),
    {
        match self {
            MaybeUtf8String::Valid(s) => s,
            MaybeUtf8String::Invalid(_) => "-- Malformed utf8 --".to_owned(),
        }
    }

    /// Reads a NUL-terminated string, keeping its bytes where they are not
    /// valid UTF-8.
    ///
    /// The string is read as text first. Where that fails, the cursor goes
    /// back by the bytes that the failed read consumed, the same bytes are
    /// read again as they are, and zero bytes at their end are dropped. The
    /// read never fails: the result holds the bytes from the cursor up to the
    /// first zero byte (or to the last whole byte that is left), and the
    /// cursor ends behind the terminator.
    pub fn read(stream: &mut Stream) -> (r: Result<Self, ReadError>)
        requires
            old(stream).inv(),
        ensures
            final(stream).inv(),
            final(stream).moved(
                old(stream),
                old(stream).position() + 8 * c_string_consumed(
                    old(stream).bits(),
                    old(stream).position(),
                ),
            ),
            r matches Ok(value) && Self::from_bytes_spec(
                c_string_at(old(stream).bits(), old(stream).position()),
                value,
            ),
    {
        let ghost bits = stream.bits();
        let ghost start = stream.position();
        let ghost left = bytes_from(bits, start);
        let ghost raw = c_string(left);
        proof {
            lemma_c_string(left);
            crate::bits::lemma_bytes_of_bits_len(bits.skip(start));
        }
        match stream.read_string() {
            Ok(s) => {
                proof {
                    decode_utf8_encode_utf8(raw);
                }
                Ok(MaybeUtf8String::Valid(s))
            },
            Err(ReadError::Utf8Error(size)) => {
                let pos = stream.pos();
                let back = if size <= pos / 8 {
                    pos - size * 8
                } else {
                    0
                };
                match stream.set_pos(back) {
                    Ok(()) => {},
                    Err(e) => {
                        return Err(e);
                    },
                }
                let mut data = match stream.read_bytes(size) {
                    Ok(data) => data,
                    Err(e) => {
                        return Err(e);
                    },
                };
                proof {
                    lemma_bytes_of_bits_take(bits.skip(start), size as int);
                    assert(bits.subrange(start, start + 8 * size) =~= bits.skip(start).take(
                        8 * size,
                    ));
                    assert(data@ == left.take(size as int));
                }
                while data.len() > 0 && data[data.len() - 1] == 0
                    invariant
                        raw.is_prefix_of(data@),
                        data@.len() <= raw.len() + 1,
                        data@.len() > raw.len() ==> data@[raw.len() as int] == 0,
                        !raw.contains(0u8),
                    decreases data@.len(),
                {
                    proof {
                        if data@.len() <= raw.len() {
                            assert(raw[data@.len() - 1] == data@[data@.len() - 1]);
                            assert(raw.contains(raw[data@.len() - 1]));
                        }
                    }
                    data.pop();
                }
                proof {
                    assert(data@ =~= raw);
                }
                match string_from_utf8(data) {
                    Ok(s) => {
                        proof {
                            decode_utf8_encode_utf8(raw);
                        }
                        Ok(MaybeUtf8String::Valid(s))
                    },
                    Err(bytes) => Ok(MaybeUtf8String::Invalid(bytes)),
                }
            },
            Err(e) => Err(e),
        }
    }

    /// Writes the bytes of the string and a zero byte.
    pub fn write(&self, writer: &mut Writer)
        requires
            old(writer).bits().len() + 8 * (self.bytes().len() + 1) <= usize::MAX,
        ensures
            final(writer).bits() == old(writer).bits() + self.wire_bits(),
    {
        let bytes = self.as_bytes();
        proof {
            lemma_bits_of_bytes_len(self.bytes());
        }
        writer.write_bytes(bytes);
        writer.write_int(0, 8);
        proof {
            lemma_bits_of_bytes_append(self.bytes(), seq![0u8]);
            assert(self.bytes().push(0u8) =~= self.bytes() + seq![0u8]);
            assert(bits_of_bytes(seq![0u8]) =~= value_bits(0, 8)) by {
                reveal_with_fuel(bits_of_bytes, 2);
                assert(seq![0u8].drop_first() =~= Seq::<u8>::empty());
            }
            assert(old(writer).bits() + bits_of_bytes(self.bytes()) + value_bits(0, 8) =~= old(
                writer,
            ).bits() + (bits_of_bytes(self.bytes()) + value_bits(0, 8)));
        }
    }
}

impl Default for MaybeUtf8String {
    /// The empty text.
    fn default() -> (r: Self)
        ensures
            r is Valid,
            r.text().len() == 0,
    {
        MaybeUtf8String::Valid(String::new())
    }
}

impl<'a> From<&'a str> for MaybeUtf8String {
    /// The text, as it is.
    fn from(s: &'a str) -> (r: Self)
        ensures
            r is Valid,
            r.text() == s@,
    {
        MaybeUtf8String::Valid(s.to_owned())
    }
}

/// What the conversion gives is said by the `ensures` of [`From::from`]
/// above: the value owns a copy of the text, and no term names it.
impl<'a> FromSpecImpl<&'a str> for MaybeUtf8String {
    open spec fn obeys_from_spec() -> bool {
        false
    }

    open spec fn from_spec(s: &'a str) -> Self {
        arbitrary()
    }
}

/// A string written to the wire and read back has the bytes it had: for all
/// bytes without a zero byte among them, whatever stands before and behind
/// them on the wire, the read finds exactly those bytes and ends behind the
/// terminator.
pub proof fn lemma_write_then_read(
    value: MaybeUtf8String,
    before: Seq<bool>,
    after: Seq<bool>,
)
    requires
        !value.bytes().contains(0u8),
    ensures
        c_string_at(before + value.wire_bits() + after, before.len() as int) == value.bytes(),
        c_string_consumed(before + value.wire_bits() + after, before.len() as int)
            == value.bytes().len() + 1,
{
    crate::roundtrip::lemma_c_string_round_trip(before, value.bytes(), after);
}

} // verus!
