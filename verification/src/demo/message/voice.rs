//! Voice and sound.
use crate::bits::lemma_bits_value_bound;
use crate::demo::sendprop::{read_part, take_part};
use crate::stream::{take_bool, take_skip, take_string, take_uint, ReadError, Stream};
use vstd::arithmetic::power2::lemma2_to64;
use vstd::prelude::*;
use vstd::utf8::decode_utf8;

verus! {

/// The quality that announces that more about the codec follows.
pub const VOICE_QUALITY_EXTENDED: u8 = 255;

/// The codec that voice is sent in.
#[derive(Debug, Clone, PartialEq, Eq)]
pub struct VoiceInitMessage {
    pub codec: String,
    pub quality: u8,
    /// What follows a quality of 255, and zero otherwise.
    pub extra_data: u16,
}

/// What a [`VoiceInitMessage`] holds.
pub struct VoiceInitMessageView {
    pub codec: Seq<char>,
    pub quality: u8,
    pub extra_data: u16,
}

impl VoiceInitMessage {
    /// What the message holds.
    pub open spec fn view(&self) -> VoiceInitMessageView {
        VoiceInitMessageView {
            codec: self.codec@,
            quality: self.quality,
            extra_data: self.extra_data,
        }
    }

    /// What decoding the message at `pos` gives: the name of the codec, the
    /// quality in a byte, and behind a quality of 255 sixteen bits more.
    #[verifier::opaque]
    pub open spec fn parse(
        bits: Seq<bool>,
        pos: int,
    ) -> Result<(VoiceInitMessageView, int), ReadError> {
        match take_string(bits, pos) {
            Err(e) => Err(e),
            Ok((codec, p1)) => match take_uint(bits, p1, 8) {
                Err(e) => Err(e),
                Ok((quality, p2)) => match take_part(bits, p2, quality == 255, 16) {
                    Err(e) => Err(e),
                    Ok((extra_data, end)) => Ok(
                        (
                            VoiceInitMessageView {
                                codec: decode_utf8(codec),
                                quality: quality as u8,
                                extra_data: extra_data as u16,
                            },
                            end,
                        ),
                    ),
                },
            },
        }
    }

    /// Reads the message.
    pub fn read(stream: &mut Stream) -> (r: Result<Self, ReadError>)
        requires
            old(stream).inv(),
        ensures
            final(stream).inv(),
            final(stream).same_window(old(stream)),
            (match Self::parse(old(stream).bits(), old(stream).position()) {
                Ok((view, end)) => (r matches Ok(found) && found@ == view)
                    && final(stream).position() == end,
                Err(e) => r matches Err(x) && x == e,
            }),
    {
        reveal(VoiceInitMessage::parse);
        proof {
            lemma2_to64();
        }
        let codec = match stream.read_string() {
            Ok(v) => v,
            Err(e) => {
                return Err(e);
            },
        };
        let quality = match stream.read_u8() {
            Ok(v) => v,
            Err(e) => {
                return Err(e);
            },
        };
        let extra_data = match read_part(stream, quality == VOICE_QUALITY_EXTENDED, 16) {
            Ok(v) => v as u16,
            Err(e) => {
                return Err(e);
            },
        };
        Ok(VoiceInitMessage { codec, quality, extra_data })
    }
}

/// Sounds to play.
#[derive(Debug)]
pub struct ParseSoundsMessage<'a> {
    pub reliable: bool,
    /// The number of sounds: one where the message is reliable.
    pub num: u8,
    /// The length of the data in bits.
    pub length: u16,
    pub data: Stream<'a>,
}

/// What a [`ParseSoundsMessage`] holds.
pub struct ParseSoundsMessageView {
    pub reliable: bool,
    pub num: u8,
    pub length: u16,
    pub data: Seq<bool>,
}

impl<'a> ParseSoundsMessage<'a> {
    /// What the message holds.
    pub open spec fn view(&self) -> ParseSoundsMessageView {
        ParseSoundsMessageView {
            reliable: self.reliable,
            num: self.num,
            length: self.length,
            data: self.data.bits(),
        }
    }

    /// What decoding the message at `pos` gives: a bit that tells whether
    /// the message is reliable; the number of sounds in a byte, unless the
    /// message is reliable and brings one; the length of the data, in eight
    /// bits where reliable and in sixteen otherwise; and the data.
    #[verifier::opaque]
    pub open spec fn parse(bits: Seq<bool>, pos: int) -> Result<
        (ParseSoundsMessageView, int),
        ReadError,
    > {
        match take_bool(bits, pos) {
            Err(e) => Err(e),
            Ok((reliable, p1)) => match take_part(bits, p1, !reliable, 8) {
                Err(e) => Err(e),
                Ok((sent, p2)) => match take_uint(
                    bits,
                    p2,
                    if reliable {
                        8
                    } else {
                        16
                    },
                ) {
                    Err(e) => Err(e),
                    Ok((length, p3)) => match take_skip(bits, p3, length as int) {
                        Err(e) => Err(e),
                        Ok(end) => Ok(
                            (
                                ParseSoundsMessageView {
                                    reliable,
                                    num: if reliable {
                                        1
                                    } else {
                                        sent as u8
                                    },
                                    length: length as u16,
                                    data: bits.subrange(p3, end),
                                },
                                end,
                            ),
                        ),
                    },
                },
            },
        }
    }

    /// Reads the message.
    pub fn read(stream: &mut Stream<'a>) -> (r: Result<Self, ReadError>)
        requires
            old(stream).inv(),
        ensures
            final(stream).inv(),
            final(stream).same_window(old(stream)),
            (match Self::parse(old(stream).bits(), old(stream).position()) {
                Ok((view, end)) => (r matches Ok(found) && found@ == view)
                    && final(stream).position() == end,
                Err(e) => r matches Err(x) && x == e,
            }),
    {
        reveal(ParseSoundsMessage::parse);
        proof {
            lemma2_to64();
        }
        let reliable = match stream.read_bool() {
            Ok(v) => v,
            Err(e) => {
                return Err(e);
            },
        };
        let sent = match read_part(stream, !reliable, 8) {
            Ok(v) => v as u8,
            Err(e) => {
                return Err(e);
            },
        };
        let width: usize = if reliable {
            8
        } else {
            16
        };
        let length = match read_part(stream, true, width) {
            Ok(v) => {
                proof {
                    if reliable {
                        vstd::arithmetic::power2::lemma_pow2_strictly_increases(8, 16);
                    }
                }
                v as u16
            },
            Err(e) => {
                return Err(e);
            },
        };
        let data = match stream.read_bits(length as usize) {
            Ok(v) => v,
            Err(e) => {
                return Err(e);
            },
        };
        let num = if reliable {
            1
        } else {
            sent
        };
        Ok(ParseSoundsMessage { reliable, num, length, data })
    }
}

/// The message ends where its length says: behind its fields, which take
/// up 9 bits where the message is reliable and 25 where it is not, and the
/// bits of data that the length counts.
pub proof fn lemma_parse_sounds_length(bits: Seq<bool>, pos: int)
    requires
        0 <= pos <= bits.len(),
    ensures
        ParseSoundsMessage::parse(bits, pos) matches Ok((m, end)) ==> ({
            &&& end == pos + (if m.reliable {
                9int
            } else {
                25int
            }) + m.length
            &&& m.data.len() == m.length
            &&& end <= bits.len()
        }),
{
    reveal(ParseSoundsMessage::parse);
    lemma2_to64();
    lemma_bits_value_bound(bits.subrange(pos + 1, pos + 9));
    lemma_bits_value_bound(bits.subrange(pos + 9, pos + 25));
    vstd::arithmetic::power2::lemma_pow2_strictly_increases(8, 16);
}

} // verus!
