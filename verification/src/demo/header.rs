//! The head of a demo file: 1072 bytes that say what was recorded.
use crate::demo::parser::ParseError;
use crate::stream::{
    signed_of, take_bytes, take_sized_string, take_uint, ReadError, Stream,
};
use vstd::arithmetic::power2::{lemma2_to64, lemma2_to64_rest};
use vstd::prelude::*;
use vstd::utf8::decode_utf8;

verus! {

/// The length in bytes of each of the four names in the head.
pub const HEADER_NAME_BYTES: usize = 260;

/// The length in bits of the head.
pub const HEADER_BITS: usize = 8576;

/// The words that a demo file opens with: `HL2DEMO` and a zero byte.
pub open spec fn magic() -> Seq<u8> {
    seq![0x48u8, 0x4cu8, 0x32u8, 0x44u8, 0x45u8, 0x4du8, 0x4fu8, 0u8]
}

/// The head of a demo file. The playback time is a 32-bit IEEE 754 number,
/// held as the 32 bits that encode it.
#[derive(Debug, Clone, PartialEq, Eq)]
pub struct Header {
    pub demo_protocol: i32,
    pub net_protocol: i32,
    pub server: String,
    pub nick: String,
    pub map: String,
    pub game: String,
    pub duration: u32,
    pub ticks: i32,
    pub frames: i32,
    pub sign_on_length: i32,
}

/// What a [`Header`] holds.
pub struct HeaderView {
    pub demo_protocol: i32,
    pub net_protocol: i32,
    pub server: Seq<char>,
    pub nick: Seq<char>,
    pub map: Seq<char>,
    pub game: Seq<char>,
    pub duration: u32,
    pub ticks: i32,
    pub frames: i32,
    pub sign_on_length: i32,
}

/// What reading a signed number of 32 bits at `pos` gives.
pub open spec fn take_i32(bits: Seq<bool>, pos: int) -> Result<(i32, int), ReadError> {
    match take_uint(bits, pos, 32) {
        Err(e) => Err(e),
        Ok((v, end)) => Ok((signed_of(v, 32) as i32, end)),
    }
}

/// Reads a signed number of 32 bits.
pub fn read_i32(stream: &mut Stream) -> (r: Result<i32, ReadError>)
    requires
        old(stream).inv(),
    ensures
        final(stream).inv(),
        final(stream).same_window(old(stream)),
        (match take_i32(old(stream).bits(), old(stream).position()) {
            Ok((v, end)) => r == Ok::<i32, ReadError>(v) && final(stream).position() == end,
            Err(e) => r == Err::<i32, ReadError>(e),
        }),
{
    match stream.read_signed(32) {
        Ok(v) => {
            proof {
                lemma2_to64();
                lemma2_to64_rest();
                crate::bits::lemma_bits_value_bound(
                    old(stream).bits().subrange(
                        old(stream).position(),
                        old(stream).position() + 32,
                    ),
                );
            }
            Ok(v as i32)
        },
        Err(e) => Err(e),
    }
}

/// Whether the bytes are the words that a demo file opens with.
pub fn is_magic(bytes: &[u8]) -> (r: bool)
    ensures
        r == (bytes@ == magic()),
{
    if bytes.len() != 8 {
        return false;
    }
    let r = bytes[0] == 0x48 && bytes[1] == 0x4c && bytes[2] == 0x32 && bytes[3] == 0x44 && bytes[4]
        == 0x45 && bytes[5] == 0x4d && bytes[6] == 0x4f && bytes[7] == 0;
    proof {
        if r {
            assert(bytes@ =~= magic());
        } else {
            let m = magic();
            if bytes@ == m {
                assert(m[0] == bytes@[0] && m[1] == bytes@[1] && m[2] == bytes@[2] && m[3]
                    == bytes@[3] && m[4] == bytes@[4] && m[5] == bytes@[5] && m[6] == bytes@[6]
                    && m[7] == bytes@[7]);
            }
        }
    }
    r
}

impl Header {
    /// What the head holds.
    pub open spec fn view(&self) -> HeaderView {
        HeaderView {
            demo_protocol: self.demo_protocol,
            net_protocol: self.net_protocol,
            server: self.server@,
            nick: self.nick@,
            map: self.map@,
            game: self.game@,
            duration: self.duration,
            ticks: self.ticks,
            frames: self.frames,
            sign_on_length: self.sign_on_length,
        }
    }

    /// What decoding what follows the opening words gives: the two
    /// protocols; the names of the server, the client, the map and the game
    /// directory, each in 260 bytes; the playback time; and the numbers of
    /// ticks, of frames, and of the bytes of signing on.
    pub open spec fn parse_fields(
        bits: Seq<bool>,
        pos: int,
    ) -> Result<(HeaderView, int), ReadError> {
        match take_i32(bits, pos) {
            Err(e) => Err(e),
            Ok((demo_protocol, p1)) => match take_i32(bits, p1) {
                Err(e) => Err(e),
                Ok((net_protocol, p2)) => match take_sized_string(bits, p2, 260) {
                    Err(e) => Err(e),
                    Ok((server, p3)) => match take_sized_string(bits, p3, 260) {
                        Err(e) => Err(e),
                        Ok((nick, p4)) => match take_sized_string(bits, p4, 260) {
                            Err(e) => Err(e),
                            Ok((map, p5)) => match take_sized_string(bits, p5, 260) {
                                Err(e) => Err(e),
                                Ok((game, p6)) => match take_uint(bits, p6, 32) {
                                    Err(e) => Err(e),
                                    Ok((duration, p7)) => match take_i32(bits, p7) {
                                        Err(e) => Err(e),
                                        Ok((ticks, p8)) => match take_i32(bits, p8) {
                                            Err(e) => Err(e),
                                            Ok((frames, p9)) => match take_i32(bits, p9) {
                                                Err(e) => Err(e),
                                                Ok((sign_on_length, end)) => Ok(
                                                    (
                                                        HeaderView {
                                                            demo_protocol,
                                                            net_protocol,
                                                            server: decode_utf8(server),
                                                            nick: decode_utf8(nick),
                                                            map: decode_utf8(map),
                                                            game: decode_utf8(game),
                                                            duration: duration as u32,
                                                            ticks,
                                                            frames,
                                                            sign_on_length,
                                                        },
                                                        end,
                                                    ),
                                                ),
                                            },
                                        },
                                    },
                                },
                            },
                        },
                    },
                },
            },
        }
    }

    /// What decoding the head at `pos` gives. A file that does not open with
    /// the words of a demo is refused.
    pub open spec fn parse(bits: Seq<bool>, pos: int) -> Result<(HeaderView, int), ParseError> {
        match take_bytes(bits, pos, 8) {
            Err(e) => Err(ParseError::of_read(e)),
            Ok((words, p1)) => if words != magic() {
                Err(ParseError::InvalidMagic)
            } else {
                match Self::parse_fields(bits, p1) {
                    Err(e) => Err(ParseError::of_read(e)),
                    Ok(found) => Ok(found),
                }
            },
        }
    }

    /// Reads what follows the opening words.
    pub fn read_fields(stream: &mut Stream) -> (r: Result<Self, ReadError>)
        requires
            old(stream).inv(),
        ensures
            final(stream).inv(),
            final(stream).same_window(old(stream)),
            (match Self::parse_fields(old(stream).bits(), old(stream).position()) {
                Ok((view, end)) => (r matches Ok(found) && found@ == view)
                    && final(stream).position() == end && end == old(stream).position() + 8512,
                Err(e) => r matches Err(x) && x == e,
            }),
    {
        let demo_protocol = match read_i32(stream) {
            Ok(v) => v,
            Err(e) => {
                return Err(e);
            },
        };
        let net_protocol = match read_i32(stream) {
            Ok(v) => v,
            Err(e) => {
                return Err(e);
            },
        };
        let server = match stream.read_sized_string(HEADER_NAME_BYTES) {
            Ok(v) => v,
            Err(e) => {
                return Err(e);
            },
        };
        let nick = match stream.read_sized_string(HEADER_NAME_BYTES) {
            Ok(v) => v,
            Err(e) => {
                return Err(e);
            },
        };
        let map = match stream.read_sized_string(HEADER_NAME_BYTES) {
            Ok(v) => v,
            Err(e) => {
                return Err(e);
            },
        };
        let game = match stream.read_sized_string(HEADER_NAME_BYTES) {
            Ok(v) => v,
            Err(e) => {
                return Err(e);
            },
        };
        let duration = match stream.read_u32() {
            Ok(v) => v,
            Err(e) => {
                return Err(e);
            },
        };
        let ticks = match read_i32(stream) {
            Ok(v) => v,
            Err(e) => {
                return Err(e);
            },
        };
        let frames = match read_i32(stream) {
            Ok(v) => v,
            Err(e) => {
                return Err(e);
            },
        };
        let sign_on_length = match read_i32(stream) {
            Ok(v) => v,
            Err(e) => {
                return Err(e);
            },
        };
        Ok(
            Header {
                demo_protocol,
                net_protocol,
                server,
                nick,
                map,
                game,
                duration,
                ticks,
                frames,
                sign_on_length,
            },
        )
    }

    /// Reads the head of a demo file. A head that decodes takes up 1072
    /// bytes.
    pub fn read(stream: &mut Stream) -> (r: Result<Self, ParseError>)
        requires
            old(stream).inv(),
        ensures
            final(stream).inv(),
            final(stream).same_window(old(stream)),
            (match Self::parse(old(stream).bits(), old(stream).position()) {
                Ok((view, end)) => (r matches Ok(found) && found@ == view)
                    && final(stream).position() == end && end == old(stream).position()
                    + HEADER_BITS,
                Err(e) => r matches Err(x) && x == e,
            }),
    {
        let words = match stream.read_bytes(8) {
            Ok(v) => v,
            Err(e) => {
                return Err(ParseError::from_read(e));
            },
        };
        if !is_magic(words.as_slice()) {
            return Err(ParseError::InvalidMagic);
        }
        match Self::read_fields(stream) {
            Ok(header) => Ok(header),
            Err(e) => Err(ParseError::from_read(e)),
        }
    }
}

} // verus!
