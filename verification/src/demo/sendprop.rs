//! Properties of entities: how each is declared, and how its value is laid
//! out on the wire.
//!
//! Numbers with a fraction are not computed here. A value of that sort is
//! kept as the whole numbers that the wire holds for it (a sign, a whole
//! part, a fraction, or the 32 bits of an IEEE 754 number) beside the name of
//! the encoding, which says how they make up the number.
use crate::demo::message::stringtable::{index_bits, index_width};
use crate::demo::parser::ParseError;
use crate::stream::{signed_of, take_bool, take_bytes, take_uint, ReadError, Stream};
use vstd::arithmetic::power2::{lemma2_to64, lemma2_to64_rest, pow2};
use vstd::prelude::*;

verus! {

/// The type of a property.
#[derive(Clone, Copy, Debug, PartialEq, Eq, Structural)]
pub enum SendPropType {
    Int,
    Float,
    Vector,
    VectorXY,
    String,
    Array,
    DataTable,
    Int64,
}

impl SendPropType {
    /// The number that names the type on the wire.
    pub open spec fn id(self) -> u8 {
        match self {
            SendPropType::Int => 0,
            SendPropType::Float => 1,
            SendPropType::Vector => 2,
            SendPropType::VectorXY => 3,
            SendPropType::String => 4,
            SendPropType::Array => 5,
            SendPropType::DataTable => 6,
            SendPropType::Int64 => 7,
        }
    }

    /// The type that the number `raw` names, if it names one.
    pub open spec fn from_id(raw: u8) -> Option<Self> {
        match raw {
            0 => Some(SendPropType::Int),
            1 => Some(SendPropType::Float),
            2 => Some(SendPropType::Vector),
            3 => Some(SendPropType::VectorXY),
            4 => Some(SendPropType::String),
            5 => Some(SendPropType::Array),
            6 => Some(SendPropType::DataTable),
            7 => Some(SendPropType::Int64),
            _ => None,
        }
    }

    /// The type that `raw` names, if it names one.
    pub fn from_u8(raw: u8) -> (r: Option<Self>)
        ensures
            r == Self::from_id(raw),
    {
        match raw {
            0 => Some(SendPropType::Int),
            1 => Some(SendPropType::Float),
            2 => Some(SendPropType::Vector),
            3 => Some(SendPropType::VectorXY),
            4 => Some(SendPropType::String),
            5 => Some(SendPropType::Array),
            6 => Some(SendPropType::DataTable),
            7 => Some(SendPropType::Int64),
            _ => None,
        }
    }

    /// The number that names the type on the wire.
    pub fn to_u8(self) -> (r: u8)
        ensures
            r == self.id(),
    {
        match self {
            SendPropType::Int => 0,
            SendPropType::Float => 1,
            SendPropType::Vector => 2,
            SendPropType::VectorXY => 3,
            SendPropType::String => 4,
            SendPropType::Array => 5,
            SendPropType::DataTable => 6,
            SendPropType::Int64 => 7,
        }
    }
}

/// The flags of a property, in the order of their bits on the wire, lowest
/// first.
#[derive(Clone, Copy, Debug, PartialEq, Eq, Structural)]
pub struct SendPropFlags {
    pub unsigned: bool,
    pub coord: bool,
    pub no_scale: bool,
    pub round_down: bool,
    pub round_up: bool,
    pub normal: bool,
    pub exclude: bool,
    pub xyze: bool,
    pub inside_array: bool,
    pub proxy_always_yes: bool,
    pub changes_often: bool,
    pub is_vector_elem: bool,
    pub collapsible: bool,
    pub coord_mp: bool,
    pub coord_mp_low_precision: bool,
    pub coord_mp_integral: bool,
}

/// How a number with a fraction is laid out on the wire.
#[derive(Clone, Copy, Debug, PartialEq, Eq, Structural)]
pub enum FloatEncoding {
    /// A coordinate: two bits tell whether a whole part and a fraction
    /// follow; if either does, a sign, then the whole part in 13 bits and the
    /// fraction in 5.
    Coord,
    /// A coordinate as sent in multiplayer games: a bit tells whether the
    /// coordinate is in bounds, a bit whether a whole part follows, then a
    /// sign, the whole part in 11 bits where in bounds and in 14 otherwise,
    /// and the fraction in 5 bits.
    CoordMP,
    /// As `CoordMP`, with a fraction of 3 bits.
    CoordMPLowPrecision,
    /// A whole coordinate as sent in multiplayer games: a bit tells whether
    /// the coordinate is in bounds, a bit whether it is other than zero; if
    /// so, a sign and the whole part in 11 bits where in bounds and in 14
    /// otherwise.
    CoordMPIntegral,
    /// The 32 bits of an IEEE 754 number.
    NoScale,
    /// A component of a unit vector: a sign and a fraction of 11 bits.
    Normal,
    /// A number between the low and the high value of the property: the bit
    /// count of the property says how many bits hold how far it lies between
    /// the two.
    Scaled,
}

impl SendPropFlags {
    /// The encoding that the flags ask for. Where several flags are set the
    /// first of coordinate, the multiplayer coordinates, no scale and normal
    /// decides.
    pub open spec fn encoding(self) -> FloatEncoding {
        if self.coord {
            FloatEncoding::Coord
        } else if self.coord_mp {
            FloatEncoding::CoordMP
        } else if self.coord_mp_low_precision {
            FloatEncoding::CoordMPLowPrecision
        } else if self.coord_mp_integral {
            FloatEncoding::CoordMPIntegral
        } else if self.no_scale {
            FloatEncoding::NoScale
        } else if self.normal {
            FloatEncoding::Normal
        } else {
            FloatEncoding::Scaled
        }
    }

    /// The encoding that the flags ask for.
    pub fn float_encoding(&self) -> (r: FloatEncoding)
        ensures
            r == self.encoding(),
    {
        if self.coord {
            FloatEncoding::Coord
        } else if self.coord_mp {
            FloatEncoding::CoordMP
        } else if self.coord_mp_low_precision {
            FloatEncoding::CoordMPLowPrecision
        } else if self.coord_mp_integral {
            FloatEncoding::CoordMPIntegral
        } else if self.no_scale {
            FloatEncoding::NoScale
        } else if self.normal {
            FloatEncoding::Normal
        } else {
            FloatEncoding::Scaled
        }
    }
}

/// A number with a fraction as the wire holds it. Parts that the encoding
/// does not send are zero or false.
#[derive(Clone, Copy, Debug, PartialEq, Eq, Structural)]
pub struct WireFloat {
    pub encoding: FloatEncoding,
    /// For the multiplayer coordinates: whether the coordinate is in bounds.
    pub in_bounds: bool,
    /// Whether a whole part was sent.
    pub has_whole: bool,
    /// Whether a fraction was sent.
    pub has_fraction: bool,
    pub negative: bool,
    /// The whole part; for `NoScale` the 32 bits of the number, for `Scaled`
    /// the bits that were sent.
    pub whole: u32,
    pub fraction: u32,
}

/// The number of bits of the whole part of a coordinate.
pub const COORD_WHOLE_BITS: usize = 13;

/// The number of bits of the fraction of a coordinate.
pub const COORD_FRACTION_BITS: usize = 5;

/// The number of bits of the fraction of a coordinate of low precision.
pub const COORD_FRACTION_BITS_LOW: usize = 3;

/// The number of bits of the whole part of a multiplayer coordinate that is
/// in bounds.
pub const COORD_WHOLE_BITS_MP: usize = 11;

/// The number of bits of the whole part of a multiplayer coordinate that is
/// out of bounds.
pub const COORD_WHOLE_BITS_MP_OUT: usize = 14;

/// The number of bits of the fraction of a component of a unit vector.
pub const NORMAL_FRACTION_BITS: usize = 11;

/// What an optional part of a number is: `n` bits where `present`, and zero
/// without reading where not.
pub open spec fn take_part(bits: Seq<bool>, pos: int, present: bool, n: int) -> Result<
    (nat, int),
    ReadError,
> {
    if present {
        take_uint(bits, pos, n)
    } else {
        Ok((0nat, pos))
    }
}

/// What an optional flag is: one bit where `present`, and false without
/// reading where not.
pub open spec fn take_flag(bits: Seq<bool>, pos: int, present: bool) -> Result<
    (bool, int),
    ReadError,
> {
    if present {
        take_bool(bits, pos)
    } else {
        Ok((false, pos))
    }
}

impl WireFloat {
    /// What decoding a coordinate at `pos` gives.
    pub open spec fn parse_coord(bits: Seq<bool>, pos: int) -> Result<(Self, int), ReadError> {
        match take_bool(bits, pos) {
            Err(e) => Err(e),
            Ok((has_whole, p1)) => match take_bool(bits, p1) {
                Err(e) => Err(e),
                Ok((has_fraction, p2)) => match take_flag(bits, p2, has_whole || has_fraction) {
                    Err(e) => Err(e),
                    Ok((negative, p3)) => match take_part(bits, p3, has_whole, 13) {
                        Err(e) => Err(e),
                        Ok((whole, p4)) => match take_part(bits, p4, has_fraction, 5) {
                            Err(e) => Err(e),
                            Ok((fraction, end)) => Ok(
                                (
                                    WireFloat {
                                        encoding: FloatEncoding::Coord,
                                        in_bounds: false,
                                        has_whole,
                                        has_fraction,
                                        negative,
                                        whole: whole as u32,
                                        fraction: fraction as u32,
                                    },
                                    end,
                                ),
                            ),
                        },
                    },
                },
            },
        }
    }

    /// What decoding a multiplayer coordinate with a fraction at `pos`
    /// gives.
    pub open spec fn parse_coord_mp(bits: Seq<bool>, pos: int, low_precision: bool) -> Result<
        (Self, int),
        ReadError,
    > {
        match take_bool(bits, pos) {
            Err(e) => Err(e),
            Ok((in_bounds, p1)) => match take_bool(bits, p1) {
                Err(e) => Err(e),
                Ok((has_whole, p2)) => match take_bool(bits, p2) {
                    Err(e) => Err(e),
                    Ok((negative, p3)) => match take_part(
                        bits,
                        p3,
                        has_whole,
                        if in_bounds {
                            11
                        } else {
                            14
                        },
                    ) {
                        Err(e) => Err(e),
                        Ok((whole, p4)) => match take_uint(
                            bits,
                            p4,
                            if low_precision {
                                3
                            } else {
                                5
                            },
                        ) {
                            Err(e) => Err(e),
                            Ok((fraction, end)) => Ok(
                                (
                                    WireFloat {
                                        encoding: if low_precision {
                                            FloatEncoding::CoordMPLowPrecision
                                        } else {
                                            FloatEncoding::CoordMP
                                        },
                                        in_bounds,
                                        has_whole,
                                        has_fraction: true,
                                        negative,
                                        whole: whole as u32,
                                        fraction: fraction as u32,
                                    },
                                    end,
                                ),
                            ),
                        },
                    },
                },
            },
        }
    }

    /// What decoding a whole multiplayer coordinate at `pos` gives.
    pub open spec fn parse_coord_mp_integral(bits: Seq<bool>, pos: int) -> Result<
        (Self, int),
        ReadError,
    > {
        match take_bool(bits, pos) {
            Err(e) => Err(e),
            Ok((in_bounds, p1)) => match take_bool(bits, p1) {
                Err(e) => Err(e),
                Ok((has_whole, p2)) => match take_flag(bits, p2, has_whole) {
                    Err(e) => Err(e),
                    Ok((negative, p3)) => match take_part(
                        bits,
                        p3,
                        has_whole,
                        if in_bounds {
                            11
                        } else {
                            14
                        },
                    ) {
                        Err(e) => Err(e),
                        Ok((whole, end)) => Ok(
                            (
                                WireFloat {
                                    encoding: FloatEncoding::CoordMPIntegral,
                                    in_bounds,
                                    has_whole,
                                    has_fraction: false,
                                    negative,
                                    whole: whole as u32,
                                    fraction: 0,
                                },
                                end,
                            ),
                        ),
                    },
                },
            },
        }
    }

    /// What decoding a component of a unit vector at `pos` gives.
    pub open spec fn parse_normal(bits: Seq<bool>, pos: int) -> Result<(Self, int), ReadError> {
        match take_bool(bits, pos) {
            Err(e) => Err(e),
            Ok((negative, p1)) => match take_uint(bits, p1, 11) {
                Err(e) => Err(e),
                Ok((fraction, end)) => Ok(
                    (
                        WireFloat {
                            encoding: FloatEncoding::Normal,
                            in_bounds: false,
                            has_whole: false,
                            has_fraction: true,
                            negative,
                            whole: 0,
                            fraction: fraction as u32,
                        },
                        end,
                    ),
                ),
            },
        }
    }

    /// What decoding `n` bits at `pos` as the bits of a number gives, for
    /// the encodings without parts.
    pub open spec fn parse_plain(
        bits: Seq<bool>,
        pos: int,
        encoding: FloatEncoding,
        n: int,
    ) -> Result<
        (Self, int),
        ReadError,
    > {
        match take_uint(bits, pos, n) {
            Err(e) => Err(e),
            Ok((whole, end)) => Ok(
                (
                    WireFloat {
                        encoding,
                        in_bounds: false,
                        has_whole: true,
                        has_fraction: false,
                        negative: false,
                        whole: whole as u32,
                        fraction: 0,
                    },
                    end,
                ),
            ),
        }
    }

    /// What decoding a number with a fraction at `pos` gives, for a property
    /// with the given flags and bit count. A scaled number of more than 32
    /// bits is refused.
    pub open spec fn parse(
        bits: Seq<bool>,
        pos: int,
        flags: SendPropFlags,
        bit_count: nat,
    ) -> Result<
        (Self, int),
        ParseError,
    > {
        match flags.encoding() {
            FloatEncoding::Coord => match Self::parse_coord(bits, pos) {
                Ok(found) => Ok(found),
                Err(e) => Err(ParseError::of_read(e)),
            },
            FloatEncoding::CoordMP => match Self::parse_coord_mp(bits, pos, false) {
                Ok(found) => Ok(found),
                Err(e) => Err(ParseError::of_read(e)),
            },
            FloatEncoding::CoordMPLowPrecision => match Self::parse_coord_mp(bits, pos, true) {
                Ok(found) => Ok(found),
                Err(e) => Err(ParseError::of_read(e)),
            },
            FloatEncoding::CoordMPIntegral => match Self::parse_coord_mp_integral(bits, pos) {
                Ok(found) => Ok(found),
                Err(e) => Err(ParseError::of_read(e)),
            },
            FloatEncoding::NoScale => match Self::parse_plain(
                bits,
                pos,
                FloatEncoding::NoScale,
                32,
            ) {
                Ok(found) => Ok(found),
                Err(e) => Err(ParseError::of_read(e)),
            },
            FloatEncoding::Normal => match Self::parse_normal(bits, pos) {
                Ok(found) => Ok(found),
                Err(e) => Err(ParseError::of_read(e)),
            },
            FloatEncoding::Scaled => if bit_count > 32 {
                Err(ParseError::PropDecodeOverflow)
            } else {
                match Self::parse_plain(bits, pos, FloatEncoding::Scaled, bit_count as int) {
                    Ok(found) => Ok(found),
                    Err(e) => Err(ParseError::of_read(e)),
                }
            },
        }
    }
}

/// Reads `n` bits as a number where `present`, and gives zero without
/// reading where not.
pub fn read_part(stream: &mut Stream, present: bool, n: usize) -> (r: Result<u32, ReadError>)
    requires
        old(stream).inv(),
        n <= 32,
    ensures
        final(stream).inv(),
        final(stream).same_window(old(stream)),
        (match take_part(old(stream).bits(), old(stream).position(), present, n as int) {
            Ok((v, end)) => r == Ok::<u32, ReadError>(v as u32) && final(stream).position() == end
                && v < pow2(n as nat) && v <= u32::MAX,
            Err(e) => r == Err::<u32, ReadError>(e),
        }),
{
    if present {
        match stream.read_int(n) {
            Ok(v) => {
                proof {
                    lemma2_to64();
                    if n < 32 {
                        vstd::arithmetic::power2::lemma_pow2_strictly_increases(n as nat, 32);
                    }
                }
                Ok(v as u32)
            },
            Err(e) => Err(e),
        }
    } else {
        proof {
            vstd::arithmetic::power2::lemma_pow2_pos(n as nat);
        }
        Ok(0)
    }
}

/// Reads one bit where `present`, and gives false without reading where
/// not.
pub fn read_flag(stream: &mut Stream, present: bool) -> (r: Result<bool, ReadError>)
    requires
        old(stream).inv(),
    ensures
        final(stream).inv(),
        final(stream).same_window(old(stream)),
        (match take_flag(old(stream).bits(), old(stream).position(), present) {
            Ok((v, end)) => r == Ok::<bool, ReadError>(v) && final(stream).position() == end,
            Err(e) => r == Err::<bool, ReadError>(e),
        }),
{
    if present {
        stream.read_bool()
    } else {
        Ok(false)
    }
}

impl WireFloat {
    /// Reads a coordinate.
    pub fn read_coord(stream: &mut Stream) -> (r: Result<Self, ReadError>)
        requires
            old(stream).inv(),
        ensures
            final(stream).inv(),
            final(stream).same_window(old(stream)),
            (match Self::parse_coord(old(stream).bits(), old(stream).position()) {
                Ok((v, end)) => r == Ok::<Self, ReadError>(v) && final(stream).position() == end,
                Err(e) => r == Err::<Self, ReadError>(e),
            }),
    {
        let has_whole = match stream.read_bool() {
            Ok(v) => v,
            Err(e) => {
                return Err(e);
            },
        };
        let has_fraction = match stream.read_bool() {
            Ok(v) => v,
            Err(e) => {
                return Err(e);
            },
        };
        let negative = match read_flag(stream, has_whole || has_fraction) {
            Ok(v) => v,
            Err(e) => {
                return Err(e);
            },
        };
        let whole = match read_part(stream, has_whole, COORD_WHOLE_BITS) {
            Ok(v) => v,
            Err(e) => {
                return Err(e);
            },
        };
        let fraction = match read_part(stream, has_fraction, COORD_FRACTION_BITS) {
            Ok(v) => v,
            Err(e) => {
                return Err(e);
            },
        };
        Ok(
            WireFloat {
                encoding: FloatEncoding::Coord,
                in_bounds: false,
                has_whole,
                has_fraction,
                negative,
                whole,
                fraction,
            },
        )
    }

    /// Reads a multiplayer coordinate with a fraction.
    pub fn read_coord_mp(stream: &mut Stream, low_precision: bool) -> (r: Result<Self, ReadError>)
        requires
            old(stream).inv(),
        ensures
            final(stream).inv(),
            final(stream).same_window(old(stream)),
            (match Self::parse_coord_mp(old(stream).bits(), old(stream).position(), low_precision) {
                Ok((v, end)) => r == Ok::<Self, ReadError>(v) && final(stream).position() == end,
                Err(e) => r == Err::<Self, ReadError>(e),
            }),
    {
        let in_bounds = match stream.read_bool() {
            Ok(v) => v,
            Err(e) => {
                return Err(e);
            },
        };
        let has_whole = match stream.read_bool() {
            Ok(v) => v,
            Err(e) => {
                return Err(e);
            },
        };
        let negative = match stream.read_bool() {
            Ok(v) => v,
            Err(e) => {
                return Err(e);
            },
        };
        let whole_bits = if in_bounds {
            COORD_WHOLE_BITS_MP
        } else {
            COORD_WHOLE_BITS_MP_OUT
        };
        let whole = match read_part(stream, has_whole, whole_bits) {
            Ok(v) => v,
            Err(e) => {
                return Err(e);
            },
        };
        let fraction_bits = if low_precision {
            COORD_FRACTION_BITS_LOW
        } else {
            COORD_FRACTION_BITS
        };
        let fraction = match read_part(stream, true, fraction_bits) {
            Ok(v) => v,
            Err(e) => {
                return Err(e);
            },
        };
        Ok(
            WireFloat {
                encoding: if low_precision {
                    FloatEncoding::CoordMPLowPrecision
                } else {
                    FloatEncoding::CoordMP
                },
                in_bounds,
                has_whole,
                has_fraction: true,
                negative,
                whole,
                fraction,
            },
        )
    }

    /// Reads a whole multiplayer coordinate.
    pub fn read_coord_mp_integral(stream: &mut Stream) -> (r: Result<Self, ReadError>)
        requires
            old(stream).inv(),
        ensures
            final(stream).inv(),
            final(stream).same_window(old(stream)),
            (match Self::parse_coord_mp_integral(old(stream).bits(), old(stream).position()) {
                Ok((v, end)) => r == Ok::<Self, ReadError>(v) && final(stream).position() == end,
                Err(e) => r == Err::<Self, ReadError>(e),
            }),
    {
        let in_bounds = match stream.read_bool() {
            Ok(v) => v,
            Err(e) => {
                return Err(e);
            },
        };
        let has_whole = match stream.read_bool() {
            Ok(v) => v,
            Err(e) => {
                return Err(e);
            },
        };
        let negative = match read_flag(stream, has_whole) {
            Ok(v) => v,
            Err(e) => {
                return Err(e);
            },
        };
        let whole_bits = if in_bounds {
            COORD_WHOLE_BITS_MP
        } else {
            COORD_WHOLE_BITS_MP_OUT
        };
        let whole = match read_part(stream, has_whole, whole_bits) {
            Ok(v) => v,
            Err(e) => {
                return Err(e);
            },
        };
        Ok(
            WireFloat {
                encoding: FloatEncoding::CoordMPIntegral,
                in_bounds,
                has_whole,
                has_fraction: false,
                negative,
                whole,
                fraction: 0,
            },
        )
    }

    /// Reads a component of a unit vector.
    pub fn read_normal(stream: &mut Stream) -> (r: Result<Self, ReadError>)
        requires
            old(stream).inv(),
        ensures
            final(stream).inv(),
            final(stream).same_window(old(stream)),
            (match Self::parse_normal(old(stream).bits(), old(stream).position()) {
                Ok((v, end)) => r == Ok::<Self, ReadError>(v) && final(stream).position() == end,
                Err(e) => r == Err::<Self, ReadError>(e),
            }),
    {
        let negative = match stream.read_bool() {
            Ok(v) => v,
            Err(e) => {
                return Err(e);
            },
        };
        let fraction = match read_part(stream, true, NORMAL_FRACTION_BITS) {
            Ok(v) => v,
            Err(e) => {
                return Err(e);
            },
        };
        Ok(
            WireFloat {
                encoding: FloatEncoding::Normal,
                in_bounds: false,
                has_whole: false,
                has_fraction: true,
                negative,
                whole: 0,
                fraction,
            },
        )
    }

    /// Reads `n` bits as the bits of a number.
    pub fn read_plain(stream: &mut Stream, encoding: FloatEncoding, n: usize) -> (r: Result<
        Self,
        ReadError,
    >)
        requires
            old(stream).inv(),
            n <= 32,
        ensures
            final(stream).inv(),
            final(stream).same_window(old(stream)),
            (match Self::parse_plain(
                old(stream).bits(),
                old(stream).position(),
                encoding,
                n as int,
            ) {
                Ok((v, end)) => r == Ok::<Self, ReadError>(v) && final(stream).position() == end,
                Err(e) => r == Err::<Self, ReadError>(e),
            }),
    {
        match read_part(stream, true, n) {
            Ok(whole) => Ok(
                WireFloat {
                    encoding,
                    in_bounds: false,
                    has_whole: true,
                    has_fraction: false,
                    negative: false,
                    whole,
                    fraction: 0,
                },
            ),
            Err(e) => Err(e),
        }
    }

    /// Reads a number with a fraction, for a property with the given flags
    /// and bit count.
    pub fn read(stream: &mut Stream, flags: &SendPropFlags, bit_count: usize) -> (r: Result<
        Self,
        ParseError,
    >)
        requires
            old(stream).inv(),
        ensures
            final(stream).inv(),
            final(stream).same_window(old(stream)),
            (match Self::parse(
                old(stream).bits(),
                old(stream).position(),
                *flags,
                bit_count as nat,
            ) {
                Ok((v, end)) => r == Ok::<Self, ParseError>(v) && final(stream).position() == end,
                Err(e) => r == Err::<Self, ParseError>(e),
            }),
    {
        let found = match flags.float_encoding() {
            FloatEncoding::Coord => Self::read_coord(stream),
            FloatEncoding::CoordMP => Self::read_coord_mp(stream, false),
            FloatEncoding::CoordMPLowPrecision => Self::read_coord_mp(stream, true),
            FloatEncoding::CoordMPIntegral => Self::read_coord_mp_integral(stream),
            FloatEncoding::NoScale => Self::read_plain(stream, FloatEncoding::NoScale, 32),
            FloatEncoding::Normal => Self::read_normal(stream),
            FloatEncoding::Scaled => {
                if bit_count > 32 {
                    return Err(ParseError::PropDecodeOverflow);
                }
                Self::read_plain(stream, FloatEncoding::Scaled, bit_count)
            },
        };
        match found {
            Ok(v) => Ok(v),
            Err(e) => Err(ParseError::from_read(e)),
        }
    }
}

/// What a property looks like on the wire: all that is needed to decode its
/// value. The low and the high value are 32-bit IEEE 754 numbers, held as
/// the bits that encode them.
#[derive(Clone, Copy, Debug, PartialEq, Eq, Structural)]
pub struct PropLayout {
    pub kind: SendPropType,
    pub flags: SendPropFlags,
    pub bit_count: usize,
    pub low_value: u32,
    pub high_value: u32,
}

/// The third component of a vector: sent like the others, or left to be
/// worked out from them with only its sign sent.
#[derive(Clone, Copy, Debug, PartialEq, Eq, Structural)]
pub enum VectorZ {
    Value(WireFloat),
    Sign(bool),
}

/// The value of a property that is not an array.
#[derive(Debug, Clone, PartialEq, Eq)]
pub enum ScalarValue {
    Integer(i64),
    Float(WireFloat),
    Vector { x: WireFloat, y: WireFloat, z: VectorZ },
    VectorXY { x: WireFloat, y: WireFloat },
    String(Vec<u8>),
    Int64 { negative: bool, magnitude: u64 },
}

/// What a [`ScalarValue`] holds.
pub enum ScalarView {
    Integer(i64),
    Float(WireFloat),
    Vector { x: WireFloat, y: WireFloat, z: VectorZ },
    VectorXY { x: WireFloat, y: WireFloat },
    String(Seq<u8>),
    Int64 { negative: bool, magnitude: u64 },
}

/// The number of bits of the length of a string property.
pub const STRING_LENGTH_BITS: usize = 9;

/// The number of bits that hold a number up to `max`: none for zero, and
/// otherwise one more than the logarithm of `max` to base 2, rounded down.
pub open spec fn bits_for(max: nat) -> nat {
    if max == 0 {
        0
    } else {
        index_bits(max) + 1
    }
}

/// The number of bits that hold a number up to `max`.
pub fn width_for(max: usize) -> (r: usize)
    ensures
        r == bits_for(max as nat),
        r <= 64,
{
    if max == 0 {
        0
    } else {
        index_width(max) + 1
    }
}

impl ScalarValue {
    /// What the value holds.
    pub open spec fn view(&self) -> ScalarView {
        match self {
            ScalarValue::Integer(v) => ScalarView::Integer(*v),
            ScalarValue::Float(v) => ScalarView::Float(*v),
            ScalarValue::Vector { x, y, z } => ScalarView::Vector { x: *x, y: *y, z: *z },
            ScalarValue::VectorXY { x, y } => ScalarView::VectorXY { x: *x, y: *y },
            ScalarValue::String(v) => ScalarView::String(v@),
            ScalarValue::Int64 { negative, magnitude } => ScalarView::Int64 {
                negative: *negative,
                magnitude: *magnitude,
            },
        }
    }

    /// A copy of the value.
    pub fn copy(&self) -> (r: Self)
        ensures
            r@ == self@,
    {
        match self {
            ScalarValue::Integer(v) => ScalarValue::Integer(*v),
            ScalarValue::Float(v) => ScalarValue::Float(*v),
            ScalarValue::Vector { x, y, z } => ScalarValue::Vector { x: *x, y: *y, z: *z },
            ScalarValue::VectorXY { x, y } => ScalarValue::VectorXY { x: *x, y: *y },
            ScalarValue::String(v) => {
                let bytes = crate::text::copy_range(v.as_slice(), 0, v.len());
                assert(bytes@ =~= v@);
                ScalarValue::String(bytes)
            },
            ScalarValue::Int64 { negative, magnitude } => ScalarValue::Int64 {
                negative: *negative,
                magnitude: *magnitude,
            },
        }
    }
}

impl PropLayout {
    /// What decoding a whole number at `pos` gives: as many bits as the bit
    /// count says, signed unless the property is unsigned. A bit count that
    /// a 64-bit signed number cannot hold is refused.
    pub open spec fn parse_integer(self, bits: Seq<bool>, pos: int) -> Result<
        (ScalarView, int),
        ParseError,
    > {
        if self.flags.unsigned {
            if self.bit_count > 63 {
                Err(ParseError::PropDecodeOverflow)
            } else {
                match take_uint(bits, pos, self.bit_count as int) {
                    Err(e) => Err(ParseError::of_read(e)),
                    Ok((v, end)) => Ok((ScalarView::Integer(v as i64), end)),
                }
            }
        } else {
            if self.bit_count > 64 {
                Err(ParseError::PropDecodeOverflow)
            } else {
                match take_uint(bits, pos, self.bit_count as int) {
                    Err(e) => Err(ParseError::of_read(e)),
                    Ok((v, end)) => Ok(
                        (ScalarView::Integer(signed_of(v, self.bit_count as nat) as i64), end),
                    ),
                }
            }
        }
    }

    /// What decoding a vector at `pos` gives: two numbers, and a third; for
    /// a unit vector only the sign of the third is sent.
    pub open spec fn parse_vector(self, bits: Seq<bool>, pos: int) -> Result<
        (ScalarView, int),
        ParseError,
    > {
        match WireFloat::parse(bits, pos, self.flags, self.bit_count as nat) {
            Err(e) => Err(e),
            Ok((x, p1)) => match WireFloat::parse(bits, p1, self.flags, self.bit_count as nat) {
                Err(e) => Err(e),
                Ok((y, p2)) => if self.flags.normal {
                    match take_bool(bits, p2) {
                        Err(e) => Err(ParseError::of_read(e)),
                        Ok((sign, end)) => Ok(
                            (ScalarView::Vector { x, y, z: VectorZ::Sign(sign) }, end),
                        ),
                    }
                } else {
                    match WireFloat::parse(bits, p2, self.flags, self.bit_count as nat) {
                        Err(e) => Err(e),
                        Ok((z, end)) => Ok(
                            (ScalarView::Vector { x, y, z: VectorZ::Value(z) }, end),
                        ),
                    }
                },
            },
        }
    }

    /// What decoding a vector of two components at `pos` gives.
    pub open spec fn parse_vector_xy(self, bits: Seq<bool>, pos: int) -> Result<
        (ScalarView, int),
        ParseError,
    > {
        match WireFloat::parse(bits, pos, self.flags, self.bit_count as nat) {
            Err(e) => Err(e),
            Ok((x, p1)) => match WireFloat::parse(bits, p1, self.flags, self.bit_count as nat) {
                Err(e) => Err(e),
                Ok((y, end)) => Ok((ScalarView::VectorXY { x, y }, end)),
            },
        }
    }

    /// What decoding a string at `pos` gives: its length in nine bits, and
    /// so many bytes.
    pub open spec fn parse_string(bits: Seq<bool>, pos: int) -> Result<
        (ScalarView, int),
        ParseError,
    > {
        match take_uint(bits, pos, 9) {
            Err(e) => Err(ParseError::of_read(e)),
            Ok((len, p1)) => match take_bytes(bits, p1, len as int) {
                Err(e) => Err(ParseError::of_read(e)),
                Ok((bytes, end)) => Ok((ScalarView::String(bytes), end)),
            },
        }
    }

    /// What decoding a number of 64 bits at `pos` gives: a sign, unless the
    /// property is unsigned, then the low and the high half.
    pub open spec fn parse_int64(self, bits: Seq<bool>, pos: int) -> Result<
        (ScalarView, int),
        ParseError,
    > {
        match take_flag(bits, pos, !self.flags.unsigned) {
            Err(e) => Err(ParseError::of_read(e)),
            Ok((negative, p1)) => match take_uint(bits, p1, 32) {
                Err(e) => Err(ParseError::of_read(e)),
                Ok((low, p2)) => match take_uint(bits, p2, 32) {
                    Err(e) => Err(ParseError::of_read(e)),
                    Ok((high, end)) => Ok(
                        (
                            ScalarView::Int64 {
                                negative,
                                magnitude: (low + high * 0x1_0000_0000) as u64,
                            },
                            end,
                        ),
                    ),
                },
            },
        }
    }

    /// What decoding a value of this layout at `pos` gives. An array and a
    /// data table have no value of their own.
    pub open spec fn parse(
        self,
        bits: Seq<bool>,
        pos: int,
    ) -> Result<(ScalarView, int), ParseError> {
        match self.kind {
            SendPropType::Int => self.parse_integer(bits, pos),
            SendPropType::Float => match WireFloat::parse(
                bits,
                pos,
                self.flags,
                self.bit_count as nat,
            ) {
                Err(e) => Err(e),
                Ok((v, end)) => Ok((ScalarView::Float(v), end)),
            },
            SendPropType::Vector => self.parse_vector(bits, pos),
            SendPropType::VectorXY => self.parse_vector_xy(bits, pos),
            SendPropType::String => Self::parse_string(bits, pos),
            SendPropType::Int64 => self.parse_int64(bits, pos),
            SendPropType::Array => Err(ParseError::InvalidPropType(5)),
            SendPropType::DataTable => Err(ParseError::InvalidPropType(6)),
        }
    }

    /// Reads a whole number.
    pub fn read_integer(&self, stream: &mut Stream) -> (r: Result<ScalarValue, ParseError>)
        requires
            old(stream).inv(),
        ensures
            final(stream).inv(),
            final(stream).same_window(old(stream)),
            (match self.parse_integer(old(stream).bits(), old(stream).position()) {
                Ok((view, end)) => (r matches Ok(found) && found@ == view)
                    && final(stream).position() == end,
                Err(e) => r matches Err(x) && x == e,
            }),
    {
        if self.flags.unsigned {
            if self.bit_count > 63 {
                return Err(ParseError::PropDecodeOverflow);
            }
            match stream.read_int(self.bit_count) {
                Ok(v) => {
                    proof {
                        lemma2_to64();
                        lemma2_to64_rest();
                        if self.bit_count < 63 {
                            vstd::arithmetic::power2::lemma_pow2_strictly_increases(
                                self.bit_count as nat,
                                63,
                            );
                        }
                    }
                    Ok(ScalarValue::Integer(v as i64))
                },
                Err(e) => Err(ParseError::from_read(e)),
            }
        } else {
            if self.bit_count > 64 {
                return Err(ParseError::PropDecodeOverflow);
            }
            match stream.read_signed(self.bit_count) {
                Ok(v) => Ok(ScalarValue::Integer(v)),
                Err(e) => Err(ParseError::from_read(e)),
            }
        }
    }

    /// Reads a vector.
    pub fn read_vector(&self, stream: &mut Stream) -> (r: Result<ScalarValue, ParseError>)
        requires
            old(stream).inv(),
        ensures
            final(stream).inv(),
            final(stream).same_window(old(stream)),
            (match self.parse_vector(old(stream).bits(), old(stream).position()) {
                Ok((view, end)) => (r matches Ok(found) && found@ == view)
                    && final(stream).position() == end,
                Err(e) => r matches Err(x) && x == e,
            }),
    {
        let x = match WireFloat::read(stream, &self.flags, self.bit_count) {
            Ok(v) => v,
            Err(e) => {
                return Err(e);
            },
        };
        let y = match WireFloat::read(stream, &self.flags, self.bit_count) {
            Ok(v) => v,
            Err(e) => {
                return Err(e);
            },
        };
        if self.flags.normal {
            match stream.read_bool() {
                Ok(sign) => Ok(ScalarValue::Vector { x, y, z: VectorZ::Sign(sign) }),
                Err(e) => Err(ParseError::from_read(e)),
            }
        } else {
            match WireFloat::read(stream, &self.flags, self.bit_count) {
                Ok(z) => Ok(ScalarValue::Vector { x, y, z: VectorZ::Value(z) }),
                Err(e) => Err(e),
            }
        }
    }

    /// Reads a vector of two components.
    pub fn read_vector_xy(&self, stream: &mut Stream) -> (r: Result<ScalarValue, ParseError>)
        requires
            old(stream).inv(),
        ensures
            final(stream).inv(),
            final(stream).same_window(old(stream)),
            (match self.parse_vector_xy(old(stream).bits(), old(stream).position()) {
                Ok((view, end)) => (r matches Ok(found) && found@ == view)
                    && final(stream).position() == end,
                Err(e) => r matches Err(x) && x == e,
            }),
    {
        let x = match WireFloat::read(stream, &self.flags, self.bit_count) {
            Ok(v) => v,
            Err(e) => {
                return Err(e);
            },
        };
        match WireFloat::read(stream, &self.flags, self.bit_count) {
            Ok(y) => Ok(ScalarValue::VectorXY { x, y }),
            Err(e) => Err(e),
        }
    }

    /// Reads a string.
    pub fn read_string(stream: &mut Stream) -> (r: Result<ScalarValue, ParseError>)
        requires
            old(stream).inv(),
        ensures
            final(stream).inv(),
            final(stream).same_window(old(stream)),
            (match Self::parse_string(old(stream).bits(), old(stream).position()) {
                Ok((view, end)) => (r matches Ok(found) && found@ == view)
                    && final(stream).position() == end,
                Err(e) => r matches Err(x) && x == e,
            }),
    {
        let len = match stream.read_int(STRING_LENGTH_BITS) {
            Ok(v) => {
                proof {
                    lemma2_to64();
                }
                v as usize
            },
            Err(e) => {
                return Err(ParseError::from_read(e));
            },
        };
        match stream.read_bytes(len) {
            Ok(bytes) => Ok(ScalarValue::String(bytes)),
            Err(e) => Err(ParseError::from_read(e)),
        }
    }

    /// Reads a number of 64 bits.
    pub fn read_int64(&self, stream: &mut Stream) -> (r: Result<ScalarValue, ParseError>)
        requires
            old(stream).inv(),
        ensures
            final(stream).inv(),
            final(stream).same_window(old(stream)),
            (match self.parse_int64(old(stream).bits(), old(stream).position()) {
                Ok((view, end)) => (r matches Ok(found) && found@ == view)
                    && final(stream).position() == end,
                Err(e) => r matches Err(x) && x == e,
            }),
    {
        let negative = match read_flag(stream, !self.flags.unsigned) {
            Ok(v) => v,
            Err(e) => {
                return Err(ParseError::from_read(e));
            },
        };
        let low = match stream.read_u32() {
            Ok(v) => v,
            Err(e) => {
                return Err(ParseError::from_read(e));
            },
        };
        let high = match stream.read_u32() {
            Ok(v) => v,
            Err(e) => {
                return Err(ParseError::from_read(e));
            },
        };
        let magnitude = low as u64 + high as u64 * 0x1_0000_0000;
        Ok(ScalarValue::Int64 { negative, magnitude })
    }

    /// Reads a value of this layout.
    pub fn read(&self, stream: &mut Stream) -> (r: Result<ScalarValue, ParseError>)
        requires
            old(stream).inv(),
        ensures
            final(stream).inv(),
            final(stream).same_window(old(stream)),
            (match self.parse(old(stream).bits(), old(stream).position()) {
                Ok((view, end)) => (r matches Ok(found) && found@ == view)
                    && final(stream).position() == end,
                Err(e) => r matches Err(x) && x == e,
            }),
    {
        match self.kind {
            SendPropType::Int => self.read_integer(stream),
            SendPropType::Float => match WireFloat::read(stream, &self.flags, self.bit_count) {
                Ok(v) => Ok(ScalarValue::Float(v)),
                Err(e) => Err(e),
            },
            SendPropType::Vector => self.read_vector(stream),
            SendPropType::VectorXY => self.read_vector_xy(stream),
            SendPropType::String => Self::read_string(stream),
            SendPropType::Int64 => self.read_int64(stream),
            SendPropType::Array => Err(ParseError::InvalidPropType(5)),
            SendPropType::DataTable => Err(ParseError::InvalidPropType(6)),
        }
    }
}

/// The declaration of a property of a class of entities.
#[derive(Debug, Clone)]
pub struct SendProp {
    pub name: String,
    /// The name of the table that declares the property.
    pub table: String,
    pub layout: PropLayout,
    /// For an array: the greatest number of its elements.
    pub element_count: usize,
    /// For an array: the layout of its elements.
    pub element: Option<PropLayout>,
}

/// What a [`SendProp`] holds.
pub struct SendPropView {
    pub name: Seq<char>,
    pub table: Seq<char>,
    pub layout: PropLayout,
    pub element_count: nat,
    pub element: Option<PropLayout>,
}

/// The value of a property.
#[derive(Debug, Clone, PartialEq, Eq)]
pub enum PropValue {
    Scalar(ScalarValue),
    Array(Vec<ScalarValue>),
}

/// What a [`PropValue`] holds.
pub enum PropValueView {
    Scalar(ScalarView),
    Array(Seq<ScalarView>),
}

/// The values of a list.
pub open spec fn scalars_view(values: &Vec<ScalarValue>) -> Seq<ScalarView> {
    Seq::new(values@.len(), |i: int| values@[i]@)
}

/// A copy of a list of values.
pub fn copy_scalars(values: &Vec<ScalarValue>) -> (r: Vec<ScalarValue>)
    ensures
        scalars_view(&r) == scalars_view(values),
{
    let mut out: Vec<ScalarValue> = Vec::new();
    let mut i: usize = 0;
    while i < values.len()
        invariant
            i <= values@.len(),
            out@.len() == i,
            forall|j: int| 0 <= j < i ==> out@[j]@ == values@[j]@,
        decreases values@.len() - i,
    {
        out.push(values[i].copy());
        i = i + 1;
    }
    assert(scalars_view(&out) =~= scalars_view(values));
    out
}

impl PropValue {
    /// What the value holds.
    pub open spec fn view(&self) -> PropValueView {
        match self {
            PropValue::Scalar(v) => PropValueView::Scalar(v@),
            PropValue::Array(v) => PropValueView::Array(scalars_view(v)),
        }
    }

    /// A copy of the value.
    pub fn copy(&self) -> (r: Self)
        ensures
            r@ == self@,
    {
        match self {
            PropValue::Scalar(v) => PropValue::Scalar(v.copy()),
            PropValue::Array(v) => PropValue::Array(copy_scalars(v)),
        }
    }
}

/// What decoding `count` values of the given layout at `pos` gives.
pub open spec fn take_elements(layout: PropLayout, bits: Seq<bool>, pos: int, count: nat) -> Result<
    (Seq<ScalarView>, int),
    ParseError,
>
    decreases count,
{
    if count == 0 {
        Ok((Seq::empty(), pos))
    } else {
        match layout.parse(bits, pos) {
            Err(e) => Err(e),
            Ok((first, p)) => match take_elements(layout, bits, p, (count - 1) as nat) {
                Err(e) => Err(e),
                Ok((rest, end)) => Ok((seq![first] + rest, end)),
            },
        }
    }
}

/// The outcome of decoding more elements, with those that were decoded
/// before put in front.
pub open spec fn after_elements(
    done: Seq<ScalarView>,
    more: Result<(Seq<ScalarView>, int), ParseError>,
) -> Result<(Seq<ScalarView>, int), ParseError> {
    match more {
        Ok((rest, end)) => Ok((done + rest, end)),
        Err(e) => Err(e),
    }
}

impl SendProp {
    /// What the declaration holds.
    pub open spec fn view(&self) -> SendPropView {
        SendPropView {
            name: self.name@,
            table: self.table@,
            layout: self.layout,
            element_count: self.element_count as nat,
            element: self.element,
        }
    }
}

impl SendPropView {
    /// What decoding an array at `pos` gives: the number of its elements,
    /// in as many bits as hold the greatest number that it may have, and the
    /// elements. More elements than it may have are refused, and so is an
    /// array without a layout for its elements.
    pub open spec fn parse_array(self, bits: Seq<bool>, pos: int) -> Result<
        (PropValueView, int),
        ParseError,
    > {
        match self.element {
            None => Err(ParseError::InvalidPropType(5)),
            Some(element) => match take_uint(bits, pos, bits_for(self.element_count) as int) {
                Err(e) => Err(ParseError::of_read(e)),
                Ok((count, p1)) => if count > self.element_count {
                    Err(ParseError::PropDecodeOverflow)
                } else {
                    match take_elements(element, bits, p1, count) {
                        Err(e) => Err(e),
                        Ok((values, end)) => Ok((PropValueView::Array(values), end)),
                    }
                },
            },
        }
    }

    /// What decoding a value of the property at `pos` gives.
    #[verifier::opaque]
    pub open spec fn parse(self, bits: Seq<bool>, pos: int) -> Result<
        (PropValueView, int),
        ParseError,
    > {
        if self.layout.kind == SendPropType::Array {
            self.parse_array(bits, pos)
        } else {
            match self.layout.parse(bits, pos) {
                Err(e) => Err(e),
                Ok((value, end)) => Ok((PropValueView::Scalar(value), end)),
            }
        }
    }
}

impl SendProp {
    /// Reads an array.
    pub fn read_array(&self, stream: &mut Stream) -> (r: Result<PropValue, ParseError>)
        requires
            old(stream).inv(),
        ensures
            final(stream).inv(),
            final(stream).same_window(old(stream)),
            (match self@.parse_array(old(stream).bits(), old(stream).position()) {
                Ok((view, end)) => (r matches Ok(found) && found@ == view)
                    && final(stream).position() == end,
                Err(e) => r matches Err(x) && x == e,
            }),
    {
        let element = match self.element {
            Some(element) => element,
            None => {
                return Err(ParseError::InvalidPropType(5));
            },
        };
        let count = match stream.read_int(width_for(self.element_count)) {
            Ok(v) => {
                if v > self.element_count as u64 {
                    return Err(ParseError::PropDecodeOverflow);
                }
                v as usize
            },
            Err(e) => {
                return Err(ParseError::from_read(e));
            },
        };
        let ghost bits = stream.bits();
        let ghost total = take_elements(element, bits, stream.position(), count as nat);
        let mut out: Vec<ScalarValue> = Vec::new();
        let mut i: usize = 0;
        proof {
            match total {
                Ok((rest, end)) => {
                    assert(scalars_view(&out) + rest =~= rest);
                },
                Err(e) => {},
            }
        }
        while i < count
            invariant
                i <= count,
                stream.inv(),
                stream.same_window(old(stream)),
                stream.bits() == bits,
                self@.parse_array(old(stream).bits(), old(stream).position()) == (match total {
                    Ok((values, end)) => Ok::<(PropValueView, int), ParseError>(
                        (PropValueView::Array(values), end),
                    ),
                    Err(e) => Err::<(PropValueView, int), ParseError>(e),
                }),
                total == after_elements(
                    scalars_view(&out),
                    take_elements(element, bits, stream.position(), (count - i) as nat),
                ),
            decreases count - i,
        {
            let ghost done = scalars_view(&out);
            let value = match element.read(stream) {
                Ok(v) => v,
                Err(e) => {
                    return Err(e);
                },
            };
            proof {
                match take_elements(element, bits, stream.position(), (count - i - 1) as nat) {
                    Ok((rest, end)) => {
                        assert(done + (seq![value@] + rest) =~= done.push(value@) + rest);
                    },
                    Err(e) => {},
                }
            }
            out.push(value);
            assert(scalars_view(&out) =~= done.push(value@));
            i = i + 1;
        }
        proof {
            assert(scalars_view(&out) + Seq::<ScalarView>::empty() =~= scalars_view(&out));
        }
        Ok(PropValue::Array(out))
    }

    /// Reads a value of the property.
    pub fn read(&self, stream: &mut Stream) -> (r: Result<PropValue, ParseError>)
        requires
            old(stream).inv(),
        ensures
            final(stream).inv(),
            final(stream).same_window(old(stream)),
            (match self@.parse(old(stream).bits(), old(stream).position()) {
                Ok((view, end)) => (r matches Ok(found) && found@ == view)
                    && final(stream).position() == end,
                Err(e) => r matches Err(x) && x == e,
            }),
    {
        reveal(SendPropView::parse);
        match self.layout.kind {
            SendPropType::Array => self.read_array(stream),
            _ => match self.layout.read(stream) {
                Ok(v) => Ok(PropValue::Scalar(v)),
                Err(e) => Err(e),
            },
        }
    }
}

/// A class of entities: its id, its name, the name of the table that
/// declares its properties, and the properties themselves in the order in
/// which the wire numbers them.
#[derive(Debug, Clone)]
pub struct ServerClass {
    pub id: u16,
    pub name: String,
    pub data_table: String,
    pub props: Vec<SendProp>,
}

/// The declarations of a list of properties.
pub open spec fn props_view(props: &Vec<SendProp>) -> Seq<SendPropView> {
    Seq::new(props@.len(), |i: int| props@[i]@)
}

/// The properties of each class of a list.
pub open spec fn classes_view(classes: &Vec<ServerClass>) -> Seq<Seq<SendPropView>> {
    Seq::new(classes@.len(), |i: int| props_view(&classes@[i].props))
}

} // verus!
