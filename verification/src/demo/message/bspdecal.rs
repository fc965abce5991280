//! Decals: marks on the walls of the world.
use crate::demo::sendprop::{read_part, take_part, WireFloat};
use crate::stream::{take_bool, take_uint, ReadError, Stream};
use vstd::arithmetic::power2::lemma2_to64;
use vstd::prelude::*;

verus! {

/// The number of bits of the texture of a decal.
pub const DECAL_TEXTURE_BITS: usize = 9;

/// The number of bits of the entity that a decal is on.
pub const DECAL_ENTITY_BITS: usize = 11;

/// The number of bits of the model that a decal is on.
pub const DECAL_MODEL_BITS: usize = 12;

/// A place in the world: three coordinates, each kept as the wire holds it.
/// A coordinate that is not sent is zero.
#[derive(Debug, Clone, Copy, PartialEq, Eq, Structural)]
pub struct WirePosition {
    pub x: Option<WireFloat>,
    pub y: Option<WireFloat>,
    pub z: Option<WireFloat>,
}

/// What an optional coordinate is: a coordinate where `present`, and
/// nothing without reading where not.
pub open spec fn take_coordinate(bits: Seq<bool>, pos: int, present: bool) -> Result<
    (Option<WireFloat>, int),
    ReadError,
> {
    if present {
        match WireFloat::parse_coord(bits, pos) {
            Err(e) => Err(e),
            Ok((v, end)) => Ok((Some(v), end)),
        }
    } else {
        Ok((None, pos))
    }
}

/// Reads a coordinate where `present`.
pub fn read_coordinate(stream: &mut Stream, present: bool) -> (r: Result<
    Option<WireFloat>,
    ReadError,
>)
    requires
        old(stream).inv(),
    ensures
        final(stream).inv(),
        final(stream).same_window(old(stream)),
        (match take_coordinate(old(stream).bits(), old(stream).position(), present) {
            Ok((v, end)) => r == Ok::<Option<WireFloat>, ReadError>(v)
                && final(stream).position() == end,
            Err(e) => r == Err::<Option<WireFloat>, ReadError>(e),
        }),
{
    if present {
        match WireFloat::read_coord(stream) {
            Ok(v) => Ok(Some(v)),
            Err(e) => Err(e),
        }
    } else {
        Ok(None)
    }
}

impl WirePosition {
    /// What decoding a place at `pos` gives: three bits that tell which
    /// coordinates follow, and those coordinates.
    pub open spec fn parse(bits: Seq<bool>, pos: int) -> Result<(Self, int), ReadError> {
        match take_bool(bits, pos) {
            Err(e) => Err(e),
            Ok((has_x, p1)) => match take_bool(bits, p1) {
                Err(e) => Err(e),
                Ok((has_y, p2)) => match take_bool(bits, p2) {
                    Err(e) => Err(e),
                    Ok((has_z, p3)) => match take_coordinate(bits, p3, has_x) {
                        Err(e) => Err(e),
                        Ok((x, p4)) => match take_coordinate(bits, p4, has_y) {
                            Err(e) => Err(e),
                            Ok((y, p5)) => match take_coordinate(bits, p5, has_z) {
                                Err(e) => Err(e),
                                Ok((z, end)) => Ok((WirePosition { x, y, z }, end)),
                            },
                        },
                    },
                },
            },
        }
    }

    /// Reads a place.
    pub fn read(stream: &mut Stream) -> (r: Result<Self, ReadError>)
        requires
            old(stream).inv(),
        ensures
            final(stream).inv(),
            final(stream).same_window(old(stream)),
            (match Self::parse(old(stream).bits(), old(stream).position()) {
                Ok((v, end)) => r == Ok::<Self, ReadError>(v) && final(stream).position() == end,
                Err(e) => r == Err::<Self, ReadError>(e),
            }),
    {
        let has_x = match stream.read_bool() {
            Ok(v) => v,
            Err(e) => {
                return Err(e);
            },
        };
        let has_y = match stream.read_bool() {
            Ok(v) => v,
            Err(e) => {
                return Err(e);
            },
        };
        let has_z = match stream.read_bool() {
            Ok(v) => v,
            Err(e) => {
                return Err(e);
            },
        };
        let x = match read_coordinate(stream, has_x) {
            Ok(v) => v,
            Err(e) => {
                return Err(e);
            },
        };
        let y = match read_coordinate(stream, has_y) {
            Ok(v) => v,
            Err(e) => {
                return Err(e);
            },
        };
        let z = match read_coordinate(stream, has_z) {
            Ok(v) => v,
            Err(e) => {
                return Err(e);
            },
        };
        Ok(WirePosition { x, y, z })
    }
}

/// A decal is put on the world or on an entity.
#[derive(Debug, Clone, Copy, PartialEq, Eq, Structural)]
pub struct BSPDecalMessage {
    pub position: WirePosition,
    pub texture_index: u16,
    /// Whether the decal is on an entity; if not, the entity and the model
    /// are zero.
    pub on_entity: bool,
    pub ent_index: u16,
    pub model_index: u16,
    pub low_priority: bool,
}

impl BSPDecalMessage {
    /// What decoding the message at `pos` gives: the place; the texture in
    /// nine bits; a bit that tells whether the decal is on an entity, and if
    /// so the entity in eleven bits and its model in twelve; and the
    /// priority.
    #[verifier::opaque]
    pub open spec fn parse(bits: Seq<bool>, pos: int) -> Result<(Self, int), ReadError> {
        match WirePosition::parse(bits, pos) {
            Err(e) => Err(e),
            Ok((position, p1)) => match take_uint(bits, p1, 9) {
                Err(e) => Err(e),
                Ok((texture_index, p2)) => match take_bool(bits, p2) {
                    Err(e) => Err(e),
                    Ok((on_entity, p3)) => match take_part(bits, p3, on_entity, 11) {
                        Err(e) => Err(e),
                        Ok((ent_index, p4)) => match take_part(bits, p4, on_entity, 12) {
                            Err(e) => Err(e),
                            Ok((model_index, p5)) => match take_bool(bits, p5) {
                                Err(e) => Err(e),
                                Ok((low_priority, end)) => Ok(
                                    (
                                        BSPDecalMessage {
                                            position,
                                            texture_index: texture_index as u16,
                                            on_entity,
                                            ent_index: ent_index as u16,
                                            model_index: model_index as u16,
                                            low_priority,
                                        },
                                        end,
                                    ),
                                ),
                            },
                        },
                    },
                },
            },
        }
    }

    /// Reads the message.
    pub fn read(stream: &mut Stream) -> (r: Result<Self, ReadError>)
        requires
            old(stream).inv(),
        ensures
            final(stream).inv(),
            final(stream).same_window(old(stream)),
            (match Self::parse(old(stream).bits(), old(stream).position()) {
                Ok((v, end)) => r == Ok::<Self, ReadError>(v) && final(stream).position() == end,
                Err(e) => r == Err::<Self, ReadError>(e),
            }),
    {
        reveal(BSPDecalMessage::parse);
        proof {
            lemma2_to64();
        }
        let position = match WirePosition::read(stream) {
            Ok(v) => v,
            Err(e) => {
                return Err(e);
            },
        };
        let texture_index = match read_part(stream, true, DECAL_TEXTURE_BITS) {
            Ok(v) => v as u16,
            Err(e) => {
                return Err(e);
            },
        };
        let on_entity = match stream.read_bool() {
            Ok(v) => v,
            Err(e) => {
                return Err(e);
            },
        };
        let ent_index = match read_part(stream, on_entity, DECAL_ENTITY_BITS) {
            Ok(v) => v as u16,
            Err(e) => {
                return Err(e);
            },
        };
        let model_index = match read_part(stream, on_entity, DECAL_MODEL_BITS) {
            Ok(v) => v as u16,
            Err(e) => {
                return Err(e);
            },
        };
        let low_priority = match stream.read_bool() {
            Ok(v) => v,
            Err(e) => {
                return Err(e);
            },
        };
        Ok(
            BSPDecalMessage {
                position,
                texture_index,
                on_entity,
                ent_index,
                model_index,
                low_priority,
            },
        )
    }
}

} // verus!
