//! The packets of a demo file: what follows the head.
//!
//! A packet opens with a byte that names its type and with the tick at which
//! it was recorded. A packet that ends the demo or only marks a tick has no
//! more to it; every other packet brings a length in bytes and so many bytes
//! of data, and a packet with a command of the user brings the number of the
//! command before that.
use crate::demo::header::{read_i32, take_i32};
use crate::demo::parser::ParseError;
use crate::stream::{take_skip, take_uint, Stream};
use vstd::prelude::*;

verus! {

/// The type of a packet.
#[derive(Clone, Copy, Debug, PartialEq, Eq, Structural)]
pub enum PacketType {
    SignOn,
    Packet,
    SyncTick,
    ConsoleCmd,
    UserCmd,
    DataTables,
    Stop,
    StringTables,
}

impl PacketType {
    /// The byte that names the type on the wire.
    pub open spec fn id(self) -> u8 {
        match self {
            PacketType::SignOn => 1,
            PacketType::Packet => 2,
            PacketType::SyncTick => 3,
            PacketType::ConsoleCmd => 4,
            PacketType::UserCmd => 5,
            PacketType::DataTables => 6,
            PacketType::Stop => 7,
            PacketType::StringTables => 8,
        }
    }

    /// The type that the byte `raw` names, if it names one.
    pub open spec fn from_id(raw: u8) -> Option<Self> {
        match raw {
            1 => Some(PacketType::SignOn),
            2 => Some(PacketType::Packet),
            3 => Some(PacketType::SyncTick),
            4 => Some(PacketType::ConsoleCmd),
            5 => Some(PacketType::UserCmd),
            6 => Some(PacketType::DataTables),
            7 => Some(PacketType::Stop),
            8 => Some(PacketType::StringTables),
            _ => None,
        }
    }

    /// The type that `raw` names, if it names one.
    pub fn from_u8(raw: u8) -> (r: Option<Self>)
        ensures
            r == Self::from_id(raw),
    {
        match raw {
            1 => Some(PacketType::SignOn),
            2 => Some(PacketType::Packet),
            3 => Some(PacketType::SyncTick),
            4 => Some(PacketType::ConsoleCmd),
            5 => Some(PacketType::UserCmd),
            6 => Some(PacketType::DataTables),
            7 => Some(PacketType::Stop),
            8 => Some(PacketType::StringTables),
            _ => None,
        }
    }

    /// The byte that names the type on the wire.
    pub fn to_u8(self) -> (r: u8)
        ensures
            r == self.id(),
    {
        match self {
            PacketType::SignOn => 1,
            PacketType::Packet => 2,
            PacketType::SyncTick => 3,
            PacketType::ConsoleCmd => 4,
            PacketType::UserCmd => 5,
            PacketType::DataTables => 6,
            PacketType::Stop => 7,
            PacketType::StringTables => 8,
        }
    }

    /// Whether a packet of this type has nothing behind its tick.
    pub open spec fn is_bare(self) -> bool {
        self == PacketType::SyncTick || self == PacketType::Stop
    }
}

/// A packet.
#[derive(Debug)]
pub struct Packet<'a> {
    pub kind: PacketType,
    pub tick: i32,
    /// The number of the command, for a packet with a command of the user,
    /// and zero otherwise.
    pub command: i32,
    /// The data of the packet; empty for a packet that has none.
    pub data: Stream<'a>,
}

/// What a [`Packet`] holds.
pub struct PacketView {
    pub kind: PacketType,
    pub tick: i32,
    pub command: i32,
    pub data: Seq<bool>,
}

impl<'a> Packet<'a> {
    /// What the packet holds.
    pub open spec fn view(&self) -> PacketView {
        PacketView {
            kind: self.kind,
            tick: self.tick,
            command: self.command,
            data: self.data.bits(),
        }
    }

    /// What decoding the data of a packet at `pos` gives: a length in bytes,
    /// which must not be negative, and so many bytes.
    pub open spec fn parse_data(bits: Seq<bool>, pos: int) -> Result<(Seq<bool>, int), ParseError> {
        match take_i32(bits, pos) {
            Err(e) => Err(ParseError::of_read(e)),
            Ok((length, p1)) => if length < 0 {
                Err(ParseError::ReadOutOfBounds)
            } else {
                match take_skip(bits, p1, 8 * length) {
                    Err(e) => Err(ParseError::of_read(e)),
                    Ok(end) => Ok((bits.subrange(p1, end), end)),
                }
            },
        }
    }

    /// What decoding a packet at `pos` gives.
    pub open spec fn parse(bits: Seq<bool>, pos: int) -> Result<(PacketView, int), ParseError> {
        match take_uint(bits, pos, 8) {
            Err(e) => Err(ParseError::of_read(e)),
            Ok((raw, p1)) => match PacketType::from_id(raw as u8) {
                None => Err(ParseError::InvalidPacketType(raw as u8)),
                Some(kind) => match take_i32(bits, p1) {
                    Err(e) => Err(ParseError::of_read(e)),
                    Ok((tick, p2)) => if kind.is_bare() {
                        Ok((PacketView { kind, tick, command: 0, data: bits.subrange(p2, p2) }, p2))
                    } else {
                        match (if kind == PacketType::UserCmd {
                            take_i32(bits, p2)
                        } else {
                            Ok((0i32, p2))
                        }) {
                            Err(e) => Err(ParseError::of_read(e)),
                            Ok((command, p3)) => match Self::parse_data(bits, p3) {
                                Err(e) => Err(e),
                                Ok((data, end)) => Ok(
                                    (PacketView { kind, tick, command, data }, end),
                                ),
                            },
                        }
                    },
                },
            },
        }
    }

    /// Reads the data of a packet.
    pub fn read_data(stream: &mut Stream<'a>) -> (r: Result<Stream<'a>, ParseError>)
        requires
            old(stream).inv(),
        ensures
            final(stream).inv(),
            final(stream).same_window(old(stream)),
            (match Self::parse_data(old(stream).bits(), old(stream).position()) {
                Ok((data, end)) => (r matches Ok(found) && found.bits() == data && found.inv()
                    && found.position() == 0) && final(stream).position() == end,
                Err(e) => r matches Err(x) && x == e,
            }),
    {
        let length = match read_i32(stream) {
            Ok(v) => v,
            Err(e) => {
                return Err(ParseError::from_read(e));
            },
        };
        if length < 0 {
            return Err(ParseError::ReadOutOfBounds);
        }
        let bits = length as u64 * 8;
        if bits > usize::MAX as u64 {
            return Err(ParseError::ReadOutOfBounds);
        }
        match stream.read_bits(bits as usize) {
            Ok(data) => Ok(data),
            Err(e) => Err(ParseError::from_read(e)),
        }
    }

    /// Reads a packet.
    pub fn read(stream: &mut Stream<'a>) -> (r: Result<Self, ParseError>)
        requires
            old(stream).inv(),
        ensures
            final(stream).inv(),
            final(stream).same_window(old(stream)),
            (match Self::parse(old(stream).bits(), old(stream).position()) {
                Ok((view, end)) => (r matches Ok(found) && found@ == view && found.data.inv()
                    && found.data.position() == 0) && final(stream).position() == end,
                Err(e) => r matches Err(x) && x == e,
            }),
    {
        let raw = match stream.read_u8() {
            Ok(v) => v,
            Err(e) => {
                return Err(ParseError::from_read(e));
            },
        };
        let kind = match PacketType::from_u8(raw) {
            Some(kind) => kind,
            None => {
                return Err(ParseError::InvalidPacketType(raw));
            },
        };
        let tick = match read_i32(stream) {
            Ok(v) => v,
            Err(e) => {
                return Err(ParseError::from_read(e));
            },
        };
        match kind {
            PacketType::SyncTick | PacketType::Stop => {
                match stream.read_bits(0) {
                    Ok(data) => Ok(Packet { kind, tick, command: 0, data }),
                    Err(e) => Err(ParseError::from_read(e)),
                }
            },
            PacketType::UserCmd => {
                let command = match read_i32(stream) {
                    Ok(v) => v,
                    Err(e) => {
                        return Err(ParseError::from_read(e));
                    },
                };
                match Self::read_data(stream) {
                    Ok(data) => Ok(Packet { kind, tick, command, data }),
                    Err(e) => Err(e),
                }
            },
            _ => match Self::read_data(stream) {
                Ok(data) => Ok(Packet { kind, tick, command: 0, data }),
                Err(e) => Err(e),
            },
        }
    }
}

} // verus!
