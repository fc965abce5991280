//! The messages whose fields simply follow each other: numbers of fixed
//! width, flags, strings, and for some a run of data whose length is one of
//! the fields.
use crate::bits::lemma_bits_value_bound;
use crate::demo::sendprop::read_part;
use crate::stream::{
    take_bool, take_bytes, take_sized_string, take_skip, take_string, take_uint, ReadError,
    Stream,
};
use vstd::arithmetic::power2::lemma2_to64;
use vstd::prelude::*;
use vstd::utf8::decode_utf8;

verus! {

/// A file is offered or asked for.
#[derive(Debug, Clone, PartialEq, Eq)]
pub struct FileMessage {
    pub transfer_id: u32,
    pub file_name: String,
    /// Whether the file is asked for rather than offered.
    pub requested: bool,
}

/// What a [`FileMessage`] holds.
pub struct FileMessageView {
    pub transfer_id: u32,
    pub file_name: Seq<char>,
    pub requested: bool,
}

impl FileMessage {
    /// What the message holds.
    pub open spec fn view(&self) -> FileMessageView {
        FileMessageView {
            transfer_id: self.transfer_id,
            file_name: self.file_name@,
            requested: self.requested,
        }
    }

    /// What decoding the message at `pos` gives: its fields in order, and
    /// the position behind them.
    #[verifier::opaque]
    pub open spec fn parse(bits: Seq<bool>, pos: int) -> Result<(FileMessageView, int), ReadError> {
        match take_uint(bits, pos, 32) {
            Err(e) => Err(e),
            Ok((transfer_id, p1)) => match take_string(bits, p1) {
                Err(e) => Err(e),
                Ok((file_name, p2)) => match take_bool(bits, p2) {
                    Err(e) => Err(e),
                    Ok((requested, p3)) => Ok(
                        (
                            FileMessageView {
                                transfer_id: transfer_id as u32,
                                file_name: decode_utf8(file_name),
                                requested,
                            },
                            p3,
                        ),
                    ),
                },
            },
        }
    }

    /// Reads the message.
    pub fn read(stream: &mut Stream) -> (r: Result<Self, ReadError>)
        requires
            old(stream).inv(),
        ensures
            final(stream).inv(),
            final(stream).same_window(old(stream)),
            (match Self::parse(old(stream).bits(), old(stream).position()) {
                Ok((view, end)) => (r matches Ok(found) && found@ == view)
                    && final(stream).position() == end,
                Err(e) => r matches Err(x) && x == e,
            }),
    {
        reveal(FileMessage::parse);
        proof {
            lemma2_to64();
        }
        let transfer_id = match stream.read_u32() {
            Ok(v) => v,
            Err(e) => {
                return Err(e);
            },
        };
        let file_name = match stream.read_string() {
            Ok(v) => v,
            Err(e) => {
                return Err(e);
            },
        };
        let requested = match stream.read_bool() {
            Ok(v) => v,
            Err(e) => {
                return Err(e);
            },
        };
        Ok(FileMessage { transfer_id, file_name, requested })
    }
}

/// The tick of the server, and how well it keeps its pace.
#[derive(Debug, Clone, PartialEq, Eq)]
pub struct NetTickMessage {
    pub tick: u32,
    pub frame_time: u16,
    pub std_dev: u16,
}

/// What a [`NetTickMessage`] holds.
pub struct NetTickMessageView {
    pub tick: u32,
    pub frame_time: u16,
    pub std_dev: u16,
}

impl NetTickMessage {
    /// What the message holds.
    pub open spec fn view(&self) -> NetTickMessageView {
        NetTickMessageView {
            tick: self.tick,
            frame_time: self.frame_time,
            std_dev: self.std_dev,
        }
    }

    /// What decoding the message at `pos` gives: its fields in order, and
    /// the position behind them.
    #[verifier::opaque]
    pub open spec fn parse(bits: Seq<bool>, pos: int) -> Result<
        (NetTickMessageView, int),
        ReadError,
    > {
        match take_uint(bits, pos, 32) {
            Err(e) => Err(e),
            Ok((tick, p1)) => match take_uint(bits, p1, 16) {
                Err(e) => Err(e),
                Ok((frame_time, p2)) => match take_uint(bits, p2, 16) {
                    Err(e) => Err(e),
                    Ok((std_dev, p3)) => Ok(
                        (
                            NetTickMessageView {
                                tick: tick as u32,
                                frame_time: frame_time as u16,
                                std_dev: std_dev as u16,
                            },
                            p3,
                        ),
                    ),
                },
            },
        }
    }

    /// Reads the message.
    pub fn read(stream: &mut Stream) -> (r: Result<Self, ReadError>)
        requires
            old(stream).inv(),
        ensures
            final(stream).inv(),
            final(stream).same_window(old(stream)),
            (match Self::parse(old(stream).bits(), old(stream).position()) {
                Ok((view, end)) => (r matches Ok(found) && found@ == view)
                    && final(stream).position() == end,
                Err(e) => r matches Err(x) && x == e,
            }),
    {
        reveal(NetTickMessage::parse);
        proof {
            lemma2_to64();
        }
        let tick = match stream.read_u32() {
            Ok(v) => v,
            Err(e) => {
                return Err(e);
            },
        };
        let frame_time = match stream.read_u16() {
            Ok(v) => v,
            Err(e) => {
                return Err(e);
            },
        };
        let std_dev = match stream.read_u16() {
            Ok(v) => v,
            Err(e) => {
                return Err(e);
            },
        };
        Ok(NetTickMessage { tick, frame_time, std_dev })
    }
}

/// A console command.
#[derive(Debug, Clone, PartialEq, Eq)]
pub struct StringCmdMessage {
    pub command: String,
}

/// What a [`StringCmdMessage`] holds.
pub struct StringCmdMessageView {
    pub command: Seq<char>,
}

impl StringCmdMessage {
    /// What the message holds.
    pub open spec fn view(&self) -> StringCmdMessageView {
        StringCmdMessageView {
            command: self.command@,
        }
    }

    /// What decoding the message at `pos` gives: its fields in order, and
    /// the position behind them.
    #[verifier::opaque]
    pub open spec fn parse(bits: Seq<bool>, pos: int) -> Result<
        (StringCmdMessageView, int),
        ReadError,
    > {
        match take_string(bits, pos) {
            Err(e) => Err(e),
            Ok((command, p1)) => Ok(
                (
                    StringCmdMessageView {
                        command: decode_utf8(command),
                    },
                    p1,
                ),
            ),
        }
    }

    /// Reads the message.
    pub fn read(stream: &mut Stream) -> (r: Result<Self, ReadError>)
        requires
            old(stream).inv(),
        ensures
            final(stream).inv(),
            final(stream).same_window(old(stream)),
            (match Self::parse(old(stream).bits(), old(stream).position()) {
                Ok((view, end)) => (r matches Ok(found) && found@ == view)
                    && final(stream).position() == end,
                Err(e) => r matches Err(x) && x == e,
            }),
    {
        reveal(StringCmdMessage::parse);
        proof {
            lemma2_to64();
        }
        let command = match stream.read_string() {
            Ok(v) => v,
            Err(e) => {
                return Err(e);
            },
        };
        Ok(StringCmdMessage { command })
    }
}

/// How far the client has come in signing on.
#[derive(Debug, Clone, PartialEq, Eq)]
pub struct SigOnStateMessage {
    pub state: u8,
    pub count: u32,
}

/// What a [`SigOnStateMessage`] holds.
pub struct SigOnStateMessageView {
    pub state: u8,
    pub count: u32,
}

impl SigOnStateMessage {
    /// What the message holds.
    pub open spec fn view(&self) -> SigOnStateMessageView {
        SigOnStateMessageView {
            state: self.state,
            count: self.count,
        }
    }

    /// What decoding the message at `pos` gives: its fields in order, and
    /// the position behind them.
    #[verifier::opaque]
    pub open spec fn parse(bits: Seq<bool>, pos: int) -> Result<
        (SigOnStateMessageView, int),
        ReadError,
    > {
        match take_uint(bits, pos, 8) {
            Err(e) => Err(e),
            Ok((state, p1)) => match take_uint(bits, p1, 32) {
                Err(e) => Err(e),
                Ok((count, p2)) => Ok(
                    (
                        SigOnStateMessageView {
                            state: state as u8,
                            count: count as u32,
                        },
                        p2,
                    ),
                ),
            },
        }
    }

    /// Reads the message.
    pub fn read(stream: &mut Stream) -> (r: Result<Self, ReadError>)
        requires
            old(stream).inv(),
        ensures
            final(stream).inv(),
            final(stream).same_window(old(stream)),
            (match Self::parse(old(stream).bits(), old(stream).position()) {
                Ok((view, end)) => (r matches Ok(found) && found@ == view)
                    && final(stream).position() == end,
                Err(e) => r matches Err(x) && x == e,
            }),
    {
        reveal(SigOnStateMessage::parse);
        proof {
            lemma2_to64();
        }
        let state = match stream.read_u8() {
            Ok(v) => v,
            Err(e) => {
                return Err(e);
            },
        };
        let count = match stream.read_u32() {
            Ok(v) => v,
            Err(e) => {
                return Err(e);
            },
        };
        Ok(SigOnStateMessage { state, count })
    }
}

/// A line for the console.
#[derive(Debug, Clone, PartialEq, Eq)]
pub struct PrintMessage {
    pub value: String,
}

/// What a [`PrintMessage`] holds.
pub struct PrintMessageView {
    pub value: Seq<char>,
}

impl PrintMessage {
    /// What the message holds.
    pub open spec fn view(&self) -> PrintMessageView {
        PrintMessageView {
            value: self.value@,
        }
    }

    /// What decoding the message at `pos` gives: its fields in order, and
    /// the position behind them.
    #[verifier::opaque]
    pub open spec fn parse(bits: Seq<bool>, pos: int) -> Result<
        (PrintMessageView, int),
        ReadError,
    > {
        match take_string(bits, pos) {
            Err(e) => Err(e),
            Ok((value, p1)) => Ok(
                (
                    PrintMessageView {
                        value: decode_utf8(value),
                    },
                    p1,
                ),
            ),
        }
    }

    /// Reads the message.
    pub fn read(stream: &mut Stream) -> (r: Result<Self, ReadError>)
        requires
            old(stream).inv(),
        ensures
            final(stream).inv(),
            final(stream).same_window(old(stream)),
            (match Self::parse(old(stream).bits(), old(stream).position()) {
                Ok((view, end)) => (r matches Ok(found) && found@ == view)
                    && final(stream).position() == end,
                Err(e) => r matches Err(x) && x == e,
            }),
    {
        reveal(PrintMessage::parse);
        proof {
            lemma2_to64();
        }
        let value = match stream.read_string() {
            Ok(v) => v,
            Err(e) => {
                return Err(e);
            },
        };
        Ok(PrintMessage { value })
    }
}

/// What the server is and what it runs. The interval per tick is a 32-bit
/// IEEE 754 number, held as the 32 bits that encode it.
#[derive(Debug, Clone, PartialEq, Eq)]
pub struct ServerInfoMessage {
    pub version: u16,
    pub server_count: u32,
    pub stv: bool,
    pub dedicated: bool,
    pub max_crc: u32,
    pub max_classes: u16,
    pub map_hash: Vec<u8>,
    pub player_slot: u8,
    pub max_player_count: u8,
    pub interval_per_tick: u32,
    pub platform: String,
    pub game: String,
    pub map: String,
    pub skybox: String,
    pub server_name: String,
    pub replay: bool,
}

/// What a [`ServerInfoMessage`] holds.
pub struct ServerInfoMessageView {
    pub version: u16,
    pub server_count: u32,
    pub stv: bool,
    pub dedicated: bool,
    pub max_crc: u32,
    pub max_classes: u16,
    pub map_hash: Seq<u8>,
    pub player_slot: u8,
    pub max_player_count: u8,
    pub interval_per_tick: u32,
    pub platform: Seq<char>,
    pub game: Seq<char>,
    pub map: Seq<char>,
    pub skybox: Seq<char>,
    pub server_name: Seq<char>,
    pub replay: bool,
}

impl ServerInfoMessage {
    /// What the message holds.
    pub open spec fn view(&self) -> ServerInfoMessageView {
        ServerInfoMessageView {
            version: self.version,
            server_count: self.server_count,
            stv: self.stv,
            dedicated: self.dedicated,
            max_crc: self.max_crc,
            max_classes: self.max_classes,
            map_hash: self.map_hash@,
            player_slot: self.player_slot,
            max_player_count: self.max_player_count,
            interval_per_tick: self.interval_per_tick,
            platform: self.platform@,
            game: self.game@,
            map: self.map@,
            skybox: self.skybox@,
            server_name: self.server_name@,
            replay: self.replay,
        }
    }

    /// What decoding the message at `pos` gives: its fields in order, and
    /// the position behind them.
    #[verifier::opaque]
    pub open spec fn parse(bits: Seq<bool>, pos: int) -> Result<
        (ServerInfoMessageView, int),
        ReadError,
    > {
        match Self::parse_counts(bits, pos) {
            Err(e) => Err(e),
            Ok((counts, p1)) => match Self::parse_slots(bits, p1) {
                Err(e) => Err(e),
                Ok((slots, p2)) => match Self::parse_names(bits, p2) {
                    Err(e) => Err(e),
                    Ok((names, p3)) => Ok(
                        (
                            ServerInfoMessageView {
                                version: counts.0,
                                server_count: counts.1,
                                stv: counts.2,
                                dedicated: counts.3,
                                max_crc: counts.4,
                                max_classes: counts.5,
                                map_hash: slots.0,
                                player_slot: slots.1,
                                max_player_count: slots.2,
                                interval_per_tick: slots.3,
                                platform: slots.4,
                                game: names.0,
                                map: names.1,
                                skybox: names.2,
                                server_name: names.3,
                                replay: names.4,
                            },
                            p3,
                        ),
                    ),
                },
            },
        }
    }

    /// What decoding the first fields at `pos` gives: the version, the count
    /// of the server, two flags, the checksum of the map and the number of
    /// classes.
    pub open spec fn parse_counts(bits: Seq<bool>, pos: int) -> Result<
        ((u16, u32, bool, bool, u32, u16), int),
        ReadError,
    > {
        match take_uint(bits, pos, 16) {
            Err(e) => Err(e),
            Ok((version, p1)) => match take_uint(bits, p1, 32) {
                Err(e) => Err(e),
                Ok((server_count, p2)) => match take_bool(bits, p2) {
                    Err(e) => Err(e),
                    Ok((stv, p3)) => match take_bool(bits, p3) {
                        Err(e) => Err(e),
                        Ok((dedicated, p4)) => match take_uint(bits, p4, 32) {
                            Err(e) => Err(e),
                            Ok((max_crc, p5)) => match take_uint(bits, p5, 16) {
                                Err(e) => Err(e),
                                Ok((max_classes, p6)) => Ok(
                                    (
                                        (
                                            version as u16,
                                            server_count as u32,
                                            stv,
                                            dedicated,
                                            max_crc as u32,
                                            max_classes as u16,
                                        ),
                                        p6,
                                    ),
                                ),
                            },
                        },
                    },
                },
            },
        }
    }

    /// What decoding the middle fields at `pos` gives: the hash of the map,
    /// the slot of the player, the number of players, the interval per tick
    /// and the platform.
    pub open spec fn parse_slots(bits: Seq<bool>, pos: int) -> Result<
        ((Seq<u8>, u8, u8, u32, Seq<char>), int),
        ReadError,
    > {
        match take_bytes(bits, pos, 16) {
            Err(e) => Err(e),
            Ok((map_hash, p1)) => match take_uint(bits, p1, 8) {
                Err(e) => Err(e),
                Ok((player_slot, p2)) => match take_uint(bits, p2, 8) {
                    Err(e) => Err(e),
                    Ok((max_player_count, p3)) => match take_uint(bits, p3, 32) {
                        Err(e) => Err(e),
                        Ok((interval_per_tick, p4)) => match take_sized_string(bits, p4, 1) {
                            Err(e) => Err(e),
                            Ok((platform, p5)) => Ok(
                                (
                                    (
                                        map_hash,
                                        player_slot as u8,
                                        max_player_count as u8,
                                        interval_per_tick as u32,
                                        decode_utf8(platform),
                                    ),
                                    p5,
                                ),
                            ),
                        },
                    },
                },
            },
        }
    }

    /// What decoding the last fields at `pos` gives: the names of the game,
    /// of the map, of the sky and of the server, and whether the server
    /// records a replay.
    pub open spec fn parse_names(bits: Seq<bool>, pos: int) -> Result<
        ((Seq<char>, Seq<char>, Seq<char>, Seq<char>, bool), int),
        ReadError,
    > {
        match take_string(bits, pos) {
            Err(e) => Err(e),
            Ok((game, p1)) => match take_string(bits, p1) {
                Err(e) => Err(e),
                Ok((map, p2)) => match take_string(bits, p2) {
                    Err(e) => Err(e),
                    Ok((skybox, p3)) => match take_string(bits, p3) {
                        Err(e) => Err(e),
                        Ok((server_name, p4)) => match take_bool(bits, p4) {
                            Err(e) => Err(e),
                            Ok((replay, p5)) => Ok(
                                (
                                    (
                                        decode_utf8(game),
                                        decode_utf8(map),
                                        decode_utf8(skybox),
                                        decode_utf8(server_name),
                                        replay,
                                    ),
                                    p5,
                                ),
                            ),
                        },
                    },
                },
            },
        }
    }

    /// Reads the message.
    pub fn read(stream: &mut Stream) -> (r: Result<Self, ReadError>)
        requires
            old(stream).inv(),
        ensures
            final(stream).inv(),
            final(stream).same_window(old(stream)),
            (match Self::parse(old(stream).bits(), old(stream).position()) {
                Ok((view, end)) => (r matches Ok(found) && found@ == view)
                    && final(stream).position() == end,
                Err(e) => r matches Err(x) && x == e,
            }),
    {
        reveal(ServerInfoMessage::parse);
        proof {
            lemma2_to64();
        }
        let version = match stream.read_u16() {
            Ok(v) => v,
            Err(e) => {
                return Err(e);
            },
        };
        let server_count = match stream.read_u32() {
            Ok(v) => v,
            Err(e) => {
                return Err(e);
            },
        };
        let stv = match stream.read_bool() {
            Ok(v) => v,
            Err(e) => {
                return Err(e);
            },
        };
        let dedicated = match stream.read_bool() {
            Ok(v) => v,
            Err(e) => {
                return Err(e);
            },
        };
        let max_crc = match stream.read_u32() {
            Ok(v) => v,
            Err(e) => {
                return Err(e);
            },
        };
        let max_classes = match stream.read_u16() {
            Ok(v) => v,
            Err(e) => {
                return Err(e);
            },
        };
        let map_hash = match stream.read_bytes(16) {
            Ok(v) => v,
            Err(e) => {
                return Err(e);
            },
        };
        let player_slot = match stream.read_u8() {
            Ok(v) => v,
            Err(e) => {
                return Err(e);
            },
        };
        let max_player_count = match stream.read_u8() {
            Ok(v) => v,
            Err(e) => {
                return Err(e);
            },
        };
        let interval_per_tick = match stream.read_u32() {
            Ok(v) => v,
            Err(e) => {
                return Err(e);
            },
        };
        let platform = match stream.read_sized_string(1) {
            Ok(v) => v,
            Err(e) => {
                return Err(e);
            },
        };
        let game = match stream.read_string() {
            Ok(v) => v,
            Err(e) => {
                return Err(e);
            },
        };
        let map = match stream.read_string() {
            Ok(v) => v,
            Err(e) => {
                return Err(e);
            },
        };
        let skybox = match stream.read_string() {
            Ok(v) => v,
            Err(e) => {
                return Err(e);
            },
        };
        let server_name = match stream.read_string() {
            Ok(v) => v,
            Err(e) => {
                return Err(e);
            },
        };
        let replay = match stream.read_bool() {
            Ok(v) => v,
            Err(e) => {
                return Err(e);
            },
        };
        Ok(
            ServerInfoMessage {
                version,
                server_count,
                stv,
                dedicated,
                max_crc,
                max_classes,
                map_hash,
                player_slot,
                max_player_count,
                interval_per_tick,
                platform,
                game,
                map,
                skybox,
                server_name,
                replay,
            },
        )
    }
}

/// The game is paused or goes on.
#[derive(Debug, Clone, PartialEq, Eq)]
pub struct SetPauseMessage {
    pub pause: bool,
}

/// What a [`SetPauseMessage`] holds.
pub struct SetPauseMessageView {
    pub pause: bool,
}

impl SetPauseMessage {
    /// What the message holds.
    pub open spec fn view(&self) -> SetPauseMessageView {
        SetPauseMessageView {
            pause: self.pause,
        }
    }

    /// What decoding the message at `pos` gives: its fields in order, and
    /// the position behind them.
    #[verifier::opaque]
    pub open spec fn parse(bits: Seq<bool>, pos: int) -> Result<
        (SetPauseMessageView, int),
        ReadError,
    > {
        match take_bool(bits, pos) {
            Err(e) => Err(e),
            Ok((pause, p1)) => Ok(
                (
                    SetPauseMessageView {
                        pause,
                    },
                    p1,
                ),
            ),
        }
    }

    /// Reads the message.
    pub fn read(stream: &mut Stream) -> (r: Result<Self, ReadError>)
        requires
            old(stream).inv(),
        ensures
            final(stream).inv(),
            final(stream).same_window(old(stream)),
            (match Self::parse(old(stream).bits(), old(stream).position()) {
                Ok((view, end)) => (r matches Ok(found) && found@ == view)
                    && final(stream).position() == end,
                Err(e) => r matches Err(x) && x == e,
            }),
    {
        reveal(SetPauseMessage::parse);
        proof {
            lemma2_to64();
        }
        let pause = match stream.read_bool() {
            Ok(v) => v,
            Err(e) => {
                return Err(e);
            },
        };
        Ok(SetPauseMessage { pause })
    }
}

/// The entity through whose eyes the world is seen.
#[derive(Debug, Clone, PartialEq, Eq)]
pub struct SetViewMessage {
    pub index: u16,
}

/// What a [`SetViewMessage`] holds.
pub struct SetViewMessageView {
    pub index: u16,
}

impl SetViewMessage {
    /// What the message holds.
    pub open spec fn view(&self) -> SetViewMessageView {
        SetViewMessageView {
            index: self.index,
        }
    }

    /// What decoding the message at `pos` gives: its fields in order, and
    /// the position behind them.
    #[verifier::opaque]
    pub open spec fn parse(bits: Seq<bool>, pos: int) -> Result<
        (SetViewMessageView, int),
        ReadError,
    > {
        match take_uint(bits, pos, 11) {
            Err(e) => Err(e),
            Ok((index, p1)) => Ok(
                (
                    SetViewMessageView {
                        index: index as u16,
                    },
                    p1,
                ),
            ),
        }
    }

    /// Reads the message.
    pub fn read(stream: &mut Stream) -> (r: Result<Self, ReadError>)
        requires
            old(stream).inv(),
        ensures
            final(stream).inv(),
            final(stream).same_window(old(stream)),
            (match Self::parse(old(stream).bits(), old(stream).position()) {
                Ok((view, end)) => (r matches Ok(found) && found@ == view)
                    && final(stream).position() == end,
                Err(e) => r matches Err(x) && x == e,
            }),
    {
        reveal(SetViewMessage::parse);
        proof {
            lemma2_to64();
        }
        let index = match read_part(stream, true, 11) {
            Ok(v) => v as u16,
            Err(e) => {
                return Err(e);
            },
        };
        Ok(SetViewMessage { index })
    }
}

/// The view is turned to an angle.
#[derive(Debug, Clone, PartialEq, Eq)]
pub struct FixAngleMessage {
    pub relative: bool,
    pub x: u16,
    pub y: u16,
    pub z: u16,
}

/// What a [`FixAngleMessage`] holds.
pub struct FixAngleMessageView {
    pub relative: bool,
    pub x: u16,
    pub y: u16,
    pub z: u16,
}

impl FixAngleMessage {
    /// What the message holds.
    pub open spec fn view(&self) -> FixAngleMessageView {
        FixAngleMessageView {
            relative: self.relative,
            x: self.x,
            y: self.y,
            z: self.z,
        }
    }

    /// What decoding the message at `pos` gives: its fields in order, and
    /// the position behind them.
    #[verifier::opaque]
    pub open spec fn parse(bits: Seq<bool>, pos: int) -> Result<
        (FixAngleMessageView, int),
        ReadError,
    > {
        match take_bool(bits, pos) {
            Err(e) => Err(e),
            Ok((relative, p1)) => match take_uint(bits, p1, 16) {
                Err(e) => Err(e),
                Ok((x, p2)) => match take_uint(bits, p2, 16) {
                    Err(e) => Err(e),
                    Ok((y, p3)) => match take_uint(bits, p3, 16) {
                        Err(e) => Err(e),
                        Ok((z, p4)) => Ok(
                            (
                                FixAngleMessageView {
                                    relative,
                                    x: x as u16,
                                    y: y as u16,
                                    z: z as u16,
                                },
                                p4,
                            ),
                        ),
                    },
                },
            },
        }
    }

    /// Reads the message.
    pub fn read(stream: &mut Stream) -> (r: Result<Self, ReadError>)
        requires
            old(stream).inv(),
        ensures
            final(stream).inv(),
            final(stream).same_window(old(stream)),
            (match Self::parse(old(stream).bits(), old(stream).position()) {
                Ok((view, end)) => (r matches Ok(found) && found@ == view)
                    && final(stream).position() == end,
                Err(e) => r matches Err(x) && x == e,
            }),
    {
        reveal(FixAngleMessage::parse);
        proof {
            lemma2_to64();
        }
        let relative = match stream.read_bool() {
            Ok(v) => v,
            Err(e) => {
                return Err(e);
            },
        };
        let x = match stream.read_u16() {
            Ok(v) => v,
            Err(e) => {
                return Err(e);
            },
        };
        let y = match stream.read_u16() {
            Ok(v) => v,
            Err(e) => {
                return Err(e);
            },
        };
        let z = match stream.read_u16() {
            Ok(v) => v,
            Err(e) => {
                return Err(e);
            },
        };
        Ok(FixAngleMessage { relative, x, y, z })
    }
}

/// A sound to load ahead of its use.
#[derive(Debug, Clone, PartialEq, Eq)]
pub struct PreFetchMessage {
    pub index: u16,
}

/// What a [`PreFetchMessage`] holds.
pub struct PreFetchMessageView {
    pub index: u16,
}

impl PreFetchMessage {
    /// What the message holds.
    pub open spec fn view(&self) -> PreFetchMessageView {
        PreFetchMessageView {
            index: self.index,
        }
    }

    /// What decoding the message at `pos` gives: its fields in order, and
    /// the position behind them.
    #[verifier::opaque]
    pub open spec fn parse(bits: Seq<bool>, pos: int) -> Result<
        (PreFetchMessageView, int),
        ReadError,
    > {
        match take_uint(bits, pos, 14) {
            Err(e) => Err(e),
            Ok((index, p1)) => Ok(
                (
                    PreFetchMessageView {
                        index: index as u16,
                    },
                    p1,
                ),
            ),
        }
    }

    /// Reads the message.
    pub fn read(stream: &mut Stream) -> (r: Result<Self, ReadError>)
        requires
            old(stream).inv(),
        ensures
            final(stream).inv(),
            final(stream).same_window(old(stream)),
            (match Self::parse(old(stream).bits(), old(stream).position()) {
                Ok((view, end)) => (r matches Ok(found) && found@ == view)
                    && final(stream).position() == end,
                Err(e) => r matches Err(x) && x == e,
            }),
    {
        reveal(PreFetchMessage::parse);
        proof {
            lemma2_to64();
        }
        let index = match read_part(stream, true, 14) {
            Ok(v) => v as u16,
            Err(e) => {
                return Err(e);
            },
        };
        Ok(PreFetchMessage { index })
    }
}

/// The server asks for the value of a console variable.
#[derive(Debug, Clone, PartialEq, Eq)]
pub struct GetCvarValueMessage {
    pub cookie: u32,
    pub value: String,
}

/// What a [`GetCvarValueMessage`] holds.
pub struct GetCvarValueMessageView {
    pub cookie: u32,
    pub value: Seq<char>,
}

impl GetCvarValueMessage {
    /// What the message holds.
    pub open spec fn view(&self) -> GetCvarValueMessageView {
        GetCvarValueMessageView {
            cookie: self.cookie,
            value: self.value@,
        }
    }

    /// What decoding the message at `pos` gives: its fields in order, and
    /// the position behind them.
    #[verifier::opaque]
    pub open spec fn parse(bits: Seq<bool>, pos: int) -> Result<
        (GetCvarValueMessageView, int),
        ReadError,
    > {
        match take_uint(bits, pos, 32) {
            Err(e) => Err(e),
            Ok((cookie, p1)) => match take_string(bits, p1) {
                Err(e) => Err(e),
                Ok((value, p2)) => Ok(
                    (
                        GetCvarValueMessageView {
                            cookie: cookie as u32,
                            value: decode_utf8(value),
                        },
                        p2,
                    ),
                ),
            },
        }
    }

    /// Reads the message.
    pub fn read(stream: &mut Stream) -> (r: Result<Self, ReadError>)
        requires
            old(stream).inv(),
        ensures
            final(stream).inv(),
            final(stream).same_window(old(stream)),
            (match Self::parse(old(stream).bits(), old(stream).position()) {
                Ok((view, end)) => (r matches Ok(found) && found@ == view)
                    && final(stream).position() == end,
                Err(e) => r matches Err(x) && x == e,
            }),
    {
        reveal(GetCvarValueMessage::parse);
        proof {
            lemma2_to64();
        }
        let cookie = match stream.read_u32() {
            Ok(v) => v,
            Err(e) => {
                return Err(e);
            },
        };
        let value = match stream.read_string() {
            Ok(v) => v,
            Err(e) => {
                return Err(e);
            },
        };
        Ok(GetCvarValueMessage { cookie, value })
    }
}

/// Voice of a player. The length counts bits.
#[derive(Debug)]
pub struct VoiceDataMessage<'a> {
    pub client: u8,
    pub proximity: u8,
    pub length: u16,
    pub data: Stream<'a>,
}

/// What a [`VoiceDataMessage`] holds.
pub struct VoiceDataMessageView {
    pub client: u8,
    pub proximity: u8,
    pub length: u16,
    pub data: Seq<bool>,
}

impl<'a> VoiceDataMessage<'a> {
    /// What the message holds.
    pub open spec fn view(&self) -> VoiceDataMessageView {
        VoiceDataMessageView {
            client: self.client,
            proximity: self.proximity,
            length: self.length,
            data: self.data.bits(),
        }
    }

    /// What decoding the message at `pos` gives: its fields in order, and
    /// behind them as many bits of data as the length says.
    #[verifier::opaque]
    pub open spec fn parse(bits: Seq<bool>, pos: int) -> Result<
        (VoiceDataMessageView, int),
        ReadError,
    > {
        match take_uint(bits, pos, 8) {
            Err(e) => Err(e),
            Ok((client, p1)) => match take_uint(bits, p1, 8) {
                Err(e) => Err(e),
                Ok((proximity, p2)) => match take_uint(bits, p2, 16) {
                    Err(e) => Err(e),
                    Ok((length, p3)) => match take_skip(bits, p3, length as int) {
                        Err(e) => Err(e),
                        Ok(end) => Ok(
                            (
                                VoiceDataMessageView {
                                    client: client as u8,
                                    proximity: proximity as u8,
                                    length: length as u16,
                                    data: bits.subrange(p3, end),
                                },
                                end,
                            ),
                        ),
                    },
                },
            },
        }
    }

    /// Reads the message.
    pub fn read(stream: &mut Stream<'a>) -> (r: Result<Self, ReadError>)
        requires
            old(stream).inv(),
        ensures
            final(stream).inv(),
            final(stream).same_window(old(stream)),
            (match Self::parse(old(stream).bits(), old(stream).position()) {
                Ok((view, end)) => (r matches Ok(found) && found@ == view)
                    && final(stream).position() == end,
                Err(e) => r matches Err(x) && x == e,
            }),
    {
        reveal(VoiceDataMessage::parse);
        proof {
            lemma2_to64();
        }
        let client = match stream.read_u8() {
            Ok(v) => v,
            Err(e) => {
                return Err(e);
            },
        };
        let proximity = match stream.read_u8() {
            Ok(v) => v,
            Err(e) => {
                return Err(e);
            },
        };
        let length = match stream.read_u16() {
            Ok(v) => v,
            Err(e) => {
                return Err(e);
            },
        };
        let data = match stream.read_bits(length as usize) {
            Ok(v) => v,
            Err(e) => {
                return Err(e);
            },
        };
        Ok(VoiceDataMessage { client, proximity, length, data })
    }
}

/// The message ends where its length says: behind the 32 bits of its
/// fields and the bits of data that the length counts.
pub proof fn lemma_voice_data_length(bits: Seq<bool>, pos: int)
    requires
        0 <= pos <= bits.len(),
    ensures
        VoiceDataMessage::parse(bits, pos) matches Ok((m, end)) ==> ({
            &&& end == pos + 32 + m.length
            &&& m.data.len() == m.length
            &&& end <= bits.len()
        }),
{
    reveal(VoiceDataMessage::parse);
    lemma2_to64();
    lemma_bits_value_bound(bits.subrange(pos + 16, pos + 32));
}

/// A message to one entity. The length counts bits.
#[derive(Debug)]
pub struct EntityMessage<'a> {
    pub index: u16,
    pub class_id: u16,
    pub length: u16,
    pub data: Stream<'a>,
}

/// What an [`EntityMessage`] holds.
pub struct EntityMessageView {
    pub index: u16,
    pub class_id: u16,
    pub length: u16,
    pub data: Seq<bool>,
}

impl<'a> EntityMessage<'a> {
    /// What the message holds.
    pub open spec fn view(&self) -> EntityMessageView {
        EntityMessageView {
            index: self.index,
            class_id: self.class_id,
            length: self.length,
            data: self.data.bits(),
        }
    }

    /// What decoding the message at `pos` gives: its fields in order, and
    /// behind them as many bits of data as the length says.
    #[verifier::opaque]
    pub open spec fn parse(bits: Seq<bool>, pos: int) -> Result<
        (EntityMessageView, int),
        ReadError,
    > {
        match take_uint(bits, pos, 11) {
            Err(e) => Err(e),
            Ok((index, p1)) => match take_uint(bits, p1, 9) {
                Err(e) => Err(e),
                Ok((class_id, p2)) => match take_uint(bits, p2, 11) {
                    Err(e) => Err(e),
                    Ok((length, p3)) => match take_skip(bits, p3, length as int) {
                        Err(e) => Err(e),
                        Ok(end) => Ok(
                            (
                                EntityMessageView {
                                    index: index as u16,
                                    class_id: class_id as u16,
                                    length: length as u16,
                                    data: bits.subrange(p3, end),
                                },
                                end,
                            ),
                        ),
                    },
                },
            },
        }
    }

    /// Reads the message.
    pub fn read(stream: &mut Stream<'a>) -> (r: Result<Self, ReadError>)
        requires
            old(stream).inv(),
        ensures
            final(stream).inv(),
            final(stream).same_window(old(stream)),
            (match Self::parse(old(stream).bits(), old(stream).position()) {
                Ok((view, end)) => (r matches Ok(found) && found@ == view)
                    && final(stream).position() == end,
                Err(e) => r matches Err(x) && x == e,
            }),
    {
        reveal(EntityMessage::parse);
        proof {
            lemma2_to64();
        }
        let index = match read_part(stream, true, 11) {
            Ok(v) => v as u16,
            Err(e) => {
                return Err(e);
            },
        };
        let class_id = match read_part(stream, true, 9) {
            Ok(v) => v as u16,
            Err(e) => {
                return Err(e);
            },
        };
        let length = match read_part(stream, true, 11) {
            Ok(v) => v as u16,
            Err(e) => {
                return Err(e);
            },
        };
        let data = match stream.read_bits(length as usize) {
            Ok(v) => v,
            Err(e) => {
                return Err(e);
            },
        };
        Ok(EntityMessage { index, class_id, length, data })
    }
}

/// The message ends where its length says: behind the 31 bits of its
/// fields and the bits of data that the length counts.
pub proof fn lemma_entity_message_length(bits: Seq<bool>, pos: int)
    requires
        0 <= pos <= bits.len(),
    ensures
        EntityMessage::parse(bits, pos) matches Ok((m, end)) ==> ({
            &&& end == pos + 31 + m.length
            &&& m.data.len() == m.length
            &&& end <= bits.len()
        }),
{
    reveal(EntityMessage::parse);
    lemma2_to64();
    lemma_bits_value_bound(bits.subrange(pos + 20, pos + 31));
}

/// A menu to show. The length counts bytes.
#[derive(Debug)]
pub struct MenuMessage<'a> {
    pub kind: u16,
    pub length: u16,
    pub data: Stream<'a>,
}

/// What a [`MenuMessage`] holds.
pub struct MenuMessageView {
    pub kind: u16,
    pub length: u16,
    pub data: Seq<bool>,
}

impl<'a> MenuMessage<'a> {
    /// What the message holds.
    pub open spec fn view(&self) -> MenuMessageView {
        MenuMessageView {
            kind: self.kind,
            length: self.length,
            data: self.data.bits(),
        }
    }

    /// What decoding the message at `pos` gives: its fields in order, and
    /// behind them as many bits of data as the length says.
    #[verifier::opaque]
    pub open spec fn parse(bits: Seq<bool>, pos: int) -> Result<(MenuMessageView, int), ReadError> {
        match take_uint(bits, pos, 16) {
            Err(e) => Err(e),
            Ok((kind, p1)) => match take_uint(bits, p1, 16) {
                Err(e) => Err(e),
                Ok((length, p2)) => match take_skip(bits, p2, (8 * length) as int) {
                    Err(e) => Err(e),
                    Ok(end) => Ok(
                        (
                            MenuMessageView {
                                kind: kind as u16,
                                length: length as u16,
                                data: bits.subrange(p2, end),
                            },
                            end,
                        ),
                    ),
                },
            },
        }
    }

    /// Reads the message.
    pub fn read(stream: &mut Stream<'a>) -> (r: Result<Self, ReadError>)
        requires
            old(stream).inv(),
        ensures
            final(stream).inv(),
            final(stream).same_window(old(stream)),
            (match Self::parse(old(stream).bits(), old(stream).position()) {
                Ok((view, end)) => (r matches Ok(found) && found@ == view)
                    && final(stream).position() == end,
                Err(e) => r matches Err(x) && x == e,
            }),
    {
        reveal(MenuMessage::parse);
        proof {
            lemma2_to64();
        }
        let kind = match stream.read_u16() {
            Ok(v) => v,
            Err(e) => {
                return Err(e);
            },
        };
        let length = match stream.read_u16() {
            Ok(v) => v,
            Err(e) => {
                return Err(e);
            },
        };
        let bits = length as u64 * 8;
        if bits > usize::MAX as u64 {
            let left = stream.bits_left();
            return Err(ReadError::NotEnoughData { requested: usize::MAX, bits_left: left });
        }
        let data = match stream.read_bits(bits as usize) {
            Ok(v) => v,
            Err(e) => {
                return Err(e);
            },
        };
        Ok(MenuMessage { kind, length, data })
    }
}

/// The message ends where its length says: behind the 32 bits of its
/// fields and the bytes of data that the length counts.
pub proof fn lemma_menu_length(bits: Seq<bool>, pos: int)
    requires
        0 <= pos <= bits.len(),
    ensures
        MenuMessage::parse(bits, pos) matches Ok((m, end)) ==> ({
            &&& end == pos + 32 + 8 * m.length
            &&& m.data.len() == 8 * m.length
            &&& end <= bits.len()
        }),
{
    reveal(MenuMessage::parse);
    lemma2_to64();
    lemma_bits_value_bound(bits.subrange(pos + 16, pos + 32));
}

/// Keys and values for a command. The length counts bytes.
#[derive(Debug)]
pub struct CmdKeyValuesMessage<'a> {
    pub length: u32,
    pub data: Stream<'a>,
}

/// What a [`CmdKeyValuesMessage`] holds.
pub struct CmdKeyValuesMessageView {
    pub length: u32,
    pub data: Seq<bool>,
}

impl<'a> CmdKeyValuesMessage<'a> {
    /// What the message holds.
    pub open spec fn view(&self) -> CmdKeyValuesMessageView {
        CmdKeyValuesMessageView {
            length: self.length,
            data: self.data.bits(),
        }
    }

    /// What decoding the message at `pos` gives: its fields in order, and
    /// behind them as many bits of data as the length says.
    #[verifier::opaque]
    pub open spec fn parse(bits: Seq<bool>, pos: int) -> Result<
        (CmdKeyValuesMessageView, int),
        ReadError,
    > {
        match take_uint(bits, pos, 32) {
            Err(e) => Err(e),
            Ok((length, p1)) => match take_skip(bits, p1, (8 * length) as int) {
                Err(e) => Err(e),
                Ok(end) => Ok(
                    (
                        CmdKeyValuesMessageView {
                            length: length as u32,
                            data: bits.subrange(p1, end),
                        },
                        end,
                    ),
                ),
            },
        }
    }

    /// Reads the message.
    pub fn read(stream: &mut Stream<'a>) -> (r: Result<Self, ReadError>)
        requires
            old(stream).inv(),
        ensures
            final(stream).inv(),
            final(stream).same_window(old(stream)),
            (match Self::parse(old(stream).bits(), old(stream).position()) {
                Ok((view, end)) => (r matches Ok(found) && found@ == view)
                    && final(stream).position() == end,
                Err(e) => r matches Err(x) && x == e,
            }),
    {
        reveal(CmdKeyValuesMessage::parse);
        proof {
            lemma2_to64();
        }
        let length = match stream.read_u32() {
            Ok(v) => v,
            Err(e) => {
                return Err(e);
            },
        };
        let bits = length as u64 * 8;
        if bits > usize::MAX as u64 {
            let left = stream.bits_left();
            return Err(ReadError::NotEnoughData { requested: usize::MAX, bits_left: left });
        }
        let data = match stream.read_bits(bits as usize) {
            Ok(v) => v,
            Err(e) => {
                return Err(e);
            },
        };
        Ok(CmdKeyValuesMessage { length, data })
    }
}

/// The message ends where its length says: behind the 32 bits of its
/// fields and the bytes of data that the length counts.
pub proof fn lemma_cmd_key_values_length(bits: Seq<bool>, pos: int)
    requires
        0 <= pos <= bits.len(),
    ensures
        CmdKeyValuesMessage::parse(bits, pos) matches Ok((m, end)) ==> ({
            &&& end == pos + 32 + 8 * m.length
            &&& m.data.len() == 8 * m.length
            &&& end <= bits.len()
        }),
{
    reveal(CmdKeyValuesMessage::parse);
    lemma2_to64();
    lemma_bits_value_bound(bits.subrange(pos + 0, pos + 32));
}

} // verus!
