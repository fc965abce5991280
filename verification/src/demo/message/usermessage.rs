//! User messages: what the server tells the client's interface, such as
//! chat lines, screen shakes and text notices.
//!
//! On the wire a user message is a byte that names its kind, a length of
//! eleven bits, and a payload of that many bits. The payload is decoded on
//! its own: whatever a decoder reads or leaves unread, the message ends
//! where its length says. A payload whose text is not valid UTF-8 does not
//! end the demo: it is kept as it came, as a message of unknown kind.
use crate::stream::{
    take_sized_string, take_skip, take_string, take_uint, uint_at, ReadError, Stream,
};
use crate::text::{
    copy_range, find_byte, index_of, is_utf8, lemma_without_byte_utf8, remove_byte,
    string_from_utf8, without_byte,
};
use vstd::arithmetic::power2::lemma2_to64;
use vstd::prelude::*;

use vstd::utf8::{decode_utf8, decode_utf8_encode_utf8, encode_utf8, valid_utf8};

verus! {

/// The kind of a user message, as its first byte names it.
#[derive(Clone, Copy, Debug, PartialEq, Eq, Structural)]
pub enum UserMessageType {
    Geiger,
    Train,
    HudText,
    SayText,
    SayText2,
    TextMsg,
    ResetHUD,
    GameTitle,
    ItemPickup,
    ShowMenu,
    Shake,
    Fade,
    VGUIMenu,
    Rumble,
    CloseCaption,
    SendAudio,
    VoiceMask,
    RequestState,
    Damage,
    HintText,
    KeyHintText,
    HudMsg,
    AmmoDenied,
    AchievementEvent,
    UpdateRadar,
    VoiceSubtitle,
    HudNotify,
    HudNotifyCustom,
    PlayerStatsUpdate,
    PlayerIgnited,
    PlayerIgnitedInv,
    HudArenaNotify,
    UpdateAchievement,
    TrainingMsg,
    TrainingObjective,
    DamageDodged,
    PlayerJarated,
    PlayerExtinguished,
    PlayerJaratedFade,
    PlayerShieldBlocked,
    BreakModel,
    CheapBreakModel,
    BreakModelPumpkin,
    BreakModelRocketDud,
    CallVoteFailed,
    VoteStart,
    VotePass,
    VoteFailed,
    VoteSetup,
    PlayerBonusPoints,
    SpawnFlyingBird,
    PlayerGodRayEffect,
    SPHapWeapEvent,
    HapDmg,
    HapPunch,
    HapSetDrag,
    HapSet,
    HapMeleeContact,
    Unknown,
}

impl UserMessageType {
    /// The byte that names the kind on the wire.
    pub open spec fn id(self) -> u8 {
        match self {
            UserMessageType::Geiger => 0,
            UserMessageType::Train => 1,
            UserMessageType::HudText => 2,
            UserMessageType::SayText => 3,
            UserMessageType::SayText2 => 4,
            UserMessageType::TextMsg => 5,
            UserMessageType::ResetHUD => 6,
            UserMessageType::GameTitle => 7,
            UserMessageType::ItemPickup => 8,
            UserMessageType::ShowMenu => 9,
            UserMessageType::Shake => 10,
            UserMessageType::Fade => 11,
            UserMessageType::VGUIMenu => 12,
            UserMessageType::Rumble => 13,
            UserMessageType::CloseCaption => 14,
            UserMessageType::SendAudio => 15,
            UserMessageType::VoiceMask => 16,
            UserMessageType::RequestState => 17,
            UserMessageType::Damage => 18,
            UserMessageType::HintText => 19,
            UserMessageType::KeyHintText => 20,
            UserMessageType::HudMsg => 21,
            UserMessageType::AmmoDenied => 22,
            UserMessageType::AchievementEvent => 23,
            UserMessageType::UpdateRadar => 24,
            UserMessageType::VoiceSubtitle => 25,
            UserMessageType::HudNotify => 26,
            UserMessageType::HudNotifyCustom => 27,
            UserMessageType::PlayerStatsUpdate => 28,
            UserMessageType::PlayerIgnited => 29,
            UserMessageType::PlayerIgnitedInv => 30,
            UserMessageType::HudArenaNotify => 31,
            UserMessageType::UpdateAchievement => 32,
            UserMessageType::TrainingMsg => 33,
            UserMessageType::TrainingObjective => 34,
            UserMessageType::DamageDodged => 35,
            UserMessageType::PlayerJarated => 36,
            UserMessageType::PlayerExtinguished => 37,
            UserMessageType::PlayerJaratedFade => 38,
            UserMessageType::PlayerShieldBlocked => 39,
            UserMessageType::BreakModel => 40,
            UserMessageType::CheapBreakModel => 41,
            UserMessageType::BreakModelPumpkin => 42,
            UserMessageType::BreakModelRocketDud => 43,
            UserMessageType::CallVoteFailed => 44,
            UserMessageType::VoteStart => 45,
            UserMessageType::VotePass => 46,
            UserMessageType::VoteFailed => 47,
            UserMessageType::VoteSetup => 48,
            UserMessageType::PlayerBonusPoints => 49,
            UserMessageType::SpawnFlyingBird => 50,
            UserMessageType::PlayerGodRayEffect => 51,
            UserMessageType::SPHapWeapEvent => 52,
            UserMessageType::HapDmg => 53,
            UserMessageType::HapPunch => 54,
            UserMessageType::HapSetDrag => 55,
            UserMessageType::HapSet => 56,
            UserMessageType::HapMeleeContact => 57,
            UserMessageType::Unknown => 255,
        }
    }

    /// The kind that the byte `raw` names, if it names one.
    pub open spec fn from_id(raw: u8) -> Option<Self> {
        match raw {
            0 => Some(UserMessageType::Geiger),
            1 => Some(UserMessageType::Train),
            2 => Some(UserMessageType::HudText),
            3 => Some(UserMessageType::SayText),
            4 => Some(UserMessageType::SayText2),
            5 => Some(UserMessageType::TextMsg),
            6 => Some(UserMessageType::ResetHUD),
            7 => Some(UserMessageType::GameTitle),
            8 => Some(UserMessageType::ItemPickup),
            9 => Some(UserMessageType::ShowMenu),
            10 => Some(UserMessageType::Shake),
            11 => Some(UserMessageType::Fade),
            12 => Some(UserMessageType::VGUIMenu),
            13 => Some(UserMessageType::Rumble),
            14 => Some(UserMessageType::CloseCaption),
            15 => Some(UserMessageType::SendAudio),
            16 => Some(UserMessageType::VoiceMask),
            17 => Some(UserMessageType::RequestState),
            18 => Some(UserMessageType::Damage),
            19 => Some(UserMessageType::HintText),
            20 => Some(UserMessageType::KeyHintText),
            21 => Some(UserMessageType::HudMsg),
            22 => Some(UserMessageType::AmmoDenied),
            23 => Some(UserMessageType::AchievementEvent),
            24 => Some(UserMessageType::UpdateRadar),
            25 => Some(UserMessageType::VoiceSubtitle),
            26 => Some(UserMessageType::HudNotify),
            27 => Some(UserMessageType::HudNotifyCustom),
            28 => Some(UserMessageType::PlayerStatsUpdate),
            29 => Some(UserMessageType::PlayerIgnited),
            30 => Some(UserMessageType::PlayerIgnitedInv),
            31 => Some(UserMessageType::HudArenaNotify),
            32 => Some(UserMessageType::UpdateAchievement),
            33 => Some(UserMessageType::TrainingMsg),
            34 => Some(UserMessageType::TrainingObjective),
            35 => Some(UserMessageType::DamageDodged),
            36 => Some(UserMessageType::PlayerJarated),
            37 => Some(UserMessageType::PlayerExtinguished),
            38 => Some(UserMessageType::PlayerJaratedFade),
            39 => Some(UserMessageType::PlayerShieldBlocked),
            40 => Some(UserMessageType::BreakModel),
            41 => Some(UserMessageType::CheapBreakModel),
            42 => Some(UserMessageType::BreakModelPumpkin),
            43 => Some(UserMessageType::BreakModelRocketDud),
            44 => Some(UserMessageType::CallVoteFailed),
            45 => Some(UserMessageType::VoteStart),
            46 => Some(UserMessageType::VotePass),
            47 => Some(UserMessageType::VoteFailed),
            48 => Some(UserMessageType::VoteSetup),
            49 => Some(UserMessageType::PlayerBonusPoints),
            50 => Some(UserMessageType::SpawnFlyingBird),
            51 => Some(UserMessageType::PlayerGodRayEffect),
            52 => Some(UserMessageType::SPHapWeapEvent),
            53 => Some(UserMessageType::HapDmg),
            54 => Some(UserMessageType::HapPunch),
            55 => Some(UserMessageType::HapSetDrag),
            56 => Some(UserMessageType::HapSet),
            57 => Some(UserMessageType::HapMeleeContact),
            255 => Some(UserMessageType::Unknown),
            _ => None,
        }
    }

    /// The kind that `raw` names, if it names one.
    pub fn from_u8(raw: u8) -> (r: Option<Self>)
        ensures
            r == Self::from_id(raw),
    {
        match raw {
            0 => Some(UserMessageType::Geiger),
            1 => Some(UserMessageType::Train),
            2 => Some(UserMessageType::HudText),
            3 => Some(UserMessageType::SayText),
            4 => Some(UserMessageType::SayText2),
            5 => Some(UserMessageType::TextMsg),
            6 => Some(UserMessageType::ResetHUD),
            7 => Some(UserMessageType::GameTitle),
            8 => Some(UserMessageType::ItemPickup),
            9 => Some(UserMessageType::ShowMenu),
            10 => Some(UserMessageType::Shake),
            11 => Some(UserMessageType::Fade),
            12 => Some(UserMessageType::VGUIMenu),
            13 => Some(UserMessageType::Rumble),
            14 => Some(UserMessageType::CloseCaption),
            15 => Some(UserMessageType::SendAudio),
            16 => Some(UserMessageType::VoiceMask),
            17 => Some(UserMessageType::RequestState),
            18 => Some(UserMessageType::Damage),
            19 => Some(UserMessageType::HintText),
            20 => Some(UserMessageType::KeyHintText),
            21 => Some(UserMessageType::HudMsg),
            22 => Some(UserMessageType::AmmoDenied),
            23 => Some(UserMessageType::AchievementEvent),
            24 => Some(UserMessageType::UpdateRadar),
            25 => Some(UserMessageType::VoiceSubtitle),
            26 => Some(UserMessageType::HudNotify),
            27 => Some(UserMessageType::HudNotifyCustom),
            28 => Some(UserMessageType::PlayerStatsUpdate),
            29 => Some(UserMessageType::PlayerIgnited),
            30 => Some(UserMessageType::PlayerIgnitedInv),
            31 => Some(UserMessageType::HudArenaNotify),
            32 => Some(UserMessageType::UpdateAchievement),
            33 => Some(UserMessageType::TrainingMsg),
            34 => Some(UserMessageType::TrainingObjective),
            35 => Some(UserMessageType::DamageDodged),
            36 => Some(UserMessageType::PlayerJarated),
            37 => Some(UserMessageType::PlayerExtinguished),
            38 => Some(UserMessageType::PlayerJaratedFade),
            39 => Some(UserMessageType::PlayerShieldBlocked),
            40 => Some(UserMessageType::BreakModel),
            41 => Some(UserMessageType::CheapBreakModel),
            42 => Some(UserMessageType::BreakModelPumpkin),
            43 => Some(UserMessageType::BreakModelRocketDud),
            44 => Some(UserMessageType::CallVoteFailed),
            45 => Some(UserMessageType::VoteStart),
            46 => Some(UserMessageType::VotePass),
            47 => Some(UserMessageType::VoteFailed),
            48 => Some(UserMessageType::VoteSetup),
            49 => Some(UserMessageType::PlayerBonusPoints),
            50 => Some(UserMessageType::SpawnFlyingBird),
            51 => Some(UserMessageType::PlayerGodRayEffect),
            52 => Some(UserMessageType::SPHapWeapEvent),
            53 => Some(UserMessageType::HapDmg),
            54 => Some(UserMessageType::HapPunch),
            55 => Some(UserMessageType::HapSetDrag),
            56 => Some(UserMessageType::HapSet),
            57 => Some(UserMessageType::HapMeleeContact),
            255 => Some(UserMessageType::Unknown),
            _ => None,
        }
    }

    /// The byte that names the kind on the wire.
    pub fn to_u8(self) -> (r: u8)
        ensures
            r == self.id(),
    {
        match self {
            UserMessageType::Geiger => 0,
            UserMessageType::Train => 1,
            UserMessageType::HudText => 2,
            UserMessageType::SayText => 3,
            UserMessageType::SayText2 => 4,
            UserMessageType::TextMsg => 5,
            UserMessageType::ResetHUD => 6,
            UserMessageType::GameTitle => 7,
            UserMessageType::ItemPickup => 8,
            UserMessageType::ShowMenu => 9,
            UserMessageType::Shake => 10,
            UserMessageType::Fade => 11,
            UserMessageType::VGUIMenu => 12,
            UserMessageType::Rumble => 13,
            UserMessageType::CloseCaption => 14,
            UserMessageType::SendAudio => 15,
            UserMessageType::VoiceMask => 16,
            UserMessageType::RequestState => 17,
            UserMessageType::Damage => 18,
            UserMessageType::HintText => 19,
            UserMessageType::KeyHintText => 20,
            UserMessageType::HudMsg => 21,
            UserMessageType::AmmoDenied => 22,
            UserMessageType::AchievementEvent => 23,
            UserMessageType::UpdateRadar => 24,
            UserMessageType::VoiceSubtitle => 25,
            UserMessageType::HudNotify => 26,
            UserMessageType::HudNotifyCustom => 27,
            UserMessageType::PlayerStatsUpdate => 28,
            UserMessageType::PlayerIgnited => 29,
            UserMessageType::PlayerIgnitedInv => 30,
            UserMessageType::HudArenaNotify => 31,
            UserMessageType::UpdateAchievement => 32,
            UserMessageType::TrainingMsg => 33,
            UserMessageType::TrainingObjective => 34,
            UserMessageType::DamageDodged => 35,
            UserMessageType::PlayerJarated => 36,
            UserMessageType::PlayerExtinguished => 37,
            UserMessageType::PlayerJaratedFade => 38,
            UserMessageType::PlayerShieldBlocked => 39,
            UserMessageType::BreakModel => 40,
            UserMessageType::CheapBreakModel => 41,
            UserMessageType::BreakModelPumpkin => 42,
            UserMessageType::BreakModelRocketDud => 43,
            UserMessageType::CallVoteFailed => 44,
            UserMessageType::VoteStart => 45,
            UserMessageType::VotePass => 46,
            UserMessageType::VoteFailed => 47,
            UserMessageType::VoteSetup => 48,
            UserMessageType::PlayerBonusPoints => 49,
            UserMessageType::SpawnFlyingBird => 50,
            UserMessageType::PlayerGodRayEffect => 51,
            UserMessageType::SPHapWeapEvent => 52,
            UserMessageType::HapDmg => 53,
            UserMessageType::HapPunch => 54,
            UserMessageType::HapSetDrag => 55,
            UserMessageType::HapSet => 56,
            UserMessageType::HapMeleeContact => 57,
            UserMessageType::Unknown => 255,
        }
    }
}

/// Every kind is found again from its byte, and a byte that names a kind is
/// the byte of that kind.
pub proof fn lemma_user_message_type_ids(kind: UserMessageType, raw: u8)
    ensures
        UserMessageType::from_id(kind.id()) == Some(kind),
        UserMessageType::from_id(raw) matches Some(found) ==> found.id() == raw,
        UserMessageType::from_id(raw) is Some <==> raw <= 57 || raw == 255,
{
}

/// Where on the screen a text message is shown.
#[derive(Clone, Copy, Debug, PartialEq, Eq, Structural)]
pub enum HudTextLocation {
    PrintNotify,
    PrintConsole,
    PrintTalk,
    PrintCenter,
}

impl HudTextLocation {
    /// The location that the byte `raw` names, if it names one.
    pub open spec fn from_id(raw: u8) -> Option<Self> {
        match raw {
            1 => Some(HudTextLocation::PrintNotify),
            2 => Some(HudTextLocation::PrintConsole),
            3 => Some(HudTextLocation::PrintTalk),
            4 => Some(HudTextLocation::PrintCenter),
            _ => None,
        }
    }

    /// What decoding a location at `pos` gives: a byte that must name one.
    pub open spec fn parse(bits: Seq<bool>, pos: int) -> Result<(Self, int), ReadError> {
        match take_uint(bits, pos, 8) {
            Err(e) => Err(e),
            Ok((raw, end)) => match Self::from_id(raw as u8) {
                Some(location) => Ok((location, end)),
                None => Err(ReadError::UnmatchedDiscriminant { discriminant: raw as usize }),
            },
        }
    }

    /// Reads a location: one byte, 1 to 4.
    pub fn read(stream: &mut Stream) -> (r: Result<Self, ReadError>)
        requires
            old(stream).inv(),
        ensures
            final(stream).inv(),
            final(stream).same_window(old(stream)),
            (match Self::parse(old(stream).bits(), old(stream).position()) {
                Ok((location, end)) => r == Ok::<Self, ReadError>(location)
                    && final(stream).position() == end,
                Err(e) => r == Err::<Self, ReadError>(e),
            }),
    {
        let raw = match stream.read_u8() {
            Ok(raw) => raw,
            Err(e) => {
                return Err(e);
            },
        };
        match raw {
            1 => Ok(HudTextLocation::PrintNotify),
            2 => Ok(HudTextLocation::PrintConsole),
            3 => Ok(HudTextLocation::PrintTalk),
            4 => Ok(HudTextLocation::PrintCenter),
            _ => Err(ReadError::UnmatchedDiscriminant { discriminant: raw as usize }),
        }
    }
}

/// A text notice with up to four texts to fill into it.
#[derive(Debug, Clone)]
pub struct TextMessage {
    pub location: HudTextLocation,
    pub text: String,
    pub substitute: Vec<String>,
}

/// What a [`TextMessage`] holds.
pub struct TextMessageView {
    pub location: HudTextLocation,
    pub text: Seq<char>,
    pub substitute: Seq<Seq<char>>,
}

impl TextMessage {
    /// What the message holds.
    pub open spec fn view(&self) -> TextMessageView {
        TextMessageView {
            location: self.location,
            text: self.text@,
            substitute: Seq::new(self.substitute@.len(), |i: int| self.substitute@[i]@),
        }
    }

    /// What decoding a text message at `pos` gives: a location, the text,
    /// and four more strings.
    pub open spec fn parse(bits: Seq<bool>, pos: int) -> Result<(TextMessageView, int), ReadError> {
        match HudTextLocation::parse(bits, pos) {
            Err(e) => Err(e),
            Ok((location, p1)) => match take_string(bits, p1) {
                Err(e) => Err(e),
                Ok((text, p2)) => match take_string(bits, p2) {
                    Err(e) => Err(e),
                    Ok((s1, p3)) => match take_string(bits, p3) {
                        Err(e) => Err(e),
                        Ok((s2, p4)) => match take_string(bits, p4) {
                            Err(e) => Err(e),
                            Ok((s3, p5)) => match take_string(bits, p5) {
                                Err(e) => Err(e),
                                Ok((s4, end)) => Ok(
                                    (
                                        TextMessageView {
                                            location,
                                            text: decode_utf8(text),
                                            substitute: seq![
                                                decode_utf8(s1),
                                                decode_utf8(s2),
                                                decode_utf8(s3),
                                                decode_utf8(s4),
                                            ],
                                        },
                                        end,
                                    ),
                                ),
                            },
                        },
                    },
                },
            },
        }
    }

    /// Reads a text message.
    pub fn read(stream: &mut Stream) -> (r: Result<Self, ReadError>)
        requires
            old(stream).inv(),
        ensures
            final(stream).inv(),
            final(stream).same_window(old(stream)),
            (match Self::parse(old(stream).bits(), old(stream).position()) {
                Ok((view, end)) => (r matches Ok(m) && m@ == view) && final(stream).position()
                    == end,
                Err(e) => r matches Err(x) && x == e,
            }),
    {
        let location = match HudTextLocation::read(stream) {
            Ok(v) => v,
            Err(e) => {
                return Err(e);
            },
        };
        let text = match stream.read_string() {
            Ok(v) => v,
            Err(e) => {
                return Err(e);
            },
        };
        let mut substitute: Vec<String> = Vec::new();
        let s1 = match stream.read_string() {
            Ok(v) => v,
            Err(e) => {
                return Err(e);
            },
        };
        substitute.push(s1);
        let s2 = match stream.read_string() {
            Ok(v) => v,
            Err(e) => {
                return Err(e);
            },
        };
        substitute.push(s2);
        let s3 = match stream.read_string() {
            Ok(v) => v,
            Err(e) => {
                return Err(e);
            },
        };
        substitute.push(s3);
        let s4 = match stream.read_string() {
            Ok(v) => v,
            Err(e) => {
                return Err(e);
            },
        };
        substitute.push(s4);
        let message = TextMessage { location, text, substitute };
        proof {
            let expected = Self::parse(old(stream).bits(), old(stream).position());
            assert(message@.substitute =~= expected->Ok_0.0.substitute);
        }
        Ok(message)
    }
}

/// The interface is to be reset.
#[derive(Debug, Clone, Copy, PartialEq, Eq, Structural)]
pub struct ResetHudMessage {
    pub data: u8,
}

impl ResetHudMessage {
    /// What decoding the message at `pos` gives: one byte.
    pub open spec fn parse(bits: Seq<bool>, pos: int) -> Result<(Self, int), ReadError> {
        match take_uint(bits, pos, 8) {
            Err(e) => Err(e),
            Ok((data, end)) => Ok((ResetHudMessage { data: data as u8 }, end)),
        }
    }

    /// Reads the message.
    pub fn read(stream: &mut Stream) -> (r: Result<Self, ReadError>)
        requires
            old(stream).inv(),
        ensures
            final(stream).inv(),
            final(stream).same_window(old(stream)),
            (match Self::parse(old(stream).bits(), old(stream).position()) {
                Ok((message, end)) => r == Ok::<Self, ReadError>(message)
                    && final(stream).position() == end,
                Err(e) => r == Err::<Self, ReadError>(e),
            }),
    {
        match stream.read_u8() {
            Ok(data) => Ok(ResetHudMessage { data }),
            Err(e) => Err(e),
        }
    }
}

/// The state of a payload cart.
#[derive(Debug, Clone, Copy, PartialEq, Eq, Structural)]
pub struct TrainMessage {
    pub data: u8,
}

impl TrainMessage {
    /// What decoding the message at `pos` gives: one byte.
    pub open spec fn parse(bits: Seq<bool>, pos: int) -> Result<(Self, int), ReadError> {
        match take_uint(bits, pos, 8) {
            Err(e) => Err(e),
            Ok((data, end)) => Ok((TrainMessage { data: data as u8 }, end)),
        }
    }

    /// Reads the message.
    pub fn read(stream: &mut Stream) -> (r: Result<Self, ReadError>)
        requires
            old(stream).inv(),
        ensures
            final(stream).inv(),
            final(stream).same_window(old(stream)),
            (match Self::parse(old(stream).bits(), old(stream).position()) {
                Ok((message, end)) => r == Ok::<Self, ReadError>(message)
                    && final(stream).position() == end,
                Err(e) => r == Err::<Self, ReadError>(e),
            }),
    {
        match stream.read_u8() {
            Ok(data) => Ok(TrainMessage { data }),
            Err(e) => Err(e),
        }
    }
}

/// A voice command, shown as a subtitle.
#[derive(Debug, Clone, Copy, PartialEq, Eq, Structural)]
pub struct VoiceSubtitleMessage {
    pub client: u8,
    pub menu: u8,
    pub item: u8,
}

impl VoiceSubtitleMessage {
    /// What decoding the message at `pos` gives: three bytes.
    pub open spec fn parse(bits: Seq<bool>, pos: int) -> Result<(Self, int), ReadError> {
        match take_uint(bits, pos, 8) {
            Err(e) => Err(e),
            Ok((client, p1)) => match take_uint(bits, p1, 8) {
                Err(e) => Err(e),
                Ok((menu, p2)) => match take_uint(bits, p2, 8) {
                    Err(e) => Err(e),
                    Ok((item, end)) => Ok(
                        (
                            VoiceSubtitleMessage {
                                client: client as u8,
                                menu: menu as u8,
                                item: item as u8,
                            },
                            end,
                        ),
                    ),
                },
            },
        }
    }

    /// Reads the message.
    pub fn read(stream: &mut Stream) -> (r: Result<Self, ReadError>)
        requires
            old(stream).inv(),
        ensures
            final(stream).inv(),
            final(stream).same_window(old(stream)),
            (match Self::parse(old(stream).bits(), old(stream).position()) {
                Ok((message, end)) => r == Ok::<Self, ReadError>(message)
                    && final(stream).position() == end,
                Err(e) => r == Err::<Self, ReadError>(e),
            }),
    {
        let client = match stream.read_u8() {
            Ok(v) => v,
            Err(e) => {
                return Err(e);
            },
        };
        let menu = match stream.read_u8() {
            Ok(v) => v,
            Err(e) => {
                return Err(e);
            },
        };
        let item = match stream.read_u8() {
            Ok(v) => v,
            Err(e) => {
                return Err(e);
            },
        };
        Ok(VoiceSubtitleMessage { client, menu, item })
    }
}

/// A screen shake. The three measures are 32-bit IEEE 754 numbers, held here
/// as the 32 bits that encode them.
#[derive(Debug, Clone, Copy, PartialEq, Eq, Structural)]
pub struct ShakeMessage {
    pub command: u8,
    pub amplitude: u32,
    pub frequency: u32,
    pub duration: u32,
}

impl ShakeMessage {
    /// What decoding the message at `pos` gives: a byte and three words of
    /// 32 bits.
    pub open spec fn parse(bits: Seq<bool>, pos: int) -> Result<(Self, int), ReadError> {
        match take_uint(bits, pos, 8) {
            Err(e) => Err(e),
            Ok((command, p1)) => match take_uint(bits, p1, 32) {
                Err(e) => Err(e),
                Ok((amplitude, p2)) => match take_uint(bits, p2, 32) {
                    Err(e) => Err(e),
                    Ok((frequency, p3)) => match take_uint(bits, p3, 32) {
                        Err(e) => Err(e),
                        Ok((duration, end)) => Ok(
                            (
                                ShakeMessage {
                                    command: command as u8,
                                    amplitude: amplitude as u32,
                                    frequency: frequency as u32,
                                    duration: duration as u32,
                                },
                                end,
                            ),
                        ),
                    },
                },
            },
        }
    }

    /// Reads the message.
    pub fn read(stream: &mut Stream) -> (r: Result<Self, ReadError>)
        requires
            old(stream).inv(),
        ensures
            final(stream).inv(),
            final(stream).same_window(old(stream)),
            (match Self::parse(old(stream).bits(), old(stream).position()) {
                Ok((message, end)) => r == Ok::<Self, ReadError>(message)
                    && final(stream).position() == end,
                Err(e) => r == Err::<Self, ReadError>(e),
            }),
    {
        let command = match stream.read_u8() {
            Ok(v) => v,
            Err(e) => {
                return Err(e);
            },
        };
        let amplitude = match stream.read_u32() {
            Ok(v) => v,
            Err(e) => {
                return Err(e);
            },
        };
        let frequency = match stream.read_u32() {
            Ok(v) => v,
            Err(e) => {
                return Err(e);
            },
        };
        let duration = match stream.read_u32() {
            Ok(v) => v,
            Err(e) => {
                return Err(e);
            },
        };
        Ok(ShakeMessage { command, amplitude, frequency, duration })
    }
}

/// A user message of a kind that is not decoded: its payload, kept as it
/// came.
#[derive(Debug)]
pub struct UnknownUserMessage<'a> {
    pub data: Stream<'a>,
}

impl<'a> UnknownUserMessage<'a> {
    /// The bits of the payload.
    pub open spec fn view(&self) -> Seq<bool> {
        self.data.bits()
    }

    /// Takes all the bits that are left as the payload. This cannot fail.
    pub fn read(stream: &mut Stream<'a>) -> (r: Result<Self, ReadError>)
        requires
            old(stream).inv(),
        ensures
            final(stream).inv(),
            final(stream).moved(old(stream), old(stream).bits().len() as int),
            r matches Ok(m) && m@ == old(stream).bits().skip(old(stream).position())
                && m.data.inv() && m.data.position() == 0,
    {
        let left = stream.bits_left();
        match stream.read_bits(left) {
            Ok(data) => {
                assert(data.bits() =~= old(stream).bits().skip(old(stream).position()));
                Ok(UnknownUserMessage { data })
            },
            Err(e) => Err(e),
        }
    }
}

/// What sort of chat line a `SayText2` message is.
#[derive(Debug, Clone, Copy, PartialEq, Eq, Structural)]
pub enum SayText2Kind {
    ChatAll,
    ChatTeam,
    ChatAllDead,
    NameChange,
}

impl SayText2Kind {
    /// The kind that a name stands for; a name that is not known stands for
    /// `ChatAll`.
    pub open spec fn of_name(name: Seq<char>) -> Self {
        if name == "TF_Chat_Team"@ {
            SayText2Kind::ChatTeam
        } else if name == "TF_Chat_AllDead"@ {
            SayText2Kind::ChatAllDead
        } else if name == "#TF_Name_Change"@ {
            SayText2Kind::NameChange
        } else {
            SayText2Kind::ChatAll
        }
    }

    /// What decoding a kind at `pos` gives: a string, taken for the kind that
    /// it names.
    pub open spec fn parse(bits: Seq<bool>, pos: int) -> Result<(Self, int), ReadError> {
        match take_string(bits, pos) {
            Err(e) => Err(e),
            Ok((name, end)) => Ok((Self::of_name(decode_utf8(name)), end)),
        }
    }

    /// The kind that a name stands for.
    pub fn from_name(name: &str) -> (r: Self)
        ensures
            r == Self::of_name(name@),
    {
        let name = name.to_owned();
        if name == "TF_Chat_Team".to_owned() {
            SayText2Kind::ChatTeam
        } else if name == "TF_Chat_AllDead".to_owned() {
            SayText2Kind::ChatAllDead
        } else if name == "#TF_Name_Change".to_owned() {
            SayText2Kind::NameChange
        } else {
            SayText2Kind::ChatAll
        }
    }

    /// Reads a kind: a NUL-terminated name.
    pub fn read(stream: &mut Stream) -> (r: Result<Self, ReadError>)
        requires
            old(stream).inv(),
        ensures
            final(stream).inv(),
            final(stream).same_window(old(stream)),
            (match Self::parse(old(stream).bits(), old(stream).position()) {
                Ok((kind, end)) => r == Ok::<Self, ReadError>(kind) && final(stream).position()
                    == end,
                Err(e) => r == Err::<Self, ReadError>(e),
            }),
    {
        match stream.read_string() {
            Ok(name) => Ok(Self::from_name(name.as_str())),
            Err(e) => Err(e),
        }
    }
}

/// The bytes `*DEAD*`, which open the chat line of a dead player.
pub open spec fn dead_marker() -> Seq<u8> {
    seq![0x2au8, 0x44u8, 0x45u8, 0x41u8, 0x44u8, 0x2au8]
}

/// `i`, held between 0 and `len`.
pub open spec fn clamp(i: int, len: int) -> int {
    if i < 0 {
        0
    } else if i > len {
        len
    } else {
        i
    }
}

/// The index of the first byte equal to `b`, or 0 where there is none.
pub open spec fn index_or_zero(s: Seq<u8>, b: u8) -> int {
    if index_of(s, b) < s.len() {
        index_of(s, b)
    } else {
        0
    }
}

/// The speaker in the chat line of a dead player: the bytes between the
/// first byte 3 and the first byte 1, neither included. Where a mark is
/// missing it counts as standing at the front, and where the second does not
/// stand behind the first the speaker is empty.
pub open spec fn dead_speaker(line: Seq<u8>) -> Seq<u8> {
    let start = index_or_zero(line, 3);
    let end = index_or_zero(line, 1);
    let from = clamp(start + 1, line.len() as int);
    let to = clamp(from + clamp(end - start - 1, line.len() as int), line.len() as int);
    line.subrange(from, to)
}

/// The text in the chat line of a dead player: what follows the first byte 1
/// and the four bytes behind it.
pub open spec fn dead_text(line: Seq<u8>) -> Seq<u8> {
    line.skip(clamp(index_or_zero(line, 1) + 5, line.len() as int))
}

/// The text without its colour codes. A colour code is the byte 7 and the six
/// bytes that follow it; they are taken out one code at a time, first code
/// first. Where taking one out leaves bytes that are not valid UTF-8, the
/// text is refused.
pub open spec fn strip_colors(text: Seq<u8>) -> Result<Seq<u8>, ReadError>
    decreases text.len(),
{
    let pos = index_of(text, 7);
    if 0 <= pos < text.len() {
        let next = text.take(pos) + text.skip(clamp(pos + 7, text.len() as int));
        if valid_utf8(next) {
            strip_colors(next)
        } else {
            Err(ReadError::Utf8Error(next.len() as usize))
        }
    } else {
        Ok(text)
    }
}

/// The text as it is shown: without the bytes 1 and 3, and then without
/// colour codes.
pub open spec fn clean_text(text: Seq<u8>) -> Result<Seq<u8>, ReadError> {
    strip_colors(without_byte(without_byte(text, 1), 3))
}

/// What is left of well-formed text after the colour codes are out is
/// well-formed, holds no byte 7, and is no longer than the text.
pub proof fn lemma_strip_colors(text: Seq<u8>)
    requires
        valid_utf8(text),
    ensures
        strip_colors(text) matches Ok(clean) ==> valid_utf8(clean) && !clean.contains(7u8)
            && clean.len() <= text.len(),
    decreases text.len(),
{
    let pos = index_of(text, 7);
    if 0 <= pos < text.len() {
        let next = text.take(pos) + text.skip(clamp(pos + 7, text.len() as int));
        if valid_utf8(next) {
            lemma_strip_colors(next);
        }
    } else {
        lemma_index_of_absent(text, 7);
    }
}

/// Where the first index of a byte is the length, the byte does not occur.
pub proof fn lemma_index_of_absent(s: Seq<u8>, b: u8)
    ensures
        0 <= index_of(s, b) <= s.len(),
        index_of(s, b) == s.len() ==> !s.contains(b),
        index_of(s, b) < s.len() ==> s[index_of(s, b)] == b,
    decreases s.len(),
{
    if s.len() > 0 && s[0] != b {
        let rest = s.drop_first();
        lemma_index_of_absent(rest, b);
        if index_of(s, b) == s.len() && s.contains(b) {
            let i = choose|i: int| 0 <= i < s.len() && s[i] == b;
            assert(rest[i - 1] == b);
            assert(rest.contains(b));
        }
    }
}

/// A chat line.
#[derive(Debug, Clone)]
pub struct SayText2Message {
    pub client: u8,
    pub raw: u8,
    pub kind: SayText2Kind,
    pub from: String,
    pub text: String,
}

/// What a [`SayText2Message`] holds.
pub struct SayText2View {
    pub client: u8,
    pub raw: u8,
    pub kind: SayText2Kind,
    pub from: Seq<char>,
    pub text: Seq<char>,
}

/// The kind, the speaker and the text of a chat line as they stand on the
/// wire, and the position behind them.
pub struct ChatLine {
    pub kind: SayText2Kind,
    pub from: Seq<u8>,
    pub text: Seq<u8>,
    pub end: int,
}

impl SayText2Message {
    /// What the message holds.
    pub open spec fn view(&self) -> SayText2View {
        SayText2View {
            client: self.client,
            raw: self.raw,
            kind: self.kind,
            from: self.from@,
            text: self.text@,
        }
    }

    /// The chat line in the format with colours in the text, which `pos`
    /// points into just behind the byte 1 that announces it: a byte that is 7
    /// before a colour of six bytes, or any other value before one byte to
    /// pass over; then one string. A string that opens with `*DEAD*` is the
    /// line of a dead player and holds the speaker and the text.
    pub open spec fn parse_inline(bits: Seq<bool>, pos: int) -> Result<ChatLine, ReadError> {
        match take_uint(bits, pos, 8) {
            Err(e) => Err(e),
            Ok((first, p1)) => match (if first == 7 {
                match take_sized_string(bits, p1, 6) {
                    Err(e) => Err(e),
                    Ok((_, p2)) => Ok(p2),
                }
            } else {
                take_skip(bits, p1, 8)
            }) {
                Err(e) => Err(e),
                Ok(p2) => match take_string(bits, p2) {
                    Err(e) => Err(e),
                    Ok((line, end)) => if dead_marker().is_prefix_of(line) {
                        if !valid_utf8(dead_speaker(line)) {
                            Err(ReadError::Utf8Error(dead_speaker(line).len() as usize))
                        } else if !valid_utf8(dead_text(line)) {
                            Err(ReadError::Utf8Error(dead_text(line).len() as usize))
                        } else {
                            Ok(
                                ChatLine {
                                    kind: SayText2Kind::ChatAllDead,
                                    from: dead_speaker(line),
                                    text: dead_text(line),
                                    end,
                                },
                            )
                        }
                    } else {
                        Ok(
                            ChatLine {
                                kind: SayText2Kind::ChatAll,
                                from: Seq::empty(),
                                text: line,
                                end,
                            },
                        )
                    },
                },
            },
        }
    }

    /// The chat line in the older format: the name of the kind, the speaker,
    /// the text, and sixteen bits to pass over.
    pub open spec fn parse_classic(bits: Seq<bool>, pos: int) -> Result<ChatLine, ReadError> {
        match SayText2Kind::parse(bits, pos) {
            Err(e) => Err(e),
            Ok((kind, p1)) => match take_string(bits, p1) {
                Err(e) => Err(e),
                Ok((from, p2)) => match take_string(bits, p2) {
                    Err(e) => Err(e),
                    Ok((text, p3)) => match take_skip(bits, p3, 16) {
                        Err(e) => Err(e),
                        Ok(end) => Ok(ChatLine { kind, from, text, end }),
                    },
                },
            },
        }
    }

    /// What decoding a chat line at `pos` gives.
    ///
    /// The line opens with the client and a raw byte. Where the byte behind
    /// them is 1 the line has the format with colours, which starts behind
    /// that byte; otherwise it has the older format, which starts at that
    /// byte. The text of either is cleaned for display.
    pub open spec fn parse(bits: Seq<bool>, pos: int) -> Result<(SayText2View, int), ReadError> {
        match take_uint(bits, pos, 8) {
            Err(e) => Err(e),
            Ok((client, p1)) => match take_uint(bits, p1, 8) {
                Err(e) => Err(e),
                Ok((raw, p2)) => match take_uint(bits, p2, 8) {
                    Err(e) => Err(e),
                    Ok((marker, p3)) => match (if marker == 1 {
                        Self::parse_inline(bits, p3)
                    } else {
                        Self::parse_classic(bits, p2)
                    }) {
                        Err(e) => Err(e),
                        Ok(line) => match clean_text(line.text) {
                            Err(e) => Err(e),
                            Ok(text) => Ok(
                                (
                                    SayText2View {
                                        client: client as u8,
                                        raw: raw as u8,
                                        kind: line.kind,
                                        from: decode_utf8(line.from),
                                        text: decode_utf8(text),
                                    },
                                    line.end,
                                ),
                            ),
                        },
                    },
                },
            },
        }
    }
}

/// Whether the bytes open with `*DEAD*`.
pub fn is_dead_line(line: &[u8]) -> (r: bool)
    ensures
        r == dead_marker().is_prefix_of(line@),
{
    if line.len() < 6 {
        return false;
    }
    let r = line[0] == 0x2a && line[1] == 0x44 && line[2] == 0x45 && line[3] == 0x41 && line[4]
        == 0x44 && line[5] == 0x2a;
    proof {
        let m = dead_marker();
        let head = line@.subrange(0, 6);
        if r {
            assert(m =~= head);
        } else {
            if m == head {
                assert(m[0] == head[0] && m[1] == head[1] && m[2] == head[2] && m[3] == head[3]
                    && m[4] == head[4] && m[5] == head[5]);
            }
        }
    }
    r
}

/// The speaker and the text in the chat line of a dead player.
pub fn split_dead_line(line: &[u8]) -> (r: (Vec<u8>, Vec<u8>))
    ensures
        r.0@ == dead_speaker(line@),
        r.1@ == dead_text(line@),
{
    let len = line.len();
    let found_start = find_byte(line, 3);
    let start = if found_start < len {
        found_start
    } else {
        0
    };
    let found_end = find_byte(line, 1);
    let end = if found_end < len {
        found_end
    } else {
        0
    };
    let from = if start < len {
        start + 1
    } else {
        len
    };
    let count = if end > start {
        end - start - 1
    } else {
        0
    };
    let to = if count > len - from {
        len
    } else {
        from + count
    };
    let speaker = copy_range(line, from, to);
    let text_from = if end < len && 5 <= len - end {
        end + 5
    } else {
        len
    };
    let text = copy_range(line, text_from, len);
    (speaker, text)
}

/// Takes the colour codes out of well-formed text.
fn strip_color_codes(text: Vec<u8>) -> (r: Result<Vec<u8>, ReadError>)
    requires
        valid_utf8(text@),
    ensures
        (match strip_colors(text@) {
            Ok(clean) => r matches Ok(v) && v@ == clean && valid_utf8(clean),
            Err(e) => r matches Err(x) && x == e,
        }),
{
    let mut current = text;
    let mut pos = find_byte(current.as_slice(), 7);
    while pos < current.len()
        invariant
            valid_utf8(current@),
            strip_colors(current@) == strip_colors(text@),
            pos == index_of(current@, 7),
            pos <= current@.len(),
        decreases current@.len(),
    {
        let len = current.len();
        let after = if 7 <= len - pos {
            pos + 7
        } else {
            len
        };
        let mut next = copy_range(current.as_slice(), 0, pos);
        let mut tail = copy_range(current.as_slice(), after, len);
        next.append(&mut tail);
        assert(next@ =~= current@.take(pos as int) + current@.skip(
            clamp(pos + 7, current@.len() as int),
        ));
        if !is_utf8(next.as_slice()) {
            return Err(ReadError::Utf8Error(next.len()));
        }
        current = next;
        pos = find_byte(current.as_slice(), 7);
    }
    Ok(current)
}

/// The text as it is shown: without the bytes 1 and 3, and then without
/// colour codes.
pub fn clean_chat_text(text: &str) -> (r: Result<String, ReadError>)
    ensures
        (match clean_text(encode_utf8(text@)) {
            Ok(clean) => r matches Ok(s) && s@ == decode_utf8(clean) && valid_utf8(clean),
            Err(e) => r matches Err(x) && x == e,
        }),
{
    let bytes = text.as_bytes();
    proof {
        vstd::utf8::encode_utf8_valid_utf8(text@);
        lemma_without_byte_utf8(bytes@, 1);
        lemma_without_byte_utf8(without_byte(bytes@, 1), 3);
    }
    let step1 = remove_byte(bytes, 1);
    let step2 = remove_byte(step1.as_slice(), 3);
    match strip_color_codes(step2) {
        Ok(clean) => match string_from_utf8(clean) {
            Ok(s) => Ok(s),
            Err(bytes) => Err(ReadError::Utf8Error(bytes.len())),
        },
        Err(e) => Err(e),
    }
}

impl SayText2Message {
    /// Reads the chat line in the format with colours in the text; the cursor
    /// stands behind the byte that announces the format.
    fn read_inline(stream: &mut Stream) -> (r: Result<(SayText2Kind, String, String), ReadError>)
        requires
            old(stream).inv(),
        ensures
            final(stream).inv(),
            final(stream).same_window(old(stream)),
            (match Self::parse_inline(old(stream).bits(), old(stream).position()) {
                Ok(line) => r matches Ok(found) && found.0 == line.kind && found.1@ == decode_utf8(
                    line.from,
                ) && encode_utf8(found.2@) == line.text && final(stream).position() == line.end,
                Err(e) => r matches Err(x) && x == e,
            }),
    {
        let first = match stream.read_u8() {
            Ok(v) => v,
            Err(e) => {
                return Err(e);
            },
        };
        if first == 7 {
            match stream.read_sized_string(6) {
                Ok(_) => {},
                Err(e) => {
                    return Err(e);
                },
            }
        } else {
            match stream.skip_bits(8) {
                Ok(()) => {},
                Err(e) => {
                    return Err(e);
                },
            }
        }
        let ghost line_pos = stream.position();
        let line = match stream.read_string() {
            Ok(v) => v,
            Err(e) => {
                return Err(e);
            },
        };
        proof {
            decode_utf8_encode_utf8(take_string(old(stream).bits(), line_pos)->Ok_0.0);
        }
        if is_dead_line(line.as_str().as_bytes()) {
            let (speaker, text) = split_dead_line(line.as_str().as_bytes());
            let from = match string_from_utf8(speaker) {
                Ok(s) => s,
                Err(bytes) => {
                    return Err(ReadError::Utf8Error(bytes.len()));
                },
            };
            match string_from_utf8(text) {
                Ok(text) => {
                    proof {
                        decode_utf8_encode_utf8(dead_text(encode_utf8(line@)));
                    }
                    Ok((SayText2Kind::ChatAllDead, from, text))
                },
                Err(bytes) => Err(ReadError::Utf8Error(bytes.len())),
            }
        } else {
            proof {
                assert(decode_utf8(Seq::<u8>::empty()) =~= Seq::<char>::empty());
            }
            Ok((SayText2Kind::ChatAll, String::new(), line))
        }
    }

    /// Reads the chat line in the older format.
    fn read_classic(stream: &mut Stream) -> (r: Result<(SayText2Kind, String, String), ReadError>)
        requires
            old(stream).inv(),
        ensures
            final(stream).inv(),
            final(stream).same_window(old(stream)),
            (match Self::parse_classic(old(stream).bits(), old(stream).position()) {
                Ok(line) => r matches Ok(found) && found.0 == line.kind && found.1@ == decode_utf8(
                    line.from,
                ) && encode_utf8(found.2@) == line.text && final(stream).position() == line.end,
                Err(e) => r matches Err(x) && x == e,
            }),
    {
        let kind = match SayText2Kind::read(stream) {
            Ok(v) => v,
            Err(e) => {
                return Err(e);
            },
        };
        let from = match stream.read_string() {
            Ok(v) => v,
            Err(e) => {
                return Err(e);
            },
        };
        let ghost text_pos = stream.position();
        let text = match stream.read_string() {
            Ok(v) => v,
            Err(e) => {
                return Err(e);
            },
        };
        proof {
            decode_utf8_encode_utf8(take_string(old(stream).bits(), text_pos)->Ok_0.0);
        }
        match stream.skip_bits(16) {
            Ok(()) => {},
            Err(e) => {
                return Err(e);
            },
        }
        Ok((kind, from, text))
    }

    /// Reads a chat line.
    pub fn read(stream: &mut Stream) -> (r: Result<Self, ReadError>)
        requires
            old(stream).inv(),
        ensures
            final(stream).inv(),
            final(stream).same_window(old(stream)),
            (match Self::parse(old(stream).bits(), old(stream).position()) {
                Ok((view, end)) => (r matches Ok(m) && m@ == view) && final(stream).position()
                    == end,
                Err(e) => r matches Err(x) && x == e,
            }),
    {
        let client = match stream.read_u8() {
            Ok(v) => v,
            Err(e) => {
                return Err(e);
            },
        };
        let raw = match stream.read_u8() {
            Ok(v) => v,
            Err(e) => {
                return Err(e);
            },
        };
        let marker_pos = stream.pos();
        let marker = match stream.read_u8() {
            Ok(v) => v,
            Err(e) => {
                return Err(e);
            },
        };
        let line = if marker == 1 {
            Self::read_inline(stream)
        } else {
            // Not the byte that announces colours: it belongs to the first
            // string of the older format.
            match stream.set_pos(marker_pos) {
                Ok(()) => Self::read_classic(stream),
                Err(e) => Err(e),
            }
        };
        let (kind, from, text) = match line {
            Ok(v) => v,
            Err(e) => {
                return Err(e);
            },
        };
        match clean_chat_text(text.as_str()) {
            Ok(text) => Ok(SayText2Message { client, raw, kind, from, text }),
            Err(e) => Err(e),
        }
    }
}

/// A user message.
#[derive(Debug)]
pub enum UserMessage<'a> {
    SayText2(SayText2Message),
    Text(TextMessage),
    ResetHUD(ResetHudMessage),
    Train(TrainMessage),
    VoiceSubtitle(VoiceSubtitleMessage),
    Shake(ShakeMessage),
    Unknown(UnknownUserMessage<'a>),
}

/// What a [`UserMessage`] holds.
pub enum UserMessageView {
    SayText2(SayText2View),
    Text(TextMessageView),
    ResetHUD(ResetHudMessage),
    Train(TrainMessage),
    VoiceSubtitle(VoiceSubtitleMessage),
    Shake(ShakeMessage),
    Unknown(Seq<bool>),
}

/// The number of bits that hold the length of a user message's payload.
pub const USER_MESSAGE_LENGTH_BITS: usize = 11;

impl<'a> UserMessage<'a> {
    /// What the message holds.
    pub open spec fn view(&self) -> UserMessageView {
        match self {
            UserMessage::SayText2(m) => UserMessageView::SayText2(m@),
            UserMessage::Text(m) => UserMessageView::Text(m@),
            UserMessage::ResetHUD(m) => UserMessageView::ResetHUD(*m),
            UserMessage::Train(m) => UserMessageView::Train(*m),
            UserMessage::VoiceSubtitle(m) => UserMessageView::VoiceSubtitle(*m),
            UserMessage::Shake(m) => UserMessageView::Shake(*m),
            UserMessage::Unknown(m) => UserMessageView::Unknown(m@),
        }
    }

    /// The kind that decides how the payload of a message is decoded: the
    /// kind that the byte names, and `Unknown` where it names none.
    pub open spec fn kind_of(raw: u8) -> UserMessageType {
        match UserMessageType::from_id(raw) {
            Some(kind) => kind,
            None => UserMessageType::Unknown,
        }
    }

    /// What decoding a payload of the given kind gives. A payload is decoded
    /// from its first bit, and bits that its decoder leaves unread are
    /// ignored; a kind without a decoder keeps the payload as it is.
    pub open spec fn parse_payload(kind: UserMessageType, payload: Seq<bool>) -> Result<
        UserMessageView,
        ReadError,
    > {
        match kind {
            UserMessageType::SayText2 => match SayText2Message::parse(payload, 0) {
                Ok((m, _)) => Ok(UserMessageView::SayText2(m)),
                Err(e) => Err(e),
            },
            UserMessageType::TextMsg => match TextMessage::parse(payload, 0) {
                Ok((m, _)) => Ok(UserMessageView::Text(m)),
                Err(e) => Err(e),
            },
            UserMessageType::ResetHUD => match ResetHudMessage::parse(payload, 0) {
                Ok((m, _)) => Ok(UserMessageView::ResetHUD(m)),
                Err(e) => Err(e),
            },
            UserMessageType::Train => match TrainMessage::parse(payload, 0) {
                Ok((m, _)) => Ok(UserMessageView::Train(m)),
                Err(e) => Err(e),
            },
            UserMessageType::VoiceSubtitle => match VoiceSubtitleMessage::parse(payload, 0) {
                Ok((m, _)) => Ok(UserMessageView::VoiceSubtitle(m)),
                Err(e) => Err(e),
            },
            UserMessageType::Shake => match ShakeMessage::parse(payload, 0) {
                Ok((m, _)) => Ok(UserMessageView::Shake(m)),
                Err(e) => Err(e),
            },
            _ => Ok(UserMessageView::Unknown(payload)),
        }
    }

    /// What becomes of a payload that was decoded: one that is refused for
    /// text that is not valid UTF-8 is kept as it came, as the payload of a
    /// message of unknown kind. Every other outcome stands.
    pub open spec fn absorb(
        payload: Seq<bool>,
        decoded: Result<UserMessageView, ReadError>,
    ) -> Result<UserMessageView, ReadError> {
        match decoded {
            Err(ReadError::Utf8Error(_)) => Ok(UserMessageView::Unknown(payload)),
            _ => decoded,
        }
    }

    /// What decoding a user message at `pos` gives: the message, and the
    /// position behind its payload.
    #[verifier::opaque]
    pub open spec fn parse(bits: Seq<bool>, pos: int) -> Result<(UserMessageView, int), ReadError> {
        match take_uint(bits, pos, 8) {
            Err(e) => Err(e),
            Ok((raw, p1)) => match take_uint(bits, p1, 11) {
                Err(e) => Err(e),
                Ok((length, p2)) => match take_skip(bits, p2, length as int) {
                    Err(e) => Err(e),
                    Ok(end) => match Self::absorb(
                        bits.subrange(p2, end),
                        Self::parse_payload(Self::kind_of(raw as u8), bits.subrange(p2, end)),
                    ) {
                        Err(e) => Err(e),
                        Ok(message) => Ok((message, end)),
                    },
                },
            },
        }
    }

    /// Reads a user message: the byte that names its kind, the length of its
    /// payload in bits, and the payload.
    ///
    /// Once the payload is there the cursor stands behind it, whether or not
    /// the payload can be decoded. A payload with text that is not valid
    /// UTF-8 is kept as it came, as a message of unknown kind.
    pub fn read(stream: &mut Stream<'a>) -> (r: Result<Self, ReadError>)
        requires
            old(stream).inv(),
        ensures
            final(stream).inv(),
            final(stream).same_window(old(stream)),
            (match Self::parse(old(stream).bits(), old(stream).position()) {
                Ok((view, end)) => (r matches Ok(m) && m@ == view) && final(stream).position()
                    == end,
                Err(e) => r matches Err(x) && x == e,
            }),
            old(stream).remaining() >= 19 && old(stream).remaining() - 19 >= uint_at(
                old(stream).bits(),
                old(stream).position() + 8,
                11,
            ) ==> final(stream).position() == old(stream).position() + 19 + uint_at(
                old(stream).bits(),
                old(stream).position() + 8,
                11,
            ),
    {
        reveal(UserMessage::parse);
        let raw = match stream.read_u8() {
            Ok(v) => v,
            Err(e) => {
                return Err(e);
            },
        };
        let kind = match UserMessageType::from_u8(raw) {
            Some(kind) => kind,
            None => UserMessageType::Unknown,
        };
        let length = match stream.read_int(USER_MESSAGE_LENGTH_BITS) {
            Ok(v) => {
                proof {
                    lemma2_to64();
                }
                v as usize
            },
            Err(e) => {
                return Err(e);
            },
        };
        let mut data = match stream.read_bits(length) {
            Ok(v) => v,
            Err(e) => {
                return Err(e);
            },
        };
        let decoded = match kind {
            UserMessageType::SayText2 => match SayText2Message::read(&mut data) {
                Ok(m) => Ok(UserMessage::SayText2(m)),
                Err(e) => Err(e),
            },
            UserMessageType::TextMsg => match TextMessage::read(&mut data) {
                Ok(m) => Ok(UserMessage::Text(m)),
                Err(e) => Err(e),
            },
            UserMessageType::ResetHUD => match ResetHudMessage::read(&mut data) {
                Ok(m) => Ok(UserMessage::ResetHUD(m)),
                Err(e) => Err(e),
            },
            UserMessageType::Train => match TrainMessage::read(&mut data) {
                Ok(m) => Ok(UserMessage::Train(m)),
                Err(e) => Err(e),
            },
            UserMessageType::VoiceSubtitle => match VoiceSubtitleMessage::read(&mut data) {
                Ok(m) => Ok(UserMessage::VoiceSubtitle(m)),
                Err(e) => Err(e),
            },
            UserMessageType::Shake => match ShakeMessage::read(&mut data) {
                Ok(m) => Ok(UserMessage::Shake(m)),
                Err(e) => Err(e),
            },
            _ => match UnknownUserMessage::read(&mut data) {
                Ok(m) => {
                    assert(data.bits().skip(0) =~= data.bits());
                    Ok(UserMessage::Unknown(m))
                },
                Err(e) => Err(e),
            },
        };
        match decoded {
            Err(ReadError::Utf8Error(_)) => {
                let _ = data.set_pos(0);
                match UnknownUserMessage::read(&mut data) {
                    Ok(m) => {
                        assert(data.bits().skip(0) =~= data.bits());
                        Ok(UserMessage::Unknown(m))
                    },
                    Err(e) => Err(e),
                }
            },
            _ => decoded,
        }
    }
}

/// A user message that decodes ends where its header says: the bits that it
/// takes up are the nineteen bits of its header and the number of bits that
/// the header declares, whatever the payload holds.
pub proof fn lemma_user_message_length(bits: Seq<bool>, pos: int)
    requires
        0 <= pos <= bits.len(),
    ensures
        UserMessage::parse(bits, pos) matches Ok((_, end)) ==> end == pos + 19 + uint_at(
            bits,
            pos + 8,
            11,
        ) && end <= bits.len(),
{
    reveal(UserMessage::parse);
}

} // verus!
