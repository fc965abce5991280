//! The messages of a demo.
//!
//! Inside a packet the messages follow each other without padding. Each
//! opens with a tag of six bits that names its kind.
use crate::demo::message::basic::{
    CmdKeyValuesMessage, CmdKeyValuesMessageView, EntityMessage, EntityMessageView, FileMessage,
    FileMessageView, FixAngleMessage, FixAngleMessageView, GetCvarValueMessage,
    GetCvarValueMessageView, MenuMessage, MenuMessageView, NetTickMessage, NetTickMessageView,
    PreFetchMessage, PreFetchMessageView, PrintMessage, PrintMessageView, ServerInfoMessage,
    ServerInfoMessageView, SetPauseMessage, SetPauseMessageView, SetViewMessage,
    SetViewMessageView, SigOnStateMessage, SigOnStateMessageView, StringCmdMessage,
    StringCmdMessageView, VoiceDataMessage, VoiceDataMessageView,
};
use crate::demo::message::bspdecal::BSPDecalMessage;
use crate::demo::message::classinfo::{ClassInfoMessage, ClassInfoMessageView};
use crate::demo::message::gameevent::{
    descriptors_view, read_event_list, take_event_list, DescriptorView, GameEvent,
    GameEventDescriptor, GameEventView,
};
use crate::demo::message::packetentities::{
    EntityStateView, PacketEntitiesMessage, PacketEntitiesView,
};
use crate::demo::message::setconvar::{ConVarView, SetConVarMessage};
use crate::demo::message::stringtable::{
    CreateStringTableMessage, CreateStringTableView, Layout, UpdateStringTableMessage,
    UpdateStringTableView,
};
use crate::demo::message::tempentities::{TempEntitiesMessage, TempEntitiesMessageView};
use crate::demo::message::usermessage::{UserMessage, UserMessageView};
use crate::demo::message::voice::{
    ParseSoundsMessage, ParseSoundsMessageView, VoiceInitMessage, VoiceInitMessageView,
};
use crate::demo::parser::{ParseError, ParserState};
use crate::demo::sendprop::SendPropView;
use crate::stream::{take_uint, Stream};
use vstd::arithmetic::power2::lemma2_to64;
use vstd::prelude::*;

pub mod basic;
pub mod bspdecal;
pub mod classinfo;
pub mod gameevent;
pub mod packetentities;
pub mod setconvar;
pub mod stringtable;
pub mod tempentities;
pub mod usermessage;
pub mod voice;

verus! {

/// The kind of a message, as its tag names it.
#[derive(Clone, Copy, Debug, PartialEq, Eq, Structural)]
pub enum MessageType {
    File,
    NetTick,
    StringCmd,
    SetConVar,
    SigOnState,
    Print,
    ServerInfo,
    ClassInfo,
    SetPause,
    CreateStringTable,
    UpdateStringTable,
    VoiceInit,
    VoiceData,
    ParseSounds,
    SetView,
    FixAngle,
    BspDecal,
    UserMessage,
    EntityMessage,
    GameEvent,
    PacketEntities,
    TempEntities,
    PreFetch,
    Menu,
    GameEventList,
    GetCvarValue,
    CmdKeyValues,
}

/// The number of bits of a message's tag.
pub const MESSAGE_TYPE_BITS: usize = 6;

impl MessageType {
    /// The tag that names the kind on the wire.
    pub open spec fn id(self) -> u8 {
        match self {
            MessageType::File => 2,
            MessageType::NetTick => 3,
            MessageType::StringCmd => 4,
            MessageType::SetConVar => 5,
            MessageType::SigOnState => 6,
            MessageType::Print => 7,
            MessageType::ServerInfo => 8,
            MessageType::ClassInfo => 10,
            MessageType::SetPause => 11,
            MessageType::CreateStringTable => 12,
            MessageType::UpdateStringTable => 13,
            MessageType::VoiceInit => 14,
            MessageType::VoiceData => 15,
            MessageType::ParseSounds => 17,
            MessageType::SetView => 18,
            MessageType::FixAngle => 19,
            MessageType::BspDecal => 21,
            MessageType::UserMessage => 23,
            MessageType::EntityMessage => 24,
            MessageType::GameEvent => 25,
            MessageType::PacketEntities => 26,
            MessageType::TempEntities => 27,
            MessageType::PreFetch => 28,
            MessageType::Menu => 29,
            MessageType::GameEventList => 30,
            MessageType::GetCvarValue => 31,
            MessageType::CmdKeyValues => 32,
        }
    }

    /// The kind that the tag `raw` names, if it names one.
    pub open spec fn from_id(raw: u8) -> Option<Self> {
        match raw {
            2 => Some(MessageType::File),
            3 => Some(MessageType::NetTick),
            4 => Some(MessageType::StringCmd),
            5 => Some(MessageType::SetConVar),
            6 => Some(MessageType::SigOnState),
            7 => Some(MessageType::Print),
            8 => Some(MessageType::ServerInfo),
            10 => Some(MessageType::ClassInfo),
            11 => Some(MessageType::SetPause),
            12 => Some(MessageType::CreateStringTable),
            13 => Some(MessageType::UpdateStringTable),
            14 => Some(MessageType::VoiceInit),
            15 => Some(MessageType::VoiceData),
            17 => Some(MessageType::ParseSounds),
            18 => Some(MessageType::SetView),
            19 => Some(MessageType::FixAngle),
            21 => Some(MessageType::BspDecal),
            23 => Some(MessageType::UserMessage),
            24 => Some(MessageType::EntityMessage),
            25 => Some(MessageType::GameEvent),
            26 => Some(MessageType::PacketEntities),
            27 => Some(MessageType::TempEntities),
            28 => Some(MessageType::PreFetch),
            29 => Some(MessageType::Menu),
            30 => Some(MessageType::GameEventList),
            31 => Some(MessageType::GetCvarValue),
            32 => Some(MessageType::CmdKeyValues),
            _ => None,
        }
    }

    /// The kind that `raw` names, if it names one.
    pub fn from_u8(raw: u8) -> (r: Option<Self>)
        ensures
            r == Self::from_id(raw),
    {
        match raw {
            2 => Some(MessageType::File),
            3 => Some(MessageType::NetTick),
            4 => Some(MessageType::StringCmd),
            5 => Some(MessageType::SetConVar),
            6 => Some(MessageType::SigOnState),
            7 => Some(MessageType::Print),
            8 => Some(MessageType::ServerInfo),
            10 => Some(MessageType::ClassInfo),
            11 => Some(MessageType::SetPause),
            12 => Some(MessageType::CreateStringTable),
            13 => Some(MessageType::UpdateStringTable),
            14 => Some(MessageType::VoiceInit),
            15 => Some(MessageType::VoiceData),
            17 => Some(MessageType::ParseSounds),
            18 => Some(MessageType::SetView),
            19 => Some(MessageType::FixAngle),
            21 => Some(MessageType::BspDecal),
            23 => Some(MessageType::UserMessage),
            24 => Some(MessageType::EntityMessage),
            25 => Some(MessageType::GameEvent),
            26 => Some(MessageType::PacketEntities),
            27 => Some(MessageType::TempEntities),
            28 => Some(MessageType::PreFetch),
            29 => Some(MessageType::Menu),
            30 => Some(MessageType::GameEventList),
            31 => Some(MessageType::GetCvarValue),
            32 => Some(MessageType::CmdKeyValues),
            _ => None,
        }
    }

    /// The tag that names the kind on the wire.
    pub fn to_u8(self) -> (r: u8)
        ensures
            r == self.id(),
    {
        match self {
            MessageType::File => 2,
            MessageType::NetTick => 3,
            MessageType::StringCmd => 4,
            MessageType::SetConVar => 5,
            MessageType::SigOnState => 6,
            MessageType::Print => 7,
            MessageType::ServerInfo => 8,
            MessageType::ClassInfo => 10,
            MessageType::SetPause => 11,
            MessageType::CreateStringTable => 12,
            MessageType::UpdateStringTable => 13,
            MessageType::VoiceInit => 14,
            MessageType::VoiceData => 15,
            MessageType::ParseSounds => 17,
            MessageType::SetView => 18,
            MessageType::FixAngle => 19,
            MessageType::BspDecal => 21,
            MessageType::UserMessage => 23,
            MessageType::EntityMessage => 24,
            MessageType::GameEvent => 25,
            MessageType::PacketEntities => 26,
            MessageType::TempEntities => 27,
            MessageType::PreFetch => 28,
            MessageType::Menu => 29,
            MessageType::GameEventList => 30,
            MessageType::GetCvarValue => 31,
            MessageType::CmdKeyValues => 32,
        }
    }

    /// What decoding a tag at `pos` gives: six bits that must name a kind.
    pub open spec fn parse_spec(bits: Seq<bool>, pos: int) -> Result<(Self, int), ParseError> {
        match take_uint(bits, pos, 6) {
            Err(e) => Err(ParseError::of_read(e)),
            Ok((raw, end)) => match Self::from_id(raw as u8) {
                Some(kind) => Ok((kind, end)),
                None => Err(ParseError::UnknownMessageType(raw as u8)),
            },
        }
    }

    /// Reads the tag of a message. The cursor moves past the tag also where
    /// it names no kind. The state has no part in it.
    pub fn parse(stream: &mut Stream, _state: &ParserState) -> (r: Result<Self, ParseError>)
        requires
            old(stream).inv(),
        ensures
            final(stream).inv(),
            final(stream).same_window(old(stream)),
            (match Self::parse_spec(old(stream).bits(), old(stream).position()) {
                Ok((kind, end)) => r == Ok::<Self, ParseError>(kind) && final(stream).position()
                    == end,
                Err(e) => r == Err::<Self, ParseError>(e),
            }),
            old(stream).remaining() >= 6 ==> final(stream).position() == old(stream).position() + 6,
    {
        let raw = match stream.read_int(MESSAGE_TYPE_BITS) {
            Ok(v) => {
                proof {
                    lemma2_to64();
                }
                v as u8
            },
            Err(e) => {
                return Err(ParseError::from_read(e));
            },
        };
        match Self::from_u8(raw) {
            Some(kind) => Ok(kind),
            None => Err(ParseError::UnknownMessageType(raw)),
        }
    }
}

/// Every kind is found again from its tag, a tag that names a kind is the
/// tag of that kind, and every tag fits in six bits.
pub proof fn lemma_message_type_ids(kind: MessageType, raw: u8)
    ensures
        MessageType::from_id(kind.id()) == Some(kind),
        MessageType::from_id(raw) matches Some(found) ==> found.id() == raw,
        kind.id() < 64,
{
}

/// A message.
#[derive(Debug)]
pub enum Message<'a> {
    File(FileMessage),
    NetTick(NetTickMessage),
    StringCmd(StringCmdMessage),
    SetConVar(SetConVarMessage),
    SigOnState(SigOnStateMessage),
    Print(PrintMessage),
    ServerInfo(ServerInfoMessage),
    ClassInfo(ClassInfoMessage),
    SetPause(SetPauseMessage),
    CreateStringTable(CreateStringTableMessage),
    UpdateStringTable(UpdateStringTableMessage),
    VoiceInit(VoiceInitMessage),
    VoiceData(VoiceDataMessage<'a>),
    ParseSounds(ParseSoundsMessage<'a>),
    SetView(SetViewMessage),
    FixAngle(FixAngleMessage),
    BspDecal(BSPDecalMessage),
    UserMessage(UserMessage<'a>),
    EntityMessage(EntityMessage<'a>),
    GameEvent(GameEvent),
    PacketEntities(PacketEntitiesMessage),
    TempEntities(TempEntitiesMessage<'a>),
    PreFetch(PreFetchMessage),
    Menu(MenuMessage<'a>),
    GameEventList(Vec<GameEventDescriptor>),
    GetCvarValue(GetCvarValueMessage),
    CmdKeyValues(CmdKeyValuesMessage<'a>),
}

/// What a [`Message`] holds.
pub enum MessageView {
    File(FileMessageView),
    NetTick(NetTickMessageView),
    StringCmd(StringCmdMessageView),
    SetConVar(Seq<ConVarView>),
    SigOnState(SigOnStateMessageView),
    Print(PrintMessageView),
    ServerInfo(ServerInfoMessageView),
    ClassInfo(ClassInfoMessageView),
    SetPause(SetPauseMessageView),
    CreateStringTable(CreateStringTableView),
    UpdateStringTable(UpdateStringTableView),
    VoiceInit(VoiceInitMessageView),
    VoiceData(VoiceDataMessageView),
    ParseSounds(ParseSoundsMessageView),
    SetView(SetViewMessageView),
    FixAngle(FixAngleMessageView),
    BspDecal(BSPDecalMessage),
    UserMessage(UserMessageView),
    EntityMessage(EntityMessageView),
    GameEvent(GameEventView),
    PacketEntities(PacketEntitiesView),
    TempEntities(TempEntitiesMessageView),
    PreFetch(PreFetchMessageView),
    Menu(MenuMessageView),
    GameEventList(Seq<DescriptorView>),
    GetCvarValue(GetCvarValueMessageView),
    CmdKeyValues(CmdKeyValuesMessageView),
}

/// What must be known of what came before to decode a message: the
/// properties of each declared class, the entities that exist, the declared
/// events, and the layout and the history of each string table.
pub struct StateView {
    pub classes: Seq<Seq<SendPropView>>,
    pub entities: Seq<Option<EntityStateView>>,
    pub events: Seq<DescriptorView>,
    pub tables: Seq<(Layout, Seq<Seq<u8>>)>,
}

impl<'a> Message<'a> {
    /// What the message holds.
    pub open spec fn view(&self) -> MessageView {
        match self {
            Message::File(m) => MessageView::File(m@),
            Message::NetTick(m) => MessageView::NetTick(m@),
            Message::StringCmd(m) => MessageView::StringCmd(m@),
            Message::SetConVar(m) => MessageView::SetConVar(m@),
            Message::SigOnState(m) => MessageView::SigOnState(m@),
            Message::Print(m) => MessageView::Print(m@),
            Message::ServerInfo(m) => MessageView::ServerInfo(m@),
            Message::ClassInfo(m) => MessageView::ClassInfo(m@),
            Message::SetPause(m) => MessageView::SetPause(m@),
            Message::CreateStringTable(m) => MessageView::CreateStringTable(m@),
            Message::UpdateStringTable(m) => MessageView::UpdateStringTable(m@),
            Message::VoiceInit(m) => MessageView::VoiceInit(m@),
            Message::VoiceData(m) => MessageView::VoiceData(m@),
            Message::ParseSounds(m) => MessageView::ParseSounds(m@),
            Message::SetView(m) => MessageView::SetView(m@),
            Message::FixAngle(m) => MessageView::FixAngle(m@),
            Message::BspDecal(m) => MessageView::BspDecal(*m),
            Message::UserMessage(m) => MessageView::UserMessage(m@),
            Message::EntityMessage(m) => MessageView::EntityMessage(m@),
            Message::GameEvent(m) => MessageView::GameEvent(m@),
            Message::PacketEntities(m) => MessageView::PacketEntities(m@),
            Message::TempEntities(m) => MessageView::TempEntities(m@),
            Message::PreFetch(m) => MessageView::PreFetch(m@),
            Message::Menu(m) => MessageView::Menu(m@),
            Message::GameEventList(m) => MessageView::GameEventList(descriptors_view(m)),
            Message::GetCvarValue(m) => MessageView::GetCvarValue(m@),
            Message::CmdKeyValues(m) => MessageView::CmdKeyValues(m@),
        }
    }

    /// The kind of the message.
    pub open spec fn kind(&self) -> MessageType {
        match self {
            Message::File(_) => MessageType::File,
            Message::NetTick(_) => MessageType::NetTick,
            Message::StringCmd(_) => MessageType::StringCmd,
            Message::SetConVar(_) => MessageType::SetConVar,
            Message::SigOnState(_) => MessageType::SigOnState,
            Message::Print(_) => MessageType::Print,
            Message::ServerInfo(_) => MessageType::ServerInfo,
            Message::ClassInfo(_) => MessageType::ClassInfo,
            Message::SetPause(_) => MessageType::SetPause,
            Message::CreateStringTable(_) => MessageType::CreateStringTable,
            Message::UpdateStringTable(_) => MessageType::UpdateStringTable,
            Message::VoiceInit(_) => MessageType::VoiceInit,
            Message::VoiceData(_) => MessageType::VoiceData,
            Message::ParseSounds(_) => MessageType::ParseSounds,
            Message::SetView(_) => MessageType::SetView,
            Message::FixAngle(_) => MessageType::FixAngle,
            Message::BspDecal(_) => MessageType::BspDecal,
            Message::UserMessage(_) => MessageType::UserMessage,
            Message::EntityMessage(_) => MessageType::EntityMessage,
            Message::GameEvent(_) => MessageType::GameEvent,
            Message::PacketEntities(_) => MessageType::PacketEntities,
            Message::TempEntities(_) => MessageType::TempEntities,
            Message::PreFetch(_) => MessageType::PreFetch,
            Message::Menu(_) => MessageType::Menu,
            Message::GameEventList(_) => MessageType::GameEventList,
            Message::GetCvarValue(_) => MessageType::GetCvarValue,
            Message::CmdKeyValues(_) => MessageType::CmdKeyValues,
        }
    }

    /// The kind of the message.
    pub fn get_message_type(&self) -> (r: MessageType)
        ensures
            r == self.kind(),
    {
        match self {
            Message::File(_) => MessageType::File,
            Message::NetTick(_) => MessageType::NetTick,
            Message::StringCmd(_) => MessageType::StringCmd,
            Message::SetConVar(_) => MessageType::SetConVar,
            Message::SigOnState(_) => MessageType::SigOnState,
            Message::Print(_) => MessageType::Print,
            Message::ServerInfo(_) => MessageType::ServerInfo,
            Message::ClassInfo(_) => MessageType::ClassInfo,
            Message::SetPause(_) => MessageType::SetPause,
            Message::CreateStringTable(_) => MessageType::CreateStringTable,
            Message::UpdateStringTable(_) => MessageType::UpdateStringTable,
            Message::VoiceInit(_) => MessageType::VoiceInit,
            Message::VoiceData(_) => MessageType::VoiceData,
            Message::ParseSounds(_) => MessageType::ParseSounds,
            Message::SetView(_) => MessageType::SetView,
            Message::FixAngle(_) => MessageType::FixAngle,
            Message::BspDecal(_) => MessageType::BspDecal,
            Message::UserMessage(_) => MessageType::UserMessage,
            Message::EntityMessage(_) => MessageType::EntityMessage,
            Message::GameEvent(_) => MessageType::GameEvent,
            Message::PacketEntities(_) => MessageType::PacketEntities,
            Message::TempEntities(_) => MessageType::TempEntities,
            Message::PreFetch(_) => MessageType::PreFetch,
            Message::Menu(_) => MessageType::Menu,
            Message::GameEventList(_) => MessageType::GameEventList,
            Message::GetCvarValue(_) => MessageType::GetCvarValue,
            Message::CmdKeyValues(_) => MessageType::CmdKeyValues,
        }
    }

    /// What decoding the body of a message of the given kind at `pos` gives.
    pub open spec fn parse_body(
        kind: MessageType,
        state: StateView,
        bits: Seq<bool>,
        pos: int,
    ) -> Result<
        (MessageView, int),
        ParseError,
    > {
        match kind {
            MessageType::File => match FileMessage::parse(bits, pos) {
                Ok((m, end)) => Ok((MessageView::File(m), end)),
                Err(e) => Err(ParseError::of_read(e)),
            },
            MessageType::NetTick => match NetTickMessage::parse(bits, pos) {
                Ok((m, end)) => Ok((MessageView::NetTick(m), end)),
                Err(e) => Err(ParseError::of_read(e)),
            },
            MessageType::StringCmd => match StringCmdMessage::parse(bits, pos) {
                Ok((m, end)) => Ok((MessageView::StringCmd(m), end)),
                Err(e) => Err(ParseError::of_read(e)),
            },
            MessageType::SetConVar => match SetConVarMessage::parse(bits, pos) {
                Ok((m, end)) => Ok((MessageView::SetConVar(m), end)),
                Err(e) => Err(ParseError::of_read(e)),
            },
            MessageType::SigOnState => match SigOnStateMessage::parse(bits, pos) {
                Ok((m, end)) => Ok((MessageView::SigOnState(m), end)),
                Err(e) => Err(ParseError::of_read(e)),
            },
            MessageType::Print => match PrintMessage::parse(bits, pos) {
                Ok((m, end)) => Ok((MessageView::Print(m), end)),
                Err(e) => Err(ParseError::of_read(e)),
            },
            MessageType::ServerInfo => match ServerInfoMessage::parse(bits, pos) {
                Ok((m, end)) => Ok((MessageView::ServerInfo(m), end)),
                Err(e) => Err(ParseError::of_read(e)),
            },
            MessageType::ClassInfo => match ClassInfoMessage::parse(bits, pos) {
                Ok((m, end)) => Ok((MessageView::ClassInfo(m), end)),
                Err(e) => Err(ParseError::of_read(e)),
            },
            MessageType::SetPause => match SetPauseMessage::parse(bits, pos) {
                Ok((m, end)) => Ok((MessageView::SetPause(m), end)),
                Err(e) => Err(ParseError::of_read(e)),
            },
            MessageType::CreateStringTable => match CreateStringTableMessage::parse(bits, pos) {
                Ok((m, end)) => Ok((MessageView::CreateStringTable(m), end)),
                Err(e) => Err(e),
            },
            MessageType::UpdateStringTable => match UpdateStringTableMessage::parse(
                state.tables,
                bits,
                pos,
            ) {
                Ok((m, end)) => Ok((MessageView::UpdateStringTable(m), end)),
                Err(e) => Err(e),
            },
            MessageType::VoiceInit => match VoiceInitMessage::parse(bits, pos) {
                Ok((m, end)) => Ok((MessageView::VoiceInit(m), end)),
                Err(e) => Err(ParseError::of_read(e)),
            },
            MessageType::VoiceData => match VoiceDataMessage::parse(bits, pos) {
                Ok((m, end)) => Ok((MessageView::VoiceData(m), end)),
                Err(e) => Err(ParseError::of_read(e)),
            },
            MessageType::ParseSounds => match ParseSoundsMessage::parse(bits, pos) {
                Ok((m, end)) => Ok((MessageView::ParseSounds(m), end)),
                Err(e) => Err(ParseError::of_read(e)),
            },
            MessageType::SetView => match SetViewMessage::parse(bits, pos) {
                Ok((m, end)) => Ok((MessageView::SetView(m), end)),
                Err(e) => Err(ParseError::of_read(e)),
            },
            MessageType::FixAngle => match FixAngleMessage::parse(bits, pos) {
                Ok((m, end)) => Ok((MessageView::FixAngle(m), end)),
                Err(e) => Err(ParseError::of_read(e)),
            },
            MessageType::BspDecal => match BSPDecalMessage::parse(bits, pos) {
                Ok((m, end)) => Ok((MessageView::BspDecal(m), end)),
                Err(e) => Err(ParseError::of_read(e)),
            },
            MessageType::UserMessage => match UserMessage::parse(bits, pos) {
                Ok((m, end)) => Ok((MessageView::UserMessage(m), end)),
                Err(e) => Err(ParseError::of_read(e)),
            },
            MessageType::EntityMessage => match EntityMessage::parse(bits, pos) {
                Ok((m, end)) => Ok((MessageView::EntityMessage(m), end)),
                Err(e) => Err(ParseError::of_read(e)),
            },
            MessageType::GameEvent => match GameEvent::parse_message(bits, pos, state.events) {
                Ok((m, end)) => Ok((MessageView::GameEvent(m), end)),
                Err(e) => Err(e),
            },
            MessageType::PacketEntities => match PacketEntitiesMessage::parse(
                state.classes,
                state.entities,
                bits,
                pos,
            ) {
                Ok((m, end)) => Ok((MessageView::PacketEntities(m), end)),
                Err(e) => Err(e),
            },
            MessageType::TempEntities => match TempEntitiesMessage::parse(bits, pos) {
                Ok((m, end)) => Ok((MessageView::TempEntities(m), end)),
                Err(e) => Err(ParseError::of_read(e)),
            },
            MessageType::PreFetch => match PreFetchMessage::parse(bits, pos) {
                Ok((m, end)) => Ok((MessageView::PreFetch(m), end)),
                Err(e) => Err(ParseError::of_read(e)),
            },
            MessageType::Menu => match MenuMessage::parse(bits, pos) {
                Ok((m, end)) => Ok((MessageView::Menu(m), end)),
                Err(e) => Err(ParseError::of_read(e)),
            },
            MessageType::GameEventList => match take_event_list(bits, pos) {
                Ok((m, end)) => Ok((MessageView::GameEventList(m), end)),
                Err(e) => Err(e),
            },
            MessageType::GetCvarValue => match GetCvarValueMessage::parse(bits, pos) {
                Ok((m, end)) => Ok((MessageView::GetCvarValue(m), end)),
                Err(e) => Err(ParseError::of_read(e)),
            },
            MessageType::CmdKeyValues => match CmdKeyValuesMessage::parse(bits, pos) {
                Ok((m, end)) => Ok((MessageView::CmdKeyValues(m), end)),
                Err(e) => Err(ParseError::of_read(e)),
            },
        }
    }

    /// What decoding a message at `pos` gives: a tag of six bits that names
    /// its kind, and the body of a message of that kind.
    pub open spec fn parse_spec(state: StateView, bits: Seq<bool>, pos: int) -> Result<
        (MessageView, int),
        ParseError,
    > {
        match MessageType::parse_spec(bits, pos) {
            Err(e) => Err(e),
            Ok((kind, p1)) => Self::parse_body(kind, state, bits, p1),
        }
    }

    /// Reads the body of a message of the given kind.
    pub fn parse_kind(
        kind: MessageType,
        stream: &mut Stream<'a>,
        state: &ParserState,
    ) -> (r: Result<Self, ParseError>)
        requires
            old(stream).inv(),
            state.wf(),
        ensures
            final(stream).inv(),
            final(stream).same_window(old(stream)),
            (match Self::parse_body(kind, state@, old(stream).bits(), old(stream).position()) {
                Ok((view, end)) => (r matches Ok(found) && found@ == view && found.kind() == kind)
                    && final(stream).position() == end,
                Err(e) => r matches Err(x) && x == e,
            }),
    {
        match kind {
            MessageType::File => match FileMessage::read(stream) {
                Ok(m) => Ok(Message::File(m)),
                Err(e) => Err(ParseError::from_read(e)),
            },
            MessageType::NetTick => match NetTickMessage::read(stream) {
                Ok(m) => Ok(Message::NetTick(m)),
                Err(e) => Err(ParseError::from_read(e)),
            },
            MessageType::StringCmd => match StringCmdMessage::read(stream) {
                Ok(m) => Ok(Message::StringCmd(m)),
                Err(e) => Err(ParseError::from_read(e)),
            },
            MessageType::SetConVar => match SetConVarMessage::read(stream) {
                Ok(m) => Ok(Message::SetConVar(m)),
                Err(e) => Err(ParseError::from_read(e)),
            },
            MessageType::SigOnState => match SigOnStateMessage::read(stream) {
                Ok(m) => Ok(Message::SigOnState(m)),
                Err(e) => Err(ParseError::from_read(e)),
            },
            MessageType::Print => match PrintMessage::read(stream) {
                Ok(m) => Ok(Message::Print(m)),
                Err(e) => Err(ParseError::from_read(e)),
            },
            MessageType::ServerInfo => match ServerInfoMessage::read(stream) {
                Ok(m) => Ok(Message::ServerInfo(m)),
                Err(e) => Err(ParseError::from_read(e)),
            },
            MessageType::ClassInfo => match ClassInfoMessage::read(stream) {
                Ok(m) => Ok(Message::ClassInfo(m)),
                Err(e) => Err(ParseError::from_read(e)),
            },
            MessageType::SetPause => match SetPauseMessage::read(stream) {
                Ok(m) => Ok(Message::SetPause(m)),
                Err(e) => Err(ParseError::from_read(e)),
            },
            MessageType::CreateStringTable => match CreateStringTableMessage::read(stream) {
                Ok(m) => Ok(Message::CreateStringTable(m)),
                Err(e) => Err(e),
            },
            MessageType::UpdateStringTable => match UpdateStringTableMessage::read(
                stream,
                &state.string_tables,
            ) {
                Ok(m) => Ok(Message::UpdateStringTable(m)),
                Err(e) => Err(e),
            },
            MessageType::VoiceInit => match VoiceInitMessage::read(stream) {
                Ok(m) => Ok(Message::VoiceInit(m)),
                Err(e) => Err(ParseError::from_read(e)),
            },
            MessageType::VoiceData => match VoiceDataMessage::read(stream) {
                Ok(m) => Ok(Message::VoiceData(m)),
                Err(e) => Err(ParseError::from_read(e)),
            },
            MessageType::ParseSounds => match ParseSoundsMessage::read(stream) {
                Ok(m) => Ok(Message::ParseSounds(m)),
                Err(e) => Err(ParseError::from_read(e)),
            },
            MessageType::SetView => match SetViewMessage::read(stream) {
                Ok(m) => Ok(Message::SetView(m)),
                Err(e) => Err(ParseError::from_read(e)),
            },
            MessageType::FixAngle => match FixAngleMessage::read(stream) {
                Ok(m) => Ok(Message::FixAngle(m)),
                Err(e) => Err(ParseError::from_read(e)),
            },
            MessageType::BspDecal => match BSPDecalMessage::read(stream) {
                Ok(m) => Ok(Message::BspDecal(m)),
                Err(e) => Err(ParseError::from_read(e)),
            },
            MessageType::UserMessage => match UserMessage::read(stream) {
                Ok(m) => Ok(Message::UserMessage(m)),
                Err(e) => Err(ParseError::from_read(e)),
            },
            MessageType::EntityMessage => match EntityMessage::read(stream) {
                Ok(m) => Ok(Message::EntityMessage(m)),
                Err(e) => Err(ParseError::from_read(e)),
            },
            MessageType::GameEvent => match GameEvent::read_message(stream, &state.game_events) {
                Ok(m) => Ok(Message::GameEvent(m)),
                Err(e) => Err(e),
            },
            MessageType::PacketEntities => match PacketEntitiesMessage::read(
                stream,
                &state.server_classes,
                &state.world.entities,
            ) {
                Ok(m) => Ok(Message::PacketEntities(m)),
                Err(e) => Err(e),
            },
            MessageType::TempEntities => match TempEntitiesMessage::read(stream) {
                Ok(m) => Ok(Message::TempEntities(m)),
                Err(e) => Err(ParseError::from_read(e)),
            },
            MessageType::PreFetch => match PreFetchMessage::read(stream) {
                Ok(m) => Ok(Message::PreFetch(m)),
                Err(e) => Err(ParseError::from_read(e)),
            },
            MessageType::Menu => match MenuMessage::read(stream) {
                Ok(m) => Ok(Message::Menu(m)),
                Err(e) => Err(ParseError::from_read(e)),
            },
            MessageType::GameEventList => match read_event_list(stream) {
                Ok(m) => Ok(Message::GameEventList(m)),
                Err(e) => Err(e),
            },
            MessageType::GetCvarValue => match GetCvarValueMessage::read(stream) {
                Ok(m) => Ok(Message::GetCvarValue(m)),
                Err(e) => Err(ParseError::from_read(e)),
            },
            MessageType::CmdKeyValues => match CmdKeyValuesMessage::read(stream) {
                Ok(m) => Ok(Message::CmdKeyValues(m)),
                Err(e) => Err(ParseError::from_read(e)),
            },
        }
    }

    /// Reads a message: its tag, and the body that the tag announces.
    pub fn parse(stream: &mut Stream<'a>, state: &ParserState) -> (r: Result<Self, ParseError>)
        requires
            old(stream).inv(),
            state.wf(),
        ensures
            final(stream).inv(),
            final(stream).same_window(old(stream)),
            (match Self::parse_spec(state@, old(stream).bits(), old(stream).position()) {
                Ok((view, end)) => (r matches Ok(found) && found@ == view)
                    && final(stream).position() == end,
                Err(e) => r matches Err(x) && x == e,
            }),
    {
        let kind = match MessageType::parse(stream, state) {
            Ok(kind) => kind,
            Err(e) => {
                return Err(e);
            },
        };
        Self::parse_kind(kind, stream, state)
    }
}

} // verus!
