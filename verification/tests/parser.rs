use bitbuffer::{BitWriteStream, LittleEndian};
use tf_demo_parser::demo::data::MaybeUtf8String;
use tf_demo_parser::demo::header::{is_magic, Header, HEADER_BITS};
use tf_demo_parser::demo::message::basic::NetTickMessage;
use tf_demo_parser::demo::message::gameevent::{GameEvent, GameEventDescriptor, GameEventValue};
use tf_demo_parser::demo::message::packetentities::{
    EntityUpdate, PacketEntitiesMessage, UpdateType, MAX_ENTITIES,
};
use tf_demo_parser::demo::message::stringtable::{
    CreateStringTableMessage, StringTableChange, StringTableEntry, UpdateStringTableMessage,
};
use tf_demo_parser::demo::message::{Message, MessageType};
use tf_demo_parser::demo::packet::{Packet, PacketType};
use tf_demo_parser::demo::parser::{parse, read_messages, Analyser, ParseError, ParserState};
use tf_demo_parser::stream::Stream;

type Writer<'a> = BitWriteStream<'a, LittleEndian>;

fn build(f: impl FnOnce(&mut Writer)) -> Vec<u8> {
    let mut data = Vec::new();
    {
        let mut w = BitWriteStream::new(&mut data, LittleEndian);
        f(&mut w);
    }
    data
}

fn padded(name: &str) -> Vec<u8> {
    let mut bytes = name.as_bytes().to_vec();
    bytes.resize(260, 0);
    bytes
}

fn header_bytes() -> Vec<u8> {
    build(|w| {
        w.write_bytes(b"HL2DEMO\0").unwrap();
        w.write_int(3u32, 32).unwrap();
        w.write_int(24u32, 32).unwrap();
        w.write_bytes(&padded("localhost:27015")).unwrap();
        w.write_bytes(&padded("recorder")).unwrap();
        w.write_bytes(&padded("cp_gullywash_final1")).unwrap();
        w.write_bytes(&padded("tf")).unwrap();
        w.write_int(12.5f32.to_bits(), 32).unwrap();
        w.write_int(800u32, 32).unwrap();
        w.write_int((-1i32) as u32, 32).unwrap();
        w.write_int(1234u32, 32).unwrap();
    })
}

#[test]
fn header_is_1072_bytes() {
    let mut data = header_bytes();
    assert_eq!(data.len(), 1072);
    assert_eq!(HEADER_BITS, 1072 * 8);
    data.push(0xaa);
    let mut stream = Stream::new(&data).unwrap();
    let header = Header::read(&mut stream).unwrap();
    assert_eq!(
        header,
        Header {
            demo_protocol: 3,
            net_protocol: 24,
            server: "localhost:27015".to_string(),
            nick: "recorder".to_string(),
            map: "cp_gullywash_final1".to_string(),
            game: "tf".to_string(),
            duration: 12.5f32.to_bits(),
            ticks: 800,
            frames: -1,
            sign_on_length: 1234,
        }
    );
    assert_eq!(stream.pos(), HEADER_BITS);
    assert_eq!(stream.read_u8(), Ok(0xaa));
}

#[test]
fn header_names_end_at_their_first_zero_byte() {
    let mut data = header_bytes();
    data[16 + 20] = b'!';
    let header = Header::read(&mut Stream::new(&data).unwrap()).unwrap();
    assert_eq!(header.server, "localhost:27015");
}

#[test]
fn header_with_other_words_is_refused() {
    let mut data = header_bytes();
    data[0] = b'h';
    assert_eq!(
        Header::read(&mut Stream::new(&data).unwrap()).err(),
        Some(ParseError::InvalidMagic)
    );
    assert!(is_magic(b"HL2DEMO\0"));
    assert!(!is_magic(b"HL2DEMO"));
    assert!(!is_magic(b"HL2DEMO\0\0"));
    assert!(!is_magic(b"HL2DEMO1"));
}

#[test]
fn header_that_is_cut_short() {
    let data = header_bytes();
    assert_eq!(
        Header::read(&mut Stream::new(&data[..1071]).unwrap()).err(),
        Some(ParseError::ReadOutOfBounds)
    );
    assert_eq!(
        Header::read(&mut Stream::new(&data[..4]).unwrap()).err(),
        Some(ParseError::ReadOutOfBounds)
    );
    let mut bad = header_bytes();
    bad[16] = 0xff;
    assert_eq!(
        Header::read(&mut Stream::new(&bad).unwrap()).err(),
        Some(ParseError::Utf8(260))
    );
}

fn packet(w: &mut Writer, kind: u8, tick: i32, command: Option<i32>, data: Option<&[u8]>) {
    w.write_int(kind, 8).unwrap();
    w.write_int(tick as u32, 32).unwrap();
    if let Some(command) = command {
        w.write_int(command as u32, 32).unwrap();
    }
    if let Some(data) = data {
        w.write_int(data.len() as u32, 32).unwrap();
        w.write_bytes(data).unwrap();
    }
}

#[test]
fn packet_type_numbers() {
    let kinds = [
        PacketType::SignOn,
        PacketType::Packet,
        PacketType::SyncTick,
        PacketType::ConsoleCmd,
        PacketType::UserCmd,
        PacketType::DataTables,
        PacketType::Stop,
        PacketType::StringTables,
    ];
    for (i, kind) in kinds.iter().enumerate() {
        assert_eq!(PacketType::from_u8(i as u8 + 1), Some(*kind));
        assert_eq!(kind.to_u8(), i as u8 + 1);
    }
    assert_eq!(PacketType::from_u8(0), None);
    assert_eq!(PacketType::from_u8(9), None);
}

#[test]
fn packets_of_every_shape() {
    let data = build(|w| {
        packet(w, 2, 10, None, Some(&[1, 2, 3]));
        packet(w, 3, 11, None, None);
        packet(w, 5, -12, Some(99), Some(&[4]));
        packet(w, 4, 13, None, Some(b"say hi\0"));
        packet(w, 7, 14, None, None);
    });
    let mut stream = Stream::new(&data).unwrap();
    let mut first = Packet::read(&mut stream).unwrap();
    assert_eq!((first.kind, first.tick, first.command), (PacketType::Packet, 10, 0));
    assert_eq!(first.data.read_bytes(3), Ok(vec![1, 2, 3]));
    let second = Packet::read(&mut stream).unwrap();
    assert_eq!((second.kind, second.tick), (PacketType::SyncTick, 11));
    assert_eq!(second.data.bit_len(), 0);
    let third = Packet::read(&mut stream).unwrap();
    assert_eq!((third.kind, third.tick, third.command), (PacketType::UserCmd, -12, 99));
    assert_eq!(third.data.bit_len(), 8);
    let mut fourth = Packet::read(&mut stream).unwrap();
    assert_eq!(fourth.kind, PacketType::ConsoleCmd);
    assert_eq!(fourth.data.read_string(), Ok("say hi".to_string()));
    let last = Packet::read(&mut stream).unwrap();
    assert_eq!((last.kind, last.tick), (PacketType::Stop, 14));
    assert_eq!(stream.bits_left(), 0);
}

#[test]
fn packets_that_are_refused() {
    let unknown = build(|w| packet(w, 9, 0, None, None));
    assert_eq!(
        Packet::read(&mut Stream::new(&unknown).unwrap()).err(),
        Some(ParseError::InvalidPacketType(9))
    );
    let negative = build(|w| {
        w.write_int(2u8, 8).unwrap();
        w.write_int(0u32, 32).unwrap();
        w.write_int((-1i32) as u32, 32).unwrap();
    });
    assert_eq!(
        Packet::read(&mut Stream::new(&negative).unwrap()).err(),
        Some(ParseError::ReadOutOfBounds)
    );
    let short = build(|w| {
        w.write_int(2u8, 8).unwrap();
        w.write_int(0u32, 32).unwrap();
        w.write_int(5u32, 32).unwrap();
        w.write_bytes(&[1, 2]).unwrap();
    });
    assert_eq!(
        Packet::read(&mut Stream::new(&short).unwrap()).err(),
        Some(ParseError::ReadOutOfBounds)
    );
}

struct Recorder {
    header_map: Option<String>,
    kinds: Vec<MessageType>,
    ticks: Vec<u32>,
    packets: Vec<i32>,
    only_ticks: bool,
}

impl Recorder {
    fn new(only_ticks: bool) -> Self {
        Recorder { header_map: None, kinds: vec![], ticks: vec![], packets: vec![], only_ticks }
    }
}

impl Analyser for Recorder {
    type Output = (Option<String>, Vec<MessageType>, Vec<u32>, Vec<i32>);

    fn handles_message(&self, kind: MessageType) -> bool {
        !self.only_ticks || kind == MessageType::NetTick
    }

    fn handle_header(&mut self, header: &Header) {
        self.header_map = Some(header.map.clone());
    }

    fn handle_string_entry(&mut self, _table: &str, _index: usize, _entry: &StringTableEntry) {}

    fn handle_message(&mut self, message: &Message, tick: u32, _state: &ParserState) {
        self.kinds.push(message.get_message_type());
        self.ticks.push(tick);
    }

    fn handle_game_event(&mut self, _event: &GameEvent, _tick: u32, _state: &ParserState) {}

    fn handle_packet_meta(&mut self, tick: i32, _state: &ParserState) {
        self.packets.push(tick);
    }

    fn finalise(self) -> Self::Output {
        (self.header_map, self.kinds, self.ticks, self.packets)
    }
}

fn two_messages() -> Vec<u8> {
    build(|w| {
        w.write_int(3u8, 6).unwrap();
        w.write_int(500u32, 32).unwrap();
        w.write_int(0u32, 32).unwrap();
        w.write_int(7u8, 6).unwrap();
        w.write_string("line", None).unwrap();
    })
}

#[test]
fn demo_with_head_and_stop_only() {
    let mut data = header_bytes();
    data.extend(build(|w| packet(w, 7, 42, None, None)));
    data.extend_from_slice(&[1, 2, 3]);
    let outcome = parse(&data, Recorder::new(false));
    assert_eq!(outcome.error, None);
    assert_eq!(outcome.tick, 42);
    assert_eq!(outcome.header.unwrap().map, "cp_gullywash_final1");
    let (map, kinds, _, packets) = outcome.output;
    assert_eq!(map, Some("cp_gullywash_final1".to_string()));
    assert!(kinds.is_empty());
    assert!(packets.is_empty());
}

#[test]
fn demo_shows_its_messages_in_order() {
    let mut data = header_bytes();
    let messages = two_messages();
    data.extend(build(|w| {
        packet(w, 1, 1, None, Some(&messages));
        packet(w, 3, 2, None, None);
        packet(w, 2, 3, None, Some(&messages));
    }));
    let outcome = parse(&data, Recorder::new(false));
    assert_eq!(outcome.error, None);
    assert_eq!(outcome.tick, 3);
    let (_, kinds, ticks, packets) = outcome.output;
    assert_eq!(
        kinds,
        vec![MessageType::NetTick, MessageType::Print, MessageType::NetTick, MessageType::Print]
    );
    assert_eq!(ticks, vec![500, 500, 500, 500]);
    assert_eq!(packets, vec![1, 2, 3]);
    let filtered = parse(&data, Recorder::new(true));
    assert_eq!(filtered.output.1, vec![MessageType::NetTick, MessageType::NetTick]);
}

#[test]
fn demo_that_breaks_off_gives_the_error_and_the_last_tick() {
    let mut data = header_bytes();
    let messages = two_messages();
    let broken = build(|w| {
        w.write_int(3u8, 6).unwrap();
        w.write_int(900u32, 32).unwrap();
        w.write_int(0u32, 32).unwrap();
        w.write_int(33u8, 6).unwrap();
        w.write_int(0u8, 8).unwrap();
    });
    data.extend(build(|w| {
        packet(w, 2, 7, None, Some(&messages));
        packet(w, 2, 8, None, Some(&broken));
        packet(w, 2, 9, None, Some(&messages));
    }));
    let outcome = parse(&data, Recorder::new(false));
    assert_eq!(outcome.error, Some(ParseError::UnknownMessageType(33)));
    assert_eq!(outcome.tick, 8);
    let (_, kinds, ticks, packets) = outcome.output;
    assert_eq!(kinds, vec![MessageType::NetTick, MessageType::Print, MessageType::NetTick]);
    assert_eq!(ticks, vec![500, 500, 900]);
    assert_eq!(packets, vec![7]);
    let mut cut = header_bytes();
    cut.extend(build(|w| packet(w, 2, 5, None, Some(&messages))));
    cut.truncate(cut.len() - 2);
    let outcome = parse(&cut, Recorder::new(false));
    assert_eq!(outcome.error, Some(ParseError::ReadOutOfBounds));
    assert!(outcome.header.is_some());
}

#[test]
fn demo_without_a_valid_head() {
    let outcome = parse(b"not a demo", Recorder::new(false));
    assert_eq!(outcome.error, Some(ParseError::InvalidMagic));
    assert_eq!(outcome.header, None);
    assert_eq!(outcome.output.0, None);
    let outcome = parse(b"", Recorder::new(false));
    assert_eq!(outcome.error, Some(ParseError::ReadOutOfBounds));
}

#[test]
fn messages_end_with_the_last_tag_that_fits() {
    let mut data = two_messages();
    data.push(0);
    let mut state = ParserState::new();
    let mut recorder = Recorder::new(false);
    let mut stream = Stream::new(&data).unwrap().read_bits(two_messages().len() * 8 - 3).unwrap();
    assert_eq!(read_messages(&mut stream, &mut state, &mut recorder), Ok(2));
    assert!(stream.bits_left() < 6);
    assert_eq!(state.tick, 500);
    let mut empty = Stream::new(&data).unwrap().read_bits(5).unwrap();
    assert_eq!(read_messages(&mut empty, &mut state, &mut recorder), Ok(0));
    assert_eq!(empty.pos(), 0);
}

fn text(s: &str) -> MaybeUtf8String {
    MaybeUtf8String::Valid(s.to_string())
}

#[test]
fn state_follows_the_messages() {
    let mut state = ParserState::new();
    assert_eq!(state.world.entities.len(), MAX_ENTITIES);
    state
        .handle_message(&Message::NetTick(NetTickMessage { tick: 9, frame_time: 0, std_dev: 0 }))
        .unwrap();
    assert_eq!(state.tick, 9);
    let create = Message::CreateStringTable(CreateStringTableMessage {
        name: "userinfo".to_string(),
        max_entries: 4,
        fixed_userdata_size: 0,
        fixed_userdata_bits: 0,
        is_filenames: false,
        changes: vec![StringTableChange { index: 1, text: Some(text("one")), extra_data: None }],
    });
    state.handle_message(&create).unwrap();
    assert_eq!(state.string_tables.len(), 1);
    assert_eq!(state.string_tables[0].name, "userinfo");
    assert_eq!(state.string_tables[0].layout.max_entries, 4);
    assert_eq!(state.string_tables[0].entries.len(), 2);
    let update = Message::UpdateStringTable(UpdateStringTableMessage {
        table_id: 0,
        changes: vec![StringTableChange { index: 3, text: Some(text("three")), extra_data: None }],
    });
    state.handle_message(&update).unwrap();
    assert_eq!(state.string_tables[0].entries.len(), 4);
    assert_eq!(state.string_tables[0].entries[3].text, text("three"));
    assert_eq!(state.string_tables[0].history.len(), 2);
    let outside = Message::UpdateStringTable(UpdateStringTableMessage {
        table_id: 0,
        changes: vec![StringTableChange { index: 4, text: None, extra_data: None }],
    });
    assert_eq!(state.handle_message(&outside), Err(ParseError::StringTableOverflow));
    let missing =
        Message::UpdateStringTable(UpdateStringTableMessage { table_id: 3, changes: vec![] });
    assert_eq!(state.handle_message(&missing), Err(ParseError::StringTableNotFound(3)));
    assert_eq!(state.string_tables[0].entries.len(), 4);
    let events = vec![GameEventDescriptor { id: 5, name: "e".to_string(), entries: vec![] }];
    state.handle_message(&Message::GameEventList(events)).unwrap();
    assert_eq!(state.game_events.len(), 1);
    assert_eq!(state.game_events[0].id, 5);
    let entities = Message::PacketEntities(PacketEntitiesMessage {
        max_entries: 1,
        delta: None,
        base_line: false,
        updated_entries: 1,
        length: 0,
        update_baseline: false,
        updates: vec![EntityUpdate {
            entity_index: 3,
            update_type: UpdateType::Enter,
            server_class: 0,
            serial_number: 1,
            changes: vec![],
        }],
        removed: vec![],
    });
    assert_eq!(state.handle_message(&entities), Err(ParseError::UnknownServerClass(0)));
    let _ = GameEventValue::Byte(1);
}

#[derive(Default)]
struct Listener {
    entries: Vec<(String, usize, Vec<u8>)>,
    events: Vec<(u16, Vec<GameEventValue>, usize)>,
    messages: usize,
}

impl Analyser for Listener {
    type Output = Self;

    fn handles_message(&self, kind: MessageType) -> bool {
        kind == MessageType::GameEvent
    }

    fn handle_header(&mut self, _header: &Header) {}

    fn handle_string_entry(&mut self, table: &str, index: usize, entry: &StringTableEntry) {
        self.entries.push((table.to_string(), index, entry.text.as_bytes().to_vec()));
    }

    fn handle_message(&mut self, _message: &Message, _tick: u32, _state: &ParserState) {
        self.messages += 1;
    }

    fn handle_game_event(&mut self, event: &GameEvent, _tick: u32, state: &ParserState) {
        self.events.push((event.id, event.values.clone(), state.game_events.len()));
    }

    fn handle_packet_meta(&mut self, _tick: i32, _state: &ParserState) {}

    fn finalise(self) -> Self {
        self
    }
}

fn literal_entry(w: &mut Writer, text: &str) {
    w.write_bool(false).unwrap();
    w.write_bool(true).unwrap();
    w.write_bool(false).unwrap();
    w.write_string(text, None).unwrap();
    w.write_bool(false).unwrap();
}

fn tables_and_events() -> Vec<u8> {
    build(|w| {
        w.write_int(12u8, 6).unwrap();
        w.write_string("names", None).unwrap();
        w.write_int(4u16, 16).unwrap();
        w.write_int(2u8, 3).unwrap();
        w.write_int(56u32, 20).unwrap();
        w.write_bool(false).unwrap();
        w.write_bool(false).unwrap();
        literal_entry(w, "ab");
        literal_entry(w, "cd");
        w.write_int(13u8, 6).unwrap();
        w.write_int(0u8, 5).unwrap();
        w.write_bool(false).unwrap();
        w.write_int(30u32, 20).unwrap();
        w.write_bool(true).unwrap();
        w.write_int(3u8, 2).unwrap();
        w.write_bool(true).unwrap();
        w.write_bool(false).unwrap();
        w.write_string("zz", None).unwrap();
        w.write_bool(false).unwrap();
        w.write_int(30u8, 6).unwrap();
        w.write_int(1u16, 9).unwrap();
        w.write_int(5u16, 9).unwrap();
        w.write_string("ping", None).unwrap();
        w.write_int(5u8, 3).unwrap();
        w.write_string("n", None).unwrap();
        w.write_int(0u8, 3).unwrap();
        w.write_int(25u8, 6).unwrap();
        w.write_int(17u16, 11).unwrap();
        w.write_int(5u16, 9).unwrap();
        w.write_int(7u8, 8).unwrap();
    })
}

#[test]
fn demo_shows_changed_entries_and_game_events() {
    let mut data = header_bytes();
    let messages = tables_and_events();
    assert_eq!(messages.len(), 42);
    data.extend(build(|w| {
        packet(w, 2, 4, None, Some(&messages));
        packet(w, 7, 5, None, None);
    }));
    let outcome = parse(&data, Listener::default());
    assert_eq!(outcome.error, None);
    assert_eq!(outcome.tick, 5);
    let seen = outcome.output;
    assert_eq!(
        seen.entries,
        vec![
            ("names".to_string(), 0, b"ab".to_vec()),
            ("names".to_string(), 1, b"cd".to_vec()),
            ("names".to_string(), 3, b"zz".to_vec()),
        ]
    );
    assert_eq!(seen.events, vec![(5, vec![GameEventValue::Byte(7)], 1)]);
    assert_eq!(seen.messages, 1);
}

#[test]
fn demo_that_ends_without_a_last_packet() {
    let mut data = header_bytes();
    let messages = two_messages();
    data.extend(build(|w| {
        packet(w, 2, 21, None, Some(&messages));
        packet(w, 3, 22, None, None);
    }));
    let outcome = parse(&data, Recorder::new(false));
    assert_eq!(outcome.error, None);
    assert_eq!(outcome.tick, 22);
    assert_eq!(outcome.output.3, vec![21, 22]);
    let mut cut = data.clone();
    cut.extend_from_slice(&[2, 23, 0, 0, 0, 200, 0, 0, 0, 1, 2, 3]);
    let outcome = parse(&cut, Recorder::new(false));
    assert_eq!(outcome.error, Some(ParseError::ReadOutOfBounds));
    assert_eq!(outcome.tick, 22);
}

#[test]
fn update_of_a_table_that_was_never_created_ends_the_demo() {
    let mut data = header_bytes();
    let messages = build(|w| {
        w.write_int(13u8, 6).unwrap();
        w.write_int(9u8, 5).unwrap();
        w.write_bool(false).unwrap();
        w.write_int(0u32, 20).unwrap();
    });
    data.extend(build(|w| {
        packet(w, 2, 30, None, Some(&messages));
        packet(w, 7, 31, None, None);
    }));
    let outcome = parse(&data, Recorder::new(false));
    assert_eq!(outcome.error, Some(ParseError::StringTableNotFound(9)));
    assert_eq!(outcome.tick, 30);
}

#[test]
fn demo_whose_only_chat_is_malformed_goes_on() {
    let mut data = header_bytes();
    let mut chat = vec![2u8, 1u8];
    chat.extend_from_slice(b"TF_Chat_All\0someone\0");
    chat.extend_from_slice(&[0xe9, b'!', 0, 0, 0]);
    let messages = build(|w| {
        w.write_int(23u8, 6).unwrap();
        w.write_int(4u8, 8).unwrap();
        w.write_int((chat.len() * 8) as u16, 11).unwrap();
        w.write_bytes(&chat).unwrap();
        w.write_int(3u8, 6).unwrap();
        w.write_int(77u32, 32).unwrap();
        w.write_int(0u32, 32).unwrap();
    });
    data.extend(build(|w| {
        packet(w, 2, 12, None, Some(&messages));
        packet(w, 7, 13, None, None);
    }));
    let outcome = parse(&data, Recorder::new(false));
    assert_eq!(outcome.error, None);
    assert_eq!(outcome.tick, 13);
    let (_, kinds, ticks, _) = outcome.output;
    assert_eq!(kinds, vec![MessageType::UserMessage, MessageType::NetTick]);
    assert_eq!(ticks, vec![0, 77]);
}

#[test]
fn demo_without_users() {
    let mut data = header_bytes();
    let messages = two_messages();
    data.extend(build(|w| {
        packet(w, 2, 1, None, Some(&messages));
        packet(w, 7, 2, None, None);
    }));
    struct Users(Vec<usize>);
    impl Analyser for Users {
        type Output = Vec<usize>;

        fn handles_message(&self, _kind: MessageType) -> bool {
            false
        }

        fn handle_header(&mut self, _header: &Header) {}

        fn handle_string_entry(&mut self, _table: &str, _index: usize, _entry: &StringTableEntry) {}

        fn handle_message(&mut self, _message: &Message, _tick: u32, _state: &ParserState) {}

        fn handle_game_event(&mut self, _event: &GameEvent, _tick: u32, _state: &ParserState) {}

        fn handle_packet_meta(&mut self, _tick: i32, state: &ParserState) {
            self.0.push(state.users.len());
        }

        fn finalise(self) -> Vec<usize> {
            self.0
        }
    }
    let outcome = parse(&data, Users(vec![]));
    assert_eq!(outcome.error, None);
    assert_eq!(outcome.output, vec![0]);
}

#[test]
fn table_holds_what_all_its_changes_come_to() {
    let change = |index: usize, s: &str| StringTableChange {
        index,
        text: Some(text(s)),
        extra_data: None,
    };
    let create = CreateStringTableMessage {
        name: "names".to_string(),
        max_entries: 8,
        fixed_userdata_size: 0,
        fixed_userdata_bits: 0,
        is_filenames: false,
        changes: vec![change(0, "a"), change(1, "b")],
    };
    let updates = vec![
        UpdateStringTableMessage { table_id: 0, changes: vec![change(1, "c"), change(4, "d")] },
        UpdateStringTableMessage { table_id: 0, changes: vec![change(0, "e")] },
    ];
    let mut state = ParserState::new();
    state.handle_message(&Message::CreateStringTable(create.clone())).unwrap();
    for update in &updates {
        state.handle_message(&Message::UpdateStringTable(update.clone())).unwrap();
    }
    let mut all = create.changes.clone();
    for update in &updates {
        all.extend(update.changes.iter().cloned());
    }
    let mut at_once = ParserState::new();
    at_once
        .handle_message(&Message::CreateStringTable(CreateStringTableMessage {
            changes: all,
            ..create
        }))
        .unwrap();
    assert_eq!(state.string_tables[0].entries, at_once.string_tables[0].entries);
    let texts: Vec<&str> =
        state.string_tables[0].entries.iter().map(|e| e.text.as_ref()).collect();
    assert_eq!(texts, vec!["e", "c", "", "", "d"]);
}

#[test]
fn changed_table_is_the_table_of_the_message() {
    let change = |index: usize, s: &str| StringTableChange {
        index,
        text: Some(text(s)),
        extra_data: None,
    };
    let create = |name: &str| {
        Message::CreateStringTable(CreateStringTableMessage {
            name: name.to_string(),
            max_entries: 4,
            fixed_userdata_size: 0,
            fixed_userdata_bits: 0,
            is_filenames: false,
            changes: vec![change(0, name)],
        })
    };
    let mut state = ParserState::new();
    let first = create("first");
    assert!(state.changed_table(&first).is_none());
    state.handle_message(&first).unwrap();
    let second = create("second");
    state.handle_message(&second).unwrap();
    let (table, changes) = state.changed_table(&second).unwrap();
    assert_eq!(table.name, "second");
    assert_eq!(changes, &vec![change(0, "second")]);
    let update = Message::UpdateStringTable(UpdateStringTableMessage {
        table_id: 0,
        changes: vec![change(2, "x")],
    });
    state.handle_message(&update).unwrap();
    let (table, changes) = state.changed_table(&update).unwrap();
    assert_eq!(table.name, "first");
    assert_eq!(changes, &vec![change(2, "x")]);
    assert_eq!(table.entry(2).map(|e| e.text.as_bytes().to_vec()), Some(b"x".to_vec()));
    assert_eq!(table.entry(1).map(|e| e.text.as_bytes().to_vec()), Some(Vec::new()));
    assert!(table.entry(3).is_none());
    let missing =
        Message::UpdateStringTable(UpdateStringTableMessage { table_id: 2, changes: vec![] });
    assert!(state.changed_table(&missing).is_none());
    let tick = Message::NetTick(NetTickMessage { tick: 1, frame_time: 0, std_dev: 0 });
    assert!(state.changed_table(&tick).is_none());
}
