use bitbuffer::{BitWriteStream, LittleEndian};
use tf_demo_parser::demo::data::MaybeUtf8String;
use tf_demo_parser::demo::message::basic::{
    CmdKeyValuesMessage, EntityMessage, FileMessage, MenuMessage, NetTickMessage,
    ServerInfoMessage, SetViewMessage, VoiceDataMessage,
};
use tf_demo_parser::demo::message::bspdecal::BSPDecalMessage;
use tf_demo_parser::demo::message::classinfo::{ClassInfoEntry, ClassInfoMessage};
use tf_demo_parser::demo::message::setconvar::{ConVar, SetConVarMessage};
use tf_demo_parser::demo::message::tempentities::TempEntitiesMessage;
use tf_demo_parser::demo::message::voice::{ParseSoundsMessage, VoiceInitMessage};
use tf_demo_parser::demo::message::{Message, MessageType};
use tf_demo_parser::demo::parser::{ParseError, ParserState};
use tf_demo_parser::stream::{ReadError, Stream};

type Writer<'a> = BitWriteStream<'a, LittleEndian>;

fn build(f: impl FnOnce(&mut Writer)) -> Vec<u8> {
    let mut data = Vec::new();
    {
        let mut w = BitWriteStream::new(&mut data, LittleEndian);
        f(&mut w);
    }
    data
}

#[test]
fn net_tick() {
    let data = build(|w| {
        w.write_bool(true).unwrap();
        w.write_int(123_456u32, 32).unwrap();
        w.write_int(1500u16, 16).unwrap();
        w.write_int(7u16, 16).unwrap();
    });
    let mut stream = Stream::new(&data).unwrap();
    stream.skip_bits(1).unwrap();
    assert_eq!(
        NetTickMessage::read(&mut stream),
        Ok(NetTickMessage { tick: 123_456, frame_time: 1500, std_dev: 7 })
    );
    assert_eq!(stream.pos(), 65);
    assert_eq!(
        NetTickMessage::read(&mut stream),
        Err(ReadError::NotEnoughData { requested: 32, bits_left: 7 })
    );
}

#[test]
fn file_message() {
    let data = build(|w| {
        w.write_int(9u32, 32).unwrap();
        w.write_string("maps/cp_gullywash.bsp", None).unwrap();
        w.write_bool(true).unwrap();
    });
    assert_eq!(
        FileMessage::read(&mut Stream::new(&data).unwrap()),
        Ok(FileMessage {
            transfer_id: 9,
            file_name: "maps/cp_gullywash.bsp".to_string(),
            requested: true,
        })
    );
}

#[test]
fn server_info() {
    let data = build(|w| {
        w.write_int(24u16, 16).unwrap();
        w.write_int(3u32, 32).unwrap();
        w.write_bool(true).unwrap();
        w.write_bool(false).unwrap();
        w.write_int(0xdead_beefu32, 32).unwrap();
        w.write_int(300u16, 16).unwrap();
        w.write_bytes(&[7u8; 16]).unwrap();
        w.write_int(1u8, 8).unwrap();
        w.write_int(24u8, 8).unwrap();
        w.write_int(0.015f32.to_bits(), 32).unwrap();
        w.write_bytes(b"l").unwrap();
        w.write_string("tf", None).unwrap();
        w.write_string("cp_process", None).unwrap();
        w.write_string("sky", None).unwrap();
        w.write_string("a server", None).unwrap();
        w.write_bool(true).unwrap();
    });
    let message = ServerInfoMessage::read(&mut Stream::new(&data).unwrap()).unwrap();
    assert_eq!(message.version, 24);
    assert_eq!(message.server_count, 3);
    assert!(message.stv);
    assert!(!message.dedicated);
    assert_eq!(message.max_crc, 0xdead_beef);
    assert_eq!(message.max_classes, 300);
    assert_eq!(message.map_hash, vec![7u8; 16]);
    assert_eq!(message.player_slot, 1);
    assert_eq!(message.max_player_count, 24);
    assert_eq!(f32::from_bits(message.interval_per_tick), 0.015);
    assert_eq!(message.platform, "l");
    assert_eq!(message.game, "tf");
    assert_eq!(message.map, "cp_process");
    assert_eq!(message.skybox, "sky");
    assert_eq!(message.server_name, "a server");
    assert!(message.replay);
}

#[test]
fn numbers_of_odd_width() {
    let data = build(|w| {
        w.write_int(0x7ffu16, 11).unwrap();
        w.write_int(0x7ffu16, 11).unwrap();
        w.write_int(0x1ffu16, 9).unwrap();
        w.write_int(5u16, 11).unwrap();
        w.write_int(0b10110u8, 5).unwrap();
        w.write_int(0xffu8, 8).unwrap();
    });
    let mut stream = Stream::new(&data).unwrap();
    assert_eq!(SetViewMessage::read(&mut stream), Ok(SetViewMessage { index: 0x7ff }));
    let message = EntityMessage::read(&mut stream).unwrap();
    assert_eq!((message.index, message.class_id, message.length), (0x7ff, 0x1ff, 5));
    assert_eq!(message.data.bit_len(), 5);
    assert_eq!(stream.read_u8(), Ok(0xff));
}

#[test]
fn data_counted_in_bits_and_in_bytes() {
    let data = build(|w| {
        w.write_int(1u8, 8).unwrap();
        w.write_int(2u8, 8).unwrap();
        w.write_int(12u16, 16).unwrap();
        w.write_int(0xabcu16, 12).unwrap();
        w.write_int(3u16, 16).unwrap();
        w.write_int(2u16, 16).unwrap();
        w.write_bytes(&[0x11, 0x22]).unwrap();
        w.write_int(1u32, 32).unwrap();
        w.write_bytes(&[0x33]).unwrap();
    });
    let mut stream = Stream::new(&data).unwrap();
    let mut voice = VoiceDataMessage::read(&mut stream).unwrap();
    assert_eq!((voice.client, voice.proximity, voice.length), (1, 2, 12));
    assert_eq!(voice.data.read_int(12), Ok(0xabc));
    let mut menu = MenuMessage::read(&mut stream).unwrap();
    assert_eq!((menu.kind, menu.length), (3, 2));
    assert_eq!(menu.data.bit_len(), 16);
    assert_eq!(menu.data.read_bytes(2), Ok(vec![0x11, 0x22]));
    let keys = CmdKeyValuesMessage::read(&mut stream).unwrap();
    assert_eq!(keys.length, 1);
    assert_eq!(keys.data.bit_len(), 8);
    assert_eq!(stream.bits_left(), 4);
    let short = build(|w| w.write_int(0xffff_ffffu32, 32).unwrap());
    let mut stream = Stream::new(&short).unwrap();
    assert!(CmdKeyValuesMessage::read(&mut stream).is_err());
    assert_eq!(stream.pos(), 32);
}

#[test]
fn console_variables_keep_malformed_bytes() {
    let data = build(|w| {
        w.write_int(2u8, 8).unwrap();
        w.write_string("sv_cheats", None).unwrap();
        w.write_string("0", None).unwrap();
        w.write_bytes(&[b'n', 0xe9, 0]).unwrap();
        w.write_bytes(&[0xff, 0]).unwrap();
    });
    let message = SetConVarMessage::read(&mut Stream::new(&data).unwrap()).unwrap();
    assert_eq!(
        message.vars,
        vec![
            ConVar {
                key: MaybeUtf8String::Valid("sv_cheats".to_string()),
                value: MaybeUtf8String::Valid("0".to_string()),
            },
            ConVar {
                key: MaybeUtf8String::Invalid(vec![b'n', 0xe9]),
                value: MaybeUtf8String::Invalid(vec![0xff]),
            },
        ]
    );
}

#[test]
fn class_info() {
    let data = build(|w| {
        w.write_int(5u16, 16).unwrap();
        w.write_bool(false).unwrap();
        for i in 0..5u8 {
            w.write_int(i, 3).unwrap();
            w.write_string(&format!("CClass{}", i), None).unwrap();
            w.write_string(&format!("DT_Class{}", i), None).unwrap();
        }
        w.write_int(9u16, 16).unwrap();
        w.write_bool(true).unwrap();
    });
    let mut stream = Stream::new(&data).unwrap();
    let message = ClassInfoMessage::read(&mut stream).unwrap();
    assert_eq!(message.count, 5);
    assert!(!message.create);
    assert_eq!(message.entries.len(), 5);
    assert_eq!(
        message.entries[4],
        ClassInfoEntry {
            index: 4,
            class_name: "CClass4".to_string(),
            table_name: "DT_Class4".to_string(),
        }
    );
    let second = ClassInfoMessage::read(&mut stream).unwrap();
    assert_eq!(second, ClassInfoMessage { count: 9, create: true, entries: vec![] });
}

#[test]
fn voice_init_and_sounds() {
    let data = build(|w| {
        w.write_string("vaudio_celt", None).unwrap();
        w.write_int(255u8, 8).unwrap();
        w.write_int(22050u16, 16).unwrap();
        w.write_string("steam", None).unwrap();
        w.write_int(3u8, 8).unwrap();
        w.write_bool(true).unwrap();
        w.write_int(4u8, 8).unwrap();
        w.write_int(0xfu8, 4).unwrap();
        w.write_bool(false).unwrap();
        w.write_int(9u8, 8).unwrap();
        w.write_int(3u16, 16).unwrap();
        w.write_int(5u8, 3).unwrap();
    });
    let mut stream = Stream::new(&data).unwrap();
    assert_eq!(
        VoiceInitMessage::read(&mut stream),
        Ok(VoiceInitMessage { codec: "vaudio_celt".to_string(), quality: 255, extra_data: 22050 })
    );
    assert_eq!(
        VoiceInitMessage::read(&mut stream),
        Ok(VoiceInitMessage { codec: "steam".to_string(), quality: 3, extra_data: 0 })
    );
    let reliable = ParseSoundsMessage::read(&mut stream).unwrap();
    assert_eq!((reliable.reliable, reliable.num, reliable.length), (true, 1, 4));
    assert_eq!(reliable.data.bit_len(), 4);
    let other = ParseSoundsMessage::read(&mut stream).unwrap();
    assert_eq!((other.reliable, other.num, other.length), (false, 9, 3));
    assert_eq!(stream.bits_left() < 8, true);
}

#[test]
fn decal() {
    let data = build(|w| {
        w.write_bool(true).unwrap();
        w.write_bool(false).unwrap();
        w.write_bool(true).unwrap();
        // x: whole part only, positive
        w.write_bool(true).unwrap();
        w.write_bool(false).unwrap();
        w.write_bool(false).unwrap();
        w.write_int(300u16, 13).unwrap();
        // z: nothing
        w.write_bool(false).unwrap();
        w.write_bool(false).unwrap();
        w.write_int(77u16, 9).unwrap();
        w.write_bool(true).unwrap();
        w.write_int(12u16, 11).unwrap();
        w.write_int(4000u16, 12).unwrap();
        w.write_bool(true).unwrap();
    });
    let message = BSPDecalMessage::read(&mut Stream::new(&data).unwrap()).unwrap();
    assert_eq!(message.position.x.unwrap().whole, 300);
    assert_eq!(message.position.y, None);
    assert_eq!(message.position.z.unwrap().has_whole, false);
    assert_eq!(message.texture_index, 77);
    assert!(message.on_entity);
    assert_eq!(message.ent_index, 12);
    assert_eq!(message.model_index, 4000);
    assert!(message.low_priority);
}

#[test]
fn temp_entities_and_numbers_of_varying_length() {
    let data = build(|w| {
        w.write_int(2u8, 8).unwrap();
        w.write_int(0x8cu8, 8).unwrap();
        w.write_int(0x01u8, 8).unwrap();
        w.write_bytes(&[0u8; 17]).unwrap();
        w.write_int(0x9u8, 4).unwrap();
        w.write_int(0xe5u8, 8).unwrap();
        w.write_int(0x8eu8, 8).unwrap();
        w.write_int(0x26u8, 8).unwrap();
        for byte in [0xffu8, 0xff, 0xff, 0xff, 0xff, 0x7f] {
            w.write_int(byte, 8).unwrap();
        }
    });
    let mut stream = Stream::new(&data).unwrap();
    let message = TempEntitiesMessage::read(&mut stream).unwrap();
    assert_eq!(message.count, 2);
    assert_eq!(message.length, 140);
    assert_eq!(message.data.bit_len(), 140);
    assert_eq!(stream.pos(), 8 + 16 + 140);
    assert_eq!(stream.read_var_int32(), Ok(624_485));
    assert_eq!(stream.read_var_int32(), Ok(u32::MAX));
    assert_eq!(stream.read_u8(), Ok(0x7f));
}

#[test]
fn message_is_told_by_its_tag() {
    let state = ParserState::new();
    let data = build(|w| {
        w.write_int(3u8, 6).unwrap();
        w.write_int(77u32, 32).unwrap();
        w.write_int(1u16, 16).unwrap();
        w.write_int(2u16, 16).unwrap();
        w.write_int(7u8, 6).unwrap();
        w.write_string("hello console", None).unwrap();
        w.write_int(11u8, 6).unwrap();
        w.write_bool(true).unwrap();
        w.write_int(23u8, 6).unwrap();
        w.write_int(6u8, 8).unwrap();
        w.write_int(8u16, 11).unwrap();
        w.write_int(0x42u8, 8).unwrap();
        w.write_int(9u8, 6).unwrap();
    });
    let mut stream = Stream::new(&data).unwrap();
    match Message::parse(&mut stream, &state).unwrap() {
        Message::NetTick(m) => assert_eq!(m.tick, 77),
        other => panic!("unexpected message {:?}", other),
    }
    let print = Message::parse(&mut stream, &state).unwrap();
    assert_eq!(print.get_message_type(), MessageType::Print);
    match print {
        Message::Print(m) => assert_eq!(m.value, "hello console"),
        other => panic!("unexpected message {:?}", other),
    }
    assert!(matches!(Message::parse(&mut stream, &state), Ok(Message::SetPause(_))));
    match Message::parse(&mut stream, &state).unwrap() {
        Message::UserMessage(m) => assert!(format!("{:?}", m).contains("ResetHUD")),
        other => panic!("unexpected message {:?}", other),
    }
    assert_eq!(
        Message::parse(&mut stream, &state).err(),
        Some(ParseError::UnknownMessageType(9))
    );
}

#[test]
fn message_needs_what_was_declared() {
    let state = ParserState::new();
    let event = build(|w| {
        w.write_int(25u8, 6).unwrap();
        w.write_int(9u16, 11).unwrap();
        w.write_int(4u16, 9).unwrap();
        w.write_int(0x3u8, 2).unwrap();
    });
    let mut stream = Stream::new(&event).unwrap();
    assert_eq!(Message::parse(&mut stream, &state).err(), Some(ParseError::UnknownEventId(4)));
    assert_eq!(stream.read_int(2), Ok(3));
    let update = build(|w| {
        w.write_int(13u8, 6).unwrap();
        w.write_int(2u8, 5).unwrap();
        w.write_bool(false).unwrap();
        w.write_int(0u32, 20).unwrap();
    });
    assert_eq!(
        Message::parse(&mut Stream::new(&update).unwrap(), &state).err(),
        Some(ParseError::StringTableNotFound(2))
    );
    let truncated = build(|w| w.write_int(8u8, 6).unwrap());
    assert_eq!(
        Message::parse(&mut Stream::new(&truncated).unwrap(), &state).err(),
        Some(ParseError::ReadOutOfBounds)
    );
}
