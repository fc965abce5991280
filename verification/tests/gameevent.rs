use bitbuffer::{BitWriteStream, LittleEndian};
use tf_demo_parser::demo::data::MaybeUtf8String;
use tf_demo_parser::demo::message::gameevent::{
    read_event_list, GameEvent, GameEventDescriptor, GameEventEntry, GameEventValue,
    GameEventValueType,
};
use tf_demo_parser::demo::parser::ParseError;
use tf_demo_parser::stream::{ReadError, Stream};

type Writer<'a> = BitWriteStream<'a, LittleEndian>;

fn build(f: impl FnOnce(&mut Writer)) -> Vec<u8> {
    let mut data = Vec::new();
    {
        let mut w = BitWriteStream::new(&mut data, LittleEndian);
        f(&mut w);
    }
    data
}

fn descriptor(id: u16, name: &str, entries: &[(&str, GameEventValueType)]) -> GameEventDescriptor {
    GameEventDescriptor {
        id,
        name: name.to_string(),
        entries: entries
            .iter()
            .map(|(name, kind)| GameEventEntry { name: name.to_string(), kind: *kind })
            .collect(),
    }
}

#[test]
fn value_type_numbers() {
    assert_eq!(GameEventValueType::from_u8(0), None);
    assert_eq!(GameEventValueType::from_u8(1), Some(GameEventValueType::String));
    assert_eq!(GameEventValueType::from_u8(2), Some(GameEventValueType::Float));
    assert_eq!(GameEventValueType::from_u8(3), Some(GameEventValueType::Long));
    assert_eq!(GameEventValueType::from_u8(4), Some(GameEventValueType::Short));
    assert_eq!(GameEventValueType::from_u8(5), Some(GameEventValueType::Byte));
    assert_eq!(GameEventValueType::from_u8(6), Some(GameEventValueType::Bool));
    assert_eq!(GameEventValueType::from_u8(7), Some(GameEventValueType::Uint64));
    assert_eq!(GameEventValueType::from_u8(8), None);
}

#[test]
fn event_list_declares_events() {
    let data = build(|w| {
        w.write_int(2u16, 9).unwrap();
        w.write_int(23u16, 9).unwrap();
        w.write_string("player_death", None).unwrap();
        w.write_int(4u8, 3).unwrap();
        w.write_string("userid", None).unwrap();
        w.write_int(1u8, 3).unwrap();
        w.write_string("weapon", None).unwrap();
        w.write_int(0u8, 3).unwrap();
        w.write_int(300u16, 9).unwrap();
        w.write_string("round_start", None).unwrap();
        w.write_int(0u8, 3).unwrap();
        w.write_int(0x7fu8, 7).unwrap();
    });
    let mut stream = Stream::new(&data).unwrap();
    let list = read_event_list(&mut stream).unwrap();
    assert_eq!(list.len(), 2);
    assert_eq!(list[0].id, 23);
    assert_eq!(list[0].name, "player_death");
    assert_eq!(list[0].entries.len(), 2);
    assert_eq!(list[0].entries[0].name, "userid");
    assert_eq!(list[0].entries[0].kind, GameEventValueType::Short);
    assert_eq!(list[0].entries[1].kind, GameEventValueType::String);
    assert_eq!(list[1].id, 300);
    assert!(list[1].entries.is_empty());
    assert_eq!(stream.read_int(7), Ok(0x7f));
}

#[test]
fn event_list_that_ends_early() {
    let data = build(|w| {
        w.write_int(2u16, 9).unwrap();
        w.write_int(5u16, 9).unwrap();
        w.write_string("x", None).unwrap();
        w.write_int(0u8, 3).unwrap();
    });
    let mut stream = Stream::new(&data).unwrap();
    assert_eq!(read_event_list(&mut stream).err(), Some(ParseError::ReadOutOfBounds));
}

#[test]
fn every_type_of_value() {
    let data = build(|w| {
        w.write_bool(true).unwrap();
        w.write_string("text", None).unwrap();
        w.write_int(1.5f32.to_bits(), 32).unwrap();
        w.write_int((-7i32) as u32, 32).unwrap();
        w.write_int((-2i16) as u16, 16).unwrap();
        w.write_int(200u8, 8).unwrap();
        w.write_bool(true).unwrap();
        w.write_int(u64::MAX - 1, 64).unwrap();
        w.write_int(2u16, 16).unwrap();
        w.write_int(0x263au16, 16).unwrap();
        w.write_int(0x0041u16, 16).unwrap();
    });
    let mut stream = Stream::new(&data).unwrap();
    assert_eq!(stream.read_bool(), Ok(true));
    let kinds = [
        (GameEventValueType::String, GameEventValue::String(MaybeUtf8String::Valid("text".into()))),
        (GameEventValueType::Float, GameEventValue::Float(1.5f32.to_bits())),
        (GameEventValueType::Long, GameEventValue::Long(-7)),
        (GameEventValueType::Short, GameEventValue::Short(-2)),
        (GameEventValueType::Byte, GameEventValue::Byte(200)),
        (GameEventValueType::Bool, GameEventValue::Boolean(true)),
        (GameEventValueType::Uint64, GameEventValue::Uint64(u64::MAX - 1)),
        (GameEventValueType::WString, GameEventValue::WString(vec![0x263a, 0x41])),
    ];
    for (kind, expected) in kinds {
        assert_eq!(GameEventValue::read(&mut stream, kind), Ok(expected));
    }
    assert_eq!(
        GameEventValue::read(&mut stream, GameEventValueType::Byte),
        Err(ReadError::NotEnoughData { requested: 8, bits_left: stream.bits_left() })
    );
}

#[test]
fn long_and_short_extremes() {
    let data = build(|w| {
        w.write_int(0x8000_0000u32, 32).unwrap();
        w.write_int(0x7fff_ffffu32, 32).unwrap();
        w.write_int(0x8000u16, 16).unwrap();
        w.write_int(0x7fffu16, 16).unwrap();
    });
    let mut stream = Stream::new(&data).unwrap();
    assert_eq!(
        GameEventValue::read(&mut stream, GameEventValueType::Long),
        Ok(GameEventValue::Long(i32::MIN))
    );
    assert_eq!(
        GameEventValue::read(&mut stream, GameEventValueType::Long),
        Ok(GameEventValue::Long(i32::MAX))
    );
    assert_eq!(
        GameEventValue::read(&mut stream, GameEventValueType::Short),
        Ok(GameEventValue::Short(i16::MIN))
    );
    assert_eq!(
        GameEventValue::read(&mut stream, GameEventValueType::Short),
        Ok(GameEventValue::Short(i16::MAX))
    );
}

#[test]
fn string_value_keeps_malformed_bytes() {
    let data = vec![0xfe, b'a', 0];
    let mut stream = Stream::new(&data).unwrap();
    assert_eq!(
        GameEventValue::read(&mut stream, GameEventValueType::String),
        Ok(GameEventValue::String(MaybeUtf8String::Invalid(vec![0xfe, b'a'])))
    );
}

fn event_message(id: u16, body: impl FnOnce(&mut Writer), body_bits: usize) -> Vec<u8> {
    let payload = build(|w| {
        w.write_int(id, 9).unwrap();
        body(w);
    });
    build(|w| {
        let bits = 9 + body_bits;
        w.write_int(bits as u16, 11).unwrap();
        let mut left = bits;
        for byte in &payload {
            let n = left.min(8);
            w.write_int(*byte, n).unwrap();
            left -= n;
        }
        w.write_int(0xc3u8, 8).unwrap();
    })
}

#[test]
fn event_is_decoded_by_its_declaration() {
    let list = vec![
        descriptor(1, "other", &[("a", GameEventValueType::Byte)]),
        descriptor(
            23,
            "player_death",
            &[("userid", GameEventValueType::Short), ("crit", GameEventValueType::Bool)],
        ),
    ];
    let data = event_message(
        23,
        |w| {
            w.write_int(515u16, 16).unwrap();
            w.write_bool(true).unwrap();
            w.write_int(0u8, 3).unwrap();
        },
        20,
    );
    let mut stream = Stream::new(&data).unwrap();
    let event = GameEvent::read_message(&mut stream, &list).unwrap();
    assert_eq!(event.id, 23);
    assert_eq!(event.values, vec![GameEventValue::Short(515), GameEventValue::Boolean(true)]);
    assert_eq!(stream.pos(), 11 + 29);
    assert_eq!(stream.read_u8(), Ok(0xc3));
}

#[test]
fn first_declaration_with_the_id_decides() {
    let list = vec![
        descriptor(4, "first", &[("a", GameEventValueType::Byte)]),
        descriptor(4, "second", &[("a", GameEventValueType::Long)]),
    ];
    assert_eq!(GameEvent::find(&list, 4), Some(0));
    assert_eq!(GameEvent::find(&list, 5), None);
    assert_eq!(GameEvent::find(&Vec::new(), 4), None);
}

#[test]
fn undeclared_event_is_refused_but_passed_over() {
    let list = vec![descriptor(1, "other", &[])];
    let data = event_message(77, |w| w.write_int(0u16, 16).unwrap(), 16);
    let mut stream = Stream::new(&data).unwrap();
    assert_eq!(
        GameEvent::read_message(&mut stream, &list).err(),
        Some(ParseError::UnknownEventId(77))
    );
    assert_eq!(stream.read_u8(), Ok(0xc3));
}

#[test]
fn event_shorter_than_its_declaration_is_malformed() {
    let list = vec![descriptor(2, "e", &[("a", GameEventValueType::Long)])];
    let data = event_message(2, |w| w.write_int(0u16, 16).unwrap(), 16);
    let mut stream = Stream::new(&data).unwrap();
    assert_eq!(
        GameEvent::read_message(&mut stream, &list).err(),
        Some(ParseError::MalformedGameEvent)
    );
    assert_eq!(stream.read_u8(), Ok(0xc3));
    let tiny = build(|w| w.write_int(4u16, 11).unwrap());
    let mut stream = Stream::new(&tiny).unwrap();
    assert_eq!(
        GameEvent::read_message(&mut stream, &list).err(),
        Some(ParseError::MalformedGameEvent)
    );
}

#[test]
fn event_message_longer_than_the_data() {
    let data = build(|w| w.write_int(100u16, 11).unwrap());
    let mut stream = Stream::new(&data).unwrap();
    assert_eq!(
        GameEvent::read_message(&mut stream, &Vec::new()).err(),
        Some(ParseError::ReadOutOfBounds)
    );
    assert_eq!(stream.pos(), 11);
}
