use bitbuffer::{BitWriteStream, LittleEndian};
use tf_demo_parser::demo::message::usermessage::{
    clean_chat_text, HudTextLocation, ResetHudMessage, SayText2Kind, SayText2Message,
    ShakeMessage, TextMessage, TrainMessage, UserMessage, UserMessageType, VoiceSubtitleMessage,
};
use tf_demo_parser::stream::{ReadError, Stream};

fn user_message(kind: u8, payload: &[u8], payload_bits: usize, tail: u8) -> Vec<u8> {
    let mut data = Vec::new();
    {
        let mut w = BitWriteStream::new(&mut data, LittleEndian);
        w.write_int(kind, 8).unwrap();
        w.write_int(payload_bits as u16, 11).unwrap();
        let mut left = payload_bits;
        for byte in payload {
            let n = left.min(8);
            w.write_int(*byte, n).unwrap();
            left -= n;
        }
        w.write_int(tail, 8).unwrap();
    }
    data
}

fn classic_chat(kind: &str, from: &str, text: &[u8]) -> Vec<u8> {
    let mut payload = vec![2u8, 1u8];
    payload.extend_from_slice(kind.as_bytes());
    payload.push(0);
    payload.extend_from_slice(from.as_bytes());
    payload.push(0);
    payload.extend_from_slice(text);
    payload.push(0);
    payload.extend_from_slice(&[0, 0]);
    payload
}

#[test]
fn user_message_type_numbers() {
    assert_eq!(UserMessageType::from_u8(0), Some(UserMessageType::Geiger));
    assert_eq!(UserMessageType::from_u8(4), Some(UserMessageType::SayText2));
    assert_eq!(UserMessageType::from_u8(5), Some(UserMessageType::TextMsg));
    assert_eq!(UserMessageType::from_u8(10), Some(UserMessageType::Shake));
    assert_eq!(UserMessageType::from_u8(25), Some(UserMessageType::VoiceSubtitle));
    assert_eq!(UserMessageType::from_u8(57), Some(UserMessageType::HapMeleeContact));
    assert_eq!(UserMessageType::from_u8(58), None);
    assert_eq!(UserMessageType::from_u8(254), None);
    assert_eq!(UserMessageType::from_u8(255), Some(UserMessageType::Unknown));
}

#[test]
fn user_message_type_round_trip() {
    for raw in 0..=255u8 {
        match UserMessageType::from_u8(raw) {
            Some(kind) => assert_eq!(kind.to_u8(), raw),
            None => assert!(raw > 57 && raw < 255),
        }
    }
}

#[test]
fn say_text_kind_names() {
    assert_eq!(SayText2Kind::from_name("TF_Chat_Team"), SayText2Kind::ChatTeam);
    assert_eq!(SayText2Kind::from_name("TF_Chat_AllDead"), SayText2Kind::ChatAllDead);
    assert_eq!(SayText2Kind::from_name("#TF_Name_Change"), SayText2Kind::NameChange);
    assert_eq!(SayText2Kind::from_name("TF_Chat_All"), SayText2Kind::ChatAll);
    assert_eq!(SayText2Kind::from_name(""), SayText2Kind::ChatAll);
    let data = b"TF_Chat_Team\0".to_vec();
    let mut s = Stream::new(&data).unwrap();
    assert_eq!(SayText2Kind::read(&mut s), Ok(SayText2Kind::ChatTeam));
    assert_eq!(s.bits_left(), 0);
}

#[test]
fn classic_chat_line() {
    let payload = classic_chat("TF_Chat_Team", "player one", b"hello team");
    let mut s = Stream::new(&payload).unwrap();
    let m = SayText2Message::read(&mut s).unwrap();
    assert_eq!(m.client, 2);
    assert_eq!(m.raw, 1);
    assert_eq!(m.kind, SayText2Kind::ChatTeam);
    assert_eq!(m.from, "player one");
    assert_eq!(m.text, "hello team");
    assert_eq!(s.bits_left(), 0);
}

#[test]
fn classic_chat_line_with_unknown_kind_is_chat_all() {
    let payload = classic_chat("TF_Chat_All", "a", b"b");
    let mut s = Stream::new(&payload).unwrap();
    let m = SayText2Message::read(&mut s).unwrap();
    assert_eq!(m.kind, SayText2Kind::ChatAll);
    assert_eq!(m.from, "a");
    assert_eq!(m.text, "b");
}

#[test]
fn classic_chat_line_needs_its_sixteen_trailing_bits() {
    let mut payload = classic_chat("TF_Chat_Team", "a", b"b");
    payload.pop();
    let mut s = Stream::new(&payload).unwrap();
    assert_eq!(
        SayText2Message::read(&mut s).err(),
        Some(ReadError::NotEnoughData { requested: 16, bits_left: 8 })
    );
}

#[test]
fn inline_chat_line_with_colour() {
    let mut payload = vec![3u8, 0u8, 1u8, 7u8];
    payload.extend_from_slice(b"FF00AA");
    payload.extend_from_slice("\u{3}player\u{1} :  grüß \u{7}00ff00dich".as_bytes());
    payload.push(0);
    let mut s = Stream::new(&payload).unwrap();
    let m = SayText2Message::read(&mut s).unwrap();
    assert_eq!(m.client, 3);
    assert_eq!(m.raw, 0);
    assert_eq!(m.kind, SayText2Kind::ChatAll);
    assert_eq!(m.from, "");
    assert_eq!(m.text, "player :  grüß dich");
    assert_eq!(s.bits_left(), 0);
}

#[test]
fn inline_chat_line_without_colour_skips_a_byte() {
    let mut payload = vec![3u8, 0u8, 1u8, 4u8, 99u8];
    payload.extend_from_slice(b"just text");
    payload.push(0);
    let mut s = Stream::new(&payload).unwrap();
    let m = SayText2Message::read(&mut s).unwrap();
    assert_eq!(m.kind, SayText2Kind::ChatAll);
    assert_eq!(m.text, "just text");
}

#[test]
fn inline_chat_line_of_dead_player() {
    let mut payload = vec![9u8, 1u8, 1u8, 0u8, 0u8];
    payload.extend_from_slice("*DEAD* \u{3}ghost\u{1} :  boo".as_bytes());
    payload.push(0);
    let mut s = Stream::new(&payload).unwrap();
    let m = SayText2Message::read(&mut s).unwrap();
    assert_eq!(m.kind, SayText2Kind::ChatAllDead);
    assert_eq!(m.from, "ghost");
    assert_eq!(m.text, "boo");
}

#[test]
fn dead_line_without_marks() {
    let mut payload = vec![9u8, 1u8, 1u8, 0u8, 0u8];
    payload.extend_from_slice(b"*DEAD* nothing else");
    payload.push(0);
    let mut s = Stream::new(&payload).unwrap();
    let m = SayText2Message::read(&mut s).unwrap();
    assert_eq!(m.kind, SayText2Kind::ChatAllDead);
    assert_eq!(m.from, "");
    assert_eq!(m.text, "* nothing else");
}

#[test]
fn bad_utf8_in_chat_line_is_an_error() {
    let payload = classic_chat("TF_Chat_Team", "a", &[0xff, 0xfe]);
    let mut s = Stream::new(&payload).unwrap();
    assert_eq!(
        SayText2Message::read(&mut s).err(),
        Some(ReadError::Utf8Error(3))
    );
}

#[test]
fn colour_code_that_cuts_a_character_is_an_error() {
    let mut text = vec![b'a', 7, b'1', b'2', b'3', b'4', b'5'];
    text.extend_from_slice("é".as_bytes());
    assert_eq!(text.len(), 9);
    let text = String::from_utf8(text).unwrap();
    assert_eq!(clean_chat_text(&text), Err(ReadError::Utf8Error(2)));
}

#[test]
fn clean_text_examples() {
    assert_eq!(clean_chat_text(""), Ok(String::new()));
    assert_eq!(clean_chat_text("plain"), Ok("plain".to_string()));
    assert_eq!(clean_chat_text("\u{1}a\u{3}b\u{1}"), Ok("ab".to_string()));
    assert_eq!(
        clean_chat_text("\u{7}ff0000red\u{7}00ff00green"),
        Ok("redgreen".to_string())
    );
    assert_eq!(clean_chat_text("end\u{7}abc"), Ok("end".to_string()));
    assert_eq!(clean_chat_text("\u{7}\u{1}123456x"), Ok("x".to_string()));
    assert_eq!(clean_chat_text("\u{7}12345\u{7}abcdefg"), Ok("abcdefg".to_string()));
    assert_eq!(clean_chat_text("\u{7}123456\u{7}abcdefg"), Ok("g".to_string()));
}

#[test]
fn text_message() {
    let mut payload = vec![3u8];
    payload.extend_from_slice(b"#game_text\0one\0two\0\0four\0");
    let mut s = Stream::new(&payload).unwrap();
    let m = TextMessage::read(&mut s).unwrap();
    assert_eq!(m.location, HudTextLocation::PrintTalk);
    assert_eq!(m.text, "#game_text");
    assert_eq!(
        m.substitute,
        vec!["one".to_string(), "two".to_string(), String::new(), "four".to_string()]
    );
    assert_eq!(s.bits_left(), 0);
}

#[test]
fn hud_text_location_numbers() {
    let expected = [
        (1u8, Ok(HudTextLocation::PrintNotify)),
        (2, Ok(HudTextLocation::PrintConsole)),
        (3, Ok(HudTextLocation::PrintTalk)),
        (4, Ok(HudTextLocation::PrintCenter)),
        (0, Err(ReadError::UnmatchedDiscriminant { discriminant: 0 })),
        (5, Err(ReadError::UnmatchedDiscriminant { discriminant: 5 })),
    ];
    for (raw, result) in expected {
        let data = [raw];
        let mut s = Stream::new(&data).unwrap();
        assert_eq!(HudTextLocation::read(&mut s), result);
    }
    let empty: [u8; 0] = [];
    let mut s = Stream::new(&empty).unwrap();
    assert_eq!(
        HudTextLocation::read(&mut s),
        Err(ReadError::NotEnoughData { requested: 8, bits_left: 0 })
    );
}

#[test]
fn small_messages() {
    let data = [7u8, 8, 9];
    let mut s = Stream::new(&data).unwrap();
    assert_eq!(ResetHudMessage::read(&mut s), Ok(ResetHudMessage { data: 7 }));
    assert_eq!(TrainMessage::read(&mut s), Ok(TrainMessage { data: 8 }));
    assert_eq!(s.pos(), 16);
    let mut s = Stream::new(&data).unwrap();
    assert_eq!(
        VoiceSubtitleMessage::read(&mut s),
        Ok(VoiceSubtitleMessage { client: 7, menu: 8, item: 9 })
    );
    assert_eq!(
        VoiceSubtitleMessage::read(&mut s),
        Err(ReadError::NotEnoughData { requested: 8, bits_left: 0 })
    );
}

#[test]
fn shake_message_keeps_the_bits_of_its_numbers() {
    let mut data = vec![1u8];
    data.extend_from_slice(&25.0f32.to_le_bytes());
    data.extend_from_slice(&150.0f32.to_le_bytes());
    data.extend_from_slice(&1.5f32.to_le_bytes());
    let mut s = Stream::new(&data).unwrap();
    let m = ShakeMessage::read(&mut s).unwrap();
    assert_eq!(m.command, 1);
    assert_eq!(f32::from_bits(m.amplitude), 25.0);
    assert_eq!(f32::from_bits(m.frequency), 150.0);
    assert_eq!(f32::from_bits(m.duration), 1.5);
}

#[test]
fn user_message_ends_where_its_length_says() {
    let payload = [5u8, 0xff, 0xff];
    let data = user_message(6, &payload, 24, 0xa5);
    let mut s = Stream::new(&data).unwrap();
    match UserMessage::read(&mut s).unwrap() {
        UserMessage::ResetHUD(m) => assert_eq!(m.data, 5),
        other => panic!("unexpected message {:?}", other),
    }
    assert_eq!(s.pos(), 8 + 11 + 24);
    assert_eq!(s.read_u8(), Ok(0xa5));
}

#[test]
fn user_message_with_chat_line() {
    let payload = classic_chat("#TF_Name_Change", "old", b"new");
    let data = user_message(4, &payload, payload.len() * 8, 0x11);
    let mut s = Stream::new(&data).unwrap();
    match UserMessage::read(&mut s).unwrap() {
        UserMessage::SayText2(m) => {
            assert_eq!(m.kind, SayText2Kind::NameChange);
            assert_eq!(m.from, "old");
            assert_eq!(m.text, "new");
        }
        other => panic!("unexpected message {:?}", other),
    }
    assert_eq!(s.read_u8(), Ok(0x11));
}

#[test]
fn empty_chat_body_does_not_shift_what_follows() {
    let mut payload = vec![1u8, 0u8, 1u8, 0u8, 0u8];
    payload.push(0);
    let data = user_message(4, &payload, payload.len() * 8, 0x3c);
    let mut s = Stream::new(&data).unwrap();
    match UserMessage::read(&mut s).unwrap() {
        UserMessage::SayText2(m) => {
            assert_eq!(m.kind, SayText2Kind::ChatAll);
            assert_eq!(m.from, "");
            assert_eq!(m.text, "");
        }
        other => panic!("unexpected message {:?}", other),
    }
    assert_eq!(s.pos(), 19 + 48);
    assert_eq!(s.read_u8(), Ok(0x3c));
}

#[test]
fn broken_payload_still_moves_past_the_message() {
    let payload = [3u8];
    let data = user_message(25, &payload, 8, 0x77);
    let mut s = Stream::new(&data).unwrap();
    assert_eq!(
        UserMessage::read(&mut s).err(),
        Some(ReadError::NotEnoughData { requested: 8, bits_left: 0 })
    );
    assert_eq!(s.pos(), 19 + 8);
    assert_eq!(s.read_u8(), Ok(0x77));
}

#[test]
fn unknown_user_message_keeps_its_bits() {
    let payload = [0b1010_1010u8, 0b0000_0101];
    let data = user_message(40, &payload, 11, 0xee);
    let mut s = Stream::new(&data).unwrap();
    match UserMessage::read(&mut s).unwrap() {
        UserMessage::Unknown(mut m) => {
            assert_eq!(m.data.bit_len(), 11);
            assert_eq!(m.data.pos(), 0);
            assert_eq!(m.data.read_int(11), Ok(0b101_1010_1010));
        }
        other => panic!("unexpected message {:?}", other),
    }
    assert_eq!(s.pos(), 19 + 11);
    assert_eq!(s.read_u8(), Ok(0xee));
    let nameless = user_message(200, &payload, 16, 0);
    let mut s = Stream::new(&nameless).unwrap();
    assert!(matches!(UserMessage::read(&mut s), Ok(UserMessage::Unknown(_))));
}

#[test]
fn user_message_with_short_header_or_payload() {
    let data = [4u8, 0xff];
    let mut s = Stream::new(&data).unwrap();
    assert_eq!(
        UserMessage::read(&mut s).err(),
        Some(ReadError::NotEnoughData { requested: 11, bits_left: 8 })
    );
    let data = user_message(6, &[1], 8, 0);
    let cut = &data[..3];
    let mut s = Stream::new(cut).unwrap();
    assert_eq!(
        UserMessage::read(&mut s).err(),
        Some(ReadError::NotEnoughData { requested: 8, bits_left: 5 })
    );
    assert_eq!(s.pos(), 19);
}

#[test]
fn chat_with_malformed_text_is_kept_as_it_came() {
    let payload = classic_chat("TF_Chat_Team", "player", &[b'h', 0xff, b'i']);
    let data = user_message(4, &payload, payload.len() * 8, 0x42);
    let mut s = Stream::new(&data).unwrap();
    match UserMessage::read(&mut s).unwrap() {
        UserMessage::Unknown(mut m) => {
            assert_eq!(m.data.pos(), 0);
            assert_eq!(m.data.bit_len(), payload.len() * 8);
            assert_eq!(m.data.read_bytes(payload.len()), Ok(payload.clone()));
        }
        other => panic!("unexpected message {:?}", other),
    }
    assert_eq!(s.pos(), 19 + payload.len() * 8);
    assert_eq!(s.read_u8(), Ok(0x42));
    let mut text = vec![3u8];
    text.extend_from_slice(&[0xc3, 0]);
    text.push(0);
    let data = user_message(5, &text, text.len() * 8, 0x43);
    let mut s = Stream::new(&data).unwrap();
    assert!(matches!(UserMessage::read(&mut s), Ok(UserMessage::Unknown(_))));
    assert_eq!(s.read_u8(), Ok(0x43));
}
