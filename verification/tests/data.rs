use tf_demo_parser::demo::data::MaybeUtf8String;
use tf_demo_parser::stream::Stream;
use tf_demo_parser::writer::Writer;

#[test]
fn reads_valid_text() {
    let data = b"sv_cheats\0tail".to_vec();
    let mut s = Stream::new(&data).unwrap();
    let value = MaybeUtf8String::read(&mut s).unwrap();
    assert_eq!(value, MaybeUtf8String::Valid("sv_cheats".to_string()));
    assert_eq!(value.as_bytes(), b"sv_cheats");
    assert_eq!(s.pos(), 10 * 8);
}

#[test]
fn keeps_every_byte_of_malformed_text() {
    let data = vec![b'b', b'a', 129, b'c', 0, b'x', 0];
    let mut s = Stream::new(&data).unwrap();
    let value = MaybeUtf8String::read(&mut s).unwrap();
    assert_eq!(value, MaybeUtf8String::Invalid(vec![b'b', b'a', 129, b'c']));
    assert_eq!(value.as_bytes(), &[b'b', b'a', 129, b'c']);
    assert_eq!(s.pos(), 5 * 8);
    assert_eq!(
        MaybeUtf8String::read(&mut s).unwrap(),
        MaybeUtf8String::Valid("x".to_string())
    );
}

#[test]
fn malformed_text_without_terminator() {
    let data = vec![0xff, 0xfe];
    let mut s = Stream::new(&data).unwrap();
    let value = MaybeUtf8String::read(&mut s).unwrap();
    assert_eq!(value, MaybeUtf8String::Invalid(vec![0xff, 0xfe]));
    assert_eq!(s.bits_left(), 0);
}

#[test]
fn malformed_text_at_unaligned_position() {
    let mut data = Vec::new();
    {
        let mut w = Writer::new(&mut data);
        w.write_int(0b101, 3);
        MaybeUtf8String::Invalid(vec![0xc3, 0x28, b'!']).write(&mut w);
        w.write_int(0x7f, 7);
    }
    let mut s = Stream::new(&data).unwrap();
    assert_eq!(s.read_int(3), Ok(0b101));
    let value = MaybeUtf8String::read(&mut s).unwrap();
    assert_eq!(value, MaybeUtf8String::Invalid(vec![0xc3, 0x28, b'!']));
    assert_eq!(s.read_int(7), Ok(0x7f));
}

#[test]
fn written_string_reads_back() {
    let samples: Vec<Vec<u8>> = vec![
        vec![],
        b"plain".to_vec(),
        "grüße, мир".as_bytes().to_vec(),
        vec![0x80],
        vec![b'a', 0xff, b'b', 0xc0],
    ];
    for bytes in samples {
        let value = match String::from_utf8(bytes.clone()) {
            Ok(text) => MaybeUtf8String::Valid(text),
            Err(_) => MaybeUtf8String::Invalid(bytes.clone()),
        };
        let mut data = Vec::new();
        let written = {
            let mut w = Writer::new(&mut data);
            value.write(&mut w);
            w.bit_len()
        };
        assert_eq!(written, (bytes.len() + 1) * 8);
        let mut s = Stream::new(&data).unwrap();
        let back = MaybeUtf8String::read(&mut s).unwrap();
        assert_eq!(back, value);
        assert_eq!(back.as_bytes(), bytes.as_slice());
        assert_eq!(s.pos(), written);
    }
}

#[test]
fn text_of_malformed_bytes_is_a_notice() {
    let bad = MaybeUtf8String::Invalid(vec![0xff]);
    assert_eq!(bad.as_ref(), "-- Malformed utf8 --");
    assert_eq!(bad.into_string(), "-- Malformed utf8 --".to_string());
    let good = MaybeUtf8String::Valid("ok".to_string());
    assert_eq!(good.as_ref(), "ok");
    assert_eq!(good.into_string(), "ok".to_string());
}

#[test]
fn default_and_from_str() {
    assert_eq!(MaybeUtf8String::default(), MaybeUtf8String::Valid(String::new()));
    assert_eq!(
        MaybeUtf8String::from("abc"),
        MaybeUtf8String::Valid("abc".to_string())
    );
    assert_eq!(MaybeUtf8String::from("abc").as_bytes(), b"abc");
}
