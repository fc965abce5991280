use bitbuffer::{BitWriteStream, LittleEndian};
use tf_demo_parser::stream::{ReadError, Stream, MAX_BUFFER_BYTES};
use tf_demo_parser::writer::Writer;

const SAMPLE: [u8; 8] = [
    0b1011_0101,
    0b0110_1010,
    0b1010_1100,
    0b1001_1001,
    0b1001_1001,
    0b1001_1001,
    0b1001_1001,
    0b1110_0111,
];

#[test]
fn new_stream_starts_at_zero() {
    let s = Stream::new(&SAMPLE).unwrap();
    assert_eq!(s.pos(), 0);
    assert_eq!(s.bit_len(), 64);
    assert_eq!(s.bits_left(), 64);
}

#[test]
fn max_buffer_is_far_from_overflow() {
    assert!((MAX_BUFFER_BYTES as u64) * 8 + 64 < u32::MAX as u64);
}

#[test]
fn read_bool_takes_lowest_bit_first() {
    let mut s = Stream::new(&SAMPLE).unwrap();
    assert_eq!(s.read_bool(), Ok(true));
    assert_eq!(s.read_bool(), Ok(false));
    assert_eq!(s.read_bool(), Ok(true));
    assert_eq!(s.pos(), 3);
}

#[test]
fn read_bool_at_end_fails() {
    let data = [1u8];
    let mut s = Stream::new(&data).unwrap();
    s.skip_bits(8).unwrap();
    assert_eq!(
        s.read_bool(),
        Err(ReadError::NotEnoughData { requested: 1, bits_left: 0 })
    );
    assert_eq!(s.pos(), 8);
}

#[test]
fn read_int_is_little_endian_bitwise() {
    let mut s = Stream::new(&SAMPLE).unwrap();
    assert_eq!(s.read_int(3), Ok(0b101));
    assert_eq!(s.read_int(3), Ok(0b110));
    assert_eq!(s.pos(), 6);
    assert_eq!(s.read_int(9), Ok((u64::from_le_bytes(SAMPLE) >> 6) & 0x1ff));
    assert_eq!((u64::from_le_bytes(SAMPLE) >> 6) & 0x1ff, 426);
    assert_eq!(s.pos(), 15);
}

#[test]
fn read_int_across_many_bytes() {
    let mut s = Stream::new(&SAMPLE).unwrap();
    s.skip_bits(3).unwrap();
    let expected = (u64::from_le_bytes(SAMPLE) >> 3) & ((1u64 << 58) - 1);
    assert_eq!(s.read_int(58), Ok(expected));
    assert_eq!(s.bits_left(), 3);
}

#[test]
fn read_int_of_64_bits() {
    let mut s = Stream::new(&SAMPLE).unwrap();
    assert_eq!(s.read_int(64), Ok(u64::from_le_bytes(SAMPLE)));
    assert_eq!(s.read_int(0), Ok(0));
}

#[test]
fn read_int_refuses_more_than_64_bits() {
    let mut s = Stream::new(&SAMPLE).unwrap();
    assert_eq!(
        s.read_int(65),
        Err(ReadError::TooManyBits { requested: 65, max: 64 })
    );
    assert_eq!(s.pos(), 0);
}

#[test]
fn read_int_past_end_leaves_cursor() {
    let mut s = Stream::new(&SAMPLE).unwrap();
    s.skip_bits(60).unwrap();
    assert_eq!(
        s.read_int(5),
        Err(ReadError::NotEnoughData { requested: 5, bits_left: 4 })
    );
    assert_eq!(s.pos(), 60);
    assert_eq!(s.read_int(4), Ok(0b1110));
}

#[test]
fn read_fixed_width_numbers() {
    let mut s = Stream::new(&SAMPLE).unwrap();
    assert_eq!(s.read_u8(), Ok(0b1011_0101));
    assert_eq!(s.read_u16(), Ok(0b1010_1100_0110_1010));
    assert_eq!(s.read_u32(), Ok(0x9999_9999));
    assert_eq!(
        s.read_u16(),
        Err(ReadError::NotEnoughData { requested: 16, bits_left: 8 })
    );
    assert_eq!(s.read_u8(), Ok(0b1110_0111));
}

#[test]
fn read_bytes_aligned_and_unaligned() {
    let mut s = Stream::new(&SAMPLE).unwrap();
    assert_eq!(s.read_bytes(2), Ok(vec![0b1011_0101, 0b0110_1010]));
    let mut s = Stream::new(&SAMPLE).unwrap();
    s.skip_bits(5).unwrap();
    assert_eq!(
        s.read_bytes(3),
        Ok(vec![0b0_1010_101, 0b0_1100_011, 0b1_1001_101])
    );
    assert_eq!(s.pos(), 29);
}

#[test]
fn read_bytes_past_end() {
    let mut s = Stream::new(&SAMPLE).unwrap();
    s.skip_bits(4).unwrap();
    assert_eq!(
        s.read_bytes(8),
        Err(ReadError::NotEnoughData { requested: 64, bits_left: 60 })
    );
    assert_eq!(s.pos(), 4);
    assert_eq!(
        s.read_bytes(usize::MAX),
        Err(ReadError::NotEnoughData { requested: usize::MAX, bits_left: 60 })
    );
}

#[test]
fn set_pos_and_skip() {
    let mut s = Stream::new(&SAMPLE).unwrap();
    assert_eq!(s.set_pos(64), Ok(()));
    assert_eq!(s.bits_left(), 0);
    assert_eq!(
        s.set_pos(65),
        Err(ReadError::IndexOutOfBounds { pos: 65, size: 64 })
    );
    assert_eq!(s.pos(), 64);
    assert_eq!(s.set_pos(3), Ok(()));
    assert_eq!(s.read_int(3), Ok(0b110));
    assert_eq!(
        s.skip_bits(59),
        Err(ReadError::NotEnoughData { requested: 59, bits_left: 58 })
    );
    assert_eq!(s.pos(), 6);
}

#[test]
fn read_string_stops_at_nul() {
    let data = b"Hello world\0rest".to_vec();
    let mut s = Stream::new(&data).unwrap();
    assert_eq!(s.read_string(), Ok("Hello world".to_string()));
    assert_eq!(s.pos(), 12 * 8);
    assert_eq!(s.read_string(), Ok("rest".to_string()));
    assert_eq!(s.bits_left(), 0);
    assert_eq!(s.read_string(), Ok(String::new()));
}

#[test]
fn read_string_unaligned() {
    let mut data = Vec::new();
    {
        let mut w = BitWriteStream::new(&mut data, LittleEndian);
        w.write_int(5u8, 3).unwrap();
        w.write_string("héllo wörld, longer than a word", None).unwrap();
        w.write_int(0x1234u16, 16).unwrap();
    }
    let mut s = Stream::new(&data).unwrap();
    assert_eq!(s.read_int(3), Ok(5));
    assert_eq!(s.read_string(), Ok("héllo wörld, longer than a word".to_string()));
    assert_eq!(s.read_u16(), Ok(0x1234));
}

#[test]
fn read_string_without_terminator_takes_what_is_left() {
    let mut data = Vec::new();
    {
        let mut w = BitWriteStream::new(&mut data, LittleEndian);
        w.write_int(3u32, 3).unwrap();
        w.write_string("dummy content", None).unwrap();
    }
    let mut s = Stream::new(&data).unwrap();
    assert_eq!(s.read_int(3), Ok(3));
    let mut sub = s.read_bits(5 * 8).unwrap();
    assert_eq!(sub.read_string(), Ok("dummy".to_string()));
    assert_eq!(sub.pos(), 5 * 8);
    assert_eq!(s.pos(), 3 + 5 * 8);
}

#[test]
fn read_string_in_window_that_ends_inside_a_byte() {
    let mut data = Vec::new();
    {
        let mut w = BitWriteStream::new(&mut data, LittleEndian);
        w.write_string("abcdef", None).unwrap();
    }
    let mut s = Stream::new(&data).unwrap();
    let mut sub = s.read_bits(2 * 8 + 5).unwrap();
    assert_eq!(sub.read_string(), Ok("ab".to_string()));
    assert_eq!(sub.pos(), 16);
    assert_eq!(sub.bits_left(), 5);
}

#[test]
fn read_string_reports_bytes_consumed_on_bad_utf8() {
    let data = vec![b'b', b'a', 129, b'c', 0, 0, 0];
    let mut s = Stream::new(&data).unwrap();
    assert_eq!(s.read_string(), Err(ReadError::Utf8Error(5)));
    assert_eq!(s.pos(), 5 * 8);
    let unterminated = vec![b'b', 129];
    let mut s = Stream::new(&unterminated).unwrap();
    assert_eq!(s.read_string(), Err(ReadError::Utf8Error(2)));
    assert_eq!(s.pos(), 16);
}

#[test]
fn read_sized_string_cuts_at_first_nul() {
    let mut data = b"Hello world".to_vec();
    data.extend_from_slice(&[0, 0, 0, 0, 0]);
    let mut s = Stream::new(&data).unwrap();
    assert_eq!(s.read_sized_string(11), Ok("Hello world".to_string()));
    assert_eq!(s.pos(), 11 * 8);
    let mut s = Stream::new(&data).unwrap();
    assert_eq!(s.read_sized_string(16), Ok("Hello world".to_string()));
    assert_eq!(s.pos(), 16 * 8);
    let inner = b"ab\0cd\0".to_vec();
    let mut s = Stream::new(&inner).unwrap();
    assert_eq!(s.read_sized_string(6), Ok("ab".to_string()));
    assert_eq!(s.bits_left(), 0);
}

#[test]
fn read_sized_string_errors() {
    let data = vec![b'a', 200, 0, b'z'];
    let mut s = Stream::new(&data).unwrap();
    assert_eq!(s.read_sized_string(4), Err(ReadError::Utf8Error(4)));
    assert_eq!(s.pos(), 32);
    let mut s = Stream::new(&data).unwrap();
    assert_eq!(
        s.read_sized_string(5),
        Err(ReadError::NotEnoughData { requested: 40, bits_left: 32 })
    );
    assert_eq!(s.pos(), 0);
}

#[test]
fn read_bits_gives_independent_window() {
    let mut s = Stream::new(&SAMPLE).unwrap();
    let mut bits = s.read_bits(3).unwrap();
    assert_eq!(s.pos(), 3);
    assert_eq!(bits.pos(), 0);
    assert_eq!(bits.bit_len(), 3);
    assert_eq!(s.read_int(3), Ok(0b110));
    assert_eq!(bits.read_int(3), Ok(0b101));
    assert!(bits.read_int(1).is_err());
    assert_eq!(
        s.read_bits(59).err(),
        Some(ReadError::NotEnoughData { requested: 59, bits_left: 58 })
    );
}

#[test]
fn writer_appends_bits_in_reading_order() {
    let mut data = Vec::new();
    {
        let mut w = Writer::new(&mut data);
        w.write_bool(true);
        w.write_int(0b10, 2);
        w.write_int(0xffff_ffff_ffff_fff6, 3);
        w.write_bytes(&[0xab, 0xcd]);
        w.write_int(0x0123_4567_89ab_cdef, 64);
        assert_eq!(w.bit_len(), 1 + 2 + 3 + 16 + 64);
    }
    let mut s = Stream::new(&data).unwrap();
    assert_eq!(s.read_bool(), Ok(true));
    assert_eq!(s.read_int(2), Ok(0b10));
    assert_eq!(s.read_int(3), Ok(0b110));
    assert_eq!(s.read_bytes(2), Ok(vec![0xab, 0xcd]));
    assert_eq!(s.read_int(64), Ok(0x0123_4567_89ab_cdef));
}

#[test]
fn written_number_reads_back_for_every_width() {
    for width in 0..=64usize {
        let value: u64 = if width == 64 {
            0xdead_beef_cafe_f00d
        } else {
            0xdead_beef_cafe_f00d & ((1u64 << width) - 1)
        };
        let mut data = Vec::new();
        {
            let mut w = Writer::new(&mut data);
            w.write_int(1, 5);
            w.write_int(value, width);
        }
        let mut s = Stream::new(&data).unwrap();
        assert_eq!(s.read_int(5), Ok(1));
        assert_eq!(s.read_int(width), Ok(value));
        assert_eq!(s.pos(), 5 + width);
    }
}

#[test]
fn signed_numbers_read_back() {
    let cases: [(i64, usize); 10] = [
        (0, 1),
        (-1, 1),
        (-1, 64),
        (i64::MIN, 64),
        (i64::MAX, 64),
        (-10, 9),
        (255, 9),
        (-256, 9),
        (-2, 2),
        (1, 2),
    ];
    for (value, width) in cases {
        let mut data = Vec::new();
        {
            let mut w = Writer::new(&mut data);
            w.write_int(5, 3);
            w.write_signed(value, width);
            w.write_int(1, 1);
        }
        let mut s = Stream::new(&data).unwrap();
        assert_eq!(s.read_int(3), Ok(5));
        assert_eq!(s.read_signed(width), Ok(value));
        assert_eq!(s.read_bool(), Ok(true));
    }
    let data = [0b0000_0110u8];
    let mut s = Stream::new(&data).unwrap();
    assert_eq!(s.read_signed(3), Ok(-2));
    assert_eq!(s.read_signed(0), Ok(0));
    assert!(s.read_signed(65).is_err());
    assert_eq!(s.pos(), 3);
}

#[test]
fn numbers_of_varying_length_read_back() {
    for value in [0u32, 1, 127, 128, 300, 16_383, 16_384, 0x0fff_ffff, 0x1000_0000, u32::MAX] {
        let mut data = Vec::new();
        let written = {
            let mut w = Writer::new(&mut data);
            w.write_bool(true);
            w.write_var_int32(value);
            w.bit_len()
        };
        let mut s = Stream::new(&data).unwrap();
        assert_eq!(s.read_bool(), Ok(true));
        assert_eq!(s.read_var_int32(), Ok(value));
        assert_eq!(s.pos(), written);
    }
    let one_byte = [0x7fu8];
    assert_eq!(Stream::new(&one_byte).unwrap().read_var_int32(), Ok(127));
    let two_bytes = [0xac, 0x02];
    assert_eq!(Stream::new(&two_bytes).unwrap().read_var_int32(), Ok(300));
    let unfinished = [0x80u8];
    assert_eq!(
        Stream::new(&unfinished).unwrap().read_var_int32(),
        Err(ReadError::NotEnoughData { requested: 8, bits_left: 0 })
    );
}

#[test]
fn written_text_reads_back() {
    for text in ["", "plain", "grüße, мир ☺"] {
        let mut data = Vec::new();
        let written = {
            let mut w = Writer::new(&mut data);
            w.write_int(3, 2);
            w.write_string(text);
            w.bit_len()
        };
        assert_eq!(written, 2 + (text.len() + 1) * 8);
        let mut s = Stream::new(&data).unwrap();
        assert_eq!(s.read_int(2), Ok(3));
        assert_eq!(s.read_string(), Ok(text.to_string()));
        assert_eq!(s.pos(), written);
    }
}
