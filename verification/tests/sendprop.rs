use bitbuffer::{BitWriteStream, LittleEndian};
use tf_demo_parser::demo::parser::ParseError;
use tf_demo_parser::demo::sendprop::{
    width_for, FloatEncoding, PropLayout, PropValue, ScalarValue, SendProp, SendPropFlags,
    SendPropType, VectorZ, WireFloat,
};
use tf_demo_parser::stream::Stream;

type Writer<'a> = BitWriteStream<'a, LittleEndian>;

fn build(f: impl FnOnce(&mut Writer)) -> Vec<u8> {
    let mut data = Vec::new();
    {
        let mut w = BitWriteStream::new(&mut data, LittleEndian);
        f(&mut w);
    }
    data
}

fn no_flags() -> SendPropFlags {
    SendPropFlags {
        unsigned: false,
        coord: false,
        no_scale: false,
        round_down: false,
        round_up: false,
        normal: false,
        exclude: false,
        xyze: false,
        inside_array: false,
        proxy_always_yes: false,
        changes_often: false,
        is_vector_elem: false,
        collapsible: false,
        coord_mp: false,
        coord_mp_low_precision: false,
        coord_mp_integral: false,
    }
}

fn layout(kind: SendPropType, flags: SendPropFlags, bit_count: usize) -> PropLayout {
    PropLayout { kind, flags, bit_count, low_value: 0, high_value: 0 }
}

fn plain(encoding: FloatEncoding, whole: u32) -> WireFloat {
    WireFloat {
        encoding,
        in_bounds: false,
        has_whole: true,
        has_fraction: false,
        negative: false,
        whole,
        fraction: 0,
    }
}

#[test]
fn prop_type_numbers() {
    let kinds = [
        SendPropType::Int,
        SendPropType::Float,
        SendPropType::Vector,
        SendPropType::VectorXY,
        SendPropType::String,
        SendPropType::Array,
        SendPropType::DataTable,
        SendPropType::Int64,
    ];
    for (raw, kind) in kinds.iter().enumerate() {
        assert_eq!(SendPropType::from_u8(raw as u8), Some(*kind));
        assert_eq!(kind.to_u8(), raw as u8);
    }
    assert_eq!(SendPropType::from_u8(8), None);
}

#[test]
fn width_for_counts_the_bits_of_the_greatest_number() {
    let expected = [(0usize, 0usize), (1, 1), (2, 2), (3, 2), (4, 3), (7, 3), (8, 4), (255, 8)];
    for (max, width) in expected {
        assert_eq!(width_for(max), width);
    }
}

#[test]
fn encoding_follows_the_first_flag_that_is_set() {
    let mut flags = no_flags();
    assert_eq!(flags.float_encoding(), FloatEncoding::Scaled);
    flags.normal = true;
    assert_eq!(flags.float_encoding(), FloatEncoding::Normal);
    flags.no_scale = true;
    assert_eq!(flags.float_encoding(), FloatEncoding::NoScale);
    flags.coord_mp_integral = true;
    assert_eq!(flags.float_encoding(), FloatEncoding::CoordMPIntegral);
    flags.coord_mp_low_precision = true;
    assert_eq!(flags.float_encoding(), FloatEncoding::CoordMPLowPrecision);
    flags.coord_mp = true;
    assert_eq!(flags.float_encoding(), FloatEncoding::CoordMP);
    flags.coord = true;
    assert_eq!(flags.float_encoding(), FloatEncoding::Coord);
}

#[test]
fn signed_and_unsigned_integers() {
    let data = build(|w| {
        w.write_int(0b1_1111_0110u16, 9).unwrap();
        w.write_int(0b1_1111_0110u16, 9).unwrap();
        w.write_int(5u8, 3).unwrap();
    });
    let mut stream = Stream::new(&data).unwrap();
    let signed = layout(SendPropType::Int, no_flags(), 9);
    let mut flags = no_flags();
    flags.unsigned = true;
    let unsigned = layout(SendPropType::Int, flags, 9);
    assert_eq!(signed.read(&mut stream), Ok(ScalarValue::Integer(-10)));
    assert_eq!(unsigned.read(&mut stream), Ok(ScalarValue::Integer(502)));
    assert_eq!(
        layout(SendPropType::Int, no_flags(), 3).read(&mut stream),
        Ok(ScalarValue::Integer(-3))
    );
    assert_eq!(
        layout(SendPropType::Int, no_flags(), 0).read(&mut stream),
        Ok(ScalarValue::Integer(0))
    );
}

#[test]
fn integers_too_wide_are_refused() {
    let data = vec![0u8; 16];
    let mut stream = Stream::new(&data).unwrap();
    let mut flags = no_flags();
    flags.unsigned = true;
    assert_eq!(
        layout(SendPropType::Int, flags, 64).read(&mut stream),
        Err(ParseError::PropDecodeOverflow)
    );
    assert_eq!(
        layout(SendPropType::Int, no_flags(), 65).read(&mut stream),
        Err(ParseError::PropDecodeOverflow)
    );
    assert_eq!(stream.pos(), 0);
    assert_eq!(layout(SendPropType::Int, flags, 63).read(&mut stream), Ok(ScalarValue::Integer(0)));
    assert_eq!(
        layout(SendPropType::Int, no_flags(), 64).read(&mut stream),
        Ok(ScalarValue::Integer(0))
    );
}

#[test]
fn signed_integer_of_64_bits() {
    let data = build(|w| {
        w.write_int(u64::MAX, 64).unwrap();
        w.write_int(1u64 << 63, 64).unwrap();
    });
    let mut stream = Stream::new(&data).unwrap();
    let wide = layout(SendPropType::Int, no_flags(), 64);
    assert_eq!(wide.read(&mut stream), Ok(ScalarValue::Integer(-1)));
    assert_eq!(wide.read(&mut stream), Ok(ScalarValue::Integer(i64::MIN)));
}

#[test]
fn scaled_and_unscaled_numbers() {
    let data = build(|w| {
        w.write_int(0x155u16, 10).unwrap();
        w.write_int(2.5f32.to_bits(), 32).unwrap();
    });
    let mut stream = Stream::new(&data).unwrap();
    assert_eq!(
        WireFloat::read(&mut stream, &no_flags(), 10),
        Ok(plain(FloatEncoding::Scaled, 0x155))
    );
    let mut flags = no_flags();
    flags.no_scale = true;
    assert_eq!(
        WireFloat::read(&mut stream, &flags, 7),
        Ok(plain(FloatEncoding::NoScale, 2.5f32.to_bits()))
    );
    assert_eq!(
        WireFloat::read(&mut stream, &no_flags(), 33),
        Err(ParseError::PropDecodeOverflow)
    );
}

#[test]
fn coordinates() {
    let data = build(|w| {
        // whole and fraction, negative
        w.write_bool(true).unwrap();
        w.write_bool(true).unwrap();
        w.write_bool(true).unwrap();
        w.write_int(1000u16, 13).unwrap();
        w.write_int(17u8, 5).unwrap();
        // nothing at all
        w.write_bool(false).unwrap();
        w.write_bool(false).unwrap();
        // fraction only, positive
        w.write_bool(false).unwrap();
        w.write_bool(true).unwrap();
        w.write_bool(false).unwrap();
        w.write_int(3u8, 5).unwrap();
    });
    let mut stream = Stream::new(&data).unwrap();
    assert_eq!(
        WireFloat::read_coord(&mut stream),
        Ok(WireFloat {
            encoding: FloatEncoding::Coord,
            in_bounds: false,
            has_whole: true,
            has_fraction: true,
            negative: true,
            whole: 1000,
            fraction: 17,
        })
    );
    assert_eq!(
        WireFloat::read_coord(&mut stream),
        Ok(WireFloat {
            encoding: FloatEncoding::Coord,
            in_bounds: false,
            has_whole: false,
            has_fraction: false,
            negative: false,
            whole: 0,
            fraction: 0,
        })
    );
    assert_eq!(
        WireFloat::read_coord(&mut stream),
        Ok(WireFloat {
            encoding: FloatEncoding::Coord,
            in_bounds: false,
            has_whole: false,
            has_fraction: true,
            negative: false,
            whole: 0,
            fraction: 3,
        })
    );
    assert_eq!(stream.pos(), 21 + 2 + 8);
}

#[test]
fn multiplayer_coordinates() {
    let data = build(|w| {
        w.write_bool(true).unwrap(); // in bounds
        w.write_bool(true).unwrap(); // whole part
        w.write_bool(false).unwrap(); // positive
        w.write_int(2047u16, 11).unwrap();
        w.write_int(31u8, 5).unwrap();
        w.write_bool(false).unwrap(); // out of bounds
        w.write_bool(true).unwrap();
        w.write_bool(true).unwrap();
        w.write_int(16383u16, 14).unwrap();
        w.write_int(5u8, 3).unwrap();
        w.write_bool(false).unwrap(); // integral, out of bounds, zero
        w.write_bool(false).unwrap();
        w.write_bool(true).unwrap(); // integral, in bounds
        w.write_bool(true).unwrap();
        w.write_bool(true).unwrap();
        w.write_int(9u16, 11).unwrap();
    });
    let mut stream = Stream::new(&data).unwrap();
    let first = WireFloat::read_coord_mp(&mut stream, false).unwrap();
    assert_eq!(first.encoding, FloatEncoding::CoordMP);
    assert_eq!(
        (first.in_bounds, first.negative, first.whole, first.fraction),
        (true, false, 2047, 31)
    );
    let second = WireFloat::read_coord_mp(&mut stream, true).unwrap();
    assert_eq!(second.encoding, FloatEncoding::CoordMPLowPrecision);
    assert_eq!(
        (second.in_bounds, second.negative, second.whole, second.fraction),
        (false, true, 16383, 5)
    );
    let third = WireFloat::read_coord_mp_integral(&mut stream).unwrap();
    assert_eq!((third.has_whole, third.negative, third.whole), (false, false, 0));
    let fourth = WireFloat::read_coord_mp_integral(&mut stream).unwrap();
    assert_eq!(fourth.encoding, FloatEncoding::CoordMPIntegral);
    assert_eq!((fourth.in_bounds, fourth.negative, fourth.whole), (true, true, 9));
    assert_eq!(stream.pos(), 19 + 20 + 2 + 14);
}

#[test]
fn vectors() {
    let data = build(|w| {
        for v in [1u16, 2, 3] {
            w.write_int(v, 12).unwrap();
        }
        for (sign, fraction) in [(true, 100u16), (false, 200u16)] {
            w.write_bool(sign).unwrap();
            w.write_int(fraction, 11).unwrap();
        }
        w.write_bool(true).unwrap();
        w.write_int(7u16, 12).unwrap();
        w.write_int(8u16, 12).unwrap();
    });
    let mut stream = Stream::new(&data).unwrap();
    assert_eq!(
        layout(SendPropType::Vector, no_flags(), 12).read(&mut stream),
        Ok(ScalarValue::Vector {
            x: plain(FloatEncoding::Scaled, 1),
            y: plain(FloatEncoding::Scaled, 2),
            z: VectorZ::Value(plain(FloatEncoding::Scaled, 3)),
        })
    );
    let mut flags = no_flags();
    flags.normal = true;
    match layout(SendPropType::Vector, flags, 12).read(&mut stream).unwrap() {
        ScalarValue::Vector { x, y, z } => {
            assert_eq!((x.encoding, x.negative, x.fraction), (FloatEncoding::Normal, true, 100));
            assert_eq!((y.negative, y.fraction), (false, 200));
            assert_eq!(z, VectorZ::Sign(true));
        }
        other => panic!("unexpected value {:?}", other),
    }
    assert_eq!(
        layout(SendPropType::VectorXY, no_flags(), 12).read(&mut stream),
        Ok(ScalarValue::VectorXY {
            x: plain(FloatEncoding::Scaled, 7),
            y: plain(FloatEncoding::Scaled, 8),
        })
    );
}

#[test]
fn strings_and_numbers_of_64_bits() {
    let data = build(|w| {
        w.write_int(3u16, 9).unwrap();
        w.write_bytes(&[b'a', 0, 0xff]).unwrap();
        w.write_bool(true).unwrap();
        w.write_int(0x89ab_cdefu32, 32).unwrap();
        w.write_int(0x0123_4567u32, 32).unwrap();
        w.write_int(1u32, 32).unwrap();
        w.write_int(0xffff_ffffu32, 32).unwrap();
    });
    let mut stream = Stream::new(&data).unwrap();
    assert_eq!(
        layout(SendPropType::String, no_flags(), 0).read(&mut stream),
        Ok(ScalarValue::String(vec![b'a', 0, 0xff]))
    );
    assert_eq!(
        layout(SendPropType::Int64, no_flags(), 64).read(&mut stream),
        Ok(ScalarValue::Int64 { negative: true, magnitude: 0x0123_4567_89ab_cdef })
    );
    let mut flags = no_flags();
    flags.unsigned = true;
    assert_eq!(
        layout(SendPropType::Int64, flags, 64).read(&mut stream),
        Ok(ScalarValue::Int64 { negative: false, magnitude: 0xffff_ffff_0000_0001 })
    );
}

#[test]
fn arrays_and_tables_have_no_scalar_value() {
    let data = vec![0u8; 4];
    let mut stream = Stream::new(&data).unwrap();
    assert_eq!(
        layout(SendPropType::Array, no_flags(), 0).read(&mut stream),
        Err(ParseError::InvalidPropType(5))
    );
    assert_eq!(
        layout(SendPropType::DataTable, no_flags(), 0).read(&mut stream),
        Err(ParseError::InvalidPropType(6))
    );
}

fn array_prop(element_count: usize, element: Option<PropLayout>) -> SendProp {
    SendProp {
        name: "m_items".to_string(),
        table: "DT_Test".to_string(),
        layout: layout(SendPropType::Array, no_flags(), 0),
        element_count,
        element,
    }
}

#[test]
fn arrays() {
    let data = build(|w| {
        w.write_int(2u8, 3).unwrap();
        w.write_int(0x3fu8, 6).unwrap();
        w.write_int(0x01u8, 6).unwrap();
        w.write_int(0u8, 3).unwrap();
        w.write_int(5u8, 3).unwrap();
    });
    let mut stream = Stream::new(&data).unwrap();
    let prop = array_prop(4, Some(layout(SendPropType::Int, no_flags(), 6)));
    assert_eq!(
        prop.read(&mut stream),
        Ok(PropValue::Array(vec![ScalarValue::Integer(-1), ScalarValue::Integer(1)]))
    );
    assert_eq!(prop.read(&mut stream), Ok(PropValue::Array(vec![])));
    assert_eq!(prop.read(&mut stream), Err(ParseError::PropDecodeOverflow));
    assert_eq!(array_prop(4, None).read(&mut stream), Err(ParseError::InvalidPropType(5)));
}

#[test]
fn copies_are_equal() {
    let value = PropValue::Array(vec![
        ScalarValue::String(vec![1, 2, 3]),
        ScalarValue::Int64 { negative: true, magnitude: 9 },
    ]);
    assert_eq!(value.copy(), value);
    let scalar = PropValue::Scalar(ScalarValue::Float(plain(FloatEncoding::NoScale, 7)));
    assert_eq!(scalar.copy(), scalar);
}
