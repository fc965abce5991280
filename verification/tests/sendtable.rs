use bitbuffer::{BitWriteStream, LittleEndian};
use tf_demo_parser::demo::header::Header;
use tf_demo_parser::demo::message::gameevent::GameEvent;
use tf_demo_parser::demo::message::stringtable::StringTableEntry;
use tf_demo_parser::demo::message::{Message, MessageType};
use tf_demo_parser::demo::parser::{parse, Analyser, ParseError, ParserState};
use tf_demo_parser::demo::sendprop::{SendProp, SendPropType};
use tf_demo_parser::demo::sendtable::{
    excluded, find_table, flags_from, flatten_table, test_bit, ClassEntry, DataTables, Exclusion,
    RawSendProp, SendTable,
};
use tf_demo_parser::stream::Stream;

type Writer<'a> = BitWriteStream<'a, LittleEndian>;

fn build(f: impl FnOnce(&mut Writer)) -> Vec<u8> {
    let mut data = Vec::new();
    {
        let mut w = BitWriteStream::new(&mut data, LittleEndian);
        f(&mut w);
    }
    data
}

const UNSIGNED: u32 = 1 << 0;
const EXCLUDE: u32 = 1 << 6;
const INSIDE_ARRAY: u32 = 1 << 8;
const CHANGES_OFTEN: u32 = 1 << 10;

fn value(name: &str, flags: u32, bits: usize) -> RawSendProp {
    RawSendProp {
        kind: SendPropType::Int,
        name: name.to_string(),
        flags: flags_from(flags),
        table_name: None,
        element_count: 0,
        low_value: 0,
        high_value: 0,
        bit_count: bits,
    }
}

fn sub_table(name: &str, table: &str) -> RawSendProp {
    RawSendProp {
        kind: SendPropType::DataTable,
        name: name.to_string(),
        flags: flags_from(0),
        table_name: Some(table.to_string()),
        element_count: 0,
        low_value: 0,
        high_value: 0,
        bit_count: 0,
    }
}

fn exclude(table: &str, prop: &str) -> RawSendProp {
    RawSendProp {
        kind: SendPropType::Int,
        name: prop.to_string(),
        flags: flags_from(EXCLUDE),
        table_name: Some(table.to_string()),
        element_count: 0,
        low_value: 0,
        high_value: 0,
        bit_count: 0,
    }
}

fn array(name: &str, count: usize) -> RawSendProp {
    RawSendProp {
        kind: SendPropType::Array,
        name: name.to_string(),
        flags: flags_from(0),
        table_name: None,
        element_count: count,
        low_value: 0,
        high_value: 0,
        bit_count: 0,
    }
}

fn table(name: &str, props: Vec<RawSendProp>) -> SendTable {
    SendTable { name: name.to_string(), needs_decoder: false, props }
}

fn names(props: &[SendProp]) -> Vec<String> {
    props.iter().map(|p| format!("{}.{}", p.table, p.name)).collect()
}

#[test]
fn flags_are_the_bits_of_a_number() {
    assert!(test_bit(0b100, 2));
    assert!(!test_bit(0b100, 1));
    assert!(test_bit(0x8000_0000, 31));
    let none = flags_from(0);
    assert!(!none.unsigned && !none.exclude && !none.changes_often && !none.coord_mp_integral);
    let some = flags_from(UNSIGNED | EXCLUDE | CHANGES_OFTEN | (1 << 15) | (1 << 16));
    assert!(some.unsigned && some.exclude && some.changes_often && some.coord_mp_integral);
    assert!(!some.coord && !some.normal && !some.inside_array && !some.collapsible);
    let all = flags_from(0xffff);
    assert!(all.coord && all.no_scale && all.round_down && all.round_up && all.normal);
    assert!(all.xyze && all.inside_array && all.proxy_always_yes && all.is_vector_elem);
    assert!(all.collapsible && all.coord_mp && all.coord_mp_low_precision);
}

#[test]
fn tables_are_found_by_name() {
    let tables = vec![table("DT_A", vec![]), table("DT_B", vec![]), table("DT_A", vec![])];
    assert_eq!(find_table(&tables, &"DT_A".to_string()), 0);
    assert_eq!(find_table(&tables, &"DT_B".to_string()), 1);
    assert_eq!(find_table(&tables, &"DT_C".to_string()), 3);
}

#[test]
fn exclusions_are_matched_by_table_and_name() {
    let list = vec![Exclusion { table: "DT_A".to_string(), prop: "m_x".to_string() }];
    assert!(excluded(&list, &"DT_A".to_string(), &"m_x".to_string()));
    assert!(!excluded(&list, &"DT_B".to_string(), &"m_x".to_string()));
    assert!(!excluded(&list, &"DT_A".to_string(), &"m_y".to_string()));
    assert!(!excluded(&Vec::new(), &"DT_A".to_string(), &"m_x".to_string()));
}

#[test]
fn flattening_draws_in_tables_and_leaves_out_exclusions() {
    let tables = vec![
        table(
            "DT_Base",
            vec![value("m_a", 0, 8), value("m_b", CHANGES_OFTEN, 4), value("m_c", 0, 2)],
        ),
        table(
            "DT_Derived",
            vec![
                value("m_first", 0, 1),
                exclude("DT_Base", "m_c"),
                sub_table("baseclass", "DT_Base"),
                value("m_often", CHANGES_OFTEN, 3),
                sub_table("local", "DT_Local"),
                value("m_last", 0, 5),
            ],
        ),
        table("DT_Local", vec![value("m_c", 0, 6), exclude("DT_Base", "m_a")]),
    ];
    let props = flatten_table(&tables, &"DT_Derived".to_string()).unwrap();
    assert_eq!(
        names(&props),
        vec![
            "DT_Base.m_b",
            "DT_Derived.m_often",
            "DT_Derived.m_first",
            "DT_Local.m_c",
            "DT_Derived.m_last",
        ]
    );
    assert_eq!(props[0].layout.bit_count, 4);
    assert_eq!(props[3].layout.bit_count, 6);
    let base = flatten_table(&tables, &"DT_Base".to_string()).unwrap();
    assert_eq!(names(&base), vec!["DT_Base.m_b", "DT_Base.m_a", "DT_Base.m_c"]);
}

#[test]
fn arrays_take_the_property_before_them_as_their_element() {
    let tables = vec![table(
        "DT_A",
        vec![
            value("element", INSIDE_ARRAY | UNSIGNED, 7),
            array("m_items", 12),
            array("m_bare", 3),
        ],
    )];
    let props = flatten_table(&tables, &"DT_A".to_string()).unwrap();
    assert_eq!(names(&props), vec!["DT_A.m_items", "DT_A.m_bare"]);
    assert_eq!(props[0].element_count, 12);
    let element = props[0].element.unwrap();
    assert_eq!(element.bit_count, 7);
    assert!(element.flags.unsigned);
    assert_eq!(props[1].element, None);
}

#[test]
fn tables_in_a_circle_are_refused() {
    let tables = vec![
        table("DT_A", vec![sub_table("b", "DT_B")]),
        table("DT_B", vec![value("m_x", 0, 1), sub_table("a", "DT_A")]),
    ];
    assert_eq!(
        flatten_table(&tables, &"DT_A".to_string()).err(),
        Some(ParseError::SendTableTooDeep)
    );
    let mut chain: Vec<SendTable> = (0..17)
        .map(|i| table(&format!("DT_{}", i), vec![sub_table("next", &format!("DT_{}", i + 1))]))
        .collect();
    chain.push(table("DT_17", vec![value("m_leaf", 0, 1)]));
    assert_eq!(names(&flatten_table(&chain, &"DT_1".to_string()).unwrap()), vec!["DT_17.m_leaf"]);
    assert_eq!(
        flatten_table(&chain, &"DT_0".to_string()).err(),
        Some(ParseError::SendTableTooDeep)
    );
}

#[test]
fn missing_tables_are_refused() {
    let tables = vec![table("DT_A", vec![sub_table("b", "DT_Missing")])];
    assert_eq!(
        flatten_table(&tables, &"DT_A".to_string()).err(),
        Some(ParseError::DataTableTruncated)
    );
    assert_eq!(
        flatten_table(&tables, &"DT_B".to_string()).err(),
        Some(ParseError::DataTableTruncated)
    );
}

fn write_value(w: &mut Writer, name: &str, flags: u32, bits: u8) {
    w.write_int(0u8, 5).unwrap();
    w.write_string(name, None).unwrap();
    w.write_int(flags as u16, 16).unwrap();
    w.write_int(1.0f32.to_bits(), 32).unwrap();
    w.write_int(2.0f32.to_bits(), 32).unwrap();
    w.write_int(bits, 7).unwrap();
}

fn data_tables_bytes() -> Vec<u8> {
    build(|w| {
        w.write_bool(true).unwrap();
        w.write_bool(true).unwrap();
        w.write_string("DT_Base", None).unwrap();
        w.write_int(2u16, 10).unwrap();
        write_value(w, "m_a", 0, 8);
        write_value(w, "m_b", CHANGES_OFTEN | UNSIGNED, 8);
        w.write_bool(true).unwrap();
        w.write_bool(false).unwrap();
        w.write_string("DT_Player", None).unwrap();
        w.write_int(4u16, 10).unwrap();
        // a property that stands for a table
        w.write_int(6u8, 5).unwrap();
        w.write_string("baseclass", None).unwrap();
        w.write_int(0u16, 16).unwrap();
        w.write_string("DT_Base", None).unwrap();
        // an exclusion
        w.write_int(0u8, 5).unwrap();
        w.write_string("m_a", None).unwrap();
        w.write_int(EXCLUDE as u16, 16).unwrap();
        w.write_string("DT_Base", None).unwrap();
        // an array and its element
        write_value(w, "element", INSIDE_ARRAY | UNSIGNED, 4);
        w.write_int(5u8, 5).unwrap();
        w.write_string("m_items", None).unwrap();
        w.write_int(0u16, 16).unwrap();
        w.write_int(3u16, 10).unwrap();
        w.write_bool(false).unwrap();
        w.write_int(2u16, 16).unwrap();
        w.write_int(0u16, 16).unwrap();
        w.write_string("CBase", None).unwrap();
        w.write_string("DT_Base", None).unwrap();
        w.write_int(1u16, 16).unwrap();
        w.write_string("CPlayer", None).unwrap();
        w.write_string("DT_Player", None).unwrap();
    })
}

#[test]
fn data_tables_decode() {
    let data = data_tables_bytes();
    let mut stream = Stream::new(&data).unwrap();
    let tables = DataTables::read(&mut stream).unwrap();
    assert!(stream.bits_left() < 8);
    assert_eq!(tables.tables.len(), 2);
    assert_eq!(tables.tables[0].name, "DT_Base");
    assert!(tables.tables[0].needs_decoder);
    assert_eq!(tables.tables[0].props[1].name, "m_b");
    assert_eq!(tables.tables[0].props[1].low_value, 1.0f32.to_bits());
    assert_eq!(tables.tables[0].props[1].high_value, 2.0f32.to_bits());
    assert_eq!(tables.tables[0].props[1].bit_count, 8);
    assert!(tables.tables[0].props[1].flags.changes_often);
    let player = &tables.tables[1];
    assert_eq!(player.props.len(), 4);
    assert_eq!(player.props[0].kind, SendPropType::DataTable);
    assert_eq!(player.props[0].table_name, Some("DT_Base".to_string()));
    assert!(player.props[1].flags.exclude);
    assert_eq!(player.props[3].kind, SendPropType::Array);
    assert_eq!(player.props[3].element_count, 3);
    assert_eq!(
        tables.classes,
        vec![
            ClassEntry { id: 0, name: "CBase".to_string(), data_table: "DT_Base".to_string() },
            ClassEntry { id: 1, name: "CPlayer".to_string(), data_table: "DT_Player".to_string() },
        ]
    );
    let classes = tables.flatten().unwrap();
    assert_eq!(classes.len(), 2);
    assert_eq!(names(&classes[0].props), vec!["DT_Base.m_b", "DT_Base.m_a"]);
    assert_eq!(names(&classes[1].props), vec!["DT_Base.m_b", "DT_Player.m_items"]);
    assert_eq!(classes[1].name, "CPlayer");
    assert_eq!(classes[1].id, 1);
}

#[test]
fn data_tables_that_are_refused() {
    let unknown_type = build(|w| {
        w.write_bool(true).unwrap();
        w.write_bool(false).unwrap();
        w.write_string("DT_A", None).unwrap();
        w.write_int(1u16, 10).unwrap();
        w.write_int(9u8, 5).unwrap();
        w.write_string("m_a", None).unwrap();
    });
    assert_eq!(
        DataTables::read(&mut Stream::new(&unknown_type).unwrap()).err(),
        Some(ParseError::InvalidPropType(9))
    );
    let data = data_tables_bytes();
    assert_eq!(
        DataTables::read(&mut Stream::new(&data[..3]).unwrap()).err(),
        Some(ParseError::ReadOutOfBounds)
    );
}

struct Count {
    messages: usize,
}

impl Analyser for Count {
    type Output = usize;

    fn handles_message(&self, _kind: MessageType) -> bool {
        true
    }

    fn handle_header(&mut self, _header: &Header) {}

    fn handle_message(&mut self, message: &Message, _tick: u32, state: &ParserState) {
        if let Message::PacketEntities(m) = message {
            assert_eq!(m.updates.len(), 1);
            assert_eq!(state.server_classes.len(), 2);
            let entity = state.world.entities[2].as_ref().unwrap();
            assert_eq!(entity.server_class, 1);
            assert_eq!(entity.props.len(), 2);
            assert!(entity.props[0].is_some());
        }
        self.messages += 1;
    }

    fn handle_string_entry(&mut self, _table: &str, _index: usize, _entry: &StringTableEntry) {}

    fn handle_game_event(&mut self, _event: &GameEvent, _tick: u32, _state: &ParserState) {}

    fn handle_packet_meta(&mut self, _tick: i32, _state: &ParserState) {}

    fn finalise(self) -> usize {
        self.messages
    }
}

#[test]
fn demo_with_data_tables_and_entities() {
    let mut demo = build(|w| {
        w.write_bytes(b"HL2DEMO\0").unwrap();
        w.write_bytes(&vec![0u8; 1064]).unwrap();
    });
    let tables = data_tables_bytes();
    let body = build(|w| {
        // entity 2 enters as class 1 with serial 5 and one changed property
        w.write_int(2u8, 4).unwrap();
        w.write_int(0u8, 3).unwrap();
        w.write_int(2u8, 2).unwrap();
        w.write_int(1u8, 1).unwrap();
        w.write_int(5u16, 10).unwrap();
        w.write_bool(true).unwrap();
        w.write_int(0u8, 3).unwrap();
        w.write_int(200u8, 8).unwrap();
        w.write_bool(false).unwrap();
        w.write_bool(false).unwrap();
    });
    let body_bits = 7 + 2 + 1 + 10 + 12 + 1 + 1;
    let messages = build(|w| {
        w.write_int(26u8, 6).unwrap();
        w.write_int(10u16, 11).unwrap();
        w.write_bool(false).unwrap();
        w.write_bool(false).unwrap();
        w.write_int(1u16, 11).unwrap();
        w.write_int(body_bits as u32, 20).unwrap();
        w.write_bool(false).unwrap();
        let mut left = body_bits;
        for byte in &body {
            let n = left.min(8);
            w.write_int(*byte, n).unwrap();
            left -= n;
        }
    });
    demo.extend(build(|w| {
        w.write_int(6u8, 8).unwrap();
        w.write_int(0u32, 32).unwrap();
        w.write_int(tables.len() as u32, 32).unwrap();
        w.write_bytes(&tables).unwrap();
        w.write_int(2u8, 8).unwrap();
        w.write_int(1u32, 32).unwrap();
        w.write_int(messages.len() as u32, 32).unwrap();
        w.write_bytes(&messages).unwrap();
        w.write_int(7u8, 8).unwrap();
        w.write_int(2u32, 32).unwrap();
    }));
    let outcome = parse(&demo, Count { messages: 0 });
    assert_eq!(outcome.error, None);
    assert_eq!(outcome.output, 1);
    assert_eq!(outcome.tick, 2);
}
