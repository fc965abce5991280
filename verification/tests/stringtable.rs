use bitbuffer::{BitWriteStream, LittleEndian};
use tf_demo_parser::demo::data::MaybeUtf8String;
use tf_demo_parser::demo::message::stringtable::{
    apply_to_entries, index_width, number_bytes, remember, CreateStringTableMessage, Layout,
    StringTable, StringTableChange, StringTableEntry, UpdateStringTableMessage, HISTORY_SIZE,
};
use tf_demo_parser::demo::parser::ParseError;
use tf_demo_parser::stream::Stream;

type Writer<'a> = BitWriteStream<'a, LittleEndian>;

fn build(f: impl FnOnce(&mut Writer)) -> Vec<u8> {
    let mut data = Vec::new();
    {
        let mut w = BitWriteStream::new(&mut data, LittleEndian);
        f(&mut w);
    }
    data
}

fn literal(w: &mut Writer, text: &str) {
    w.write_bool(false).unwrap(); // next index
    w.write_bool(true).unwrap(); // has string
    w.write_bool(false).unwrap(); // not from history
    w.write_string(text, None).unwrap();
    w.write_bool(false).unwrap(); // no user data
}

fn from_history(w: &mut Writer, slot: u8, count: u8, rest: &str) {
    w.write_bool(false).unwrap();
    w.write_bool(true).unwrap();
    w.write_bool(true).unwrap();
    w.write_int(slot, 5).unwrap();
    w.write_int(count, 5).unwrap();
    w.write_string(rest, None).unwrap();
    w.write_bool(false).unwrap();
}

fn text(s: &str) -> MaybeUtf8String {
    MaybeUtf8String::Valid(s.to_string())
}

fn entry(s: &str) -> StringTableEntry {
    StringTableEntry { text: text(s), extra_data: None }
}

#[test]
fn index_width_is_rounded_down_logarithm() {
    let expected =
        [(0usize, 0usize), (1, 0), (2, 1), (3, 1), (4, 2), (255, 7), (256, 8), (1024, 10)];
    for (max_entries, width) in expected {
        assert_eq!(index_width(max_entries), width);
    }
    assert_eq!(index_width(usize::MAX), usize::BITS as usize - 1);
}

#[test]
fn number_bytes_are_little_endian() {
    assert_eq!(number_bytes(0x0403_0201, 4), vec![1, 2, 3, 4]);
    assert_eq!(number_bytes(0x0403_0201, 2), vec![1, 2]);
    assert_eq!(number_bytes(5, 3), vec![5, 0, 0]);
    assert_eq!(number_bytes(5, 0), Vec::<u8>::new());
}

#[test]
fn history_keeps_the_last_32() {
    let mut history: Vec<Vec<u8>> = Vec::new();
    for i in 0..40u8 {
        remember(&mut history, vec![i]);
    }
    assert_eq!(history.len(), HISTORY_SIZE);
    assert_eq!(history[0], vec![8]);
    assert_eq!(history[31], vec![39]);
}

#[test]
fn literal_entries_fill_the_table_in_order() {
    let data = build(|w| {
        literal(w, "alpha");
        literal(w, "beta");
        literal(w, "");
    });
    let mut table = StringTable::new("names".to_string(), 16, 0);
    let mut stream = Stream::new(&data).unwrap();
    let changes = table.update(&mut stream, 3).unwrap();
    assert_eq!(changes.len(), 3);
    assert_eq!(changes[1].index, 1);
    assert_eq!(table.entries, vec![entry("alpha"), entry("beta"), entry("")]);
    assert_eq!(table.history, vec![b"alpha".to_vec(), b"beta".to_vec(), b"".to_vec()]);
    assert_eq!(table.name, "names");
}

#[test]
fn explicit_index_and_gaps() {
    let data = build(|w| {
        w.write_bool(true).unwrap();
        w.write_int(5u8, 3).unwrap();
        w.write_bool(true).unwrap();
        w.write_bool(false).unwrap();
        w.write_string("five", None).unwrap();
        w.write_bool(false).unwrap();
        literal(w, "six");
        w.write_bool(true).unwrap();
        w.write_int(2u8, 3).unwrap();
        w.write_bool(false).unwrap();
        w.write_bool(false).unwrap();
    });
    let mut table = StringTable::new("t".to_string(), 8, 0);
    let mut stream = Stream::new(&data).unwrap();
    let changes = table.update(&mut stream, 3).unwrap();
    assert_eq!(changes[0].index, 5);
    assert_eq!(changes[1].index, 6);
    assert_eq!(changes[2], StringTableChange { index: 2, text: None, extra_data: None });
    assert_eq!(table.entries.len(), 7);
    assert_eq!(table.entries[0], entry(""));
    assert_eq!(table.entries[5], entry("five"));
    assert_eq!(table.entries[6], entry("six"));
    assert_eq!(table.history.len(), 2);
}

#[test]
fn history_reference_expands_to_the_same_entries_as_literals() {
    let spelled = build(|w| {
        literal(w, "models/player/scout.mdl");
        literal(w, "models/player/soldier.mdl");
        literal(w, "models/weapons/rocket.mdl");
        literal(w, "soldier");
    });
    let referring = build(|w| {
        literal(w, "models/player/scout.mdl");
        from_history(w, 0, 14, "soldier.mdl");
        from_history(w, 1, 7, "weapons/rocket.mdl");
        from_history(w, 1, 31, "");
    });
    let mut first = StringTable::new("a".to_string(), 64, 0);
    let mut second = StringTable::new("a".to_string(), 64, 0);
    first.update(&mut Stream::new(&spelled).unwrap(), 4).unwrap();
    let mut stream = Stream::new(&referring).unwrap();
    second.update(&mut stream, 3).unwrap();
    assert_eq!(first.entries[..3], second.entries[..]);
    assert_eq!(second.entries[2], entry("models/weapons/rocket.mdl"));
    let last = second.update(&mut stream, 1).unwrap();
    assert_eq!(last[0].index, 0);
    assert_eq!(last[0].text, Some(text("models/player/soldier.mdl")));
}

#[test]
fn history_reference_to_an_empty_slot_has_no_prefix() {
    let data = build(|w| {
        from_history(w, 9, 4, "rest");
        from_history(w, 0, 0, "x");
    });
    let mut table = StringTable::new("t".to_string(), 4, 0);
    table.update(&mut Stream::new(&data).unwrap(), 2).unwrap();
    assert_eq!(table.entries, vec![entry("rest"), entry("x")]);
}

#[test]
fn history_prefix_may_cut_a_character() {
    let data = build(|w| {
        literal(w, "né");
        from_history(w, 0, 2, "!");
    });
    let mut table = StringTable::new("t".to_string(), 4, 0);
    table.update(&mut Stream::new(&data).unwrap(), 2).unwrap();
    assert_eq!(table.entries[1].text, MaybeUtf8String::Invalid(vec![b'n', 0xc3, b'!']));
}

#[test]
fn user_data_of_fixed_and_of_varying_size() {
    let fixed = build(|w| {
        w.write_bool(false).unwrap();
        w.write_bool(false).unwrap();
        w.write_bool(true).unwrap();
        w.write_int(0x2abu16, 10).unwrap();
    });
    let mut table = StringTable::new("t".to_string(), 4, 10);
    table.update(&mut Stream::new(&fixed).unwrap(), 1).unwrap();
    assert_eq!(table.entries[0].extra_data, Some(vec![0xab, 0x02]));
    let varying = build(|w| {
        w.write_bool(false).unwrap();
        w.write_bool(true).unwrap();
        w.write_bool(false).unwrap();
        w.write_string("k", None).unwrap();
        w.write_bool(true).unwrap();
        w.write_int(3u16, 14).unwrap();
        w.write_bytes(&[7, 8, 9]).unwrap();
    });
    let mut table = StringTable::new("t".to_string(), 4, 0);
    table.update(&mut Stream::new(&varying).unwrap(), 1).unwrap();
    assert_eq!(
        table.entries[0],
        StringTableEntry { text: text("k"), extra_data: Some(vec![7, 8, 9]) }
    );
}

#[test]
fn user_data_wider_than_64_bits_is_refused() {
    let data = build(|w| {
        w.write_bool(false).unwrap();
        w.write_bool(false).unwrap();
        w.write_bool(true).unwrap();
        w.write_int(0u64, 64).unwrap();
        w.write_int(0u64, 64).unwrap();
    });
    let layout = Layout { max_entries: 4, fixed_userdata_bits: 65 };
    let mut stream = Stream::new(&data).unwrap();
    assert_eq!(
        layout.read_extra(&mut stream).err(),
        Some(ParseError::UserDataTooLarge(65))
    );
}

#[test]
fn entry_outside_the_table_is_refused_and_nothing_changes() {
    let data = build(|w| {
        literal(w, "a");
        literal(w, "b");
        literal(w, "c");
    });
    let mut table = StringTable::new("t".to_string(), 2, 0);
    let mut stream = Stream::new(&data).unwrap();
    assert_eq!(table.update(&mut stream, 3).err(), Some(ParseError::StringTableOverflow));
    assert!(table.entries.is_empty());
    assert!(table.history.is_empty());
}

#[test]
fn truncated_update_is_refused() {
    let data = build(|w| literal(w, "a"));
    let mut table = StringTable::new("t".to_string(), 8, 0);
    let mut stream = Stream::new(&data).unwrap();
    assert_eq!(table.update(&mut stream, 9).err(), Some(ParseError::ReadOutOfBounds));
    assert!(table.entries.is_empty());
}

#[test]
fn apply_keeps_what_a_change_does_not_bring() {
    let mut entries = vec![StringTableEntry { text: text("old"), extra_data: Some(vec![1]) }];
    apply_to_entries(
        &mut entries,
        &StringTableChange { index: 0, text: None, extra_data: Some(vec![2, 3]) },
    );
    assert_eq!(entries[0], StringTableEntry { text: text("old"), extra_data: Some(vec![2, 3]) });
    apply_to_entries(
        &mut entries,
        &StringTableChange { index: 0, text: Some(text("new")), extra_data: None },
    );
    assert_eq!(entries[0], StringTableEntry { text: text("new"), extra_data: Some(vec![2, 3]) });
}

#[test]
fn apply_changes_also_feeds_the_history() {
    let mut table = StringTable::new("t".to_string(), 8, 0);
    table.apply_changes(&vec![
        StringTableChange { index: 1, text: Some(text("one")), extra_data: None },
        StringTableChange { index: 0, text: None, extra_data: Some(vec![4]) },
    ]);
    assert_eq!(table.entries.len(), 2);
    assert_eq!(table.entries[1], entry("one"));
    assert_eq!(table.history, vec![b"one".to_vec()]);
}

fn create_message(name: &str, max_entries: u16, entries: &[&str]) -> Vec<u8> {
    let payload = build(|w| {
        for e in entries {
            literal(w, e);
        }
    });
    let payload_bits: usize = entries.iter().map(|e| 4 + (e.len() + 1) * 8).sum();
    build(|w| {
        w.write_string(name, None).unwrap();
        w.write_int(max_entries, 16).unwrap();
        w.write_int(entries.len() as u32, index_width(max_entries as usize) + 1).unwrap();
        w.write_int(payload_bits as u32, 20).unwrap();
        w.write_bool(true).unwrap();
        w.write_int(2u16, 12).unwrap();
        w.write_int(9u8, 4).unwrap();
        w.write_bool(false).unwrap();
        let mut left = payload_bits;
        for byte in &payload {
            let n = left.min(8);
            w.write_int(*byte, n).unwrap();
            left -= n;
        }
        w.write_int(0x5au8, 8).unwrap();
    })
}

#[test]
fn create_string_table_message() {
    let data = create_message("downloadables", 32, &["a.txt", "b.txt"]);
    let mut stream = Stream::new(&data).unwrap();
    let message = CreateStringTableMessage::read(&mut stream).unwrap();
    assert_eq!(message.name, "downloadables");
    assert_eq!(message.max_entries, 32);
    assert_eq!(message.fixed_userdata_size, 2);
    assert_eq!(message.fixed_userdata_bits, 9);
    assert!(!message.is_filenames);
    assert_eq!(message.changes.len(), 2);
    assert_eq!(message.changes[1].text, Some(text("b.txt")));
    assert_eq!(stream.read_u8(), Ok(0x5a));
}

#[test]
fn update_string_table_message_uses_the_history_of_its_table() {
    let mut table = StringTable::new("t".to_string(), 16, 0);
    table.apply_changes(&vec![StringTableChange {
        index: 0,
        text: Some(text("prefix_one")),
        extra_data: None,
    }]);
    let tables = vec![table];
    let payload = build(|w| from_history(w, 0, 7, "two"));
    let payload_bits = 3 + 10 + 4 * 8 + 1;
    let data = build(|w| {
        w.write_int(0u8, 5).unwrap();
        w.write_bool(false).unwrap();
        w.write_int(payload_bits as u32, 20).unwrap();
        let mut left = payload_bits;
        for byte in &payload {
            let n = left.min(8);
            w.write_int(*byte, n).unwrap();
            left -= n;
        }
        w.write_int(0x3cu8, 8).unwrap();
    });
    let mut stream = Stream::new(&data).unwrap();
    let message = UpdateStringTableMessage::read(&mut stream, &tables).unwrap();
    assert_eq!(message.table_id, 0);
    assert_eq!(
        message.changes,
        vec![StringTableChange { index: 0, text: Some(text("prefix_two")), extra_data: None }]
    );
    assert_eq!(stream.read_u8(), Ok(0x3c));
    assert_eq!(tables[0].history.len(), 1);
    let mut stream = Stream::new(&data).unwrap();
    assert_eq!(
        UpdateStringTableMessage::read(&mut stream, &Vec::new()).err(),
        Some(ParseError::StringTableNotFound(0))
    );
    assert_eq!(stream.read_u8(), Ok(0x3c));
}
