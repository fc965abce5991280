use tf_demo_parser::demo::data::userinfo::{apply_user_changes, UserInfo};
use tf_demo_parser::demo::data::MaybeUtf8String;
use tf_demo_parser::demo::message::stringtable::{
    CreateStringTableMessage, StringTableChange, UpdateStringTableMessage,
};
use tf_demo_parser::demo::message::Message;
use tf_demo_parser::demo::parser::ParserState;
use tf_demo_parser::stream::Stream;

fn record(name: &str, user_id: u32, steam_id: &str, fake: u8, hl_tv: u8) -> Vec<u8> {
    let mut data = name.as_bytes().to_vec();
    data.resize(32, 0);
    data.extend_from_slice(&user_id.to_le_bytes());
    let mut steam = steam_id.as_bytes().to_vec();
    steam.resize(32, 0);
    data.extend(steam);
    data.push(fake);
    data.push(hl_tv);
    for file in [1u32, 2, 3, 0xffff_ffff] {
        data.extend_from_slice(&file.to_le_bytes());
    }
    data
}

fn change(index: usize, data: Option<Vec<u8>>) -> StringTableChange {
    StringTableChange {
        index,
        text: Some(MaybeUtf8String::Valid(index.to_string())),
        extra_data: data,
    }
}

#[test]
fn record_of_a_player() {
    let data = record("Scout Main", 77, "[U:1:12345]", 0, 0);
    assert_eq!(data.len(), 86);
    let user = UserInfo::from_bytes(&data).unwrap();
    assert_eq!(
        user,
        UserInfo {
            name: "Scout Main".to_string(),
            user_id: 77,
            steam_id: "[U:1:12345]".to_string(),
            is_fake_player: false,
            is_hl_tv: false,
            custom_files: vec![1, 2, 3, 0xffff_ffff],
        }
    );
    let mut stream = Stream::new(&data).unwrap();
    assert_eq!(UserInfo::read(&mut stream), Ok(user));
    assert_eq!(stream.bits_left(), 0);
    let bot = UserInfo::from_bytes(&record("bot", 2, "BOT", 1, 7)).unwrap();
    assert!(bot.is_fake_player);
    assert!(bot.is_hl_tv);
}

#[test]
fn data_that_is_no_record() {
    let data = record("a", 1, "b", 0, 0);
    assert_eq!(UserInfo::from_bytes(&data[..85]), None);
    assert_eq!(UserInfo::from_bytes(&[]), None);
    let mut bad = data.clone();
    bad[0] = 0xff;
    assert_eq!(UserInfo::from_bytes(&bad), None);
    let mut longer = data;
    longer.push(9);
    assert!(UserInfo::from_bytes(&longer).is_some());
}

#[test]
fn players_follow_the_changes() {
    let mut users: Vec<Option<UserInfo>> = Vec::new();
    apply_user_changes(
        &mut users,
        &vec![
            change(2, Some(record("two", 2, "s2", 0, 0))),
            change(0, None),
            change(1, Some(vec![1, 2, 3])),
            change(2, Some(record("zwei", 2, "s2", 0, 0))),
        ],
    );
    assert_eq!(users.len(), 3);
    assert_eq!(users[0], None);
    assert_eq!(users[1], None);
    assert_eq!(users[2].as_ref().unwrap().name, "zwei");
}

#[test]
fn state_publishes_the_players_of_the_userinfo_table() {
    let mut state = ParserState::new();
    let other = Message::CreateStringTable(CreateStringTableMessage {
        name: "modelprecache".to_string(),
        max_entries: 8,
        fixed_userdata_size: 0,
        fixed_userdata_bits: 0,
        is_filenames: false,
        changes: vec![change(0, Some(record("nobody", 1, "x", 0, 0)))],
    });
    state.handle_message(&other).unwrap();
    assert!(state.users.is_empty());
    let create = Message::CreateStringTable(CreateStringTableMessage {
        name: "userinfo".to_string(),
        max_entries: 8,
        fixed_userdata_size: 0,
        fixed_userdata_bits: 0,
        is_filenames: false,
        changes: vec![change(1, Some(record("one", 11, "s1", 0, 0)))],
    });
    state.handle_message(&create).unwrap();
    assert_eq!(state.users.len(), 2);
    assert_eq!(state.users[1].as_ref().unwrap().user_id, 11);
    let update = Message::UpdateStringTable(UpdateStringTableMessage {
        table_id: 1,
        changes: vec![change(0, Some(record("zero", 10, "s0", 1, 0)))],
    });
    state.handle_message(&update).unwrap();
    assert_eq!(state.users[0].as_ref().unwrap().name, "zero");
    let elsewhere = Message::UpdateStringTable(UpdateStringTableMessage {
        table_id: 0,
        changes: vec![change(3, Some(record("three", 13, "s3", 0, 0)))],
    });
    state.handle_message(&elsewhere).unwrap();
    assert_eq!(state.users.len(), 2);
}
