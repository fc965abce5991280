//! What a demo tells of a player.
//!
//! The string table `userinfo` has one entry for each player; the user data
//! of the entry is a record of fixed layout.
use crate::demo::message::stringtable::{changes_view, ChangeView, StringTableChange};
use crate::stream::{take_sized_string, take_uint, ReadError, Stream};
use vstd::prelude::*;
use vstd::utf8::decode_utf8;

verus! {

/// The length in bytes of the name and of the Steam id in the record of a
/// player.
pub const USER_NAME_BYTES: usize = 32;

/// What a demo tells of a player.
#[derive(Debug, Clone, PartialEq, Eq)]
pub struct UserInfo {
    pub name: String,
    pub user_id: u32,
    pub steam_id: String,
    pub is_fake_player: bool,
    pub is_hl_tv: bool,
    pub custom_files: Vec<u32>,
}

/// What a [`UserInfo`] holds.
pub struct UserInfoView {
    pub name: Seq<char>,
    pub user_id: u32,
    pub steam_id: Seq<char>,
    pub is_fake_player: bool,
    pub is_hl_tv: bool,
    pub custom_files: Seq<u32>,
}

impl UserInfo {
    /// What the record holds.
    pub open spec fn view(&self) -> UserInfoView {
        UserInfoView {
            name: self.name@,
            user_id: self.user_id,
            steam_id: self.steam_id@,
            is_fake_player: self.is_fake_player,
            is_hl_tv: self.is_hl_tv,
            custom_files: self.custom_files@,
        }
    }

    /// What decoding a record at `pos` gives: the name in 32 bytes, the id
    /// of the user in 32 bits, the Steam id in 32 bytes, a byte each that
    /// tells whether the player is a bot and whether it is the broadcast of
    /// the game, and four numbers of 32 bits for the files of the player.
    pub open spec fn parse(bits: Seq<bool>, pos: int) -> Result<(UserInfoView, int), ReadError> {
        match take_sized_string(bits, pos, 32) {
            Err(e) => Err(e),
            Ok((name, p1)) => match take_uint(bits, p1, 32) {
                Err(e) => Err(e),
                Ok((user_id, p2)) => match take_sized_string(bits, p2, 32) {
                    Err(e) => Err(e),
                    Ok((steam_id, p3)) => match take_uint(bits, p3, 8) {
                        Err(e) => Err(e),
                        Ok((fake, p4)) => match take_uint(bits, p4, 8) {
                            Err(e) => Err(e),
                            Ok((hl_tv, p5)) => match take_uint(bits, p5, 32) {
                                Err(e) => Err(e),
                                Ok((f0, p6)) => match take_uint(bits, p6, 32) {
                                    Err(e) => Err(e),
                                    Ok((f1, p7)) => match take_uint(bits, p7, 32) {
                                        Err(e) => Err(e),
                                        Ok((f2, p8)) => match take_uint(bits, p8, 32) {
                                            Err(e) => Err(e),
                                            Ok((f3, end)) => Ok(
                                                (
                                                    UserInfoView {
                                                        name: decode_utf8(name),
                                                        user_id: user_id as u32,
                                                        steam_id: decode_utf8(steam_id),
                                                        is_fake_player: fake != 0,
                                                        is_hl_tv: hl_tv != 0,
                                                        custom_files: seq![
                                                            f0 as u32,
                                                            f1 as u32,
                                                            f2 as u32,
                                                            f3 as u32,
                                                        ],
                                                    },
                                                    end,
                                                ),
                                            ),
                                        },
                                    },
                                },
                            },
                        },
                    },
                },
            },
        }
    }

    /// Reads a record.
    pub fn read(stream: &mut Stream) -> (r: Result<Self, ReadError>)
        requires
            old(stream).inv(),
        ensures
            final(stream).inv(),
            final(stream).same_window(old(stream)),
            (match Self::parse(old(stream).bits(), old(stream).position()) {
                Ok((view, end)) => (r matches Ok(found) && found@ == view)
                    && final(stream).position() == end,
                Err(e) => r matches Err(x) && x == e,
            }),
    {
        let name = match stream.read_sized_string(USER_NAME_BYTES) {
            Ok(v) => v,
            Err(e) => {
                return Err(e);
            },
        };
        let user_id = match stream.read_u32() {
            Ok(v) => v,
            Err(e) => {
                return Err(e);
            },
        };
        let steam_id = match stream.read_sized_string(USER_NAME_BYTES) {
            Ok(v) => v,
            Err(e) => {
                return Err(e);
            },
        };
        let fake = match stream.read_u8() {
            Ok(v) => v,
            Err(e) => {
                return Err(e);
            },
        };
        let hl_tv = match stream.read_u8() {
            Ok(v) => v,
            Err(e) => {
                return Err(e);
            },
        };
        let mut custom_files: Vec<u32> = Vec::new();
        let f0 = match stream.read_u32() {
            Ok(v) => v,
            Err(e) => {
                return Err(e);
            },
        };
        custom_files.push(f0);
        let f1 = match stream.read_u32() {
            Ok(v) => v,
            Err(e) => {
                return Err(e);
            },
        };
        custom_files.push(f1);
        let f2 = match stream.read_u32() {
            Ok(v) => v,
            Err(e) => {
                return Err(e);
            },
        };
        custom_files.push(f2);
        let f3 = match stream.read_u32() {
            Ok(v) => v,
            Err(e) => {
                return Err(e);
            },
        };
        custom_files.push(f3);
        assert(custom_files@ =~= seq![f0, f1, f2, f3]);
        Ok(
            UserInfo {
                name,
                user_id,
                steam_id,
                is_fake_player: fake != 0,
                is_hl_tv: hl_tv != 0,
                custom_files,
            },
        )
    }

    /// The record that the user data of an entry holds, if the data is a
    /// record: data that is too long to be read, too short, or badly formed
    /// is none.
    pub open spec fn of_bytes(data: Seq<u8>) -> Option<UserInfoView> {
        if data.len() > crate::stream::MAX_BUFFER_BYTES {
            None
        } else {
            match Self::parse(crate::bits::bits_of_bytes(data), 0) {
                Ok((view, _)) => Some(view),
                Err(_) => None,
            }
        }
    }

    /// The record that the user data of an entry holds, if the data is a
    /// record.
    pub fn from_bytes(data: &[u8]) -> (r: Option<Self>)
        ensures
            match Self::of_bytes(data@) {
                Some(view) => r matches Some(found) && found@ == view,
                None => r is None,
            },
    {
        let mut stream = match Stream::new(data) {
            Some(stream) => stream,
            None => {
                return None;
            },
        };
        match Self::read(&mut stream) {
            Ok(info) => Some(info),
            Err(_) => None,
        }
    }
}

/// The name of the string table that has an entry for each player.
pub open spec fn users_table() -> Seq<char> {
    "userinfo"@
}

/// The players of a list, by the index of their entry.
pub open spec fn users_view(users: &Vec<Option<UserInfo>>) -> Seq<Option<UserInfoView>> {
    Seq::new(
        users@.len(),
        |i: int|
            match users@[i] {
                Some(user) => Some(user@),
                None => None,
            },
    )
}

/// The players after one change to the table of players: a change that
/// brings a record puts the player at the index of the entry, and the list
/// grows to hold it; every other change leaves the players as they are.
pub open spec fn users_after_change(users: Seq<Option<UserInfoView>>, change: ChangeView) -> Seq<
    Option<UserInfoView>,
> {
    match change.extra {
        None => users,
        Some(data) => match UserInfo::of_bytes(data) {
            None => users,
            Some(user) => {
                let grown = if change.index < users.len() {
                    users
                } else {
                    users + Seq::new((change.index + 1 - users.len()) as nat, |i: int| None)
                };
                grown.update(change.index, Some(user))
            },
        },
    }
}

/// The players after a run of changes to the table of players.
pub open spec fn users_after(users: Seq<Option<UserInfoView>>, changes: Seq<ChangeView>) -> Seq<
    Option<UserInfoView>,
>
    decreases changes.len(),
{
    if changes.len() == 0 {
        users
    } else {
        users_after(users_after_change(users, changes[0]), changes.drop_first())
    }
}

/// Brings the players up to date with changes to the table of players.
pub fn apply_user_changes(users: &mut Vec<Option<UserInfo>>, changes: &Vec<StringTableChange>)
    requires
        forall|k: int| 0 <= k < changes@.len() ==> (#[trigger] changes@[k]).index < usize::MAX,
    ensures
        users_view(final(users)) == users_after(users_view(old(users)), changes_view(changes)),
{
    let ghost all = changes_view(changes);
    let ghost start = users_view(users);
    let mut i: usize = 0;
    assert(all.skip(0) =~= all);
    while i < changes.len()
        invariant
            i <= changes@.len(),
            all == changes_view(changes),
            forall|k: int| 0 <= k < changes@.len() ==> (#[trigger] changes@[k]).index < usize::MAX,
            users_after(users_view(users), all.skip(i as int)) == users_after(start, all),
        decreases changes@.len() - i,
    {
        let change = &changes[i];
        let ghost before = users_view(users);
        proof {
            assert(all.skip(i as int).drop_first() =~= all.skip(i + 1));
            assert(all.skip(i as int)[0] == change@);
        }
        let found = match &change.extra_data {
            Some(data) => UserInfo::from_bytes(data.as_slice()),
            None => None,
        };
        match found {
            Some(user) => {
                while users.len() <= change.index
                    invariant
                        users_view(users) == before + Seq::new(
                            (users@.len() - before.len()) as nat,
                            |k: int| None::<UserInfoView>,
                        ),
                        users@.len() >= before.len(),
                        users@.len() == before.len() || users@.len() <= change.index + 1,
                        change.index < usize::MAX,
                    decreases change.index + 1 - users@.len(),
                {
                    let ghost sofar = users_view(users);
                    users.push(None);
                    assert(users_view(users) =~= sofar.push(None));
                    assert(users_view(users) =~= before + Seq::new(
                        (users@.len() - before.len()) as nat,
                        |k: int| None::<UserInfoView>,
                    ));
                }
                assert(before.len() > change.index ==> users_view(users) =~= before);
                let ghost grown = users_view(users);
                users.set(change.index, Some(user));
                assert(users_view(users) =~= grown.update(change.index as int, Some(user@)));
            },
            None => {},
        }
        i = i + 1;
    }
}

} // verus!
