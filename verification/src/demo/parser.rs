//! The state of a demo while it is decoded, and the run over its packets.
//!
//! What a message means depends on what came before it: the classes and
//! events that were declared, the string tables, the entities that exist.
//! [`ParserState`] holds all that, and [`StateModel`] says what it holds.
//! [`run_packets`] says how a whole demo is decoded, and [`parse`] does it.
use crate::bits::bits_of_bytes;
use crate::demo::data::userinfo::{
    apply_user_changes, users_after, users_table, users_view, UserInfo, UserInfoView,
};
use crate::demo::header::Header;
use crate::demo::message::gameevent::{
    copy_descriptors, descriptors_view, DescriptorView, GameEvent, GameEventDescriptor,
};
use crate::demo::message::packetentities::{
    apply_message, class_sizes, empty_world, entities_view, EntityWorld, WorldView,
};
use crate::demo::message::stringtable::{
    apply_changes, changes_view, entries_view, history_after_all, history_view,
    lemma_apply_changes_append, tables_model,
    tables_view, ChangeView, CreateStringTableView, EntryView, Layout, StringTable,
    StringTableChange, StringTableEntry, TableView, UpdateStringTableView,
};
use crate::demo::message::{Message, MessageType, MessageView, StateView, MESSAGE_TYPE_BITS};
use crate::demo::packet::{Packet, PacketType};
use crate::demo::sendprop::{classes_view, SendPropView, ServerClass};
use crate::demo::sendtable::{flatten_classes, DataTables, DataTablesView};
use crate::stream::{ReadError, Stream, MAX_BUFFER_BYTES};
use vstd::prelude::*;

verus! {

/// Why decoding stopped.
#[derive(Debug, Clone, PartialEq, Eq)]
pub enum ParseError {
    /// A read ran past the end of the data.
    ReadOutOfBounds,
    /// The file does not open with the words of a demo.
    InvalidMagic,
    /// A message tag names no kind of message.
    UnknownMessageType(u8),
    /// A user message is of a type that is not known. Such a message
    /// keeps its bits and decoding goes on, so nothing in this library gives
    /// this error; it is there for analysers that insist on a known type.
    UnknownUserMessageType(u8),
    /// A game event has an id that was never declared.
    UnknownEventId(u16),
    /// An entity is of a class that was never declared.
    UnknownServerClass(u16),
    /// A property has a type that is not known.
    InvalidPropType(u8),
    /// An entity index lies outside the table of entities.
    InvalidEntityIndex(u32),
    /// A string table update names a table that was never created.
    StringTableNotFound(usize),
    /// A string table entry lies outside its table.
    StringTableOverflow,
    /// The bytes of a string are not valid UTF-8; the field is the number of
    /// bytes that the failed read consumed.
    Utf8(usize),
    /// The data tables end before they are complete.
    DataTableTruncated,
    /// The user data of a string table entry is longer than the format
    /// allows; the field is its length in bits.
    UserDataTooLarge(usize),
    /// A game event does not have the shape that was declared for it.
    MalformedGameEvent,
    /// A property, or a number that belongs to one, lies outside the range
    /// that its declaration allows.
    PropDecodeOverflow,
    /// A packet is of a type that is not known.
    InvalidPacketType(u8),
    /// The tables of properties refer to each other in a circle, or deeper
    /// than is allowed.
    SendTableTooDeep,
}

impl ParseError {
    /// The error that a failed read becomes: bad UTF-8 stays what it is, and
    /// every other failure means that the data ended too early.
    pub open spec fn of_read(e: ReadError) -> Self {
        match e {
            ReadError::Utf8Error(size) => ParseError::Utf8(size),
            _ => ParseError::ReadOutOfBounds,
        }
    }

    /// The error that a failed read becomes.
    pub fn from_read(e: ReadError) -> (r: Self)
        ensures
            r == Self::of_read(e),
    {
        match e {
            ReadError::Utf8Error(size) => ParseError::Utf8(size),
            _ => ParseError::ReadOutOfBounds,
        }
    }
}

/// What is known of a demo while it is decoded: all that was declared and
/// all that exists, as the messages so far have left it.
#[derive(Debug)]
pub struct ParserState {
    pub string_tables: Vec<StringTable>,
    pub server_classes: Vec<ServerClass>,
    pub world: EntityWorld,
    pub game_events: Vec<GameEventDescriptor>,
    pub tick: u32,
    /// The players, by the index of their entry in the table of players.
    pub users: Vec<Option<UserInfo>>,
}

/// What a [`ParserState`] holds.
pub struct StateModel {
    /// The string tables, in the order in which they were created.
    pub tables: Seq<TableView>,
    /// The properties of each declared class, by the id of the class.
    pub classes: Seq<Seq<SendPropView>>,
    pub world: WorldView,
    /// The declared events.
    pub events: Seq<DescriptorView>,
    pub tick: u32,
    /// The players, by the index of their entry in the table of players.
    pub users: Seq<Option<UserInfoView>>,
}

/// Whether every change of a list names an entry of a table with
/// `max_entries` entries.
pub open spec fn fits(changes: Seq<ChangeView>, max_entries: int) -> bool {
    forall|k: int| 0 <= k < changes.len() ==> (#[trigger] changes[k]).index < max_entries
}

/// The players after changes to the table with the given name: only the
/// table of players has a say in them.
pub open spec fn users_with(
    users: Seq<Option<UserInfoView>>,
    table: Seq<char>,
    changes: Seq<ChangeView>,
) -> Seq<Option<UserInfoView>> {
    if table == users_table() {
        users_after(users, changes)
    } else {
        users
    }
}

/// The number of properties of each class of a list.
pub open spec fn sizes_of(classes: Seq<Seq<SendPropView>>) -> Seq<nat> {
    Seq::new(classes.len(), |i: int| classes[i].len())
}

impl StateModel {
    /// The state at the start of a demo: nothing is declared, and nothing
    /// exists.
    pub open spec fn start() -> Self {
        StateModel {
            tables: Seq::empty(),
            classes: Seq::empty(),
            world: empty_world(0),
            events: Seq::empty(),
            tick: 0,
            users: Seq::empty(),
        }
    }

    /// What of the state matters to decode a message.
    pub open spec fn decoding(self) -> StateView {
        StateView {
            classes: self.classes,
            entities: self.world.entities,
            events: self.events,
            tables: Seq::new(
                self.tables.len(),
                |i: int| (self.tables[i].layout, self.tables[i].history),
            ),
        }
    }

    /// The state with one more string table: the table that the message
    /// creates, with its first entries. Entries outside the table are
    /// refused.
    pub open spec fn created(self, m: CreateStringTableView) -> Result<Self, ParseError> {
        if !fits(m.changes, m.max_entries as int) {
            Err(ParseError::StringTableOverflow)
        } else {
            Ok(
                StateModel {
                    tables: self.tables.push(
                        TableView {
                            name: m.name,
                            layout: Layout {
                                max_entries: m.max_entries as usize,
                                fixed_userdata_bits: m.fixed_userdata_bits as usize,
                            },
                            entries: apply_changes(Seq::empty(), m.changes),
                            history: history_after_all(Seq::empty(), m.changes),
                        },
                    ),
                    users: users_with(self.users, m.name, m.changes),
                    ..self
                },
            )
        }
    }

    /// The state with the changes of the message made to the table that it
    /// names. A table that does not exist and entries outside the table are
    /// refused.
    pub open spec fn updated(self, m: UpdateStringTableView) -> Result<Self, ParseError> {
        if m.table_id >= self.tables.len() {
            Err(ParseError::StringTableNotFound(m.table_id as usize))
        } else {
            let table = self.tables[m.table_id as int];
            if !fits(m.changes, table.layout.max_entries as int) {
                Err(ParseError::StringTableOverflow)
            } else {
                Ok(
                    StateModel {
                        tables: self.tables.update(
                            m.table_id as int,
                            TableView {
                                entries: apply_changes(table.entries, m.changes),
                                history: history_after_all(table.history, m.changes),
                                ..table
                            },
                        ),
                        users: users_with(self.users, table.name, m.changes),
                        ..self
                    },
                )
            }
        }
    }

    /// The state after a message.
    ///
    /// The tick of the server becomes the tick of the demo. A string table
    /// that is created is added with its first entries, and one that changes
    /// takes the changes. Changes to the table of players also bring the
    /// players up to date. A list of declared events takes the place of the
    /// list before. Updates to entities are made to the world. Every other
    /// message leaves the state as it is.
    pub open spec fn after(self, message: MessageView) -> Result<Self, ParseError> {
        match message {
            MessageView::NetTick(m) => Ok(StateModel { tick: m.tick, ..self }),
            MessageView::GameEventList(events) => Ok(StateModel { events, ..self }),
            MessageView::PacketEntities(m) => match apply_message(
                self.world,
                sizes_of(self.classes),
                m,
            ) {
                Ok(world) => Ok(StateModel { world, ..self }),
                Err(e) => Err(e),
            },
            MessageView::CreateStringTable(m) => self.created(m),
            MessageView::UpdateStringTable(m) => self.updated(m),
            _ => Ok(self),
        }
    }

    /// The state after the data tables: the classes become the declared
    /// classes, each with its properties in the order of the wire, and the
    /// world starts anew without entities and with empty baselines.
    pub open spec fn declared(self, tables: DataTablesView) -> Result<Self, ParseError> {
        match flatten_classes(tables.tables, tables.classes) {
            Err(e) => Err(e),
            Ok(classes) => if classes.len() > usize::MAX / 2 {
                Err(ParseError::DataTableTruncated)
            } else {
                Ok(StateModel { classes, world: empty_world(classes.len()), ..self })
            },
        }
    }
}

/// The changes of a run of messages that change a table, in order.
pub open spec fn joined(updates: Seq<UpdateStringTableView>) -> Seq<ChangeView>
    decreases updates.len(),
{
    if updates.len() == 0 {
        Seq::empty()
    } else {
        updates[0].changes + joined(updates.drop_first())
    }
}

impl StateModel {
    /// The state after a run of messages that change tables, first message
    /// first. The first message that is refused ends the run.
    pub open spec fn updated_all(
        self,
        updates: Seq<UpdateStringTableView>,
    ) -> Result<Self, ParseError>
        decreases updates.len(),
    {
        if updates.len() == 0 {
            Ok(self)
        } else {
            match self.updated(updates[0]) {
                Err(e) => Err(e),
                Ok(next) => next.updated_all(updates.drop_first()),
            }
        }
    }
}

/// A table that has taken a run of messages holds what their changes, made
/// in order, make of the entries that it had. How a string was spelled on
/// the wire, in full or with the help of the history, has no part in it.
pub proof fn lemma_updates_replicate(
    state: StateModel,
    id: int,
    updates: Seq<UpdateStringTableView>,
)
    requires
        0 <= id < state.tables.len(),
        forall|k: int| 0 <= k < updates.len() ==> (#[trigger] updates[k]).table_id == id,
        state.updated_all(updates) is Ok,
    ensures
        state.updated_all(updates) matches Ok(last) && last.tables.len() == state.tables.len()
            && last.tables[id].entries == apply_changes(state.tables[id].entries, joined(updates)),
    decreases updates.len(),
{
    if updates.len() > 0 {
        let next = state.updated(updates[0])->Ok_0;
        let rest = updates.drop_first();
        assert forall|k: int| 0 <= k < rest.len() implies (#[trigger] rest[k]).table_id == id by {
            assert(rest[k] == updates[k + 1]);
        }
        lemma_updates_replicate(next, id, rest);
        lemma_apply_changes_append(state.tables[id].entries, updates[0].changes, joined(rest));
    }
}

/// A table that was created and has then taken a run of messages holds what
/// the changes of all of them, made in order to an empty table, come to.
pub proof fn lemma_table_replication(
    state: StateModel,
    create: CreateStringTableView,
    updates: Seq<UpdateStringTableView>,
)
    requires
        forall|k: int|
            0 <= k < updates.len() ==> (#[trigger] updates[k]).table_id == state.tables.len(),
        state.created(create) matches Ok(first) && first.updated_all(updates) is Ok,
    ensures
        state.created(create) matches Ok(first) && first.updated_all(updates) matches Ok(last)
            && last.tables[state.tables.len() as int].entries == apply_changes(
            Seq::empty(),
            create.changes + joined(updates),
        ),
{
    let first = state.created(create)->Ok_0;
    lemma_updates_replicate(first, state.tables.len() as int, updates);
    lemma_apply_changes_append(Seq::empty(), create.changes, joined(updates));
}

impl ParserState {
    /// What the state holds.
    pub open spec fn model(&self) -> StateModel {
        StateModel {
            tables: tables_model(&self.string_tables),
            classes: classes_view(&self.server_classes),
            world: self.world@,
            events: descriptors_view(&self.game_events),
            tick: self.tick,
            users: users_view(&self.users),
        }
    }

    /// What of the state matters to decode a message.
    pub open spec fn view(&self) -> StateView {
        StateView {
            classes: classes_view(&self.server_classes),
            entities: entities_view(&self.world.entities),
            events: descriptors_view(&self.game_events),
            tables: tables_view(&self.string_tables),
        }
    }

    /// Every string table is well-formed.
    pub open spec fn wf(&self) -> bool {
        forall|i: int|
            0 <= i < self.string_tables@.len() ==> (#[trigger] self.string_tables@[i]).wf()
    }

    /// What decoding sees of the state is what the state holds of it.
    pub proof fn lemma_decoding(&self)
        ensures
            self.model().decoding() == self@,
    {
        assert(self.model().decoding().tables =~= self@.tables);
    }

    /// The state at the start of a demo: nothing is declared, and nothing
    /// exists.
    pub fn new() -> (r: Self)
        ensures
            r.wf(),
            r.model() == StateModel::start(),
    {
        let state = ParserState {
            string_tables: Vec::new(),
            server_classes: Vec::new(),
            world: EntityWorld::new(0),
            game_events: Vec::new(),
            tick: 0,
            users: Vec::new(),
        };
        proof {
            assert(state.model().tables =~= Seq::<TableView>::empty());
            assert(state.model().classes =~= Seq::<Seq<SendPropView>>::empty());
            assert(state.model().events =~= Seq::<DescriptorView>::empty());
            assert(state.model().users =~= Seq::<Option<UserInfoView>>::empty());
        }
        state
    }
}

/// Whether every change of a list names an entry of a table with
/// `max_entries` entries.
pub fn changes_fit(changes: &Vec<StringTableChange>, max_entries: usize) -> (r: bool)
    ensures
        r == fits(changes_view(changes), max_entries as int),
        r ==> forall|k: int|
            0 <= k < changes@.len() ==> (#[trigger] changes@[k]).index < max_entries,
{
    let mut i: usize = 0;
    while i < changes.len()
        invariant
            i <= changes@.len(),
            forall|k: int| 0 <= k < i ==> (#[trigger] changes@[k]).index < max_entries,
        decreases changes@.len() - i,
    {
        if changes[i].index >= max_entries {
            assert(changes_view(changes)[i as int].index >= max_entries);
            return false;
        }
        i = i + 1;
    }
    assert forall|k: int| 0 <= k < changes@.len() implies (#[trigger] changes_view(
        changes,
    )[k]).index < max_entries by {
        assert(changes@[k].index < max_entries);
    }
    true
}

impl ParserState {
    /// Takes note of a message: what later messages are decoded with is
    /// brought up to date, as [`StateModel::after`] says.
    ///
    /// Changes that name an entry outside their table, or a table that does
    /// not exist, are refused and leave the state as it was. Where an update
    /// to an entity is refused the updates before it stay made.
    pub fn handle_message(&mut self, message: &Message) -> (r: Result<(), ParseError>)
        requires
            old(self).wf(),
        ensures
            final(self).wf(),
            (match old(self).model().after(message@) {
                Ok(next) => r is Ok && final(self).model() == next,
                Err(e) => r matches Err(x) && x == e,
            }),
            final(self).server_classes == old(self).server_classes,
            r is Err && !(message is PacketEntities) ==> *final(self) == *old(self),
    {
        let ghost before = self.model();
        match message {
            Message::NetTick(m) => {
                self.tick = m.tick;
                Ok(())
            },
            Message::GameEventList(list) => {
                self.game_events = copy_descriptors(list);
                Ok(())
            },
            Message::PacketEntities(m) => {
                assert(sizes_of(before.classes) =~= class_sizes(&self.server_classes));
                self.world.apply_message(&self.server_classes, m)
            },
            Message::CreateStringTable(m) => {
                if !changes_fit(&m.changes, m.max_entries as usize) {
                    return Err(ParseError::StringTableOverflow);
                }
                let mut table = StringTable::new(
                    m.name.clone(),
                    m.max_entries as usize,
                    m.fixed_userdata_bits as usize,
                );
                assert(entries_view(&table.entries) =~= Seq::<EntryView>::empty());
                assert(history_view(&table.history) =~= Seq::<Seq<u8>>::empty());
                table.apply_changes(&m.changes);
                if m.name == "userinfo".to_owned() {
                    apply_user_changes(&mut self.users, &m.changes);
                }
                self.string_tables.push(table);
                assert(self.model().tables =~= before.created(m@)->Ok_0.tables);
                Ok(())
            },
            Message::UpdateStringTable(m) => {
                let id = m.table_id as usize;
                if id >= self.string_tables.len() {
                    return Err(ParseError::StringTableNotFound(id));
                }
                if !changes_fit(&m.changes, self.string_tables[id].layout.max_entries) {
                    return Err(ParseError::StringTableOverflow);
                }
                let mut table = StringTable::new(String::new(), 0, 0);
                std::mem::swap(&mut table, &mut self.string_tables[id]);
                table.apply_changes(&m.changes);
                if table.name == "userinfo".to_owned() {
                    apply_user_changes(&mut self.users, &m.changes);
                }
                self.string_tables.set(id, table);
                assert(self.model().tables =~= before.updated(m@)->Ok_0.tables);
                Ok(())
            },
            _ => Ok(()),
        }
    }

    /// Takes note of the data tables, as [`StateModel::declared`] says.
    /// Where the properties of a class cannot be worked out the state stays
    /// as it was.
    pub fn handle_data_tables(&mut self, tables: &DataTables) -> (r: Result<(), ParseError>)
        requires
            old(self).wf(),
        ensures
            final(self).wf(),
            (match old(self).model().declared(tables@) {
                Ok(next) => r is Ok && final(self).model() == next,
                Err(e) => r matches Err(x) && x == e,
            }),
            r is Err ==> *final(self) == *old(self),
    {
        let classes = match tables.flatten() {
            Ok(v) => v,
            Err(e) => {
                return Err(e);
            },
        };
        if classes.len() > usize::MAX / 2 {
            return Err(ParseError::DataTableTruncated);
        }
        self.world = EntityWorld::new(classes.len());
        self.server_classes = classes;
        Ok(())
    }
}

/// What makes something of a demo: it is shown the head and every message,
/// in the order of the file, and in the end gives what it has made of them.
/// Whatever it is shown, it is shown after the state has taken note of it.
pub trait Analyser {
    /// What the analyser makes of a demo.
    type Output;

    /// Whether the analyser wants to see messages of this kind.
    fn handles_message(&self, kind: MessageType) -> bool;

    /// Is shown the head of the demo.
    fn handle_header(&mut self, header: &Header);

    /// Is shown an entry of a string table that a message has changed: the
    /// name of the table, the index of the entry, and the entry as it is
    /// after the message.
    fn handle_string_entry(&mut self, table: &str, index: usize, entry: &StringTableEntry);

    /// Is shown a message, the tick at which it came, and the state after
    /// it.
    fn handle_message(&mut self, message: &Message, tick: u32, state: &ParserState);

    /// Is shown a game event, the tick at which it came, and the state
    /// after it.
    fn handle_game_event(&mut self, event: &GameEvent, tick: u32, state: &ParserState);

    /// Is told that a packet is through, with the tick of the packet.
    fn handle_packet_meta(&mut self, tick: i32, state: &ParserState);

    /// What the analyser has made of what it was shown.
    fn finalise(self) -> Self::Output;
}

/// How decoding a demo ended.
pub struct ParseOutcome<T> {
    /// The head of the demo, where it could be decoded.
    pub header: Option<Header>,
    /// What the analyser made of the demo, as far as it could be decoded.
    pub output: T,
    /// Why decoding stopped before the end, if it did.
    pub error: Option<ParseError>,
    /// The tick of the last packet that was decoded.
    pub tick: i32,
}

/// What decoding the messages at `pos` to the end of the data of a packet
/// gives, after `done` messages: the state after the last message, and the
/// number of messages. As long as the data holds another tag a message
/// follows; the first message that cannot be decoded, or that the state
/// refuses, ends it all. A message takes up at least the bits of its tag:
/// one that would take up none is refused, with which the decoding comes to
/// an end.
pub open spec fn run_messages(
    state: StateModel,
    bits: Seq<bool>,
    pos: int,
    done: nat,
) -> Result<(StateModel, nat), ParseError>
    decreases bits.len() - pos,
{
    if bits.len() - pos < MESSAGE_TYPE_BITS {
        Ok((state, done))
    } else {
        match Message::parse_spec(state.decoding(), bits, pos) {
            Err(e) => Err(e),
            Ok((message, end)) => if pos < end <= bits.len() {
                match state.after(message) {
                    Err(e) => Err(e),
                    Ok(next) => run_messages(next, bits, end, done + 1),
                }
            } else {
                Err(ParseError::ReadOutOfBounds)
            },
        }
    }
}

impl ParserState {
    /// The table that a message has changed, in the state that has taken
    /// note of the message, and the changes that the message made to it: for
    /// a message that creates a table the table that was created last, and
    /// for a message that changes a table the table that it names. Every
    /// other message has changed no table.
    pub fn changed_table<'b>(&'b self, message: &'b Message) -> (r: Option<
        (&'b StringTable, &'b Vec<StringTableChange>),
    >)
        ensures
            (match message {
                Message::CreateStringTable(m) => if self.string_tables@.len() > 0 {
                    r == Some((&self.string_tables@.last(), &m.changes))
                } else {
                    r is None
                },
                Message::UpdateStringTable(m) => if m.table_id < self.string_tables@.len() {
                    r == Some((&self.string_tables@[m.table_id as int], &m.changes))
                } else {
                    r is None
                },
                _ => r is None,
            }),
    {
        match message {
            Message::CreateStringTable(m) => {
                if self.string_tables.len() > 0 {
                    Some((&self.string_tables[self.string_tables.len() - 1], &m.changes))
                } else {
                    None
                }
            },
            Message::UpdateStringTable(m) => {
                if (m.table_id as usize) < self.string_tables.len() {
                    Some((&self.string_tables[m.table_id as usize], &m.changes))
                } else {
                    None
                }
            },
            _ => None,
        }
    }
}

/// Shows the entries that a message has changed to the analyser, in the
/// order of the changes: for each change the name of the table, the index
/// that the change names, and the entry that the table holds there.
fn show_entries<A: Analyser>(
    analyser: &mut A,
    table: &StringTable,
    changes: &Vec<StringTableChange>,
) {
    let mut i: usize = 0;
    while i < changes.len()
        invariant
            i <= changes@.len(),
        decreases changes@.len() - i,
    {
        let index = changes[i].index;
        match table.entry(index) {
            Some(entry) => {
                analyser.handle_string_entry(table.name.as_str(), index, entry);
            },
            None => {},
        }
        i = i + 1;
    }
}

/// Shows a message to the analyser: the entries that it has changed, the
/// message itself if the analyser wants to see messages of its kind, and
/// the game event that it brings.
fn show_message<A: Analyser>(analyser: &mut A, message: &Message, state: &ParserState) {
    match state.changed_table(message) {
        Some((table, changes)) => {
            show_entries(analyser, table, changes);
        },
        None => {},
    }
    if analyser.handles_message(message.get_message_type()) {
        analyser.handle_message(message, state.tick, state);
    }
    match message {
        Message::GameEvent(event) => {
            analyser.handle_game_event(event, state.tick, state);
        },
        _ => {},
    }
}

/// Decodes the messages of a packet one after the other, as long as the
/// data holds another tag. Each message is noted in the state and then shown
/// to the analyser. Gives the number of messages.
pub fn read_messages<A: Analyser>(
    data: &mut Stream,
    state: &mut ParserState,
    analyser: &mut A,
) -> (r: Result<usize, ParseError>)
    requires
        old(data).inv(),
        old(state).wf(),
    ensures
        final(data).inv(),
        final(data).same_window(old(data)),
        final(state).wf(),
        (match run_messages(old(state).model(), old(data).bits(), old(data).position(), 0) {
            Ok((next, count)) => r matches Ok(n) && n == count && final(state).model() == next,
            Err(e) => r matches Err(x) && x == e,
        }),
        r is Ok ==> final(data).remaining() < MESSAGE_TYPE_BITS,
{
    let ghost bits = data.bits();
    let ghost total = run_messages(state.model(), bits, data.position(), 0);
    let mut count: usize = 0;
    while data.bits_left() >= MESSAGE_TYPE_BITS
        invariant
            data.inv(),
            data.same_window(old(data)),
            data.bits() == bits,
            state.wf(),
            count <= data.position() - old(data).position(),
            total == run_messages(old(state).model(), old(data).bits(), old(data).position(), 0),
            total == run_messages(state.model(), bits, data.position(), count as nat),
        decreases data.remaining(),
    {
        let before = data.pos();
        proof {
            state.lemma_decoding();
        }
        let message = match Message::parse(data, state) {
            Ok(message) => message,
            Err(e) => {
                return Err(e);
            },
        };
        if data.pos() <= before {
            return Err(ParseError::ReadOutOfBounds);
        }
        match state.handle_message(&message) {
            Ok(()) => {},
            Err(e) => {
                return Err(e);
            },
        }
        show_message(analyser, &message, state);
        count = count + 1;
    }
    Ok(count)
}

/// How decoding the packets of a demo ends.
pub struct RunView {
    /// Why decoding stopped before the end, if it did.
    pub error: Option<ParseError>,
    /// The tick of the last packet that was decoded.
    pub tick: i32,
}

/// How decoding the packets at `pos` ends, where the last packet before
/// them had the tick `tick`.
///
/// Packets follow each other up to the packet that ends the demo, or until
/// less than a byte is left. The messages of a packet are decoded as
/// [`run_messages`] says; data tables are decoded and noted in the state;
/// every other packet is passed over. The first thing that cannot be
/// decoded ends it all: a packet that cannot be decoded leaves the tick of
/// the packet before it, and a packet whose data cannot be decoded leaves
/// its own. A packet that would take up no bits is refused.
pub open spec fn run_packets(state: StateModel, bits: Seq<bool>, pos: int, tick: i32) -> RunView
    decreases bits.len() - pos,
{
    if bits.len() - pos < 8 {
        RunView { error: None, tick }
    } else {
        match Packet::parse(bits, pos) {
            Err(e) => RunView { error: Some(e), tick },
            Ok((packet, end)) => if !(pos < end <= bits.len()) {
                RunView { error: Some(ParseError::ReadOutOfBounds), tick }
            } else {
                match packet.kind {
                    PacketType::Stop => RunView { error: None, tick: packet.tick },
                    PacketType::SignOn | PacketType::Packet => match run_messages(
                        state,
                        packet.data,
                        0,
                        0,
                    ) {
                        Err(e) => RunView { error: Some(e), tick: packet.tick },
                        Ok((next, _)) => run_packets(next, bits, end, packet.tick),
                    },
                    PacketType::DataTables => match DataTables::parse(packet.data, 0) {
                        Err(e) => RunView { error: Some(e), tick: packet.tick },
                        Ok((tables, _)) => match state.declared(tables) {
                            Err(e) => RunView { error: Some(e), tick: packet.tick },
                            Ok(next) => run_packets(next, bits, end, packet.tick),
                        },
                    },
                    _ => run_packets(state, bits, end, packet.tick),
                }
            },
        }
    }
}

/// How decoding a demo ends: the head comes first, and the packets follow
/// it. A demo whose head cannot be decoded ends there, at tick 0.
pub open spec fn run_demo(bits: Seq<bool>) -> RunView {
    match Header::parse(bits, 0) {
        Err(e) => RunView { error: Some(e), tick: 0 },
        Ok((_, end)) => run_packets(StateModel::start(), bits, end, 0),
    }
}

/// Decodes a demo and shows it to an analyser.
///
/// The head comes first; a file that is too long to be read or whose head
/// cannot be decoded ends there. Then the packets follow, as
/// [`run_packets`] says. The first thing that cannot be decoded ends the
/// demo; what the analyser has seen until then still goes into its output.
pub fn parse<A: Analyser>(bytes: &[u8], analyser: A) -> (r: ParseOutcome<A::Output>)
    ensures
        bytes@.len() > MAX_BUFFER_BYTES ==> r.header is None && r.tick == 0 && r.error == Some(
            ParseError::ReadOutOfBounds,
        ),
        bytes@.len() <= MAX_BUFFER_BYTES ==> (match Header::parse(bits_of_bytes(bytes@), 0) {
            Ok((view, _)) => r.header matches Some(header) && header@ == view,
            Err(e) => r.header is None,
        }),
        bytes@.len() <= MAX_BUFFER_BYTES ==> r.error == run_demo(bits_of_bytes(bytes@)).error
            && r.tick == run_demo(bits_of_bytes(bytes@)).tick,
{
    let mut analyser = analyser;
    let mut stream = match Stream::new(bytes) {
        Some(stream) => stream,
        None => {
            return ParseOutcome {
                header: None,
                output: analyser.finalise(),
                error: Some(ParseError::ReadOutOfBounds),
                tick: 0,
            };
        },
    };
    let header = match Header::read(&mut stream) {
        Ok(header) => header,
        Err(e) => {
            return ParseOutcome {
                header: None,
                output: analyser.finalise(),
                error: Some(e),
                tick: 0,
            };
        },
    };
    analyser.handle_header(&header);
    let ghost bits = stream.bits();
    let ghost total = run_demo(bits);
    let mut state = ParserState::new();
    let mut tick: i32 = 0;
    let mut error: Option<ParseError> = None;
    while stream.bits_left() >= 8
        invariant_except_break
            error is None,
            total == run_packets(state.model(), bits, stream.position(), tick),
        invariant
            stream.inv(),
            stream.bits() == bits,
            state.wf(),
        ensures
            total == (RunView { error, tick }),
        decreases stream.remaining(),
    {
        let before = stream.pos();
        let mut packet = match Packet::read(&mut stream) {
            Ok(packet) => packet,
            Err(e) => {
                error = Some(e);
                break ;
            },
        };
        if stream.pos() <= before {
            error = Some(ParseError::ReadOutOfBounds);
            break ;
        }
        tick = packet.tick;
        match packet.kind {
            PacketType::Stop => {
                break ;
            },
            PacketType::SignOn | PacketType::Packet => {
                match read_messages(&mut packet.data, &mut state, &mut analyser) {
                    Ok(_) => {},
                    Err(e) => {
                        error = Some(e);
                        break ;
                    },
                }
            },
            PacketType::DataTables => {
                let handled = match DataTables::read(&mut packet.data) {
                    Ok(tables) => state.handle_data_tables(&tables),
                    Err(e) => Err(e),
                };
                match handled {
                    Ok(()) => {},
                    Err(e) => {
                        error = Some(e);
                        break ;
                    },
                }
            },
            _ => {},
        }
        analyser.handle_packet_meta(tick, &state);
    }
    ParseOutcome { header: Some(header), output: analyser.finalise(), error, tick }
}

} // verus!
