//! Game events: what happens in the game, such as a kill or the end of a
//! round.
//!
//! Early in a demo a list declares the events that may follow: for each its
//! id, its name, and the names and types of its values. An event on the wire
//! is then its id and its values, one after the other, without names or
//! types: it can only be decoded with the declaration at hand.
use crate::demo::data::MaybeUtf8String;
use crate::demo::parser::ParseError;
use crate::stream::{
    c_string_at, c_string_consumed, signed_of, take_bool, take_skip, take_string, take_uint,
    uint_at, ReadError, Stream,
};
use vstd::arithmetic::power2::{lemma2_to64, lemma2_to64_rest};
use vstd::prelude::*;
use vstd::utf8::decode_utf8;

verus! {

/// The number of bits of the id of an event, and of the number of declared
/// events.
pub const EVENT_ID_BITS: usize = 9;

/// The number of bits of the type of a value.
pub const EVENT_TYPE_BITS: usize = 3;

/// The number of bits of the length of an event.
pub const EVENT_LENGTH_BITS: usize = 11;

/// The type of a value of an event.
#[derive(Clone, Copy, Debug, PartialEq, Eq, Structural)]
pub enum GameEventValueType {
    String,
    Float,
    Long,
    Short,
    Byte,
    Bool,
    Uint64,
    WString,
}

impl GameEventValueType {
    /// The type that the number `raw` names in a declaration. Zero names
    /// none: it ends the declaration.
    pub open spec fn from_id(raw: u8) -> Option<Self> {
        match raw {
            1 => Some(GameEventValueType::String),
            2 => Some(GameEventValueType::Float),
            3 => Some(GameEventValueType::Long),
            4 => Some(GameEventValueType::Short),
            5 => Some(GameEventValueType::Byte),
            6 => Some(GameEventValueType::Bool),
            7 => Some(GameEventValueType::Uint64),
            _ => None,
        }
    }

    /// The type that `raw` names, if it names one.
    pub fn from_u8(raw: u8) -> (r: Option<Self>)
        ensures
            r == Self::from_id(raw),
    {
        match raw {
            1 => Some(GameEventValueType::String),
            2 => Some(GameEventValueType::Float),
            3 => Some(GameEventValueType::Long),
            4 => Some(GameEventValueType::Short),
            5 => Some(GameEventValueType::Byte),
            6 => Some(GameEventValueType::Bool),
            7 => Some(GameEventValueType::Uint64),
            _ => None,
        }
    }
}

/// The declaration of one value of an event.
#[derive(Debug, Clone)]
pub struct GameEventEntry {
    pub name: String,
    pub kind: GameEventValueType,
}

/// What a [`GameEventEntry`] holds.
pub struct EntryView {
    pub name: Seq<char>,
    pub kind: GameEventValueType,
}

impl GameEventEntry {
    /// What the declaration holds.
    pub open spec fn view(&self) -> EntryView {
        EntryView { name: self.name@, kind: self.kind }
    }
}

/// The declaration of an event.
#[derive(Debug, Clone)]
pub struct GameEventDescriptor {
    pub id: u16,
    pub name: String,
    pub entries: Vec<GameEventEntry>,
}

/// What a [`GameEventDescriptor`] holds.
pub struct DescriptorView {
    pub id: u16,
    pub name: Seq<char>,
    pub entries: Seq<EntryView>,
}

/// The declarations of a list.
pub open spec fn entries_view(entries: &Vec<GameEventEntry>) -> Seq<EntryView> {
    Seq::new(entries@.len(), |i: int| entries@[i]@)
}

/// The declarations of a list of events.
pub open spec fn descriptors_view(list: &Vec<GameEventDescriptor>) -> Seq<DescriptorView> {
    Seq::new(list@.len(), |i: int| list@[i]@)
}

/// The types of the values of a declaration, in order.
pub open spec fn kinds_of(entries: Seq<EntryView>) -> Seq<GameEventValueType> {
    Seq::new(entries.len(), |i: int| entries[i].kind)
}

/// What decoding the declared values of one event at `pos` gives: for each a
/// type of three bits and a name, up to a type of zero.
///
/// A name never ends behind the data, so the last branch is never taken: it
/// stands there to show that the decoding comes to an end.
pub open spec fn take_entries(bits: Seq<bool>, pos: int) -> Result<(Seq<EntryView>, int), ReadError>
    decreases bits.len() - pos,
{
    match take_uint(bits, pos, 3) {
        Err(e) => Err(e),
        Ok((raw, p1)) => match GameEventValueType::from_id(raw as u8) {
            None => Ok((Seq::empty(), p1)),
            Some(kind) => match take_string(bits, p1) {
                Err(e) => Err(e),
                Ok((name, p2)) => if p1 <= p2 <= bits.len() {
                    match take_entries(bits, p2) {
                        Err(e) => Err(e),
                        Ok((rest, end)) => Ok(
                            (seq![EntryView { name: decode_utf8(name), kind }] + rest, end),
                        ),
                    }
                } else {
                    Err(ReadError::NotEnoughData { requested: 0, bits_left: 0 })
                },
            },
        },
    }
}

impl GameEventDescriptor {
    /// What the declaration holds.
    pub open spec fn view(&self) -> DescriptorView {
        DescriptorView { id: self.id, name: self.name@, entries: entries_view(&self.entries) }
    }

    /// What decoding one declaration at `pos` gives: an id of nine bits, a
    /// name, and the declared values.
    pub open spec fn parse(bits: Seq<bool>, pos: int) -> Result<(DescriptorView, int), ReadError> {
        match take_uint(bits, pos, 9) {
            Err(e) => Err(e),
            Ok((id, p1)) => match take_string(bits, p1) {
                Err(e) => Err(e),
                Ok((name, p2)) => match take_entries(bits, p2) {
                    Err(e) => Err(e),
                    Ok((entries, end)) => Ok(
                        (DescriptorView { id: id as u16, name: decode_utf8(name), entries }, end),
                    ),
                },
            },
        }
    }

    /// The outcome of decoding more declared values, with those that were
    /// decoded before put in front.
    pub open spec fn after_entries(
        done: Seq<EntryView>,
        more: Result<(Seq<EntryView>, int), ReadError>,
    ) -> Result<(Seq<EntryView>, int), ReadError> {
        match more {
            Ok((rest, end)) => Ok((done + rest, end)),
            Err(e) => Err(e),
        }
    }

    /// The declaration with the given id and name, where its values decode.
    pub open spec fn with_entries(
        id: u16,
        name: Seq<char>,
        entries: Result<(Seq<EntryView>, int), ReadError>,
    ) -> Result<(DescriptorView, int), ReadError> {
        match entries {
            Ok((entries, end)) => Ok((DescriptorView { id, name, entries }, end)),
            Err(e) => Err(e),
        }
    }

    /// Reads one declaration.
    pub fn read(stream: &mut Stream) -> (r: Result<Self, ReadError>)
        requires
            old(stream).inv(),
        ensures
            final(stream).inv(),
            final(stream).same_window(old(stream)),
            (match Self::parse(old(stream).bits(), old(stream).position()) {
                Ok((view, end)) => (r matches Ok(found) && found@ == view)
                    && final(stream).position() == end,
                Err(e) => r matches Err(x) && x == e,
            }),
    {
        let id = match stream.read_int(EVENT_ID_BITS) {
            Ok(v) => {
                proof {
                    lemma2_to64();
                }
                v as u16
            },
            Err(e) => {
                return Err(e);
            },
        };
        let name = match stream.read_string() {
            Ok(v) => v,
            Err(e) => {
                return Err(e);
            },
        };
        let ghost bits = stream.bits();
        let ghost total = take_entries(bits, stream.position());
        let mut entries: Vec<GameEventEntry> = Vec::new();
        proof {
            match total {
                Ok((rest, end)) => {
                    assert(entries_view(&entries) + rest =~= rest);
                },
                Err(e) => {},
            }
        }
        loop
            invariant_except_break
                total == Self::after_entries(
                    entries_view(&entries),
                    take_entries(bits, stream.position()),
                ),
            invariant
                stream.inv(),
                stream.same_window(old(stream)),
                stream.bits() == bits,
                Self::parse(old(stream).bits(), old(stream).position()) == Self::with_entries(
                    id,
                    name@,
                    total,
                ),
            ensures
                stream.inv(),
                stream.same_window(old(stream)),
                total matches Ok(found) && found.0 == entries_view(&entries) && found.1
                    == stream.position(),
            decreases stream.remaining(),
        {
            let ghost done = entries_view(&entries);
            let ghost pos = stream.position();
            let raw = match stream.read_int(EVENT_TYPE_BITS) {
                Ok(v) => {
                    proof {
                        lemma2_to64();
                    }
                    v as u8
                },
                Err(e) => {
                    return Err(e);
                },
            };
            let kind = match GameEventValueType::from_u8(raw) {
                Some(kind) => kind,
                None => {
                    proof {
                        assert(done + Seq::<EntryView>::empty() =~= done);
                    }
                    break ;
                },
            };
            let entry_name = match stream.read_string() {
                Ok(v) => v,
                Err(e) => {
                    return Err(e);
                },
            };
            let entry = GameEventEntry { name: entry_name, kind };
            proof {
                match take_entries(bits, stream.position()) {
                    Ok((rest, end)) => {
                        assert(done + (seq![entry@] + rest) =~= done.push(entry@) + rest);
                    },
                    Err(e) => {},
                }
            }
            entries.push(entry);
            assert(entries_view(&entries) =~= done.push(entry@));
        }
        Ok(GameEventDescriptor { id, name, entries })
    }
}

/// What decoding `count` declarations at `pos` gives.
pub open spec fn take_descriptors(bits: Seq<bool>, pos: int, count: nat) -> Result<
    (Seq<DescriptorView>, int),
    ReadError,
>
    decreases count,
{
    if count == 0 {
        Ok((Seq::empty(), pos))
    } else {
        match GameEventDescriptor::parse(bits, pos) {
            Err(e) => Err(e),
            Ok((first, p)) => match take_descriptors(bits, p, (count - 1) as nat) {
                Err(e) => Err(e),
                Ok((rest, end)) => Ok((seq![first] + rest, end)),
            },
        }
    }
}

/// The outcome of decoding more declarations, with those that were decoded
/// before put in front.
pub open spec fn after_descriptors(
    done: Seq<DescriptorView>,
    more: Result<(Seq<DescriptorView>, int), ReadError>,
) -> Result<(Seq<DescriptorView>, int), ReadError> {
    match more {
        Ok((rest, end)) => Ok((done + rest, end)),
        Err(e) => Err(e),
    }
}

/// What decoding the list of declared events at `pos` gives: their number,
/// in nine bits, and so many declarations.
#[verifier::opaque]
pub open spec fn take_event_list(bits: Seq<bool>, pos: int) -> Result<
    (Seq<DescriptorView>, int),
    ParseError,
> {
    match take_uint(bits, pos, 9) {
        Err(e) => Err(ParseError::of_read(e)),
        Ok((count, p1)) => match take_descriptors(bits, p1, count) {
            Err(e) => Err(ParseError::of_read(e)),
            Ok(found) => Ok(found),
        },
    }
}

/// Reads the list of declared events.
pub fn read_event_list(stream: &mut Stream) -> (r: Result<Vec<GameEventDescriptor>, ParseError>)
    requires
        old(stream).inv(),
    ensures
        final(stream).inv(),
        final(stream).same_window(old(stream)),
        (match take_event_list(old(stream).bits(), old(stream).position()) {
            Ok((list, end)) => (r matches Ok(found) && descriptors_view(&found) == list)
                && final(stream).position() == end,
            Err(e) => r matches Err(x) && x == e,
        }),
{
    reveal(take_event_list);
    let count = match stream.read_int(EVENT_ID_BITS) {
        Ok(v) => {
            proof {
                lemma2_to64();
            }
            v as usize
        },
        Err(e) => {
            return Err(ParseError::from_read(e));
        },
    };
    let ghost bits = stream.bits();
    let ghost total = take_descriptors(bits, stream.position(), count as nat);
    let mut out: Vec<GameEventDescriptor> = Vec::new();
    let mut i: usize = 0;
    proof {
        match total {
            Ok((rest, end)) => {
                assert(descriptors_view(&out) + rest =~= rest);
            },
            Err(e) => {},
        }
    }
    while i < count
        invariant
            i <= count,
            stream.inv(),
            stream.same_window(old(stream)),
            stream.bits() == bits,
            take_event_list(old(stream).bits(), old(stream).position()) == (match total {
                Ok(found) => Ok::<(Seq<DescriptorView>, int), ParseError>(found),
                Err(e) => Err::<(Seq<DescriptorView>, int), ParseError>(ParseError::of_read(e)),
            }),
            total == after_descriptors(
                descriptors_view(&out),
                take_descriptors(bits, stream.position(), (count - i) as nat),
            ),
        decreases count - i,
    {
        let ghost done = descriptors_view(&out);
        let descriptor = match GameEventDescriptor::read(stream) {
            Ok(v) => v,
            Err(e) => {
                return Err(ParseError::from_read(e));
            },
        };
        proof {
            match take_descriptors(bits, stream.position(), (count - i - 1) as nat) {
                Ok((rest, end)) => {
                    assert(done + (seq![descriptor@] + rest) =~= done.push(descriptor@) + rest);
                },
                Err(e) => {},
            }
        }
        out.push(descriptor);
        assert(descriptors_view(&out) =~= done.push(descriptor@));
        i = i + 1;
    }
    proof {
        assert(descriptors_view(&out) + Seq::<DescriptorView>::empty() =~= descriptors_view(&out));
    }
    Ok(out)
}

/// A value of an event. A `Float` is a 32-bit IEEE 754 number, held here as
/// the 32 bits that encode it.
#[derive(Debug, Clone, PartialEq, Eq)]
pub enum GameEventValue {
    String(MaybeUtf8String),
    Float(u32),
    Long(i32),
    Short(i16),
    Byte(u8),
    Boolean(bool),
    Uint64(u64),
    WString(Vec<u16>),
}

/// What a [`GameEventValue`] holds.
pub enum ValueView {
    String(Seq<u8>),
    Float(u32),
    Long(i32),
    Short(i16),
    Byte(u8),
    Boolean(bool),
    Uint64(u64),
    WString(Seq<u16>),
}

/// What decoding `count` units of sixteen bits at `pos` gives.
pub open spec fn take_units(bits: Seq<bool>, pos: int, count: nat) -> Result<
    (Seq<u16>, int),
    ReadError,
>
    decreases count,
{
    if count == 0 {
        Ok((Seq::empty(), pos))
    } else {
        match take_uint(bits, pos, 16) {
            Err(e) => Err(e),
            Ok((unit, p)) => match take_units(bits, p, (count - 1) as nat) {
                Err(e) => Err(e),
                Ok((rest, end)) => Ok((seq![unit as u16] + rest, end)),
            },
        }
    }
}

/// The outcome of decoding more units, with those that were decoded before
/// put in front.
pub open spec fn after_units(done: Seq<u16>, more: Result<(Seq<u16>, int), ReadError>) -> Result<
    (Seq<u16>, int),
    ReadError,
> {
    match more {
        Ok((rest, end)) => Ok((done + rest, end)),
        Err(e) => Err(e),
    }
}

impl GameEventValue {
    /// What the value holds.
    pub open spec fn view(&self) -> ValueView {
        match self {
            GameEventValue::String(s) => ValueView::String(s.bytes()),
            GameEventValue::Float(v) => ValueView::Float(*v),
            GameEventValue::Long(v) => ValueView::Long(*v),
            GameEventValue::Short(v) => ValueView::Short(*v),
            GameEventValue::Byte(v) => ValueView::Byte(*v),
            GameEventValue::Boolean(v) => ValueView::Boolean(*v),
            GameEventValue::Uint64(v) => ValueView::Uint64(*v),
            GameEventValue::WString(v) => ValueView::WString(v@),
        }
    }

    /// What decoding a value of the given type at `pos` gives.
    ///
    /// A string is NUL-terminated and may hold any bytes. `Float`, `Long`
    /// and `Uint64` take 32, 32 and 64 bits, `Short` 16, `Byte` 8 and `Bool`
    /// one; `Long` and `Short` are signed. A wide string is the number of
    /// its units, in sixteen bits, and so many units of sixteen bits.
    pub open spec fn parse(bits: Seq<bool>, pos: int, kind: GameEventValueType) -> Result<
        (ValueView, int),
        ReadError,
    > {
        match kind {
            GameEventValueType::String => Ok(
                (
                    ValueView::String(c_string_at(bits, pos)),
                    pos + 8 * c_string_consumed(bits, pos),
                ),
            ),
            GameEventValueType::Float => match take_uint(bits, pos, 32) {
                Err(e) => Err(e),
                Ok((v, end)) => Ok((ValueView::Float(v as u32), end)),
            },
            GameEventValueType::Long => match take_uint(bits, pos, 32) {
                Err(e) => Err(e),
                Ok((v, end)) => Ok((ValueView::Long(signed_of(v, 32) as i32), end)),
            },
            GameEventValueType::Short => match take_uint(bits, pos, 16) {
                Err(e) => Err(e),
                Ok((v, end)) => Ok((ValueView::Short(signed_of(v, 16) as i16), end)),
            },
            GameEventValueType::Byte => match take_uint(bits, pos, 8) {
                Err(e) => Err(e),
                Ok((v, end)) => Ok((ValueView::Byte(v as u8), end)),
            },
            GameEventValueType::Bool => match take_bool(bits, pos) {
                Err(e) => Err(e),
                Ok((v, end)) => Ok((ValueView::Boolean(v), end)),
            },
            GameEventValueType::Uint64 => match take_uint(bits, pos, 64) {
                Err(e) => Err(e),
                Ok((v, end)) => Ok((ValueView::Uint64(v as u64), end)),
            },
            GameEventValueType::WString => match take_uint(bits, pos, 16) {
                Err(e) => Err(e),
                Ok((count, p1)) => match take_units(bits, p1, count) {
                    Err(e) => Err(e),
                    Ok((units, end)) => Ok((ValueView::WString(units), end)),
                },
            },
        }
    }

    /// Reads `count` units of sixteen bits.
    pub fn read_units(stream: &mut Stream, count: usize) -> (r: Result<Vec<u16>, ReadError>)
        requires
            old(stream).inv(),
        ensures
            final(stream).inv(),
            final(stream).same_window(old(stream)),
            (match take_units(old(stream).bits(), old(stream).position(), count as nat) {
                Ok((units, end)) => (r matches Ok(found) && found@ == units)
                    && final(stream).position() == end,
                Err(e) => r matches Err(x) && x == e,
            }),
    {
        let ghost bits = stream.bits();
        let ghost total = take_units(bits, stream.position(), count as nat);
        let mut out: Vec<u16> = Vec::new();
        let mut i: usize = 0;
        proof {
            match total {
                Ok((rest, end)) => {
                    assert(out@ + rest =~= rest);
                },
                Err(e) => {},
            }
        }
        while i < count
            invariant
                i <= count,
                stream.inv(),
                stream.same_window(old(stream)),
                stream.bits() == bits,
                total == take_units(old(stream).bits(), old(stream).position(), count as nat),
                total == after_units(
                    out@,
                    take_units(bits, stream.position(), (count - i) as nat),
                ),
            decreases count - i,
        {
            let ghost done = out@;
            let unit = match stream.read_u16() {
                Ok(v) => v,
                Err(e) => {
                    return Err(e);
                },
            };
            proof {
                match take_units(bits, stream.position(), (count - i - 1) as nat) {
                    Ok((rest, end)) => {
                        assert(done + (seq![unit] + rest) =~= done.push(unit) + rest);
                    },
                    Err(e) => {},
                }
            }
            out.push(unit);
            i = i + 1;
        }
        proof {
            assert(out@ + Seq::<u16>::empty() =~= out@);
        }
        Ok(out)
    }

    /// Reads a value of the given type.
    pub fn read(stream: &mut Stream, kind: GameEventValueType) -> (r: Result<Self, ReadError>)
        requires
            old(stream).inv(),
        ensures
            final(stream).inv(),
            final(stream).same_window(old(stream)),
            (match Self::parse(old(stream).bits(), old(stream).position(), kind) {
                Ok((view, end)) => (r matches Ok(found) && found@ == view)
                    && final(stream).position() == end,
                Err(e) => r matches Err(x) && x == e,
            }),
    {
        match kind {
            GameEventValueType::String => match MaybeUtf8String::read(stream) {
                Ok(v) => Ok(GameEventValue::String(v)),
                Err(e) => Err(e),
            },
            GameEventValueType::Float => match stream.read_u32() {
                Ok(v) => Ok(GameEventValue::Float(v)),
                Err(e) => Err(e),
            },
            GameEventValueType::Long => match stream.read_signed(32) {
                Ok(v) => {
                    proof {
                        lemma2_to64();
                        lemma2_to64_rest();
                        crate::bits::lemma_bits_value_bound(
                            old(stream).bits().subrange(
                                old(stream).position(),
                                old(stream).position() + 32,
                            ),
                        );
                    }
                    Ok(GameEventValue::Long(v as i32))
                },
                Err(e) => Err(e),
            },
            GameEventValueType::Short => match stream.read_signed(16) {
                Ok(v) => {
                    proof {
                        lemma2_to64();
                        crate::bits::lemma_bits_value_bound(
                            old(stream).bits().subrange(
                                old(stream).position(),
                                old(stream).position() + 16,
                            ),
                        );
                    }
                    Ok(GameEventValue::Short(v as i16))
                },
                Err(e) => Err(e),
            },
            GameEventValueType::Byte => match stream.read_u8() {
                Ok(v) => Ok(GameEventValue::Byte(v)),
                Err(e) => Err(e),
            },
            GameEventValueType::Bool => match stream.read_bool() {
                Ok(v) => Ok(GameEventValue::Boolean(v)),
                Err(e) => Err(e),
            },
            GameEventValueType::Uint64 => match stream.read_int(64) {
                Ok(v) => Ok(GameEventValue::Uint64(v)),
                Err(e) => Err(e),
            },
            GameEventValueType::WString => {
                let count = match stream.read_u16() {
                    Ok(v) => v as usize,
                    Err(e) => {
                        return Err(e);
                    },
                };
                match Self::read_units(stream, count) {
                    Ok(units) => Ok(GameEventValue::WString(units)),
                    Err(e) => Err(e),
                }
            },
        }
    }
}

/// What decoding one value for each of the types `kinds` at `pos` gives.
pub open spec fn take_values(bits: Seq<bool>, pos: int, kinds: Seq<GameEventValueType>) -> Result<
    (Seq<ValueView>, int),
    ReadError,
>
    decreases kinds.len(),
{
    if kinds.len() == 0 {
        Ok((Seq::empty(), pos))
    } else {
        match GameEventValue::parse(bits, pos, kinds[0]) {
            Err(e) => Err(e),
            Ok((first, p)) => match take_values(bits, p, kinds.drop_first()) {
                Err(e) => Err(e),
                Ok((rest, end)) => Ok((seq![first] + rest, end)),
            },
        }
    }
}

/// The outcome of decoding more values, with those that were decoded before
/// put in front.
pub open spec fn after_values(
    done: Seq<ValueView>,
    more: Result<(Seq<ValueView>, int), ReadError>,
) -> Result<(Seq<ValueView>, int), ReadError> {
    match more {
        Ok((rest, end)) => Ok((done + rest, end)),
        Err(e) => Err(e),
    }
}

/// The values of a list.
pub open spec fn values_view(values: &Vec<GameEventValue>) -> Seq<ValueView> {
    Seq::new(values@.len(), |i: int| values@[i]@)
}

/// The place of the first declaration with the given id, or the length of
/// the list where none has it.
pub open spec fn place_of(list: Seq<DescriptorView>, id: u16) -> int
    decreases list.len(),
{
    if list.len() == 0 || list[0].id == id {
        0
    } else {
        1 + place_of(list.drop_first(), id)
    }
}

/// The first place that holds the id is the only one that holds it with none
/// before.
pub proof fn lemma_place_of(list: Seq<DescriptorView>, id: u16, n: int)
    requires
        0 <= n <= list.len(),
        forall|j: int| 0 <= j < n ==> list[j].id != id,
        n < list.len() ==> list[n].id == id,
    ensures
        place_of(list, id) == n,
    decreases n,
{
    if n > 0 {
        let rest = list.drop_first();
        assert forall|j: int| 0 <= j < n - 1 implies rest[j].id != id by {
            assert(rest[j] == list[j + 1]);
        }
        lemma_place_of(rest, id, n - 1);
    }
}

/// An event.
#[derive(Debug, Clone)]
pub struct GameEvent {
    pub id: u16,
    pub values: Vec<GameEventValue>,
}

/// What a [`GameEvent`] holds.
pub struct GameEventView {
    pub id: u16,
    pub values: Seq<ValueView>,
}

impl GameEvent {
    /// What the event holds.
    pub open spec fn view(&self) -> GameEventView {
        GameEventView { id: self.id, values: values_view(&self.values) }
    }

    /// What decoding an event at `pos` gives, with the declarations `list`
    /// at hand: an id of nine bits, which must be declared, and the values
    /// that the first declaration with that id names. An event that ends
    /// before its values do is malformed.
    pub open spec fn parse(bits: Seq<bool>, pos: int, list: Seq<DescriptorView>) -> Result<
        (GameEventView, int),
        ParseError,
    > {
        match take_uint(bits, pos, 9) {
            Err(e) => Err(ParseError::MalformedGameEvent),
            Ok((id, p1)) => if place_of(list, id as u16) >= list.len() {
                Err(ParseError::UnknownEventId(id as u16))
            } else {
                match take_values(bits, p1, kinds_of(list[place_of(list, id as u16)].entries)) {
                    Err(e) => Err(ParseError::MalformedGameEvent),
                    Ok((values, end)) => Ok((GameEventView { id: id as u16, values }, end)),
                }
            },
        }
    }

    /// The declaration of the event with the given id: the first in the list
    /// that has it.
    pub fn find(list: &Vec<GameEventDescriptor>, id: u16) -> (r: Option<usize>)
        ensures
            r matches Some(i) ==> i < list@.len() && i == place_of(descriptors_view(list), id),
            r is None ==> place_of(descriptors_view(list), id) >= list@.len(),
    {
        let mut i: usize = 0;
        while i < list.len() && list[i].id != id
            invariant
                i <= list@.len(),
                forall|j: int| 0 <= j < i ==> descriptors_view(list)[j].id != id,
            decreases list@.len() - i,
        {
            i = i + 1;
        }
        proof {
            lemma_place_of(descriptors_view(list), id, i as int);
        }
        if i < list.len() {
            Some(i)
        } else {
            None
        }
    }

    /// Reads an event.
    pub fn read(stream: &mut Stream, list: &Vec<GameEventDescriptor>) -> (r: Result<
        Self,
        ParseError,
    >)
        requires
            old(stream).inv(),
        ensures
            final(stream).inv(),
            final(stream).same_window(old(stream)),
            (match Self::parse(
                old(stream).bits(),
                old(stream).position(),
                descriptors_view(list),
            ) {
                Ok((view, end)) => (r matches Ok(found) && found@ == view)
                    && final(stream).position() == end,
                Err(e) => r matches Err(x) && x == e,
            }),
    {
        let id = match stream.read_int(EVENT_ID_BITS) {
            Ok(v) => {
                proof {
                    lemma2_to64();
                }
                v as u16
            },
            Err(e) => {
                return Err(ParseError::MalformedGameEvent);
            },
        };
        let place = match Self::find(list, id) {
            Some(place) => place,
            None => {
                return Err(ParseError::UnknownEventId(id));
            },
        };
        let entries = &list[place].entries;
        let ghost bits = stream.bits();
        let ghost kinds = kinds_of(descriptors_view(list)[place as int].entries);
        let ghost total = take_values(bits, stream.position(), kinds);
        let mut values: Vec<GameEventValue> = Vec::new();
        let mut i: usize = 0;
        proof {
            assert(kinds.skip(0) =~= kinds);
            match total {
                Ok((rest, end)) => {
                    assert(values_view(&values) + rest =~= rest);
                },
                Err(e) => {},
            }
        }
        while i < entries.len()
            invariant
                i <= entries@.len(),
                kinds.len() == entries@.len(),
                forall|k: int| 0 <= k < kinds.len() ==> kinds[k] == entries@[k].kind,
                stream.inv(),
                stream.same_window(old(stream)),
                stream.bits() == bits,
                Self::parse(old(stream).bits(), old(stream).position(), descriptors_view(list))
                    == (match total {
                    Ok((values, end)) => Ok::<(GameEventView, int), ParseError>(
                        (GameEventView { id, values }, end),
                    ),
                    Err(e) => Err::<(GameEventView, int), ParseError>(
                        ParseError::MalformedGameEvent,
                    ),
                }),
                total == after_values(
                    values_view(&values),
                    take_values(bits, stream.position(), kinds.skip(i as int)),
                ),
            decreases entries@.len() - i,
        {
            let ghost done = values_view(&values);
            let value = match GameEventValue::read(stream, entries[i].kind) {
                Ok(v) => v,
                Err(e) => {
                    return Err(ParseError::MalformedGameEvent);
                },
            };
            proof {
                assert(kinds.skip(i as int).drop_first() =~= kinds.skip(i + 1));
                match take_values(bits, stream.position(), kinds.skip(i + 1)) {
                    Ok((rest, end)) => {
                        assert(done + (seq![value@] + rest) =~= done.push(value@) + rest);
                    },
                    Err(e) => {},
                }
            }
            values.push(value);
            assert(values_view(&values) =~= done.push(value@));
            i = i + 1;
        }
        proof {
            assert(values_view(&values) + Seq::<ValueView>::empty() =~= values_view(&values));
        }
        Ok(GameEvent { id, values })
    }

    /// What decoding an event message at `pos` gives: the length of the
    /// event in eleven bits, and the event in so many bits. The message ends
    /// where its length says, whatever of it the event takes up.
    #[verifier::opaque]
    pub open spec fn parse_message(bits: Seq<bool>, pos: int, list: Seq<DescriptorView>) -> Result<
        (GameEventView, int),
        ParseError,
    > {
        match take_uint(bits, pos, 11) {
            Err(e) => Err(ParseError::of_read(e)),
            Ok((length, p1)) => match take_skip(bits, p1, length as int) {
                Err(e) => Err(ParseError::of_read(e)),
                Ok(end) => match Self::parse(bits.subrange(p1, end), 0, list) {
                    Err(e) => Err(e),
                    Ok((event, _)) => Ok((event, end)),
                },
            },
        }
    }

    /// Reads an event message. Once the bits of the event are there the
    /// cursor stands behind them, whether or not the event can be decoded.
    pub fn read_message(stream: &mut Stream, list: &Vec<GameEventDescriptor>) -> (r: Result<
        Self,
        ParseError,
    >)
        requires
            old(stream).inv(),
        ensures
            final(stream).inv(),
            final(stream).same_window(old(stream)),
            (match Self::parse_message(
                old(stream).bits(),
                old(stream).position(),
                descriptors_view(list),
            ) {
                Ok((view, end)) => (r matches Ok(found) && found@ == view)
                    && final(stream).position() == end,
                Err(e) => r matches Err(x) && x == e,
            }),
            old(stream).remaining() >= 11 && old(stream).remaining() - 11 >= uint_at(
                old(stream).bits(),
                old(stream).position(),
                11,
            ) ==> final(stream).position() == old(stream).position() + 11 + uint_at(
                old(stream).bits(),
                old(stream).position(),
                11,
            ),
    {
        reveal(GameEvent::parse_message);
        let length = match stream.read_int(EVENT_LENGTH_BITS) {
            Ok(v) => {
                proof {
                    lemma2_to64();
                }
                v as usize
            },
            Err(e) => {
                return Err(ParseError::from_read(e));
            },
        };
        let mut payload = match stream.read_bits(length) {
            Ok(v) => v,
            Err(e) => {
                return Err(ParseError::from_read(e));
            },
        };
        Self::read(&mut payload, list)
    }
}

/// A copy of a list of declarations.
pub fn copy_descriptors(list: &Vec<GameEventDescriptor>) -> (r: Vec<GameEventDescriptor>)
    ensures
        descriptors_view(&r) == descriptors_view(list),
{
    let mut out: Vec<GameEventDescriptor> = Vec::new();
    let mut i: usize = 0;
    while i < list.len()
        invariant
            i <= list@.len(),
            out@.len() == i,
            forall|j: int| 0 <= j < i ==> out@[j]@ == list@[j]@,
        decreases list@.len() - i,
    {
        let source = &list[i];
        let mut entries: Vec<GameEventEntry> = Vec::new();
        let mut k: usize = 0;
        while k < source.entries.len()
            invariant
                k <= source.entries@.len(),
                entries@.len() == k,
                forall|j: int| 0 <= j < k ==> entries@[j]@ == source.entries@[j]@,
            decreases source.entries@.len() - k,
        {
            let entry = &source.entries[k];
            entries.push(GameEventEntry { name: entry.name.clone(), kind: entry.kind });
            k = k + 1;
        }
        assert(entries_view(&entries) =~= entries_view(&source.entries));
        out.push(GameEventDescriptor { id: source.id, name: source.name.clone(), entries });
        i = i + 1;
    }
    assert(descriptors_view(&out) =~= descriptors_view(list));
    out
}

} // verus!
