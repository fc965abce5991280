//! The tables that declare the properties of entities, and what they come
//! to for each class.
//!
//! A table lists properties. A property may stand for another table, whose
//! properties then take its place, and a property may exclude a property of
//! a table that is drawn in that way. What a class has in the end is a flat
//! list: the properties of its table and of all tables drawn in, without
//! the excluded ones, with those that change often moved to the front. The
//! place of a property in this list is the number that the wire uses for it.
use crate::demo::parser::ParseError;
use crate::demo::sendprop::{
    classes_view, props_view, PropLayout, SendProp, SendPropFlags, SendPropType, SendPropView,
    ServerClass,
};
use crate::stream::{take_bool, take_string, take_uint, ReadError, Stream};
use vstd::arithmetic::power2::lemma2_to64;
use vstd::prelude::*;
use vstd::utf8::decode_utf8;

verus! {

/// How deep tables may draw in other tables.
pub const MAX_TABLE_DEPTH: usize = 16;

/// The number of bits of the type of a property.
pub const PROP_TYPE_BITS: usize = 5;

/// The number of bits of the flags of a property.
pub const PROP_FLAG_BITS: usize = 16;

/// The number of bits of the number of properties of a table, and of the
/// number of elements of an array.
pub const PROP_COUNT_BITS: usize = 10;

/// The number of bits of the bit count of a property.
pub const PROP_BIT_COUNT_BITS: usize = 7;

/// Whether bit `i` of `v` is set.
pub open spec fn bit_of(v: nat, i: nat) -> bool
    decreases i,
{
    if i == 0 {
        v % 2 == 1
    } else {
        bit_of(v / 2, (i - 1) as nat)
    }
}

/// The flags that a number of sixteen bits stands for, lowest bit first.
pub open spec fn flags_of(v: nat) -> SendPropFlags {
    SendPropFlags {
        unsigned: bit_of(v, 0),
        coord: bit_of(v, 1),
        no_scale: bit_of(v, 2),
        round_down: bit_of(v, 3),
        round_up: bit_of(v, 4),
        normal: bit_of(v, 5),
        exclude: bit_of(v, 6),
        xyze: bit_of(v, 7),
        inside_array: bit_of(v, 8),
        proxy_always_yes: bit_of(v, 9),
        changes_often: bit_of(v, 10),
        is_vector_elem: bit_of(v, 11),
        collapsible: bit_of(v, 12),
        coord_mp: bit_of(v, 13),
        coord_mp_low_precision: bit_of(v, 14),
        coord_mp_integral: bit_of(v, 15),
    }
}

/// Whether bit `i` of `v` is set.
pub fn test_bit(v: u32, i: usize) -> (r: bool)
    requires
        i < 32,
    ensures
        r == bit_of(v as nat, i as nat),
{
    let mut left = v;
    let mut k: usize = 0;
    while k < i
        invariant
            k <= i,
            bit_of(left as nat, (i - k) as nat) == bit_of(v as nat, i as nat),
        decreases i - k,
    {
        left = left / 2;
        k = k + 1;
    }
    left % 2 == 1
}

/// The flags that a number of sixteen bits stands for.
pub fn flags_from(v: u32) -> (r: SendPropFlags)
    ensures
        r == flags_of(v as nat),
{
    SendPropFlags {
        unsigned: test_bit(v, 0),
        coord: test_bit(v, 1),
        no_scale: test_bit(v, 2),
        round_down: test_bit(v, 3),
        round_up: test_bit(v, 4),
        normal: test_bit(v, 5),
        exclude: test_bit(v, 6),
        xyze: test_bit(v, 7),
        inside_array: test_bit(v, 8),
        proxy_always_yes: test_bit(v, 9),
        changes_often: test_bit(v, 10),
        is_vector_elem: test_bit(v, 11),
        collapsible: test_bit(v, 12),
        coord_mp: test_bit(v, 13),
        coord_mp_low_precision: test_bit(v, 14),
        coord_mp_integral: test_bit(v, 15),
    }
}

/// A property as a table declares it.
#[derive(Debug, Clone, PartialEq, Eq)]
pub struct RawSendProp {
    pub kind: SendPropType,
    pub name: String,
    pub flags: SendPropFlags,
    /// For a property that stands for a table, the name of that table; for
    /// one that excludes a property, the name of the table of that property.
    pub table_name: Option<String>,
    /// For an array, the greatest number of its elements.
    pub element_count: usize,
    pub low_value: u32,
    pub high_value: u32,
    pub bit_count: usize,
}

/// What a [`RawSendProp`] holds.
pub struct RawSendPropView {
    pub kind: SendPropType,
    pub name: Seq<char>,
    pub flags: SendPropFlags,
    pub table_name: Option<Seq<char>>,
    pub element_count: nat,
    pub low_value: u32,
    pub high_value: u32,
    pub bit_count: nat,
}

impl RawSendPropView {
    /// The layout of a value of the property.
    pub open spec fn layout(self) -> PropLayout {
        PropLayout {
            kind: self.kind,
            flags: self.flags,
            bit_count: self.bit_count as usize,
            low_value: self.low_value,
            high_value: self.high_value,
        }
    }
}

impl RawSendProp {
    /// What the property holds.
    pub open spec fn view(&self) -> RawSendPropView {
        RawSendPropView {
            kind: self.kind,
            name: self.name@,
            flags: self.flags,
            table_name: match self.table_name {
                Some(name) => Some(name@),
                None => None,
            },
            element_count: self.element_count as nat,
            low_value: self.low_value,
            high_value: self.high_value,
            bit_count: self.bit_count as nat,
        }
    }

    /// The layout of a value of the property.
    pub fn layout(&self) -> (r: PropLayout)
        ensures
            r == self@.layout(),
    {
        PropLayout {
            kind: self.kind,
            flags: self.flags,
            bit_count: self.bit_count,
            low_value: self.low_value,
            high_value: self.high_value,
        }
    }

    /// The property with the given head and nothing more.
    pub open spec fn bare(
        kind: SendPropType,
        name: Seq<char>,
        flags: SendPropFlags,
    ) -> RawSendPropView {
        RawSendPropView {
            kind,
            name,
            flags,
            table_name: None,
            element_count: 0,
            low_value: 0,
            high_value: 0,
            bit_count: 0,
        }
    }

    /// What decoding what follows the flags of a property gives. A property
    /// that stands for a table or excludes a property names a table; an
    /// array has the number of its elements in ten bits; every other
    /// property has its low and its high value in 32 bits each and its bit
    /// count in seven.
    pub open spec fn parse_rest(bits: Seq<bool>, pos: int, head: RawSendPropView) -> Result<
        (RawSendPropView, int),
        ReadError,
    > {
        if head.kind == SendPropType::DataTable || head.flags.exclude {
            match take_string(bits, pos) {
                Err(e) => Err(e),
                Ok((table, end)) => Ok(
                    (RawSendPropView { table_name: Some(decode_utf8(table)), ..head }, end),
                ),
            }
        } else if head.kind == SendPropType::Array {
            match take_uint(bits, pos, 10) {
                Err(e) => Err(e),
                Ok((count, end)) => Ok((RawSendPropView { element_count: count, ..head }, end)),
            }
        } else {
            match take_uint(bits, pos, 32) {
                Err(e) => Err(e),
                Ok((low, p1)) => match take_uint(bits, p1, 32) {
                    Err(e) => Err(e),
                    Ok((high, p2)) => match take_uint(bits, p2, 7) {
                        Err(e) => Err(e),
                        Ok((bit_count, end)) => Ok(
                            (
                                RawSendPropView {
                                    low_value: low as u32,
                                    high_value: high as u32,
                                    bit_count,
                                    ..head
                                },
                                end,
                            ),
                        ),
                    },
                },
            }
        }
    }

    /// What decoding a property at `pos` gives: its type in five bits, which
    /// must name a type; its name; its flags in sixteen bits; and what
    /// follows from those.
    pub open spec fn parse(
        bits: Seq<bool>,
        pos: int,
    ) -> Result<(RawSendPropView, int), ParseError> {
        match take_uint(bits, pos, 5) {
            Err(e) => Err(ParseError::of_read(e)),
            Ok((raw, p1)) => match SendPropType::from_id(raw as u8) {
                None => Err(ParseError::InvalidPropType(raw as u8)),
                Some(kind) => match take_string(bits, p1) {
                    Err(e) => Err(ParseError::of_read(e)),
                    Ok((name, p2)) => match take_uint(bits, p2, 16) {
                        Err(e) => Err(ParseError::of_read(e)),
                        Ok((flags, p3)) => match Self::parse_rest(
                            bits,
                            p3,
                            Self::bare(kind, decode_utf8(name), flags_of(flags)),
                        ) {
                            Err(e) => Err(ParseError::of_read(e)),
                            Ok(found) => Ok(found),
                        },
                    },
                },
            },
        }
    }

    /// Reads what follows the flags of a property and fills it in.
    pub fn read_rest(self, stream: &mut Stream) -> (r: Result<Self, ReadError>)
        requires
            old(stream).inv(),
        ensures
            final(stream).inv(),
            final(stream).same_window(old(stream)),
            (match Self::parse_rest(old(stream).bits(), old(stream).position(), self@) {
                Ok((view, end)) => (r matches Ok(found) && found@ == view)
                    && final(stream).position() == end,
                Err(e) => r matches Err(x) && x == e,
            }),
    {
        proof {
            lemma2_to64();
        }
        let mut prop = self;
        let names_table = match prop.kind {
            SendPropType::DataTable => true,
            _ => prop.flags.exclude,
        };
        let is_array = match prop.kind {
            SendPropType::Array => true,
            _ => false,
        };
        if names_table {
            match stream.read_string() {
                Ok(table) => {
                    prop.table_name = Some(table);
                    Ok(prop)
                },
                Err(e) => Err(e),
            }
        } else if is_array {
            match stream.read_int(PROP_COUNT_BITS) {
                Ok(count) => {
                    prop.element_count = count as usize;
                    Ok(prop)
                },
                Err(e) => Err(e),
            }
        } else {
            let low_value = match stream.read_u32() {
                Ok(v) => v,
                Err(e) => {
                    return Err(e);
                },
            };
            let high_value = match stream.read_u32() {
                Ok(v) => v,
                Err(e) => {
                    return Err(e);
                },
            };
            match stream.read_int(PROP_BIT_COUNT_BITS) {
                Ok(bit_count) => {
                    prop.low_value = low_value;
                    prop.high_value = high_value;
                    prop.bit_count = bit_count as usize;
                    Ok(prop)
                },
                Err(e) => Err(e),
            }
        }
    }

    /// Reads a property.
    pub fn read(stream: &mut Stream) -> (r: Result<Self, ParseError>)
        requires
            old(stream).inv(),
        ensures
            final(stream).inv(),
            final(stream).same_window(old(stream)),
            (match Self::parse(old(stream).bits(), old(stream).position()) {
                Ok((view, end)) => (r matches Ok(found) && found@ == view)
                    && final(stream).position() == end,
                Err(e) => r matches Err(x) && x == e,
            }),
    {
        proof {
            lemma2_to64();
        }
        let raw = match stream.read_int(PROP_TYPE_BITS) {
            Ok(v) => v as u8,
            Err(e) => {
                return Err(ParseError::from_read(e));
            },
        };
        let kind = match SendPropType::from_u8(raw) {
            Some(kind) => kind,
            None => {
                return Err(ParseError::InvalidPropType(raw));
            },
        };
        let name = match stream.read_string() {
            Ok(v) => v,
            Err(e) => {
                return Err(ParseError::from_read(e));
            },
        };
        let flags = match stream.read_int(PROP_FLAG_BITS) {
            Ok(v) => flags_from(v as u32),
            Err(e) => {
                return Err(ParseError::from_read(e));
            },
        };
        let head = RawSendProp {
            kind,
            name,
            flags,
            table_name: None,
            element_count: 0,
            low_value: 0,
            high_value: 0,
            bit_count: 0,
        };
        match head.read_rest(stream) {
            Ok(prop) => Ok(prop),
            Err(e) => Err(ParseError::from_read(e)),
        }
    }
}

/// The properties of a list.
pub open spec fn raw_props_view(props: &Vec<RawSendProp>) -> Seq<RawSendPropView> {
    Seq::new(props@.len(), |i: int| props@[i]@)
}

/// What decoding `count` properties at `pos` gives.
pub open spec fn take_raw_props(bits: Seq<bool>, pos: int, count: nat) -> Result<
    (Seq<RawSendPropView>, int),
    ParseError,
>
    decreases count,
{
    if count == 0 {
        Ok((Seq::empty(), pos))
    } else {
        match RawSendProp::parse(bits, pos) {
            Err(e) => Err(e),
            Ok((first, p)) => match take_raw_props(bits, p, (count - 1) as nat) {
                Err(e) => Err(e),
                Ok((rest, end)) => Ok((seq![first] + rest, end)),
            },
        }
    }
}

/// The outcome of decoding more properties, with those that were decoded
/// before put in front.
pub open spec fn after_raw_props(
    done: Seq<RawSendPropView>,
    more: Result<(Seq<RawSendPropView>, int), ParseError>,
) -> Result<(Seq<RawSendPropView>, int), ParseError> {
    match more {
        Ok((rest, end)) => Ok((done + rest, end)),
        Err(e) => Err(e),
    }
}

/// A table of properties.
#[derive(Debug, Clone, PartialEq, Eq)]
pub struct SendTable {
    pub name: String,
    pub needs_decoder: bool,
    pub props: Vec<RawSendProp>,
}

/// What a [`SendTable`] holds.
pub struct SendTableView {
    pub name: Seq<char>,
    pub needs_decoder: bool,
    pub props: Seq<RawSendPropView>,
}

impl SendTable {
    /// What the table holds.
    pub open spec fn view(&self) -> SendTableView {
        SendTableView {
            name: self.name@,
            needs_decoder: self.needs_decoder,
            props: raw_props_view(&self.props),
        }
    }

    /// The table with the given head, where its properties decode.
    pub open spec fn with_props(
        name: Seq<char>,
        needs_decoder: bool,
        props: Result<(Seq<RawSendPropView>, int), ParseError>,
        start: int,
    ) -> Result<(SendTableView, int), ParseError> {
        match props {
            Ok((props, end)) => if end > start {
                Ok((SendTableView { name, needs_decoder, props }, end))
            } else {
                Err(ParseError::DataTableTruncated)
            },
            Err(e) => Err(e),
        }
    }

    /// What decoding a table at `pos` gives: a bit that tells whether the
    /// table needs a decoder, its name, the number of its properties in ten
    /// bits, and the properties.
    pub open spec fn parse(bits: Seq<bool>, pos: int) -> Result<(SendTableView, int), ParseError> {
        match take_bool(bits, pos) {
            Err(e) => Err(ParseError::of_read(e)),
            Ok((needs_decoder, p1)) => match take_string(bits, p1) {
                Err(e) => Err(ParseError::of_read(e)),
                Ok((name, p2)) => match take_uint(bits, p2, 10) {
                    Err(e) => Err(ParseError::of_read(e)),
                    Ok((count, p3)) => Self::with_props(
                        decode_utf8(name),
                        needs_decoder,
                        take_raw_props(bits, p3, count),
                        pos,
                    ),
                },
            },
        }
    }

    /// Reads a table.
    pub fn read(stream: &mut Stream) -> (r: Result<Self, ParseError>)
        requires
            old(stream).inv(),
        ensures
            final(stream).inv(),
            final(stream).same_window(old(stream)),
            (match Self::parse(old(stream).bits(), old(stream).position()) {
                Ok((view, end)) => (r matches Ok(found) && found@ == view)
                    && final(stream).position() == end && end > old(stream).position(),
                Err(e) => r matches Err(x) && x == e,
            }),
    {
        let start = stream.pos();
        let needs_decoder = match stream.read_bool() {
            Ok(v) => v,
            Err(e) => {
                return Err(ParseError::from_read(e));
            },
        };
        let name = match stream.read_string() {
            Ok(v) => v,
            Err(e) => {
                return Err(ParseError::from_read(e));
            },
        };
        let count = match stream.read_int(PROP_COUNT_BITS) {
            Ok(v) => {
                proof {
                    lemma2_to64();
                }
                v as usize
            },
            Err(e) => {
                return Err(ParseError::from_read(e));
            },
        };
        let ghost bits = stream.bits();
        let ghost total = take_raw_props(bits, stream.position(), count as nat);
        let mut props: Vec<RawSendProp> = Vec::new();
        let mut i: usize = 0;
        proof {
            match total {
                Ok((rest, end)) => {
                    assert(raw_props_view(&props) + rest =~= rest);
                },
                Err(e) => {},
            }
        }
        while i < count
            invariant
                i <= count,
                stream.inv(),
                stream.same_window(old(stream)),
                stream.bits() == bits,
                Self::parse(old(stream).bits(), old(stream).position()) == Self::with_props(
                    name@,
                    needs_decoder,
                    total,
                    start as int,
                ),
                start == old(stream).position(),
                total == after_raw_props(
                    raw_props_view(&props),
                    take_raw_props(bits, stream.position(), (count - i) as nat),
                ),
            decreases count - i,
        {
            let ghost done = raw_props_view(&props);
            let prop = match RawSendProp::read(stream) {
                Ok(v) => v,
                Err(e) => {
                    return Err(e);
                },
            };
            proof {
                match take_raw_props(bits, stream.position(), (count - i - 1) as nat) {
                    Ok((rest, end)) => {
                        assert(done + (seq![prop@] + rest) =~= done.push(prop@) + rest);
                    },
                    Err(e) => {},
                }
            }
            props.push(prop);
            assert(raw_props_view(&props) =~= done.push(prop@));
            i = i + 1;
        }
        proof {
            assert(raw_props_view(&props) + Seq::<RawSendPropView>::empty() =~= raw_props_view(
                &props,
            ));
        }
        if stream.pos() <= start {
            return Err(ParseError::DataTableTruncated);
        }
        Ok(SendTable { name, needs_decoder, props })
    }
}

/// The tables of a list.
pub open spec fn tables_view(tables: &Vec<SendTable>) -> Seq<SendTableView> {
    Seq::new(tables@.len(), |i: int| tables@[i]@)
}

/// What decoding the tables at `pos` gives: as long as a set bit follows, a
/// table. A table that would end behind the data is refused.
pub open spec fn take_tables(
    bits: Seq<bool>,
    pos: int,
) -> Result<(Seq<SendTableView>, int), ParseError>
    decreases bits.len() - pos,
{
    match take_bool(bits, pos) {
        Err(e) => Err(ParseError::of_read(e)),
        Ok((more, p1)) => if !more {
            Ok((Seq::empty(), p1))
        } else {
            match SendTable::parse(bits, p1) {
                Err(e) => Err(e),
                Ok((table, p2)) => if pos < p2 <= bits.len() {
                    match take_tables(bits, p2) {
                        Err(e) => Err(e),
                        Ok((rest, end)) => Ok((seq![table] + rest, end)),
                    }
                } else {
                    Err(ParseError::DataTableTruncated)
                },
            }
        },
    }
}

/// The outcome of decoding more tables, with those that were decoded before
/// put in front.
pub open spec fn after_tables(
    done: Seq<SendTableView>,
    more: Result<(Seq<SendTableView>, int), ParseError>,
) -> Result<(Seq<SendTableView>, int), ParseError> {
    match more {
        Ok((rest, end)) => Ok((done + rest, end)),
        Err(e) => Err(e),
    }
}

/// Reads the tables.
pub fn read_tables(stream: &mut Stream) -> (r: Result<Vec<SendTable>, ParseError>)
    requires
        old(stream).inv(),
    ensures
        final(stream).inv(),
        final(stream).same_window(old(stream)),
        (match take_tables(old(stream).bits(), old(stream).position()) {
            Ok((tables, end)) => (r matches Ok(found) && tables_view(&found) == tables)
                && final(stream).position() == end,
            Err(e) => r matches Err(x) && x == e,
        }),
{
    let ghost bits = stream.bits();
    let ghost total = take_tables(bits, stream.position());
    let mut out: Vec<SendTable> = Vec::new();
    proof {
        match total {
            Ok((rest, end)) => {
                assert(tables_view(&out) + rest =~= rest);
            },
            Err(e) => {},
        }
    }
    loop
        invariant_except_break
            total == after_tables(tables_view(&out), take_tables(bits, stream.position())),
        invariant
            stream.inv(),
            stream.same_window(old(stream)),
            stream.bits() == bits,
            total == take_tables(old(stream).bits(), old(stream).position()),
        ensures
            total matches Ok(found) && found.0 == tables_view(&out) && found.1 == stream.position(),
        decreases stream.remaining(),
    {
        let ghost done = tables_view(&out);
        let more = match stream.read_bool() {
            Ok(v) => v,
            Err(e) => {
                return Err(ParseError::from_read(e));
            },
        };
        if !more {
            proof {
                assert(done + Seq::<SendTableView>::empty() =~= done);
            }
            break ;
        }
        let table = match SendTable::read(stream) {
            Ok(v) => v,
            Err(e) => {
                return Err(e);
            },
        };
        proof {
            match take_tables(bits, stream.position()) {
                Ok((rest, end)) => {
                    assert(done + (seq![table@] + rest) =~= done.push(table@) + rest);
                },
                Err(e) => {},
            }
        }
        out.push(table);
        assert(tables_view(&out) =~= done.push(table@));
    }
    Ok(out)
}

/// A class as the data tables declare it: its id, its name, and the name of
/// the table of its properties.
#[derive(Debug, Clone, PartialEq, Eq)]
pub struct ClassEntry {
    pub id: u16,
    pub name: String,
    pub data_table: String,
}

/// What a [`ClassEntry`] holds.
pub struct ClassEntryView {
    pub id: u16,
    pub name: Seq<char>,
    pub data_table: Seq<char>,
}

impl ClassEntry {
    /// What the class holds.
    pub open spec fn view(&self) -> ClassEntryView {
        ClassEntryView { id: self.id, name: self.name@, data_table: self.data_table@ }
    }

    /// What decoding a class at `pos` gives: its id in sixteen bits and its
    /// two names.
    pub open spec fn parse(bits: Seq<bool>, pos: int) -> Result<(ClassEntryView, int), ReadError> {
        match take_uint(bits, pos, 16) {
            Err(e) => Err(e),
            Ok((id, p1)) => match take_string(bits, p1) {
                Err(e) => Err(e),
                Ok((name, p2)) => match take_string(bits, p2) {
                    Err(e) => Err(e),
                    Ok((data_table, end)) => Ok(
                        (
                            ClassEntryView {
                                id: id as u16,
                                name: decode_utf8(name),
                                data_table: decode_utf8(data_table),
                            },
                            end,
                        ),
                    ),
                },
            },
        }
    }

    /// Reads a class.
    pub fn read(stream: &mut Stream) -> (r: Result<Self, ReadError>)
        requires
            old(stream).inv(),
        ensures
            final(stream).inv(),
            final(stream).same_window(old(stream)),
            (match Self::parse(old(stream).bits(), old(stream).position()) {
                Ok((view, end)) => (r matches Ok(found) && found@ == view)
                    && final(stream).position() == end,
                Err(e) => r matches Err(x) && x == e,
            }),
    {
        let id = match stream.read_u16() {
            Ok(v) => v,
            Err(e) => {
                return Err(e);
            },
        };
        let name = match stream.read_string() {
            Ok(v) => v,
            Err(e) => {
                return Err(e);
            },
        };
        let data_table = match stream.read_string() {
            Ok(v) => v,
            Err(e) => {
                return Err(e);
            },
        };
        Ok(ClassEntry { id, name, data_table })
    }
}

/// The classes of a list.
pub open spec fn class_entries_view(classes: &Vec<ClassEntry>) -> Seq<ClassEntryView> {
    Seq::new(classes@.len(), |i: int| classes@[i]@)
}

/// What decoding `count` classes at `pos` gives.
pub open spec fn take_class_entries(bits: Seq<bool>, pos: int, count: nat) -> Result<
    (Seq<ClassEntryView>, int),
    ReadError,
>
    decreases count,
{
    if count == 0 {
        Ok((Seq::empty(), pos))
    } else {
        match ClassEntry::parse(bits, pos) {
            Err(e) => Err(e),
            Ok((first, p)) => match take_class_entries(bits, p, (count - 1) as nat) {
                Err(e) => Err(e),
                Ok((rest, end)) => Ok((seq![first] + rest, end)),
            },
        }
    }
}

/// The outcome of decoding more classes, with those that were decoded before
/// put in front.
pub open spec fn after_class_entries(
    done: Seq<ClassEntryView>,
    more: Result<(Seq<ClassEntryView>, int), ReadError>,
) -> Result<(Seq<ClassEntryView>, int), ReadError> {
    match more {
        Ok((rest, end)) => Ok((done + rest, end)),
        Err(e) => Err(e),
    }
}

/// The tables of properties and the classes, as a demo declares them.
#[derive(Debug, Clone, PartialEq, Eq)]
pub struct DataTables {
    pub tables: Vec<SendTable>,
    pub classes: Vec<ClassEntry>,
}

/// What [`DataTables`] hold.
pub struct DataTablesView {
    pub tables: Seq<SendTableView>,
    pub classes: Seq<ClassEntryView>,
}

impl DataTables {
    /// What the data tables hold.
    pub open spec fn view(&self) -> DataTablesView {
        DataTablesView {
            tables: tables_view(&self.tables),
            classes: class_entries_view(&self.classes),
        }
    }

    /// The data tables with the given tables, where the classes decode.
    pub open spec fn with_classes(
        tables: Seq<SendTableView>,
        classes: Result<(Seq<ClassEntryView>, int), ReadError>,
    ) -> Result<(DataTablesView, int), ParseError> {
        match classes {
            Ok((classes, end)) => Ok((DataTablesView { tables, classes }, end)),
            Err(e) => Err(ParseError::of_read(e)),
        }
    }

    /// What decoding the data tables at `pos` gives: the tables, the number
    /// of classes in sixteen bits, and the classes.
    pub open spec fn parse(bits: Seq<bool>, pos: int) -> Result<(DataTablesView, int), ParseError> {
        match take_tables(bits, pos) {
            Err(e) => Err(e),
            Ok((tables, p1)) => match take_uint(bits, p1, 16) {
                Err(e) => Err(ParseError::of_read(e)),
                Ok((count, p2)) => Self::with_classes(tables, take_class_entries(bits, p2, count)),
            },
        }
    }

    /// Reads the data tables.
    pub fn read(stream: &mut Stream) -> (r: Result<Self, ParseError>)
        requires
            old(stream).inv(),
        ensures
            final(stream).inv(),
            final(stream).same_window(old(stream)),
            (match Self::parse(old(stream).bits(), old(stream).position()) {
                Ok((view, end)) => (r matches Ok(found) && found@ == view)
                    && final(stream).position() == end,
                Err(e) => r matches Err(x) && x == e,
            }),
    {
        let tables = match read_tables(stream) {
            Ok(v) => v,
            Err(e) => {
                return Err(e);
            },
        };
        let count = match stream.read_u16() {
            Ok(v) => v as usize,
            Err(e) => {
                return Err(ParseError::from_read(e));
            },
        };
        let ghost bits = stream.bits();
        let ghost total = take_class_entries(bits, stream.position(), count as nat);
        let mut classes: Vec<ClassEntry> = Vec::new();
        let mut i: usize = 0;
        proof {
            match total {
                Ok((rest, end)) => {
                    assert(class_entries_view(&classes) + rest =~= rest);
                },
                Err(e) => {},
            }
        }
        while i < count
            invariant
                i <= count,
                stream.inv(),
                stream.same_window(old(stream)),
                stream.bits() == bits,
                Self::parse(old(stream).bits(), old(stream).position()) == Self::with_classes(
                    tables_view(&tables),
                    total,
                ),
                total == after_class_entries(
                    class_entries_view(&classes),
                    take_class_entries(bits, stream.position(), (count - i) as nat),
                ),
            decreases count - i,
        {
            let ghost done = class_entries_view(&classes);
            let entry = match ClassEntry::read(stream) {
                Ok(v) => v,
                Err(e) => {
                    return Err(ParseError::from_read(e));
                },
            };
            proof {
                match take_class_entries(bits, stream.position(), (count - i - 1) as nat) {
                    Ok((rest, end)) => {
                        assert(done + (seq![entry@] + rest) =~= done.push(entry@) + rest);
                    },
                    Err(e) => {},
                }
            }
            classes.push(entry);
            assert(class_entries_view(&classes) =~= done.push(entry@));
            i = i + 1;
        }
        proof {
            assert(class_entries_view(&classes) + Seq::<ClassEntryView>::empty()
                =~= class_entries_view(&classes));
        }
        Ok(DataTables { tables, classes })
    }
}

/// The place of the first table with the given name, or the number of
/// tables where none has it.
pub open spec fn table_place(tables: Seq<SendTableView>, name: Seq<char>) -> int
    decreases tables.len(),
{
    if tables.len() == 0 || tables[0].name == name {
        0
    } else {
        1 + table_place(tables.drop_first(), name)
    }
}

/// The first place that holds the name is the only one that holds it with
/// none before.
pub proof fn lemma_table_place(tables: Seq<SendTableView>, name: Seq<char>, n: int)
    requires
        0 <= n <= tables.len(),
        forall|j: int| 0 <= j < n ==> tables[j].name != name,
        n < tables.len() ==> tables[n].name == name,
    ensures
        table_place(tables, name) == n,
    decreases n,
{
    if n > 0 {
        let rest = tables.drop_first();
        assert forall|j: int| 0 <= j < n - 1 implies rest[j].name != name by {
            assert(rest[j] == tables[j + 1]);
        }
        lemma_table_place(rest, name, n - 1);
    }
}

/// The place of the first table with the given name.
pub fn find_table(tables: &Vec<SendTable>, name: &String) -> (r: usize)
    ensures
        r == table_place(tables_view(tables), name@),
        r <= tables@.len(),
{
    let mut i: usize = 0;
    while i < tables.len() && !(tables[i].name == *name)
        invariant
            i <= tables@.len(),
            forall|j: int| 0 <= j < i ==> tables_view(tables)[j].name != name@,
        decreases tables@.len() - i,
    {
        i = i + 1;
    }
    proof {
        lemma_table_place(tables_view(tables), name@, i as int);
    }
    i
}

/// A property that is left out: the name of its table and its own name.
#[derive(Debug, Clone, PartialEq, Eq)]
pub struct Exclusion {
    pub table: String,
    pub prop: String,
}

/// What an [`Exclusion`] holds.
pub struct ExclusionView {
    pub table: Seq<char>,
    pub prop: Seq<char>,
}

impl Exclusion {
    /// What the exclusion holds.
    pub open spec fn view(&self) -> ExclusionView {
        ExclusionView { table: self.table@, prop: self.prop@ }
    }
}

/// The exclusions of a list.
pub open spec fn exclusions_view(list: &Vec<Exclusion>) -> Seq<ExclusionView> {
    Seq::new(list@.len(), |i: int| list@[i]@)
}

/// The name that a property refers to, or the empty name where it refers to
/// none.
pub open spec fn referred(prop: RawSendPropView) -> Seq<char> {
    match prop.table_name {
        Some(name) => name,
        None => Seq::empty(),
    }
}

/// The exclusions that the properties of table `t` from property `i` on
/// declare, together with those of the tables that they draw in, at most
/// `depth` tables deep. A table that is drawn in must exist.
pub open spec fn gather_excludes(tables: Seq<SendTableView>, t: int, i: int, depth: nat) -> Result<
    Seq<ExclusionView>,
    ParseError,
>
    decreases depth, (if 0 <= t < tables.len() { tables[t].props.len() - i } else { 0 }),
{
    if !(0 <= t < tables.len()) || i < 0 || i >= tables[t].props.len() {
        Ok(Seq::empty())
    } else {
        let prop = tables[t].props[i];
        let here = if prop.flags.exclude {
            Ok(seq![ExclusionView { table: referred(prop), prop: prop.name }])
        } else if prop.kind == SendPropType::DataTable {
            let sub = table_place(tables, referred(prop));
            if sub >= tables.len() {
                Err(ParseError::DataTableTruncated)
            } else if depth == 0 {
                Err(ParseError::SendTableTooDeep)
            } else {
                gather_excludes(tables, sub, 0, (depth - 1) as nat)
            }
        } else {
            Ok(Seq::empty())
        };
        match here {
            Err(e) => Err(e),
            Ok(first) => match gather_excludes(tables, t, i + 1, depth) {
                Err(e) => Err(e),
                Ok(rest) => Ok(first + rest),
            },
        }
    }
}

/// Whether a property is among the exclusions.
pub open spec fn is_excluded(
    excludes: Seq<ExclusionView>,
    table: Seq<char>,
    prop: Seq<char>,
) -> bool {
    exists|k: int| 0 <= k < excludes.len() && excludes[k].table == table && excludes[k].prop == prop
}

/// The layout of the elements of the array at place `i` of a table: that of
/// the property before it, where that property is marked as standing inside
/// an array.
pub open spec fn element_of(props: Seq<RawSendPropView>, i: int) -> Option<PropLayout> {
    if 0 < i < props.len() && props[i - 1].flags.inside_array {
        Some(props[i - 1].layout())
    } else {
        None
    }
}

/// The properties that table `t` comes to from property `i` on, at most
/// `depth` tables deep: its own properties in order, each property that
/// stands for a table replaced by what that table comes to, without the
/// properties that are excluded, that declare an exclusion, or that only
/// describe the elements of an array.
pub open spec fn collect_props(
    tables: Seq<SendTableView>,
    t: int,
    i: int,
    excludes: Seq<ExclusionView>,
    depth: nat,
) -> Result<Seq<SendPropView>, ParseError>
    decreases depth, (if 0 <= t < tables.len() { tables[t].props.len() - i } else { 0 }),
{
    if !(0 <= t < tables.len()) || i < 0 || i >= tables[t].props.len() {
        Ok(Seq::empty())
    } else {
        let prop = tables[t].props[i];
        let here = if prop.flags.exclude || prop.flags.inside_array || is_excluded(
            excludes,
            tables[t].name,
            prop.name,
        ) {
            Ok(Seq::empty())
        } else if prop.kind == SendPropType::DataTable {
            let sub = table_place(tables, referred(prop));
            if sub >= tables.len() {
                Err(ParseError::DataTableTruncated)
            } else if depth == 0 {
                Err(ParseError::SendTableTooDeep)
            } else {
                collect_props(tables, sub, 0, excludes, (depth - 1) as nat)
            }
        } else {
            Ok(
                seq![
                    SendPropView {
                        name: prop.name,
                        table: tables[t].name,
                        layout: prop.layout(),
                        element_count: prop.element_count,
                        element: element_of(tables[t].props, i),
                    },
                ],
            )
        };
        match here {
            Err(e) => Err(e),
            Ok(first) => match collect_props(tables, t, i + 1, excludes, depth) {
                Err(e) => Err(e),
                Ok(rest) => Ok(first + rest),
            },
        }
    }
}

/// The properties of a list that change often, or those that do not, in
/// order.
pub open spec fn select_props(props: Seq<SendPropView>, often: bool) -> Seq<SendPropView>
    decreases props.len(),
{
    if props.len() == 0 {
        props
    } else if props[0].layout.flags.changes_often == often {
        seq![props[0]] + select_props(props.drop_first(), often)
    } else {
        select_props(props.drop_first(), often)
    }
}

/// The properties in the order of the wire: those that change often first,
/// and within either group in the order in which they were.
pub open spec fn by_priority(props: Seq<SendPropView>) -> Seq<SendPropView> {
    select_props(props, true) + select_props(props, false)
}

/// The properties of the class with the table `name`, in the order of the
/// wire. The table must exist.
pub open spec fn flatten(tables: Seq<SendTableView>, name: Seq<char>) -> Result<
    Seq<SendPropView>,
    ParseError,
> {
    let t = table_place(tables, name);
    if t >= tables.len() {
        Err(ParseError::DataTableTruncated)
    } else {
        match gather_excludes(tables, t, 0, MAX_TABLE_DEPTH as nat) {
            Err(e) => Err(e),
            Ok(excludes) => match collect_props(tables, t, 0, excludes, MAX_TABLE_DEPTH as nat) {
                Err(e) => Err(e),
                Ok(props) => Ok(by_priority(props)),
            },
        }
    }
}

/// Choosing from two lists in a row is choosing from each.
pub proof fn lemma_select_props_append(a: Seq<SendPropView>, b: Seq<SendPropView>, often: bool)
    ensures
        select_props(a + b, often) == select_props(a, often) + select_props(b, often),
    decreases a.len(),
{
    if a.len() == 0 {
        assert(a + b =~= b);
        assert(select_props(a, often) + select_props(b, often) =~= select_props(b, often));
    } else {
        lemma_select_props_append(a.drop_first(), b, often);
        assert((a + b).drop_first() =~= a.drop_first() + b);
        assert(select_props(a + b, often) =~= select_props(a, often) + select_props(b, often));
    }
}

/// Ordering by priority loses no property and adds none, and every property
/// that changes often stands before every one that does not.
pub proof fn lemma_by_priority(props: Seq<SendPropView>)
    ensures
        by_priority(props).len() == props.len(),
        forall|i: int|
            0 <= i < select_props(props, true).len() ==> (#[trigger] by_priority(
                props,
            )[i]).layout.flags.changes_often,
        forall|i: int|
            select_props(props, true).len() <= i < props.len() ==> !(#[trigger] by_priority(
                props,
            )[i]).layout.flags.changes_often,
    decreases props.len(),
{
    lemma_select_props(props, true);
    lemma_select_props(props, false);
    lemma_select_props_len(props);
}

/// Every selected property is of the asked kind.
pub proof fn lemma_select_props(props: Seq<SendPropView>, often: bool)
    ensures
        forall|i: int|
            0 <= i < select_props(props, often).len() ==> (#[trigger] select_props(
                props,
                often,
            )[i]).layout.flags.changes_often == often,
    decreases props.len(),
{
    if props.len() > 0 {
        lemma_select_props(props.drop_first(), often);
    }
}

/// The two groups together are as many as the properties.
pub proof fn lemma_select_props_len(props: Seq<SendPropView>)
    ensures
        select_props(props, true).len() + select_props(props, false).len() == props.len(),
    decreases props.len(),
{
    if props.len() > 0 {
        lemma_select_props_len(props.drop_first());
    }
}

/// The outcome of gathering more exclusions, with those that were gathered
/// before put in front.
pub open spec fn after_excludes(
    done: Seq<ExclusionView>,
    more: Result<Seq<ExclusionView>, ParseError>,
) -> Result<Seq<ExclusionView>, ParseError> {
    match more {
        Ok(rest) => Ok(done + rest),
        Err(e) => Err(e),
    }
}

/// The outcome of collecting more properties, with those that were
/// collected before put in front.
pub open spec fn after_props(
    done: Seq<SendPropView>,
    more: Result<Seq<SendPropView>, ParseError>,
) -> Result<Seq<SendPropView>, ParseError> {
    match more {
        Ok(rest) => Ok(done + rest),
        Err(e) => Err(e),
    }
}

/// The name that a property refers to, or the empty name where it refers to
/// none.
pub fn referred_name(prop: &RawSendProp) -> (r: String)
    ensures
        r@ == referred(prop@),
{
    match &prop.table_name {
        Some(name) => name.clone(),
        None => String::new(),
    }
}

/// Adds to `out` the exclusions that table `t` and the tables that it draws
/// in declare.
pub fn gather_exclusions(
    tables: &Vec<SendTable>,
    t: usize,
    depth: usize,
    out: &mut Vec<Exclusion>,
) -> (r: Result<(), ParseError>)
    requires
        t < tables@.len(),
    ensures
        (match gather_excludes(tables_view(tables), t as int, 0, depth as nat) {
            Ok(found) => r is Ok && exclusions_view(final(out)) == exclusions_view(old(out))
                + found,
            Err(e) => r matches Err(x) && x == e,
        }),
    decreases depth,
{
    let ghost all = tables_view(tables);
    let ghost base = exclusions_view(out);
    let ghost total = gather_excludes(all, t as int, 0, depth as nat);
    let ghost mut done = Seq::<ExclusionView>::empty();
    let props = &tables[t].props;
    let mut i: usize = 0;
    proof {
        assert(base + done =~= base);
        match total {
            Ok(rest) => {
                assert(done + rest =~= rest);
            },
            Err(e) => {},
        }
    }
    while i < props.len()
        invariant
            i <= props@.len(),
            t < tables@.len(),
            all == tables_view(tables),
            props == &tables@[t as int].props,
            total == gather_excludes(all, t as int, 0, depth as nat),
            total == after_excludes(done, gather_excludes(all, t as int, i as int, depth as nat)),
            exclusions_view(out) == base + done,
        decreases props@.len() - i,
    {
        let prop = &props[i];
        assert(all[t as int].props[i as int] == prop@);
        let ghost before = exclusions_view(out);
        let ghost here: Seq<ExclusionView>;
        if prop.flags.exclude {
            let entry = Exclusion { table: referred_name(prop), prop: prop.name.clone() };
            proof {
                here = seq![entry@];
            }
            out.push(entry);
            assert(exclusions_view(out) =~= before + here);
        } else {
            let is_table = match prop.kind {
                SendPropType::DataTable => true,
                _ => false,
            };
            if is_table {
                let name = referred_name(prop);
                let sub = find_table(tables, &name);
                if sub >= tables.len() {
                    return Err(ParseError::DataTableTruncated);
                }
                if depth == 0 {
                    return Err(ParseError::SendTableTooDeep);
                }
                match gather_exclusions(tables, sub, depth - 1, out) {
                    Ok(()) => {},
                    Err(e) => {
                        return Err(e);
                    },
                }
                proof {
                    here = gather_excludes(all, sub as int, 0, (depth - 1) as nat)->Ok_0;
                }
            } else {
                proof {
                    here = Seq::empty();
                    assert(before + here =~= before);
                }
            }
        }
        proof {
            match gather_excludes(all, t as int, i + 1, depth as nat) {
                Ok(rest) => {
                    assert(done + (here + rest) =~= (done + here) + rest);
                },
                Err(e) => {},
            }
            assert(base + (done + here) =~= (base + done) + here);
            done = done + here;
        }
        i = i + 1;
    }
    proof {
        assert(done + Seq::<ExclusionView>::empty() =~= done);
    }
    Ok(())
}

/// Whether a property is among the exclusions.
pub fn excluded(excludes: &Vec<Exclusion>, table: &String, prop: &String) -> (r: bool)
    ensures
        r == is_excluded(exclusions_view(excludes), table@, prop@),
{
    let mut k: usize = 0;
    while k < excludes.len()
        invariant
            k <= excludes@.len(),
            forall|j: int|
                0 <= j < k ==> !(exclusions_view(excludes)[j].table == table@ && exclusions_view(
                    excludes,
                )[j].prop == prop@),
        decreases excludes@.len() - k,
    {
        if excludes[k].table == *table && excludes[k].prop == *prop {
            assert(exclusions_view(excludes)[k as int].table == table@);
            return true;
        }
        k = k + 1;
    }
    false
}

/// Adds to `out` the properties that table `t` comes to.
pub fn collect(
    tables: &Vec<SendTable>,
    t: usize,
    excludes: &Vec<Exclusion>,
    depth: usize,
    out: &mut Vec<SendProp>,
) -> (r: Result<(), ParseError>)
    requires
        t < tables@.len(),
    ensures
        (match collect_props(
            tables_view(tables),
            t as int,
            0,
            exclusions_view(excludes),
            depth as nat,
        ) {
            Ok(found) => r is Ok && props_view(final(out)) == props_view(old(out)) + found,
            Err(e) => r matches Err(x) && x == e,
        }),
    decreases depth,
{
    let ghost all = tables_view(tables);
    let ghost ex = exclusions_view(excludes);
    let ghost base = props_view(out);
    let ghost total = collect_props(all, t as int, 0, ex, depth as nat);
    let ghost mut done = Seq::<SendPropView>::empty();
    let table = &tables[t];
    let mut i: usize = 0;
    proof {
        assert(base + done =~= base);
        match total {
            Ok(rest) => {
                assert(done + rest =~= rest);
            },
            Err(e) => {},
        }
    }
    while i < table.props.len()
        invariant
            i <= table.props@.len(),
            t < tables@.len(),
            all == tables_view(tables),
            ex == exclusions_view(excludes),
            table == &tables@[t as int],
            total == collect_props(all, t as int, 0, ex, depth as nat),
            total == after_props(done, collect_props(all, t as int, i as int, ex, depth as nat)),
            props_view(out) == base + done,
        decreases table.props@.len() - i,
    {
        let prop = &table.props[i];
        assert(all[t as int].props[i as int] == prop@);
        assert(all[t as int].name == table.name@);
        let ghost before = props_view(out);
        let ghost here: Seq<SendPropView>;
        if prop.flags.exclude || prop.flags.inside_array || excluded(
            excludes,
            &table.name,
            &prop.name,
        ) {
            proof {
                here = Seq::empty();
                assert(before + here =~= before);
            }
        } else {
            let is_table = match prop.kind {
                SendPropType::DataTable => true,
                _ => false,
            };
            if is_table {
                let name = referred_name(prop);
                let sub = find_table(tables, &name);
                if sub >= tables.len() {
                    return Err(ParseError::DataTableTruncated);
                }
                if depth == 0 {
                    return Err(ParseError::SendTableTooDeep);
                }
                match collect(tables, sub, excludes, depth - 1, out) {
                    Ok(()) => {},
                    Err(e) => {
                        return Err(e);
                    },
                }
                proof {
                    here = collect_props(all, sub as int, 0, ex, (depth - 1) as nat)->Ok_0;
                }
            } else {
                let element = if i > 0 && table.props[i - 1].flags.inside_array {
                    assert(all[t as int].props[i - 1] == table.props@[i - 1]@);
                    Some(table.props[i - 1].layout())
                } else {
                    None
                };
                let flat = SendProp {
                    name: prop.name.clone(),
                    table: table.name.clone(),
                    layout: prop.layout(),
                    element_count: prop.element_count,
                    element,
                };
                proof {
                    here = seq![flat@];
                }
                out.push(flat);
                assert(props_view(out) =~= before + here);
            }
        }
        proof {
            match collect_props(all, t as int, i + 1, ex, depth as nat) {
                Ok(rest) => {
                    assert(done + (here + rest) =~= (done + here) + rest);
                },
                Err(e) => {},
            }
            assert(base + (done + here) =~= (base + done) + here);
            done = done + here;
        }
        i = i + 1;
    }
    proof {
        assert(done + Seq::<SendPropView>::empty() =~= done);
    }
    Ok(())
}

/// Adds to `out` copies of the properties of a list that change often, or
/// of those that do not.
pub fn select(props: &Vec<SendProp>, often: bool, out: &mut Vec<SendProp>)
    ensures
        props_view(final(out)) == props_view(old(out)) + select_props(props_view(props), often),
{
    let ghost all = props_view(props);
    let ghost base = props_view(out);
    let mut i: usize = 0;
    proof {
        assert(all.take(0) =~= Seq::<SendPropView>::empty());
        assert(base + select_props(all.take(0), often) =~= base);
    }
    while i < props.len()
        invariant
            i <= props@.len(),
            all == props_view(props),
            props_view(out) == base + select_props(all.take(i as int), often),
        decreases props@.len() - i,
    {
        let ghost before = props_view(out);
        let prop = &props[i];
        proof {
            lemma_select_props_append(all.take(i as int), seq![all[i as int]], often);
            assert(all.take(i + 1) =~= all.take(i as int) + seq![all[i as int]]);
            reveal_with_fuel(select_props, 2);
            assert(seq![all[i as int]].drop_first() =~= Seq::<SendPropView>::empty());
            assert(all[i as int] == prop@);
        }
        if prop.layout.flags.changes_often == often {
            let copy = SendProp {
                name: prop.name.clone(),
                table: prop.table.clone(),
                layout: prop.layout,
                element_count: prop.element_count,
                element: prop.element,
            };
            out.push(copy);
            assert(props_view(out) =~= before + seq![prop@]);
            assert(base + (select_props(all.take(i as int), often) + seq![prop@]) =~= (base
                + select_props(all.take(i as int), often)) + seq![prop@]);
        } else {
            assert(select_props(all.take(i as int), often) + Seq::<SendPropView>::empty()
                =~= select_props(all.take(i as int), often));
        }
        i = i + 1;
    }
    assert(all.take(i as int) =~= all);
}

/// The properties of the class with the table `name`, in the order of the
/// wire.
pub fn flatten_table(
    tables: &Vec<SendTable>,
    name: &String,
) -> (r: Result<Vec<SendProp>, ParseError>)
    ensures
        (match flatten(tables_view(tables), name@) {
            Ok(props) => r matches Ok(found) && props_view(&found) == props,
            Err(e) => r matches Err(x) && x == e,
        }),
{
    let t = find_table(tables, name);
    if t >= tables.len() {
        return Err(ParseError::DataTableTruncated);
    }
    let mut excludes: Vec<Exclusion> = Vec::new();
    assert(exclusions_view(&excludes) =~= Seq::<ExclusionView>::empty());
    match gather_exclusions(tables, t, MAX_TABLE_DEPTH, &mut excludes) {
        Ok(()) => {},
        Err(e) => {
            return Err(e);
        },
    }
    proof {
        let found = gather_excludes(tables_view(tables), t as int, 0, MAX_TABLE_DEPTH as nat)->Ok_0;
        assert(Seq::<ExclusionView>::empty() + found =~= found);
    }
    let mut props: Vec<SendProp> = Vec::new();
    assert(props_view(&props) =~= Seq::<SendPropView>::empty());
    match collect(tables, t, &excludes, MAX_TABLE_DEPTH, &mut props) {
        Ok(()) => {},
        Err(e) => {
            return Err(e);
        },
    }
    proof {
        let found = collect_props(
            tables_view(tables),
            t as int,
            0,
            exclusions_view(&excludes),
            MAX_TABLE_DEPTH as nat,
        )->Ok_0;
        assert(Seq::<SendPropView>::empty() + found =~= found);
    }
    let mut sorted: Vec<SendProp> = Vec::new();
    assert(props_view(&sorted) =~= Seq::<SendPropView>::empty());
    select(&props, true, &mut sorted);
    select(&props, false, &mut sorted);
    proof {
        let all = props_view(&props);
        assert(Seq::<SendPropView>::empty() + select_props(all, true) =~= select_props(all, true));
    }
    Ok(sorted)
}

/// The properties of each class of a list, in the order of the wire: the
/// first class whose properties cannot be worked out ends it all.
pub open spec fn flatten_classes(
    tables: Seq<SendTableView>,
    classes: Seq<ClassEntryView>,
) -> Result<Seq<Seq<SendPropView>>, ParseError>
    decreases classes.len(),
{
    if classes.len() == 0 {
        Ok(Seq::empty())
    } else {
        match flatten_classes(tables, classes.drop_last()) {
            Err(e) => Err(e),
            Ok(done) => match flatten(tables, classes.last().data_table) {
                Err(e) => Err(e),
                Ok(props) => Ok(done.push(props)),
            },
        }
    }
}

impl DataTables {
    /// The classes with their properties in the order of the wire, in the
    /// order in which the classes are declared. The first class whose
    /// properties cannot be worked out ends it all.
    pub fn flatten(&self) -> (r: Result<Vec<ServerClass>, ParseError>)
        ensures
            (match flatten_classes(self@.tables, self@.classes) {
                Ok(all) => r matches Ok(classes) && classes_view(&classes) == all,
                Err(e) => r matches Err(x) && x == e,
            }),
            r matches Ok(classes) ==> classes@.len() == self.classes@.len() && forall|i: int|
                0 <= i < classes@.len() ==> {
                    &&& (#[trigger] classes@[i]).id == self.classes@[i].id
                    &&& classes@[i].name@ == self.classes@[i].name@
                    &&& classes@[i].data_table@ == self.classes@[i].data_table@
                },
    {
        let ghost all = self@.classes;
        let mut out: Vec<ServerClass> = Vec::new();
        let mut i: usize = 0;
        assert(classes_view(&out) =~= Seq::<Seq<SendPropView>>::empty());
        assert(all.take(0) =~= Seq::<ClassEntryView>::empty());
        while i < self.classes.len()
            invariant
                i <= self.classes@.len(),
                out@.len() == i,
                all == self@.classes,
                flatten_classes(self@.tables, all.take(i as int)) == Ok::<
                    Seq<Seq<SendPropView>>,
                    ParseError,
                >(classes_view(&out)),
                forall|k: int|
                    0 <= k < i ==> {
                        &&& (#[trigger] out@[k]).id == self.classes@[k].id
                        &&& out@[k].name@ == self.classes@[k].name@
                        &&& out@[k].data_table@ == self.classes@[k].data_table@
                    },
            decreases self.classes@.len() - i,
        {
            let entry = &self.classes[i];
            let ghost done = classes_view(&out);
            proof {
                assert(all.take(i + 1).drop_last() =~= all.take(i as int));
                assert(all.take(i + 1).last() == entry@);
            }
            let props = match flatten_table(&self.tables, &entry.data_table) {
                Ok(v) => v,
                Err(e) => {
                    proof {
                        lemma_flatten_classes_fails(self@.tables, all, i + 1);
                    }
                    return Err(e);
                },
            };
            out.push(
                ServerClass {
                    id: entry.id,
                    name: entry.name.clone(),
                    data_table: entry.data_table.clone(),
                    props,
                },
            );
            assert(classes_view(&out) =~= done.push(props_view(&props)));
            i = i + 1;
        }
        assert(all.take(i as int) =~= all);
        Ok(out)
    }
}

/// Where the properties of the first `n` classes cannot be worked out,
/// those of all the classes cannot, for the same reason.
pub proof fn lemma_flatten_classes_fails(
    tables: Seq<SendTableView>,
    classes: Seq<ClassEntryView>,
    n: int,
)
    requires
        0 <= n <= classes.len(),
        flatten_classes(tables, classes.take(n)) is Err,
    ensures
        flatten_classes(tables, classes) == flatten_classes(tables, classes.take(n)),
    decreases classes.len() - n,
{
    if n < classes.len() {
        assert(classes.take(n + 1).drop_last() =~= classes.take(n));
        lemma_flatten_classes_fails(tables, classes, n + 1);
    } else {
        assert(classes.take(n) =~= classes);
    }
}

} // verus!
