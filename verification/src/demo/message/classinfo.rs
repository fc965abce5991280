//! The classes of entities that the server knows.
use crate::demo::message::stringtable::{index_bits, index_width};
use crate::stream::{take_bool, take_string, take_uint, ReadError, Stream};
use vstd::arithmetic::power2::lemma2_to64;
use vstd::prelude::*;
use vstd::utf8::decode_utf8;

verus! {

/// A class of entities: its id, its name, and the name of the table of its
/// properties.
#[derive(Debug, Clone, PartialEq, Eq)]
pub struct ClassInfoEntry {
    pub index: u16,
    pub class_name: String,
    pub table_name: String,
}

/// What a [`ClassInfoEntry`] holds.
pub struct ClassInfoEntryView {
    pub index: u16,
    pub class_name: Seq<char>,
    pub table_name: Seq<char>,
}

impl ClassInfoEntry {
    /// What the entry holds.
    pub open spec fn view(&self) -> ClassInfoEntryView {
        ClassInfoEntryView {
            index: self.index,
            class_name: self.class_name@,
            table_name: self.table_name@,
        }
    }

    /// What decoding one class at `pos` gives: its id in `width` bits, and
    /// its two names.
    pub open spec fn parse(bits: Seq<bool>, pos: int, width: nat) -> Result<
        (ClassInfoEntryView, int),
        ReadError,
    > {
        match take_uint(bits, pos, width as int) {
            Err(e) => Err(e),
            Ok((index, p1)) => match take_string(bits, p1) {
                Err(e) => Err(e),
                Ok((class_name, p2)) => match take_string(bits, p2) {
                    Err(e) => Err(e),
                    Ok((table_name, end)) => Ok(
                        (
                            ClassInfoEntryView {
                                index: index as u16,
                                class_name: decode_utf8(class_name),
                                table_name: decode_utf8(table_name),
                            },
                            end,
                        ),
                    ),
                },
            },
        }
    }

    /// Reads one class, with an id of `width` bits.
    pub fn read(stream: &mut Stream, width: usize) -> (r: Result<Self, ReadError>)
        requires
            old(stream).inv(),
            width <= 16,
        ensures
            final(stream).inv(),
            final(stream).same_window(old(stream)),
            (match Self::parse(old(stream).bits(), old(stream).position(), width as nat) {
                Ok((view, end)) => (r matches Ok(found) && found@ == view)
                    && final(stream).position() == end,
                Err(e) => r matches Err(x) && x == e,
            }),
    {
        let index = match stream.read_int(width) {
            Ok(v) => {
                proof {
                    lemma2_to64();
                    if width < 16 {
                        vstd::arithmetic::power2::lemma_pow2_strictly_increases(width as nat, 16);
                    }
                }
                v as u16
            },
            Err(e) => {
                return Err(e);
            },
        };
        let class_name = match stream.read_string() {
            Ok(v) => v,
            Err(e) => {
                return Err(e);
            },
        };
        let table_name = match stream.read_string() {
            Ok(v) => v,
            Err(e) => {
                return Err(e);
            },
        };
        Ok(ClassInfoEntry { index, class_name, table_name })
    }
}

/// The classes of a list.
pub open spec fn entries_view(entries: &Vec<ClassInfoEntry>) -> Seq<ClassInfoEntryView> {
    Seq::new(entries@.len(), |i: int| entries@[i]@)
}

/// What decoding `count` classes at `pos` gives.
pub open spec fn take_classes(bits: Seq<bool>, pos: int, width: nat, count: nat) -> Result<
    (Seq<ClassInfoEntryView>, int),
    ReadError,
>
    decreases count,
{
    if count == 0 {
        Ok((Seq::empty(), pos))
    } else {
        match ClassInfoEntry::parse(bits, pos, width) {
            Err(e) => Err(e),
            Ok((first, p)) => match take_classes(bits, p, width, (count - 1) as nat) {
                Err(e) => Err(e),
                Ok((rest, end)) => Ok((seq![first] + rest, end)),
            },
        }
    }
}

/// The outcome of decoding more classes, with those that were decoded before
/// put in front.
pub open spec fn after_classes(
    done: Seq<ClassInfoEntryView>,
    more: Result<(Seq<ClassInfoEntryView>, int), ReadError>,
) -> Result<(Seq<ClassInfoEntryView>, int), ReadError> {
    match more {
        Ok((rest, end)) => Ok((done + rest, end)),
        Err(e) => Err(e),
    }
}

/// The classes of entities that the server knows.
#[derive(Debug, Clone, PartialEq, Eq)]
pub struct ClassInfoMessage {
    pub count: u16,
    /// Whether the client is to make the classes up from what it has; the
    /// classes are then not sent.
    pub create: bool,
    pub entries: Vec<ClassInfoEntry>,
}

/// What a [`ClassInfoMessage`] holds.
pub struct ClassInfoMessageView {
    pub count: u16,
    pub create: bool,
    pub entries: Seq<ClassInfoEntryView>,
}

impl ClassInfoMessage {
    /// What the message holds.
    pub open spec fn view(&self) -> ClassInfoMessageView {
        ClassInfoMessageView {
            count: self.count,
            create: self.create,
            entries: entries_view(&self.entries),
        }
    }

    /// The message with the given head, where its classes decode.
    pub open spec fn with_entries(
        count: u16,
        create: bool,
        entries: Result<(Seq<ClassInfoEntryView>, int), ReadError>,
    ) -> Result<(ClassInfoMessageView, int), ReadError> {
        match entries {
            Ok((entries, end)) => Ok((ClassInfoMessageView { count, create, entries }, end)),
            Err(e) => Err(e),
        }
    }

    /// What decoding the message at `pos` gives: the number of classes in
    /// sixteen bits, a bit that tells whether the classes are left out, and
    /// otherwise the classes, each with an id of one bit more than the
    /// logarithm of their number to base 2, rounded down.
    #[verifier::opaque]
    pub open spec fn parse(
        bits: Seq<bool>,
        pos: int,
    ) -> Result<(ClassInfoMessageView, int), ReadError> {
        match take_uint(bits, pos, 16) {
            Err(e) => Err(e),
            Ok((count, p1)) => match take_bool(bits, p1) {
                Err(e) => Err(e),
                Ok((create, p2)) => Self::with_entries(
                    count as u16,
                    create,
                    if create {
                        Ok((Seq::empty(), p2))
                    } else {
                        take_classes(bits, p2, index_bits(count) + 1, count)
                    },
                ),
            },
        }
    }

    /// Reads the message.
    pub fn read(stream: &mut Stream) -> (r: Result<Self, ReadError>)
        requires
            old(stream).inv(),
        ensures
            final(stream).inv(),
            final(stream).same_window(old(stream)),
            (match Self::parse(old(stream).bits(), old(stream).position()) {
                Ok((view, end)) => (r matches Ok(found) && found@ == view)
                    && final(stream).position() == end,
                Err(e) => r matches Err(x) && x == e,
            }),
    {
        reveal(ClassInfoMessage::parse);
        let count = match stream.read_u16() {
            Ok(v) => v,
            Err(e) => {
                return Err(e);
            },
        };
        let create = match stream.read_bool() {
            Ok(v) => v,
            Err(e) => {
                return Err(e);
            },
        };
        let mut entries: Vec<ClassInfoEntry> = Vec::new();
        if create {
            assert(entries_view(&entries) =~= Seq::<ClassInfoEntryView>::empty());
            return Ok(ClassInfoMessage { count, create, entries });
        }
        proof {
            lemma2_to64();
            crate::demo::message::stringtable::lemma_index_bits_bound(count as nat, 16);
        }
        let width = index_width(count as usize) + 1;
        let ghost bits = stream.bits();
        let ghost total = take_classes(bits, stream.position(), width as nat, count as nat);
        let mut i: usize = 0;
        proof {
            match total {
                Ok((rest, end)) => {
                    assert(entries_view(&entries) + rest =~= rest);
                },
                Err(e) => {},
            }
        }
        while i < count as usize
            invariant
                i <= count,
                width <= 16,
                stream.inv(),
                stream.same_window(old(stream)),
                stream.bits() == bits,
                Self::parse(old(stream).bits(), old(stream).position()) == Self::with_entries(
                    count,
                    create,
                    total,
                ),
                total == after_classes(
                    entries_view(&entries),
                    take_classes(bits, stream.position(), width as nat, (count - i) as nat),
                ),
            decreases count - i,
        {
            let ghost done = entries_view(&entries);
            let entry = match ClassInfoEntry::read(stream, width) {
                Ok(v) => v,
                Err(e) => {
                    return Err(e);
                },
            };
            proof {
                match take_classes(bits, stream.position(), width as nat, (count - i - 1) as nat) {
                    Ok((rest, end)) => {
                        assert(done + (seq![entry@] + rest) =~= done.push(entry@) + rest);
                    },
                    Err(e) => {},
                }
            }
            entries.push(entry);
            assert(entries_view(&entries) =~= done.push(entry@));
            i = i + 1;
        }
        proof {
            assert(entries_view(&entries) + Seq::<ClassInfoEntryView>::empty() =~= entries_view(
                &entries,
            ));
        }
        Ok(ClassInfoMessage { count, create, entries })
    }
}

} // verus!
