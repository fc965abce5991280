//! String tables: named lists of strings that the server keeps in step with
//! the client by sending changes.
//!
//! A change names an entry, and may bring a new string and new user data for
//! it. To save space a string may be sent as a reference into the history,
//! the last 32 strings that were sent: so many bytes of one of them, and the
//! rest spelled out. The history only serves to decode; what a table holds
//! after a run of changes depends on the decoded changes alone.
use crate::demo::data::MaybeUtf8String;
use crate::demo::parser::ParseError;
use crate::stream::{
    c_string_at, c_string_consumed, take_bool, take_bytes, take_uint, uint_at, ReadError, Stream,
};
use crate::text::copy_range;
use vstd::arithmetic::power2::{lemma2_to64, lemma_pow2_strictly_increases, pow2};
use vstd::prelude::*;

verus! {

/// The number of strings that the history holds.
pub const HISTORY_SIZE: usize = 32;

/// The number of bits that name a string of the history.
pub const HISTORY_BITS: usize = 5;

/// The number of bits that hold how many bytes are taken from a string of the
/// history.
pub const SUBSTRING_BITS: usize = 5;

/// The number of bits that hold the length in bytes of user data of varying
/// size.
pub const MAX_USERDATA_BITS: usize = 14;

/// The widest user data of fixed size, in bits.
pub const MAX_FIXED_USERDATA_BITS: usize = 64;

/// What an entry of a table holds: the bytes of its string, and its user
/// data if it has any.
pub struct EntryView {
    pub text: Seq<u8>,
    pub extra: Option<Seq<u8>>,
}

/// A decoded change to one entry. A part that the change does not bring is
/// left as it is in the table.
pub struct ChangeView {
    pub index: int,
    pub text: Option<Seq<u8>>,
    pub extra: Option<Seq<u8>>,
}

/// An entry that was never written.
pub open spec fn empty_entry() -> EntryView {
    EntryView { text: Seq::empty(), extra: None }
}

/// The entries after one change. The list grows with empty entries up to the
/// entry that the change names.
pub open spec fn apply_change(entries: Seq<EntryView>, change: ChangeView) -> Seq<EntryView> {
    let grown = if change.index < entries.len() {
        entries
    } else {
        entries + Seq::new((change.index + 1 - entries.len()) as nat, |i: int| empty_entry())
    };
    grown.update(
        change.index,
        EntryView {
            text: match change.text {
                Some(text) => text,
                None => grown[change.index].text,
            },
            extra: match change.extra {
                Some(extra) => Some(extra),
                None => grown[change.index].extra,
            },
        },
    )
}

/// The entries after a run of changes, first change first. This is all
/// there is to the meaning of an update: no history enters into it.
pub open spec fn apply_changes(entries: Seq<EntryView>, changes: Seq<ChangeView>) -> Seq<
    EntryView,
>
    decreases changes.len(),
{
    if changes.len() == 0 {
        entries
    } else {
        apply_changes(apply_change(entries, changes[0]), changes.drop_first())
    }
}

/// The history after one more string: the oldest of 32 makes room.
pub open spec fn push_history(history: Seq<Seq<u8>>, text: Seq<u8>) -> Seq<Seq<u8>> {
    if history.len() >= HISTORY_SIZE {
        history.drop_first().push(text)
    } else {
        history.push(text)
    }
}

/// The history after a change: a change that brings a string adds it.
pub open spec fn history_after(history: Seq<Seq<u8>>, change: ChangeView) -> Seq<Seq<u8>> {
    match change.text {
        Some(text) => push_history(history, text),
        None => history,
    }
}

/// The first `count` bytes of string `slot` of the history; a slot that is
/// not filled gives nothing, and a string shorter than `count` gives all of
/// itself.
pub open spec fn history_prefix(history: Seq<Seq<u8>>, slot: int, count: int) -> Seq<u8> {
    if 0 <= slot < history.len() {
        if count < history[slot].len() {
            history[slot].take(count)
        } else {
            history[slot]
        }
    } else {
        Seq::empty()
    }
}

/// The bytes of the number `v` in `count` bytes, lowest byte first.
pub open spec fn le_bytes(v: nat, count: nat) -> Seq<u8>
    decreases count,
{
    if count == 0 {
        Seq::empty()
    } else {
        seq![(v % 256) as u8] + le_bytes(v / 256, (count - 1) as nat)
    }
}

/// The number of bits that name an entry of a table of `max_entries`
/// entries: the logarithm to base 2, rounded down.
pub open spec fn index_bits(max_entries: nat) -> nat
    decreases max_entries,
{
    if max_entries <= 1 {
        0
    } else {
        1 + index_bits(max_entries / 2)
    }
}

/// How a table's changes are laid out on the wire.
#[derive(Debug, Clone, Copy, PartialEq, Eq, Structural)]
pub struct Layout {
    /// The number of entries that the table can hold.
    pub max_entries: usize,
    /// The size in bits of the user data of each entry, or 0 where the size
    /// varies from entry to entry.
    pub fixed_userdata_bits: usize,
}

impl Layout {
    /// What decoding a string at `pos` gives: its bytes, and the position
    /// behind it. One bit tells whether the string refers to the history;
    /// if so, five bits name the slot and five more say how many bytes to
    /// take from it; then the rest follows, NUL-terminated.
    pub open spec fn take_text(bits: Seq<bool>, pos: int, history: Seq<Seq<u8>>) -> Result<
        (Seq<u8>, int),
        ParseError,
    > {
        match take_bool(bits, pos) {
            Err(e) => Err(ParseError::of_read(e)),
            Ok((from_history, p1)) => if from_history {
                match take_uint(bits, p1, 5) {
                    Err(e) => Err(ParseError::of_read(e)),
                    Ok((slot, p2)) => match take_uint(bits, p2, 5) {
                        Err(e) => Err(ParseError::of_read(e)),
                        Ok((count, p3)) => Ok(
                            (
                                history_prefix(history, slot as int, count as int) + c_string_at(
                                    bits,
                                    p3,
                                ),
                                p3 + 8 * c_string_consumed(bits, p3),
                            ),
                        ),
                    },
                }
            } else {
                Ok((c_string_at(bits, p1), p1 + 8 * c_string_consumed(bits, p1)))
            },
        }
    }

    /// What decoding user data at `pos` gives. Data of fixed size is a number
    /// of that many bits, kept as its bytes, lowest first; data of varying
    /// size is a length in bytes, in fourteen bits, and that many bytes.
    pub open spec fn take_extra(self, bits: Seq<bool>, pos: int) -> Result<
        (Seq<u8>, int),
        ParseError,
    > {
        if self.fixed_userdata_bits > MAX_FIXED_USERDATA_BITS {
            Err(ParseError::UserDataTooLarge(self.fixed_userdata_bits))
        } else if self.fixed_userdata_bits > 0 {
            match take_uint(bits, pos, self.fixed_userdata_bits as int) {
                Err(e) => Err(ParseError::of_read(e)),
                Ok((v, end)) => Ok((le_bytes(v, ((self.fixed_userdata_bits + 7) / 8) as nat), end)),
            }
        } else {
            match take_uint(bits, pos, 14) {
                Err(e) => Err(ParseError::of_read(e)),
                Ok((len, p1)) => match take_bytes(bits, p1, len as int) {
                    Err(e) => Err(ParseError::of_read(e)),
                    Ok(found) => Ok(found),
                },
            }
        }
    }

    /// What decoding one change at `pos` gives: the change, and the position
    /// behind it.
    ///
    /// One bit tells whether the index is spelled out, in as many bits as
    /// name an entry of the table; otherwise the change is for the entry
    /// `next`, the one behind the entry of the change before. An index
    /// outside the table is refused. One bit each tells whether a string and
    /// whether user data follow.
    pub open spec fn take_change(
        self,
        bits: Seq<bool>,
        pos: int,
        history: Seq<Seq<u8>>,
        next: int,
    ) -> Result<(ChangeView, int), ParseError> {
        match take_bool(bits, pos) {
            Err(e) => Err(ParseError::of_read(e)),
            Ok((explicit, p1)) => match (if explicit {
                take_uint(bits, p1, index_bits(self.max_entries as nat) as int)
            } else {
                Ok((next as nat, p1))
            }) {
                Err(e) => Err(ParseError::of_read(e)),
                Ok((index, p2)) => if index >= self.max_entries {
                    Err(ParseError::StringTableOverflow)
                } else {
                    match take_bool(bits, p2) {
                        Err(e) => Err(ParseError::of_read(e)),
                        Ok((has_text, p3)) => match (if has_text {
                            match Self::take_text(bits, p3, history) {
                                Err(e) => Err(e),
                                Ok((text, p)) => Ok((Some(text), p)),
                            }
                        } else {
                            Ok((None, p3))
                        }) {
                            Err(e) => Err(e),
                            Ok((text, p4)) => match take_bool(bits, p4) {
                                Err(e) => Err(ParseError::of_read(e)),
                                Ok((has_extra, p5)) => match (if has_extra {
                                    match self.take_extra(bits, p5) {
                                        Err(e) => Err(e),
                                        Ok((extra, p)) => Ok((Some(extra), p)),
                                    }
                                } else {
                                    Ok((None, p5))
                                }) {
                                    Err(e) => Err(e),
                                    Ok((extra, end)) => Ok(
                                        (ChangeView { index: index as int, text, extra }, end),
                                    ),
                                },
                            },
                        },
                    }
                },
            },
        }
    }

    /// What decoding `count` changes at `pos` gives: the changes, the
    /// history after them, and the position behind them. The first change
    /// without an index of its own is for entry `next`.
    pub open spec fn take_changes(
        self,
        bits: Seq<bool>,
        pos: int,
        history: Seq<Seq<u8>>,
        next: int,
        count: nat,
    ) -> Result<(Seq<ChangeView>, Seq<Seq<u8>>, int), ParseError>
        decreases count,
    {
        if count == 0 {
            Ok((Seq::empty(), history, pos))
        } else {
            match self.take_change(bits, pos, history, next) {
                Err(e) => Err(e),
                Ok((change, p)) => match self.take_changes(
                    bits,
                    p,
                    history_after(history, change),
                    change.index + 1,
                    (count - 1) as nat,
                ) {
                    Err(e) => Err(e),
                    Ok((rest, last_history, end)) => Ok((seq![change] + rest, last_history, end)),
                },
            }
        }
    }
}

/// A number below `2^k` is named by fewer than `k` bits.
pub proof fn lemma_index_bits_bound(n: nat, k: nat)
    requires
        1 <= k,
        n < pow2(k),
    ensures
        index_bits(n) < k,
    decreases n,
{
    if n > 1 {
        vstd::arithmetic::power2::lemma_pow2_unfold(k);
        if k == 1 {
            lemma2_to64();
        } else {
            lemma_index_bits_bound(n / 2, (k - 1) as nat);
        }
    }
}

/// The number of bits that name an entry of a table of `max_entries`
/// entries.
pub fn index_width(max_entries: usize) -> (r: usize)
    ensures
        r == index_bits(max_entries as nat),
        r < 64,
{
    proof {
        lemma2_to64();
        lemma_index_bits_bound(max_entries as nat, 64);
    }
    let mut left = max_entries;
    let mut width: usize = 0;
    while left > 1
        invariant
            width + index_bits(left as nat) == index_bits(max_entries as nat),
            index_bits(max_entries as nat) < 64,
        decreases left,
    {
        left = left / 2;
        width = width + 1;
    }
    width
}

/// An entry of a string table.
#[derive(Debug, Clone, PartialEq, Eq)]
pub struct StringTableEntry {
    pub text: MaybeUtf8String,
    pub extra_data: Option<Vec<u8>>,
}

impl StringTableEntry {
    /// What the entry holds.
    pub open spec fn view(&self) -> EntryView {
        EntryView {
            text: self.text.bytes(),
            extra: match self.extra_data {
                Some(data) => Some(data@),
                None => None,
            },
        }
    }
}

/// A decoded change to one entry of a string table.
#[derive(Debug, Clone, PartialEq, Eq)]
pub struct StringTableChange {
    pub index: usize,
    pub text: Option<MaybeUtf8String>,
    pub extra_data: Option<Vec<u8>>,
}

impl StringTableChange {
    /// What the change holds.
    pub open spec fn view(&self) -> ChangeView {
        ChangeView {
            index: self.index as int,
            text: match self.text {
                Some(text) => Some(text.bytes()),
                None => None,
            },
            extra: match self.extra_data {
                Some(data) => Some(data@),
                None => None,
            },
        }
    }
}

/// The strings of a history.
pub open spec fn history_view(history: &Vec<Vec<u8>>) -> Seq<Seq<u8>> {
    Seq::new(history@.len(), |i: int| history@[i]@)
}

/// The changes of a list.
pub open spec fn changes_view(changes: &Vec<StringTableChange>) -> Seq<ChangeView> {
    Seq::new(changes@.len(), |i: int| changes@[i]@)
}

/// The entries of a list.
pub open spec fn entries_view(entries: &Vec<StringTableEntry>) -> Seq<EntryView> {
    Seq::new(entries@.len(), |i: int| entries@[i]@)
}

/// Adds a string to a history; the oldest of 32 makes room.
pub fn remember(history: &mut Vec<Vec<u8>>, text: Vec<u8>)
    requires
        old(history)@.len() <= HISTORY_SIZE,
    ensures
        history_view(final(history)) == push_history(history_view(old(history)), text@),
        final(history)@.len() <= HISTORY_SIZE,
{
    if history.len() >= HISTORY_SIZE {
        history.remove(0);
    }
    history.push(text);
    assert(history_view(history) =~= push_history(history_view(old(history)), text@));
}

/// The bytes of `v` in `count` bytes, lowest byte first.
pub fn number_bytes(v: u64, count: usize) -> (r: Vec<u8>)
    ensures
        r@ == le_bytes(v as nat, count as nat),
{
    let mut out: Vec<u8> = Vec::new();
    let mut left = v;
    let mut i: usize = 0;
    while i < count
        invariant
            i <= count,
            out@ + le_bytes(left as nat, (count - i) as nat) == le_bytes(v as nat, count as nat),
        decreases count - i,
    {
        let ghost before = out@;
        out.push((left % 256) as u8);
        proof {
            assert(before + (seq![(left % 256) as u8] + le_bytes(
                (left / 256) as nat,
                (count - i - 1) as nat,
            )) =~= out@ + le_bytes((left / 256) as nat, (count - i - 1) as nat));
        }
        left = left / 256;
        i = i + 1;
    }
    assert(out@ + le_bytes(left as nat, 0) =~= out@);
    out
}

impl Layout {
    /// Reads the string of a change.
    pub fn read_text(stream: &mut Stream, history: &Vec<Vec<u8>>) -> (r: Result<
        MaybeUtf8String,
        ParseError,
    >)
        requires
            old(stream).inv(),
        ensures
            final(stream).inv(),
            final(stream).same_window(old(stream)),
            (match Self::take_text(
                old(stream).bits(),
                old(stream).position(),
                history_view(history),
            ) {
                Ok((text, end)) => (r matches Ok(found) && found.bytes() == text)
                    && final(stream).position() == end,
                Err(e) => r matches Err(x) && x == e,
            }),
    {
        let from_history = match stream.read_bool() {
            Ok(v) => v,
            Err(e) => {
                return Err(ParseError::from_read(e));
            },
        };
        if !from_history {
            return match MaybeUtf8String::read(stream) {
                Ok(text) => Ok(text),
                Err(e) => Err(ParseError::from_read(e)),
            };
        }
        let slot = match stream.read_int(HISTORY_BITS) {
            Ok(v) => {
                proof {
                    lemma2_to64();
                }
                v as usize
            },
            Err(e) => {
                return Err(ParseError::from_read(e));
            },
        };
        let count = match stream.read_int(SUBSTRING_BITS) {
            Ok(v) => {
                proof {
                    lemma2_to64();
                }
                v as usize
            },
            Err(e) => {
                return Err(ParseError::from_read(e));
            },
        };
        let mut text: Vec<u8> = if slot < history.len() {
            let source = &history[slot];
            let taken = if count < source.len() {
                count
            } else {
                source.len()
            };
            let prefix = copy_range(source.as_slice(), 0, taken);
            assert(prefix@ =~= history_prefix(history_view(history), slot as int, count as int));
            prefix
        } else {
            Vec::new()
        };
        match MaybeUtf8String::read(stream) {
            Ok(rest) => {
                text.extend_from_slice(rest.as_bytes());
                Ok(MaybeUtf8String::from_bytes(text))
            },
            Err(e) => Err(ParseError::from_read(e)),
        }
    }

    /// Reads the user data of a change.
    pub fn read_extra(&self, stream: &mut Stream) -> (r: Result<Vec<u8>, ParseError>)
        requires
            old(stream).inv(),
        ensures
            final(stream).inv(),
            final(stream).same_window(old(stream)),
            (match self.take_extra(old(stream).bits(), old(stream).position()) {
                Ok((extra, end)) => (r matches Ok(found) && found@ == extra)
                    && final(stream).position() == end,
                Err(e) => r matches Err(x) && x == e,
            }),
    {
        if self.fixed_userdata_bits > MAX_FIXED_USERDATA_BITS {
            return Err(ParseError::UserDataTooLarge(self.fixed_userdata_bits));
        }
        if self.fixed_userdata_bits > 0 {
            match stream.read_int(self.fixed_userdata_bits) {
                Ok(v) => Ok(number_bytes(v, (self.fixed_userdata_bits + 7) / 8)),
                Err(e) => Err(ParseError::from_read(e)),
            }
        } else {
            let len = match stream.read_int(MAX_USERDATA_BITS) {
                Ok(v) => {
                    proof {
                        lemma2_to64();
                    }
                    v as usize
                },
                Err(e) => {
                    return Err(ParseError::from_read(e));
                },
            };
            match stream.read_bytes(len) {
                Ok(v) => Ok(v),
                Err(e) => Err(ParseError::from_read(e)),
            }
        }
    }

    /// Reads one change. A change without an index of its own is for entry
    /// `next`.
    pub fn read_change(
        &self,
        stream: &mut Stream,
        history: &Vec<Vec<u8>>,
        next: usize,
    ) -> (r: Result<StringTableChange, ParseError>)
        requires
            old(stream).inv(),
        ensures
            final(stream).inv(),
            final(stream).same_window(old(stream)),
            (match self.take_change(
                old(stream).bits(),
                old(stream).position(),
                history_view(history),
                next as int,
            ) {
                Ok((change, end)) => (r matches Ok(found) && found@ == change)
                    && final(stream).position() == end,
                Err(e) => r matches Err(x) && x == e,
            }),
    {
        let explicit = match stream.read_bool() {
            Ok(v) => v,
            Err(e) => {
                return Err(ParseError::from_read(e));
            },
        };
        let index = if explicit {
            match stream.read_int(index_width(self.max_entries)) {
                Ok(v) => {
                    if v >= self.max_entries as u64 {
                        return Err(ParseError::StringTableOverflow);
                    }
                    v as usize
                },
                Err(e) => {
                    return Err(ParseError::from_read(e));
                },
            }
        } else {
            next
        };
        if index >= self.max_entries {
            return Err(ParseError::StringTableOverflow);
        }
        let has_text = match stream.read_bool() {
            Ok(v) => v,
            Err(e) => {
                return Err(ParseError::from_read(e));
            },
        };
        let text = if has_text {
            match Self::read_text(stream, history) {
                Ok(text) => Some(text),
                Err(e) => {
                    return Err(e);
                },
            }
        } else {
            None
        };
        let has_extra = match stream.read_bool() {
            Ok(v) => v,
            Err(e) => {
                return Err(ParseError::from_read(e));
            },
        };
        let extra_data = if has_extra {
            match self.read_extra(stream) {
                Ok(extra) => Some(extra),
                Err(e) => {
                    return Err(e);
                },
            }
        } else {
            None
        };
        Ok(StringTableChange { index, text, extra_data })
    }
}

/// The outcome of decoding more changes, with the changes `done` that were
/// decoded before put in front.
pub open spec fn after_changes(
    done: Seq<ChangeView>,
    more: Result<(Seq<ChangeView>, Seq<Seq<u8>>, int), ParseError>,
) -> Result<(Seq<ChangeView>, Seq<Seq<u8>>, int), ParseError> {
    match more {
        Ok((rest, history, end)) => Ok((done + rest, history, end)),
        Err(e) => Err(e),
    }
}

/// A copy of a history.
pub fn copy_history(history: &Vec<Vec<u8>>) -> (r: Vec<Vec<u8>>)
    ensures
        history_view(&r) == history_view(history),
        r@.len() == history@.len(),
{
    let mut out: Vec<Vec<u8>> = Vec::new();
    let mut i: usize = 0;
    while i < history.len()
        invariant
            i <= history@.len(),
            out@.len() == i,
            forall|j: int| 0 <= j < i ==> out@[j]@ == history@[j]@,
        decreases history@.len() - i,
    {
        let item = copy_range(history[i].as_slice(), 0, history[i].len());
        assert(item@ =~= history@[i as int]@);
        out.push(item);
        i = i + 1;
    }
    assert(history_view(&out) =~= history_view(history));
    out
}

impl Layout {
    /// Reads `count` changes and adds their strings to the history.
    ///
    /// Where a change cannot be decoded the error comes back; the history
    /// then holds the strings of the changes before it.
    pub fn read_changes(
        &self,
        stream: &mut Stream,
        history: &mut Vec<Vec<u8>>,
        count: usize,
    ) -> (r: Result<Vec<StringTableChange>, ParseError>)
        requires
            old(stream).inv(),
            old(history)@.len() <= HISTORY_SIZE,
        ensures
            final(stream).inv(),
            final(stream).same_window(old(stream)),
            final(history)@.len() <= HISTORY_SIZE,
            (match self.take_changes(
                old(stream).bits(),
                old(stream).position(),
                history_view(old(history)),
                0,
                count as nat,
            ) {
                Ok((changes, last_history, end)) => (r matches Ok(found) && changes_view(&found)
                    == changes) && history_view(final(history)) == last_history
                    && final(stream).position() == end,
                Err(e) => r matches Err(x) && x == e,
            }),
    {
        let ghost bits = stream.bits();
        let ghost total = self.take_changes(
            bits,
            stream.position(),
            history_view(history),
            0,
            count as nat,
        );
        let mut out: Vec<StringTableChange> = Vec::new();
        let mut next: usize = 0;
        let mut i: usize = 0;
        assert(changes_view(&out) + Seq::<ChangeView>::empty() =~= Seq::<ChangeView>::empty());
        proof {
            match total {
                Ok((rest, h, end)) => {
                    assert(changes_view(&out) + rest =~= rest);
                },
                Err(e) => {},
            }
        }
        while i < count
            invariant
                i <= count,
                stream.inv(),
                stream.same_window(old(stream)),
                stream.bits() == bits,
                history@.len() <= HISTORY_SIZE,
                total == self.take_changes(
                    old(stream).bits(),
                    old(stream).position(),
                    history_view(old(history)),
                    0,
                    count as nat,
                ),
                total == after_changes(
                    changes_view(&out),
                    self.take_changes(
                        bits,
                        stream.position(),
                        history_view(history),
                        next as int,
                        (count - i) as nat,
                    ),
                ),
            decreases count - i,
        {
            let ghost done = changes_view(&out);
            let ghost pos = stream.position();
            let ghost before = history_view(history);
            let change = match self.read_change(stream, history, next) {
                Ok(change) => change,
                Err(e) => {
                    return Err(e);
                },
            };
            match &change.text {
                Some(text) => {
                    let bytes = copy_range(text.as_bytes(), 0, text.as_bytes().len());
                    assert(bytes@ =~= text.bytes());
                    remember(history, bytes);
                },
                None => {},
            }
            next = change.index + 1;
            proof {
                let more = self.take_changes(
                    bits,
                    stream.position(),
                    history_view(history),
                    next as int,
                    (count - i - 1) as nat,
                );
                assert(history_view(history) == history_after(before, change@));
                match more {
                    Ok((rest, h, end)) => {
                        assert(done + (seq![change@] + rest) =~= done.push(change@) + rest);
                    },
                    Err(e) => {},
                }
            }
            out.push(change);
            assert(changes_view(&out) =~= done.push(change@));
            i = i + 1;
        }
        proof {
            assert(changes_view(&out) + Seq::<ChangeView>::empty() =~= changes_view(&out));
        }
        Ok(out)
    }
}

/// Makes one change to a list of entries.
pub fn apply_to_entries(entries: &mut Vec<StringTableEntry>, change: &StringTableChange)
    requires
        change.index < usize::MAX,
    ensures
        entries_view(final(entries)) == apply_change(entries_view(old(entries)), change@),
        final(entries)@.len() == if change.index < old(entries)@.len() {
            old(entries)@.len()
        } else {
            (change.index + 1) as nat
        },
{
    let ghost start = entries_view(entries);
    while entries.len() <= change.index
        invariant
            entries_view(entries) == start + Seq::new(
                (entries@.len() - start.len()) as nat,
                |i: int| empty_entry(),
            ),
            entries@.len() >= start.len(),
            entries@.len() == start.len() || entries@.len() <= change.index + 1,
            change.index < usize::MAX,
        decreases change.index + 1 - entries@.len(),
    {
        let ghost before = entries_view(entries);
        let text = MaybeUtf8String::default();
        assert(text.bytes() =~= Seq::<u8>::empty()) by {
            assert(text.text() =~= Seq::<char>::empty());
        }
        let entry = StringTableEntry { text, extra_data: None };
        assert(entry@ == empty_entry());
        entries.push(entry);
        assert(entries_view(entries) =~= before.push(empty_entry()));
        assert(entries_view(entries) =~= start + Seq::new(
            (entries@.len() - start.len()) as nat,
            |i: int| empty_entry(),
        ));
    }
    let ghost grown = entries_view(entries);
    assert(start.len() > change.index ==> grown =~= start);
    let mut entry = StringTableEntry { text: MaybeUtf8String::default(), extra_data: None };
    std::mem::swap(&mut entry, &mut entries[change.index]);
    match &change.text {
        Some(text) => {
            let bytes = copy_range(text.as_bytes(), 0, text.as_bytes().len());
            assert(bytes@ =~= text.bytes());
            entry.text = MaybeUtf8String::from_bytes(bytes);
        },
        None => {},
    }
    match &change.extra_data {
        Some(data) => {
            let bytes = copy_range(data.as_slice(), 0, data.len());
            assert(bytes@ =~= data@);
            entry.extra_data = Some(bytes);
        },
        None => {},
    }
    entries.set(change.index, entry);
    assert(entries_view(entries) =~= apply_change(start, change@));
}

/// Changes made one run after another are the changes of both runs made in
/// one: a table that has seen several updates holds what the changes of all
/// of them, in order, make of its first entries.
pub proof fn lemma_apply_changes_append(
    entries: Seq<EntryView>,
    first: Seq<ChangeView>,
    second: Seq<ChangeView>,
)
    ensures
        apply_changes(entries, first + second) == apply_changes(
            apply_changes(entries, first),
            second,
        ),
    decreases first.len(),
{
    if first.len() == 0 {
        assert(first + second =~= second);
    } else {
        assert((first + second).drop_first() =~= first.drop_first() + second);
        lemma_apply_changes_append(apply_change(entries, first[0]), first.drop_first(), second);
    }
}

/// A string that is sent as a reference into the history decodes to the
/// string that it abbreviates: where the bytes taken from the history and
/// the bytes that follow the reference make up the string that another
/// payload spells out, both payloads decode to the same string.
pub proof fn lemma_history_reference_is_literal(
    spelled: Seq<bool>,
    spelled_pos: int,
    referring: Seq<bool>,
    referring_pos: int,
    history: Seq<Seq<u8>>,
)
    requires
        take_bool(spelled, spelled_pos) matches Ok(flag) && !flag.0,
        take_bool(referring, referring_pos) matches Ok(flag) && flag.0,
        referring.len() - referring_pos >= 11,
        c_string_at(spelled, spelled_pos + 1) == history_prefix(
            history,
            uint_at(referring, referring_pos + 1, 5) as int,
            uint_at(referring, referring_pos + 6, 5) as int,
        ) + c_string_at(referring, referring_pos + 11),
    ensures
        Layout::take_text(spelled, spelled_pos, history) matches Ok(a)
            && Layout::take_text(referring, referring_pos, history) matches Ok(b) && a.0 == b.0,
{
}

/// Every decoded change names an entry inside the table.
pub proof fn lemma_take_changes_indices(
    layout: Layout,
    bits: Seq<bool>,
    pos: int,
    history: Seq<Seq<u8>>,
    next: int,
    count: nat,
)
    ensures
        layout.take_changes(bits, pos, history, next, count) matches Ok(found) ==> found.0.len()
            == count && forall|k: int|
            0 <= k < found.0.len() ==> 0 <= (#[trigger] found.0[k]).index < layout.max_entries,
    decreases count,
{
    if count > 0 {
        match layout.take_change(bits, pos, history, next) {
            Ok((change, p)) => {
                lemma_take_changes_indices(
                    layout,
                    bits,
                    p,
                    history_after(history, change),
                    change.index + 1,
                    (count - 1) as nat,
                );
            },
            Err(e) => {},
        }
    }
}

/// A string table.
#[derive(Debug)]
pub struct StringTable {
    pub name: String,
    pub layout: Layout,
    pub entries: Vec<StringTableEntry>,
    pub history: Vec<Vec<u8>>,
}

/// What a [`StringTable`] holds.
pub struct TableView {
    pub name: Seq<char>,
    pub layout: Layout,
    pub entries: Seq<EntryView>,
    pub history: Seq<Seq<u8>>,
}

impl StringTable {
    /// What the table holds.
    pub open spec fn view(&self) -> TableView {
        TableView {
            name: self.name@,
            layout: self.layout,
            entries: entries_view(&self.entries),
            history: history_view(&self.history),
        }
    }

    /// The table holds no more entries than it can, and its history no more
    /// than 32 strings.
    pub open spec fn wf(&self) -> bool {
        &&& self.entries@.len() <= self.layout.max_entries
        &&& self.history@.len() <= HISTORY_SIZE
    }

    /// The entry at `index`, if the table holds one there.
    pub fn entry(&self, index: usize) -> (r: Option<&StringTableEntry>)
        ensures
            index < self.entries@.len() ==> r == Some(&self.entries@[index as int]),
            index >= self.entries@.len() ==> r is None,
    {
        if index < self.entries.len() {
            Some(&self.entries[index])
        } else {
            None
        }
    }

    /// A table without entries.
    pub fn new(name: String, max_entries: usize, fixed_userdata_bits: usize) -> (r: Self)
        ensures
            r.wf(),
            r.name == name,
            r.layout == (Layout { max_entries, fixed_userdata_bits }),
            r.entries@.len() == 0,
            r.history@.len() == 0,
    {
        StringTable {
            name,
            layout: Layout { max_entries, fixed_userdata_bits },
            entries: Vec::new(),
            history: Vec::new(),
        }
    }

    /// Reads `count` changes and makes them.
    ///
    /// What the entries are afterwards is a matter of the decoded changes
    /// alone, made one after the other. Where a change cannot be decoded
    /// none is made and the table stays as it was.
    pub fn update(&mut self, stream: &mut Stream, count: usize) -> (r: Result<
        Vec<StringTableChange>,
        ParseError,
    >)
        requires
            old(self).wf(),
            old(stream).inv(),
        ensures
            final(self).wf(),
            final(stream).inv(),
            final(stream).same_window(old(stream)),
            final(self).name == old(self).name,
            final(self).layout == old(self).layout,
            (match old(self).layout.take_changes(
                old(stream).bits(),
                old(stream).position(),
                history_view(&old(self).history),
                0,
                count as nat,
            ) {
                Ok((changes, last_history, end)) => (r matches Ok(found) && changes_view(&found)
                    == changes) && entries_view(&final(self).entries) == apply_changes(
                    entries_view(&old(self).entries),
                    changes,
                ) && history_view(&final(self).history) == last_history
                    && final(stream).position() == end,
                Err(e) => (r matches Err(x) && x == e) && *final(self) == *old(self),
            }),
    {
        let mut history = copy_history(&self.history);
        let changes = match self.layout.read_changes(stream, &mut history, count) {
            Ok(changes) => changes,
            Err(e) => {
                return Err(e);
            },
        };
        proof {
            lemma_take_changes_indices(
                self.layout,
                old(stream).bits(),
                old(stream).position(),
                history_view(&old(self).history),
                0,
                count as nat,
            );
        }
        let ghost all = changes_view(&changes);
        let ghost start = entries_view(&self.entries);
        let mut i: usize = 0;
        assert(all.take(0) =~= Seq::<ChangeView>::empty());
        while i < changes.len()
            invariant
                i <= changes@.len(),
                all == changes_view(&changes),
                forall|k: int| 0 <= k < all.len() ==> 0 <= (#[trigger] all[k]).index
                    < self.layout.max_entries,
                entries_view(&self.entries) == apply_changes(start, all.take(i as int)),
                self.entries@.len() <= self.layout.max_entries,
                self.name == old(self).name,
                self.layout == old(self).layout,
                self.history == old(self).history,
            decreases changes@.len() - i,
        {
            proof {
                lemma_apply_changes_append(start, all.take(i as int), seq![all[i as int]]);
                assert(all.take(i + 1) =~= all.take(i as int) + seq![all[i as int]]);
                assert(seq![all[i as int]].drop_first() =~= Seq::<ChangeView>::empty());
                assert(all[i as int] == changes@[i as int]@);
                let sofar = apply_changes(start, all.take(i as int));
                assert(apply_changes(sofar, seq![all[i as int]]) == apply_change(
                    sofar,
                    all[i as int],
                )) by {
                    reveal_with_fuel(apply_changes, 2);
                }
            }
            apply_to_entries(&mut self.entries, &changes[i]);
            i = i + 1;
        }
        assert(all.take(i as int) =~= all);
        self.history = history;
        Ok(changes)
    }
}

/// The history after a run of changes, first change first.
pub open spec fn history_after_all(history: Seq<Seq<u8>>, changes: Seq<ChangeView>) -> Seq<Seq<u8>>
    decreases changes.len(),
{
    if changes.len() == 0 {
        history
    } else {
        history_after_all(history_after(history, changes[0]), changes.drop_first())
    }
}

/// The history that decoding a run of changes leaves is the history after
/// those changes.
pub proof fn lemma_take_changes_history(
    layout: Layout,
    bits: Seq<bool>,
    pos: int,
    history: Seq<Seq<u8>>,
    next: int,
    count: nat,
)
    ensures
        layout.take_changes(bits, pos, history, next, count) matches Ok(found) ==> found.1
            == history_after_all(history, found.0),
    decreases count,
{
    if count > 0 {
        match layout.take_change(bits, pos, history, next) {
            Ok((change, p)) => {
                lemma_take_changes_history(
                    layout,
                    bits,
                    p,
                    history_after(history, change),
                    change.index + 1,
                    (count - 1) as nat,
                );
                match layout.take_changes(
                    bits,
                    p,
                    history_after(history, change),
                    change.index + 1,
                    (count - 1) as nat,
                ) {
                    Ok((rest, h, end)) => {
                        assert((seq![change] + rest).drop_first() =~= rest);
                    },
                    Err(e) => {},
                }
            },
            Err(e) => {},
        }
    }
}

impl StringTable {
    /// Makes decoded changes to the table, and adds their strings to the
    /// history.
    pub fn apply_changes(&mut self, changes: &Vec<StringTableChange>)
        requires
            old(self).wf(),
            forall|k: int|
                0 <= k < changes@.len() ==> (#[trigger] changes@[k]).index < old(
                    self,
                ).layout.max_entries,
        ensures
            final(self).wf(),
            final(self).name == old(self).name,
            final(self).layout == old(self).layout,
            entries_view(&final(self).entries) == apply_changes(
                entries_view(&old(self).entries),
                changes_view(changes),
            ),
            history_view(&final(self).history) == history_after_all(
                history_view(&old(self).history),
                changes_view(changes),
            ),
    {
        let ghost all = changes_view(changes);
        let ghost start = entries_view(&self.entries);
        let ghost first_history = history_view(&self.history);
        let mut i: usize = 0;
        assert(all.skip(0) =~= all);
        while i < changes.len()
            invariant
                i <= changes@.len(),
                all == changes_view(changes),
                forall|k: int|
                    0 <= k < changes@.len() ==> (#[trigger] changes@[k]).index
                        < self.layout.max_entries,
                apply_changes(entries_view(&self.entries), all.skip(i as int)) == apply_changes(
                    start,
                    all,
                ),
                history_after_all(history_view(&self.history), all.skip(i as int))
                    == history_after_all(first_history, all),
                self.wf(),
                self.name == old(self).name,
                self.layout == old(self).layout,
            decreases changes@.len() - i,
        {
            let change = &changes[i];
            proof {
                assert(all.skip(i as int).drop_first() =~= all.skip(i + 1));
                assert(all.skip(i as int)[0] == change@);
            }
            apply_to_entries(&mut self.entries, change);
            match &change.text {
                Some(text) => {
                    let bytes = copy_range(text.as_bytes(), 0, text.as_bytes().len());
                    assert(bytes@ =~= text.bytes());
                    remember(&mut self.history, bytes);
                },
                None => {},
            }
            i = i + 1;
        }
    }
}

/// The number of bits of the length of the changes of a string table
/// message.
pub const TABLE_LENGTH_BITS: usize = 20;

/// The number of bits that name a table.
pub const TABLE_ID_BITS: usize = 5;

/// A string table is created.
#[derive(Debug, Clone, PartialEq, Eq)]
pub struct CreateStringTableMessage {
    pub name: String,
    pub max_entries: u16,
    /// The size in bytes of the user data of each entry, where all have the
    /// same size.
    pub fixed_userdata_size: u16,
    /// The size in bits of the user data of each entry, or 0 where the size
    /// varies from entry to entry.
    pub fixed_userdata_bits: u8,
    pub is_filenames: bool,
    /// The first entries of the table, as changes to an empty table.
    pub changes: Vec<StringTableChange>,
}

/// What a [`CreateStringTableMessage`] holds.
pub struct CreateStringTableView {
    pub name: Seq<char>,
    pub max_entries: u16,
    pub fixed_userdata_size: u16,
    pub fixed_userdata_bits: u8,
    pub is_filenames: bool,
    pub changes: Seq<ChangeView>,
}

/// The head of a message that creates a table, and the position behind it.
pub struct CreateStringTableHead {
    pub name: Seq<char>,
    pub max_entries: u16,
    pub num_entries: nat,
    pub length: nat,
    pub fixed_userdata_size: u16,
    pub fixed_userdata_bits: u8,
    pub is_filenames: bool,
    pub end: int,
}

impl CreateStringTableMessage {
    /// What the message holds.
    pub open spec fn view(&self) -> CreateStringTableView {
        CreateStringTableView {
            name: self.name@,
            max_entries: self.max_entries,
            fixed_userdata_size: self.fixed_userdata_size,
            fixed_userdata_bits: self.fixed_userdata_bits,
            is_filenames: self.is_filenames,
            changes: changes_view(&self.changes),
        }
    }

    /// What decoding the head of the message at `pos` gives: the name of
    /// the table; the number of entries it can hold, in sixteen bits; the
    /// number of entries that follow, in one bit more than name an entry;
    /// the length of those entries in twenty bits; a bit that tells whether
    /// the user data has a fixed size, and if so that size in bytes in twelve
    /// bits and in bits in four; and a bit that tells whether the strings
    /// are file names.
    pub open spec fn parse_head(
        bits: Seq<bool>,
        pos: int,
    ) -> Result<CreateStringTableHead, ReadError> {
        match crate::stream::take_string(bits, pos) {
            Err(e) => Err(e),
            Ok((name, p1)) => match take_uint(bits, p1, 16) {
                Err(e) => Err(e),
                Ok((max_entries, p2)) => match take_uint(
                    bits,
                    p2,
                    (index_bits(max_entries) + 1) as int,
                ) {
                    Err(e) => Err(e),
                    Ok((num_entries, p3)) => match take_uint(bits, p3, 20) {
                        Err(e) => Err(e),
                        Ok((length, p4)) => match take_bool(bits, p4) {
                            Err(e) => Err(e),
                            Ok((fixed, p5)) => match crate::demo::sendprop::take_part(
                                bits,
                                p5,
                                fixed,
                                12,
                            ) {
                                Err(e) => Err(e),
                                Ok((size, p6)) => match crate::demo::sendprop::take_part(
                                    bits,
                                    p6,
                                    fixed,
                                    4,
                                ) {
                                    Err(e) => Err(e),
                                    Ok((size_bits, p7)) => match take_bool(bits, p7) {
                                        Err(e) => Err(e),
                                        Ok((is_filenames, end)) => Ok(
                                            CreateStringTableHead {
                                                name: vstd::utf8::decode_utf8(name),
                                                max_entries: max_entries as u16,
                                                num_entries,
                                                length,
                                                fixed_userdata_size: size as u16,
                                                fixed_userdata_bits: size_bits as u8,
                                                is_filenames,
                                                end,
                                            },
                                        ),
                                    },
                                },
                            },
                        },
                    },
                },
            },
        }
    }

    /// What decoding the message at `pos` gives: the message, and the
    /// position behind the bits that its head sets apart for the entries.
    /// The entries are decoded as changes with an empty history.
    #[verifier::opaque]
    pub open spec fn parse(
        bits: Seq<bool>,
        pos: int,
    ) -> Result<(CreateStringTableView, int), ParseError> {
        match Self::parse_head(bits, pos) {
            Err(e) => Err(ParseError::of_read(e)),
            Ok(head) => match crate::stream::take_skip(bits, head.end, head.length as int) {
                Err(e) => Err(ParseError::of_read(e)),
                Ok(end) => match (Layout {
                    max_entries: head.max_entries as usize,
                    fixed_userdata_bits: head.fixed_userdata_bits as usize,
                }).take_changes(
                    bits.subrange(head.end, end),
                    0,
                    Seq::empty(),
                    0,
                    head.num_entries,
                ) {
                    Err(e) => Err(e),
                    Ok((changes, _, _)) => Ok(
                        (
                            CreateStringTableView {
                                name: head.name,
                                max_entries: head.max_entries,
                                fixed_userdata_size: head.fixed_userdata_size,
                                fixed_userdata_bits: head.fixed_userdata_bits,
                                is_filenames: head.is_filenames,
                                changes,
                            },
                            end,
                        ),
                    ),
                },
            },
        }
    }

    /// Reads the message. Once the bits of the entries are there the cursor
    /// stands behind them, whether or not the entries can be decoded.
    pub fn read(stream: &mut Stream) -> (r: Result<Self, ParseError>)
        requires
            old(stream).inv(),
        ensures
            final(stream).inv(),
            final(stream).same_window(old(stream)),
            (match Self::parse(old(stream).bits(), old(stream).position()) {
                Ok((view, end)) => (r matches Ok(found) && found@ == view)
                    && final(stream).position() == end,
                Err(e) => r matches Err(x) && x == e,
            }),
            Self::parse_head(old(stream).bits(), old(stream).position()) matches Ok(head) ==> (
            head.length <= old(stream).bits().len() - head.end ==> final(stream).position()
                == head.end + head.length),
    {
        reveal(CreateStringTableMessage::parse);
        proof {
            lemma2_to64();
        }
        let name = match stream.read_string() {
            Ok(v) => v,
            Err(e) => {
                return Err(ParseError::from_read(e));
            },
        };
        let max_entries = match stream.read_u16() {
            Ok(v) => v,
            Err(e) => {
                return Err(ParseError::from_read(e));
            },
        };
        let num_entries = match stream.read_int(index_width(max_entries as usize) + 1) {
            Ok(v) => {
                proof {
                    lemma_index_bits_bound(max_entries as nat, 16);
                    vstd::arithmetic::power2::lemma_pow2_strictly_increases(
                        index_bits(max_entries as nat) + 1,
                        32,
                    );
                }
                v as usize
            },
            Err(e) => {
                return Err(ParseError::from_read(e));
            },
        };
        let length = match crate::demo::sendprop::read_part(stream, true, TABLE_LENGTH_BITS) {
            Ok(v) => v as usize,
            Err(e) => {
                return Err(ParseError::from_read(e));
            },
        };
        let fixed = match stream.read_bool() {
            Ok(v) => v,
            Err(e) => {
                return Err(ParseError::from_read(e));
            },
        };
        let fixed_userdata_size = match crate::demo::sendprop::read_part(stream, fixed, 12) {
            Ok(v) => v as u16,
            Err(e) => {
                return Err(ParseError::from_read(e));
            },
        };
        let fixed_userdata_bits = match crate::demo::sendprop::read_part(stream, fixed, 4) {
            Ok(v) => v as u8,
            Err(e) => {
                return Err(ParseError::from_read(e));
            },
        };
        let is_filenames = match stream.read_bool() {
            Ok(v) => v,
            Err(e) => {
                return Err(ParseError::from_read(e));
            },
        };
        let mut payload = match stream.read_bits(length) {
            Ok(v) => v,
            Err(e) => {
                return Err(ParseError::from_read(e));
            },
        };
        let layout = Layout {
            max_entries: max_entries as usize,
            fixed_userdata_bits: fixed_userdata_bits as usize,
        };
        let mut history: Vec<Vec<u8>> = Vec::new();
        assert(history_view(&history) =~= Seq::<Seq<u8>>::empty());
        let changes = match layout.read_changes(&mut payload, &mut history, num_entries) {
            Ok(v) => v,
            Err(e) => {
                return Err(e);
            },
        };
        Ok(
            CreateStringTableMessage {
                name,
                max_entries,
                fixed_userdata_size,
                fixed_userdata_bits,
                is_filenames,
                changes,
            },
        )
    }
}

/// A string table changes.
#[derive(Debug, Clone, PartialEq, Eq)]
pub struct UpdateStringTableMessage {
    pub table_id: u8,
    pub changes: Vec<StringTableChange>,
}

/// What an [`UpdateStringTableMessage`] holds.
pub struct UpdateStringTableView {
    pub table_id: u8,
    pub changes: Seq<ChangeView>,
}

/// What the tables of a list hold.
pub open spec fn tables_model(tables: &Vec<StringTable>) -> Seq<TableView> {
    Seq::new(tables@.len(), |i: int| tables@[i]@)
}

/// What a list of tables holds that is needed to decode changes to them: the
/// layout and the history of each.
pub open spec fn tables_view(tables: &Vec<StringTable>) -> Seq<(Layout, Seq<Seq<u8>>)> {
    Seq::new(tables@.len(), |i: int| (tables@[i].layout, history_view(&tables@[i].history)))
}

/// The head of a message that changes a table, and the position behind it.
pub struct UpdateStringTableHead {
    pub table_id: u8,
    pub changed: nat,
    pub length: nat,
    pub end: int,
}

impl UpdateStringTableMessage {
    /// What the message holds.
    pub open spec fn view(&self) -> UpdateStringTableView {
        UpdateStringTableView { table_id: self.table_id, changes: changes_view(&self.changes) }
    }

    /// What decoding the head of the message at `pos` gives: the table in
    /// five bits; a bit that tells whether more than one entry changes, and
    /// if so their number in sixteen bits; and the length of the changes in
    /// twenty bits.
    pub open spec fn parse_head(
        bits: Seq<bool>,
        pos: int,
    ) -> Result<UpdateStringTableHead, ReadError> {
        match take_uint(bits, pos, 5) {
            Err(e) => Err(e),
            Ok((table_id, p1)) => match take_bool(bits, p1) {
                Err(e) => Err(e),
                Ok((several, p2)) => match crate::demo::sendprop::take_part(bits, p2, several, 16) {
                    Err(e) => Err(e),
                    Ok((count, p3)) => match take_uint(bits, p3, 20) {
                        Err(e) => Err(e),
                        Ok((length, end)) => Ok(
                            UpdateStringTableHead {
                                table_id: table_id as u8,
                                changed: if several {
                                    count
                                } else {
                                    1
                                },
                                length,
                                end,
                            },
                        ),
                    },
                },
            },
        }
    }

    /// What decoding the message at `pos` gives, with the tables at hand:
    /// the message, and the position behind the bits that its head sets
    /// apart for the changes. The table must exist; the changes are decoded
    /// with its layout and its history.
    #[verifier::opaque]
    pub open spec fn parse(
        tables: Seq<(Layout, Seq<Seq<u8>>)>,
        bits: Seq<bool>,
        pos: int,
    ) -> Result<
        (UpdateStringTableView, int),
        ParseError,
    > {
        match Self::parse_head(bits, pos) {
            Err(e) => Err(ParseError::of_read(e)),
            Ok(head) => match crate::stream::take_skip(bits, head.end, head.length as int) {
                Err(e) => Err(ParseError::of_read(e)),
                Ok(end) => if head.table_id >= tables.len() {
                    Err(ParseError::StringTableNotFound(head.table_id as usize))
                } else {
                    match tables[head.table_id as int].0.take_changes(
                        bits.subrange(head.end, end),
                        0,
                        tables[head.table_id as int].1,
                        0,
                        head.changed,
                    ) {
                        Err(e) => Err(e),
                        Ok((changes, _, _)) => Ok(
                            (UpdateStringTableView { table_id: head.table_id, changes }, end),
                        ),
                    }
                },
            },
        }
    }

    /// Reads the message. Once the bits of the changes are there the cursor
    /// stands behind them, whether or not the changes can be decoded.
    pub fn read(stream: &mut Stream, tables: &Vec<StringTable>) -> (r: Result<Self, ParseError>)
        requires
            old(stream).inv(),
            forall|i: int| 0 <= i < tables@.len() ==> (#[trigger] tables@[i]).wf(),
        ensures
            final(stream).inv(),
            final(stream).same_window(old(stream)),
            (match Self::parse(tables_view(tables), old(stream).bits(), old(stream).position()) {
                Ok((view, end)) => (r matches Ok(found) && found@ == view)
                    && final(stream).position() == end,
                Err(e) => r matches Err(x) && x == e,
            }),
            Self::parse_head(old(stream).bits(), old(stream).position()) matches Ok(head) ==> (
            head.length <= old(stream).bits().len() - head.end ==> final(stream).position()
                == head.end + head.length),
    {
        reveal(UpdateStringTableMessage::parse);
        proof {
            lemma2_to64();
        }
        let table_id = match crate::demo::sendprop::read_part(stream, true, TABLE_ID_BITS) {
            Ok(v) => v as u8,
            Err(e) => {
                return Err(ParseError::from_read(e));
            },
        };
        let several = match stream.read_bool() {
            Ok(v) => v,
            Err(e) => {
                return Err(ParseError::from_read(e));
            },
        };
        let count = match crate::demo::sendprop::read_part(stream, several, 16) {
            Ok(v) => v as usize,
            Err(e) => {
                return Err(ParseError::from_read(e));
            },
        };
        let changed = if several {
            count
        } else {
            1
        };
        let length = match crate::demo::sendprop::read_part(stream, true, TABLE_LENGTH_BITS) {
            Ok(v) => v as usize,
            Err(e) => {
                return Err(ParseError::from_read(e));
            },
        };
        let mut payload = match stream.read_bits(length) {
            Ok(v) => v,
            Err(e) => {
                return Err(ParseError::from_read(e));
            },
        };
        if table_id as usize >= tables.len() {
            return Err(ParseError::StringTableNotFound(table_id as usize));
        }
        let table = &tables[table_id as usize];
        let mut history = copy_history(&table.history);
        let changes = match table.layout.read_changes(&mut payload, &mut history, changed) {
            Ok(v) => v,
            Err(e) => {
                return Err(e);
            },
        };
        Ok(UpdateStringTableMessage { table_id, changes })
    }
}

} // verus!
