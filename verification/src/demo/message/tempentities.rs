//! Temporary entities: effects that are shown once and not kept.
use crate::stream::{
    lemma_var_bytes_end, take_skip, take_uint, take_var_int32, ReadError, Stream,
};
use vstd::prelude::*;

verus! {

/// Effects to show. The length counts bits.
#[derive(Debug)]
pub struct TempEntitiesMessage<'a> {
    pub count: u8,
    pub length: u32,
    pub data: Stream<'a>,
}

/// What a [`TempEntitiesMessage`] holds.
pub struct TempEntitiesMessageView {
    pub count: u8,
    pub length: u32,
    pub data: Seq<bool>,
}

impl<'a> TempEntitiesMessage<'a> {
    /// What the message holds.
    pub open spec fn view(&self) -> TempEntitiesMessageView {
        TempEntitiesMessageView { count: self.count, length: self.length, data: self.data.bits() }
    }

    /// What decoding the message at `pos` gives: the number of effects in a
    /// byte, the length of the data as a number of varying length, and the
    /// data.
    #[verifier::opaque]
    pub open spec fn parse(bits: Seq<bool>, pos: int) -> Result<
        (TempEntitiesMessageView, int),
        ReadError,
    > {
        match take_uint(bits, pos, 8) {
            Err(e) => Err(e),
            Ok((count, p1)) => match take_var_int32(bits, p1) {
                Err(e) => Err(e),
                Ok((length, p2)) => match take_skip(bits, p2, length as int) {
                    Err(e) => Err(e),
                    Ok(end) => Ok(
                        (
                            TempEntitiesMessageView {
                                count: count as u8,
                                length: length as u32,
                                data: bits.subrange(p2, end),
                            },
                            end,
                        ),
                    ),
                },
            },
        }
    }

    /// Reads the message.
    pub fn read(stream: &mut Stream<'a>) -> (r: Result<Self, ReadError>)
        requires
            old(stream).inv(),
        ensures
            final(stream).inv(),
            final(stream).same_window(old(stream)),
            (match Self::parse(old(stream).bits(), old(stream).position()) {
                Ok((view, end)) => (r matches Ok(found) && found@ == view)
                    && final(stream).position() == end,
                Err(e) => r matches Err(x) && x == e,
            }),
    {
        reveal(TempEntitiesMessage::parse);
        let count = match stream.read_u8() {
            Ok(v) => v,
            Err(e) => {
                return Err(e);
            },
        };
        let length = match stream.read_var_int32() {
            Ok(v) => v,
            Err(e) => {
                return Err(e);
            },
        };
        let data = match stream.read_bits(length as usize) {
            Ok(v) => v,
            Err(e) => {
                return Err(e);
            },
        };
        Ok(TempEntitiesMessage { count, length, data })
    }
}

/// The message ends where its length says: its data has as many bits as
/// the length counts, and the message ends behind them.
pub proof fn lemma_temp_entities_length(bits: Seq<bool>, pos: int)
    requires
        0 <= pos <= bits.len(),
    ensures
        TempEntitiesMessage::parse(bits, pos) matches Ok((m, end)) ==> ({
            &&& m.data.len() == m.length
            &&& take_var_int32(bits, pos + 8) matches Ok((_, start)) && end == start + m.length
            &&& end <= bits.len()
        }),
{
    reveal(TempEntitiesMessage::parse);
    if take_uint(bits, pos, 8) is Ok {
        lemma_var_bytes_end(bits, pos + 8, 5);
    }
}

} // verus!
