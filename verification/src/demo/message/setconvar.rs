//! Console variables that the server sets.
use crate::demo::data::MaybeUtf8String;
use crate::stream::{c_string_at, c_string_consumed, take_uint, ReadError, Stream};
use vstd::prelude::*;

verus! {

/// A console variable and its value. Either may hold bytes that are not
/// text.
#[derive(Debug, Clone, PartialEq, Eq)]
pub struct ConVar {
    pub key: MaybeUtf8String,
    pub value: MaybeUtf8String,
}

/// What a [`ConVar`] holds.
pub struct ConVarView {
    pub key: Seq<u8>,
    pub value: Seq<u8>,
}

impl ConVar {
    /// What the variable holds.
    pub open spec fn view(&self) -> ConVarView {
        ConVarView { key: self.key.bytes(), value: self.value.bytes() }
    }
}

/// The variables of a list.
pub open spec fn vars_view(vars: &Vec<ConVar>) -> Seq<ConVarView> {
    Seq::new(vars@.len(), |i: int| vars@[i]@)
}

/// What decoding `count` variables at `pos` gives: for each its name and
/// its value, both NUL-terminated.
pub open spec fn take_vars(bits: Seq<bool>, pos: int, count: nat) -> (Seq<ConVarView>, int)
    decreases count,
{
    if count == 0 {
        (Seq::empty(), pos)
    } else {
        let p1 = pos + 8 * c_string_consumed(bits, pos);
        let p2 = p1 + 8 * c_string_consumed(bits, p1);
        let rest = take_vars(bits, p2, (count - 1) as nat);
        (
            seq![ConVarView { key: c_string_at(bits, pos), value: c_string_at(bits, p1) }] + rest.0,
            rest.1,
        )
    }
}

/// Console variables are set.
#[derive(Debug, Clone, PartialEq, Eq)]
pub struct SetConVarMessage {
    pub vars: Vec<ConVar>,
}

impl SetConVarMessage {
    /// The variables of the message.
    pub open spec fn view(&self) -> Seq<ConVarView> {
        vars_view(&self.vars)
    }

    /// What decoding the message at `pos` gives: the number of variables in
    /// a byte, and the variables.
    #[verifier::opaque]
    pub open spec fn parse(bits: Seq<bool>, pos: int) -> Result<(Seq<ConVarView>, int), ReadError> {
        match take_uint(bits, pos, 8) {
            Err(e) => Err(e),
            Ok((count, p1)) => Ok(take_vars(bits, p1, count)),
        }
    }

    /// Reads the message.
    pub fn read(stream: &mut Stream) -> (r: Result<Self, ReadError>)
        requires
            old(stream).inv(),
        ensures
            final(stream).inv(),
            final(stream).same_window(old(stream)),
            (match Self::parse(old(stream).bits(), old(stream).position()) {
                Ok((view, end)) => (r matches Ok(found) && found@ == view)
                    && final(stream).position() == end,
                Err(e) => r matches Err(x) && x == e,
            }),
    {
        reveal(SetConVarMessage::parse);
        let count = match stream.read_u8() {
            Ok(v) => v as usize,
            Err(e) => {
                return Err(e);
            },
        };
        let ghost bits = stream.bits();
        let ghost total = take_vars(bits, stream.position(), count as nat);
        let mut vars: Vec<ConVar> = Vec::new();
        let mut i: usize = 0;
        assert(vars_view(&vars) + total.0 =~= total.0);
        while i < count
            invariant
                i <= count,
                stream.inv(),
                stream.same_window(old(stream)),
                stream.bits() == bits,
                Self::parse(old(stream).bits(), old(stream).position()) == Ok::<
                    (Seq<ConVarView>, int),
                    ReadError,
                >(total),
                total.0 == vars_view(&vars) + take_vars(
                    bits,
                    stream.position(),
                    (count - i) as nat,
                ).0,
                total.1 == take_vars(bits, stream.position(), (count - i) as nat).1,
            decreases count - i,
        {
            let ghost done = vars_view(&vars);
            let key = match MaybeUtf8String::read(stream) {
                Ok(v) => v,
                Err(e) => {
                    return Err(e);
                },
            };
            let value = match MaybeUtf8String::read(stream) {
                Ok(v) => v,
                Err(e) => {
                    return Err(e);
                },
            };
            let var = ConVar { key, value };
            proof {
                let rest = take_vars(bits, stream.position(), (count - i - 1) as nat);
                assert(done + (seq![var@] + rest.0) =~= done.push(var@) + rest.0);
            }
            vars.push(var);
            assert(vars_view(&vars) =~= done.push(var@));
            i = i + 1;
        }
        assert(vars_view(&vars) + Seq::<ConVarView>::empty() =~= vars_view(&vars));
        Ok(SetConVarMessage { vars })
    }
}

} // verus!
