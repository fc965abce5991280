//! Byte strings and UTF-8: searching, cutting and cleaning the bytes of text
//! without leaving well-formed UTF-8 by accident.
use vstd::prelude::*;
use vstd::utf8::{decode_utf8, pop_first_scalar, take_first_scalar, valid_utf8, valid_utf8_concat};

verus! {

/// The index of the first byte equal to `b`, or the length where there is
/// none.
pub open spec fn index_of(s: Seq<u8>, b: u8) -> int
    decreases s.len(),
{
    if s.len() == 0 || s[0] == b {
        0
    } else {
        1 + index_of(s.drop_first(), b)
    }
}

/// The bytes of `s` that differ from `b`, in order.
pub open spec fn without_byte(s: Seq<u8>, b: u8) -> Seq<u8>
    decreases s.len(),
{
    if s.len() == 0 {
        s
    } else if s[0] == b {
        without_byte(s.drop_first(), b)
    } else {
        seq![s[0]] + without_byte(s.drop_first(), b)
    }
}

/// `String::from_utf8`: the string that the bytes encode where they are valid
/// UTF-8, and otherwise the bytes as they were handed in.
#[verifier::external_body]
pub(crate) fn string_from_utf8(bytes: Vec<u8>) -> (r: Result<String, Vec<u8>>)
    ensures
        r is Ok <==> valid_utf8(bytes@),
        r matches Ok(s) ==> s@ == decode_utf8(bytes@),
        r matches Err(b) ==> b@ == bytes@,
{
    match String::from_utf8(bytes) {
        Ok(s) => Ok(s),
        Err(e) => Err(e.into_bytes()),
    }
}

/// `std::str::from_utf8`: whether the bytes are valid UTF-8.
#[verifier::external_body]
pub(crate) fn is_utf8(bytes: &[u8]) -> (r: bool)
    ensures
        r == valid_utf8(bytes@),
{
    std::str::from_utf8(bytes).is_ok()
}

/// The first position that holds `b` is the only one that holds it with none
/// before.
pub proof fn lemma_index_of(s: Seq<u8>, b: u8, n: int)
    requires
        0 <= n <= s.len(),
        forall|j: int| 0 <= j < n ==> s[j] != b,
        n < s.len() ==> s[n] == b,
    ensures
        index_of(s, b) == n,
    decreases n,
{
    if n > 0 {
        let rest = s.drop_first();
        assert forall|j: int| 0 <= j < n - 1 implies rest[j] != b by {
            assert(rest[j] == s[j + 1]);
        }
        lemma_index_of(rest, b, n - 1);
    }
}

/// The index of the first byte equal to `b`, or the length where there is
/// none.
pub fn find_byte(bytes: &[u8], b: u8) -> (r: usize)
    ensures
        r == index_of(bytes@, b),
        r <= bytes@.len(),
        r < bytes@.len() ==> bytes@[r as int] == b,
        forall|j: int| 0 <= j < r ==> bytes@[j] != b,
{
    let mut i: usize = 0;
    while i < bytes.len() && bytes[i] != b
        invariant
            i <= bytes@.len(),
            forall|j: int| 0 <= j < i ==> bytes@[j] != b,
        decreases bytes@.len() - i,
    {
        i += 1;
    }
    proof {
        lemma_index_of(bytes@, b, i as int);
    }
    i
}

/// The index of the first zero byte, or the length where there is none.
pub fn find_nul(bytes: &[u8]) -> (r: usize)
    ensures
        r <= bytes@.len(),
        r < bytes@.len() ==> bytes@[r as int] == 0,
        forall|j: int| 0 <= j < r ==> bytes@[j] != 0,
{
    find_byte(bytes, 0)
}

/// A copy of the bytes from `from` up to `to`.
pub fn copy_range(bytes: &[u8], from: usize, to: usize) -> (r: Vec<u8>)
    requires
        from <= to <= bytes@.len(),
    ensures
        r@ == bytes@.subrange(from as int, to as int),
{
    let mut out: Vec<u8> = Vec::new();
    let mut i: usize = from;
    while i < to
        invariant
            from <= i <= to <= bytes@.len(),
            out@ == bytes@.subrange(from as int, i as int),
        decreases to - i,
    {
        out.push(bytes[i]);
        i += 1;
        assert(out@ =~= bytes@.subrange(from as int, i as int));
    }
    out
}

/// Taking a byte out of two runs in a row is taking it out of each.
pub proof fn lemma_without_byte_append(a: Seq<u8>, c: Seq<u8>, b: u8)
    ensures
        without_byte(a + c, b) == without_byte(a, b) + without_byte(c, b),
    decreases a.len(),
{
    if a.len() == 0 {
        assert(a + c =~= c);
        assert(without_byte(a, b) + without_byte(c, b) =~= without_byte(c, b));
    } else {
        lemma_without_byte_append(a.drop_first(), c, b);
        assert((a + c).drop_first() =~= a.drop_first() + c);
        assert(without_byte(a + c, b) =~= without_byte(a, b) + without_byte(c, b));
    }
}

/// Taking out a byte that does not occur changes nothing.
pub proof fn lemma_without_byte_absent(s: Seq<u8>, b: u8)
    requires
        forall|j: int| 0 <= j < s.len() ==> s[j] != b,
    ensures
        without_byte(s, b) == s,
    decreases s.len(),
{
    if s.len() > 0 {
        let rest = s.drop_first();
        assert forall|j: int| 0 <= j < rest.len() implies rest[j] != b by {
            assert(rest[j] == s[j + 1]);
        }
        lemma_without_byte_absent(rest, b);
        assert(without_byte(s, b) =~= s);
    }
}

/// Taking an ASCII byte out of well-formed UTF-8 leaves well-formed UTF-8:
/// such a byte never stands inside the encoding of another character.
pub proof fn lemma_without_byte_utf8(s: Seq<u8>, b: u8)
    requires
        valid_utf8(s),
        b < 0x80,
    ensures
        valid_utf8(without_byte(s, b)),
    decreases s.len(),
{
    if s.len() > 0 {
        let head = take_first_scalar(s);
        let rest = pop_first_scalar(s);
        assert(s =~= head + rest);
        assert(valid_utf8(head)) by {
            reveal_with_fuel(valid_utf8, 2);
            assert(pop_first_scalar(head) =~= Seq::<u8>::empty());
        }
        lemma_without_byte_utf8(rest, b);
        lemma_without_byte_append(head, rest, b);
        if s[0] == b {
            assert(head =~= seq![b]);
            assert(without_byte(head, b) =~= Seq::<u8>::empty()) by {
                reveal_with_fuel(without_byte, 2);
            }
            assert(without_byte(head, b) + without_byte(rest, b) =~= without_byte(rest, b));
        } else {
            lemma_without_byte_absent(head, b);
            valid_utf8_concat(head, without_byte(rest, b));
        }
    }
}

/// A copy of the bytes without those equal to `b`.
pub fn remove_byte(bytes: &[u8], b: u8) -> (r: Vec<u8>)
    ensures
        r@ == without_byte(bytes@, b),
{
    let mut out: Vec<u8> = Vec::new();
    let mut i: usize = 0;
    assert(bytes@.take(0) =~= Seq::<u8>::empty());
    while i < bytes.len()
        invariant
            i <= bytes@.len(),
            out@ == without_byte(bytes@.take(i as int), b),
        decreases bytes@.len() - i,
    {
        proof {
            lemma_without_byte_append(bytes@.take(i as int), seq![bytes@[i as int]], b);
            assert(bytes@.take(i + 1) =~= bytes@.take(i as int) + seq![bytes@[i as int]]);
            reveal_with_fuel(without_byte, 2);
            assert(seq![bytes@[i as int]].drop_first() =~= Seq::<u8>::empty());
        }
        if bytes[i] != b {
            out.push(bytes[i]);
        }
        i += 1;
        assert(out@ =~= without_byte(bytes@.take(i as int), b));
    }
    assert(bytes@.take(i as int) =~= bytes@);
    out
}

} // verus!
