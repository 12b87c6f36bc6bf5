//! A cursor over text, taking one Unicode scalar at a time and ranges
//! measured in bytes of its UTF-8 encoding.
use vstd::prelude::*;
use vstd::string::{StrSliceExecFns, StringSliceAdditionalSpecFns};
use vstd::utf8::{
    decode_utf8_split, encode_scalar, encode_utf8, encode_utf8_decode_utf8,
    encode_utf8_first_scalar, encode_utf8_valid_utf8, is_char_boundary,
    is_char_boundary_start_end_of_seq, length_of_first_scalar, pop_first_scalar, valid_utf8_split,
};
use crate::error::{FastResult, StreamError};
use crate::stream::{
    taken_while, total, FullRangeStream, PointerOffset, Positioned, RangeStreamOnce, Resetable,
    StreamOnce,
};

verus! {

/// Encoding a concatenation concatenates the encodings.
proof fn lemma_encode_concat(a: Seq<char>, b: Seq<char>)
    ensures
        encode_utf8(a + b) == encode_utf8(a) + encode_utf8(b),
    decreases a.len(),
{
    if a.len() == 0 {
        assert(a + b =~= b);
        assert(encode_utf8(a) + encode_utf8(b) =~= encode_utf8(b));
    } else {
        assert((a + b).drop_first() =~= a.drop_first() + b);
        lemma_encode_concat(a.drop_first(), b);
        assert(encode_utf8(a + b) =~= encode_utf8(a) + encode_utf8(b));
    }
}

/// The end of the encoding of a prefix is a character boundary.
proof fn lemma_boundary_after_prefix(a: Seq<char>, b: Seq<char>)
    ensures
        is_char_boundary(encode_utf8(a + b), encode_utf8(a).len() as int),
    decreases a.len(),
{
    broadcast use encode_utf8_valid_utf8;

    if a.len() > 0 {
        let bytes = encode_utf8(a + b);
        assert((a + b).drop_first() =~= a.drop_first() + b);
        assert((a + b)[0] == a[0]);
        encode_utf8_first_scalar(a + b);
        assert(pop_first_scalar(bytes) =~= encode_utf8(a.drop_first() + b));
        lemma_boundary_after_prefix(a.drop_first(), b);
        assert(encode_scalar(a[0] as u32).len() > 0);
    }
}

/// Two character sequences with the same encoding are equal.
proof fn lemma_encoding_determines(a: Seq<char>, b: Seq<char>)
    requires
        encode_utf8(a) == encode_utf8(b),
    ensures
        a == b,
{
    encode_utf8_decode_utf8(a);
    encode_utf8_decode_utf8(b);
}

/// Splitting a text after its first `k` characters splits its encoding at a
/// character boundary.
proof fn lemma_split_chars(x: Seq<char>, k: int)
    requires
        0 <= k <= x.len(),
    ensures
        is_char_boundary(encode_utf8(x), encode_utf8(x.take(k)).len() as int),
        encode_utf8(x) == encode_utf8(x.take(k)) + encode_utf8(x.skip(k)),
{
    assert(x =~= x.take(k) + x.skip(k));
    lemma_encode_concat(x.take(k), x.skip(k));
    lemma_boundary_after_prefix(x.take(k), x.skip(k));
}

/// The encoding of one more character.
proof fn lemma_encode_push(x: Seq<char>, k: int)
    requires
        0 <= k < x.len(),
    ensures
        encode_utf8(x.take(k + 1)).len() == encode_utf8(x.take(k)).len() + encode_scalar(
            x[k] as u32,
        ).len(),
{
    assert(x.take(k + 1) =~= x.take(k) + seq![x[k]]);
    lemma_encode_concat(x.take(k), seq![x[k]]);
    assert(seq![x[k]].drop_first() =~= Seq::<char>::empty());
    assert(encode_utf8(Seq::<char>::empty()) =~= Seq::<u8>::empty());
    assert(encode_utf8(seq![x[k]]) =~= encode_scalar(x[k] as u32));
}

/// Splits `s` after its first `bytes` bytes, which end on a character
/// boundary, into the text before and the text after.
fn split_text<'a>(s: &'a str, bytes: usize) -> (r: (&'a str, &'a str))
    requires
        is_char_boundary(s.spec_bytes(), bytes as int),
    ensures
        s@ == r.0@ + r.1@,
        r.0.spec_bytes() == s.spec_bytes().subrange(0, bytes as int),
        r.0.spec_bytes().len() == bytes,
        r.0.spec_bytes().len() + r.1.spec_bytes().len() == s.spec_bytes().len(),
{
    let ghost total_bytes = s.spec_bytes();
    let r = s.split_at(bytes);
    proof {
        broadcast use encode_utf8_valid_utf8;

        decode_utf8_split(total_bytes, bytes as int);
        encode_utf8_decode_utf8(s@);
        encode_utf8_decode_utf8(r.0@);
        encode_utf8_decode_utf8(r.1@);
        assert(r.0.spec_bytes().len() == bytes) by {
            valid_utf8_split(total_bytes, bytes as int);
        }
    }
    r
}

/// Every character takes at least one byte.
proof fn lemma_encode_len(x: Seq<char>)
    ensures
        x.len() <= encode_utf8(x).len(),
        x.len() == 0 <==> encode_utf8(x).len() == 0,
    decreases x.len(),
{
    if x.len() > 0 {
        lemma_encode_len(x.drop_first());
    }
}

/// The text of `s` after its first `k` characters, whose encoding takes its
/// first `bytes` bytes.
proof fn lemma_prefix_chars(s: &str, k: int, bytes: int, before: &str, after: &str)
    requires
        0 <= k <= s@.len(),
        bytes == encode_utf8(s@.take(k)).len(),
        s@ == before@ + after@,
        before.spec_bytes() == s.spec_bytes().subrange(0, bytes),
    ensures
        before@ == s@.take(k),
        after@ == s@.skip(k),
{
    lemma_split_chars(s@, k);
    assert(before.spec_bytes() =~= encode_utf8(s@.take(k)));
    lemma_encoding_determines(before@, s@.take(k));
    assert(after@ =~= s@.skip(k));
}

/// Splits the first character off `s`.
fn split_first_char<'a>(s: &'a str) -> (r: (char, &'a str))
    requires
        s@.len() > 0,
    ensures
        r.0 == s@[0],
        r.1@ == s@.drop_first(),
        r.1.spec_bytes().len() + encode_scalar(s@[0] as u32).len() == s.spec_bytes().len(),
{
    let bytes = s.as_bytes();
    proof {
        encode_utf8_first_scalar(s@);
        lemma_encode_push(s@, 0);
        assert(s@.take(0) =~= Seq::<char>::empty());
        lemma_split_chars(s@, 1);
    }
    let lead = bytes[0];
    let width: usize = if lead <= 0x7f {
        1
    } else if lead <= 0xdf {
        2
    } else if lead <= 0xef {
        3
    } else {
        4
    };
    assert(width == length_of_first_scalar(bytes@));
    let (head, tail) = split_text(s, width);
    proof {
        lemma_prefix_chars(s, 1, width as int, head, tail);
        assert(head@ =~= seq![s@[0]]);
    }
    let c = head.get_char(0);
    (c, tail)
}

/// Splits `slice` before its first character, at index `start` or later,
/// on which `f` answers false (or at its end); the first `start` characters
/// go to the result unexamined.
fn str_uncons_while<'a, F: Fn(char) -> bool>(slice: &mut &'a str, start: usize, f: F) -> (r: &'a str)
    requires
        start <= old(slice)@.len(),
        total::<char, F>(f),
    ensures
        old(slice)@ == r@ + final(slice)@,
        start <= r@.len(),
        forall|j: int| start <= j < r@.len() ==> #[trigger] f.ensures((r@[j],), true),
        final(slice)@.len() > 0 ==> f.ensures((final(slice)@[0],), false),
        r.spec_bytes().len() + final(slice).spec_bytes().len() == old(slice).spec_bytes().len(),
{
    let text = *slice;
    let ghost x = text@;
    let mut rest = text;
    let mut taken: usize = 0;
    let mut n: usize = 0;
    let total_len = text.as_bytes().len();
    proof {
        lemma_encode_len(x);
        assert(x.take(0) =~= Seq::<char>::empty());
        assert(x.skip(0) =~= x);
        lemma_split_chars(x, 0);
    }
    loop
        invariant
            text@ == x,
            0 <= n <= x.len(),
            x.len() <= total_len,
            total_len == encode_utf8(x).len(),
            start <= old(slice)@.len(),
            old(slice)@ == x,
            rest@ == x.skip(n as int),
            taken == encode_utf8(x.take(n as int)).len(),
            encode_utf8(x) == encode_utf8(x.take(n as int)) + encode_utf8(x.skip(n as int)),
            total::<char, F>(f),
            forall|j: int| start <= j < n ==> #[trigger] f.ensures((x[j],), true),
        ensures
            0 <= n <= x.len(),
            taken == encode_utf8(x.take(n as int)).len(),
            forall|j: int| start <= j < n ==> #[trigger] f.ensures((x[j],), true),
            n < x.len() ==> f.ensures((x[n as int],), false),
            n < start ==> n == x.len(),
        decreases x.len() - n,
    {
        if rest.is_empty() {
            assert(x.skip(n as int).len() == 0);
            break;
        }
        let (c, tail) = split_first_char(rest);
        assert(c == x[n as int]);
        if n >= start && !f(c) {
            break;
        }
        proof {
            lemma_encode_push(x, n as int);
            lemma_split_chars(x, n as int + 1);
            lemma_encode_len(x.skip(n as int + 1));
            assert(tail@ =~= x.skip(n as int + 1));
        }
        taken = taken + (rest.as_bytes().len() - tail.as_bytes().len());
        n = n + 1;
        rest = tail;
    }
    proof {
        lemma_split_chars(x, n as int);
    }
    let (result, remaining) = split_text(text, taken);
    proof {
        lemma_prefix_chars(text, n as int, taken as int, result, remaining);
        assert(x =~= result@ + remaining@);
    }
    *slice = remaining;
    result
}

/// A cursor over text. Items are Unicode scalars; ranges, offsets and
/// positions count bytes of the UTF-8 encoding.
#[derive(Debug)]
pub struct StrStream<'a> {
    text: &'a str,
    offset: usize,
}

impl<'a> StrStream<'a> {
    #[verifier::type_invariant]
    spec fn fits(&self) -> bool {
        self.offset + self.text.spec_bytes().len() <= usize::MAX
    }

    /// The characters not consumed yet.
    pub closed spec fn rest(&self) -> Seq<char> {
        self.text@
    }

    /// The number of bytes consumed since the cursor was made.
    pub closed spec fn consumed(&self) -> nat {
        self.offset as nat
    }

    /// A cursor at the start of `text`.
    pub fn new(text: &'a str) -> (r: Self)
        ensures
            r.rest() == text@,
            r.consumed() == 0,
    {
        let _len: usize = text.as_bytes().len();
        StrStream { text, offset: 0 }
    }

    /// The text not consumed yet.
    pub fn as_str(&self) -> (r: &'a str)
        ensures
            r@ == self.rest(),
    {
        self.text
    }
}

impl<'a> Clone for StrStream<'a> {
    fn clone(&self) -> (r: Self)
        ensures
            r == *self,
    {
        proof {
            use_type_invariant(self);
        }
        StrStream { text: self.text, offset: self.offset }
    }
}

impl<'a> StreamOnce for StrStream<'a> {
    type Item = char;
    type Range = &'a str;
    type Position = PointerOffset;

    open spec fn partial_input() -> bool {
        false
    }

    open spec fn uncons_step(&self, next: Self, r: Result<char, StreamError>) -> bool {
        if self.rest().len() > 0 {
            &&& r == Ok::<char, StreamError>(self.rest()[0])
            &&& next.rest() == self.rest().drop_first()
            &&& next.consumed() == self.consumed() + encode_scalar(self.rest()[0] as u32).len()
        } else {
            r == Err::<char, StreamError>(StreamError::Eoi) && next == *self
        }
    }

    fn uncons(&mut self) -> (r: Result<char, StreamError>) {
        proof {
            use_type_invariant(&*self);
        }
        if self.text.is_empty() {
            return Err(StreamError::Eoi);
        }
        let (c, rest) = split_first_char(self.text);
        let width = self.text.as_bytes().len() - rest.as_bytes().len();
        *self = StrStream { text: rest, offset: self.offset + width };
        Ok(c)
    }

    fn is_partial(&self) -> (r: bool) {
        false
    }
}

impl<'a> Positioned for StrStream<'a> {
    open spec fn position_spec(&self) -> PointerOffset {
        PointerOffset(self.consumed() as usize)
    }

    fn position(&self) -> (r: PointerOffset) {
        PointerOffset(self.offset)
    }
}

impl<'a> Resetable for StrStream<'a> {
    type Checkpoint = Self;

    open spec fn snapshot(&self) -> Self {
        *self
    }

    proof fn lemma_snapshot_determines_state(a: Self, b: Self) {
    }

    fn checkpoint(&self) -> (r: Self) {
        proof {
            use_type_invariant(self);
        }
        StrStream { text: self.text, offset: self.offset }
    }

    fn reset(&mut self, checkpoint: Self) {
        *self = checkpoint;
    }
}

impl<'a> RangeStreamOnce for StrStream<'a> {
    open spec fn items(&self) -> Seq<char> {
        self.rest()
    }

    open spec fn units(&self) -> nat {
        encode_utf8(self.rest()).len()
    }

    open spec fn offset(&self) -> nat {
        self.consumed()
    }

    open spec fn checkpoint_offset(c: Self) -> nat {
        c.consumed()
    }

    open spec fn range_items(r: &'a str) -> Seq<char> {
        r@
    }

    open spec fn range_units(r: &'a str) -> nat {
        encode_utf8(r@).len()
    }

    open spec fn splits_at(&self, size: nat) -> bool {
        is_char_boundary(encode_utf8(self.rest()), size as int)
    }

    proof fn lemma_state(&self) {
        broadcast use encode_utf8_valid_utf8;

        lemma_encode_len(self.rest());
        is_char_boundary_start_end_of_seq(encode_utf8(self.rest()));
        if self.rest().len() > 0 {
            encode_utf8_first_scalar(self.rest());
        }
    }

    proof fn lemma_range(r: &'a str) {
        lemma_encode_len(r@);
    }

    fn uncons_range(&mut self, size: usize) -> (r: Result<&'a str, StreamError>) {
        proof {
            use_type_invariant(&*self);
        }
        if size <= self.text.as_bytes().len() {
            if self.text.is_char_boundary(size) {
                let (result, remaining) = split_text(self.text, size);
                *self = StrStream { text: remaining, offset: self.offset + size };
                Ok(result)
            } else {
                Err(StreamError::CharacterBoundary)
            }
        } else {
            Err(StreamError::Eoi)
        }
    }

    fn uncons_while<F: Fn(char) -> bool>(&mut self, f: F) -> (r: Result<&'a str, StreamError>) {
        proof {
            use_type_invariant(&*self);
        }
        let mut text = self.text;
        let taken = str_uncons_while(&mut text, 0, f);
        *self = StrStream { text, offset: self.offset + taken.as_bytes().len() };
        Ok(taken)
    }

    fn uncons_while1<F: Fn(char) -> bool>(&mut self, f: F) -> (r: FastResult<&'a str, StreamError>) {
        proof {
            use_type_invariant(&*self);
        }
        if self.text.is_empty() {
            return FastResult::EmptyErr(StreamError::Unexpected);
        }
        let (c, _) = split_first_char(self.text);
        if !f(c) {
            return FastResult::EmptyErr(StreamError::Unexpected);
        }
        let mut text = self.text;
        let taken = str_uncons_while(&mut text, 1, f);
        *self = StrStream { text, offset: self.offset + taken.as_bytes().len() };
        FastResult::ConsumedOk(taken)
    }

    fn distance(&self, end: &Self) -> (r: usize) {
        self.offset - end.offset
    }
}

impl<'a> FullRangeStream for StrStream<'a> {
    fn range(&self) -> (r: &'a str) {
        self.text
    }
}

} // verus!
