//! Cursors over slices of items.
use vstd::prelude::*;
use crate::error::{FastResult, StreamError};
use crate::stream::{
    taken_while, total, FullRangeStream, PointerOffset, Positioned, RangeStreamOnce, Resetable,
    StreamOnce,
};

verus! {

/// Splits `slice` before its first item, at index `start` or later, on
/// which `f` answers false (or at its end); the first `start` items go to
/// the result unexamined.
fn slice_uncons_while<'a, T: Copy, F: Fn(T) -> bool>(
    slice: &mut &'a [T],
    start: usize,
    f: F,
) -> (r: &'a [T])
    requires
        start <= old(slice)@.len(),
        forall|x: T| #[trigger] f.requires((x,)),
    ensures
        old(slice)@ == r@ + final(slice)@,
        start <= r@.len(),
        forall|j: int| start <= j < r@.len() ==> #[trigger] f.ensures((r@[j],), true),
        final(slice)@.len() > 0 ==> f.ensures((final(slice)@[0],), false),
{
    let len = slice.len();
    let mut i = start;
    while i < len
        invariant
            start <= i <= len,
            len == slice@.len(),
            forall|x: T| #[trigger] f.requires((x,)),
            forall|j: int| start <= j < i ==> #[trigger] f.ensures((slice@[j],), true),
        ensures
            start <= i <= len,
            forall|j: int| start <= j < i ==> #[trigger] f.ensures((slice@[j],), true),
            i < len ==> f.ensures((slice@[i as int],), false),
        decreases len - i,
    {
        if !f(slice[i]) {
            break;
        }
        i = i + 1;
    }
    let (result, remaining) = slice.split_at(i);
    assert(slice@ =~= result@ + remaining@);
    *slice = remaining;
    result
}

/// A cursor over a slice of items that are copied out as they are taken.
#[derive(Debug)]
pub struct ItemStream<'a, T> {
    input: &'a [T],
    offset: usize,
}

impl<'a, T> ItemStream<'a, T> {
    #[verifier::type_invariant]
    spec fn fits(&self) -> bool {
        self.offset + self.input@.len() <= usize::MAX
    }

    /// The items not consumed yet.
    pub closed spec fn rest(&self) -> Seq<T> {
        self.input@
    }

    /// The number of items consumed since the cursor was made.
    pub closed spec fn consumed(&self) -> nat {
        self.offset as nat
    }

    /// A cursor at the start of `input`.
    pub fn new(input: &'a [T]) -> (r: Self)
        ensures
            r.rest() == input@,
            r.consumed() == 0,
    {
        let _len: usize = input.len();
        ItemStream { input, offset: 0 }
    }

    /// The items not consumed yet.
    pub fn as_slice(&self) -> (r: &'a [T])
        ensures
            r@ == self.rest(),
    {
        self.input
    }
}

impl<'a, T> Clone for ItemStream<'a, T> {
    fn clone(&self) -> (r: Self)
        ensures
            r == *self,
    {
        proof {
            use_type_invariant(self);
        }
        ItemStream { input: self.input, offset: self.offset }
    }
}

impl<'a, T: Copy> StreamOnce for ItemStream<'a, T> {
    type Item = T;
    type Range = &'a [T];
    type Position = PointerOffset;

    open spec fn partial_input() -> bool {
        false
    }

    open spec fn uncons_step(&self, next: Self, r: Result<T, StreamError>) -> bool {
        if self.rest().len() > 0 {
            &&& r == Ok::<T, StreamError>(self.rest()[0])
            &&& next.rest() == self.rest().drop_first()
            &&& next.consumed() == self.consumed() + 1
        } else {
            r == Err::<T, StreamError>(StreamError::Eoi) && next == *self
        }
    }

    fn uncons(&mut self) -> (r: Result<T, StreamError>) {
        proof {
            use_type_invariant(&*self);
        }
        if self.input.len() == 0 {
            return Err(StreamError::Eoi);
        }
        let first = self.input[0];
        let (_, rest) = self.input.split_at(1);
        self.input = rest;
        self.offset = self.offset + 1;
        Ok(first)
    }

    fn is_partial(&self) -> (r: bool) {
        false
    }
}

impl<'a, T> Positioned for ItemStream<'a, T> where T: Copy {
    open spec fn position_spec(&self) -> PointerOffset {
        PointerOffset(self.consumed() as usize)
    }

    fn position(&self) -> (r: PointerOffset) {
        PointerOffset(self.offset)
    }
}

impl<'a, T> Resetable for ItemStream<'a, T> {
    type Checkpoint = Self;

    open spec fn snapshot(&self) -> Self {
        *self
    }

    proof fn lemma_snapshot_determines_state(a: Self, b: Self) {
    }

    fn checkpoint(&self) -> (r: Self) {
        proof {
            use_type_invariant(self);
        }
        ItemStream { input: self.input, offset: self.offset }
    }

    fn reset(&mut self, checkpoint: Self) {
        *self = checkpoint;
    }
}

impl<'a, T: Copy> RangeStreamOnce for ItemStream<'a, T> {
    open spec fn items(&self) -> Seq<T> {
        self.rest()
    }

    open spec fn units(&self) -> nat {
        self.rest().len()
    }

    open spec fn offset(&self) -> nat {
        self.consumed()
    }

    open spec fn checkpoint_offset(c: Self) -> nat {
        c.consumed()
    }

    open spec fn range_items(r: &'a [T]) -> Seq<T> {
        r@
    }

    open spec fn range_units(r: &'a [T]) -> nat {
        r@.len()
    }

    open spec fn splits_at(&self, size: nat) -> bool {
        true
    }

    proof fn lemma_state(&self) {
    }

    proof fn lemma_range(r: &'a [T]) {
    }

    fn uncons_range(&mut self, size: usize) -> (r: Result<&'a [T], StreamError>) {
        proof {
            use_type_invariant(&*self);
        }
        if size <= self.input.len() {
            let (result, remaining) = self.input.split_at(size);
            assert(self.input@ =~= result@ + remaining@);
            self.input = remaining;
            self.offset = self.offset + size;
            Ok(result)
        } else {
            Err(StreamError::Eoi)
        }
    }

    fn uncons_while<F: Fn(T) -> bool>(&mut self, f: F) -> (r: Result<&'a [T], StreamError>) {
        proof {
            use_type_invariant(&*self);
        }
        let mut input = self.input;
        let taken = slice_uncons_while(&mut input, 0, f);
        self.input = input;
        self.offset = self.offset + taken.len();
        Ok(taken)
    }

    fn uncons_while1<F: Fn(T) -> bool>(&mut self, f: F) -> (r: FastResult<&'a [T], StreamError>) {
        proof {
            use_type_invariant(&*self);
        }
        if self.input.len() == 0 || !f(self.input[0]) {
            return FastResult::EmptyErr(StreamError::Unexpected);
        }
        let mut input = self.input;
        let taken = slice_uncons_while(&mut input, 1, f);
        self.input = input;
        self.offset = self.offset + taken.len();
        FastResult::ConsumedOk(taken)
    }

    fn distance(&self, end: &Self) -> (r: usize) {
        self.offset - end.offset
    }
}

impl<'a, T: Copy> FullRangeStream for ItemStream<'a, T> {
    fn range(&self) -> (r: &'a [T]) {
        self.input
    }
}


/// The references to the items of `s`, in order.
pub open spec fn refs<'a, T>(s: Seq<T>) -> Seq<&'a T> {
    s.map(|i: int, x: T| &x)
}

/// As `slice_uncons_while`, handing `f` references to the items.
fn slice_uncons_while_ref<'a, T, F: Fn(&'a T) -> bool>(
    slice: &mut &'a [T],
    start: usize,
    f: F,
) -> (r: &'a [T])
    requires
        start <= old(slice)@.len(),
        total::<&'a T, F>(f),
    ensures
        old(slice)@ == r@ + final(slice)@,
        start <= r@.len(),
        forall|j: int| start <= j < r@.len() ==> #[trigger] f.ensures((&r@[j],), true),
        final(slice)@.len() > 0 ==> f.ensures((&final(slice)@[0],), false),
{
    let len = slice.len();
    let mut i = start;
    while i < len
        invariant
            start <= i <= len,
            len == slice@.len(),
            total::<&'a T, F>(f),
            forall|j: int| start <= j < i ==> #[trigger] f.ensures((&slice@[j],), true),
        ensures
            start <= i <= len,
            forall|j: int| start <= j < i ==> #[trigger] f.ensures((&slice@[j],), true),
            i < len ==> f.ensures((&slice@[i as int],), false),
        decreases len - i,
    {
        if !f(&slice[i]) {
            break;
        }
        i = i + 1;
    }
    let (result, remaining) = slice.split_at(i);
    assert(slice@ =~= result@ + remaining@);
    *slice = remaining;
    result
}

/// A cursor over a slice whose items are handed out by reference, for
/// items that are not cheap to copy.
#[derive(Debug)]
pub struct SliceStream<'a, T> {
    slice: &'a [T],
    offset: usize,
}

impl<'a, T> SliceStream<'a, T> {
    #[verifier::type_invariant]
    spec fn fits(&self) -> bool {
        self.offset + self.slice@.len() <= usize::MAX
    }

    /// The items not consumed yet.
    pub closed spec fn rest(&self) -> Seq<T> {
        self.slice@
    }

    /// The number of items consumed since the cursor was made.
    pub closed spec fn consumed(&self) -> nat {
        self.offset as nat
    }

    /// A cursor at the start of `slice`.
    pub fn new(slice: &'a [T]) -> (r: Self)
        ensures
            r.rest() == slice@,
            r.consumed() == 0,
    {
        let _len: usize = slice.len();
        SliceStream { slice, offset: 0 }
    }

    /// The items not consumed yet.
    pub fn as_slice(&self) -> (r: &'a [T])
        ensures
            r@ == self.rest(),
    {
        self.slice
    }
}

impl<'a, T> Clone for SliceStream<'a, T> {
    fn clone(&self) -> (r: Self)
        ensures
            r == *self,
    {
        proof {
            use_type_invariant(self);
        }
        SliceStream { slice: self.slice, offset: self.offset }
    }
}

impl<'a, T> StreamOnce for SliceStream<'a, T> {
    type Item = &'a T;
    type Range = &'a [T];
    type Position = PointerOffset;

    open spec fn partial_input() -> bool {
        false
    }

    open spec fn uncons_step(&self, next: Self, r: Result<&'a T, StreamError>) -> bool {
        if self.rest().len() > 0 {
            &&& r == Ok::<&'a T, StreamError>(&self.rest()[0])
            &&& next.rest() == self.rest().drop_first()
            &&& next.consumed() == self.consumed() + 1
        } else {
            r == Err::<&'a T, StreamError>(StreamError::Eoi) && next == *self
        }
    }

    fn uncons(&mut self) -> (r: Result<&'a T, StreamError>) {
        proof {
            use_type_invariant(&*self);
        }
        if self.slice.len() == 0 {
            return Err(StreamError::Eoi);
        }
        let (first, rest) = self.slice.split_at(1);
        self.slice = rest;
        self.offset = self.offset + 1;
        Ok(&first[0])
    }

    fn is_partial(&self) -> (r: bool) {
        false
    }
}

impl<'a, T> Positioned for SliceStream<'a, T> {
    open spec fn position_spec(&self) -> PointerOffset {
        PointerOffset(self.consumed() as usize)
    }

    fn position(&self) -> (r: PointerOffset) {
        PointerOffset(self.offset)
    }
}

impl<'a, T> Resetable for SliceStream<'a, T> {
    type Checkpoint = Self;

    open spec fn snapshot(&self) -> Self {
        *self
    }

    proof fn lemma_snapshot_determines_state(a: Self, b: Self) {
    }

    fn checkpoint(&self) -> (r: Self) {
        proof {
            use_type_invariant(self);
        }
        SliceStream { slice: self.slice, offset: self.offset }
    }

    fn reset(&mut self, checkpoint: Self) {
        *self = checkpoint;
    }
}

impl<'a, T> RangeStreamOnce for SliceStream<'a, T> {
    open spec fn items(&self) -> Seq<&'a T> {
        refs(self.rest())
    }

    open spec fn units(&self) -> nat {
        self.rest().len()
    }

    open spec fn offset(&self) -> nat {
        self.consumed()
    }

    open spec fn checkpoint_offset(c: Self) -> nat {
        c.consumed()
    }

    open spec fn range_items(r: &'a [T]) -> Seq<&'a T> {
        refs(r@)
    }

    open spec fn range_units(r: &'a [T]) -> nat {
        r@.len()
    }

    open spec fn splits_at(&self, size: nat) -> bool {
        true
    }

    proof fn lemma_state(&self) {
        assert(self.items().len() > 0 ==> self.items().drop_first() =~= refs(self.rest().drop_first()));
    }

    proof fn lemma_range(r: &'a [T]) {
    }

    fn uncons_range(&mut self, size: usize) -> (r: Result<&'a [T], StreamError>) {
        proof {
            use_type_invariant(&*self);
        }
        if size <= self.slice.len() {
            let (range, rest) = self.slice.split_at(size);
            assert(self.slice@ =~= range@ + rest@);
            assert(refs(self.slice@) =~= refs(range@) + refs(rest@));
            self.slice = rest;
            self.offset = self.offset + size;
            Ok(range)
        } else {
            Err(StreamError::Eoi)
        }
    }

    fn uncons_while<F: Fn(&'a T) -> bool>(&mut self, f: F) -> (r: Result<&'a [T], StreamError>) {
        proof {
            use_type_invariant(&*self);
        }
        let mut slice = self.slice;
        let taken = slice_uncons_while_ref(&mut slice, 0, f);
        proof {
            assert(refs(self.slice@) =~= refs(taken@) + refs(slice@));
        }
        self.slice = slice;
        self.offset = self.offset + taken.len();
        Ok(taken)
    }

    fn uncons_while1<F: Fn(&'a T) -> bool>(&mut self, f: F) -> (r: FastResult<&'a [T], StreamError>) {
        proof {
            use_type_invariant(&*self);
        }
        if self.slice.len() == 0 || !f(&self.slice[0]) {
            return FastResult::EmptyErr(StreamError::Unexpected);
        }
        let mut slice = self.slice;
        let taken = slice_uncons_while_ref(&mut slice, 1, f);
        proof {
            assert(refs(self.slice@) =~= refs(taken@) + refs(slice@));
            assert(taken@[0] == self.slice@[0]);
        }
        self.slice = slice;
        self.offset = self.offset + taken.len();
        FastResult::ConsumedOk(taken)
    }

    fn distance(&self, end: &Self) -> (r: usize) {
        self.offset - end.offset
    }
}

impl<'a, T> FullRangeStream for SliceStream<'a, T> {
    fn range(&self) -> (r: &'a [T]) {
        self.slice
    }
}

} // verus!
