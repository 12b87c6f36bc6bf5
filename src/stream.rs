//! The capabilities that an input cursor offers, and the position type of
//! the slice-backed cursors.
use vstd::prelude::*;
use crate::error::{FastResult, StreamError};
use vstd::string::StringSliceAdditionalSpecFns;

verus! {

/// Where a slice-backed cursor stands: the number of units (bytes of text,
/// items of a slice) consumed since the cursor was made.
#[derive(Clone, Copy, Debug, Default, PartialEq, Eq, PartialOrd, Ord, Structural)]
pub struct PointerOffset(pub usize);

impl PointerOffset {
    /// Turns this position into an index relative to `initial`, the position
    /// of the cursor that the input began with.
    pub fn translate_position(self, initial: PointerOffset) -> (r: usize)
        requires
            initial.0 <= self.0,
        ensures
            r == self.0 - initial.0,
    {
        self.0 - initial.0
    }
}

/// A sequence of items that can be taken one by one.
pub trait StreamOnce: Sized {
    /// What one step yields.
    type Item;
    /// What a bulk step yields.
    type Range;
    /// Where the cursor stands; of two positions of one cursor, the later
    /// is the greater.
    type Position: Clone + Ord;

    /// True of every value of a type whose input may be only a prefix of
    /// what will arrive.
    spec fn partial_input() -> bool;

    /// `uncons` may take the cursor from `self` to `next` and return `r`.
    spec fn uncons_step(&self, next: Self, r: Result<Self::Item, StreamError>) -> bool;

    /// Removes and returns the first item.
    fn uncons(&mut self) -> (r: Result<Self::Item, StreamError>)
        ensures
            old(self).uncons_step(*final(self), r),
    ;

    /// True when the input may continue beyond what the cursor holds.
    fn is_partial(&self) -> (r: bool)
        ensures
            r == Self::partial_input(),
    ;
}

/// A cursor that reports where it stands.
pub trait Positioned: StreamOnce {
    spec fn position_spec(&self) -> Self::Position;

    /// The current position.
    fn position(&self) -> (r: Self::Position)
        ensures
            r == self.position_spec(),
    ;
}

/// A cursor that can be snapshot and restored.
pub trait Resetable: Sized {
    /// A snapshot of the cursor.
    type Checkpoint: Clone;

    /// The snapshot that denotes the current state.
    spec fn snapshot(&self) -> Self::Checkpoint;

    /// A snapshot determines the whole state, so restoring one brings the
    /// cursor back to exactly where it was taken.
    proof fn lemma_snapshot_determines_state(a: Self, b: Self)
        requires
            a.snapshot() == b.snapshot(),
        ensures
            a == b,
    ;

    /// Takes a snapshot.
    fn checkpoint(&self) -> (r: Self::Checkpoint)
        ensures
            r == self.snapshot(),
    ;

    /// Restores a snapshot.
    fn reset(&mut self, checkpoint: Self::Checkpoint)
        ensures
            final(self).snapshot() == checkpoint,
    ;
}

/// A cursor that a backtracking parser can run over.
pub trait Stream: StreamOnce + Resetable + Positioned {
}

impl<Input> Stream for Input where Input: StreamOnce + Positioned + Resetable {
}

/// The items of `before` split into a leading run `taken` on which `f`
/// answered true and the rest `after`, whose first item `f` refused.
pub open spec fn taken_while<T, F: Fn(T) -> bool>(
    f: F,
    before: Seq<T>,
    taken: Seq<T>,
    after: Seq<T>,
) -> bool {
    &&& before == taken + after
    &&& forall|i: int| 0 <= i < taken.len() ==> #[trigger] f.ensures((taken[i],), true)
    &&& after.len() > 0 ==> f.ensures((after[0],), false)
}

/// `f` may be called on every item.
pub open spec fn total<T, F: Fn(T) -> bool>(f: F) -> bool {
    forall|x: T| #[trigger] f.requires((x,))
}

/// A cursor that can hand out ranges of items without copying them.
pub trait RangeStreamOnce: StreamOnce + Resetable {
    /// The items not consumed yet.
    spec fn items(&self) -> Seq<Self::Item>;

    /// The units not consumed yet: bytes of text, items of a slice.
    spec fn units(&self) -> nat;

    /// The units consumed since the input began.
    spec fn offset(&self) -> nat;

    /// The offset of the state that a snapshot denotes.
    spec fn checkpoint_offset(c: Self::Checkpoint) -> nat;

    /// The items of a range.
    spec fn range_items(r: Self::Range) -> Seq<Self::Item>;

    /// The units of a range.
    spec fn range_units(r: Self::Range) -> nat;

    /// True when the first `size` units can be split off as a range.
    spec fn splits_at(&self, size: nat) -> bool;

    /// What holds of every state of the cursor.
    proof fn lemma_state(&self)
        ensures
            Self::checkpoint_offset(self.snapshot()) == self.offset(),
            self.items().len() == 0 <==> self.units() == 0,
            self.items().len() <= self.units(),
            self.splits_at(0),
            self.splits_at(self.units()),
            forall|next: Self, r: Result<Self::Item, StreamError>|
                #[trigger] self.uncons_step(next, r) ==> if self.items().len() > 0 {
                    &&& r == Ok::<Self::Item, StreamError>(self.items()[0])
                    &&& next.items() == self.items().drop_first()
                    &&& next.offset() > self.offset()
                } else {
                    r == Err::<Self::Item, StreamError>(StreamError::Eoi) && next == *self
                },
    ;

    /// What holds of every range.
    proof fn lemma_range(r: Self::Range)
        ensures
            Self::range_items(r).len() == 0 <==> Self::range_units(r) == 0,
    ;

    /// Takes the first `size` units as one range.
    fn uncons_range(&mut self, size: usize) -> (r: Result<Self::Range, StreamError>)
        ensures
            size > old(self).units() ==> r == Err::<Self::Range, StreamError>(StreamError::Eoi)
                && *final(self) == *old(self),
            size <= old(self).units() && !old(self).splits_at(size as nat) ==> r == Err::<
                Self::Range,
                StreamError,
            >(StreamError::CharacterBoundary) && *final(self) == *old(self),
            size <= old(self).units() && old(self).splits_at(size as nat) ==> {
                &&& r is Ok
                &&& Self::range_units(r->Ok_0) == size
                &&& old(self).items() == Self::range_items(r->Ok_0) + final(self).items()
                &&& final(self).units() + size == old(self).units()
                &&& final(self).offset() == old(self).offset() + size
            },
    ;

    /// Takes the longest leading run of items on which `f` answers true.
    fn uncons_while<F: Fn(Self::Item) -> bool>(&mut self, f: F) -> (r: Result<
        Self::Range,
        StreamError,
    >)
        requires
            total(f),
        ensures
            r is Ok,
            taken_while(f, old(self).items(), Self::range_items(r->Ok_0), final(self).items()),
            final(self).units() + Self::range_units(r->Ok_0) == old(self).units(),
            final(self).offset() == old(self).offset() + Self::range_units(r->Ok_0),
    ;

    /// As `uncons_while`, but fails without consuming anything when the run
    /// would be empty.
    fn uncons_while1<F: Fn(Self::Item) -> bool>(&mut self, f: F) -> (r: FastResult<
        Self::Range,
        StreamError,
    >)
        requires
            total(f),
        ensures
            r is ConsumedOk || r is EmptyErr,
            r is ConsumedOk ==> {
                let taken = Self::range_items(r->ConsumedOk_0);
                &&& taken.len() > 0
                &&& taken_while(f, old(self).items(), taken, final(self).items())
                &&& final(self).units() + Self::range_units(r->ConsumedOk_0) == old(self).units()
                &&& final(self).offset() == old(self).offset() + Self::range_units(
                    r->ConsumedOk_0,
                )
            },
            r is EmptyErr ==> {
                &&& r->EmptyErr_0 == StreamError::Unexpected
                &&& *final(self) == *old(self)
                &&& old(self).items().len() > 0 ==> f.ensures((old(self).items()[0],), false)
            },
    {
        let ghost start = *self;
        let before = self.checkpoint();
        proof {
            self.lemma_state();
        }
        match self.uncons_while(f) {
            Ok(x) => {
                proof {
                    self.lemma_state();
                    Self::lemma_range(x);
                }
                if self.distance(&before) == 0 {
                    self.reset(before);
                    proof {
                        Self::lemma_snapshot_determines_state(*self, start);
                        assert(start.items() == Self::range_items(x) + start.items());
                    }
                    FastResult::EmptyErr(StreamError::Unexpected)
                } else {
                    FastResult::ConsumedOk(x)
                }
            },
            Err(_) => {
                self.reset(before);
                proof {
                    Self::lemma_snapshot_determines_state(*self, start);
                }
                FastResult::EmptyErr(StreamError::Unexpected)
            },
        }
    }

    /// The units consumed since the snapshot `end` was taken.
    fn distance(&self, end: &Self::Checkpoint) -> (r: usize)
        requires
            Self::checkpoint_offset(*end) <= self.offset(),
        ensures
            r == self.offset() - Self::checkpoint_offset(*end),
    ;
}

/// A range cursor that a backtracking parser can run over.
pub trait RangeStream: Stream + RangeStreamOnce {
}

impl<Input> RangeStream for Input where Input: RangeStreamOnce + Stream {
}

/// A range cursor that can hand out everything it holds as one range.
pub trait FullRangeStream: RangeStream {
    /// All the items not consumed yet.
    fn range(&self) -> (r: Self::Range)
        ensures
            Self::range_items(r) == self.items(),
            Self::range_units(r) == self.units(),
    ;
}

/// A range of items.
pub trait Range {
    spec fn len_spec(&self) -> nat;

    /// The number of units in the range.
    fn len(&self) -> (r: usize)
        ensures
            r == self.len_spec(),
    ;

    /// True when the range holds no unit.
    fn is_empty(&self) -> (r: bool)
        ensures
            r == (self.len_spec() == 0),
    {
        self.len() == 0
    }
}

impl<'a> Range for &'a str {
    open spec fn len_spec(&self) -> nat {
        self.spec_bytes().len()
    }

    fn len(&self) -> (r: usize) {
        self.as_bytes().len()
    }
}

impl<'a, T> Range for &'a [T] {
    open spec fn len_spec(&self) -> nat {
        self@.len()
    }

    fn len(&self) -> (r: usize) {
        <[T]>::len(self)
    }
}

} // verus!
