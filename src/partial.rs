//! The wrapper that marks a cursor as holding only part of its input.
use vstd::prelude::*;
use crate::error::{FastResult, StreamError};
use crate::stream::{
    FullRangeStream, Positioned, RangeStreamOnce, Resetable, StreamOnce,
};

verus! {

/// A cursor whose input may continue past what it holds now: reaching the
/// end of it means "more input is needed" rather than "the input is over".
#[derive(Debug)]
pub struct PartialStream<S>(pub S);

impl<S: StreamOnce> StreamOnce for PartialStream<S> {
    type Item = S::Item;
    type Range = S::Range;
    type Position = S::Position;

    open spec fn partial_input() -> bool {
        true
    }

    open spec fn uncons_step(&self, next: Self, r: Result<S::Item, StreamError>) -> bool {
        self.0.uncons_step(next.0, r)
    }

    fn uncons(&mut self) -> (r: Result<S::Item, StreamError>) {
        self.0.uncons()
    }

    fn is_partial(&self) -> (r: bool) {
        true
    }
}

impl<S: Positioned> Positioned for PartialStream<S> {
    open spec fn position_spec(&self) -> S::Position {
        self.0.position_spec()
    }

    fn position(&self) -> (r: S::Position) {
        self.0.position()
    }
}

impl<S: Resetable> Resetable for PartialStream<S> {
    type Checkpoint = S::Checkpoint;

    open spec fn snapshot(&self) -> S::Checkpoint {
        self.0.snapshot()
    }

    proof fn lemma_snapshot_determines_state(a: Self, b: Self) {
        S::lemma_snapshot_determines_state(a.0, b.0);
    }

    fn checkpoint(&self) -> (r: S::Checkpoint) {
        self.0.checkpoint()
    }

    fn reset(&mut self, checkpoint: S::Checkpoint) {
        self.0.reset(checkpoint);
    }
}

impl<S: RangeStreamOnce> RangeStreamOnce for PartialStream<S> {
    open spec fn items(&self) -> Seq<S::Item> {
        self.0.items()
    }

    open spec fn units(&self) -> nat {
        self.0.units()
    }

    open spec fn offset(&self) -> nat {
        self.0.offset()
    }

    open spec fn checkpoint_offset(c: S::Checkpoint) -> nat {
        S::checkpoint_offset(c)
    }

    open spec fn range_items(r: S::Range) -> Seq<S::Item> {
        S::range_items(r)
    }

    open spec fn range_units(r: S::Range) -> nat {
        S::range_units(r)
    }

    open spec fn splits_at(&self, size: nat) -> bool {
        self.0.splits_at(size)
    }

    proof fn lemma_state(&self) {
        self.0.lemma_state();
        assert forall|next: Self, r: Result<S::Item, StreamError>|
            #[trigger] self.uncons_step(next, r) implies if self.items().len() > 0 {
                &&& r == Ok::<S::Item, StreamError>(self.items()[0])
                &&& next.items() == self.items().drop_first()
                &&& next.offset() > self.offset()
            } else {
                r == Err::<S::Item, StreamError>(StreamError::Eoi) && next == *self
            } by {
            assert(self.0.uncons_step(next.0, r));
        }
    }

    proof fn lemma_range(r: S::Range) {
        S::lemma_range(r);
    }

    fn uncons_range(&mut self, size: usize) -> (r: Result<S::Range, StreamError>) {
        self.0.uncons_range(size)
    }

    fn uncons_while<F: Fn(S::Item) -> bool>(&mut self, f: F) -> (r: Result<S::Range, StreamError>) {
        self.0.uncons_while(f)
    }

    fn uncons_while1<F: Fn(S::Item) -> bool>(&mut self, f: F) -> (r: FastResult<S::Range, StreamError>) {
        self.0.uncons_while1(f)
    }

    fn distance(&self, end: &S::Checkpoint) -> (r: usize) {
        self.0.distance(end)
    }
}

impl<S: FullRangeStream> FullRangeStream for PartialStream<S> {
    fn range(&self) -> (r: S::Range) {
        self.0.range()
    }
}

} // verus!
