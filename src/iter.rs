//! A cursor over a single-pass iterator.
use vstd::prelude::*;
use vstd::std_specs::iter::IteratorSpec;
use crate::error::StreamError;
use crate::stream::StreamOnce;

verus! {

/// A cursor that takes its items from an iterator. It can neither report a
/// position nor be reset: wrap it in a buffering cursor before parsing with
/// backtracking.
#[derive(Debug)]
pub struct IteratorStream<I>(I);

impl<I: Iterator> IteratorStream<I> {
    /// A cursor over the items that `iter` yields.
    pub fn new(iter: I) -> (r: Self)
        ensures
            r.iterator() == iter,
    {
        IteratorStream(iter)
    }

    /// The iterator underneath.
    pub closed spec fn iterator(&self) -> I {
        self.0
    }
}

/// The position type of a cursor that reports none.
#[derive(Clone, Copy, Debug, PartialEq, Eq, PartialOrd, Ord)]
pub struct NoPosition;

impl<I: Iterator> StreamOnce for IteratorStream<I> {
    type Item = I::Item;
    type Range = I::Item;
    type Position = NoPosition;

    open spec fn partial_input() -> bool {
        false
    }

    open spec fn uncons_step(&self, next: Self, r: Result<I::Item, StreamError>) -> bool {
        r is Ok || r == Err::<I::Item, StreamError>(StreamError::Eoi)
    }

    fn uncons(&mut self) -> (r: Result<I::Item, StreamError>)
        ensures
            old(self).iterator().obeys_prophetic_iter_laws() ==> if old(
                self,
            ).iterator().remaining().len() > 0 {
                &&& r == Ok::<I::Item, StreamError>(old(self).iterator().remaining()[0])
                &&& final(self).iterator().remaining() == old(
                    self,
                ).iterator().remaining().drop_first()
            } else {
                r == Err::<I::Item, StreamError>(StreamError::Eoi)
            },
    {
        match self.0.next() {
            Some(x) => Ok(x),
            None => Err(StreamError::Eoi),
        }
    }

    fn is_partial(&self) -> (r: bool) {
        false
    }
}

/// What a cursor over a byte reader reports for the reader's next result:
/// the byte read, `Other` carrying the reader's description of a failed
/// read, `Eoi` when the reader is exhausted.
pub fn read_outcome(next: Option<Result<u8, String>>) -> (r: Result<u8, StreamError>)
    ensures
        r == match next {
            Some(Ok(b)) => Ok::<u8, StreamError>(b),
            Some(Err(e)) => Err::<u8, StreamError>(StreamError::Other(e)),
            None => Err::<u8, StreamError>(StreamError::Eoi),
        },
{
    match next {
        Some(Ok(b)) => Ok(b),
        Some(Err(e)) => Err(StreamError::Other(e)),
        None => Err(StreamError::Eoi),
    }
}

} // verus!
