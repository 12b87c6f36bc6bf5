//! The outcome algebra and the errors that cursors produce.
use vstd::prelude::*;

verus! {

/// Why a cursor primitive failed.
#[derive(Clone, Debug, PartialEq, Eq)]
pub enum StreamError {
    /// The input ended before the request could be met.
    Eoi,
    /// A range of text would have split an encoded character.
    CharacterBoundary,
    /// The item at the head of the input was not the one wanted.
    Unexpected,
    /// The source underneath the cursor failed, as that source described
    /// its failure.
    Other(String),
}

/// A failure together with the position at which it happened.
#[derive(Clone, Debug, PartialEq, Eq)]
pub struct ParseFailure<P> {
    pub position: P,
    pub error: StreamError,
}

impl<P> ParseFailure<P> {
    /// Attaches `position` to `error`.
    pub fn from_error(position: P, error: StreamError) -> (r: Self)
        ensures
            r.position == position,
            r.error == error,
    {
        ParseFailure { position, error }
    }

    /// True when the failure reports that the input ended too early.
    pub fn is_unexpected_end_of_input(&self) -> (r: bool)
        ensures
            r == (self.error == StreamError::Eoi),
    {
        match self.error {
            StreamError::Eoi => true,
            _ => false,
        }
    }
}

/// The result of one step of a parse: whether it consumed input, and
/// whether it succeeded.
#[derive(Clone, Copy, Debug, PartialEq, Eq)]
pub enum FastResult<T, E> {
    /// Succeeded after consuming input.
    ConsumedOk(T),
    /// Succeeded without consuming input.
    EmptyOk(T),
    /// Failed after consuming input: alternatives must not be tried.
    ConsumedErr(E),
    /// Failed without consuming input: an alternative may be tried.
    EmptyErr(E),
}

impl<T, E> FastResult<T, E> {
    pub open spec fn spec_consumed(&self) -> bool {
        self is ConsumedOk || self is ConsumedErr
    }

    pub open spec fn spec_ok(&self) -> bool {
        self is ConsumedOk || self is EmptyOk
    }

    /// True when the step consumed input.
    pub fn is_consumed(&self) -> (r: bool)
        ensures
            r == self.spec_consumed(),
    {
        match self {
            FastResult::ConsumedOk(_) | FastResult::ConsumedErr(_) => true,
            _ => false,
        }
    }

    /// True when the step succeeded.
    pub fn is_ok(&self) -> (r: bool)
        ensures
            r == self.spec_ok(),
    {
        match self {
            FastResult::ConsumedOk(_) | FastResult::EmptyOk(_) => true,
            _ => false,
        }
    }
}

} // verus!

verus! {

impl<T, E> FastResult<T, E> {
    /// The value of a success.
    pub open spec fn spec_value(self) -> T
        recommends
            self.spec_ok(),
    {
        match self {
            FastResult::ConsumedOk(x) => x,
            FastResult::EmptyOk(x) => x,
            _ => arbitrary(),
        }
    }
}

/// `error` at `position`.
pub open spec fn located<P>(position: P, error: StreamError) -> ParseFailure<P> {
    ParseFailure { position, error }
}

/// How a cursor failure at `position` is reported: as consumed on a partial
/// input, so that no alternative is tried, and as not consumed otherwise.
pub open spec fn failure<T, P>(partial: bool, position: P, error: StreamError) -> FastResult<
    T,
    ParseFailure<P>,
> {
    if partial {
        FastResult::ConsumedErr(located(position, error))
    } else {
        FastResult::EmptyErr(located(position, error))
    }
}

} // verus!
