//! One attempt at decoding a value from input that may arrive in pieces.
use vstd::prelude::*;
use crate::error::{ParseFailure, StreamError};
use crate::stream::{RangeStream, RangeStreamOnce, StreamOnce};

verus! {

/// A parser that can run over `Input` and resume from a state of its own.
pub trait Parser<Input: RangeStreamOnce> {
    /// What a successful parse yields.
    type Output;
    /// What a parse that ran out of input leaves behind to resume from.
    type PartialState;

    /// The parse may take the cursor from `before` to `after` and give `r`.
    /// A parser that says nothing of itself admits every outcome.
    open spec fn parse_spec(
        &self,
        before: Input,
        after: Input,
        r: Result<Self::Output, ParseFailure<Input::Position>>,
    ) -> bool {
        true
    }

    /// Parses from `input`, resuming from `state` and updating it.
    /// A parser never moves `input` back before where it stood when called.
    fn parse_with_state(
        &mut self,
        input: &mut Input,
        state: &mut Self::PartialState,
    ) -> (r: Result<Self::Output, ParseFailure<Input::Position>>)
        ensures
            old(input).offset() <= final(input).offset(),
            old(self).parse_spec(*old(input), *final(input), r),
    ;
}

/// What a decode attempt reports when the parse gave `parsed` after
/// consuming `consumed` units: a value, a request for more input (only on a
/// partial input that ended too early), or the failure itself.
pub open spec fn decode_outcome<O, P>(
    parsed: Result<O, ParseFailure<P>>,
    partial: bool,
    consumed: nat,
) -> Result<(Option<O>, usize), ParseFailure<P>> {
    match parsed {
        Ok(v) => Ok((Some(v), consumed as usize)),
        Err(e) => if partial && e.error == StreamError::Eoi {
            Ok((None, consumed as usize))
        } else {
            Err(e)
        },
    }
}

/// Decodes one value from `input` with `parser`, resuming from
/// `partial_state`. Returns the value, or `None` when a partial input ran
/// out first, together with the units consumed.
pub fn decode<Input: RangeStream, P: Parser<Input>>(
    parser: P,
    input: Input,
    partial_state: &mut P::PartialState,
) -> (r: Result<(Option<P::Output>, usize), ParseFailure<Input::Position>>)
    ensures
        exists|after: Input, parsed: Result<P::Output, ParseFailure<Input::Position>>|
            #[trigger] parser.parse_spec(input, after, parsed) && input.offset() <= after.offset()
                && r == decode_outcome(
                parsed,
                Input::partial_input(),
                (after.offset() - input.offset()) as nat,
            ),
{
    let ghost start = input;
    let mut input = input;
    let r = decode_mut(parser, &mut input, partial_state);
    assert(exists|parsed: Result<P::Output, ParseFailure<Input::Position>>|
        #[trigger] parser.parse_spec(start, input, parsed) && start.offset() <= input.offset()
            && r == decode_outcome(
            parsed,
            Input::partial_input(),
            (input.offset() - start.offset()) as nat,
        ));
    r
}

/// As `decode`, on a cursor that the caller keeps.
pub fn decode_mut<Input: RangeStream, P: Parser<Input>>(
    parser: P,
    input: &mut Input,
    partial_state: &mut P::PartialState,
) -> (r: Result<(Option<P::Output>, usize), ParseFailure<Input::Position>>)
    ensures
        old(input).offset() <= final(input).offset(),
        exists|parsed: Result<P::Output, ParseFailure<Input::Position>>|
            #[trigger] parser.parse_spec(*old(input), *final(input), parsed) && r == decode_outcome(
                parsed,
                Input::partial_input(),
                (final(input).offset() - old(input).offset()) as nat,
            ),
{
    let ghost handed = parser;
    let mut parser = parser;
    let start = input.checkpoint();
    proof {
        input.lemma_state();
    }
    let parsed = parser.parse_with_state(input, partial_state);
    let ghost seen = parsed;
    let consumed = input.distance(&start);
    let r = decode_result(parsed, input.is_partial(), consumed);
    assert(handed.parse_spec(*old(input), *input, seen) && r == decode_outcome(
        seen,
        Input::partial_input(),
        (input.offset() - old(input).offset()) as nat,
    ));
    r
}

/// What a decode attempt returns for the parser's result `parsed` after
/// `consumed` units: the value, `None` when a partial input ended too early,
/// or the failure itself.
pub fn decode_result<O, P>(parsed: Result<O, ParseFailure<P>>, partial: bool, consumed: usize) -> (r:
    Result<(Option<O>, usize), ParseFailure<P>>)
    ensures
        r == decode_outcome(parsed, partial, consumed as nat),
{
    match parsed {
        Ok(message) => Ok((Some(message), consumed)),
        Err(err) => {
            if partial && err.is_unexpected_end_of_input() {
                Ok((None, consumed))
            } else {
                Err(err)
            }
        },
    }
}

} // verus!
