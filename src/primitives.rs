//! The functions that fold a cursor's raw results into the outcome algebra.
use vstd::prelude::*;
use crate::error::{failure, located, FastResult, ParseFailure, StreamError};
use crate::stream::{taken_while, total, Positioned, RangeStream, Stream, StreamOnce};

verus! {

/// How `uncons` reports the raw result `raw` of a cursor that now stands at
/// `position`.
pub open spec fn uncons_outcome<T, P>(
    partial: bool,
    position: P,
    raw: Result<T, StreamError>,
) -> FastResult<T, ParseFailure<P>> {
    match raw {
        Ok(x) => FastResult::ConsumedOk(x),
        Err(e) => failure(partial, position, e),
    }
}

/// Reports `err` at the cursor's current position: as consumed when the
/// input is partial, as not consumed otherwise.
pub fn wrap_stream_error<T, Input: StreamOnce + Positioned>(
    input: &Input,
    err: StreamError,
) -> (r: FastResult<T, ParseFailure<Input::Position>>)
    ensures
        r == failure::<T, Input::Position>(Input::partial_input(), input.position_spec(), err),
{
    let err = ParseFailure::from_error(input.position(), err);
    if input.is_partial() {
        FastResult::ConsumedErr(err)
    } else {
        FastResult::EmptyErr(err)
    }
}

/// Takes the first item.
pub fn uncons<Input: Stream>(input: &mut Input) -> (r: FastResult<
    Input::Item,
    ParseFailure<Input::Position>,
>)
    ensures
        exists|raw: Result<Input::Item, StreamError>|
            #[trigger] old(input).uncons_step(*final(input), raw) && r == uncons_outcome(
                Input::partial_input(),
                final(input).position_spec(),
                raw,
            ),
{
    match input.uncons() {
        Ok(x) => FastResult::ConsumedOk(x),
        Err(err) => wrap_stream_error(input, err),
    }
}

/// Takes the first `size` units as one range. A range of no units is a
/// success that consumed nothing; a failure leaves the cursor as it was.
pub fn uncons_range<Input: RangeStream>(input: &mut Input, size: usize) -> (r: FastResult<
    Input::Range,
    ParseFailure<Input::Position>,
>)
    ensures
        size > old(input).units() ==> r == failure::<Input::Range, Input::Position>(
            Input::partial_input(),
            old(input).position_spec(),
            StreamError::Eoi,
        ) && *final(input) == *old(input),
        size <= old(input).units() && !old(input).splits_at(size as nat) ==> r == failure::<
            Input::Range,
            Input::Position,
        >(Input::partial_input(), old(input).position_spec(), StreamError::CharacterBoundary)
            && *final(input) == *old(input),
        size == 0 ==> r is EmptyOk && final(input).items() == old(input).items()
            && final(input).offset() == old(input).offset(),
        size <= old(input).units() && old(input).splits_at(size as nat) ==> {
            &&& if size == 0 {
                r is EmptyOk
            } else {
                r is ConsumedOk
            }
            &&& Input::range_units(r.spec_value()) == size
            &&& old(input).items() == Input::range_items(r.spec_value()) + final(input).items()
            &&& final(input).units() + size == old(input).units()
            &&& final(input).offset() == old(input).offset() + size
        },
{
    proof {
        input.lemma_state();
        if size == 0 {
            assert(old(input).items() =~= Seq::<Input::Item>::empty() + old(input).items());
        }
    }
    let r = input.uncons_range(size);
    proof {
        if size == 0 {
            Input::lemma_range(r->Ok_0);
            assert(Input::range_items(r->Ok_0) =~= Seq::<Input::Item>::empty());
        }
    }
    match r {
        Err(err) => wrap_stream_error(input, err),
        Ok(x) => {
            if size == 0 {
                FastResult::EmptyOk(x)
            } else {
                FastResult::ConsumedOk(x)
            }
        },
    }
}

/// True when the cursor holds no further item; the cursor is left as it was.
pub fn input_at_eof<Input: Stream>(input: &mut Input) -> (r: bool)
    ensures
        *final(input) == *old(input),
        exists|next: Input, raw: Result<Input::Item, StreamError>|
            #[trigger] old(input).uncons_step(next, raw) && r == (raw == Err::<
                Input::Item,
                StreamError,
            >(StreamError::Eoi)),
{
    let ghost start = *input;
    let before = input.checkpoint();
    let x = match input.uncons() {
        Err(StreamError::Eoi) => true,
        _ => false,
    };
    input.reset(before);
    proof {
        Input::lemma_snapshot_determines_state(*input, start);
    }
    x
}

/// What `uncons_while` reports, for a scan with `predicate` that took the
/// cursor from `before` to `after`. The cursor stops after the longest
/// leading run of items on which `predicate` answers true. On a partial input
/// that run may go on in input not seen yet, so a scan that reaches the end
/// of what is there is a consumed failure with `Eoi`; otherwise the run is
/// returned, as not consumed exactly when it is empty.
pub open spec fn while_outcome<Input: RangeStream, F: Fn(Input::Item) -> bool>(
    predicate: F,
    before: Input,
    after: Input,
    r: FastResult<Input::Range, ParseFailure<Input::Position>>,
) -> bool {
    &&& after.offset() + after.units() == before.offset() + before.units()
    &&& Input::partial_input() && after.items().len() == 0 ==> {
        &&& r == FastResult::<Input::Range, ParseFailure<Input::Position>>::ConsumedErr(
            located(after.position_spec(), StreamError::Eoi),
        )
        &&& taken_while(predicate, before.items(), before.items(), after.items())
    }
    &&& !(Input::partial_input() && after.items().len() == 0) ==> {
        let taken = Input::range_items(r.spec_value());
        &&& r.spec_ok()
        &&& taken_while(predicate, before.items(), taken, after.items())
        &&& (r is EmptyOk <==> taken.len() == 0)
        &&& after.offset() == before.offset() + Input::range_units(r.spec_value())
    }
}

/// What `uncons_while1` reports, for a scan with `predicate` that took the
/// cursor from `before` to `after`: as `while_outcome`, except that a run
/// of no item is a failure that consumed nothing, reported with
/// `Unexpected` at the position where the scan began.
pub open spec fn while1_outcome<Input: RangeStream, F: Fn(Input::Item) -> bool>(
    predicate: F,
    before: Input,
    after: Input,
    r: FastResult<Input::Range, ParseFailure<Input::Position>>,
) -> bool {
    &&& !(r is EmptyOk)
    &&& after.offset() + after.units() == before.offset() + before.units()
    &&& r is ConsumedErr <==> Input::partial_input() && after.items().len() == 0
    &&& r is ConsumedErr ==> {
        &&& r == FastResult::<Input::Range, ParseFailure<Input::Position>>::ConsumedErr(
            located(after.position_spec(), StreamError::Eoi),
        )
        &&& taken_while(predicate, before.items(), before.items(), after.items())
    }
    &&& r is ConsumedOk ==> {
        let taken = Input::range_items(r.spec_value());
        &&& taken.len() > 0
        &&& taken_while(predicate, before.items(), taken, after.items())
        &&& after.offset() == before.offset() + Input::range_units(r.spec_value())
    }
    &&& r is EmptyErr ==> {
        &&& r == FastResult::<Input::Range, ParseFailure<Input::Position>>::EmptyErr(
            located(before.position_spec(), StreamError::Unexpected),
        )
        &&& after == before
        &&& before.items().len() > 0 ==> predicate.ensures((before.items()[0],), false)
    }
}

/// Takes the longest leading run of items on which `predicate` answers
/// true. On a partial input that run may go on in input not seen yet, so
/// reaching the end of what is there is reported as a consumed failure
/// with `Eoi`.
pub fn uncons_while<Input: RangeStream, F: Fn(Input::Item) -> bool>(
    input: &mut Input,
    predicate: F,
) -> (r: FastResult<Input::Range, ParseFailure<Input::Position>>)
    requires
        total::<Input::Item, F>(predicate),
    ensures
        while_outcome(predicate, *old(input), *final(input), r),
{
    let before = input.checkpoint();
    proof {
        input.lemma_state();
    }
    match input.uncons_while(predicate) {
        Err(err) => wrap_stream_error(input, err),
        Ok(x) => {
            proof {
                input.lemma_state();
                Input::lemma_range(x);
                if input.items().len() == 0 {
                    assert(Input::range_items(x) + input.items() =~= Input::range_items(x));
                }
            }
            if input.is_partial() && input_at_eof(input) {
                FastResult::ConsumedErr(ParseFailure::from_error(input.position(), StreamError::Eoi))
            } else if input.distance(&before) == 0 {
                FastResult::EmptyOk(x)
            } else {
                FastResult::ConsumedOk(x)
            }
        },
    }
}

/// As `uncons_while`, but a run of no item is a failure that consumed
/// nothing.
pub fn uncons_while1<Input: RangeStream, F: Fn(Input::Item) -> bool>(
    input: &mut Input,
    predicate: F,
) -> (r: FastResult<Input::Range, ParseFailure<Input::Position>>)
    requires
        total::<Input::Item, F>(predicate),
    ensures
        while1_outcome(predicate, *old(input), *final(input), r),
{
    proof {
        input.lemma_state();
    }
    match input.uncons_while1(predicate) {
        FastResult::ConsumedOk(x) => {
            proof {
                input.lemma_state();
                if input.items().len() == 0 {
                    assert(Input::range_items(x) + input.items() =~= Input::range_items(x));
                }
            }
            if input.is_partial() && input_at_eof(input) {
                FastResult::ConsumedErr(ParseFailure::from_error(input.position(), StreamError::Eoi))
            } else {
                FastResult::ConsumedOk(x)
            }
        },
        _ => {
            proof {
                assert(old(input).items() =~= Seq::<Input::Item>::empty() + old(input).items());
            }
            if input.is_partial() && input_at_eof(input) {
                FastResult::ConsumedErr(ParseFailure::from_error(input.position(), StreamError::Eoi))
            } else {
                FastResult::EmptyErr(ParseFailure::from_error(input.position(), StreamError::Unexpected))
            }
        },
    }
}

} // verus!
