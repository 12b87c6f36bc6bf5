//! Laws that hold across several cursor operations.
use vstd::prelude::*;
use crate::error::{located, FastResult, ParseFailure, StreamError};
use crate::partial::PartialStream;
use crate::primitives::{while1_outcome, while_outcome};
use crate::stream::{Positioned, RangeStream, RangeStreamOnce, Resetable};

verus! {

/// Taking a range moves the cursor exactly that range's units past a
/// checkpoint taken before the take, so `distance` from the checkpoint is
/// the size of the range; after `reset` to the checkpoint it is zero.
pub proof fn distance_counts_taken_range<Input: RangeStream>(
    before: Input,
    range: Input::Range,
    after: Input,
    restored: Input,
)
    requires
        after.offset() == before.offset() + Input::range_units(range),
        restored.snapshot() == before.snapshot(),
    ensures
        Input::checkpoint_offset(before.snapshot()) <= after.offset(),
        after.offset() - Input::checkpoint_offset(before.snapshot()) == Input::range_units(range),
        Input::checkpoint_offset(before.snapshot()) <= restored.offset(),
        restored.offset() - Input::checkpoint_offset(before.snapshot()) == 0,
{
    before.lemma_state();
    restored.lemma_state();
}

/// A scan that must take at least one item fails without consuming
/// anything, and leaves the cursor where it was, when the first item does
/// not match; when the first item matches and a later one does not, it
/// succeeds after consuming exactly the matched prefix and leaves the
/// cursor right after it.
pub proof fn take_while1_outcome<Input: RangeStream, F: Fn(Input::Item) -> bool>(
    predicate: F,
    before: Input,
    after: Input,
    r: FastResult<Input::Range, ParseFailure<Input::Position>>,
    stop: int,
)
    requires
        while1_outcome(predicate, before, after, r),
    ensures
        before.items().len() > 0 && !predicate.ensures((before.items()[0],), true) ==> {
            &&& r is EmptyErr
            &&& after == before
        },
        before.items().len() == 0 && !Input::partial_input() ==> {
            &&& r is EmptyErr
            &&& after == before
        },
        0 < stop < before.items().len() && !predicate.ensures((before.items()[stop],), true)
            && !predicate.ensures((before.items()[0],), false) ==> {
            let taken = Input::range_items(r.spec_value());
            &&& r is ConsumedOk
            &&& 0 < taken.len() <= stop
            &&& before.items() == taken + after.items()
            &&& forall|i: int| 0 <= i < taken.len() ==> #[trigger] predicate.ensures((taken[i],), true)
            &&& predicate.ensures((after.items()[0],), false)
        },
{
    if r is ConsumedErr {
        assert(before.items() == before.items() + after.items());
        assert(after.items().len() == 0) by {
            assert((before.items() + after.items()).len() == before.items().len() + after.items().len());
        }
        if 0 <= stop < before.items().len() {
            assert(predicate.ensures((before.items()[stop],), true));
        }
        if before.items().len() > 0 {
            assert(predicate.ensures((before.items()[0],), true));
        }
    }
    if r is ConsumedOk {
        let taken = Input::range_items(r.spec_value());
        assert(before.items()[0] == taken[0]);
        if 0 < stop < before.items().len() && taken.len() > stop {
            assert(before.items()[stop] == taken[stop]);
        }
        if 0 < stop < before.items().len() && taken.len() <= stop {
            assert(after.items().len() > 0);
        }
    }
}

/// On a partial input, a scan whose predicate matches every item left
/// reports a consumed failure with `Eoi`, since the run may go on in input
/// not seen yet; the same scan over the same items of the cursor without
/// the partial mark returns all of them as a consumed success.
pub proof fn partial_scan_to_end<S: RangeStream, F: Fn(S::Item) -> bool>(
    predicate: F,
    before: S,
    after: S,
    r: FastResult<S::Range, ParseFailure<S::Position>>,
    partial_after: PartialStream<S>,
    partial_r: FastResult<S::Range, ParseFailure<S::Position>>,
)
    requires
        !S::partial_input(),
        before.items().len() > 0,
        forall|i: int|
            0 <= i < before.items().len() ==> !#[trigger] predicate.ensures(
                (before.items()[i],),
                false,
            ),
        while_outcome(predicate, before, after, r),
        while_outcome(predicate, PartialStream(before), partial_after, partial_r),
    ensures
        r is ConsumedOk,
        S::range_items(r.spec_value()) == before.items(),
        after.items().len() == 0,
        partial_r == FastResult::<S::Range, ParseFailure<S::Position>>::ConsumedErr(
            located(partial_after.position_spec(), StreamError::Eoi),
        ),
        partial_after.items().len() == 0,
{
    let taken = S::range_items(r.spec_value());
    if after.items().len() > 0 {
        assert(before.items()[taken.len() as int] == after.items()[0]);
    }
    assert(before.items() =~= taken);
    if partial_after.items().len() > 0 {
        let partial_taken = S::range_items(partial_r.spec_value());
        assert(before.items()[partial_taken.len() as int] == partial_after.items()[0]);
    }
}

} // verus!
