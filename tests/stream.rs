use combine_stream::decode::{decode, decode_mut, decode_result, Parser};
use combine_stream::error::{FastResult, ParseFailure, StreamError};
use combine_stream::iter::{read_outcome, IteratorStream};
use combine_stream::partial::PartialStream;
use combine_stream::primitives::{
    input_at_eof, uncons, uncons_range, uncons_while, uncons_while1, wrap_stream_error,
};
use combine_stream::slice::{ItemStream, SliceStream};
use combine_stream::stream::{
    FullRangeStream, PointerOffset, Positioned, Range, RangeStreamOnce, Resetable, Stream,
    StreamOnce,
};
use combine_stream::text::StrStream;

fn at(offset: usize, error: StreamError) -> ParseFailure<PointerOffset> {
    ParseFailure::from_error(PointerOffset(offset), error)
}

#[test]
fn uncons_range_at_end() {
    assert_eq!(StrStream::new("").uncons_range(0), Ok(""));
    assert_eq!(StrStream::new("123").uncons_range(3), Ok("123"));
    assert_eq!(ItemStream::new(&[1][..]).uncons_range(1), Ok(&[1][..]));
    let s: &[u8] = &[];
    assert_eq!(SliceStream::new(s).uncons_range(0), Ok(&[][..]));
}

#[test]
fn larger_than_1_byte_items_return_correct_distance() {
    let mut input = ItemStream::new(&[123i32, 0i32][..]);

    let before = input.checkpoint();
    assert_eq!(input.distance(&before), 0);

    input.uncons().unwrap();
    assert_eq!(input.distance(&before), 1);

    input.uncons().unwrap();
    assert_eq!(input.distance(&before), 2);

    input.reset(before.clone());
    assert_eq!(input.distance(&before), 0);
}

#[test]
fn distance_equals_range_size_then_zero_after_reset() {
    let mut input = StrStream::new("aé€z");
    let before = input.checkpoint();
    assert_eq!(uncons_range(&mut input, 6), FastResult::ConsumedOk("aé€"));
    assert_eq!(input.distance(&before), 6);
    input.reset(before.clone());
    assert_eq!(input.distance(&before), 0);
    assert_eq!(input.as_str(), "aé€z");

    let words = [String::from("a"), String::from("b")];
    let mut items = SliceStream::new(&words[..]);
    let start = items.checkpoint();
    let taken = uncons_while(&mut items, |s: &String| s.as_str() == "a");
    assert_eq!(taken, FastResult::ConsumedOk(&[String::from("a")][..]));
    assert_eq!(items.distance(&start), 1);
}

#[test]
fn zero_sized_range_is_empty_ok_even_at_end() {
    let mut input = StrStream::new("");
    assert_eq!(uncons_range(&mut input, 0), FastResult::EmptyOk(""));
    let mut partial = PartialStream(ItemStream::new(&[1u8][..]));
    assert_eq!(uncons_range(&mut partial, 0), FastResult::EmptyOk(&[][..]));
    assert_eq!(partial.0.as_slice(), &[1u8][..]);
}

#[test]
fn oversized_range_fails_with_end_of_input_and_keeps_cursor() {
    let mut input = StrStream::new("abc");
    uncons(&mut input);
    assert_eq!(uncons_range(&mut input, 3), FastResult::EmptyErr(at(1, StreamError::Eoi)));
    assert_eq!(input.as_str(), "bc");
    assert_eq!(input.position(), PointerOffset(1));

    let mut partial = PartialStream(ItemStream::new(&[1u8, 2][..]));
    assert_eq!(uncons_range(&mut partial, 3), FastResult::ConsumedErr(at(0, StreamError::Eoi)));
    assert_eq!(partial.0.as_slice(), &[1u8, 2][..]);
}

#[test]
fn take_while1_without_a_match_is_empty_err() {
    let mut input = StrStream::new("abc");
    assert_eq!(
        uncons_while1(&mut input, |c: char| c.is_ascii_digit()),
        FastResult::EmptyErr(at(0, StreamError::Unexpected))
    );
    assert_eq!(input.as_str(), "abc");

    let mut empty = ItemStream::new(&[][..]);
    assert_eq!(
        uncons_while1(&mut empty, |x: u8| x > 0),
        FastResult::EmptyErr(at(0, StreamError::Unexpected))
    );
    assert_eq!(
        ItemStream::new(&[0u8][..]).uncons_while1(|x: u8| x > 0),
        FastResult::EmptyErr(StreamError::Unexpected)
    );
}

#[test]
fn take_while1_with_a_match_returns_the_prefix() {
    let mut input = StrStream::new("12a3");
    assert_eq!(
        uncons_while1(&mut input, |c: char| c.is_ascii_digit()),
        FastResult::ConsumedOk("12")
    );
    assert_eq!(input.as_str(), "a3");
    assert_eq!(input.position(), PointerOffset(2));

    let mut items = ItemStream::new(&[5u8, 6, 0, 7][..]);
    assert_eq!(uncons_while1(&mut items, |x: u8| x > 0), FastResult::ConsumedOk(&[5u8, 6][..]));
    assert_eq!(items.as_slice(), &[0u8, 7][..]);
}

#[test]
fn text_range_inside_a_character_is_a_boundary_error() {
    let mut input = StrStream::new("é");
    assert_eq!(input.uncons_range(1), Err(StreamError::CharacterBoundary));
    assert_eq!(input.as_str(), "é");
    assert_eq!(
        uncons_range(&mut input, 1),
        FastResult::EmptyErr(at(0, StreamError::CharacterBoundary))
    );
    assert_eq!(input.as_str(), "é");
    assert_eq!(uncons_range(&mut input, 2), FastResult::ConsumedOk("é"));
}

#[test]
fn partial_take_while_to_the_end_needs_more_input() {
    let mut partial = PartialStream(StrStream::new("123"));
    assert_eq!(
        uncons_while(&mut partial, |c: char| c.is_ascii_digit()),
        FastResult::ConsumedErr(at(3, StreamError::Eoi))
    );
    let mut whole = StrStream::new("123");
    assert_eq!(
        uncons_while(&mut whole, |c: char| c.is_ascii_digit()),
        FastResult::ConsumedOk("123")
    );

    let mut partial1 = PartialStream(ItemStream::new(&[1u8, 2][..]));
    assert_eq!(
        uncons_while1(&mut partial1, |x: u8| x > 0),
        FastResult::ConsumedErr(at(2, StreamError::Eoi))
    );
    let mut empty = PartialStream(ItemStream::new(&[][..]));
    assert_eq!(
        uncons_while1(&mut empty, |x: u8| x > 0),
        FastResult::ConsumedErr(at(0, StreamError::Eoi))
    );
}

#[test]
fn take_while_without_a_match_is_empty_ok() {
    let mut input = StrStream::new("x1");
    assert_eq!(uncons_while(&mut input, |c: char| c.is_ascii_digit()), FastResult::EmptyOk(""));
    assert_eq!(input.as_str(), "x1");
}

/// Digits up to a comma, one item at a time, keeping the digits seen so far
/// across calls.
struct DigitsThenComma;

#[derive(Default, Debug, PartialEq)]
struct Digits {
    seen: Vec<u8>,
}

impl<Input> Parser<Input> for DigitsThenComma
where
    Input: RangeStreamOnce + Stream + StreamOnce<Item = u8>,
{
    type Output = (Vec<u8>, u8);
    type PartialState = Digits;

    fn parse_with_state(
        &mut self,
        input: &mut Input,
        state: &mut Digits,
    ) -> Result<(Vec<u8>, u8), ParseFailure<<Input as StreamOnce>::Position>> {
        loop {
            let before = input.checkpoint();
            match uncons(input) {
                FastResult::ConsumedOk(b) if b.is_ascii_digit() => state.seen.push(b),
                FastResult::ConsumedOk(b',') => {
                    return Ok((std::mem::take(&mut state.seen), b','));
                }
                FastResult::ConsumedOk(_) => {
                    input.reset(before);
                    return Err(ParseFailure::from_error(
                        input.position(),
                        StreamError::Unexpected,
                    ));
                }
                FastResult::EmptyOk(_) => unreachable!(),
                FastResult::ConsumedErr(e) | FastResult::EmptyErr(e) => return Err(e),
            }
        }
    }
}

#[test]
fn decode_in_two_chunks_matches_single_shot() {
    let message = b"123,";
    let whole = decode(
        DigitsThenComma,
        PartialStream(ItemStream::new(&message[..])),
        &mut Digits::default(),
    );
    assert_eq!(whole, Ok((Some((b"123".to_vec(), b',')), 4)));

    let mut state = Digits::default();
    let chunk1 = &message[..2];
    let first = decode(DigitsThenComma, PartialStream(ItemStream::new(chunk1)), &mut state);
    assert_eq!(first, Ok((None, 2)));
    let n1 = first.unwrap().1;
    assert!(n1 <= chunk1.len());

    let mut rest = chunk1[n1..].to_vec();
    rest.extend_from_slice(&message[2..]);
    let second = decode(DigitsThenComma, PartialStream(ItemStream::new(&rest[..])), &mut state);
    assert_eq!(second, Ok((Some((b"123".to_vec(), b',')), 2)));
}

#[test]
fn digits_then_comma_over_text_and_split_bytes() {
    let mut input = StrStream::new("123,");
    assert_eq!(uncons_while(&mut input, |c: char| c.is_ascii_digit()), FastResult::ConsumedOk("123"));
    assert_eq!(uncons(&mut input), FastResult::ConsumedOk(','));
    assert_eq!(input.as_str(), "");

    let bytes = b"123,";
    let mut state = Digits::default();
    let first = decode(DigitsThenComma, PartialStream(ItemStream::new(&bytes[..2])), &mut state);
    assert_eq!(first, Ok((None, 2)));
    let second = decode(DigitsThenComma, PartialStream(ItemStream::new(&bytes[2..])), &mut state);
    assert_eq!(second, Ok((Some((b"123".to_vec(), b',')), 2)));
}

#[test]
fn decode_reports_other_failures() {
    let mut state = Digits::default();
    assert_eq!(
        decode(DigitsThenComma, PartialStream(ItemStream::new(&b"1x"[..])), &mut state),
        Err(at(1, StreamError::Unexpected))
    );
    let mut state = Digits::default();
    assert_eq!(
        decode(DigitsThenComma, ItemStream::new(&b"12"[..]), &mut state),
        Err(at(2, StreamError::Eoi))
    );
}

#[test]
fn uncons_at_end_depends_on_partial_mark() {
    let mut input = StrStream::new("é");
    assert_eq!(uncons(&mut input), FastResult::ConsumedOk('é'));
    assert_eq!(input.position(), PointerOffset(2));
    assert_eq!(uncons(&mut input), FastResult::EmptyErr(at(2, StreamError::Eoi)));

    let mut partial = PartialStream(SliceStream::new(&[7u8][..]));
    assert_eq!(uncons(&mut partial), FastResult::ConsumedOk(&7u8));
    assert_eq!(uncons(&mut partial), FastResult::ConsumedErr(at(1, StreamError::Eoi)));
}

#[test]
fn input_at_eof_leaves_cursor_in_place() {
    let mut input = StrStream::new("a");
    assert!(!input_at_eof(&mut input));
    assert_eq!(input.as_str(), "a");
    uncons(&mut input);
    assert!(input_at_eof(&mut input));
    assert_eq!(input.position(), PointerOffset(1));
}

#[test]
fn wrap_stream_error_marks_partial_failures_consumed() {
    let input = ItemStream::new(&[1u8, 2][..]);
    let plain: FastResult<u8, _> = wrap_stream_error(&input, StreamError::Unexpected);
    assert_eq!(plain, FastResult::EmptyErr(at(0, StreamError::Unexpected)));
    let partial = PartialStream(ItemStream::new(&[1u8, 2][..]));
    let marked: FastResult<u8, _> = wrap_stream_error(&partial, StreamError::Unexpected);
    assert_eq!(marked, FastResult::ConsumedErr(at(0, StreamError::Unexpected)));
    assert!(partial.is_partial());
    assert!(!input.is_partial());
}

#[test]
fn iterator_stream_yields_items_then_end_of_input() {
    let mut input = IteratorStream::new(vec![1, 2].into_iter());
    assert_eq!(input.uncons(), Ok(1));
    assert_eq!(input.uncons(), Ok(2));
    assert_eq!(input.uncons(), Err(StreamError::Eoi));
}

#[test]
fn read_outcome_maps_reader_results() {
    assert_eq!(read_outcome(Some(Ok(7))), Ok(7));
    assert_eq!(
        read_outcome(Some(Err(String::from("broken pipe")))),
        Err(StreamError::Other(String::from("broken pipe")))
    );
    assert_eq!(read_outcome(None), Err(StreamError::Eoi));
}

#[test]
fn translate_position_subtracts_the_start() {
    assert_eq!(PointerOffset(5).translate_position(PointerOffset(2)), 3);
    let mut input = StrStream::new("ab");
    let start = input.position();
    uncons(&mut input);
    assert_eq!(input.position().translate_position(start), 1);
}

#[test]
fn full_range_and_range_length() {
    let mut input = StrStream::new("aé");
    assert_eq!(input.range(), "aé");
    assert_eq!(Range::len(&input.range()), 3);
    uncons(&mut input);
    assert_eq!(input.range(), "é");
    assert!(!Range::is_empty(&input.range()));
    let items = ItemStream::new(&[1u8, 2, 3][..]);
    assert_eq!(Range::len(&items.range()), 3);
    assert!(Range::is_empty(&ItemStream::new(&[0u8; 0][..]).range()));
}

#[test]
fn fast_result_flags() {
    let ok: FastResult<u8, u8> = FastResult::ConsumedOk(1);
    assert!(ok.is_ok() && ok.is_consumed());
    let empty: FastResult<u8, u8> = FastResult::EmptyErr(1);
    assert!(!empty.is_ok() && !empty.is_consumed());
    assert!(at(0, StreamError::Eoi).is_unexpected_end_of_input());
    assert!(!at(0, StreamError::Other(String::from("closed"))).is_unexpected_end_of_input());
}

#[test]
fn wide_scalars_move_the_position_by_their_encoding() {
    let mut input = StrStream::new("€😀x");
    assert_eq!(input.uncons_range(2), Err(StreamError::CharacterBoundary));
    assert_eq!(input.uncons(), Ok('€'));
    assert_eq!(input.position(), PointerOffset(3));
    assert_eq!(input.uncons_range(3), Err(StreamError::CharacterBoundary));
    assert_eq!(input.uncons_range(4), Ok("😀"));
    assert_eq!(input.position(), PointerOffset(7));
    assert_eq!(input.uncons_range(2), Err(StreamError::Eoi));
    assert_eq!(input.as_str(), "x");
}

#[test]
fn text_scans_stop_before_the_first_refused_character() {
    let mut input = StrStream::new("ééa");
    assert_eq!(input.uncons_while(|c: char| c == 'é'), Ok("éé"));
    assert_eq!(input.position(), PointerOffset(4));
    assert_eq!(input.uncons_while1(|c: char| c == 'é'), FastResult::EmptyErr(StreamError::Unexpected));
    assert_eq!(input.uncons_while1(|c: char| c == 'a'), FastResult::ConsumedOk("a"));
    assert_eq!(input.uncons(), Err(StreamError::Eoi));
}

#[test]
fn reference_slice_scans_hand_out_references() {
    let words = [String::from("x"), String::from("x"), String::from("y")];
    let mut input = SliceStream::new(&words[..]);
    assert_eq!(
        uncons_while1(&mut input, |s: &String| s.as_str() == "y"),
        FastResult::EmptyErr(at(0, StreamError::Unexpected))
    );
    assert_eq!(
        input.uncons_while1(|s: &String| s.as_str() == "x"),
        FastResult::ConsumedOk(&words[..2])
    );
    assert_eq!(input.range(), &words[2..]);
    assert_eq!(input.uncons_range(2), Err(StreamError::Eoi));
    assert_eq!(input.uncons(), Ok(&words[2]));
    assert_eq!(input.position(), PointerOffset(3));
}

#[test]
fn decode_result_maps_each_parse_outcome() {
    let done: Result<u8, ParseFailure<PointerOffset>> = Ok(9);
    assert_eq!(decode_result(done, true, 3), Ok((Some(9), 3)));
    let ended: Result<u8, _> = Err(at(4, StreamError::Eoi));
    assert_eq!(decode_result(ended, true, 4), Ok((None, 4)));
    let ended: Result<u8, _> = Err(at(4, StreamError::Eoi));
    assert_eq!(decode_result(ended, false, 4), Err(at(4, StreamError::Eoi)));
    let wrong: Result<u8, _> = Err(at(1, StreamError::Unexpected));
    assert_eq!(decode_result(wrong, true, 1), Err(at(1, StreamError::Unexpected)));
}

#[test]
fn decode_mut_leaves_the_cursor_after_the_value() {
    let mut input = PartialStream(ItemStream::new(&b"7,8,"[..]));
    let mut state = Digits::default();
    assert_eq!(
        decode_mut(DigitsThenComma, &mut input, &mut state),
        Ok((Some((b"7".to_vec(), b',')), 2))
    );
    assert_eq!(input.0.as_slice(), &b"8,"[..]);
    assert_eq!(input.position(), PointerOffset(2));
}
