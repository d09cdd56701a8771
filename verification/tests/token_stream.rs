use parsey::two_bit::Error;
use parsey::two_bit::MyParser;
use parsey::two_bit::Token;
use parsey::two_bit::Token::{One, Zero};
use parsey::TokenSource;
use parsey::TokenStream;

fn stream(tokens: Vec<Token>) -> TokenStream<MyParser, Token, Error> {
    TokenStream::from(MyParser::new(tokens))
}

/// How many tokens the source behind `stream` has yet to produce.
fn left_in_source(stream: &TokenStream<MyParser, Token, Error>) -> usize {
    let source: &MyParser = stream;
    let mut copy = source.clone();
    let mut count = 0;
    while copy.next().is_some() {
        count += 1;
    }
    count
}

#[test]
fn next_reproduces_the_original_order() {
    let tokens = vec![One, Zero, Zero, One, One];
    let mut stream = stream(tokens.clone());
    let mut seen = vec![];
    while let Some(token) = stream.next() {
        seen.push(token);
    }
    assert_eq!(seen, tokens);
    assert_eq!(stream.next(), None);
}

#[test]
fn peeking_between_takes_does_not_change_the_order() {
    let tokens = vec![One, Zero, Zero, One, One, Zero];
    let mut stream = stream(tokens.clone());
    let mut seen = vec![];
    assert_eq!(stream.peek_n(3), vec![Some(&One), Some(&Zero), Some(&Zero)]);
    seen.push(stream.next().unwrap());
    assert_eq!(stream.peek(), Some(&Zero));
    assert_eq!(stream.peek_n(5), vec![Some(&Zero), Some(&Zero), Some(&One), Some(&One), Some(&Zero)]);
    seen.push(stream.next().unwrap());
    seen.push(stream.next().unwrap());
    assert_eq!(stream.require_peek_n(2), Some(vec![&One, &One]));
    assert!(!stream.is_empty());
    seen.push(stream.next().unwrap());
    assert_eq!(stream.peek_n(9).len(), 9);
    seen.push(stream.next().unwrap());
    seen.push(stream.next().unwrap());
    assert_eq!(stream.next(), None);
    assert_eq!(seen, tokens);
}

#[test]
fn peek_shows_the_next_token_and_keeps_it() {
    let mut stream = stream(vec![Zero, One]);
    assert_eq!(stream.peek(), Some(&Zero));
    assert_eq!(stream.next(), Some(Zero));
    assert_eq!(stream.peek(), Some(&One));
    assert_eq!(stream.next(), Some(One));
    assert_eq!(stream.peek(), None);
    assert_eq!(stream.next(), None);
}

#[test]
fn repeated_peek_gives_the_same_token() {
    let mut stream = stream(vec![One, Zero]);
    let first = stream.peek().copied();
    let second = stream.peek().copied();
    let third = stream.peek().copied();
    assert_eq!(first, Some(One));
    assert_eq!(second, first);
    assert_eq!(third, first);
    assert_eq!(left_in_source(&stream), 1);
}

#[test]
fn repeated_peek_at_the_end_gives_none() {
    let mut stream = stream(vec![]);
    assert_eq!(stream.peek(), None);
    assert_eq!(stream.peek(), None);
}

#[test]
fn peek_n_within_the_input_fills_every_slot() {
    let mut stream = stream(vec![One, Zero, One]);
    assert_eq!(stream.peek_n(2), vec![Some(&One), Some(&Zero)]);
    assert_eq!(stream.peek_n(3), vec![Some(&One), Some(&Zero), Some(&One)]);
    assert_eq!(stream.next(), Some(One));
}

#[test]
fn peek_n_past_the_end_pads_with_none() {
    let mut stream = stream(vec![One, Zero]);
    assert_eq!(stream.peek_n(4), vec![Some(&One), Some(&Zero), None, None]);
    assert_eq!(stream.next(), Some(One));
    assert_eq!(stream.next(), Some(Zero));
    assert_eq!(stream.next(), None);
}

#[test]
fn peek_n_of_nothing_is_empty() {
    let mut stream = stream(vec![One]);
    assert_eq!(stream.peek_n(0), Vec::<Option<&Token>>::new());
    assert_eq!(left_in_source(&stream), 1);
    assert_eq!(stream.next(), Some(One));
}

#[test]
fn peek_n_on_empty_input_is_all_none() {
    let mut stream = stream(vec![]);
    assert_eq!(stream.peek_n(2), vec![None, None]);
    assert_eq!(stream.next(), None);
}

#[test]
fn next_n_within_the_input_fills_every_slot() {
    let mut stream = stream(vec![One, Zero, One]);
    assert_eq!(stream.next_n(2), vec![Some(One), Some(Zero)]);
    assert_eq!(stream.next(), Some(One));
    assert_eq!(stream.next(), None);
}

#[test]
fn next_n_past_the_end_pads_with_none() {
    let mut stream = stream(vec![Zero, One]);
    assert_eq!(stream.next_n(4), vec![Some(Zero), Some(One), None, None]);
    assert!(stream.is_empty());
}

#[test]
fn next_n_of_nothing_is_empty() {
    let mut stream = stream(vec![Zero]);
    assert_eq!(stream.next_n(0), vec![]);
    assert_eq!(stream.next(), Some(Zero));
}

#[test]
fn next_n_takes_pending_tokens_first() {
    let mut stream = stream(vec![Zero, One, One, Zero]);
    assert_eq!(stream.peek_n(2), vec![Some(&Zero), Some(&One)]);
    assert_eq!(stream.next_n(3), vec![Some(Zero), Some(One), Some(One)]);
    assert_eq!(stream.next(), Some(Zero));
}

#[test]
fn require_peek_n_gives_all_when_there_are_enough() {
    let mut stream = stream(vec![One, Zero, Zero]);
    assert_eq!(stream.require_peek_n(2), Some(vec![&One, &Zero]));
    assert_eq!(stream.require_peek_n(3), Some(vec![&One, &Zero, &Zero]));
    assert_eq!(stream.next(), Some(One));
}

#[test]
fn require_peek_n_reports_a_shortfall_and_consumes_nothing() {
    let mut stream = stream(vec![One, Zero]);
    assert_eq!(stream.require_peek_n(3), None);
    assert_eq!(stream.next(), Some(One));
    assert_eq!(stream.next(), Some(Zero));
    assert_eq!(stream.next(), None);
}

#[test]
fn require_peek_n_of_nothing_is_some_empty() {
    let mut stream = stream(vec![]);
    assert_eq!(stream.require_peek_n(0), Some(vec![]));
    assert_eq!(stream.require_peek_n(1), None);
}

#[test]
fn require_next_n_gives_all_when_there_are_enough() {
    let mut stream = stream(vec![One, Zero, Zero]);
    assert_eq!(stream.require_next_n(2), Some(vec![One, Zero]));
    assert_eq!(stream.next(), Some(Zero));
}

#[test]
fn require_next_n_of_the_whole_input() {
    let mut stream = stream(vec![One, Zero]);
    assert_eq!(stream.require_next_n(2), Some(vec![One, Zero]));
    assert!(stream.is_empty());
}

#[test]
fn require_next_n_reports_a_shortfall_and_keeps_what_it_took() {
    let mut stream = stream(vec![One, Zero]);
    assert_eq!(stream.require_next_n(3), None);
    assert!(stream.is_empty());
    assert_eq!(stream.next(), None);
}

#[test]
fn require_next_n_of_nothing_is_some_empty() {
    let mut stream = stream(vec![One]);
    assert_eq!(stream.require_next_n(0), Some(vec![]));
    assert_eq!(stream.next(), Some(One));
}

#[test]
fn is_empty_tells_whether_a_token_is_left() {
    let mut stream = stream(vec![One]);
    assert!(!stream.is_empty());
    assert!(!stream.is_empty());
    assert_eq!(stream.next(), Some(One));
    assert!(stream.is_empty());
    assert!(stream.is_empty());
}

#[test]
fn consume_drops_tokens() {
    let mut stream = stream(vec![One, Zero, Zero, One]);
    stream.consume(0);
    assert_eq!(stream.peek(), Some(&One));
    stream.consume(3);
    assert_eq!(stream.next(), Some(One));
    assert_eq!(stream.next(), None);
}

#[test]
fn consume_past_the_end_drops_everything() {
    let mut stream = stream(vec![One, Zero]);
    stream.consume(5);
    assert!(stream.is_empty());
    assert_eq!(left_in_source(&stream), 0);
}

#[test]
fn expect_consumes_a_matching_token() {
    let mut stream = stream(vec![One, Zero]);
    assert_eq!(stream.expect(One), Ok(()));
    assert_eq!(stream.peek(), Some(&Zero));
    assert_eq!(stream.expect(Zero), Ok(()));
    assert!(stream.is_empty());
}

#[test]
fn expect_leaves_a_token_that_does_not_match() {
    let mut stream = stream(vec![One, Zero]);
    assert_eq!(stream.expect(Zero), Err(Error));
    assert_eq!(stream.peek(), Some(&One));
    assert_eq!(stream.next(), Some(One));
    assert_eq!(stream.next(), Some(Zero));
}

#[test]
fn expect_fails_at_the_end_of_the_input() {
    let mut stream = stream(vec![]);
    assert_eq!(stream.expect(Zero), Err(Error));
    assert_eq!(stream.expect(One), Err(Error));
    assert!(stream.is_empty());
}

#[test]
fn a_fresh_cursor_has_pulled_nothing() {
    let stream = stream(vec![One, Zero, One]);
    assert_eq!(left_in_source(&stream), 3);
}

#[test]
fn tokens_are_pulled_only_when_first_needed() {
    let mut stream = stream(vec![One, Zero, One, One, Zero]);
    stream.peek();
    assert_eq!(left_in_source(&stream), 4);
    stream.peek();
    assert_eq!(left_in_source(&stream), 4);
    stream.peek_n(3);
    assert_eq!(left_in_source(&stream), 2);
    stream.peek_n(2);
    assert_eq!(left_in_source(&stream), 2);
    assert_eq!(stream.next(), Some(One));
    assert_eq!(left_in_source(&stream), 2);
    assert_eq!(stream.next_n(3), vec![Some(Zero), Some(One), Some(One)]);
    assert_eq!(left_in_source(&stream), 1);
    assert!(!stream.is_empty());
    assert_eq!(left_in_source(&stream), 0);
    assert_eq!(stream.next(), Some(Zero));
    assert_eq!(stream.next(), None);
}

#[test]
fn lookahead_past_the_end_pulls_what_there_is() {
    let mut stream = stream(vec![One, Zero]);
    assert_eq!(stream.require_peek_n(5), None);
    assert_eq!(left_in_source(&stream), 0);
    assert_eq!(stream.peek_n(2), vec![Some(&One), Some(&Zero)]);
}

#[test]
fn next_without_lookahead_pulls_one_token() {
    let mut stream = stream(vec![One, Zero, Zero]);
    assert_eq!(stream.next(), Some(One));
    assert_eq!(left_in_source(&stream), 2);
}

#[test]
fn the_source_can_be_read_through_the_cursor() {
    let mut stream = stream(vec![One, Zero]);
    stream.next();
    let source: &MyParser = &stream;
    let mut copy = source.clone();
    assert_eq!(copy.next(), Some(Zero));
    assert_eq!(copy.next(), None);
}
