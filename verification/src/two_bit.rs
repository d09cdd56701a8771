//! A complete grammar on the framework: bits, read two at a time.
//!
//! The tokens are the bits [`Token::Zero`] and [`Token::One`]. A
//! [`Statement`] is two bits, and the [`Root`] is every statement of the
//! input in order. An input with an odd number of bits has no root.
use crate::ast::Ast;
use crate::cursor::{lemma_peeked_then_advanced, rest_after};
use crate::parser::Parser;
use crate::source::TokenSource;
use crate::token_stream::TokenStream;
use vstd::prelude::*;

verus! {

/// One bit.
#[derive(Debug, Clone, Copy, PartialEq, Eq, Structural)]
pub enum Token {
    Zero,
    One,
}

/// The one error of this grammar: the input does not go on as it should.
#[derive(Debug, Clone, Copy, PartialEq, Eq, Structural)]
pub struct Error;

/// A source that produces the bits of a list.
///
/// The bits are kept last to first, so that the next one is taken off the
/// end.
#[derive(Debug)]
pub struct MyParser {
    tokens: Vec<Token>,
}

impl Clone for MyParser {
    /// A source that has the same bits still to come.
    fn clone(&self) -> (copy: Self)
        ensures
            copy@ == self@,
    {
        Self { tokens: self.tokens.clone() }
    }
}

impl View for MyParser {
    type V = Seq<Token>;

    /// The bits still to come, the next one first.
    closed spec fn view(&self) -> Seq<Token> {
        self.tokens@.reverse()
    }
}

impl MyParser {
    /// A source that produces `tokens`, the first of them first.
    pub fn new(tokens: Vec<Token>) -> (parser: Self)
        ensures
            parser@ == tokens@,
    {
        let mut rest = tokens;
        let mut reversed: Vec<Token> = Vec::new();
        while rest.len() > 0
            invariant
                reversed@ + rest@.reverse() == tokens@.reverse(),
            decreases rest.len(),
        {
            let ghost before = rest@;
            match rest.pop() {
                Some(token) => {
                    reversed.push(token);
                    assert(before.reverse() =~= seq![token] + rest@.reverse());
                    assert(reversed@ + rest@.reverse() =~= tokens@.reverse());
                },
                None => {},
            }
        }
        assert(reversed@ =~= tokens@.reverse());
        assert(reversed@.reverse() =~= tokens@);
        Self { tokens: reversed }
    }
}

impl TokenSource<Token> for MyParser {
    open spec fn remaining(&self) -> Seq<Token> {
        self@
    }

    fn from_tokens(tokens: Vec<Token>) -> (source: Self) {
        MyParser::new(tokens)
    }

    fn next(&mut self) -> (token: Option<Token>) {
        let token = self.tokens.pop();
        proof {
            assert(self@ =~= rest_after(old(self)@, 1));
        }
        token
    }
}

impl Parser<Token, Error> for MyParser {
    type Root = Root;

    /// Every mismatch is reported as [`Error`].
    open spec fn mismatch(found: Option<Token>, expected: Token, error: Error) -> bool {
        true
    }

    fn expect(token_stream: &mut TokenStream<Self, Token, Error>, expected: Token) -> (outcome:
        Result<(), Error>) {
        let matched = match token_stream.peek() {
            Some(found) => *found == expected,
            None => false,
        };
        if matched {
            token_stream.next();
            proof {
                lemma_peeked_then_advanced(old(token_stream).model(), 1, 1);
            }
            Ok(())
        } else {
            Err(Error)
        }
    }
}

/// Two bits.
#[derive(Debug, Clone, Copy, PartialEq, Eq, Structural)]
pub enum Statement {
    ZeroZero,
    ZeroOne,
    OneZero,
    OneOne,
}

/// The statement that the bits `first` and `second` make.
pub open spec fn statement_of(first: Token, second: Token) -> Statement {
    match (first, second) {
        (Token::Zero, Token::Zero) => Statement::ZeroZero,
        (Token::Zero, Token::One) => Statement::ZeroOne,
        (Token::One, Token::Zero) => Statement::OneZero,
        (Token::One, Token::One) => Statement::OneOne,
    }
}

/// The statements that `tokens` hold: one for each full pair of bits, in
/// order.
pub open spec fn statements_of(tokens: Seq<Token>) -> Seq<Statement> {
    Seq::new(tokens.len() / 2, |i: int| statement_of(tokens[2 * i], tokens[2 * i + 1]))
}

impl Ast<Token, Error> for Statement {
    /// With two bits or more at the front, the statement is the one that the
    /// first two make, and exactly those two are consumed. With fewer, the
    /// outcome is [`Error`] and nothing is left of the input.
    open spec fn parses(tokens: Seq<Token>, outcome: Result<Self, Error>, rest: Seq<Token>) -> bool {
        if tokens.len() >= 2 {
            outcome == Ok::<Self, Error>(statement_of(tokens[0], tokens[1])) && rest
                == tokens.skip(2)
        } else {
            outcome == Err::<Self, Error>(Error) && rest.len() == 0
        }
    }

    fn parse<P>(token_stream: &mut TokenStream<P, Token, Error>) -> (outcome: Result<
        Self,
        Error,
    >) where P: Parser<Token, Error> {
        match token_stream.require_next_n(2) {
            Some(tokens) => {
                assert(token_stream@ =~= old(token_stream)@.skip(2));
                match (tokens[0], tokens[1]) {
                    (Token::Zero, Token::Zero) => Ok(Statement::ZeroZero),
                    (Token::Zero, Token::One) => Ok(Statement::ZeroOne),
                    (Token::One, Token::Zero) => Ok(Statement::OneZero),
                    (Token::One, Token::One) => Ok(Statement::OneOne),
                }
            },
            None => Err(Error),
        }
    }
}

/// The root of the grammar: the statements of the whole input, in order.
#[derive(Debug, PartialEq)]
pub struct Root(pub Vec<Statement>);

impl View for Root {
    type V = Seq<Statement>;

    open spec fn view(&self) -> Seq<Statement> {
        self.0@
    }
}

impl Ast<Token, Error> for Root {
    /// An input with an even number of bits, none included, gives the root
    /// that holds its statements. An input with an odd number gives
    /// [`Error`]. The whole input is consumed either way.
    open spec fn parses(tokens: Seq<Token>, outcome: Result<Self, Error>, rest: Seq<Token>) -> bool {
        &&& rest.len() == 0
        &&& if tokens.len() % 2 == 0 {
            outcome matches Ok(root) && root@ == statements_of(tokens)
        } else {
            outcome == Err::<Self, Error>(Error)
        }
    }

    fn parse<P>(token_stream: &mut TokenStream<P, Token, Error>) -> (outcome: Result<
        Self,
        Error,
    >) where P: Parser<Token, Error> {
        let mut statements = vec![];
        while !token_stream.is_empty()
            invariant
                token_stream@.is_suffix_of(old(token_stream)@),
                (old(token_stream)@.len() - token_stream@.len()) == 2 * statements@.len(),
                forall|i: int|
                    0 <= i < statements@.len() ==> statements@[i] == statement_of(
                        old(token_stream)@[2 * i],
                        old(token_stream)@[2 * i + 1],
                    ),
            decreases token_stream@.len(),
        {
            let ghost before = token_stream@;
            statements.push(Statement::parse(token_stream)?);
            proof {
                let start = old(token_stream)@.len() - before.len();
                assert(before[0] == old(token_stream)@[start]);
                assert(before[1] == old(token_stream)@[start + 1]);
            }
        }
        assert(statements@ =~= statements_of(old(token_stream)@));
        Ok(Root(statements))
    }
}

} // verus!
