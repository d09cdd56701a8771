//! The grammar side of the parse contract, as far as the source goes.
use crate::ast::Ast;
use crate::cursor::{front, rest_after};
use crate::source::TokenSource;
use crate::token_stream::TokenStream;
use vstd::prelude::*;

verus! {

/// A token source that belongs to one grammar.
///
/// It names the root node of the grammar and decides how a literal
/// expectation is checked against a cursor.
pub trait Parser<Token, Error>: TokenSource<Token> {
    /// The root node of the grammar. [`crate::parse`] and [`parse_source`]
    /// ask that it is an [`Ast`].
    type Root;

    /// Whether `error` is what [`Parser::expect`] reports when it finds
    /// `found` at the front of the input in place of `expected`.
    spec fn mismatch(found: Option<Token>, expected: Token, error: Error) -> bool;

    /// Checks the next unconsumed token of `token_stream` against
    /// `expected`.
    ///
    /// Succeeds if and only if there is a next token and it equals
    /// `expected`, and then consumes exactly that token. Otherwise the
    /// unconsumed tokens are left as they were and the error is one that
    /// [`Parser::mismatch`] admits. Either way it looks no further than the
    /// next token: on success the cursor is as after taking one token, on
    /// failure as after a lookahead of one.
    fn expect(token_stream: &mut TokenStream<Self, Token, Error>, expected: Token) -> (outcome:
        Result<(), Error>)
        ensures
            outcome is Ok <==> front(old(token_stream)@) == Some(expected),
            outcome is Ok ==> final(token_stream)@ == rest_after(old(token_stream)@, 1),
            outcome is Ok ==> final(token_stream).model() == old(token_stream).model().advanced(1),
            outcome matches Err(error) ==> Self::mismatch(
                front(old(token_stream)@),
                expected,
                error,
            ),
            outcome is Err ==> final(token_stream)@ == old(token_stream)@,
            outcome is Err ==> final(token_stream).model() == old(token_stream).model().peeked(1),
    ;
}

/// Parses everything that `source` produces into the root node of its
/// grammar: wraps `source` in a fresh cursor and reads the root off it.
///
/// The outcome is one that the root's grammar relates to the tokens that
/// `source` held.
pub fn parse_source<P, Token, Error>(source: P) -> (outcome: Result<P::Root, Error>) where
    P: Parser<Token, Error>,
    P::Root: Ast<Token, Error>,

    ensures
        exists|rest: Seq<Token>|
            {
                &&& rest.is_suffix_of(source.remaining())
                &&& <P::Root as Ast<Token, Error>>::parses(source.remaining(), outcome, rest)
            },
{
    let mut token_stream = TokenStream::from(source);
    let outcome = <P::Root as Ast<Token, Error>>::parse(&mut token_stream);
    proof {
        let rest = token_stream@;
        assert(rest.is_suffix_of(source.remaining()) && <P::Root as Ast<Token, Error>>::parses(
            source.remaining(),
            outcome,
            rest,
        ));
    }
    outcome
}

} // verus!
