//! The node side of the parse contract.
use crate::parser::Parser;
use crate::token_stream::TokenStream;
use vstd::prelude::*;

verus! {

/// A node of an abstract syntax tree that can be read off the front of a
/// token cursor.
///
/// A node type states its grammar as the relation [`Ast::parses`], and
/// [`Ast::parse`] is held to that relation. A composite node calls the
/// `parse` of its children on the same cursor and hands their errors on
/// unchanged.
pub trait Ast<Token, Error>: Sized {
    /// The grammar of this node: whether reading one node off the front of
    /// `tokens` may end in `outcome` with `rest` left unconsumed.
    ///
    /// A grammar that never fails to decide relates each `tokens` to one
    /// outcome; on failure it is free to say how much was consumed.
    spec fn parses(tokens: Seq<Token>, outcome: Result<Self, Error>, rest: Seq<Token>) -> bool;

    /// Reads one node off the front of `token_stream`.
    ///
    /// The outcome and what is left of the input are those that the node's
    /// grammar relates to the input, and the cursor only ever moves forward:
    /// what is left is a suffix of what was there.
    fn parse<P>(token_stream: &mut TokenStream<P, Token, Error>) -> (outcome: Result<
        Self,
        Error,
    >) where P: Parser<Token, Error>
        ensures
            Self::parses(old(token_stream)@, outcome, final(token_stream)@),
            final(token_stream)@.is_suffix_of(old(token_stream)@),
    ;
}

} // verus!
