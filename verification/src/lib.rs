//! A small framework for writing parsers by recursive descent.
//!
//! A grammar author supplies a token source (a [`Parser`]) and the node types
//! of the syntax tree (each an [`Ast`]). The library supplies the
//! [`TokenStream`], a cursor with lookahead through which the nodes read the
//! source, and [`parse`], which runs the root node over a list of tokens.
//!
//! What the cursor does is stated against the model in [`cursor`]; the module
//! [`two_bit`] is a complete grammar, small enough to read in one sitting.
use vstd::prelude::*;

pub mod ast;
pub mod cursor;
pub mod parser;
pub mod source;
pub mod token_stream;
pub mod two_bit;

pub use ast::Ast;
pub use parser::parse_source;
pub use parser::Parser;
pub use source::TokenSource;
pub use token_stream::TokenStream;

verus! {

/// Parses `tokens` into the root node of the grammar of `P`.
///
/// The first token of `tokens` is the first that the root sees. The outcome
/// is one that the root's grammar relates to `tokens`: the root node, or the
/// first error met on the way.
pub fn parse<P, Token, Error>(tokens: Vec<Token>) -> (outcome: Result<P::Root, Error>) where
    P: Parser<Token, Error>,
    P::Root: Ast<Token, Error>,

    ensures
        exists|rest: Seq<Token>|
            {
                &&& rest.is_suffix_of(tokens@)
                &&& <P::Root as Ast<Token, Error>>::parses(tokens@, outcome, rest)
            },
{
    parse_source(P::from_tokens(tokens))
}

} // verus!
