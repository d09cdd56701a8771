//! Token sources: what a cursor pulls its tokens from.
use crate::cursor::{front, rest_after};
use vstd::prelude::*;

verus! {

/// A single-pass sequence of tokens.
///
/// [`TokenSource::remaining`] is what the source has yet to produce.
/// [`TokenSource::next`] produces it one token at a time, front to back, and
/// `None` from then on.
pub trait TokenSource<Token>: Sized {
    /// The tokens that this source has yet to produce, in order.
    spec fn remaining(&self) -> Seq<Token>;

    /// A source that produces `tokens`, the first of them first.
    fn from_tokens(tokens: Vec<Token>) -> (source: Self)
        ensures
            source.remaining() == tokens@,
    ;

    /// Produces the next token, or `None` once the source is exhausted.
    fn next(&mut self) -> (token: Option<Token>)
        ensures
            token == front(old(self).remaining()),
            final(self).remaining() == rest_after(old(self).remaining(), 1),
    ;
}

} // verus!
