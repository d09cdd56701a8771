//! The token cursor: buffered lookahead over a token source.
use crate::cursor::{
    front, lemma_advanced_none, lemma_advanced_past_end, lemma_advanced_slot,
    lemma_advanced_tokens, lemma_advanced_twice, rest_after, Cursor,
};
use crate::parser::Parser;
use crate::source::TokenSource;
use core::marker::PhantomData;
use core::ops::Deref;
use std::collections::VecDeque;
use vstd::prelude::*;
use vstd::std_specs::convert::FromSpecImpl;

verus! {

/// A cursor over the tokens of a source, with lookahead.
///
/// The cursor owns its source and a queue of tokens that it has pulled from
/// the source and not yet handed out. It pulls a token at the moment that
/// token is first needed, for looking at it or for taking it, and never
/// again; it hands tokens out in the order in which the source produces
/// them.
///
/// Its view is the sequence of unconsumed tokens. Its [`model`](Self::model)
/// says in addition which of them have been pulled already. Every operation
/// is, on the model, a lookahead ([`Cursor::peeked`]) or a consumption
/// ([`Cursor::advanced`]).
///
/// Lookahead of several tokens comes in two forms. [`peek_n`](Self::peek_n)
/// and [`next_n`](Self::next_n) always answer, with one slot for each
/// position asked for and `None` in the slots past the end of the input.
/// [`require_peek_n`](Self::require_peek_n) and
/// [`require_next_n`](Self::require_next_n) answer with all the tokens asked
/// for or with `None`. The consuming forms are not transactional: on a
/// shortfall the tokens that were there are consumed all the same.
pub struct TokenStream<P, Token, Error> where P: TokenSource<Token> {
    parser: P,
    peeked: VecDeque<Token>,
    error_phantom: PhantomData<Error>,
}

impl<P, Token, Error> View for TokenStream<P, Token, Error> where P: TokenSource<Token> {
    type V = Seq<Token>;

    /// The unconsumed tokens, in the order in which they will be handed out.
    open spec fn view(&self) -> Seq<Token> {
        self.pending() + self.source().remaining()
    }
}

impl<P, Token, Error> TokenStream<P, Token, Error> where P: TokenSource<Token> {
    /// The tokens pulled from the source and not yet handed out, oldest
    /// first.
    pub closed spec fn pending(&self) -> Seq<Token> {
        self.peeked@
    }

    /// The source, as the cursor has left it.
    pub closed spec fn source(&self) -> P {
        self.parser
    }

    /// The state of the cursor: the pending tokens and those still in the
    /// source.
    pub open spec fn model(&self) -> Cursor<Token> {
        Cursor { pending: self.pending(), unpulled: self.source().remaining() }
    }

    /// Looks at the next token without consuming it; `None` at the end of
    /// the input.
    pub fn peek(&mut self) -> (token: Option<&Token>)
        ensures
            final(self).model() == old(self).model().peeked(1),
            final(self)@ == old(self)@,
            token is Some <==> old(self)@.len() > 0,
            token matches Some(found) ==> *found == old(self)@[0],
    {
        let slots = self.peek_n(1);
        slots[0]
    }

    /// Looks at the next `n` tokens without consuming them.
    ///
    /// Always answers with `n` slots: slot `i` holds the token `i` places
    /// ahead, or `None` where the input ends before it.
    pub fn peek_n(&mut self, n: usize) -> (slots: Vec<Option<&Token>>)
        ensures
            final(self).model() == old(self).model().peeked(n as nat),
            final(self)@ == old(self)@,
            slots@.len() == n,
            forall|i: int| 0 <= i < n ==> (slots@[i] is Some <==> i < old(self)@.len()),
            forall|i: int| 0 <= i < n && i < old(self)@.len() ==> *slots@[i]->0 == old(self)@[i],
    {
        self.pull(n);
        let mut slots: Vec<Option<&Token>> = Vec::new();
        let mut i: usize = 0;
        while i < n
            invariant
                i <= n,
                self.model() == old(self).model().peeked(n as nat),
                self@ == old(self)@,
                slots@.len() == i,
                forall|j: int| 0 <= j < i ==> (slots@[j] is Some <==> j < self@.len()),
                forall|j: int| 0 <= j < i && j < self@.len() ==> *slots@[j]->0 == self@[j],
            decreases n - i,
        {
            if i < self.peeked.len() {
                slots.push(Some(&self.peeked[i]));
            } else {
                slots.push(None);
            }
            i += 1;
        }
        slots
    }

    /// Consumes the next `n` tokens and returns them.
    ///
    /// Always answers with `n` slots: slot `i` holds the token that was `i`
    /// places ahead, or `None` where the input ended before it. What was
    /// there is consumed.
    pub fn next_n(&mut self, n: usize) -> (slots: Vec<Option<Token>>)
        ensures
            final(self).model() == old(self).model().advanced(n as nat),
            final(self)@ == rest_after(old(self)@, n as nat),
            slots@.len() == n,
            forall|i: int| 0 <= i < n ==> slots@[i] == old(self).model().slot(i),
            forall|i: int| 0 <= i < n ==> (slots@[i] is Some <==> i < old(self)@.len()),
    {
        let mut slots = vec![];
        let mut i: usize = 0;
        proof {
            lemma_advanced_none(old(self).model());
        }
        while i < n
            invariant
                i <= n,
                self.model() == old(self).model().advanced(i as nat),
                slots@.len() == i,
                forall|j: int| 0 <= j < i ==> slots@[j] == old(self).model().slot(j),
            decreases n - i,
        {
            proof {
                lemma_advanced_slot(old(self).model(), i as nat, 0);
                lemma_advanced_twice(old(self).model(), i as nat, 1);
            }
            slots.push(self.next());
            i += 1;
        }
        proof {
            lemma_advanced_tokens(old(self).model(), n as nat);
        }
        slots
    }

    /// Looks at the next `n` tokens without consuming them, all or nothing.
    ///
    /// Answers with the `n` tokens if the input holds that many, and with
    /// `None` if it holds fewer. Nothing is consumed either way.
    pub fn require_peek_n(&mut self, n: usize) -> (tokens: Option<Vec<&Token>>)
        ensures
            final(self).model() == old(self).model().peeked(n as nat),
            final(self)@ == old(self)@,
            tokens is Some <==> n <= old(self)@.len(),
            tokens matches Some(found) ==> found@ == old(self)@.take(n as int).as_ref(),
    {
        self.pull(n);
        if self.peeked.len() < n {
            return None;
        }
        let mut found: Vec<&Token> = Vec::new();
        let mut i: usize = 0;
        while i < n
            invariant
                i <= n <= self.peeked@.len(),
                self.model() == old(self).model().peeked(n as nat),
                self@ == old(self)@,
                found@ == self@.take(i as int).as_ref(),
            decreases n - i,
        {
            found.push(&self.peeked[i]);
            i += 1;
            assert(found@ =~= self@.take(i as int).as_ref());
        }
        Some(found)
    }

    /// Consumes the next `n` tokens and returns them, all or nothing.
    ///
    /// Answers with the `n` tokens if the input holds that many, and with
    /// `None` if it holds fewer. A shortfall is found only by running into
    /// the end of the input: the tokens that were there are consumed then
    /// too, and are not given back.
    pub fn require_next_n(&mut self, n: usize) -> (tokens: Option<Vec<Token>>)
        ensures
            final(self).model() == old(self).model().advanced(n as nat),
            final(self)@ == rest_after(old(self)@, n as nat),
            tokens is Some <==> n <= old(self)@.len(),
            tokens matches Some(taken) ==> taken@ == old(self)@.take(n as int),
    {
        let mut taken = Vec::new();
        let mut i: usize = 0;
        proof {
            lemma_advanced_none(old(self).model());
            lemma_advanced_tokens(old(self).model(), n as nat);
        }
        while i < n
            invariant
                i <= n,
                i <= old(self)@.len(),
                self.model() == old(self).model().advanced(i as nat),
                taken@ == old(self)@.take(i as int),
            decreases n - i,
        {
            proof {
                lemma_advanced_slot(old(self).model(), i as nat, 0);
                lemma_advanced_twice(old(self).model(), i as nat, 1);
            }
            match self.next() {
                Some(token) => taken.push(token),
                None => {
                    proof {
                        lemma_advanced_past_end(old(self).model(), (i + 1) as nat);
                        lemma_advanced_past_end(old(self).model(), n as nat);
                    }
                    return None;
                },
            }
            i += 1;
            assert(taken@ =~= old(self)@.take(i as int));
        }
        Some(taken)
    }

    /// Whether no token is left.
    pub fn is_empty(&mut self) -> (empty: bool)
        ensures
            final(self).model() == old(self).model().peeked(1),
            final(self)@ == old(self)@,
            empty <==> old(self)@.len() == 0,
    {
        let slots = self.peek_n(1);
        slots[0].is_none()
    }

    /// Consumes the next `n` tokens, or all of them where fewer are left,
    /// and drops them.
    pub fn consume(&mut self, n: usize)
        ensures
            final(self).model() == old(self).model().advanced(n as nat),
            final(self)@ == rest_after(old(self)@, n as nat),
    {
        self.next_n(n);
    }

    /// Consumes the next token and returns it; `None` at the end of the
    /// input.
    ///
    /// A pending token goes first. The source is asked only when none is
    /// pending.
    pub fn next(&mut self) -> (token: Option<Token>)
        ensures
            final(self).model() == old(self).model().advanced(1),
            final(self)@ == rest_after(old(self)@, 1),
            token == front(old(self)@),
    {
        let token = match self.peeked.pop_front() {
            Some(v) => Some(v),
            None => self.parser.next(),
        };
        proof {
            assert(self.model().pending =~= old(self).model().advanced(1).pending);
            assert(self.model().unpulled =~= old(self).model().advanced(1).unpulled);
            lemma_advanced_tokens(old(self).model(), 1);
        }
        token
    }

    /// Pulls tokens from the source until `n` are pending or the source is
    /// exhausted.
    fn pull(&mut self, n: usize)
        ensures
            final(self).model() == old(self).model().peeked(n as nat),
            final(self)@ == old(self)@,
    {
        while self.peeked.len() < n
            invariant
                self@ == old(self)@,
                old(self).pending().len() <= self.pending().len(),
                self.pending().len() <= n || self.pending().len() == old(self).pending().len(),
            ensures
                self@ == old(self)@,
                self.pending().len() == old(self).model().reach(n as nat),
            decreases n - self.peeked.len(),
        {
            match self.parser.next() {
                Some(token) => {
                    self.peeked.push_back(token);
                    assert(self@ =~= old(self)@);
                },
                None => {
                    break ;
                },
            }
        }
        proof {
            let reach = old(self).model().reach(n as nat) as int;
            assert(self.pending() =~= self@.take(reach));
            assert(self.source().remaining() =~= self@.skip(reach));
        }
    }
}

impl<P, Token, Error> TokenStream<P, Token, Error> where P: Parser<Token, Error> {
    /// Checks the next unconsumed token against `expected`, as the source's
    /// [`Parser::expect`] decides.
    ///
    /// Succeeds if and only if there is a next token and it equals
    /// `expected`, and then consumes exactly that token. Otherwise the
    /// unconsumed tokens are left as they were, so that the next
    /// [`peek`](Self::peek) shows the token that did not match.
    pub fn expect(&mut self, expected: Token) -> (outcome: Result<(), Error>)
        ensures
            outcome is Ok <==> front(old(self)@) == Some(expected),
            outcome is Ok ==> final(self)@ == rest_after(old(self)@, 1),
            outcome is Ok ==> final(self).model() == old(self).model().advanced(1),
            outcome matches Err(error) ==> P::mismatch(front(old(self)@), expected, error),
            outcome is Err ==> final(self)@ == old(self)@,
            outcome is Err ==> final(self).model() == old(self).model().peeked(1),
    {
        P::expect(self, expected)
    }
}

impl<P, Token, Error> From<P> for TokenStream<P, Token, Error> where P: TokenSource<Token> {
    /// A cursor over `value` that has pulled nothing from it yet.
    fn from(value: P) -> (token_stream: Self)
        ensures
            token_stream.source() == value,
            token_stream.model() == Cursor::fresh(value.remaining()),
            token_stream@ == value.remaining(),
    {
        let token_stream = Self { parser: value, peeked: VecDeque::new(), error_phantom: PhantomData };
        assert(token_stream.pending() =~= Seq::empty());
        assert(token_stream@ =~= value.remaining());
        token_stream
    }
}

/// What `from` returns is stated in its own contract. No spec function can
/// name that cursor: it holds a queue, and a queue is known by its view
/// alone.
impl<P, Token, Error> FromSpecImpl<P> for TokenStream<P, Token, Error> where P: TokenSource<Token> {
    open spec fn obeys_from_spec() -> bool {
        false
    }

    open spec fn from_spec(value: P) -> Self {
        arbitrary()
    }
}

impl<P, Token, Error> Deref for TokenStream<P, Token, Error> where P: TokenSource<Token> {
    type Target = P;

    /// The source, as the cursor has left it.
    fn deref(&self) -> (source: &P)
        ensures
            *source == self.source(),
    {
        &self.parser
    }
}

} // verus!
