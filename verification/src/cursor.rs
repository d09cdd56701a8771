//! The mathematical model of a token cursor.
//!
//! A cursor stands between a source that produces tokens one at a time and a
//! grammar that looks at them and takes them. Its whole state is two
//! sequences: the tokens it has pulled from the source and not yet handed
//! out, and the tokens the source has yet to produce. Every operation of
//! [`crate::TokenStream`] is one of two transitions on that state, a lookahead
//! ([`Cursor::peeked`]) or a consumption ([`Cursor::advanced`]), and the laws
//! at the end of this file are proved about those two transitions.
use vstd::prelude::*;

verus! {

/// The token at the front of `tokens`, or `None` where there is none.
pub open spec fn front<T>(tokens: Seq<T>) -> Option<T> {
    if tokens.len() > 0 {
        Some(tokens[0])
    } else {
        None
    }
}

/// What is left of `tokens` once `n` of them were taken from the front:
/// nothing, where `tokens` holds fewer than `n`.
pub open spec fn rest_after<T>(tokens: Seq<T>, n: nat) -> Seq<T> {
    if n <= tokens.len() {
        tokens.skip(n as int)
    } else {
        Seq::empty()
    }
}

/// The abstract state of a token cursor.
pub struct Cursor<T> {
    /// Tokens pulled from the source and not yet handed out, oldest first.
    pub pending: Seq<T>,
    /// Tokens the source has yet to produce, in the order it produces them.
    pub unpulled: Seq<T>,
}

impl<T> Cursor<T> {
    /// A cursor that has pulled nothing yet from a source holding `source`.
    pub open spec fn fresh(source: Seq<T>) -> Self {
        Cursor { pending: Seq::empty(), unpulled: source }
    }

    /// The unconsumed tokens in the order in which the cursor hands them out:
    /// the pending ones first, then what the source still holds.
    pub open spec fn tokens(self) -> Seq<T> {
        self.pending + self.unpulled
    }

    /// The token `i` places ahead of the cursor, or `None` past the end of
    /// the input.
    pub open spec fn slot(self, i: int) -> Option<T> {
        if 0 <= i < self.tokens().len() {
            Some(self.tokens()[i])
        } else {
            None
        }
    }

    /// How many tokens are pending after a lookahead of `n`: tokens are
    /// pulled only while fewer than `n` are pending and the source has more.
    pub open spec fn reach(self, n: nat) -> nat {
        if n <= self.pending.len() {
            self.pending.len()
        } else if n <= self.tokens().len() {
            n
        } else {
            self.tokens().len()
        }
    }

    /// The state after a lookahead of `n` tokens.
    pub open spec fn peeked(self, n: nat) -> Self {
        Cursor {
            pending: self.tokens().take(self.reach(n) as int),
            unpulled: self.tokens().skip(self.reach(n) as int),
        }
    }

    /// The state after `n` tokens were taken, or all of them where fewer
    /// remain. Pending tokens go first; the source is pulled only for what
    /// the pending ones do not cover.
    pub open spec fn advanced(self, n: nat) -> Self {
        if n <= self.pending.len() {
            Cursor { pending: self.pending.skip(n as int), unpulled: self.unpulled }
        } else {
            Cursor {
                pending: Seq::empty(),
                unpulled: rest_after(self.unpulled, (n - self.pending.len()) as nat),
            }
        }
    }

    /// The state after one operation.
    pub open spec fn apply(self, op: Op) -> Self {
        match op {
            Op::Peek(n) => self.peeked(n),
            Op::Advance(n) => self.advanced(n),
        }
    }

    /// The state after `steps`, performed in order.
    pub open spec fn run(self, steps: Seq<Op>) -> Self
        decreases steps.len(),
    {
        if steps.len() == 0 {
            self
        } else {
            self.run(steps.drop_last()).apply(steps.last())
        }
    }
}

/// One operation on a cursor, as far as its state is concerned.
pub enum Op {
    /// A lookahead of so many tokens.
    Peek(nat),
    /// Taking so many tokens.
    Advance(nat),
}

/// How far into an input of `total` tokens an operation on `n` tokens reaches when
/// `taken` of them are gone already.
pub open spec fn position(total: nat, taken: nat, n: nat) -> nat {
    if taken + n <= total {
        taken + n
    } else {
        total
    }
}

/// The number of tokens that `steps` have taken out of an input of `total`
/// tokens.
pub open spec fn taken(total: nat, steps: Seq<Op>) -> nat
    decreases steps.len(),
{
    if steps.len() == 0 {
        0
    } else {
        let before = taken(total, steps.drop_last());
        match steps.last() {
            Op::Peek(_) => before,
            Op::Advance(n) => position(total, before, n),
        }
    }
}

/// The number of distinct tokens of an input of `total` tokens that `steps`
/// have observed, by looking at them or by taking them: the furthest
/// position that any of them reached.
pub open spec fn observed(total: nat, steps: Seq<Op>) -> nat
    decreases steps.len(),
{
    if steps.len() == 0 {
        0
    } else {
        let seen = observed(total, steps.drop_last());
        let n = match steps.last() {
            Op::Peek(n) => n,
            Op::Advance(n) => n,
        };
        let here = position(total, taken(total, steps.drop_last()), n);
        if seen <= here {
            here
        } else {
            seen
        }
    }
}

/// A lookahead changes neither the unconsumed tokens nor their order, so it
/// shows the same token in every slot before and after.
pub proof fn lemma_peeked_keeps_tokens<T>(cursor: Cursor<T>, n: nat)
    ensures
        cursor.peeked(n).tokens() == cursor.tokens(),
        forall|i: int| cursor.peeked(n).slot(i) == cursor.slot(i),
{
    assert(cursor.peeked(n).tokens() =~= cursor.tokens());
}

/// What a lookahead has pulled stays pending: a second lookahead of no more
/// tokens finds the cursor as the first one left it.
pub proof fn lemma_peeked_again<T>(cursor: Cursor<T>, n: nat, m: nat)
    requires
        m <= n,
    ensures
        cursor.peeked(n).peeked(m) == cursor.peeked(n),
{
    let once = cursor.peeked(n);
    lemma_peeked_keeps_tokens(cursor, n);
    assert(once.reach(m) == once.pending.len());
    assert(once.peeked(m).pending =~= once.pending);
    assert(once.peeked(m).unpulled =~= once.unpulled);
}

/// Looking at tokens before taking them pulls nothing that taking them
/// would not pull: a lookahead of no more tokens than are then taken leaves
/// no trace.
pub proof fn lemma_peeked_then_advanced<T>(cursor: Cursor<T>, m: nat, n: nat)
    requires
        m <= n,
    ensures
        cursor.peeked(m).advanced(n) == cursor.advanced(n),
{
    let looked = cursor.peeked(m);
    assert(looked.advanced(n).pending =~= cursor.advanced(n).pending);
    assert(looked.advanced(n).unpulled =~= cursor.advanced(n).unpulled);
}

/// Taking `n` tokens removes the first `n` of the unconsumed tokens and
/// leaves the others in their order.
pub proof fn lemma_advanced_tokens<T>(cursor: Cursor<T>, n: nat)
    ensures
        cursor.advanced(n).tokens() == rest_after(cursor.tokens(), n),
{
    assert(cursor.advanced(n).tokens() =~= rest_after(cursor.tokens(), n));
}

/// Taking `a` tokens and then `b` is taking `a + b` at once.
pub proof fn lemma_advanced_twice<T>(cursor: Cursor<T>, a: nat, b: nat)
    ensures
        cursor.advanced(a).advanced(b) == cursor.advanced(a + b),
{
    let first = cursor.advanced(a);
    let both = cursor.advanced(a + b);
    assert(first.advanced(b).pending =~= both.pending);
    assert(first.advanced(b).unpulled =~= both.unpulled);
}

/// The token `i` places ahead once `n` tokens were taken is the one that was
/// `n + i` places ahead before.
pub proof fn lemma_advanced_slot<T>(cursor: Cursor<T>, n: nat, i: nat)
    ensures
        cursor.advanced(n).slot(i as int) == cursor.slot((n + i) as int),
{
    lemma_advanced_tokens(cursor, n);
}

/// Taking no token leaves the cursor as it is.
pub proof fn lemma_advanced_none<T>(cursor: Cursor<T>)
    ensures
        cursor.advanced(0) == cursor,
{
    assert(cursor.advanced(0).pending =~= cursor.pending);
}

/// Taking as many tokens as there are, or more, leaves nothing pending and
/// nothing in the source.
pub proof fn lemma_advanced_past_end<T>(cursor: Cursor<T>, n: nat)
    requires
        cursor.tokens().len() <= n,
    ensures
        cursor.advanced(n) == Cursor::<T>::fresh(Seq::empty()),
{
    assert(cursor.advanced(n).pending =~= Seq::empty());
    assert(cursor.advanced(n).unpulled =~= Seq::empty());
}

/// Order is kept and nothing is pulled twice or skipped. After any steps on
/// a fresh cursor over `source`, whatever lookaheads stood between the
/// takes, the unconsumed tokens are `source` without the tokens taken so
/// far, and the number of tokens pulled from the source is the number of
/// distinct tokens that the steps observed.
pub proof fn lemma_run<T>(source: Seq<T>, steps: Seq<Op>)
    ensures
        taken(source.len(), steps) <= observed(source.len(), steps) <= source.len(),
        Cursor::fresh(source).run(steps).tokens() == source.skip(
            taken(source.len(), steps) as int,
        ),
        source.len() - Cursor::fresh(source).run(steps).unpulled.len() == observed(
            source.len(),
            steps,
        ),
    decreases steps.len(),
{
    let start = Cursor::fresh(source);
    if steps.len() == 0 {
        assert(start.run(steps).tokens() =~= source.skip(0));
    } else {
        let earlier = steps.drop_last();
        lemma_run(source, earlier);
        let before = start.run(earlier);
        let after = before.apply(steps.last());
        assert(start.run(steps) == after);
        match steps.last() {
            Op::Peek(n) => {
                lemma_peeked_keeps_tokens(before, n);
            },
            Op::Advance(n) => {
                lemma_advanced_tokens(before, n);
                assert(after.tokens() =~= source.skip(taken(source.len(), steps) as int));
            },
        }
    }
}

/// Taking tokens one at a time yields the source's tokens in their original
/// order: after any steps on a fresh cursor over `source` that took `k`
/// tokens, the token at the front is `source[k]`, and there is none once
/// `k` has reached the length of `source`.
pub proof fn lemma_run_front<T>(source: Seq<T>, steps: Seq<Op>)
    ensures
        front(Cursor::fresh(source).run(steps).tokens()) == Cursor::fresh(source).slot(
            taken(source.len(), steps) as int,
        ),
{
    lemma_run(source, steps);
    assert(Cursor::fresh(source).tokens() =~= source);
}

} // verus!
