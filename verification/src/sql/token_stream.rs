//! A stream of tokens with a read position.
use vstd::prelude::*;

use crate::error::{Error, SpecError};
use crate::sql::token::{SpecToken, SpecTokenSpan, Token, TokenSpan};
use crate::sql::tokenizer::spans_view;

verus! {

pub open spec fn tokens_of(spans: Seq<SpecTokenSpan>) -> Seq<SpecToken> {
    spans.map_values(|s: SpecTokenSpan| s.token)
}

#[derive(Debug)]
pub struct TokenStream {
    tokens: Vec<TokenSpan>,
    position: usize,
}

impl TokenStream {
    /// The spans of the stream, read or not.
    pub closed spec fn spans(&self) -> Seq<SpecTokenSpan> {
        spans_view(self.tokens@)
    }

    /// The tokens of the stream, read or not.
    pub open spec fn tokens(&self) -> Seq<SpecToken> {
        tokens_of(self.spans())
    }

    /// How many tokens have been read.
    pub closed spec fn position(&self) -> int {
        self.position as int
    }

    #[verifier::type_invariant]
    pub closed spec fn inv(&self) -> bool {
        self.position <= self.tokens.len()
    }

    /// The read position never passes the end.
    pub proof fn lemma_position_in_range(&self)
        requires
            self.inv(),
        ensures
            0 <= self.position() <= self.spans().len(),
    {
    }

    pub fn new(tokens: Vec<TokenSpan>) -> (s: TokenStream)
        ensures
            s.spans() == spans_view(tokens@),
            s.position() == 0,
            s.position() <= s.spans().len(),
    {
        TokenStream { tokens, position: 0 }
    }

    /// The next span, without reading it.
    pub fn peek(&self) -> (r: Option<TokenSpan>)
        ensures
            match r {
                Some(span) => self.position() < self.spans().len() && span@ == self.spans()[self.position()],
                None => self.position() >= self.spans().len(),
            },
    {
        proof { use_type_invariant(self); }
        if self.position < self.tokens.len() {
            Some(self.tokens[self.position].duplicate())
        } else {
            None
        }
    }

    /// Reads the next span.
    pub fn next(&mut self) -> (r: Option<TokenSpan>)
        ensures
            final(self).spans() == old(self).spans(),
            final(self).position() <= final(self).spans().len(),
            match r {
                Some(span) => old(self).position() < old(self).spans().len()
                    && span@ == old(self).spans()[old(self).position()]
                    && final(self).position() == old(self).position() + 1,
                None => old(self).position() >= old(self).spans().len()
                    && final(self).position() == old(self).position(),
            },
    {
        proof { use_type_invariant(&*self); }
        if self.position < self.tokens.len() {
            let token = self.tokens[self.position].duplicate();
            self.position = self.position + 1;
            Some(token)
        } else {
            None
        }
    }

    /// Reads the next token, which must be `expect`.
    pub fn expect(&mut self, expect: Token) -> (r: Result<(), Error>)
        ensures
            final(self).spans() == old(self).spans(),
            final(self).position() <= final(self).spans().len(),
            if old(self).position() < old(self).spans().len() {
                &&& final(self).position() == old(self).position() + 1
                &&& if old(self).tokens()[old(self).position()] == expect@ {
                    r is Ok
                } else {
                    r matches Err(e) && e@ == SpecError::UnexpectedToken {
                        expected: expect@,
                        found: old(self).tokens()[old(self).position()],
                    }
                }
            } else {
                &&& final(self).position() == old(self).position()
                &&& r matches Err(e) && e@ == SpecError::NoRemainingTokens
            },
    {
        proof { use_type_invariant(&*self); }
        let span = match self.next() {
            Some(span) => span,
            None => return Err(Error::NoRemainingTokens),
        };
        if !span.token.same_as(&expect) {
            return Err(Error::UnexpectedToken { expected: expect, found: span.token });
        }
        Ok(())
    }

    /// Reads the next token.
    pub fn next_token(&mut self) -> (r: Result<Token, Error>)
        ensures
            final(self).spans() == old(self).spans(),
            final(self).position() <= final(self).spans().len(),
            match r {
                Ok(t) => old(self).position() < old(self).spans().len()
                    && t@ == old(self).tokens()[old(self).position()]
                    && final(self).position() == old(self).position() + 1,
                Err(e) => old(self).position() >= old(self).spans().len()
                    && e@ == SpecError::NoRemainingTokens
                    && final(self).position() == old(self).position(),
            },
    {
        proof { use_type_invariant(&*self); }
        match self.next() {
            Some(span) => Ok(span.token),
            None => Err(Error::NoRemainingTokens),
        }
    }

    /// The next token, without reading it.
    pub fn peek_token(&self) -> (r: Result<Token, Error>)
        ensures
            match r {
                Ok(t) => self.position() < self.spans().len() && t@ == self.tokens()[self.position()],
                Err(e) => self.position() >= self.spans().len() && e@ == SpecError::NoRemainingTokens,
            },
    {
        proof { use_type_invariant(self); }
        match self.peek() {
            Some(span) => Ok(span.token),
            None => Err(Error::NoRemainingTokens),
        }
    }

    /// Reads the next token when it is `expected`; reports whether it did.
    pub fn consume(&mut self, expected: &Token) -> (r: bool)
        ensures
            final(self).spans() == old(self).spans(),
            final(self).position() <= final(self).spans().len(),
            r == (old(self).position() < old(self).spans().len()
                && old(self).tokens()[old(self).position()] == expected@),
            final(self).position() == if r { old(self).position() + 1 } else { old(self).position() },
    {
        proof { use_type_invariant(&*self); }
        if self.position < self.tokens.len() && self.tokens[self.position].token.same_as(expected) {
            self.position = self.position + 1;
            true
        } else {
            false
        }
    }
}

} // verus!
