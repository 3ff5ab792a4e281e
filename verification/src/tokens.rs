//! The token list that a quotation builds.

use vstd::prelude::*;
use proc_macro2::{Span, TokenNode};

verus! {

/// One token tree: its kind and the span it is reported at.
#[derive(Debug)]
pub struct Token {
    pub span: Span,
    pub kind: TokenNode,
}

/// The tokens that a quotation has produced so far, in order.
#[derive(Debug)]
pub struct Tokens {
    tts: Vec<Token>,
}

impl View for Tokens {
    type V = Seq<Token>;

    closed spec fn view(&self) -> Seq<Token> {
        self.tts@
    }
}

impl Tokens {
    /// An empty token list.
    pub fn new() -> (r: Tokens)
        ensures
            r@ == Seq::<Token>::empty(),
    {
        Tokens { tts: Vec::new() }
    }

    /// Appends one token at the end.
    pub fn append(&mut self, token: Token)
        ensures
            final(self)@ == old(self)@.push(token),
    {
        self.tts.push(token);
    }

    /// Appends all of `tokens`, in order, at the end.
    pub fn append_all(&mut self, tokens: Vec<Token>)
        ensures
            final(self)@ == old(self)@ + tokens@,
    {
        let mut tokens = tokens;
        self.tts.append(&mut tokens);
    }

    /// The number of tokens.
    pub fn len(&self) -> (n: usize)
        ensures
            n == self@.len(),
    {
        self.tts.len()
    }

    /// Whether there are no tokens.
    pub fn is_empty(&self) -> (b: bool)
        ensures
            b == (self@.len() == 0),
    {
        self.tts.len() == 0
    }

    /// The token at position `i`.
    pub fn get(&self, i: usize) -> (t: &Token)
        requires
            i < self@.len(),
        ensures
            *t == self@[i as int],
    {
        &self.tts[i]
    }
}

} // verus!
