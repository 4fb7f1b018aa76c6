//! The downstream consumer of the token stream. Parsing proper is not part
//! of this library: a parser here only holds a read-only, ordered view of
//! the tokens handed to it; walking and printing them is its caller's
//! business.

use vstd::prelude::*;

use crate::token::Token;

verus! {

/// Holds the tokens handed over for downstream consumption.
pub struct Parser {
    /// The tokens most recently handed over, in scan order.
    pub tokens: Vec<Token>,
}

impl Parser {
    pub fn new() -> (r: Parser)
        ensures
            r.tokens@ == Seq::<Token>::empty(),
    {
        let parser = Parser { tokens: Vec::new() };
        proof {
            assert(parser.tokens@ =~= Seq::<Token>::empty());
        }
        parser
    }

    /// Takes ownership of a token stream for later consumption.
    pub fn load(&mut self, tokens: Vec<Token>)
        ensures
            final(self).tokens@ == tokens@,
    {
        self.tokens = tokens;
    }

    /// Drops any previously held tokens, for reuse across runs.
    pub fn reset(&mut self)
        ensures
            final(self).tokens@ == Seq::<Token>::empty(),
    {
        self.tokens = Vec::new();
        proof {
            assert(self.tokens@ =~= Seq::<Token>::empty());
        }
    }
}

} // verus!
