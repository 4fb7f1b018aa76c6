//! The token data model: a token is the exact source substring it was scanned
//! from (escape sequences preserved as written, never decoded) together with
//! its category.

use vstd::prelude::*;

verus! {

/// The category of a token. Exactly one category is assigned to every token
/// when it is scanned; a category is never inferred after the fact.
#[derive(Clone, Copy, Debug, PartialEq, Eq, Structural)]
pub enum TokenType {
    Bracket,
    Comment,
    Identifier,
    Keyword,
    Number,
    Operator,
    String,
}

/// A classified, literal-preserving fragment of source text.
#[derive(Debug, PartialEq, Eq)]
pub struct Token {
    /// The exact substring of the source that constitutes the token.
    pub literal: String,
    /// The category the scanner assigned to the literal.
    pub kind: TokenType,
}

/// The mathematical shape of a token: the literal as a character sequence,
/// together with its category.
#[verifier::ext_equal]
pub struct TokenView {
    pub literal: Seq<char>,
    pub kind: TokenType,
}

impl View for Token {
    type V = TokenView;

    open spec fn view(&self) -> TokenView {
        TokenView { literal: self.literal@, kind: self.kind }
    }
}

} // verus!
