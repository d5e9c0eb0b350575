//! Tokens as the syntax tree carries them.

use vstd::prelude::*;

verus! {

/// A lexical token, kept as the text it was read from.
#[derive(Debug, PartialEq, Eq)]
pub struct Token {
    pub literal: String,
}

impl View for Token {
    type V = Seq<char>;

    open spec fn view(&self) -> Seq<char> {
        self.literal@
    }
}

impl Token {
    /// The token with the given text.
    pub fn new(literal: &str) -> (token: Token)
        ensures
            token@ == literal@,
    {
        Token { literal: String::from_str(literal) }
    }

    /// The token's text.
    pub fn as_str(&self) -> (text: &str)
        ensures
            text@ == self@,
    {
        self.literal.as_str()
    }

    /// Whether the token's text is exactly `text`.
    pub fn is(&self, text: &str) -> (same: bool)
        ensures
            same == (self@ == text@),
    {
        let other = String::from_str(text);
        self.literal == other
    }
}

impl Clone for Token {
    fn clone(&self) -> (copy: Token)
        ensures
            copy == *self,
    {
        Token { literal: self.literal.clone() }
    }
}

} // verus!
