//! The token record.

use vstd::prelude::*;
use vstd::string::StringExecFns;
use crate::tokenizer::tokentype::TokenType;
use crate::util::{digits, push_count};

verus! {

/// A token: its kind, its text, and the line and column at which the lexer
/// stood when it made it.
#[derive(Debug)]
pub struct Token {
    pub kind: TokenType,
    pub val: String,
    pub line: usize,
    pub col: usize,
}

/// What a token is, with its text as a sequence of characters.
pub struct TokenView {
    pub kind: TokenType,
    pub val: Seq<char>,
    pub line: int,
    pub col: int,
}

impl View for Token {
    type V = TokenView;

    open spec fn view(&self) -> TokenView {
        TokenView { kind: self.kind, val: self.val@, line: self.line as int, col: self.col as int }
    }
}

impl Clone for Token {
    fn clone(&self) -> (res: Self)
        ensures
            res == *self,
    {
        Token { kind: self.kind, val: self.val.clone(), line: self.line, col: self.col }
    }
}

impl TokenView {
    /// The token as a line of a listing: its place in brackets, the name of
    /// its kind, and its text.
    pub open spec fn listing(self) -> Seq<char> {
        "["@ + digits(self.line as nat) + ":"@ + digits(self.col as nat) + "] "@
            + self.kind.name_text() + " "@ + self.val
    }
}

impl Token {
    pub fn new(kind: TokenType, val: &str, line: usize, col: usize) -> (tok: Self)
        ensures
            tok@ == (TokenView { kind, val: val@, line: line as int, col: col as int }),
    {
        Self { kind, col, line, val: String::from_str(val) }
    }

    /// Whether the token is of the kind `kind`.
    pub fn is(&self, kind: TokenType) -> (b: bool)
        ensures
            b == (self.kind == kind),
    {
        self.kind == kind
    }

    /// The token as text: `[line:col] Kind text`.
    pub fn to_string(&self) -> (s: String)
        ensures
            s@ == self@.listing(),
    {
        let mut s = String::from_str("[");
        push_count(&mut s, self.line);
        s.append(":");
        push_count(&mut s, self.col);
        s.append("] ");
        s.append(self.kind.name());
        s.append(" ");
        s.append(self.val.as_str());
        s
    }

    /// Gives the token another kind; text and position stay.
    pub fn update_kind(&mut self, kind: TokenType)
        ensures
            *final(self) == (Token { kind, ..*old(self) }),
    {
        self.kind = kind
    }
}

} // verus!
