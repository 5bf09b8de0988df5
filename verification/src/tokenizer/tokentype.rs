//! The kinds of token and the keyword table.

use vstd::prelude::*;
use crate::util::str_eq;

verus! {

#[derive(Clone, Copy, PartialEq, Eq, Structural, Hash, Debug)]
pub enum TokenType {
    // Single-character tokens.
    TokenLeftParen,
    TokenRightParen,
    TokenLeftBrace,
    TokenRightBrace,
    TokenComma,
    TokenDot,
    TokenMinus,
    TokenPlus,
    TokenSemicolon,
    TokenSlash,
    TokenStar,
    TokenAddr,
    TokenDeref,
    // One or two character tokens.
    TokenBang,
    TokenBangEqual,
    TokenEqual,
    TokenEqualEqual,
    TokenGreater,
    TokenGreaterEqual,
    TokenLess,
    TokenLessEqual,
    // Literals.
    TokenIdentifier,
    TokenString,
    TokenNumber,
    // Keywords.
    TokenElse,
    TokenFor,
    TokenFunc,
    TokenIf,
    TokenNil,
    TokenReturn,
    TokenTrue,
    TokenVar,
    TokenWhile,
    TokenInt,
    TokenError,
    TokenEof,
}

impl TokenType {
    /// The name of the kind: that of its variant.
    pub open spec fn name_text(self) -> Seq<char> {
        match self {
            TokenType::TokenLeftParen => "TokenLeftParen"@,
            TokenType::TokenRightParen => "TokenRightParen"@,
            TokenType::TokenLeftBrace => "TokenLeftBrace"@,
            TokenType::TokenRightBrace => "TokenRightBrace"@,
            TokenType::TokenComma => "TokenComma"@,
            TokenType::TokenDot => "TokenDot"@,
            TokenType::TokenMinus => "TokenMinus"@,
            TokenType::TokenPlus => "TokenPlus"@,
            TokenType::TokenSemicolon => "TokenSemicolon"@,
            TokenType::TokenSlash => "TokenSlash"@,
            TokenType::TokenStar => "TokenStar"@,
            TokenType::TokenAddr => "TokenAddr"@,
            TokenType::TokenDeref => "TokenDeref"@,
            TokenType::TokenBang => "TokenBang"@,
            TokenType::TokenBangEqual => "TokenBangEqual"@,
            TokenType::TokenEqual => "TokenEqual"@,
            TokenType::TokenEqualEqual => "TokenEqualEqual"@,
            TokenType::TokenGreater => "TokenGreater"@,
            TokenType::TokenGreaterEqual => "TokenGreaterEqual"@,
            TokenType::TokenLess => "TokenLess"@,
            TokenType::TokenLessEqual => "TokenLessEqual"@,
            TokenType::TokenIdentifier => "TokenIdentifier"@,
            TokenType::TokenString => "TokenString"@,
            TokenType::TokenNumber => "TokenNumber"@,
            TokenType::TokenElse => "TokenElse"@,
            TokenType::TokenFor => "TokenFor"@,
            TokenType::TokenFunc => "TokenFunc"@,
            TokenType::TokenIf => "TokenIf"@,
            TokenType::TokenNil => "TokenNil"@,
            TokenType::TokenReturn => "TokenReturn"@,
            TokenType::TokenTrue => "TokenTrue"@,
            TokenType::TokenVar => "TokenVar"@,
            TokenType::TokenWhile => "TokenWhile"@,
            TokenType::TokenInt => "TokenInt"@,
            TokenType::TokenError => "TokenError"@,
            TokenType::TokenEof => "TokenEof"@,
        }
    }

    /// The name of the kind.
    pub fn name(&self) -> (s: &'static str)
        ensures
            s@ == self.name_text(),
    {
        match self {
            TokenType::TokenLeftParen => "TokenLeftParen",
            TokenType::TokenRightParen => "TokenRightParen",
            TokenType::TokenLeftBrace => "TokenLeftBrace",
            TokenType::TokenRightBrace => "TokenRightBrace",
            TokenType::TokenComma => "TokenComma",
            TokenType::TokenDot => "TokenDot",
            TokenType::TokenMinus => "TokenMinus",
            TokenType::TokenPlus => "TokenPlus",
            TokenType::TokenSemicolon => "TokenSemicolon",
            TokenType::TokenSlash => "TokenSlash",
            TokenType::TokenStar => "TokenStar",
            TokenType::TokenAddr => "TokenAddr",
            TokenType::TokenDeref => "TokenDeref",
            TokenType::TokenBang => "TokenBang",
            TokenType::TokenBangEqual => "TokenBangEqual",
            TokenType::TokenEqual => "TokenEqual",
            TokenType::TokenEqualEqual => "TokenEqualEqual",
            TokenType::TokenGreater => "TokenGreater",
            TokenType::TokenGreaterEqual => "TokenGreaterEqual",
            TokenType::TokenLess => "TokenLess",
            TokenType::TokenLessEqual => "TokenLessEqual",
            TokenType::TokenIdentifier => "TokenIdentifier",
            TokenType::TokenString => "TokenString",
            TokenType::TokenNumber => "TokenNumber",
            TokenType::TokenElse => "TokenElse",
            TokenType::TokenFor => "TokenFor",
            TokenType::TokenFunc => "TokenFunc",
            TokenType::TokenIf => "TokenIf",
            TokenType::TokenNil => "TokenNil",
            TokenType::TokenReturn => "TokenReturn",
            TokenType::TokenTrue => "TokenTrue",
            TokenType::TokenVar => "TokenVar",
            TokenType::TokenWhile => "TokenWhile",
            TokenType::TokenInt => "TokenInt",
            TokenType::TokenError => "TokenError",
            TokenType::TokenEof => "TokenEof",
        }
    }

    /// Whether both are the same kind.
    pub fn is(&self, rhs: &TokenType) -> (b: bool)
        ensures
            b == (*self == *rhs),
    {
        *self == *rhs
    }
}

/// The kind of the word `word`: that of the keyword it spells, or an
/// identifier.
pub open spec fn keyword_kind(word: Seq<char>) -> TokenType {
    if word == "else"@ {
        TokenType::TokenElse
    } else if word == "if"@ {
        TokenType::TokenIf
    } else if word == "nil"@ {
        TokenType::TokenNil
    } else if word == "return"@ {
        TokenType::TokenReturn
    } else if word == "var"@ {
        TokenType::TokenVar
    } else if word == "while"@ {
        TokenType::TokenWhile
    } else if word == "for"@ {
        TokenType::TokenFor
    } else if word == "true"@ {
        TokenType::TokenTrue
    } else if word == "int"@ {
        TokenType::TokenInt
    } else {
        TokenType::TokenIdentifier
    }
}

/// Looks `token_type` up in the keyword table.
pub fn kw_type_from_str(token_type: &str) -> (kind: TokenType)
    ensures
        kind == keyword_kind(token_type@),
{
    if str_eq(token_type, "else") {
        TokenType::TokenElse
    } else if str_eq(token_type, "if") {
        TokenType::TokenIf
    } else if str_eq(token_type, "nil") {
        TokenType::TokenNil
    } else if str_eq(token_type, "return") {
        TokenType::TokenReturn
    } else if str_eq(token_type, "var") {
        TokenType::TokenVar
    } else if str_eq(token_type, "while") {
        TokenType::TokenWhile
    } else if str_eq(token_type, "for") {
        TokenType::TokenFor
    } else if str_eq(token_type, "true") {
        TokenType::TokenTrue
    } else if str_eq(token_type, "int") {
        TokenType::TokenInt
    } else {
        TokenType::TokenIdentifier
    }
}

} // verus!
