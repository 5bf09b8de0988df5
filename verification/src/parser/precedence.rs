//! The binding strength of the operators.

use vstd::prelude::*;
use crate::tokenizer::tokentype::TokenType;

verus! {

/// The precedence ladder, from the weakest binding to the strongest.
#[derive(Clone, Copy, PartialEq, Eq, Structural, PartialOrd, Debug)]
pub enum Precedence {
    PrecedenceNone,
    /// `=`
    PrecedenceAssignment,
    /// `==`, `!=`
    PrecedenceEquality,
    /// `<`, `>`, `<=`, `>=`
    PrecedenceComparison,
    /// `+`, `-`
    PrecedenceTerm,
    /// `*`, `/`
    PrecedenceFactor,
    /// a prefix operator
    PrecedenceUnary,
    /// a call
    PrecedenceCall,
}

impl Precedence {
    /// The rung of the ladder as a number: a higher one binds tighter.
    pub open spec fn rank(self) -> int {
        match self {
            Precedence::PrecedenceNone => 1,
            Precedence::PrecedenceAssignment => 2,
            Precedence::PrecedenceEquality => 5,
            Precedence::PrecedenceComparison => 6,
            Precedence::PrecedenceTerm => 7,
            Precedence::PrecedenceFactor => 8,
            Precedence::PrecedenceUnary => 9,
            Precedence::PrecedenceCall => 10,
        }
    }

    /// The rung of the ladder as a number.
    pub fn level(&self) -> (n: u8)
        ensures
            n == self.rank(),
    {
        match self {
            Precedence::PrecedenceNone => 1,
            Precedence::PrecedenceAssignment => 2,
            Precedence::PrecedenceEquality => 5,
            Precedence::PrecedenceComparison => 6,
            Precedence::PrecedenceTerm => 7,
            Precedence::PrecedenceFactor => 8,
            Precedence::PrecedenceUnary => 9,
            Precedence::PrecedenceCall => 10,
        }
    }
}

/// The precedence with which a token of kind `tok` binds as an infix
/// operator.
pub open spec fn precedence_of(tok: TokenType) -> Precedence {
    match tok {
        TokenType::TokenEqualEqual => Precedence::PrecedenceEquality,
        TokenType::TokenBangEqual => Precedence::PrecedenceEquality,
        TokenType::TokenEqual => Precedence::PrecedenceAssignment,
        TokenType::TokenLess => Precedence::PrecedenceComparison,
        TokenType::TokenLessEqual => Precedence::PrecedenceComparison,
        TokenType::TokenGreater => Precedence::PrecedenceComparison,
        TokenType::TokenGreaterEqual => Precedence::PrecedenceComparison,
        TokenType::TokenMinus => Precedence::PrecedenceTerm,
        TokenType::TokenPlus => Precedence::PrecedenceTerm,
        TokenType::TokenSlash => Precedence::PrecedenceFactor,
        TokenType::TokenStar => Precedence::PrecedenceFactor,
        TokenType::TokenLeftParen => Precedence::PrecedenceCall,
        _ => Precedence::PrecedenceNone,
    }
}

pub fn get_precedence(tok: &TokenType) -> (p: Precedence)
    ensures
        p == precedence_of(*tok),
{
    match tok {
        TokenType::TokenEqualEqual => Precedence::PrecedenceEquality,
        TokenType::TokenBangEqual => Precedence::PrecedenceEquality,
        TokenType::TokenEqual => Precedence::PrecedenceAssignment,
        TokenType::TokenLess => Precedence::PrecedenceComparison,
        TokenType::TokenLessEqual => Precedence::PrecedenceComparison,
        TokenType::TokenGreater => Precedence::PrecedenceComparison,
        TokenType::TokenGreaterEqual => Precedence::PrecedenceComparison,
        TokenType::TokenMinus => Precedence::PrecedenceTerm,
        TokenType::TokenPlus => Precedence::PrecedenceTerm,
        TokenType::TokenSlash => Precedence::PrecedenceFactor,
        TokenType::TokenStar => Precedence::PrecedenceFactor,
        TokenType::TokenLeftParen => Precedence::PrecedenceCall,
        _ => Precedence::PrecedenceNone,
    }
}

} // verus!
