//! What parsing means: the tree of a stream of tokens, stated over
//! sequences.
//!
//! The parser stands on a current token and sees one token ahead. A rule
//! begins on the first token of its phrase and ends on the last token that
//! it took, so the caller moves on by one token before the next phrase.

use vstd::prelude::*;
use crate::ast::{AstView, LiteralKindView, LoopKind, StatementsKind};
use crate::parser::localscope::ScopeView;
use crate::parser::precedence::{precedence_of, Precedence};
use crate::tokenizer::token::TokenView;
use crate::tokenizer::tokentype::TokenType;

verus! {

/// A token that was expected after the current one, and the kind that stood
/// there instead. Parsing goes on after it.
#[derive(Clone, Copy, PartialEq, Eq, Structural, Debug)]
pub struct Mismatch {
    pub expected: TokenType,
    pub found: TokenType,
}

/// Why parsing stopped.
#[derive(Clone, Copy, PartialEq, Eq, Structural, Debug)]
pub enum ParseError {
    /// No phrase begins with the current token. `curr` and `peek` are the
    /// kinds of the current token and of the one after it.
    NoPrefix { curr: TokenType, peek: TokenType },
    /// A new local was needed and the scope was full.
    TooManyLocals,
}

/// The rules for the token that a phrase begins with.
#[derive(Clone, Copy, PartialEq, Eq, Structural, Debug)]
pub enum PrefixRule {
    Number,
    If,
    While,
    For,
    Expr,
    Block,
    Operator,
    Identifier,
    Return,
}

/// The rules for a token that follows a phrase and goes on with it.
#[derive(Clone, Copy, PartialEq, Eq, Structural, Debug)]
pub enum InfixRule {
    Arith,
    Call,
}

/// The largest number of locals that a scope takes.
pub open spec fn max_locals() -> int {
    127
}

/// The rule for a phrase that begins with a token of kind `kind`.
pub open spec fn prefix_rule(kind: TokenType) -> Option<PrefixRule> {
    match kind {
        TokenType::TokenNumber => Some(PrefixRule::Number),
        TokenType::TokenIf => Some(PrefixRule::If),
        TokenType::TokenWhile => Some(PrefixRule::While),
        TokenType::TokenFor => Some(PrefixRule::For),
        TokenType::TokenLeftParen => Some(PrefixRule::Expr),
        TokenType::TokenLeftBrace => Some(PrefixRule::Block),
        TokenType::TokenMinus => Some(PrefixRule::Operator),
        TokenType::TokenPlus => Some(PrefixRule::Operator),
        TokenType::TokenStar => Some(PrefixRule::Operator),
        TokenType::TokenAddr => Some(PrefixRule::Operator),
        TokenType::TokenIdentifier => Some(PrefixRule::Identifier),
        TokenType::TokenReturn => Some(PrefixRule::Return),
        _ => None,
    }
}

/// The rule for a token of kind `kind` that follows a phrase.
pub open spec fn infix_rule(kind: TokenType) -> Option<InfixRule> {
    match kind {
        TokenType::TokenPlus
        | TokenType::TokenMinus
        | TokenType::TokenStar
        | TokenType::TokenEqual
        | TokenType::TokenLess
        | TokenType::TokenLessEqual
        | TokenType::TokenEqualEqual
        | TokenType::TokenBangEqual
        | TokenType::TokenGreater
        | TokenType::TokenGreaterEqual
        | TokenType::TokenSlash => Some(InfixRule::Arith),
        TokenType::TokenLeftParen => Some(InfixRule::Call),
        _ => None,
    }
}

/// What a parser holds: the tokens from the current one on, the scope, and
/// the mismatches noted so far.
pub struct ParseState {
    pub toks: Seq<TokenView>,
    pub scope: ScopeView,
    pub notes: Seq<Mismatch>,
}

/// What a rule gives: a tree or an error, and the state it leaves.
pub struct Parsed {
    pub res: Result<AstView, ParseError>,
    pub state: ParseState,
}

/// What one clause of a `for` gives.
pub struct ParsedClause {
    pub res: Result<Option<AstView>, ParseError>,
    pub state: ParseState,
}

/// What the clauses of a `for` give.
pub struct ParsedClauses {
    pub res: Result<(Option<AstView>, Option<AstView>, Option<AstView>), ParseError>,
    pub state: ParseState,
}

impl ParseState {
    /// The state of a parser that has read nothing of `toks` yet.
    pub open spec fn initial(toks: Seq<TokenView>) -> ParseState {
        ParseState { toks, scope: ScopeView::empty(), notes: Seq::empty() }
    }

    /// The kind of the current token; the end when there is none.
    pub open spec fn curr_kind(self) -> TokenType {
        if self.toks.len() > 0 {
            self.toks[0].kind
        } else {
            TokenType::TokenEof
        }
    }

    /// The kind of the token after the current one; the end when there is
    /// none.
    pub open spec fn peek_kind(self) -> TokenType {
        if self.toks.len() > 1 {
            self.toks[1].kind
        } else {
            TokenType::TokenEof
        }
    }

    /// The current token, if there is one.
    pub open spec fn current(self) -> Option<TokenView> {
        if self.toks.len() > 0 {
            Some(self.toks[0])
        } else {
            None
        }
    }

    /// The token after the current one, if there is one.
    pub open spec fn peeked(self) -> Option<TokenView> {
        if self.toks.len() > 1 {
            Some(self.toks[1])
        } else {
            None
        }
    }

    /// The state after moving on by one token.
    pub open spec fn next(self) -> ParseState {
        if self.toks.len() > 0 {
            ParseState { toks: self.toks.drop_first(), ..self }
        } else {
            self
        }
    }

    /// The state after moving on if the next token is of kind `kind`, and
    /// after noting the mismatch if it is not.
    pub open spec fn expect_peek(self, kind: TokenType) -> ParseState {
        if self.peek_kind() == kind {
            self.next()
        } else {
            ParseState {
                notes: self.notes.push(Mismatch { expected: kind, found: self.peek_kind() }),
                ..self
            }
        }
    }

    /// The state after a `;` that follows the current token was taken, if
    /// one follows.
    pub open spec fn skip_semicolon(self) -> ParseState {
        if self.peek_kind() == TokenType::TokenSemicolon {
            self.next()
        } else {
            self
        }
    }

    /// This state, held to the tokens of `from`: a rule never leaves more
    /// tokens than it found, so this changes nothing. It is what makes the
    /// definitions below well-founded.
    pub open spec fn within(self, from: ParseState) -> ParseState {
        if self.toks.len() <= from.toks.len() {
            self
        } else {
            ParseState { toks: from.toks, ..self }
        }
    }

    /// The error for a current token that begins no phrase.
    pub open spec fn no_prefix(self) -> Parsed {
        Parsed {
            res: Err(ParseError::NoPrefix { curr: self.curr_kind(), peek: self.peek_kind() }),
            state: self,
        }
    }

    /// The rule has `ast` and leaves this state.
    pub open spec fn done(self, ast: AstView) -> Parsed {
        Parsed { res: Ok(ast), state: self }
    }
}

impl Parsed {
    /// This result with its state held to the tokens of `from`, as
    /// [`ParseState::within`].
    pub open spec fn within(self, from: ParseState) -> Parsed {
        Parsed { state: self.state.within(from), ..self }
    }
}

impl ParsedClause {
    /// This clause with its state held to the tokens of `from`, as
    /// [`ParseState::within`].
    pub open spec fn within(self, from: ParseState) -> ParsedClause {
        ParsedClause { state: self.state.within(from), ..self }
    }
}

impl ParsedClauses {
    /// These clauses with their state held to the tokens of `from`, as
    /// [`ParseState::within`].
    pub open spec fn within(self, from: ParseState) -> ParsedClauses {
        ParsedClauses { state: self.state.within(from), ..self }
    }
}

/// A number: an integer literal with the token's text.
pub open spec fn parse_number(s: ParseState) -> Parsed {
    if s.toks.len() == 0 {
        s.no_prefix()
    } else {
        s.done(AstView::Literal { kind: LiteralKindView::Integer, val: s.toks[0].val })
    }
}

/// An identifier: a variable, with the value assigned to it where `=`
/// follows. The name gets its id from the scope, which takes it in if it
/// does not hold it yet. A `;` after an assignment is taken with it.
pub open spec fn parse_identifier(s: ParseState) -> Parsed
    decreases s.toks.len(), 0nat,
{
    if s.toks.len() == 0 {
        s.no_prefix()
    } else {
        let tok = s.toks[0];
        if !s.scope.contains(tok.val).0 && s.scope.count >= max_locals() {
            Parsed { res: Err(ParseError::TooManyLocals), state: s }
        } else {
            let id = s.scope.id_of(tok.val);
            let s0 = ParseState { scope: s.scope.add_local_if_not_exist(tok.val), ..s };
            if s0.peek_kind() == TokenType::TokenEqual {
                let r = parse(s0.next().next(), Precedence::PrecedenceAssignment);
                match r.res {
                    Err(e) => r,
                    Ok(value) => r.state.skip_semicolon().done(
                        AstView::Variable {
                            id,
                            token: tok,
                            val: tok.val,
                            assign: Some(Box::new(value)),
                        },
                    ),
                }
            } else {
                s0.done(AstView::Variable { id, token: tok, val: tok.val, assign: None })
            }
        }
    }
}

/// An expression in parentheses. A missing `)` is noted and parsing goes
/// on.
pub open spec fn parse_expr(s: ParseState) -> Parsed
    decreases s.toks.len(), 0nat,
{
    if s.toks.len() == 0 {
        s.no_prefix()
    } else {
        let r = parse(s.next(), Precedence::PrecedenceNone);
        match r.res {
            Err(e) => r,
            Ok(ast) => r.state.expect_peek(TokenType::TokenRightParen).done(ast),
        }
    }
}

/// The statements of a block up to its `}` or the end, after `done` of
/// them.
pub open spec fn block_loop(s: ParseState, done: Seq<AstView>) -> Parsed
    decreases s.toks.len(), 7nat,
{
    let kind = s.curr_kind();
    if kind == TokenType::TokenRightBrace || kind == TokenType::TokenEof {
        s.done(AstView::Statements { kind: StatementsKind::Block, asts: done })
    } else if kind == TokenType::TokenSemicolon {
        block_loop(s.next(), done)
    } else {
        let r = parse_stmt(s).within(s);
        match r.res {
            Err(e) => r,
            Ok(ast) => block_loop(r.state.next(), done.push(ast)),
        }
    }
}

/// A block: statements in braces. The rule ends on the closing brace, or at
/// the end where the brace is missing.
pub open spec fn parse_block(s: ParseState) -> Parsed
    decreases s.toks.len(), 0nat,
{
    if s.toks.len() == 0 {
        s.done(AstView::Statements { kind: StatementsKind::Block, asts: Seq::empty() })
    } else {
        block_loop(s.next(), Seq::empty())
    }
}

/// A prefix operator and its operand. A `*` becomes a dereference.
pub open spec fn parse_operator(s: ParseState) -> Parsed
    decreases s.toks.len(), 0nat,
{
    if s.toks.len() == 0 {
        s.no_prefix()
    } else {
        let tok = s.toks[0];
        let token = if tok.kind == TokenType::TokenStar {
            TokenView { kind: TokenType::TokenDeref, ..tok }
        } else {
            tok
        };
        let r = parse(s.next(), Precedence::PrecedenceUnary);
        match r.res {
            Err(e) => r,
            Ok(right) => r.state.done(
                AstView::Unary { token, operator: tok.val, right: Box::new(right) },
            ),
        }
    }
}

/// The state after the token of kind `stop` that ends a phrase was taken. An
/// assignment takes the `;` after it by itself: the parser stands on it
/// then and stays. Else the token is expected next.
pub open spec fn end_clause(s: ParseState, stop: TokenType) -> ParseState {
    if stop == TokenType::TokenSemicolon && s.curr_kind() == TokenType::TokenSemicolon {
        s
    } else {
        s.expect_peek(stop)
    }
}

/// One clause of a `for`, from the token before it to the token of kind
/// `stop` that ends it: nothing where `stop` follows at once, else an
/// expression of at least `precedence`.
pub open spec fn parse_clause(s: ParseState, stop: TokenType, precedence: Precedence) -> ParsedClause
    decreases s.toks.len(), 5nat,
{
    if s.peek_kind() == stop {
        ParsedClause { res: Ok(None), state: s.next() }
    } else {
        let r = parse(s.next(), precedence).within(s);
        match r.res {
            Ok(ast) => ParsedClause { res: Ok(Some(ast)), state: end_clause(r.state, stop) },
            Err(e) => ParsedClause { res: Err(e), state: r.state },
        }
    }
}

/// The three clauses of a `for`, from the `(` to the first token of the
/// body. A clause is there exactly when something stands between the tokens
/// that bound it.
pub open spec fn parse_for_arguments(s: ParseState) -> ParsedClauses
    decreases s.toks.len(), 6nat,
{
    let first = parse_clause(
        s,
        TokenType::TokenSemicolon,
        Precedence::PrecedenceAssignment,
    ).within(s);
    match first.res {
        Err(e) => ParsedClauses { res: Err(e), state: first.state },
        Ok(init) => {
            let second = parse_clause(
                first.state,
                TokenType::TokenSemicolon,
                Precedence::PrecedenceAssignment,
            ).within(first.state);
            match second.res {
                Err(e) => ParsedClauses { res: Err(e), state: second.state },
                Ok(cond) => {
                    let third = parse_clause(
                        second.state,
                        TokenType::TokenRightParen,
                        Precedence::PrecedenceNone,
                    );
                    match third.res {
                        Err(e) => ParsedClauses { res: Err(e), state: third.state },
                        Ok(incr) => ParsedClauses {
                            res: Ok((init, cond, incr)),
                            state: third.state.next(),
                        },
                    }
                },
            }
        },
    }
}

/// An `if`: the condition in parentheses, a statement, and after `else`
/// another statement.
pub open spec fn parse_if(s: ParseState) -> Parsed
    decreases s.toks.len(), 0nat,
{
    if s.toks.len() == 0 {
        s.no_prefix()
    } else {
        let tok = s.toks[0];
        let c = parse_expr(s.next()).within(s.next());
        match c.res {
            Err(e) => c,
            Ok(cond) => {
                let t = parse_stmt(c.state.next()).within(c.state.next());
                match t.res {
                    Err(e) => t,
                    Ok(then) => {
                        if t.state.peek_kind() == TokenType::TokenElse {
                            let a = parse_stmt(t.state.next().next());
                            match a.res {
                                Err(e) => a,
                                Ok(alt) => a.state.done(
                                    AstView::If {
                                        token: tok,
                                        cond: Box::new(cond),
                                        then: Box::new(then),
                                        alt: Some(Box::new(alt)),
                                    },
                                ),
                            }
                        } else {
                            t.state.done(
                                AstView::If {
                                    token: tok,
                                    cond: Box::new(cond),
                                    then: Box::new(then),
                                    alt: None,
                                },
                            )
                        }
                    },
                }
            },
        }
    }
}

/// A `for`: its clauses and a statement.
pub open spec fn parse_for(s: ParseState) -> Parsed
    decreases s.toks.len(), 0nat,
{
    if s.toks.len() == 0 {
        s.no_prefix()
    } else {
        let tok = s.toks[0];
        let c = parse_for_arguments(s.next()).within(s.next());
        match c.res {
            Err(e) => Parsed { res: Err(e), state: c.state },
            Ok(clauses) => {
                let t = parse_stmt(c.state);
                match t.res {
                    Err(e) => t,
                    Ok(then) => t.state.done(
                        AstView::Loop {
                            kind: LoopKind::For,
                            tok,
                            init: boxed(clauses.0),
                            cond: boxed(clauses.1),
                            incr: boxed(clauses.2),
                            then: Box::new(then),
                        },
                    ),
                }
            },
        }
    }
}

/// An optional tree as a field of a node.
pub open spec fn boxed(ast: Option<AstView>) -> Option<Box<AstView>> {
    match ast {
        Some(a) => Some(Box::new(a)),
        None => None,
    }
}

/// A `while`: the condition in parentheses and a statement.
pub open spec fn parse_while(s: ParseState) -> Parsed
    decreases s.toks.len(), 0nat,
{
    if s.toks.len() == 0 {
        s.no_prefix()
    } else {
        let tok = s.toks[0];
        let c = parse_expr(s.next()).within(s.next());
        match c.res {
            Err(e) => c,
            Ok(cond) => {
                let t = parse_stmt(c.state.next());
                match t.res {
                    Err(e) => t,
                    Ok(then) => t.state.done(
                        AstView::Loop {
                            kind: LoopKind::While,
                            tok,
                            init: None,
                            cond: Some(Box::new(cond)),
                            incr: None,
                            then: Box::new(then),
                        },
                    ),
                }
            },
        }
    }
}

/// The body of a loop that runs before it tests: a statement that begins at
/// the current token, held in a loop of the kind `DoWhile` without a
/// condition.
pub open spec fn parse_do_while(s: ParseState) -> Parsed {
    if s.toks.len() == 0 {
        s.no_prefix()
    } else {
        let t = parse_stmt(s);
        match t.res {
            Err(e) => t,
            Ok(then) => t.state.done(
                AstView::Loop {
                    kind: LoopKind::DoWhile,
                    tok: s.toks[0],
                    init: None,
                    cond: None,
                    incr: None,
                    then: Box::new(then),
                },
            ),
        }
    }
}

/// A call: a node that stands for it. The arguments are not read.
pub open spec fn parse_call_expr(s: ParseState, left: AstView) -> Parsed {
    s.done(AstView::FunctionCall)
}

/// A binary operation on `left`: the current token is the operator, and the
/// right operand takes only operators that bind tighter than it. So
/// operators of one level group to the left.
pub open spec fn parse_arith_expr(s: ParseState, left: AstView) -> Parsed
    decreases s.toks.len(), 0nat,
{
    if s.toks.len() == 0 {
        s.no_prefix()
    } else {
        let tok = s.toks[0];
        let r = parse_from(s.next(), precedence_of(tok.kind).rank() + 1);
        match r.res {
            Err(e) => r,
            Ok(right) => r.state.done(
                AstView::ArithExpr {
                    token: tok,
                    operator: tok.val,
                    left: Box::new(left),
                    right: Box::new(right),
                },
            ),
        }
    }
}

/// A `return` with its value and the `;` after it. A missing `;` is noted
/// and parsing goes on.
pub open spec fn parse_return(s: ParseState) -> Parsed
    decreases s.toks.len(), 0nat,
{
    if s.toks.len() == 0 {
        s.no_prefix()
    } else {
        let tok = s.toks[0];
        let r = parse(s.next(), Precedence::PrecedenceAssignment);
        match r.res {
            Err(e) => r,
            Ok(value) => end_clause(r.state, TokenType::TokenSemicolon).done(
                AstView::Return { token: tok, value: Some(Box::new(value)) },
            ),
        }
    }
}

/// The phrase that `rule` reads at the current token.
pub open spec fn prefix(s: ParseState, rule: PrefixRule) -> Parsed
    decreases s.toks.len(), 1nat,
{
    match rule {
        PrefixRule::Number => parse_number(s),
        PrefixRule::If => parse_if(s),
        PrefixRule::While => parse_while(s),
        PrefixRule::For => parse_for(s),
        PrefixRule::Expr => parse_expr(s),
        PrefixRule::Block => parse_block(s),
        PrefixRule::Operator => parse_operator(s),
        PrefixRule::Identifier => parse_identifier(s),
        PrefixRule::Return => parse_return(s),
    }
}

/// What `rule` makes of `left` at the current token.
pub open spec fn infix(s: ParseState, rule: InfixRule, left: AstView) -> Parsed
    decreases s.toks.len(), 1nat,
{
    match rule {
        InfixRule::Arith => parse_arith_expr(s, left),
        InfixRule::Call => parse_call_expr(s, left),
    }
}

/// The phrase `left` grown by the operators that follow it, as long as the
/// next token has an infix rule and its precedence has at least the rank
/// `floor`.
pub open spec fn infix_loop(s: ParseState, floor: int, left: AstView) -> Parsed
    decreases s.toks.len(), 2nat,
{
    if s.toks.len() < 2 {
        s.done(left)
    } else {
        match infix_rule(s.toks[1].kind) {
            None => s.done(left),
            Some(rule) => {
                if floor > precedence_of(s.toks[1].kind).rank() {
                    s.done(left)
                } else {
                    let r = infix(s.next(), rule, left).within(s.next());
                    match r.res {
                        Err(e) => r,
                        Ok(grown) => infix_loop(r.state, floor, grown),
                    }
                }
            },
        }
    }
}

/// An expression whose operators all have a precedence of at least the
/// rank `floor`: the phrase that the current token begins, grown by the
/// operators that follow.
pub open spec fn parse_from(s: ParseState, floor: int) -> Parsed
    decreases s.toks.len(), 3nat,
{
    match prefix_rule(s.curr_kind()) {
        None => s.no_prefix(),
        Some(rule) => {
            let p = prefix(s, rule).within(s);
            match p.res {
                Err(e) => p,
                Ok(left) => infix_loop(p.state, floor, left),
            }
        },
    }
}

/// An expression whose operators all bind at least as tightly as
/// `precedence`.
pub open spec fn parse(s: ParseState, precedence: Precedence) -> Parsed
    decreases s.toks.len(), 4nat,
{
    parse_from(s, precedence.rank())
}

/// An expression as a statement, with the `;` after it where there is one.
pub open spec fn parse_expr_stmt(s: ParseState) -> Parsed
    decreases s.toks.len(), 5nat,
{
    let r = parse(s, Precedence::PrecedenceAssignment);
    match r.res {
        Err(e) => r,
        Ok(ast) => r.state.skip_semicolon().done(ast),
    }
}

/// A statement.
pub open spec fn parse_stmt(s: ParseState) -> Parsed
    decreases s.toks.len(), 6nat,
{
    parse_expr_stmt(s)
}

/// The statements of a program up to the end, after `done` of them.
pub open spec fn program_loop(s: ParseState, done: Seq<AstView>) -> Parsed
    decreases s.toks.len(),
{
    if s.curr_kind() == TokenType::TokenEof {
        s.done(AstView::Statements { kind: StatementsKind::Program, asts: done })
    } else {
        let r = parse_stmt(s).within(s);
        match r.res {
            Err(e) => r,
            Ok(ast) => program_loop(r.state.next(), done.push(ast)),
        }
    }
}

/// A program: its statements, and after the last one every local of the
/// scope has its stack slot.
pub open spec fn parse_program(s: ParseState) -> Parsed {
    let r = program_loop(s, Seq::empty());
    match r.res {
        Err(e) => r,
        Ok(ast) => ParseState { scope: r.state.scope.assign_offsets(), ..r.state }.done(ast),
    }
}

/// An expression never leaves more tokens than it found.
pub proof fn lemma_parse_consumes(s: ParseState, precedence: Precedence)
    ensures
        parse(s, precedence).state.toks.len() <= s.toks.len(),
    decreases s.toks.len(), 4nat,
{
    lemma_parse_from_consumes(s, precedence.rank());
}

/// An expression never leaves more tokens than it found, whatever the rank
/// it begins at.
pub proof fn lemma_parse_from_consumes(s: ParseState, floor: int)
    ensures
        parse_from(s, floor).state.toks.len() <= s.toks.len(),
    decreases s.toks.len(), 3nat,
{
    match prefix_rule(s.curr_kind()) {
        None => {},
        Some(rule) => {
            lemma_prefix_consumes(s, rule);
            let p = prefix(s, rule);
            match p.res {
                Err(e) => {},
                Ok(left) => lemma_infix_loop_consumes(p.state, floor, left),
            }
        },
    }
}

/// The operators that follow a phrase never leave more tokens than they
/// found.
pub proof fn lemma_infix_loop_consumes(s: ParseState, floor: int, left: AstView)
    ensures
        infix_loop(s, floor, left).state.toks.len() <= s.toks.len(),
    decreases s.toks.len(), 2nat,
{
    if s.toks.len() >= 2 {
        match infix_rule(s.toks[1].kind) {
            None => {},
            Some(rule) => {
                if floor <= precedence_of(s.toks[1].kind).rank() {
                    lemma_infix_consumes(s.next(), rule, left);
                    let r = infix(s.next(), rule, left);
                    match r.res {
                        Err(e) => {},
                        Ok(grown) => lemma_infix_loop_consumes(r.state, floor, grown),
                    }
                }
            },
        }
    }
}

/// An infix rule never leaves more tokens than it found.
pub proof fn lemma_infix_consumes(s: ParseState, rule: InfixRule, left: AstView)
    ensures
        infix(s, rule, left).state.toks.len() <= s.toks.len(),
    decreases s.toks.len(), 1nat,
{
    match rule {
        InfixRule::Arith => {
            if s.toks.len() > 0 {
                lemma_parse_from_consumes(s.next(), precedence_of(s.toks[0].kind).rank() + 1);
            }
        },
        InfixRule::Call => {},
    }
}

/// A prefix rule never leaves more tokens than it found.
pub proof fn lemma_prefix_consumes(s: ParseState, rule: PrefixRule)
    ensures
        prefix(s, rule).state.toks.len() <= s.toks.len(),
    decreases s.toks.len(), 1nat,
{
    if s.toks.len() > 0 {
        match rule {
            PrefixRule::Number => {},
            PrefixRule::If => {
                lemma_parse_expr_consumes(s.next());
                let c = parse_expr(s.next());
                if c.res is Ok {
                    lemma_parse_stmt_consumes(c.state.next());
                    let t = parse_stmt(c.state.next());
                    if t.res is Ok && t.state.peek_kind() == TokenType::TokenElse {
                        lemma_parse_stmt_consumes(t.state.next().next());
                    }
                }
            },
            PrefixRule::While => {
                lemma_parse_expr_consumes(s.next());
                let c = parse_expr(s.next());
                if c.res is Ok {
                    lemma_parse_stmt_consumes(c.state.next());
                }
            },
            PrefixRule::For => {
                lemma_parse_for_arguments_consumes(s.next());
                let c = parse_for_arguments(s.next());
                if c.res is Ok {
                    lemma_parse_stmt_consumes(c.state);
                }
            },
            PrefixRule::Expr => lemma_parse_expr_consumes(s),
            PrefixRule::Block => lemma_block_loop_consumes(s.next(), Seq::empty()),
            PrefixRule::Operator => lemma_parse_consumes(s.next(), Precedence::PrecedenceUnary),
            PrefixRule::Identifier => {
                let s0 = ParseState { scope: s.scope.add_local_if_not_exist(s.toks[0].val), ..s };
                lemma_parse_consumes(s0.next().next(), Precedence::PrecedenceAssignment);
            },
            PrefixRule::Return => lemma_parse_consumes(
                s.next(),
                Precedence::PrecedenceAssignment,
            ),
        }
    }
}

/// An expression in parentheses never leaves more tokens than it found.
pub proof fn lemma_parse_expr_consumes(s: ParseState)
    ensures
        parse_expr(s).state.toks.len() <= s.toks.len(),
    decreases s.toks.len(), 0nat,
{
    if s.toks.len() > 0 {
        lemma_parse_consumes(s.next(), Precedence::PrecedenceNone);
    }
}

/// A statement never leaves more tokens than it found.
pub proof fn lemma_parse_stmt_consumes(s: ParseState)
    ensures
        parse_stmt(s).state.toks.len() <= s.toks.len(),
        parse_expr_stmt(s).state.toks.len() <= s.toks.len(),
    decreases s.toks.len(), 6nat,
{
    lemma_parse_consumes(s, Precedence::PrecedenceAssignment);
}

/// The statements of a block never leave more tokens than they found.
pub proof fn lemma_block_loop_consumes(s: ParseState, done: Seq<AstView>)
    ensures
        block_loop(s, done).state.toks.len() <= s.toks.len(),
    decreases s.toks.len(), 7nat,
{
    let kind = s.curr_kind();
    if kind == TokenType::TokenRightBrace || kind == TokenType::TokenEof {
    } else if kind == TokenType::TokenSemicolon {
        lemma_block_loop_consumes(s.next(), done);
    } else {
        lemma_parse_stmt_consumes(s);
        let r = parse_stmt(s);
        match r.res {
            Err(e) => {},
            Ok(ast) => lemma_block_loop_consumes(r.state.next(), done.push(ast)),
        }
    }
}

/// A clause of a `for` never leaves more tokens than it found.
pub proof fn lemma_parse_clause_consumes(s: ParseState, stop: TokenType, precedence: Precedence)
    ensures
        parse_clause(s, stop, precedence).state.toks.len() <= s.toks.len(),
    decreases s.toks.len(), 5nat,
{
    if s.peek_kind() != stop {
        lemma_parse_consumes(s.next(), precedence);
    }
}

/// The clauses of a `for` never leave more tokens than they found.
pub proof fn lemma_parse_for_arguments_consumes(s: ParseState)
    ensures
        parse_for_arguments(s).state.toks.len() <= s.toks.len(),
    decreases s.toks.len(), 6nat,
{
    lemma_parse_clause_consumes(s, TokenType::TokenSemicolon, Precedence::PrecedenceAssignment);
    let first = parse_clause(s, TokenType::TokenSemicolon, Precedence::PrecedenceAssignment);
    if first.res is Ok {
        lemma_parse_clause_consumes(
            first.state,
            TokenType::TokenSemicolon,
            Precedence::PrecedenceAssignment,
        );
        let second = parse_clause(
            first.state,
            TokenType::TokenSemicolon,
            Precedence::PrecedenceAssignment,
        );
        if second.res is Ok {
            lemma_parse_clause_consumes(
                second.state,
                TokenType::TokenRightParen,
                Precedence::PrecedenceNone,
            );
        }
    }
}

/// The statements of a program never leave more tokens than they found.
pub proof fn lemma_program_loop_consumes(s: ParseState, done: Seq<AstView>)
    ensures
        program_loop(s, done).state.toks.len() <= s.toks.len(),
    decreases s.toks.len(),
{
    if s.curr_kind() != TokenType::TokenEof {
        lemma_parse_stmt_consumes(s);
        let r = parse_stmt(s);
        match r.res {
            Err(e) => {},
            Ok(ast) => lemma_program_loop_consumes(r.state.next(), done.push(ast)),
        }
    }
}

/// A program never leaves more tokens than it found.
pub proof fn lemma_parse_program_consumes(s: ParseState)
    ensures
        parse_program(s).state.toks.len() <= s.toks.len(),
{
    lemma_program_loop_consumes(s, Seq::empty());
}

} // verus!
