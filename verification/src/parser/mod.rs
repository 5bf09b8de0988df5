//! The parser: a Pratt parser over the lexer's tokens that builds the
//! syntax tree and gives every variable its id and its stack slot.

pub mod grammar;
pub mod localscope;
pub mod precedence;

use vstd::prelude::*;
use crate::ast::{views, Ast, AstView};
use crate::parser::grammar::{InfixRule, Mismatch, ParseError, ParseState, Parsed, PrefixRule};
use crate::parser::localscope::LocalScope;
use crate::parser::precedence::{get_precedence, Precedence};
use crate::tokenizer::lexing::{lemma_end_is_final, lemma_scan_bounds, tokens, Cursor};
use crate::tokenizer::token::{Token, TokenView};
use crate::tokenizer::tokentype::TokenType;
use crate::tokenizer::Tokenizer;

verus! {

pub struct Parser {
    pub tokenizer: Tokenizer,
    pub curr_token: Option<Token>,
    pub peek_token: Option<Token>,
    pub scope: LocalScope,
    /// The tokens that were expected and not found, in the order in which
    /// they were missed.
    pub mismatches: Vec<Mismatch>,
}

/// The token of an optional token, as a sequence of at most one.
pub open spec fn held(tok: Option<Token>) -> Seq<TokenView> {
    match tok {
        Some(t) => seq![t@],
        None => Seq::empty(),
    }
}

/// What an optional token is.
pub open spec fn token_view(tok: Option<Token>) -> Option<TokenView> {
    match tok {
        Some(t) => Some(t@),
        None => None,
    }
}

/// How many stored locals beyond the live ones a parser's scope may hold, so
/// that every local can get its stack slot.
pub open spec fn spare_locals() -> int {
    268_435_326
}

/// The result `r` and the state `after` are what the rule gave.
pub open spec fn agrees(r: Result<Ast, ParseError>, after: ParseState, rule: Parsed) -> bool {
    &&& after == rule.state
    &&& match r {
        Ok(ast) => rule.res == Ok::<AstView, ParseError>(ast@),
        Err(e) => rule.res == Err::<AstView, ParseError>(e),
    }
}

impl View for Parser {
    type V = ParseState;

    closed spec fn view(&self) -> ParseState {
        ParseState {
            toks: held(self.curr_token) + held(self.peek_token) + self.tokenizer.remaining(),
            scope: self.scope@,
            notes: self.mismatches@,
        }
    }
}

impl Parser {
    /// The parser holds its two tokens in order: no token is held after a
    /// missing one, and the scope has room for the slots of its locals.
    pub closed spec fn wf(&self) -> bool {
        &&& self.tokenizer.wf()
        &&& (self.curr_token is None ==> self.peek_token is None)
        &&& (self.peek_token is None ==> self.tokenizer.remaining().len() == 0)
        &&& self.scope@.wf()
        &&& self.scope@.locals.len() - self.scope@.count <= spare_locals()
    }

    /// The scope of a parser in good order is in good order, and small
    /// enough for the frame size to be rounded up.
    pub proof fn lemma_wf_scope(&self)
        requires
            self.wf(),
        ensures
            self.scope@.wf(),
            self.scope@.locals.len() * 8 <= i32::MAX - 16,
    {
    }

    /// The scope and the mismatches of the view are those of the fields.
    pub proof fn lemma_view_fields(&self)
        ensures
            self@.scope == self.scope@,
            self@.notes == self.mismatches@,
    {
    }

    /// The two tokens that a parser in good order holds are the first two
    /// of its view.
    pub proof fn lemma_view_tokens(&self)
        requires
            self.wf(),
        ensures
            token_view(self.curr_token) == self@.current(),
            token_view(self.peek_token) == self@.peeked(),
    {
    }

    pub fn new(input: &str) -> (p: Self)
        ensures
            p.wf(),
            p@ == ParseState::initial(tokens(input@, Cursor::origin())),
    {
        let mut tokenizer = Tokenizer::new(input);
        proof {
            tokenizer.lemma_wf_bounds();
            lemma_scan_bounds(tokenizer.text(), tokenizer.cursor());
        }
        let ghost c0 = tokenizer.cursor();
        let first = tokenizer.next();
        proof {
            tokenizer.lemma_wf_bounds();
            lemma_scan_bounds(tokenizer.text(), tokenizer.cursor());
            if first is None {
                lemma_end_is_final(tokenizer.text(), c0);
            }
        }
        let ghost c1 = tokenizer.cursor();
        let second = tokenizer.next();
        proof {
            if second is None {
                lemma_end_is_final(tokenizer.text(), c1);
            }
        }
        let p = Parser {
            tokenizer,
            curr_token: first,
            peek_token: second,
            scope: LocalScope::new(),
            mismatches: Vec::new(),
        };
        proof {
            let text = input@;
            assert(tokens(text, c0) =~= held(first) + tokens(text, c1));
            assert(tokens(text, c1) =~= held(second) + tokens(text, p.tokenizer.cursor()));
            assert(p@.toks =~= tokens(text, c0));
            assert(p@.scope.locals =~= Seq::empty());
        }
        p
    }

    /// The rule for a phrase that begins with a token of kind `kind`.
    pub fn get_prefix(kind: &TokenType) -> (rule: Option<PrefixRule>)
        ensures
            rule == grammar::prefix_rule(*kind),
    {
        match kind {
            TokenType::TokenNumber => Some(PrefixRule::Number),
            TokenType::TokenIf => Some(PrefixRule::If),
            TokenType::TokenWhile => Some(PrefixRule::While),
            TokenType::TokenFor => Some(PrefixRule::For),
            TokenType::TokenLeftParen => Some(PrefixRule::Expr),
            TokenType::TokenLeftBrace => Some(PrefixRule::Block),
            TokenType::TokenMinus => Some(PrefixRule::Operator),
            TokenType::TokenPlus => Some(PrefixRule::Operator),
            TokenType::TokenStar => Some(PrefixRule::Operator),
            TokenType::TokenAddr => Some(PrefixRule::Operator),
            TokenType::TokenIdentifier => Some(PrefixRule::Identifier),
            TokenType::TokenReturn => Some(PrefixRule::Return),
            _ => None,
        }
    }

    /// The rule for a token of kind `kind` that follows a phrase.
    pub fn get_infix(kind: &TokenType) -> (rule: Option<InfixRule>)
        ensures
            rule == grammar::infix_rule(*kind),
    {
        match kind {
            TokenType::TokenPlus => Some(InfixRule::Arith),
            TokenType::TokenMinus => Some(InfixRule::Arith),
            TokenType::TokenStar => Some(InfixRule::Arith),
            TokenType::TokenEqual => Some(InfixRule::Arith),
            TokenType::TokenLess => Some(InfixRule::Arith),
            TokenType::TokenLessEqual => Some(InfixRule::Arith),
            TokenType::TokenEqualEqual => Some(InfixRule::Arith),
            TokenType::TokenBangEqual => Some(InfixRule::Arith),
            TokenType::TokenGreater => Some(InfixRule::Arith),
            TokenType::TokenGreaterEqual => Some(InfixRule::Arith),
            TokenType::TokenSlash => Some(InfixRule::Arith),
            TokenType::TokenLeftParen => Some(InfixRule::Call),
            _ => None,
        }
    }

    fn next_token(&mut self)
        requires
            old(self).wf(),
        ensures
            final(self).wf(),
            final(self)@ == old(self)@.next(),
    {
        proof {
            self.tokenizer.lemma_wf_bounds();
            lemma_scan_bounds(self.tokenizer.text(), self.tokenizer.cursor());
        }
        let ghost c = self.tokenizer.cursor();
        self.curr_token = match &self.peek_token {
            Some(tok) => Some(tok.clone()),
            None => None,
        };
        self.peek_token = self.tokenizer.next();
        proof {
            if self.peek_token is None {
                lemma_end_is_final(self.tokenizer.text(), c);
            }
            assert(final(self)@.toks =~= old(self)@.next().toks);
        }
    }

    fn curr_token_type(&self) -> (kind: TokenType)
        requires
            self.wf(),
        ensures
            kind == self@.curr_kind(),
    {
        match &self.curr_token {
            None => TokenType::TokenEof,
            Some(tok) => tok.kind,
        }
    }

    fn peek_token_type(&self) -> (kind: TokenType)
        requires
            self.wf(),
        ensures
            kind == self@.peek_kind(),
    {
        match &self.peek_token {
            None => TokenType::TokenEof,
            Some(tok) => tok.kind,
        }
    }

    /// A copy of the current token.
    fn current(&self) -> (tok: Token)
        requires
            self.wf(),
            self@.toks.len() > 0,
        ensures
            tok@ == self@.toks[0],
    {
        match &self.curr_token {
            Some(tok) => tok.clone(),
            None => {
                proof {
                    assert(false);
                }
                Token::new(TokenType::TokenEof, "", 0, 0)
            },
        }
    }

    fn expect_peek(&mut self, tok_type: &TokenType) -> (b: bool)
        requires
            old(self).wf(),
        ensures
            final(self).wf(),
            final(self)@ == old(self)@.expect_peek(*tok_type),
            b == (old(self)@.peek_kind() == *tok_type),
    {
        let found = self.peek_token_type();
        if found.is(tok_type) {
            self.next_token();
            return true;
        }
        self.mismatches.push(Mismatch { expected: *tok_type, found });

        false
    }

    /// Moves past a `;` that follows the current token.
    fn skip_semicolon(&mut self)
        requires
            old(self).wf(),
        ensures
            final(self).wf(),
            final(self)@ == old(self)@.skip_semicolon(),
    {
        if self.peek_token_type().is(&TokenType::TokenSemicolon) {
            self.next_token();
        }
    }

    pub fn parse_number(&mut self) -> (r: Result<Ast, ParseError>)
        requires
            old(self).wf(),
            old(self)@.toks.len() > 0,
        ensures
            final(self).wf(),
            agrees(r, final(self)@, grammar::parse_number(old(self)@)),
            final(self)@.toks.len() <= old(self)@.toks.len(),
    {
        Ok(Ast::new_literal(self.current().val))
    }

    pub fn parse_identifier(&mut self) -> (r: Result<Ast, ParseError>)
        requires
            old(self).wf(),
            old(self)@.toks.len() > 0,
        ensures
            final(self).wf(),
            agrees(r, final(self)@, grammar::parse_identifier(old(self)@)),
            final(self)@.toks.len() <= old(self)@.toks.len(),
        decreases old(self)@.toks.len(), 0nat,
    {
        let tok: Token = self.current();
        let val: String = tok.val.clone();

        let (exist, _) = self.scope.contains(val.as_str());
        if !exist && self.scope.local_count >= i8::MAX {
            return Err(ParseError::TooManyLocals);
        }
        let id: i8 = self.scope.add_local_if_not_exist(val.as_str());

        if self.peek_token_type().is(&TokenType::TokenEqual) {
            self.next_token();
            self.next_token();

            let assign: Ast = match self.parse(Precedence::PrecedenceAssignment) {
                Ok(ast) => ast,
                Err(e) => {
                    return Err(e);
                },
            };
            self.skip_semicolon();

            Ok(Ast::new_variable_assign(id, tok, val, assign))
        } else {
            Ok(Ast::new_variable(id, tok, val))
        }
    }

    pub fn parse_expr(&mut self) -> (r: Result<Ast, ParseError>)
        requires
            old(self).wf(),
        ensures
            final(self).wf(),
            agrees(r, final(self)@, grammar::parse_expr(old(self)@)),
            final(self)@.toks.len() <= old(self)@.toks.len(),
        decreases old(self)@.toks.len(), 0nat,
    {
        if self.curr_token.is_none() {
            return Err(
                ParseError::NoPrefix { curr: TokenType::TokenEof, peek: TokenType::TokenEof },
            );
        }
        self.next_token();  // consume left parenthesis

        let ast: Ast = match self.parse(Precedence::PrecedenceNone) {
            Ok(ast) => ast,
            Err(e) => {
                return Err(e);
            },
        };
        self.expect_peek(&TokenType::TokenRightParen);

        return Ok(ast);
    }

    pub fn parse_block(&mut self) -> (r: Result<Ast, ParseError>)
        requires
            old(self).wf(),
        ensures
            final(self).wf(),
            agrees(r, final(self)@, grammar::parse_block(old(self)@)),
            final(self)@.toks.len() <= old(self)@.toks.len(),
        decreases old(self)@.toks.len(), 0nat,
    {
        let ghost goal = grammar::parse_block(self@);
        self.next_token();
        let mut stmts: Vec<Ast> = Vec::new();
        assert(views(stmts@) =~= Seq::empty());

        while !self.curr_token_type().is(&TokenType::TokenRightBrace)
            && !self.curr_token_type().is(&TokenType::TokenEof)
            invariant
                self.wf(),
                goal == grammar::parse_block(old(self)@),
                goal == grammar::block_loop(self@, views(stmts@)),
                self@.toks.len() < old(self)@.toks.len() || self@.toks.len() == 0,
                self@.toks.len() <= old(self)@.toks.len(),
            decreases self@.toks.len(),
        {
            if self.curr_token_type().is(&TokenType::TokenSemicolon) {
                self.next_token();
            } else {
                let ast: Ast = match self.parse_stmt() {
                    Ok(ast) => ast,
                    Err(e) => {
                        return Err(e);
                    },
                };
                assert(views(stmts@).push(ast@) =~= views(stmts@.push(ast)));
                stmts.push(ast);

                self.next_token();
            }
        }

        Ok(Ast::new_block(stmts))
    }

    pub fn parse_operator(&mut self) -> (r: Result<Ast, ParseError>)
        requires
            old(self).wf(),
            old(self)@.toks.len() > 0,
        ensures
            final(self).wf(),
            agrees(r, final(self)@, grammar::parse_operator(old(self)@)),
            final(self)@.toks.len() <= old(self)@.toks.len(),
        decreases old(self)@.toks.len(), 0nat,
    {
        let mut token: Token = self.current();
        let tok_val: String = token.val.clone();

        let token: Token = match token.kind {
            TokenType::TokenStar => {
                token.update_kind(TokenType::TokenDeref);
                token
            },
            _ => token,
        };

        self.next_token();

        let right: Ast = match self.parse(Precedence::PrecedenceUnary) {
            Ok(ast) => ast,
            Err(e) => {
                return Err(e);
            },
        };
        Ok(Ast::new_unary(token, tok_val, right))
    }

    /// Takes the token of kind `stop` that ends a phrase, unless the phrase
    /// took its `;` by itself.
    fn end_clause(&mut self, stop: &TokenType)
        requires
            old(self).wf(),
        ensures
            final(self).wf(),
            final(self)@ == grammar::end_clause(old(self)@, *stop),
            final(self)@.toks.len() <= old(self)@.toks.len(),
    {
        if stop.is(&TokenType::TokenSemicolon) && self.curr_token_type().is(
            &TokenType::TokenSemicolon,
        ) {
        } else {
            self.expect_peek(stop);
        }
    }

    /// One clause of a `for`: nothing where a token of kind `stop` follows,
    /// else an expression of at least `precedence`, and the token that ends
    /// it.
    fn parse_clause(&mut self, stop: &TokenType, precedence: Precedence) -> (r: Result<
        Option<Ast>,
        ParseError,
    >)
        requires
            old(self).wf(),
        ensures
            final(self).wf(),
            final(self)@ == grammar::parse_clause(old(self)@, *stop, precedence).state,
            match r {
                Ok(ast) => grammar::parse_clause(old(self)@, *stop, precedence).res == Ok::<
                    Option<AstView>,
                    ParseError,
                >(clause_view(ast)),
                Err(e) => grammar::parse_clause(old(self)@, *stop, precedence).res == Err::<
                    Option<AstView>,
                    ParseError,
                >(e),
            },
            final(self)@.toks.len() <= old(self)@.toks.len(),
        decreases old(self)@.toks.len(), 5nat,
    {
        if !self.peek_token_type().is(stop) {
            self.next_token();
            match self.parse(precedence) {
                Ok(ast) => {
                    self.end_clause(stop);
                    Ok(Some(ast))
                },
                Err(e) => Err(e),
            }
        } else {
            self.next_token();
            Ok(None)
        }
    }

    /// Parses the three clauses of a `for`, from the `(` to the first token
    /// of the body.
    pub fn parse_for_arguments(&mut self) -> (r: Result<
        (Option<Ast>, Option<Ast>, Option<Ast>),
        ParseError,
    >)
        requires
            old(self).wf(),
        ensures
            final(self).wf(),
            final(self)@ == grammar::parse_for_arguments(old(self)@).state,
            match r {
                Ok(c) => grammar::parse_for_arguments(old(self)@).res == Ok::<
                    (Option<AstView>, Option<AstView>, Option<AstView>),
                    ParseError,
                >((clause_view(c.0), clause_view(c.1), clause_view(c.2))),
                Err(e) => grammar::parse_for_arguments(old(self)@).res == Err::<
                    (Option<AstView>, Option<AstView>, Option<AstView>),
                    ParseError,
                >(e),
            },
            final(self)@.toks.len() <= old(self)@.toks.len(),
        decreases old(self)@.toks.len(), 6nat,
    {
        let init: Option<Ast> = match self.parse_clause(
            &TokenType::TokenSemicolon,
            Precedence::PrecedenceAssignment,
        ) {
            Ok(c) => c,
            Err(e) => {
                return Err(e);
            },
        };

        let cond: Option<Ast> = match self.parse_clause(
            &TokenType::TokenSemicolon,
            Precedence::PrecedenceAssignment,
        ) {
            Ok(c) => c,
            Err(e) => {
                return Err(e);
            },
        };

        let incr: Option<Ast> = match self.parse_clause(
            &TokenType::TokenRightParen,
            Precedence::PrecedenceNone,
        ) {
            Ok(c) => c,
            Err(e) => {
                return Err(e);
            },
        };
        self.next_token();  // consume right parenthesis

        Ok((init, cond, incr))
    }

    pub fn parse_if(&mut self) -> (r: Result<Ast, ParseError>)
        requires
            old(self).wf(),
            old(self)@.toks.len() > 0,
        ensures
            final(self).wf(),
            agrees(r, final(self)@, grammar::parse_if(old(self)@)),
            final(self)@.toks.len() <= old(self)@.toks.len(),
        decreases old(self)@.toks.len(), 0nat,
    {
        let tok: Token = self.current();
        self.next_token();

        let cond: Ast = match self.parse_expr() {
            Ok(ast) => ast,
            Err(e) => {
                return Err(e);
            },
        };
        self.next_token();

        let then: Ast = match self.parse_stmt() {
            Ok(ast) => ast,
            Err(e) => {
                return Err(e);
            },
        };

        let alt: Option<Ast> = if self.peek_token_type().is(&TokenType::TokenElse) {
            self.next_token();
            self.next_token();
            match self.parse_stmt() {
                Ok(ast) => Some(ast),
                Err(e) => {
                    return Err(e);
                },
            }
        } else {
            None
        };

        Ok(Ast::new_if(tok, cond, then, alt))
    }

    pub fn parse_for(&mut self) -> (r: Result<Ast, ParseError>)
        requires
            old(self).wf(),
            old(self)@.toks.len() > 0,
        ensures
            final(self).wf(),
            agrees(r, final(self)@, grammar::parse_for(old(self)@)),
            final(self)@.toks.len() <= old(self)@.toks.len(),
        decreases old(self)@.toks.len(), 0nat,
    {
        let tok: Token = self.current();
        self.next_token();

        let (init, cond, incr) = match self.parse_for_arguments() {
            Ok(clauses) => clauses,
            Err(e) => {
                return Err(e);
            },
        };

        let then = match self.parse_stmt() {
            Ok(ast) => ast,
            Err(e) => {
                return Err(e);
            },
        };

        Ok(Ast::new_for(tok, init, cond, incr, then))
    }

    pub fn parse_while(&mut self) -> (r: Result<Ast, ParseError>)
        requires
            old(self).wf(),
            old(self)@.toks.len() > 0,
        ensures
            final(self).wf(),
            agrees(r, final(self)@, grammar::parse_while(old(self)@)),
            final(self)@.toks.len() <= old(self)@.toks.len(),
        decreases old(self)@.toks.len(), 0nat,
    {
        let tok: Token = self.current();
        self.next_token();

        let cond = match self.parse_expr() {
            Ok(ast) => ast,
            Err(e) => {
                return Err(e);
            },
        };

        self.next_token();  // consume right parenthesis

        let then: Ast = match self.parse_stmt() {
            Ok(ast) => ast,
            Err(e) => {
                return Err(e);
            },
        };

        Ok(Ast::new_while(tok, Some(cond), then))
    }

    pub fn parse_do_while(&mut self) -> (r: Result<Ast, ParseError>)
        requires
            old(self).wf(),
            old(self)@.toks.len() > 0,
        ensures
            final(self).wf(),
            agrees(r, final(self)@, grammar::parse_do_while(old(self)@)),
            final(self)@.toks.len() <= old(self)@.toks.len(),
        decreases old(self)@.toks.len(), 7nat,
    {
        let tok: Token = self.current();
        let then: Ast = match self.parse_stmt() {
            Ok(ast) => ast,
            Err(e) => {
                return Err(e);
            },
        };
        Ok(Ast::new_do_while(tok, then))
    }

    pub fn parse_call_expr(&mut self, left: Ast) -> (r: Result<Ast, ParseError>)
        requires
            old(self).wf(),
        ensures
            final(self).wf(),
            agrees(r, final(self)@, grammar::parse_call_expr(old(self)@, left@)),
            final(self)@.toks.len() <= old(self)@.toks.len(),
    {
        Ok(Ast::new_func_call())
    }

    pub fn parse_arith_expr(&mut self, left: Ast) -> (r: Result<Ast, ParseError>)
        requires
            old(self).wf(),
            old(self)@.toks.len() > 0,
        ensures
            final(self).wf(),
            agrees(r, final(self)@, grammar::parse_arith_expr(old(self)@, left@)),
            final(self)@.toks.len() <= old(self)@.toks.len(),
        decreases old(self)@.toks.len(), 0nat,
    {
        let tok: Token = self.current();
        let operator: String = tok.val.clone();

        let precedence = get_precedence(&tok.kind);

        self.next_token();

        let right: Ast = match self.parse_from(precedence.level() + 1) {
            Ok(ast) => ast,
            Err(e) => {
                return Err(e);
            },
        };

        Ok(Ast::new_arith_exp(tok, operator, left, right))
    }

    /// Parses the whole program and gives every local its stack slot.
    pub fn parse_program(&mut self) -> (r: Result<Ast, ParseError>)
        requires
            old(self).wf(),
        ensures
            final(self).wf(),
            agrees(r, final(self)@, grammar::parse_program(old(self)@)),
            final(self)@.toks.len() <= old(self)@.toks.len(),
    {
        let ghost goal = grammar::program_loop(self@, Seq::empty());
        let mut stmts: Vec<Ast> = Vec::new();
        assert(views(stmts@) =~= Seq::empty());
        while !self.curr_token_type().is(&TokenType::TokenEof)
            invariant
                self.wf(),
                goal == grammar::program_loop(old(self)@, Seq::empty()),
                goal == grammar::program_loop(self@, views(stmts@)),
                self@.toks.len() <= old(self)@.toks.len(),
            decreases self@.toks.len(),
        {
            let stmt: Ast = match self.parse_stmt() {
                Ok(ast) => ast,
                Err(e) => {
                    return Err(e);
                },
            };
            assert(views(stmts@).push(stmt@) =~= views(stmts@.push(stmt)));
            stmts.push(stmt);

            self.next_token();
        }

        // assign asm stack offset
        self.scope.assign_offsets();

        Ok(Ast::new_program(stmts))
    }

    pub fn parse_stmt(&mut self) -> (r: Result<Ast, ParseError>)
        requires
            old(self).wf(),
        ensures
            final(self).wf(),
            agrees(r, final(self)@, grammar::parse_stmt(old(self)@)),
            final(self)@.toks.len() <= old(self)@.toks.len(),
        decreases old(self)@.toks.len(), 6nat,
    {
        self.parse_expr_stmt()
    }

    pub fn parse_expr_stmt(&mut self) -> (r: Result<Ast, ParseError>)
        requires
            old(self).wf(),
        ensures
            final(self).wf(),
            agrees(r, final(self)@, grammar::parse_expr_stmt(old(self)@)),
            final(self)@.toks.len() <= old(self)@.toks.len(),
        decreases old(self)@.toks.len(), 5nat,
    {
        let ast: Ast = match self.parse(Precedence::PrecedenceAssignment) {
            Ok(ast) => ast,
            Err(e) => {
                return Err(e);
            },
        };
        self.skip_semicolon();

        Ok(ast)
    }

    pub fn parse_return(&mut self) -> (r: Result<Ast, ParseError>)
        requires
            old(self).wf(),
            old(self)@.toks.len() > 0,
        ensures
            final(self).wf(),
            agrees(r, final(self)@, grammar::parse_return(old(self)@)),
            final(self)@.toks.len() <= old(self)@.toks.len(),
        decreases old(self)@.toks.len(), 0nat,
    {
        let tok: Token = self.current();

        self.next_token();

        let value: Ast = match self.parse(Precedence::PrecedenceAssignment) {
            Ok(ast) => ast,
            Err(e) => {
                return Err(e);
            },
        };

        self.end_clause(&TokenType::TokenSemicolon);

        Ok(Ast::new_return(tok, value))
    }

    /// Parses an expression whose operators all bind at least as tightly as
    /// `precedence`.
    pub fn parse(&mut self, precedence: Precedence) -> (r: Result<Ast, ParseError>)
        requires
            old(self).wf(),
        ensures
            final(self).wf(),
            agrees(r, final(self)@, grammar::parse(old(self)@, precedence)),
            final(self)@.toks.len() <= old(self)@.toks.len(),
        decreases old(self)@.toks.len(), 4nat,
    {
        self.parse_from(precedence.level())
    }

    /// Parses an expression whose operators all have a precedence of at
    /// least the rank `floor`.
    pub fn parse_from(&mut self, floor: u8) -> (r: Result<Ast, ParseError>)
        requires
            old(self).wf(),
        ensures
            final(self).wf(),
            agrees(r, final(self)@, grammar::parse_from(old(self)@, floor as int)),
            final(self)@.toks.len() <= old(self)@.toks.len(),
        decreases old(self)@.toks.len(), 3nat,
    {
        let cur_tok_type: TokenType = self.curr_token_type();

        let prefix_rule = match Parser::get_prefix(&cur_tok_type) {
            None => {
                return Err(
                    ParseError::NoPrefix { curr: cur_tok_type, peek: self.peek_token_type() },
                );
            },
            Some(rule) => rule,
        };
        let parsed = match prefix_rule {
            PrefixRule::Number => self.parse_number(),
            PrefixRule::If => self.parse_if(),
            PrefixRule::While => self.parse_while(),
            PrefixRule::For => self.parse_for(),
            PrefixRule::Expr => self.parse_expr(),
            PrefixRule::Block => self.parse_block(),
            PrefixRule::Operator => self.parse_operator(),
            PrefixRule::Identifier => self.parse_identifier(),
            PrefixRule::Return => self.parse_return(),
        };
        let mut left_expr: Ast = match parsed {
            Ok(ast) => ast,
            Err(e) => {
                return Err(e);
            },
        };
        let ghost goal = grammar::infix_loop(self@, floor as int, left_expr@);

        loop
            invariant
                self.wf(),
                goal == grammar::infix_loop(self@, floor as int, left_expr@),
                goal == grammar::parse_from(old(self)@, floor as int),
                self@.toks.len() <= old(self)@.toks.len(),
            decreases self@.toks.len(),
        {
            let peek_tok_type: TokenType = match &self.peek_token {
                None => {
                    return Ok(left_expr);
                },
                Some(tok) => tok.kind,
            };
            let infix_rule = match Parser::get_infix(&peek_tok_type) {
                None => {
                    return Ok(left_expr);
                },
                Some(rule) => rule,
            };
            let peek_precedence = get_precedence(&peek_tok_type);
            if floor > peek_precedence.level() {
                return Ok(left_expr);
            }
            let ghost before = self@;
            self.next_token();
            assert(grammar::infix(before.next(), infix_rule, left_expr@) == match infix_rule {
                InfixRule::Arith => grammar::parse_arith_expr(before.next(), left_expr@),
                InfixRule::Call => grammar::parse_call_expr(before.next(), left_expr@),
            });

            let grown = match infix_rule {
                InfixRule::Arith => self.parse_arith_expr(left_expr),
                InfixRule::Call => self.parse_call_expr(left_expr),
            };
            left_expr = match grown {
                Ok(ast) => ast,
                Err(e) => {
                    return Err(e);
                },
            };
        }
    }

    /// The frame size in bytes, once the program is parsed.
    pub fn offset(&self) -> (n: i32)
        ensures
            n == self@.scope.offset,
    {
        self.scope.offset
    }
}

/// The tree that an optional clause stands for.
pub open spec fn clause_view(ast: Option<Ast>) -> Option<AstView> {
    match ast {
        Some(a) => Some(a@),
        None => None,
    }
}

} // verus!
