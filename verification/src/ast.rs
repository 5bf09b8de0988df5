//! The syntax tree.

use vstd::prelude::*;
use crate::tokenizer::token::{Token, TokenView};

verus! {

#[derive(Clone, Copy, PartialEq, Eq, Structural, Debug)]
pub enum StatementsKind {
    Program,
    Block,
}

#[derive(Debug)]
pub struct Statements {
    pub kind: StatementsKind,
    pub asts: Vec<Ast>,
}

#[derive(Clone, Debug)]
pub enum LiteralKind {
    Integer(),
    String(String),
    Char(char),
    Bool(bool),
    Unit,
}

#[derive(Debug, Clone)]
pub struct Literal {
    pub kind: LiteralKind,
    pub val: String,
}

#[derive(Debug)]
pub struct Variable {
    pub id: i8,
    pub token: Token,
    pub val: String,
    pub assign: Option<Box<Ast>>,
}

#[derive(Debug)]
pub struct Unary {
    pub token: Token,
    pub operator: String,
    pub right: Box<Ast>,
}

#[derive(Debug)]
pub struct ArithExpr {
    pub token: Token,
    pub operator: String,
    pub left: Box<Ast>,
    pub right: Box<Ast>,
}

#[derive(Debug, Clone)]
pub struct CallExpr {}

#[derive(Debug)]
pub struct If {
    pub token: Token,
    pub cond: Box<Ast>,
    pub then: Box<Ast>,
    pub alt: Option<Box<Ast>>,
}

#[derive(Clone, Copy, PartialEq, Eq, Structural, Debug)]
pub enum LoopKind {
    For,
    While,
    DoWhile,
}

#[derive(Debug)]
pub struct Loop {
    pub kind: LoopKind,
    pub tok: Token,
    pub init: Option<Box<Ast>>,
    pub cond: Option<Box<Ast>>,
    pub incr: Option<Box<Ast>>,
    pub then: Box<Ast>,
}

#[derive(Debug, Clone)]
pub struct FunctionCall {}

#[derive(Debug)]
pub struct Return {
    pub token: Token,
    pub value: Option<Box<Ast>>,
}

#[derive(Debug)]
pub enum Ast {
    Statements(Statements),
    Literal(Literal),
    Variable(Variable),
    Unary(Unary),
    ArithExpr(ArithExpr),
    If(If),
    Loop(Loop),
    FunctionCall(FunctionCall),
    Return(Return),
}

/// The kind of a literal, with text as a sequence of characters.
pub enum LiteralKindView {
    Integer,
    String(Seq<char>),
    Char(char),
    Bool(bool),
    Unit,
}

/// A syntax tree as a mathematical value: texts are sequences of characters
/// and the statements of a block are a sequence of trees.
pub enum AstView {
    Statements { kind: StatementsKind, asts: Seq<AstView> },
    Literal { kind: LiteralKindView, val: Seq<char> },
    Variable { id: int, token: TokenView, val: Seq<char>, assign: Option<Box<AstView>> },
    Unary { token: TokenView, operator: Seq<char>, right: Box<AstView> },
    ArithExpr { token: TokenView, operator: Seq<char>, left: Box<AstView>, right: Box<AstView> },
    If { token: TokenView, cond: Box<AstView>, then: Box<AstView>, alt: Option<Box<AstView>> },
    Loop {
        kind: LoopKind,
        tok: TokenView,
        init: Option<Box<AstView>>,
        cond: Option<Box<AstView>>,
        incr: Option<Box<AstView>>,
        then: Box<AstView>,
    },
    FunctionCall,
    Return { token: TokenView, value: Option<Box<AstView>> },
}

impl View for LiteralKind {
    type V = LiteralKindView;

    open spec fn view(&self) -> LiteralKindView {
        match self {
            LiteralKind::Integer() => LiteralKindView::Integer,
            LiteralKind::String(s) => LiteralKindView::String(s@),
            LiteralKind::Char(c) => LiteralKindView::Char(*c),
            LiteralKind::Bool(b) => LiteralKindView::Bool(*b),
            LiteralKind::Unit => LiteralKindView::Unit,
        }
    }
}

/// The tree that `ast` stands for.
pub open spec fn ast_view(ast: Ast) -> AstView
    decreases ast,
{
    match ast {
        Ast::Statements(s) => AstView::Statements {
            kind: s.kind,
            asts: Seq::new(
                s.asts@.len(),
                |i: int|
                    if 0 <= i < s.asts@.len() {
                        ast_view(s.asts@[i])
                    } else {
                        AstView::FunctionCall
                    },
            ),
        },
        Ast::Literal(l) => AstView::Literal { kind: l.kind@, val: l.val@ },
        Ast::Variable(v) => AstView::Variable {
            id: v.id as int,
            token: v.token@,
            val: v.val@,
            assign: match v.assign {
                Some(a) => Some(Box::new(ast_view(*a))),
                None => None,
            },
        },
        Ast::Unary(u) => AstView::Unary {
            token: u.token@,
            operator: u.operator@,
            right: Box::new(ast_view(*u.right)),
        },
        Ast::ArithExpr(a) => AstView::ArithExpr {
            token: a.token@,
            operator: a.operator@,
            left: Box::new(ast_view(*a.left)),
            right: Box::new(ast_view(*a.right)),
        },
        Ast::If(If { token, cond, then, alt }) => AstView::If {
            token: token@,
            cond: Box::new(ast_view(*cond)),
            then: Box::new(ast_view(*then)),
            alt: match alt {
                Some(a) => Some(Box::new(ast_view(*a))),
                None => None,
            },
        },
        Ast::Loop(Loop { kind, tok, init, cond, incr, then }) => AstView::Loop {
            kind,
            tok: tok@,
            init: match init {
                Some(a) => Some(Box::new(ast_view(*a))),
                None => None,
            },
            cond: match cond {
                Some(a) => Some(Box::new(ast_view(*a))),
                None => None,
            },
            incr: match incr {
                Some(a) => Some(Box::new(ast_view(*a))),
                None => None,
            },
            then: Box::new(ast_view(*then)),
        },
        Ast::FunctionCall(_) => AstView::FunctionCall,
        Ast::Return(r) => AstView::Return {
            token: r.token@,
            value: match r.value {
                Some(a) => Some(Box::new(ast_view(*a))),
                None => None,
            },
        },
    }
}

impl View for Ast {
    type V = AstView;

    open spec fn view(&self) -> AstView {
        ast_view(*self)
    }
}

/// The trees that the elements of `asts` stand for.
pub open spec fn views(asts: Seq<Ast>) -> Seq<AstView> {
    Seq::new(asts.len(), |i: int| asts[i]@)
}

/// The tree that an optional operand stands for.
pub open spec fn opt_view(ast: Option<Ast>) -> Option<Box<AstView>> {
    match ast {
        Some(a) => Some(Box::new(a@)),
        None => None,
    }
}

impl Ast {
    pub fn new_program(asts: Vec<Ast>) -> (ast: Ast)
        ensures
            ast@ == (AstView::Statements { kind: StatementsKind::Program, asts: views(asts@) }),
    {
        let ast = Ast::Statements(Statements { kind: StatementsKind::Program, asts });
        assert(ast@->Statements_asts =~= views(asts@));
        ast
    }

    pub fn new_block(asts: Vec<Ast>) -> (ast: Ast)
        ensures
            ast@ == (AstView::Statements { kind: StatementsKind::Block, asts: views(asts@) }),
    {
        let ast = Ast::Statements(Statements { kind: StatementsKind::Block, asts });
        assert(ast@->Statements_asts =~= views(asts@));
        ast
    }

    pub fn new_literal(val: String) -> (ast: Ast)
        ensures
            ast@ == (AstView::Literal { kind: LiteralKindView::Integer, val: val@ }),
    {
        Ast::Literal(Literal { kind: LiteralKind::Integer(), val })
    }

    pub fn new_variable(id: i8, token: Token, val: String) -> (ast: Ast)
        ensures
            ast@ == (AstView::Variable { id: id as int, token: token@, val: val@, assign: None }),
    {
        Ast::Variable(Variable { id, token, val, assign: None })
    }

    pub fn new_variable_assign(id: i8, token: Token, val: String, ast: Ast) -> (node: Ast)
        ensures
            node@ == (AstView::Variable {
                id: id as int,
                token: token@,
                val: val@,
                assign: Some(Box::new(ast@)),
            }),
    {
        Ast::Variable(Variable { id, token, val, assign: Some(Box::new(ast)) })
    }

    pub fn new_arith_exp(token: Token, operator: String, left: Ast, right: Ast) -> (ast: Ast)
        ensures
            ast@ == (AstView::ArithExpr {
                token: token@,
                operator: operator@,
                left: Box::new(left@),
                right: Box::new(right@),
            }),
    {
        Ast::ArithExpr(ArithExpr { token, operator, left: Box::new(left), right: Box::new(right) })
    }

    pub fn new_unary(token: Token, operator: String, right: Ast) -> (ast: Ast)
        ensures
            ast@ == (AstView::Unary {
                token: token@,
                operator: operator@,
                right: Box::new(right@),
            }),
    {
        Ast::Unary(Unary { token, operator, right: Box::new(right) })
    }

    pub fn new_return(tok: Token, value: Ast) -> (ast: Ast)
        ensures
            ast@ == (AstView::Return { token: tok@, value: Some(Box::new(value@)) }),
    {
        Ast::Return(Return { token: tok, value: Some(Box::new(value)) })
    }

    pub fn new_empty_return(tok: Token) -> (ast: Ast)
        ensures
            ast@ == (AstView::Return { token: tok@, value: None }),
    {
        Ast::Return(Return { token: tok, value: None })
    }

    pub fn new_if(tok: Token, cond: Ast, then: Ast, alt: Option<Ast>) -> (ast: Ast)
        ensures
            ast@ == (AstView::If {
                token: tok@,
                cond: Box::new(cond@),
                then: Box::new(then@),
                alt: opt_view(alt),
            }),
    {
        Ast::If(
            If {
                token: tok,
                cond: Box::new(cond),
                then: Box::new(then),
                alt: match alt {
                    None => None,
                    Some(a) => Some(Box::new(a)),
                },
            },
        )
    }

    /// A loop that runs its body before it tests: a loop of the kind
    /// `DoWhile` without a condition.
    pub fn new_do_while(tok: Token, then: Ast) -> (ast: Ast)
        ensures
            ast@ == (AstView::Loop {
                kind: LoopKind::DoWhile,
                tok: tok@,
                init: None,
                cond: None,
                incr: None,
                then: Box::new(then@),
            }),
    {
        Ast::Loop(
            Loop {
                kind: LoopKind::DoWhile,
                tok,
                init: None,
                cond: None,
                incr: None,
                then: Box::new(then),
            },
        )
    }

    pub fn new_while(tok: Token, cond: Option<Ast>, then: Ast) -> (ast: Ast)
        ensures
            ast@ == (AstView::Loop {
                kind: LoopKind::While,
                tok: tok@,
                init: None,
                cond: opt_view(cond),
                incr: None,
                then: Box::new(then@),
            }),
    {
        Ast::Loop(
            Loop {
                kind: LoopKind::While,
                tok,
                init: None,
                cond: match cond {
                    None => None,
                    Some(c) => Some(Box::new(c)),
                },
                incr: None,
                then: Box::new(then),
            },
        )
    }

    pub fn new_for(
        tok: Token,
        init: Option<Ast>,
        cond: Option<Ast>,
        incr: Option<Ast>,
        then: Ast,
    ) -> (ast: Ast)
        ensures
            ast@ == (AstView::Loop {
                kind: LoopKind::For,
                tok: tok@,
                init: opt_view(init),
                cond: opt_view(cond),
                incr: opt_view(incr),
                then: Box::new(then@),
            }),
    {
        Ast::Loop(
            Loop {
                kind: LoopKind::For,
                tok,
                init: match init {
                    None => None,
                    Some(i) => Some(Box::new(i)),
                },
                cond: match cond {
                    None => None,
                    Some(c) => Some(Box::new(c)),
                },
                incr: match incr {
                    None => None,
                    Some(i) => Some(Box::new(i)),
                },
                then: Box::new(then),
            },
        )
    }

    pub fn new_func_call() -> (ast: Ast)
        ensures
            ast@ == AstView::FunctionCall,
    {
        Ast::FunctionCall(FunctionCall {  })
    }
}

} // verus!
