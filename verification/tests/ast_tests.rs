use chibicc::ast::{Ast, If, LiteralKind, Loop, LoopKind, StatementsKind};
use chibicc::tokenizer::token::Token;
use chibicc::tokenizer::tokentype::TokenType;

fn lit(v: &str) -> Ast {
    Ast::new_literal(String::from(v))
}

fn tok(kind: TokenType, val: &str) -> Token {
    Token::new(kind, val, 1, 2)
}

fn text(ast: &Ast) -> String {
    match ast {
        Ast::Literal(l) => l.val.clone(),
        other => panic!("not a literal: {:?}", other),
    }
}

#[test]
fn statement_lists() {
    match Ast::new_program(vec![lit("1"), lit("2")]) {
        Ast::Statements(s) => {
            assert_eq!(s.kind, StatementsKind::Program);
            assert_eq!(s.asts.len(), 2);
            assert_eq!(text(&s.asts[1]), "2");
        }
        other => panic!("{:?}", other),
    }
    match Ast::new_block(Vec::new()) {
        Ast::Statements(s) => {
            assert_eq!(s.kind, StatementsKind::Block);
            assert!(s.asts.is_empty());
        }
        other => panic!("{:?}", other),
    }
}

#[test]
fn literal_is_an_integer() {
    match lit("12") {
        Ast::Literal(l) => {
            assert!(matches!(l.kind, LiteralKind::Integer()));
            assert_eq!(l.val, "12");
        }
        other => panic!("{:?}", other),
    }
}

#[test]
fn variable_nodes() {
    match Ast::new_variable(3, tok(TokenType::TokenIdentifier, "x"), String::from("x")) {
        Ast::Variable(v) => {
            assert_eq!(v.id, 3);
            assert_eq!(v.val, "x");
            assert_eq!(v.token.line, 1);
            assert!(v.assign.is_none());
        }
        other => panic!("{:?}", other),
    }
    match Ast::new_variable_assign(4, tok(TokenType::TokenIdentifier, "y"), String::from("y"), lit("5")) {
        Ast::Variable(v) => {
            assert_eq!(v.id, 4);
            assert_eq!(text(v.assign.as_ref().unwrap()), "5");
        }
        other => panic!("{:?}", other),
    }
}

#[test]
fn operator_nodes() {
    match Ast::new_arith_exp(tok(TokenType::TokenPlus, "+"), String::from("+"), lit("1"), lit("2")) {
        Ast::ArithExpr(a) => {
            assert_eq!(a.operator, "+");
            assert_eq!(a.token.kind, TokenType::TokenPlus);
            assert_eq!(text(&a.left), "1");
            assert_eq!(text(&a.right), "2");
        }
        other => panic!("{:?}", other),
    }
    match Ast::new_unary(tok(TokenType::TokenMinus, "-"), String::from("-"), lit("1")) {
        Ast::Unary(u) => {
            assert_eq!(u.operator, "-");
            assert_eq!(text(&u.right), "1");
        }
        other => panic!("{:?}", other),
    }
}

#[test]
fn return_nodes() {
    match Ast::new_return(tok(TokenType::TokenReturn, "return"), lit("1")) {
        Ast::Return(r) => assert_eq!(text(r.value.as_ref().unwrap()), "1"),
        other => panic!("{:?}", other),
    }
    match Ast::new_empty_return(tok(TokenType::TokenReturn, "return")) {
        Ast::Return(r) => assert!(r.value.is_none()),
        other => panic!("{:?}", other),
    }
}

#[test]
fn branch_nodes() {
    match Ast::new_if(tok(TokenType::TokenIf, "if"), lit("1"), lit("2"), Some(lit("3"))) {
        Ast::If(If { token, cond, then, alt }) => {
            assert_eq!(token.kind, TokenType::TokenIf);
            assert_eq!(text(&cond), "1");
            assert_eq!(text(&then), "2");
            assert_eq!(text(alt.as_ref().unwrap()), "3");
        }
        other => panic!("{:?}", other),
    }
    match Ast::new_if(tok(TokenType::TokenIf, "if"), lit("1"), lit("2"), None) {
        Ast::If(If { token: _, cond: _, then: _, alt }) => assert!(alt.is_none()),
        other => panic!("{:?}", other),
    }
}

#[test]
fn loop_nodes() {
    match Ast::new_for(tok(TokenType::TokenFor, "for"), Some(lit("1")), None, Some(lit("3")), lit("4")) {
        Ast::Loop(Loop { kind, tok, init, cond, incr, then }) => {
            assert_eq!(kind, LoopKind::For);
            assert_eq!(tok.val, "for");
            assert_eq!(text(init.as_ref().unwrap()), "1");
            assert!(cond.is_none());
            assert_eq!(text(incr.as_ref().unwrap()), "3");
            assert_eq!(text(&then), "4");
        }
        other => panic!("{:?}", other),
    }
    match Ast::new_while(tok(TokenType::TokenWhile, "while"), Some(lit("1")), lit("2")) {
        Ast::Loop(Loop { kind, tok: _, init, cond, incr, then }) => {
            assert_eq!(kind, LoopKind::While);
            assert!(init.is_none() && incr.is_none());
            assert_eq!(text(cond.as_ref().unwrap()), "1");
            assert_eq!(text(&then), "2");
        }
        other => panic!("{:?}", other),
    }
    match Ast::new_do_while(tok(TokenType::TokenWhile, "do"), lit("2")) {
        Ast::Loop(Loop { kind, tok: _, init, cond, incr, then }) => {
            assert_eq!(kind, LoopKind::DoWhile);
            assert!(init.is_none() && cond.is_none() && incr.is_none());
            assert_eq!(text(&then), "2");
        }
        other => panic!("{:?}", other),
    }
}

#[test]
fn call_placeholder() {
    assert!(matches!(Ast::new_func_call(), Ast::FunctionCall(_)));
}
