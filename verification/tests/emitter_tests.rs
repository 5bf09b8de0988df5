use chibicc::ast::{Ast, Loop, LoopKind};
use chibicc::codegen::writer::Codegen;
use chibicc::compiler::limits::{count_labels, push_depth};
use chibicc::compiler::x86::X86;
use chibicc::parser::localscope::LocalScope;
use chibicc::parser::Parser;
use chibicc::tokenizer::token::Token;
use chibicc::tokenizer::tokentype::TokenType;

fn body_and_depth(input: &str, start_depth: i64) -> (String, i64, u16, Vec<i8>) {
    let mut p = Parser::new(input);
    let ast = p.parse_program().unwrap();
    assert!(count_labels(&ast).is_some());
    assert!(push_depth(&ast).is_some());
    let scope = std::mem::replace(&mut p.scope, LocalScope::new());
    let mut g = Codegen::new();
    g.depth = start_depth;
    let mut x = X86::new(&mut g, scope);
    x.compile(ast);
    let label = x.label_suf_count;
    let unresolved = x.unresolved;
    (g.buf, g.depth, label, unresolved)
}

fn body(input: &str) -> String {
    body_and_depth(input, 0).0
}

fn lit(v: &str) -> Ast {
    Ast::new_literal(String::from(v))
}

fn tok(kind: TokenType, val: &str) -> Token {
    Token::new(kind, val, 0, 0)
}

#[test]
fn addition() {
    assert_eq!(
        body("1+2;"),
        "  mov $2, %rax\n  push %rax\n  mov $1, %rax\n  pop %rdi\n  add %rdi, %rax\n"
    );
}

#[test]
fn subtraction_of_a_product() {
    assert_eq!(
        body("5-2*3;"),
        "  mov $3, %rax\n  push %rax\n  mov $2, %rax\n  pop %rdi\n  imul %rdi, %rax\n  push %rax\n  mov $5, %rax\n  pop %rdi\n  sub %rdi, %rax\n"
    );
}

#[test]
fn division() {
    assert_eq!(
        body("6/3;"),
        "  mov $3, %rax\n  push %rax\n  mov $6, %rax\n  pop %rdi\n  cqo\n  idiv %rdi\n"
    );
}

#[test]
fn equality() {
    assert_eq!(
        body("1==2;"),
        "  mov $2, %rax\n  push %rax\n  mov $1, %rax\n  pop %rdi\n  cmp %rdi, %rax\n  sete %al\n  movzb %al, %rax\n"
    );
}

#[test]
fn every_comparison_sets_its_flag() {
    let cases = [
        ("<", "setl"),
        ("<=", "setle"),
        (">", "setg"),
        (">=", "setge"),
        ("==", "sete"),
        ("!=", "setne"),
    ];
    for (op, set) in cases {
        let src = format!("1{}2;", op);
        let want = format!(
            "  mov $2, %rax\n  push %rax\n  mov $1, %rax\n  pop %rdi\n  cmp %rdi, %rax\n  {} %al\n  movzb %al, %rax\n",
            set
        );
        assert_eq!(body(&src), want);
    }
}

#[test]
fn comparison_alone() {
    let mut g = Codegen::new();
    let mut x = X86::new(&mut g, LocalScope::new());
    x.comparison(TokenType::TokenLess);
    x.comparison(TokenType::TokenPlus);
    assert_eq!(
        g.buf,
        "  cmp %rdi, %rax\n  setl %al\n  movzb %al, %rax\n  cmp %rdi, %rax\n  movzb %al, %rax\n"
    );
}

#[test]
fn assignment_and_return() {
    assert_eq!(
        body("a=3; return a;"),
        "  lea -8(%rbp), %rax\n  push %rax\n  mov $3, %rax\n  pop %rdi\n  mov %rax, (%rdi)\n  lea -8(%rbp), %rax\n  mov (%rax), %rax\n  jmp .L.return\n"
    );
}

#[test]
fn second_variable_lies_at_minus_sixteen() {
    assert_eq!(
        body("a=1;b=2;b;"),
        "  lea -8(%rbp), %rax\n  push %rax\n  mov $1, %rax\n  pop %rdi\n  mov %rax, (%rdi)\n  lea -16(%rbp), %rax\n  push %rax\n  mov $2, %rax\n  pop %rdi\n  mov %rax, (%rdi)\n  lea -16(%rbp), %rax\n  mov (%rax), %rax\n"
    );
}

#[test]
fn if_else() {
    assert_eq!(
        body("if (1) 2; else 3;"),
        "  mov $1, %rax\n  cmp $0, %rax\n  je .L.else.1\n  mov $2, %rax\n  jmp .L.end.1\n.L.else.1:\n  mov $3, %rax\n.L.end.1:\n"
    );
}

#[test]
fn if_without_else_still_defines_both_labels() {
    assert_eq!(
        body("if (1) 2;"),
        "  mov $1, %rax\n  cmp $0, %rax\n  je .L.else.1\n  mov $2, %rax\n  jmp .L.end.1\n.L.else.1:\n.L.end.1:\n"
    );
}

#[test]
fn for_loop() {
    assert_eq!(
        body("for (a=0; a<3; a=a+1) a;"),
        concat_lines(&[
            "  lea -8(%rbp), %rax",
            "  push %rax",
            "  mov $0, %rax",
            "  pop %rdi",
            "  mov %rax, (%rdi)",
            ".L.begin.1:",
            "  mov $3, %rax",
            "  push %rax",
            "  lea -8(%rbp), %rax",
            "  mov (%rax), %rax",
            "  pop %rdi",
            "  cmp %rdi, %rax",
            "  setl %al",
            "  movzb %al, %rax",
            "  cmp $0, %rax",
            "  je .L.end.1",
            "  lea -8(%rbp), %rax",
            "  mov (%rax), %rax",
            "  lea -8(%rbp), %rax",
            "  push %rax",
            "  mov $1, %rax",
            "  push %rax",
            "  lea -8(%rbp), %rax",
            "  mov (%rax), %rax",
            "  pop %rdi",
            "  add %rdi, %rax",
            "  pop %rdi",
            "  mov %rax, (%rdi)",
            "  jmp .L.begin.1",
            ".L.end.1:",
        ])
    );
}

fn concat_lines(lines: &[&str]) -> String {
    let mut out = String::new();
    for l in lines {
        out.push_str(l);
        out.push('\n');
    }
    out
}

#[test]
fn while_loop_and_empty_for() {
    assert_eq!(
        body("while (1) 2;"),
        ".L.begin.1:\n  mov $1, %rax\n  cmp $0, %rax\n  je .L.end.1\n  mov $2, %rax\n  jmp .L.begin.1\n.L.end.1:\n"
    );
    assert_eq!(body("for (;;) 1;"), ".L.begin.1:\n  mov $1, %rax\n  jmp .L.begin.1\n.L.end.1:\n");
}

#[test]
fn consecutive_ifs_take_different_labels() {
    let out = body("if (1) 2; if (3) 4;");
    assert_eq!(
        out,
        "  mov $1, %rax\n  cmp $0, %rax\n  je .L.else.1\n  mov $2, %rax\n  jmp .L.end.1\n.L.else.1:\n.L.end.1:\n  mov $3, %rax\n  cmp $0, %rax\n  je .L.else.2\n  mov $4, %rax\n  jmp .L.end.2\n.L.else.2:\n.L.end.2:\n"
    );
    let (_, _, labels, _) = body_and_depth("if (1) 2; if (3) 4; while (5) 6; for (;;) 7;", 0);
    assert_eq!(labels, 4);
}

#[test]
fn nested_ifs_number_from_the_outside_in() {
    let out = body("if (1) if (2) 3; else 4;");
    assert_eq!(
        out,
        "  mov $1, %rax\n  cmp $0, %rax\n  je .L.else.1\n  mov $2, %rax\n  cmp $0, %rax\n  je .L.else.2\n  mov $3, %rax\n  jmp .L.end.2\n.L.else.2:\n  mov $4, %rax\n.L.end.2:\n  jmp .L.end.1\n.L.else.1:\n.L.end.1:\n"
    );
}

#[test]
fn each_label_is_defined_once() {
    let out = body("if (1) if (2) 3; for (;;) while (4) 5; if (6) 7; else 8;");
    let mut defined = Vec::new();
    for l in out.lines() {
        if l.ends_with(':') {
            assert!(!defined.contains(&l.to_string()));
            defined.push(l.to_string());
        }
    }
    assert_eq!(defined.len(), 10);
}

#[test]
fn depth_returns_to_where_it_was() {
    for src in ["1+2*3-4;", "a=1; b=a+a; return a*b;", "if (1<2) a=3; for (a=0;a<3;a=a+1) a;", ""] {
        let (_, depth, _, missing) = body_and_depth(src, 0);
        assert_eq!(depth, 0);
        assert!(missing.is_empty());
        let (_, depth, _, _) = body_and_depth(src, 41);
        assert_eq!(depth, 41);
    }
}

#[test]
fn unary_minus_negates_and_the_others_write_nothing() {
    assert_eq!(body("-5;"), "  mov $5, %rax\n  neg %rax\n");
    assert_eq!(body("+5;"), "  mov $5, %rax\n");
    assert_eq!(
        body("a=1; &a; *a;"),
        "  lea -8(%rbp), %rax\n  push %rax\n  mov $1, %rax\n  pop %rdi\n  mov %rax, (%rdi)\n  lea -8(%rbp), %rax\n  mov (%rax), %rax\n  lea -8(%rbp), %rax\n  mov (%rax), %rax\n"
    );
}

#[test]
fn assignment_operator_node_writes_no_instruction() {
    assert_eq!(body("1 = 2;"), "  mov $2, %rax\n  push %rax\n  mov $1, %rax\n  pop %rdi\n");
}

#[test]
fn blocks_lower_their_statements_in_order() {
    assert_eq!(body("{ 1; 2; }"), "  mov $1, %rax\n  mov $2, %rax\n");
}

#[test]
fn calls_and_do_while_write_nothing() {
    assert_eq!(body("f("), "");
    let mut g = Codegen::new();
    let mut x = X86::new(&mut g, LocalScope::new());
    x.compile(Ast::Loop(Loop {
        kind: LoopKind::DoWhile,
        tok: tok(TokenType::TokenWhile, "do"),
        init: None,
        cond: Some(Box::new(lit("1"))),
        incr: None,
        then: Box::new(lit("2")),
    }));
    assert_eq!(x.label_suf_count, 0);
    assert_eq!(g.buf, "");
}

#[test]
fn do_while_builder_lowers_to_nothing() {
    let mut g = Codegen::new();
    let mut x = X86::new(&mut g, LocalScope::new());
    x.compile(Ast::new_do_while(tok(TokenType::TokenWhile, "do"), lit("2")));
    assert_eq!(x.label_suf_count, 0);
    assert_eq!(g.buf, "");
    assert_eq!(
        count_labels(&Ast::new_do_while(tok(TokenType::TokenWhile, "do"), lit("2"))),
        Some(0)
    );
}

#[test]
fn block_bodies_and_else_after_a_block() {
    assert_eq!(
        body("if (1) { 2; } else { 3; } 4;"),
        "  mov $1, %rax\n  cmp $0, %rax\n  je .L.else.1\n  mov $2, %rax\n  jmp .L.end.1\n.L.else.1:\n  mov $3, %rax\n.L.end.1:\n  mov $4, %rax\n"
    );
    assert_eq!(
        body("1-2-3;"),
        "  mov $3, %rax\n  push %rax\n  mov $2, %rax\n  push %rax\n  mov $1, %rax\n  pop %rdi\n  sub %rdi, %rax\n  pop %rdi\n  sub %rdi, %rax\n"
    );
}

#[test]
fn empty_return_only_jumps() {
    let mut g = Codegen::new();
    let mut x = X86::new(&mut g, LocalScope::new());
    x.compile(Ast::new_empty_return(tok(TokenType::TokenReturn, "return")));
    assert_eq!(g.buf, "  jmp .L.return\n");
}

#[test]
fn unknown_variable_is_noted_and_gets_no_address() {
    let mut g = Codegen::new();
    let mut x = X86::new(&mut g, LocalScope::new());
    x.compile(Ast::new_variable(7, tok(TokenType::TokenIdentifier, "x"), String::from("x")));
    x.variable(chibicc::ast::Variable {
        id: 9,
        token: tok(TokenType::TokenIdentifier, "y"),
        val: String::from("y"),
        assign: Some(Box::new(lit("1"))),
    });
    assert_eq!(x.unresolved, vec![7, 9]);
    assert_eq!(
        g.buf,
        "  mov (%rax), %rax\n  push %rax\n  mov $1, %rax\n  pop %rdi\n  mov %rax, (%rdi)\n"
    );
    assert_eq!(g.depth, 0);
}

#[test]
fn public_lowering_steps() {
    let mut g = Codegen::new();
    let mut x = X86::new(&mut g, LocalScope::new());
    assert_eq!(x.incr_label_suffix_counter(), 1);
    assert_eq!(x.incr_label_suffix_counter(), 2);
    x.unary(chibicc::ast::Unary {
        token: tok(TokenType::TokenMinus, "-"),
        operator: String::from("-"),
        right: Box::new(lit("4")),
    });
    x.arithmetic(chibicc::ast::ArithExpr {
        token: tok(TokenType::TokenStar, "*"),
        operator: String::from("*"),
        left: Box::new(lit("2")),
        right: Box::new(lit("3")),
    });
    assert_eq!(
        g.buf,
        "  mov $4, %rax\n  neg %rax\n  mov $3, %rax\n  push %rax\n  mov $2, %rax\n  pop %rdi\n  imul %rdi, %rax\n"
    );
}

#[test]
fn limits_count_labels_and_pushes() {
    let mut p = Parser::new("(1+2)*3; if (1) while (2) 3; for (;;) 4;");
    let ast = p.parse_program().unwrap();
    assert_eq!(count_labels(&ast), Some(3));
    assert_eq!(push_depth(&ast), Some(2));
    let mut q = Parser::new("a = b = 1 + 2;");
    let ast = q.parse_program().unwrap();
    assert_eq!(count_labels(&ast), Some(0));
    assert_eq!(push_depth(&ast), Some(3));
    assert_eq!(count_labels(&lit("1")), Some(0));
    assert_eq!(push_depth(&lit("1")), Some(0));
}

#[test]
fn label_counter_has_room_for_65535_labels() {
    let mut stmts = Vec::new();
    for _ in 0..65535 {
        stmts.push(Ast::new_if(tok(TokenType::TokenIf, "if"), lit("1"), lit("2"), None));
    }
    let full = Ast::new_program(stmts);
    assert_eq!(count_labels(&full), Some(65535));
    let mut g = Codegen::new();
    let mut x = X86::new(&mut g, LocalScope::new());
    x.compile(full);
    assert_eq!(x.label_suf_count, 65535);
    assert!(g.buf.ends_with(".L.else.65535:\n.L.end.65535:\n"));
    let mut more = Vec::new();
    for _ in 0..65536 {
        more.push(Ast::new_if(tok(TokenType::TokenIf, "if"), lit("1"), lit("2"), None));
    }
    assert_eq!(count_labels(&Ast::new_program(more)), None);
}
