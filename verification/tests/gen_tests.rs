use chibicc::parser::grammar::{Mismatch, ParseError};
use chibicc::tokenizer::tokentype::TokenType;
use chibicc::{gen, GenError};

fn wrapped(frame: &str, body: &str) -> String {
    format!(
        "  .globl main\nmain:\n  push %rbp\n  mov %rsp, %rbp\n  sub {}, %rsp\n{}.L.return:\n  mov %rbp, %rsp\n  pop %rbp\n  ret\n",
        frame, body
    )
}

#[test]
fn empty_source_gives_prologue_and_epilogue() {
    let out = gen("").unwrap();
    assert_eq!(out.text, wrapped("$0", ""));
    assert!(out.mismatches.is_empty());
    assert!(out.unresolved.is_empty());
}

#[test]
fn sum_program() {
    let out = gen("1+2;").unwrap();
    assert_eq!(
        out.text,
        wrapped("$0", "  mov $2, %rax\n  push %rax\n  mov $1, %rax\n  pop %rdi\n  add %rdi, %rax\n")
    );
}

#[test]
fn one_local_takes_a_frame_of_sixteen() {
    let out = gen("a=3; return a;").unwrap();
    assert_eq!(
        out.text,
        wrapped(
            "$16",
            "  lea -8(%rbp), %rax\n  push %rax\n  mov $3, %rax\n  pop %rdi\n  mov %rax, (%rdi)\n  lea -8(%rbp), %rax\n  mov (%rax), %rax\n  jmp .L.return\n"
        )
    );
}

#[test]
fn three_locals_take_a_frame_of_thirty_two() {
    let out = gen("a=1;b=2;c=3;").unwrap();
    assert!(out.text.contains("  sub $32, %rsp\n"));
    assert!(out.text.contains("  lea -24(%rbp), %rax\n"));
    assert!(out.unresolved.is_empty());
}

#[test]
fn parse_errors_come_back() {
    let f = gen("1 + ;").err().unwrap();
    assert_eq!(
        f.error,
        GenError::Parse(ParseError::NoPrefix {
            curr: TokenType::TokenSemicolon,
            peek: TokenType::TokenEof
        })
    );
    assert_eq!(f.curr_token.unwrap().val, ";");
    assert!(f.peek_token.is_none());
    assert!(f.mismatches.is_empty());
    let g = gen("else x").err().unwrap();
    assert_eq!(
        g.error,
        GenError::Parse(ParseError::NoPrefix {
            curr: TokenType::TokenElse,
            peek: TokenType::TokenIdentifier
        })
    );
    assert_eq!(g.curr_token.unwrap().val, "else");
    assert_eq!(g.peek_token.unwrap().val, "x");
    let h = gen("(1; return 2 3; )").err().unwrap();
    assert_eq!(
        h.mismatches,
        vec![
            Mismatch { expected: TokenType::TokenRightParen, found: TokenType::TokenSemicolon },
            Mismatch { expected: TokenType::TokenSemicolon, found: TokenType::TokenNumber },
        ]
    );
    assert_eq!(h.curr_token.unwrap().kind, TokenType::TokenRightParen);
    let mut src = String::new();
    for i in 0..128 {
        src.push_str(&format!("v{} = 1;", i));
    }
    let full = gen(&src).err().unwrap();
    assert_eq!(full.error, GenError::Parse(ParseError::TooManyLocals));
    assert_eq!(full.curr_token.unwrap().val, "v127");
}

#[test]
fn mismatches_come_back_with_the_assembly() {
    let out = gen("(1").unwrap();
    assert_eq!(out.text, wrapped("$0", "  mov $1, %rax\n"));
    assert_eq!(
        out.mismatches,
        vec![Mismatch { expected: TokenType::TokenRightParen, found: TokenType::TokenEof }]
    );
}

#[test]
fn too_many_labels() {
    let mut src = String::new();
    for _ in 0..65535 {
        src.push_str("if(1)2;");
    }
    assert!(gen(&src).is_ok());
    src.push_str("if(1)2;");
    let f = gen(&src).err().unwrap();
    assert_eq!(f.error, GenError::TooManyLabels);
    assert!(f.curr_token.is_none());
}

#[test]
fn same_source_same_assembly() {
    let src = "a=0; for (i=0; i<10; i=i+1) { a = a + i; } return a;";
    assert_eq!(gen(src).unwrap().text, gen(src).unwrap().text);
}
