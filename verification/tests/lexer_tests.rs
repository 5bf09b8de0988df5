use chibicc::tokenizer::token::Token;
use chibicc::tokenizer::tokentype::{kw_type_from_str, TokenType};
use chibicc::tokenizer::lexing::Lead;
use chibicc::tokenizer::{lead, Tokenizer};

fn lex(input: &str) -> Vec<Token> {
    let mut t = Tokenizer::new(input);
    let mut out = Vec::new();
    loop {
        match t.next() {
            Some(tok) => out.push(tok),
            None => return out,
        }
    }
}

fn kinds(input: &str) -> Vec<TokenType> {
    let mut out = Vec::new();
    for t in lex(input) {
        out.push(t.kind);
    }
    out
}

#[test]
fn lexes_operators_and_numbers() {
    let mut t = Tokenizer::new("1 + 23;");
    let a = t.scan_next();
    assert_eq!(a.kind, TokenType::TokenNumber);
    assert_eq!(a.val, "1");
    assert_eq!(a.line, 0);
    assert_eq!(a.col, 1);
    let b = t.scan_next();
    assert_eq!(b.kind, TokenType::TokenPlus);
    assert_eq!(b.val, "+");
    assert_eq!(b.col, 3);
    let c = t.scan_next();
    assert_eq!(c.kind, TokenType::TokenNumber);
    assert_eq!(c.val, "23");
    assert_eq!(c.col, 6);
    let d = t.scan_next();
    assert_eq!(d.kind, TokenType::TokenSemicolon);
    let e = t.scan_next();
    assert_eq!(e.kind, TokenType::TokenEof);
    assert_eq!(e.val, "");
    assert!(t.next().is_none());
}

#[test]
fn single_character_tokens() {
    assert_eq!(
        kinds("(){},.;-+/*&"),
        vec![
            TokenType::TokenLeftParen,
            TokenType::TokenRightParen,
            TokenType::TokenLeftBrace,
            TokenType::TokenRightBrace,
            TokenType::TokenComma,
            TokenType::TokenDot,
            TokenType::TokenSemicolon,
            TokenType::TokenMinus,
            TokenType::TokenPlus,
            TokenType::TokenSlash,
            TokenType::TokenStar,
            TokenType::TokenAddr,
        ]
    );
}

#[test]
fn one_or_two_character_operators() {
    assert_eq!(
        kinds("! != = == > >= < <="),
        vec![
            TokenType::TokenBang,
            TokenType::TokenBangEqual,
            TokenType::TokenEqual,
            TokenType::TokenEqualEqual,
            TokenType::TokenGreater,
            TokenType::TokenGreaterEqual,
            TokenType::TokenLess,
            TokenType::TokenLessEqual,
        ]
    );
    let toks = lex("a<=b");
    assert_eq!(toks[1].val, "<=");
    assert_eq!(toks[1].col, 3);
    let three = lex("===");
    assert_eq!(three.len(), 2);
    assert_eq!(three[0].kind, TokenType::TokenEqualEqual);
    assert_eq!(three[1].kind, TokenType::TokenEqual);
}

#[test]
fn keywords_and_identifiers() {
    assert_eq!(
        kinds("else if for return var while true nil int iffy x1"),
        vec![
            TokenType::TokenElse,
            TokenType::TokenIf,
            TokenType::TokenFor,
            TokenType::TokenReturn,
            TokenType::TokenVar,
            TokenType::TokenWhile,
            TokenType::TokenTrue,
            TokenType::TokenNil,
            TokenType::TokenInt,
            TokenType::TokenIdentifier,
            TokenType::TokenIdentifier,
        ]
    );
    assert_eq!(kw_type_from_str("while"), TokenType::TokenWhile);
    assert_eq!(kw_type_from_str("While"), TokenType::TokenIdentifier);
    assert_eq!(kw_type_from_str(""), TokenType::TokenIdentifier);
    assert_eq!(kw_type_from_str("func"), TokenType::TokenIdentifier);
}

#[test]
fn numbers_take_one_fraction() {
    let toks = lex("12.5 7. 3.4.5");
    assert_eq!(toks[0].kind, TokenType::TokenNumber);
    assert_eq!(toks[0].val, "12.5");
    assert_eq!(toks[1].val, "7");
    assert_eq!(toks[2].kind, TokenType::TokenDot);
    assert_eq!(toks[3].val, "3.4");
    assert_eq!(toks[4].kind, TokenType::TokenDot);
    assert_eq!(toks[5].val, "5");
    assert_eq!(toks.len(), 6);
}

#[test]
fn whitespace_and_comments_are_skipped() {
    let toks = lex("  a // b c\n\t d\r\n// only a comment");
    assert_eq!(toks.len(), 2);
    assert_eq!(toks[0].val, "a");
    assert_eq!(toks[0].line, 0);
    assert_eq!(toks[0].col, 3);
    assert_eq!(toks[1].val, "d");
    assert_eq!(toks[1].line, 1);
    assert_eq!(toks[1].col, 4);
    assert_eq!(kinds("/ /"), vec![TokenType::TokenSlash, TokenType::TokenSlash]);
    assert!(lex("").is_empty());
    assert!(lex(" \n\n ").is_empty());
}

#[test]
fn newline_counts_lines_and_restarts_columns() {
    let mut t = Tokenizer::new("\n\nx");
    let x = t.scan_next();
    assert_eq!(x.line, 2);
    assert_eq!(x.col, 2);
    let end = t.scan_next();
    assert_eq!(end.kind, TokenType::TokenEof);
    assert_eq!(end.line, 2);
}

#[test]
fn string_literals() {
    let toks = lex("\"hi\" \"a\nb\"");
    assert_eq!(toks.len(), 2);
    assert_eq!(toks[0].kind, TokenType::TokenString);
    assert_eq!(toks[0].val, "\"hi\"");
    assert_eq!(toks[1].kind, TokenType::TokenString);
    assert_eq!(toks[1].val, "\"a\nb\"");
    assert_eq!(toks[1].line, 1);
    assert_eq!(toks[1].col, 3);
}

#[test]
fn unterminated_string_is_an_error_token() {
    let toks = lex("\"abc");
    assert_eq!(toks.len(), 1);
    assert_eq!(toks[0].kind, TokenType::TokenError);
    assert_eq!(toks[0].val, "unterminated string");
}

#[test]
fn unexpected_character_is_an_error_token() {
    let toks = lex("1 @ 2");
    assert_eq!(toks.len(), 3);
    assert_eq!(toks[1].kind, TokenType::TokenError);
    assert_eq!(toks[1].val, "unexpected character @");
    assert_eq!(toks[2].val, "2");
    let under = lex("_");
    assert_eq!(under[0].val, "unexpected character _");
}

#[test]
fn unicode_letters_begin_identifiers() {
    let toks = lex("été=1");
    assert_eq!(toks[0].kind, TokenType::TokenIdentifier);
    assert_eq!(toks[0].val, "été");
    assert_eq!(toks[0].col, 3);
    assert_eq!(toks[1].kind, TokenType::TokenEqual);
}

#[test]
fn two_runs_give_the_same_tokens() {
    let src = "for (a=0; a<3; a=a+1) { b = b * 2; } // done\nreturn b;";
    let one = lex(src);
    let two = lex(src);
    assert_eq!(one.len(), two.len());
    assert_eq!(one.len(), 27);
    for i in 0..one.len() {
        assert_eq!(one[i].kind, two[i].kind);
        assert_eq!(one[i].val, two[i].val);
        assert_eq!(one[i].line, two[i].line);
        assert_eq!(one[i].col, two[i].col);
    }
}

fn find_from(chars: &[char], at: usize, val: &[char]) -> usize {
    let mut start = at;
    while chars[start..start + val.len()] != *val {
        start += 1;
    }
    start
}

#[test]
fn lexemes_and_skipped_text_rebuild_the_input() {
    let src = "  if (a1 >= 10) { return a1 - 2.5; } // tail\n\telse \"s\" ";
    let chars: Vec<char> = src.chars().collect();
    let mut t = Tokenizer::new(src);
    let mut rebuilt = String::new();
    let mut at = 0usize;
    let mut count = 0;
    loop {
        let tok = t.scan_next();
        assert_ne!(tok.kind, TokenType::TokenError);
        let val: Vec<char> = tok.val.chars().collect();
        let start = if tok.kind == TokenType::TokenEof {
            chars.len()
        } else {
            find_from(&chars, at, &val)
        };
        let gap: String = chars[at..start].iter().collect();
        for piece in gap.split('\n') {
            let piece = piece.trim();
            assert!(piece.is_empty() || piece.starts_with("//"));
        }
        rebuilt.push_str(&gap);
        rebuilt.push_str(&tok.val);
        at = start + val.len();
        count += 1;
        if tok.kind == TokenType::TokenEof {
            break;
        }
    }
    assert_eq!(count, 16);
    assert_eq!(rebuilt, src);
}

#[test]
fn token_helpers() {
    let mut tok = Token::new(TokenType::TokenStar, "*", 3, 9);
    assert!(tok.is(TokenType::TokenStar));
    assert!(!tok.is(TokenType::TokenDeref));
    tok.update_kind(TokenType::TokenDeref);
    assert!(tok.is(TokenType::TokenDeref));
    assert_eq!(tok.val, "*");
    assert_eq!(tok.line, 3);
    assert_eq!(tok.col, 9);
    let copy = tok.clone();
    assert_eq!(copy.kind, TokenType::TokenDeref);
    assert_eq!(copy.val, "*");
    assert!(TokenType::TokenIf.is(&TokenType::TokenIf));
    assert!(!TokenType::TokenIf.is(&TokenType::TokenElse));
}

#[test]
fn token_as_text() {
    let tok = Token::new(TokenType::TokenNumber, "42", 3, 17);
    assert_eq!(tok.to_string(), "[3:17] TokenNumber 42");
    assert_eq!(tok.to_string(), format!("[{}:{}] {:?} {}", tok.line, tok.col, tok.kind, tok.val));
    let end = Token::new(TokenType::TokenEof, "", 0, 0);
    assert_eq!(end.to_string(), "[0:0] TokenEof ");
}

#[test]
fn kind_names_are_the_debug_names() {
    let kinds = [
        TokenType::TokenLeftParen,
        TokenType::TokenRightParen,
        TokenType::TokenLeftBrace,
        TokenType::TokenRightBrace,
        TokenType::TokenComma,
        TokenType::TokenDot,
        TokenType::TokenMinus,
        TokenType::TokenPlus,
        TokenType::TokenSemicolon,
        TokenType::TokenSlash,
        TokenType::TokenStar,
        TokenType::TokenAddr,
        TokenType::TokenDeref,
        TokenType::TokenBang,
        TokenType::TokenBangEqual,
        TokenType::TokenEqual,
        TokenType::TokenEqualEqual,
        TokenType::TokenGreater,
        TokenType::TokenGreaterEqual,
        TokenType::TokenLess,
        TokenType::TokenLessEqual,
        TokenType::TokenIdentifier,
        TokenType::TokenString,
        TokenType::TokenNumber,
        TokenType::TokenElse,
        TokenType::TokenFor,
        TokenType::TokenFunc,
        TokenType::TokenIf,
        TokenType::TokenNil,
        TokenType::TokenReturn,
        TokenType::TokenTrue,
        TokenType::TokenVar,
        TokenType::TokenWhile,
        TokenType::TokenInt,
        TokenType::TokenError,
        TokenType::TokenEof,
    ];
    for k in kinds {
        assert_eq!(k.name(), format!("{:?}", k));
    }
}

#[test]
fn first_character_decides() {
    assert_eq!(lead('7', true, false, false), Lead::Number);
    assert_eq!(lead('x', false, true, false), Lead::Word);
    assert_eq!(lead('x', true, true, true), Lead::Number);
    assert_eq!(lead('"', false, false, false), Lead::Text);
    assert_eq!(lead('(', false, false, false), Lead::Operator { kind: TokenType::TokenLeftParen, wide: false });
    assert_eq!(lead(';', false, false, true), Lead::Operator { kind: TokenType::TokenSemicolon, wide: false });
    assert_eq!(lead('+', false, false, true), Lead::Operator { kind: TokenType::TokenPlus, wide: false });
    assert_eq!(lead('<', false, false, false), Lead::Operator { kind: TokenType::TokenLess, wide: false });
    assert_eq!(lead('<', false, false, true), Lead::Operator { kind: TokenType::TokenLessEqual, wide: true });
    assert_eq!(lead('!', false, false, true), Lead::Operator { kind: TokenType::TokenBangEqual, wide: true });
    assert_eq!(lead('=', false, false, true), Lead::Operator { kind: TokenType::TokenEqualEqual, wide: true });
    assert_eq!(lead('>', false, false, true), Lead::Operator { kind: TokenType::TokenGreaterEqual, wide: true });
    assert_eq!(lead('=', false, false, false), Lead::Operator { kind: TokenType::TokenEqual, wide: false });
    assert_eq!(lead('@', false, false, false), Lead::Unexpected);
    assert_eq!(lead('(', false, true, false), Lead::Word);
}

#[test]
fn cursor_moves() {
    let mut t = Tokenizer::new("ab");
    t.incr_curr();
    let b = t.scan_next();
    assert_eq!(b.val, "b");
    assert_eq!(b.col, 2);
    let mut u = Tokenizer::new("x");
    u.incr_line();
    let x = u.scan_next();
    assert_eq!(x.line, 1);
    assert_eq!(x.col, 1);
}
