//! What lexing means: the tokens of a text, stated over sequences of
//! characters.

use vstd::prelude::*;
use crate::tokenizer::token::TokenView;
use crate::tokenizer::tokentype::{keyword_kind, TokenType};
use crate::util::{alphabetic, alphanumeric, digit};

verus! {

/// A place in the text: how many characters lie before it, and the line and
/// column counted so far.
pub struct Cursor {
    pub pos: int,
    pub line: int,
    pub col: int,
}

impl Cursor {
    /// The beginning of a text.
    pub open spec fn origin() -> Cursor {
        Cursor { pos: 0, line: 0, col: 0 }
    }

    /// Past `n` characters of the same line.
    pub open spec fn run(self, n: int) -> Cursor {
        Cursor { pos: self.pos + n, line: self.line, col: self.col + n }
    }

    /// Past one character of the same line.
    pub open spec fn step(self) -> Cursor {
        self.run(1)
    }

    /// Past a line feed: the line count goes up and the column starts over,
    /// the line feed itself being the first column.
    pub open spec fn newline(self) -> Cursor {
        Cursor { pos: self.pos + 1, line: self.line + 1, col: 1 }
    }
}

/// The classes of character that a run is made of.
#[derive(Clone, Copy, PartialEq, Eq, Structural, Debug)]
pub enum CharClass {
    Digit,
    AlphaNum,
}

impl CharClass {
    pub open spec fn holds(self, ch: char) -> bool {
        match self {
            CharClass::Digit => digit(ch),
            CharClass::AlphaNum => alphanumeric(ch),
        }
    }
}

/// The end of the longest run of `class` characters that starts at `from`.
pub open spec fn run_end(input: Seq<char>, from: int, class: CharClass) -> int
    decreases input.len() - from,
{
    if 0 <= from < input.len() && class.holds(input[from]) {
        run_end(input, from + 1, class)
    } else {
        from
    }
}

/// Where the lexer stands after the blanks and `//` comments that begin at
/// `c`. Inside a comment everything up to the line feed is passed over.
pub open spec fn skip_blank(input: Seq<char>, c: Cursor, in_comment: bool) -> Cursor
    decreases input.len() - c.pos,
{
    if c.pos < 0 || c.pos >= input.len() {
        c
    } else {
        let ch = input[c.pos];
        if ch == '\n' {
            skip_blank(input, c.newline(), false)
        } else if in_comment || ch == ' ' || ch == '\r' || ch == '\t' {
            skip_blank(input, c.step(), in_comment)
        } else if ch == '/' && c.pos + 1 < input.len() && input[c.pos + 1] == '/' {
            skip_blank(input, c.step(), true)
        } else {
            c
        }
    }
}

/// Where the body of a string literal ends: at the closing quote, or at the
/// end of the text. `c` is a place inside the literal.
pub open spec fn string_end(input: Seq<char>, c: Cursor) -> Cursor
    decreases input.len() - c.pos,
{
    if c.pos < 0 || c.pos >= input.len() || input[c.pos] == '"' {
        c
    } else if input[c.pos] == '\n' {
        string_end(input, c.newline())
    } else {
        string_end(input, c.step())
    }
}

/// Where a number that starts at `from` ends: digits, then optionally a dot
/// followed by at least one digit.
pub open spec fn number_end(input: Seq<char>, from: int) -> int {
    let whole = run_end(input, from, CharClass::Digit);
    if whole + 1 < input.len() && input[whole] == '.' && digit(input[whole + 1]) {
        run_end(input, whole + 1, CharClass::Digit)
    } else {
        whole
    }
}

/// The kind of an operator or punctuation character, given whether an `=`
/// follows it, and how many characters the token takes. `None` for a
/// character that begins no token.
pub open spec fn operator_kind(ch: char, eq_follows: bool) -> Option<(TokenType, int)> {
    if ch == '(' {
        Some((TokenType::TokenLeftParen, 1int))
    } else if ch == ')' {
        Some((TokenType::TokenRightParen, 1int))
    } else if ch == '{' {
        Some((TokenType::TokenLeftBrace, 1int))
    } else if ch == '}' {
        Some((TokenType::TokenRightBrace, 1int))
    } else if ch == ',' {
        Some((TokenType::TokenComma, 1int))
    } else if ch == '.' {
        Some((TokenType::TokenDot, 1int))
    } else if ch == ';' {
        Some((TokenType::TokenSemicolon, 1int))
    } else if ch == '-' {
        Some((TokenType::TokenMinus, 1int))
    } else if ch == '+' {
        Some((TokenType::TokenPlus, 1int))
    } else if ch == '/' {
        Some((TokenType::TokenSlash, 1int))
    } else if ch == '*' {
        Some((TokenType::TokenStar, 1int))
    } else if ch == '&' {
        Some((TokenType::TokenAddr, 1int))
    } else if ch == '!' {
        Some(if eq_follows { (TokenType::TokenBangEqual, 2int) } else { (TokenType::TokenBang, 1int) })
    } else if ch == '=' {
        Some(if eq_follows { (TokenType::TokenEqualEqual, 2int) } else { (TokenType::TokenEqual, 1int) })
    } else if ch == '<' {
        Some(if eq_follows { (TokenType::TokenLessEqual, 2int) } else { (TokenType::TokenLess, 1int) })
    } else if ch == '>' {
        Some(if eq_follows { (TokenType::TokenGreaterEqual, 2int) } else { (TokenType::TokenGreater, 1int) })
    } else {
        None
    }
}

/// The message of the error token for a string literal without a closing
/// quote.
pub open spec fn unterminated_message() -> Seq<char> {
    "unterminated string"@
}

/// The message of the error token for a character that begins no token.
pub open spec fn unexpected_message(ch: char) -> Seq<char> {
    "unexpected character "@.push(ch)
}

/// One step of lexing: the token found, where its text begins, and where the
/// lexer stands afterwards.
pub struct Scanned {
    pub token: TokenView,
    pub start: int,
    pub next: Cursor,
}

/// The token whose text runs from `s` to `end` on one line.
pub open spec fn lexeme(input: Seq<char>, s: Cursor, end: int, kind: TokenType) -> Scanned {
    let next = s.run(end - s.pos);
    Scanned {
        token: TokenView {
            kind,
            val: input.subrange(s.pos, end),
            line: next.line,
            col: next.col,
        },
        start: s.pos,
        next,
    }
}

/// What the first character of a token calls for.
#[derive(Clone, Copy, PartialEq, Eq, Structural, Debug)]
pub enum Lead {
    /// A digit: a number follows.
    Number,
    /// A letter: an identifier or a keyword follows.
    Word,
    /// A double quote: a string literal follows.
    Text,
    /// An operator or punctuation of the kind `kind`, which takes the `=`
    /// after it where `wide` holds.
    Operator { kind: TokenType, wide: bool },
    /// A character that begins no token.
    Unexpected,
}

/// What the character `ch` calls for at the beginning of a token, given
/// whether it is a digit, whether it is a letter, and whether an `=`
/// follows it. A digit is looked at first, then a letter, then the
/// character itself.
pub open spec fn lead_of(ch: char, digit: bool, letter: bool, eq_follows: bool) -> Lead {
    if digit {
        Lead::Number
    } else if letter {
        Lead::Word
    } else if ch == '"' {
        Lead::Text
    } else {
        match operator_kind(ch, eq_follows) {
            Some((kind, width)) => Lead::Operator { kind, wide: width == 2 },
            None => Lead::Unexpected,
        }
    }
}

/// The token that begins at `s` with the character `ch`, once it is known
/// what the character calls for.
pub open spec fn scan_with(input: Seq<char>, s: Cursor, ch: char, lead: Lead) -> Scanned {
    match lead {
        Lead::Number => lexeme(input, s, number_end(input, s.pos + 1), TokenType::TokenNumber),
        Lead::Word => {
            let end = run_end(input, s.pos + 1, CharClass::AlphaNum);
            lexeme(input, s, end, keyword_kind(input.subrange(s.pos, end)))
        },
        Lead::Text => {
            let close = string_end(input, s.step());
            if close.pos >= input.len() {
                Scanned {
                    token: TokenView {
                        kind: TokenType::TokenError,
                        val: unterminated_message(),
                        line: close.line,
                        col: close.col,
                    },
                    start: s.pos,
                    next: close,
                }
            } else {
                let next = close.step();
                Scanned {
                    token: TokenView {
                        kind: TokenType::TokenString,
                        val: input.subrange(s.pos, next.pos),
                        line: next.line,
                        col: next.col,
                    },
                    start: s.pos,
                    next,
                }
            }
        },
        Lead::Operator { kind, wide } => lexeme(
            input,
            s,
            if wide {
                s.pos + 2
            } else {
                s.pos + 1
            },
            kind,
        ),
        Lead::Unexpected => Scanned {
            token: TokenView {
                kind: TokenType::TokenError,
                val: unexpected_message(ch),
                line: s.step().line,
                col: s.step().col,
            },
            start: s.pos,
            next: s.step(),
        },
    }
}

/// The next token of `input` for a lexer that stands at `c`.
///
/// Blanks and comments are passed over first. A token carries the line and
/// the column of the place where it ends. An error token carries a message
/// in place of its text.
pub open spec fn scan(input: Seq<char>, c: Cursor) -> Scanned {
    let s = skip_blank(input, c, false);
    if s.pos < 0 || s.pos >= input.len() {
        lexeme(input, s, s.pos, TokenType::TokenEof)
    } else {
        let ch = input[s.pos];
        let eq_follows = s.pos + 1 < input.len() && input[s.pos + 1] == '=';
        scan_with(input, s, ch, lead_of(ch, digit(ch), alphabetic(ch), eq_follows))
    }
}

/// The tokens of `input` from `c` on, up to the end of the text. The end
/// itself is no token of the sequence.
pub open spec fn tokens(input: Seq<char>, c: Cursor) -> Seq<TokenView>
    decreases input.len() - c.pos,
{
    let s = scan(input, c);
    if s.token.kind == TokenType::TokenEof {
        Seq::empty()
    } else {
        proof {
            lemma_scan_bounds(input, c);
        }
        seq![s.token] + tokens(input, s.next)
    }
}

/// The text from `c` on as lexing sees it: what is passed over before each
/// token, then the token's own text, in turn.
pub open spec fn reassembled(input: Seq<char>, c: Cursor) -> Seq<char>
    decreases input.len() - c.pos,
{
    let s = scan(input, c);
    let passed = input.subrange(c.pos, s.start);
    if s.token.kind == TokenType::TokenEof {
        passed
    } else {
        proof {
            lemma_scan_bounds(input, c);
        }
        passed + s.token.val + reassembled(input, s.next)
    }
}

pub proof fn lemma_run_end_bounds(input: Seq<char>, from: int, class: CharClass)
    requires
        0 <= from <= input.len(),
    ensures
        from <= run_end(input, from, class) <= input.len(),
    decreases input.len() - from,
{
    if 0 <= from < input.len() && class.holds(input[from]) {
        lemma_run_end_bounds(input, from + 1, class);
    }
}

pub proof fn lemma_skip_blank_bounds(input: Seq<char>, c: Cursor, in_comment: bool)
    requires
        0 <= c.pos <= input.len(),
    ensures
        c.pos <= skip_blank(input, c, in_comment).pos <= input.len(),
    decreases input.len() - c.pos,
{
    if 0 <= c.pos < input.len() {
        let ch = input[c.pos];
        if ch == '\n' {
            lemma_skip_blank_bounds(input, c.newline(), false);
        } else if in_comment || ch == ' ' || ch == '\r' || ch == '\t' {
            lemma_skip_blank_bounds(input, c.step(), in_comment);
        } else if ch == '/' && c.pos + 1 < input.len() && input[c.pos + 1] == '/' {
            lemma_skip_blank_bounds(input, c.step(), true);
        }
    }
}

pub proof fn lemma_string_end_bounds(input: Seq<char>, c: Cursor)
    requires
        0 <= c.pos <= input.len(),
    ensures
        c.pos <= string_end(input, c).pos <= input.len(),
    decreases input.len() - c.pos,
{
    if 0 <= c.pos < input.len() && input[c.pos] != '"' {
        if input[c.pos] == '\n' {
            lemma_string_end_bounds(input, c.newline());
        } else {
            lemma_string_end_bounds(input, c.step());
        }
    }
}

/// A step of lexing stays inside the text, and every token but the end takes
/// at least one character.
pub proof fn lemma_scan_bounds(input: Seq<char>, c: Cursor)
    ensures
        0 <= c.pos <= input.len() ==> c.pos <= scan(input, c).start <= scan(input, c).next.pos
            <= input.len(),
        scan(input, c).token.kind != TokenType::TokenEof ==> c.pos < scan(input, c).next.pos,
        scan(input, c).token.kind != TokenType::TokenEof ==> 0 <= c.pos < input.len(),
{
    if 0 <= c.pos <= input.len() {
        lemma_skip_blank_bounds(input, c, false);
        let s = skip_blank(input, c, false);
        if s.pos < input.len() {
            lemma_run_end_bounds(input, s.pos + 1, CharClass::Digit);
            lemma_run_end_bounds(input, s.pos + 1, CharClass::AlphaNum);
            let whole = run_end(input, s.pos + 1, CharClass::Digit);
            if whole + 1 < input.len() {
                lemma_run_end_bounds(input, whole + 1, CharClass::Digit);
            }
            lemma_string_end_bounds(input, s.step());
        }
    }
}

/// Once the end of the text has been found, no token follows.
pub proof fn lemma_end_is_final(input: Seq<char>, c: Cursor)
    requires
        0 <= c.pos <= input.len(),
        scan(input, c).token.kind == TokenType::TokenEof,
    ensures
        tokens(input, c) == Seq::<TokenView>::empty(),
        tokens(input, scan(input, c).next) == Seq::<TokenView>::empty(),
        scan(input, scan(input, c).next).token.kind == TokenType::TokenEof,
{
    lemma_skip_blank_bounds(input, c, false);
    let s = skip_blank(input, c, false);
    assert(s.pos >= input.len());
    assert(skip_blank(input, s, false) == s);
}

/// The text of a token that is no error token is the very stretch of the
/// source that the lexer moved over while reading it.
pub proof fn lemma_lexeme_is_slice(input: Seq<char>, c: Cursor)
    requires
        scan(input, c).token.kind != TokenType::TokenError,
    ensures
        scan(input, c).token.val == input.subrange(scan(input, c).start, scan(input, c).next.pos),
{
}

/// Lexing loses nothing: where no error token occurs, the texts of the
/// tokens, each after the blanks and comments passed over before it, and
/// then what is passed over before the end, make up the source text again.
pub proof fn lemma_lexeme_fidelity(input: Seq<char>, c: Cursor)
    requires
        0 <= c.pos <= input.len(),
        forall|i: int|
            0 <= i < tokens(input, c).len() ==> (#[trigger] tokens(input, c)[i]).kind
                != TokenType::TokenError,
    ensures
        reassembled(input, c) == input.subrange(c.pos, input.len() as int),
    decreases input.len() - c.pos,
{
    let s = scan(input, c);
    lemma_scan_bounds(input, c);
    if s.token.kind == TokenType::TokenEof {
        lemma_skip_blank_bounds(input, c, false);
        assert(s.start == input.len());
    } else {
        let rest = tokens(input, s.next);
        assert(tokens(input, c) == seq![s.token] + rest);
        assert(tokens(input, c)[0] == s.token);
        assert forall|i: int| 0 <= i < rest.len() implies (#[trigger] rest[i]).kind
            != TokenType::TokenError by {
            assert(tokens(input, c)[i + 1] == rest[i]);
        }
        lemma_lexeme_is_slice(input, c);
        lemma_lexeme_fidelity(input, s.next);
        assert(input.subrange(c.pos, s.start) + s.token.val + input.subrange(
            s.next.pos,
            input.len() as int,
        ) =~= input.subrange(c.pos, input.len() as int));
    }
}

/// Lexing is a function of the text and the place alone: two runs over equal
/// texts from equal places give the same tokens, lines and columns
/// included.
pub proof fn lemma_lexing_is_determined(a: Seq<char>, b: Seq<char>, c: Cursor, d: Cursor)
    requires
        a =~= b,
        c == d,
    ensures
        tokens(a, c) == tokens(b, d),
        scan(a, c) == scan(b, d),
{
}

} // verus!
