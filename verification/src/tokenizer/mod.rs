//! The lexer: a cursor over the characters of the source text that hands
//! out one token per call.

pub mod lexing;
pub mod token;
pub mod tokentype;

use vstd::prelude::*;
use vstd::string::StringExecFns;
use crate::tokenizer::lexing::{
    lead_of, lemma_run_end_bounds, lemma_skip_blank_bounds, number_end, run_end, scan, skip_blank,
    string_end, tokens, unterminated_message, CharClass, Cursor, Lead,
};
use crate::tokenizer::token::{Token, TokenView};
use crate::tokenizer::tokentype::{keyword_kind, kw_type_from_str, TokenType};
use crate::util::{is_alpha, is_alpha_num, is_digit, push_char};

verus! {

pub struct Tokenizer {
    len: usize,
    start: usize,
    pub input: Vec<char>,
    current: usize,
    line: usize,
    col: usize,
}

/// Tells what the character `ch` calls for at the beginning of a token.
/// `digit` and `letter` say whether it is a digit and whether it is a
/// letter; `eq_follows` says whether an `=` comes after it.
pub fn lead(ch: char, digit: bool, letter: bool, eq_follows: bool) -> (l: Lead)
    ensures
        l == lead_of(ch, digit, letter, eq_follows),
{
    if digit {
        return Lead::Number;
    }
    if letter {
        return Lead::Word;
    }
    if ch == '"' {
        return Lead::Text;
    }
    let kind = if ch == '(' {
        TokenType::TokenLeftParen
    } else if ch == ')' {
        TokenType::TokenRightParen
    } else if ch == '{' {
        TokenType::TokenLeftBrace
    } else if ch == '}' {
        TokenType::TokenRightBrace
    } else if ch == ',' {
        TokenType::TokenComma
    } else if ch == '.' {
        TokenType::TokenDot
    } else if ch == ';' {
        TokenType::TokenSemicolon
    } else if ch == '-' {
        TokenType::TokenMinus
    } else if ch == '+' {
        TokenType::TokenPlus
    } else if ch == '/' {
        TokenType::TokenSlash
    } else if ch == '*' {
        TokenType::TokenStar
    } else if ch == '&' {
        TokenType::TokenAddr
    } else if ch == '!' {
        return Lead::Operator {
            kind: if eq_follows {
                TokenType::TokenBangEqual
            } else {
                TokenType::TokenBang
            },
            wide: eq_follows,
        };
    } else if ch == '=' {
        return Lead::Operator {
            kind: if eq_follows {
                TokenType::TokenEqualEqual
            } else {
                TokenType::TokenEqual
            },
            wide: eq_follows,
        };
    } else if ch == '<' {
        return Lead::Operator {
            kind: if eq_follows {
                TokenType::TokenLessEqual
            } else {
                TokenType::TokenLess
            },
            wide: eq_follows,
        };
    } else if ch == '>' {
        return Lead::Operator {
            kind: if eq_follows {
                TokenType::TokenGreaterEqual
            } else {
                TokenType::TokenGreater
            },
            wide: eq_follows,
        };
    } else {
        return Lead::Unexpected;
    };
    Lead::Operator { kind, wide: false }
}

impl Tokenizer {
    /// Where the lexer stands.
    pub closed spec fn cursor(&self) -> Cursor {
        Cursor { pos: self.current as int, line: self.line as int, col: self.col as int }
    }

    /// The lexer stands inside its text, and has counted no more lines and
    /// columns than characters.
    pub closed spec fn wf(&self) -> bool {
        &&& self.len == self.input@.len()
        &&& self.start <= self.current <= self.len
        &&& self.line <= self.current
        &&& self.col <= self.current
    }

    /// The lexer stands before a character that it may move past: as
    /// [`Self::wf`], but the line of a line feed may be counted already.
    closed spec fn may_advance(&self) -> bool {
        &&& self.len == self.input@.len()
        &&& self.start <= self.current < self.len
        &&& self.line <= self.current + 1
        &&& self.col <= self.current
    }

    /// The characters of the source text.
    pub closed spec fn text(&self) -> Seq<char> {
        self.input@
    }

    /// This lexer, standing at `c` instead.
    pub closed spec fn moved_to(self, c: Cursor) -> Tokenizer {
        Tokenizer { current: c.pos as usize, line: c.line as usize, col: c.col as usize, ..self }
    }

    /// The tokens that are still to come.
    pub open spec fn remaining(&self) -> Seq<TokenView> {
        tokens(self.text(), self.cursor())
    }

    /// A lexer in good order stands inside its text.
    pub proof fn lemma_wf_bounds(&self)
        requires
            self.wf(),
        ensures
            0 <= self.cursor().pos <= self.text().len(),
    {
    }

    pub fn new(input: &str) -> (t: Self)
        ensures
            t.wf(),
            t.text() == input@,
            t.cursor() == Cursor::origin(),
    {
        let mut data: Vec<char> = Vec::new();
        for c in it: input.chars()
            invariant
                it.seq() == input@,
                data@ == input@.take(it.index() as int),
        {
            data.push(c);
        }
        let length = data.len();

        Self { input: data, current: 0, line: 0, col: 0, len: length, start: 0 }
    }

    fn make_token(&self, t: TokenType) -> (tok: Token)
        requires
            self.wf(),
        ensures
            tok@.kind == t,
            tok@.val == self.input@.subrange(self.start as int, self.current as int),
            tok@.line == self.line,
            tok@.col == self.col,
    {
        let str = self.fetch(self.start, self.current);
        Token::new(t, str.as_str(), self.line, self.col)
    }

    /// Moves past one character of the line.
    pub fn incr_curr(&mut self)
        requires
            old(self).cursor().pos < usize::MAX,
            old(self).cursor().col < usize::MAX,
        ensures
            *final(self) == old(self).moved_to(old(self).cursor().step()),
            final(self).cursor() == old(self).cursor().step(),
            final(self).text() == old(self).text(),
            old(self).wf() && old(self).cursor().pos < old(self).text().len() ==> final(self).wf(),
    {
        self.current += 1;
        self.col += 1;
    }

    /// Counts a line and starts the column over.
    pub fn incr_line(&mut self)
        requires
            old(self).cursor().line < usize::MAX,
        ensures
            *final(self) == old(self).moved_to(
                Cursor { line: old(self).cursor().line + 1, col: 0, ..old(self).cursor() },
            ),
            final(self).cursor() == (Cursor {
                line: old(self).cursor().line + 1,
                col: 0,
                ..old(self).cursor()
            }),
            final(self).text() == old(self).text(),
            old(self).wf() && old(self).cursor().line < old(self).cursor().pos
                ==> final(self).wf(),
    {
        self.line += 1;
        self.col = 0
    }

    fn peek(&self, pos: Option<usize>) -> (ch: Option<char>)
        requires
            self.wf(),
        ensures
            ch == self.ahead(
                match pos {
                    Some(p) => p as int,
                    None => 0,
                },
            ),
    {
        if self.is_end() {
            return None;
        }
        let p: usize = match pos {
            Some(p) => p,
            None => 0,
        };
        if p >= self.len - self.current {
            None
        } else {
            Some(self.input[self.current + p])
        }
    }

    /// The character `p` places ahead of the cursor, if the text reaches
    /// that far.
    closed spec fn ahead(&self, p: int) -> Option<char> {
        if 0 <= p && self.current + p < self.input@.len() {
            Some(self.input@[self.current + p])
        } else {
            None
        }
    }

    fn peek_is(&self, ch: char, pos: Option<usize>) -> (b: bool)
        requires
            self.wf(),
        ensures
            b == (self.ahead(
                match pos {
                    Some(p) => p as int,
                    None => 0,
                },
            ) == Some(ch)),
    {
        match self.peek(pos) {
            Some(c) => c == ch,
            None => false,
        }
    }

    fn peek1(&self) -> (ch: Option<char>)
        requires
            self.wf(),
        ensures
            ch == self.ahead(0),
    {
        return self.peek(None);
    }

    fn peek1_is(&self, ch: char) -> (b: bool)
        requires
            self.wf(),
        ensures
            b == (self.ahead(0) == Some(ch)),
    {
        return self.peek_is(ch, None);
    }

    fn peek_is_match(&self, pos: Option<usize>, class: CharClass) -> (b: bool)
        requires
            self.wf(),
        ensures
            b == match self.ahead(
                match pos {
                    Some(p) => p as int,
                    None => 0,
                },
            ) {
                Some(c) => class.holds(c),
                None => false,
            },
    {
        match self.peek(pos) {
            Some(c) => match class {
                CharClass::Digit => is_digit(c),
                CharClass::AlphaNum => is_alpha_num(c),
            },
            None => false,
        }
    }

    fn peek1_is_match(&self, class: CharClass) -> (b: bool)
        requires
            self.wf(),
        ensures
            b == match self.ahead(0) {
                Some(c) => class.holds(c),
                None => false,
            },
    {
        self.peek_is_match(None, class)
    }

    fn error_token(&self, msg: &str) -> (tok: Token)
        ensures
            tok@.kind == TokenType::TokenError,
            tok@.val == msg@,
            tok@.line == self.line,
            tok@.col == self.col,
    {
        Token::new(TokenType::TokenError, msg, self.line, self.col)
    }

    fn advance(&mut self) -> (ch: char)
        requires
            old(self).may_advance(),
        ensures
            final(self).wf(),
            final(self).input@ == old(self).input@,
            final(self).start == old(self).start,
            final(self).cursor() == old(self).cursor().step(),
            ch == old(self).input@[old(self).current as int],
    {
        self.incr_curr();
        self.input[self.current - 1]
    }

    fn next_matches(&mut self, ch: char) -> (b: bool)
        requires
            old(self).wf(),
        ensures
            final(self).wf(),
            final(self).input@ == old(self).input@,
            final(self).start == old(self).start,
            b == (old(self).ahead(0) == Some(ch)),
            final(self).cursor() == if b {
                old(self).cursor().step()
            } else {
                old(self).cursor()
            },
    {
        if self.is_end() {
            return false;
        }
        let next = self.input[self.current];
        if ch != next {
            return false;
        }
        self.incr_curr();

        true
    }

    fn skip_whitespaces(&mut self)
        requires
            old(self).wf(),
        ensures
            final(self).wf(),
            final(self).input@ == old(self).input@,
            final(self).cursor() == skip_blank(old(self).input@, old(self).cursor(), false),
    {
        let ghost goal = skip_blank(self.input@, self.cursor(), false);
        loop
            invariant
                self.wf(),
                self.input@ == old(self).input@,
                goal == skip_blank(old(self).input@, old(self).cursor(), false),
                goal == skip_blank(self.input@, self.cursor(), false),
            ensures
                self.wf(),
                self.input@ == old(self).input@,
                self.cursor() == goal,
            decreases self.len - self.current,
        {
            let ghost before = self.current;
            let ch = match self.peek1() {
                None => { return ; },
                Some(c) => c,
            };

            if ch == ' ' || ch == '\r' || ch == '\t' {
                self.advance();
            } else if ch == '\n' {
                self.incr_line();
                self.advance();
            } else if ch == '/' && self.peek_is('/', Some(1)) {
                self.advance();
                while !self.peek1_is('\n') && !self.is_end()
                    invariant
                        self.wf(),
                        self.input@ == old(self).input@,
                        goal == skip_blank(self.input@, self.cursor(), true),
                        before < self.current,
                    decreases self.len - self.current,
                {
                    self.advance();
                }
                proof {
                    let c = self.cursor();
                    if c.pos < self.input@.len() {
                        assert(skip_blank(self.input@, c, true) == skip_blank(
                            self.input@,
                            c,
                            false,
                        ));
                    }
                }
            } else {
                return ;
            }
        }
    }

    fn run(&mut self, class: CharClass)
        requires
            old(self).wf(),
        ensures
            final(self).wf(),
            final(self).input@ == old(self).input@,
            final(self).start == old(self).start,
            final(self).cursor() == old(self).cursor().run(
                run_end(old(self).input@, old(self).current as int, class) - old(self).current,
            ),
    {
        let ghost end = run_end(self.input@, self.current as int, class);
        while self.peek1_is_match(class)
            invariant
                self.wf(),
                self.input@ == old(self).input@,
                self.start == old(self).start,
                old(self).current <= self.current,
                end == run_end(self.input@, self.current as int, class),
                self.cursor() == old(self).cursor().run(self.current - old(self).current),
            decreases self.len - self.current,
        {
            self.advance();
        }
    }

    fn number(&mut self) -> (tok: Token)
        requires
            old(self).wf(),
        ensures
            final(self).wf(),
            final(self).input@ == old(self).input@,
            final(self).start == old(self).start,
            final(self).cursor() == old(self).cursor().run(
                number_end(old(self).input@, old(self).current as int) - old(self).current,
            ),
            tok@.kind == TokenType::TokenNumber,
            tok@.val == old(self).input@.subrange(
                old(self).start as int,
                number_end(old(self).input@, old(self).current as int),
            ),
            tok@.line == final(self).cursor().line,
            tok@.col == final(self).cursor().col,
    {
        proof {
            lemma_run_end_bounds(self.input@, self.current as int, CharClass::Digit);
        }
        self.run(CharClass::Digit);

        if self.peek1_is('.') && self.peek_is_match(Some(1), CharClass::Digit) {
            proof {
                lemma_run_end_bounds(self.input@, self.current + 1, CharClass::Digit);
            }
            self.advance();
            self.run(CharClass::Digit);
        }
        self.make_token(TokenType::TokenNumber)
    }

    fn string(&mut self) -> (tok: Token)
        requires
            old(self).wf(),
        ensures
            final(self).wf(),
            final(self).input@ == old(self).input@,
            final(self).start == old(self).start,
            ({
                let close = string_end(old(self).input@, old(self).cursor());
                if close.pos >= old(self).input@.len() {
                    &&& final(self).cursor() == close
                    &&& tok@.kind == TokenType::TokenError
                    &&& tok@.val == unterminated_message()
                } else {
                    &&& final(self).cursor() == close.step()
                    &&& tok@.kind == TokenType::TokenString
                    &&& tok@.val == old(self).input@.subrange(
                        old(self).start as int,
                        close.pos + 1,
                    )
                }
            }),
            tok@.line == final(self).cursor().line,
            tok@.col == final(self).cursor().col,
    {
        let ghost close = string_end(self.input@, self.cursor());
        while !self.is_end() && !self.peek1_is('"')
            invariant
                self.wf(),
                self.input@ == old(self).input@,
                self.start == old(self).start,
                close == string_end(self.input@, self.cursor()),
            decreases self.len - self.current,
        {
            if self.peek1_is('\n') {
                self.incr_line();
            }
            self.advance();
        }

        if self.is_end() {
            return self.error_token("unterminated string");
        }
        self.advance();

        self.make_token(TokenType::TokenString)
    }

    fn ident(&mut self) -> (tok: Token)
        requires
            old(self).wf(),
        ensures
            final(self).wf(),
            final(self).input@ == old(self).input@,
            final(self).start == old(self).start,
            ({
                let end = run_end(
                    old(self).input@,
                    old(self).current as int,
                    CharClass::AlphaNum,
                );
                &&& final(self).cursor() == old(self).cursor().run(end - old(self).current)
                &&& tok@.val == old(self).input@.subrange(old(self).start as int, end)
                &&& tok@.kind == keyword_kind(tok@.val)
            }),
            tok@.line == final(self).cursor().line,
            tok@.col == final(self).cursor().col,
    {
        proof {
            lemma_run_end_bounds(self.input@, self.current as int, CharClass::AlphaNum);
        }
        self.run(CharClass::AlphaNum);

        let ident_type = self.ident_type();
        self.make_token(ident_type)
    }

    /// Reads the next token and moves past it.
    pub fn scan_next(&mut self) -> (tok: Token)
        requires
            old(self).wf(),
        ensures
            final(self).wf(),
            final(self).text() == old(self).text(),
            tok@ == scan(old(self).text(), old(self).cursor()).token,
            final(self).cursor() == scan(old(self).text(), old(self).cursor()).next,
    {
        proof {
            lemma_skip_blank_bounds(self.input@, self.cursor(), false);
        }
        self.skip_whitespaces();

        self.start = self.current;
        if self.is_end() {
            return self.make_token(TokenType::TokenEof);
        }
        let ch = self.advance();
        let eq_follows = self.peek1_is('=');
        match lead(ch, is_digit(ch), is_alpha(ch), eq_follows) {
            Lead::Number => self.number(),
            Lead::Word => self.ident(),
            Lead::Text => self.string(),
            Lead::Operator { kind, wide } => {
                if wide {
                    self.next_matches('=');
                }
                self.make_token(kind)
            },
            Lead::Unexpected => {
                let mut msg = String::from_str("unexpected character ");
                push_char(&mut msg, ch);
                self.error_token(msg.as_str())
            },
        }
    }

    fn fetch(&self, from: usize, to: usize) -> (s: String)
        requires
            from <= to <= self.input@.len(),
        ensures
            s@ == self.input@.subrange(from as int, to as int),
    {
        let mut s = String::new();
        let mut i: usize = from;
        while i < to
            invariant
                from <= i <= to <= self.input@.len(),
                s@ == self.input@.subrange(from as int, i as int),
            decreases to - i,
        {
            push_char(&mut s, self.input[i]);
            i += 1;
            assert(self.input@.subrange(from as int, i as int) == self.input@.subrange(
                from as int,
                i - 1,
            ).push(self.input@[i - 1]));
        }
        s
    }

    fn ident_type(&self) -> (kind: TokenType)
        requires
            self.wf(),
        ensures
            kind == keyword_kind(self.input@.subrange(self.start as int, self.current as int)),
    {
        let str = self.fetch(self.start, self.current);
        kw_type_from_str(str.as_str())
    }

    fn is_end(&self) -> (b: bool)
        ensures
            b == (self.current >= self.len),
    {
        self.current >= self.len
    }

    /// The next token, or `None` once the text is used up.
    pub fn next(&mut self) -> (item: Option<Token>)
        requires
            old(self).wf(),
        ensures
            final(self).wf(),
            final(self).text() == old(self).text(),
            final(self).cursor() == scan(old(self).text(), old(self).cursor()).next,
            item matches Some(tok) ==> tok@ == scan(old(self).text(), old(self).cursor()).token,
            item is None <==> scan(old(self).text(), old(self).cursor()).token.kind
                == TokenType::TokenEof,
    {
        let tok = self.scan_next();
        if tok.is(TokenType::TokenEof) {
            return None;
        }
        Some(tok)
    }
}

} // verus!
