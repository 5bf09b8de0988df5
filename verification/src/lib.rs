//! A small compiler from a C-like expression language to x86-64 assembly text.

pub mod ast;
pub mod codegen;
pub mod compiler;
pub mod parser;
pub mod tokenizer;
pub mod util;

use vstd::prelude::*;
use crate::codegen::writer::{cmd1, cmd2, indented, line, Codegen};
use crate::compiler::limits::{count_labels, push_depth};
use crate::compiler::lowering::{label_count, lower, stack_need, Machine};
use crate::compiler::x86::X86;
use crate::parser::grammar::{parse_program, Mismatch, ParseError, ParseState};
use crate::parser::{token_view, Parser};
use crate::tokenizer::token::Token;
use crate::tokenizer::lexing::{tokens, Cursor};
use crate::util::{aligned, decimal, x86_program_offset};

verus! {

/// A compiled program: its assembly, the tokens that the parser expected
/// and did not find, and the ids of the variables that the emitter did not
/// find in the scope.
#[derive(Debug)]
pub struct Assembly {
    pub text: String,
    pub mismatches: Vec<Mismatch>,
    pub unresolved: Vec<i8>,
}

/// Why no assembly was made.
#[derive(Clone, Copy, PartialEq, Eq, Structural, Debug)]
pub enum GenError {
    /// The source did not parse.
    Parse(ParseError),
    /// The program has more branches and loops than there are label
    /// numbers.
    TooManyLabels,
    /// The program nests its operands deeper than the push counter counts.
    TooDeep,
}

/// A source that gave no assembly: why, what the parser had noted until
/// then, and the two tokens on which it stood.
#[derive(Debug)]
pub struct Failure {
    pub error: GenError,
    pub mismatches: Vec<Mismatch>,
    pub curr_token: Option<Token>,
    pub peek_token: Option<Token>,
}

/// The two lines that open the output.
pub open spec fn header_text() -> Seq<char> {
    line(indented(".globl main"@)) + line("main:"@)
}

/// The frame size operand for a frame of `offset` bytes: `$` and the size
/// rounded up to a multiple of 16.
pub open spec fn frame_operand(offset: int) -> Seq<char> {
    seq!['$'] + decimal(aligned(offset, 16))
}

/// The prologue: it saves the frame pointer and reserves the frame.
pub open spec fn prologue_text(frame: Seq<char>) -> Seq<char> {
    line(cmd1("push"@, "%rbp"@)) + line(cmd2("mov"@, "%rsp"@, "%rbp"@)) + line(
        cmd2("sub"@, frame, "%rsp"@),
    )
}

/// The epilogue: the label that `return` jumps to, and the way back.
pub open spec fn epilogue_text() -> Seq<char> {
    line(".L.return:"@) + line(cmd2("mov"@, "%rbp"@, "%rsp"@)) + line(cmd1("pop"@, "%rbp"@))
        + line(indented("ret"@))
}

/// The state in which the emitter begins on a program whose frame takes
/// `offset` bytes.
pub open spec fn entry(offset: int) -> Machine {
    Machine {
        text: header_text() + prologue_text(frame_operand(offset)),
        depth: 0,
        label: 0,
        missing: Seq::empty(),
    }
}

/// The failure `f` is the error `error` met in the parser state `state`.
pub open spec fn failed(f: Failure, error: GenError, state: ParseState) -> bool {
    &&& f.error == error
    &&& f.mismatches@ == state.notes
    &&& token_view(f.curr_token) == state.current()
    &&& token_view(f.peek_token) == state.peeked()
}

/// What compiling the source `input` gives.
///
/// The source is lexed and parsed as a program. Where that fails, or the
/// program asks more of the emitter's counters than they hold, there is no
/// assembly. Else the assembly is the header, the prologue with the frame of
/// the program's locals, the lowered program, and the epilogue.
pub open spec fn compiled(input: Seq<char>, r: Result<Assembly, Failure>) -> bool {
    let p = parse_program(ParseState::initial(tokens(input, Cursor::origin())));
    match p.res {
        Err(e) => r matches Err(f) && failed(f, GenError::Parse(e), p.state),
        Ok(ast) => {
            if label_count(ast) > u16::MAX {
                r matches Err(f) && failed(f, GenError::TooManyLabels, p.state)
            } else if stack_need(ast) > i64::MAX {
                r matches Err(f) && failed(f, GenError::TooDeep, p.state)
            } else {
                let m = lower(ast, p.state.scope, entry(p.state.scope.offset));
                &&& r matches Ok(out)
                &&& out.text@ == m.text + epilogue_text()
                &&& out.mismatches@ == p.state.notes
                &&& out.unresolved@.map_values(|id: i8| id as int) == m.missing
            }
        },
    }
}

/// Gives up on a source with the error `error`.
fn fail(parser: Parser, error: GenError) -> (f: Failure)
    requires
        parser.wf(),
    ensures
        failed(f, error, parser@),
{
    proof {
        parser.lemma_view_fields();
        parser.lemma_view_tokens();
    }
    let Parser { tokenizer, curr_token, peek_token, scope, mismatches } = parser;
    Failure { error, mismatches, curr_token, peek_token }
}

/// Compiles the source `input` to assembly.
pub fn gen(input: &str) -> (r: Result<Assembly, Failure>)
    ensures
        compiled(input@, r),
{
    let mut codegen = Codegen::new();
    codegen.iwriteln(".globl main");
    codegen.writeln("main:");
    assert(codegen.buf@ =~= header_text());

    let mut parser = Parser::new(input);

    let ast = match parser.parse_program() {
        Ok(ast) => ast,
        Err(e) => {
            return Err(fail(parser, GenError::Parse(e)));
        },
    };
    if count_labels(&ast).is_none() {
        return Err(fail(parser, GenError::TooManyLabels));
    }
    if push_depth(&ast).is_none() {
        return Err(fail(parser, GenError::TooDeep));
    }
    proof {
        parser.lemma_wf_scope();
        parser.lemma_view_fields();
    }
    let offset = x86_program_offset(parser.offset());
    let Parser { tokenizer, curr_token, peek_token, scope, mismatches } = parser;

    prologue(&mut codegen, offset.as_str());
    assert(codegen.buf@ =~= entry(scope@.offset).text);

    let mut x86 = X86::new(&mut codegen, scope);
    x86.compile(ast);
    let X86 { gen, scope, label_suf_count, unresolved } = x86;

    epilogue(&mut codegen);

    Ok(Assembly { text: codegen.buf, mismatches, unresolved })
}

fn prologue(gen: &mut Codegen, offset: &str)
    ensures
        final(gen).buf@ == old(gen).buf@ + prologue_text(offset@),
        final(gen).depth == old(gen).depth,
{
    gen.icmd1ln("push", "%rbp");
    gen.icmd2ln("mov", "%rsp", "%rbp");
    gen.icmd2ln("sub", offset, "%rsp");
    assert(final(gen).buf@ =~= old(gen).buf@ + prologue_text(offset@));
}

fn epilogue(gen: &mut Codegen)
    ensures
        final(gen).buf@ == old(gen).buf@ + epilogue_text(),
        final(gen).depth == old(gen).depth,
{
    gen.writeln(".L.return:");
    gen.icmd2ln("mov", "%rbp", "%rsp");
    gen.icmd1ln("pop", "%rbp");
    gen.iwriteln("ret");
    assert(final(gen).buf@ =~= old(gen).buf@ + epilogue_text());
}

} // verus!
