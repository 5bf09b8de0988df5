//! What lowering means: the assembly text of a syntax tree, stated over the
//! tree and the scope as mathematical values.
//!
//! Every expression leaves its value in `%rax`. A binary operation lowers
//! its right operand, pushes it, lowers its left operand and pops the right
//! one into `%rdi`.

use vstd::prelude::*;
use crate::ast::{AstView, LoopKind};
use crate::tokenizer::token::TokenView;
use crate::codegen::writer::{cmd1, cmd2, indented, line};
use crate::parser::localscope::ScopeView;
use crate::tokenizer::tokentype::TokenType;
use crate::util::{decimal, lemma_digits_differ};

verus! {

/// The state that lowering works on: the text written so far, the number of
/// values pushed and not yet popped, the last label number given out, and
/// the ids of the variables that the scope did not know.
pub struct Machine {
    pub text: Seq<char>,
    pub depth: int,
    pub label: int,
    pub missing: Seq<int>,
}

impl Machine {
    /// The state after `text` was written.
    pub open spec fn say(self, text: Seq<char>) -> Machine {
        Machine { text: self.text + text, ..self }
    }

    /// The state after `push %rax`.
    pub open spec fn push(self) -> Machine {
        Machine { depth: self.depth + 1, ..self.say(line(cmd1("push"@, "%rax"@))) }
    }

    /// The state after `pop` into `reg`.
    pub open spec fn pop(self, reg: Seq<char>) -> Machine {
        Machine { depth: self.depth - 1, ..self.say(line(cmd1("pop"@, reg))) }
    }

    /// The state after a new label number was given out.
    pub open spec fn fresh(self) -> Machine {
        Machine { label: self.label + 1, ..self }
    }
}

/// The name of a label: its stem and its number.
pub open spec fn label_name(stem: Seq<char>, n: int) -> Seq<char> {
    stem + decimal(n)
}

/// The line that defines the label `name`.
pub open spec fn label_line(name: Seq<char>) -> Seq<char> {
    line(name + ":"@)
}

/// The instruction that sets `%al` after a comparison, for the operators
/// that compare.
pub open spec fn set_instruction(kind: TokenType) -> Option<Seq<char>> {
    match kind {
        TokenType::TokenLessEqual => Some("setle"@),
        TokenType::TokenLess => Some("setl"@),
        TokenType::TokenGreater => Some("setg"@),
        TokenType::TokenGreaterEqual => Some("setge"@),
        TokenType::TokenBangEqual => Some("setne"@),
        TokenType::TokenEqualEqual => Some("sete"@),
        _ => None,
    }
}

/// The text of a comparison of `%rax` with `%rdi` that leaves 1 or 0 in
/// `%rax`.
pub open spec fn comparison_text(kind: TokenType) -> Seq<char> {
    line(cmd2("cmp"@, "%rdi"@, "%rax"@)) + (match set_instruction(kind) {
        Some(set) => line(cmd1(set, "%al"@)),
        None => Seq::empty(),
    }) + line(cmd2("movzb"@, "%al"@, "%rax"@))
}

/// The text that applies the operator `kind` to `%rax` and `%rdi`. Nothing
/// is written for a token that is no arithmetic or comparison operator.
pub open spec fn operator_text(kind: TokenType) -> Seq<char> {
    match kind {
        TokenType::TokenPlus => line(cmd2("add"@, "%rdi"@, "%rax"@)),
        TokenType::TokenMinus => line(cmd2("sub"@, "%rdi"@, "%rax"@)),
        TokenType::TokenStar => line(cmd2("imul"@, "%rdi"@, "%rax"@)),
        TokenType::TokenSlash => line(indented("cqo"@)) + line(cmd1("idiv"@, "%rdi"@)),
        TokenType::TokenLess
        | TokenType::TokenLessEqual
        | TokenType::TokenGreater
        | TokenType::TokenGreaterEqual
        | TokenType::TokenBangEqual
        | TokenType::TokenEqualEqual => comparison_text(kind),
        _ => Seq::empty(),
    }
}

/// The text that applies the prefix operator `kind` to `%rax`.
pub open spec fn unary_text(kind: TokenType) -> Seq<char> {
    match kind {
        TokenType::TokenMinus => line(cmd1("neg"@, "%rax"@)),
        _ => Seq::empty(),
    }
}

/// The text that leaves the branch when `%rax` is zero.
pub open spec fn branch_if_zero(target: Seq<char>) -> Seq<char> {
    line(cmd2("cmp"@, "$0"@, "%rax"@)) + line(cmd1("je"@, target))
}

/// The state after the address of the variable `id` was loaded into `%rax`.
/// For an id that the scope does not know nothing is written, and the id is
/// noted.
pub open spec fn address(id: int, scope: ScopeView, m: Machine) -> Machine {
    let (found, offset) = scope.offset_by_id(id);
    if found {
        m.say(line(cmd2("lea"@, decimal(offset) + "(%rbp)"@, "%rax"@)))
    } else {
        Machine { missing: m.missing.push(id), ..m }
    }
}

/// The state after an optional operand was lowered.
pub open spec fn lower_opt(ast: Option<Box<AstView>>, scope: ScopeView, m: Machine) -> Machine
    decreases ast,
{
    match ast {
        Some(a) => lower(*a, scope, m),
        None => m,
    }
}

/// The state after the statements `asts` were lowered in turn.
pub open spec fn lower_all(asts: Seq<AstView>, scope: ScopeView, m: Machine) -> Machine
    decreases asts,
{
    if asts.len() == 0 {
        m
    } else {
        lower_all(asts.drop_first(), scope, lower(asts[0], scope, m))
    }
}

/// The state after `ast` was lowered from the state `m`.
pub open spec fn lower(ast: AstView, scope: ScopeView, m: Machine) -> Machine
    decreases ast,
{
    match ast {
        AstView::Statements { kind, asts } => lower_all(asts, scope, m),
        AstView::Literal { kind, val } => m.say(line(cmd2("mov"@, "$"@ + val, "%rax"@))),
        AstView::ArithExpr { token, operator, left, right } => {
            let m1 = lower(*right, scope, m).push();
            let m2 = lower(*left, scope, m1).pop("%rdi"@);
            m2.say(operator_text(token.kind))
        },
        AstView::Unary { token, operator, right } => lower(*right, scope, m).say(
            unary_text(token.kind),
        ),
        AstView::Variable { id, token, val, assign } => {
            let m1 = address(id, scope, m);
            match assign {
                None => m1.say(line(cmd2("mov"@, "(%rax)"@, "%rax"@))),
                Some(value) => lower(*value, scope, m1.push()).pop("%rdi"@).say(
                    line(cmd2("mov"@, "%rax"@, "(%rdi)"@)),
                ),
            }
        },
        AstView::Return { token, value } => lower_opt(value, scope, m).say(
            line(cmd1("jmp"@, ".L.return"@)),
        ),
        AstView::If { token, cond, then, alt } => {
            let n = m.label + 1;
            let m1 = lower(*cond, scope, m.fresh()).say(
                branch_if_zero(label_name(".L.else."@, n)),
            );
            let m2 = lower(*then, scope, m1).say(
                line(cmd1("jmp"@, label_name(".L.end."@, n))),
            ).say(label_line(label_name(".L.else."@, n)));
            lower_opt(alt, scope, m2).say(label_line(label_name(".L.end."@, n)))
        },
        AstView::Loop { kind, tok, init, cond, incr, then } => {
            if kind == LoopKind::DoWhile {
                m
            } else {
                let n = m.label + 1;
                let m1 = lower_opt(init, scope, m.fresh()).say(
                    label_line(label_name(".L.begin."@, n)),
                );
                let m2 = match cond {
                    None => m1,
                    Some(c) => lower(*c, scope, m1).say(
                        branch_if_zero(label_name(".L.end."@, n)),
                    ),
                };
                let m3 = lower_opt(incr, scope, lower(*then, scope, m2));
                m3.say(line(cmd1("jmp"@, label_name(".L.begin."@, n)))).say(
                    label_line(label_name(".L.end."@, n)),
                )
            }
        },
        AstView::FunctionCall => m,
    }
}

/// How many label numbers lowering `ast` takes: one for each `if` and for
/// each `for` or `while` loop that is lowered.
pub open spec fn label_count(ast: AstView) -> nat
    decreases ast,
{
    match ast {
        AstView::Statements { kind, asts } => label_count_all(asts),
        AstView::Literal { kind, val } => 0,
        AstView::ArithExpr { token, operator, left, right } => label_count(*right) + label_count(
            *left,
        ),
        AstView::Unary { token, operator, right } => label_count(*right),
        AstView::Variable { id, token, val, assign } => label_count_opt(assign),
        AstView::Return { token, value } => label_count_opt(value),
        AstView::If { token, cond, then, alt } => 1 + label_count(*cond) + label_count(*then)
            + label_count_opt(alt),
        AstView::Loop { kind, tok, init, cond, incr, then } => if kind == LoopKind::DoWhile {
            0
        } else {
            1 + label_count_opt(init) + label_count_opt(cond) + label_count(*then)
                + label_count_opt(incr)
        },
        AstView::FunctionCall => 0,
    }
}

pub open spec fn label_count_opt(ast: Option<Box<AstView>>) -> nat
    decreases ast,
{
    match ast {
        Some(a) => label_count(*a),
        None => 0,
    }
}

pub open spec fn label_count_all(asts: Seq<AstView>) -> nat
    decreases asts,
{
    if asts.len() == 0 {
        0
    } else {
        label_count(asts[0]) + label_count_all(asts.drop_first())
    }
}

pub open spec fn max(a: nat, b: nat) -> nat {
    if a >= b {
        a
    } else {
        b
    }
}

/// How many values lowering `ast` has pushed at most at any one time.
pub open spec fn stack_need(ast: AstView) -> nat
    decreases ast,
{
    match ast {
        AstView::Statements { kind, asts } => stack_need_all(asts),
        AstView::Literal { kind, val } => 0,
        AstView::ArithExpr { token, operator, left, right } => max(
            stack_need(*right),
            1 + stack_need(*left),
        ),
        AstView::Unary { token, operator, right } => stack_need(*right),
        AstView::Variable { id, token, val, assign } => match assign {
            Some(value) => 1 + stack_need(*value),
            None => 0,
        },
        AstView::Return { token, value } => stack_need_opt(value),
        AstView::If { token, cond, then, alt } => max(
            stack_need(*cond),
            max(stack_need(*then), stack_need_opt(alt)),
        ),
        AstView::Loop { kind, tok, init, cond, incr, then } => if kind == LoopKind::DoWhile {
            0
        } else {
            max(
                max(stack_need_opt(init), stack_need_opt(cond)),
                max(stack_need(*then), stack_need_opt(incr)),
            )
        },
        AstView::FunctionCall => 0,
    }
}

pub open spec fn stack_need_opt(ast: Option<Box<AstView>>) -> nat
    decreases ast,
{
    match ast {
        Some(a) => stack_need(*a),
        None => 0,
    }
}

pub open spec fn stack_need_all(asts: Seq<AstView>) -> nat
    decreases asts,
{
    if asts.len() == 0 {
        0
    } else {
        max(stack_need(asts[0]), stack_need_all(asts.drop_first()))
    }
}

/// What lowering an optional operand says, spelled out.
pub proof fn lemma_opt_unfold(ast: Option<Box<AstView>>, scope: ScopeView, m: Machine)
    ensures
        lower_opt(ast, scope, m) == match ast {
            Some(a) => lower(*a, scope, m),
            None => m,
        },
{
}

/// What the counts of an optional operand say, spelled out.
pub proof fn lemma_opt_counts(ast: Option<Box<AstView>>)
    ensures
        label_count_opt(ast) == match ast {
            Some(a) => label_count(*a),
            None => 0,
        },
        stack_need_opt(ast) == match ast {
            Some(a) => stack_need(*a),
            None => 0,
        },
{
}

/// The label numbers above `lo` and up to `hi`.
pub open spec fn labels_between(lo: int, hi: int) -> Set<int> {
    Set::new(|n: int| lo < n <= hi)
}

/// Lowering gives out exactly one label number for each `if` and each `for`
/// or `while` loop of the tree, and leaves as many values pushed as it found.
pub proof fn lemma_lower_counts(ast: AstView, scope: ScopeView, m: Machine)
    ensures
        lower(ast, scope, m).label == m.label + label_count(ast),
        lower(ast, scope, m).depth == m.depth,
    decreases ast,
{
    match ast {
        AstView::Statements { kind, asts } => {
            lemma_lower_all_counts(asts, scope, m);
        },
        AstView::Literal { kind, val } => {},
        AstView::ArithExpr { token, operator, left, right } => {
            lemma_lower_counts(*right, scope, m);
            lemma_lower_counts(*left, scope, lower(*right, scope, m).push());
        },
        AstView::Unary { token, operator, right } => {
            lemma_lower_counts(*right, scope, m);
        },
        AstView::Variable { id, token, val, assign } => {
            match assign {
                None => {},
                Some(value) => lemma_lower_counts(*value, scope, address(id, scope, m).push()),
            }
            assert(label_count_opt(assign) == match assign {
                Some(value) => label_count(*value),
                None => 0,
            });
        },
        AstView::Return { token, value } => {
            lemma_lower_opt_counts(value, scope, m);
        },
        AstView::If { token, cond, then, alt } => {
            let n = m.label + 1;
            lemma_lower_counts(*cond, scope, m.fresh());
            let m1 = lower(*cond, scope, m.fresh()).say(
                branch_if_zero(label_name(".L.else."@, n)),
            );
            lemma_lower_counts(*then, scope, m1);
            let m2 = lower(*then, scope, m1).say(
                line(cmd1("jmp"@, label_name(".L.end."@, n))),
            ).say(label_line(label_name(".L.else."@, n)));
            lemma_lower_opt_counts(alt, scope, m2);
        },
        AstView::Loop { kind, tok, init, cond, incr, then } => {
            if kind != LoopKind::DoWhile {
                let n = m.label + 1;
                lemma_lower_opt_counts(init, scope, m.fresh());
                let m1 = lower_opt(init, scope, m.fresh()).say(
                    label_line(label_name(".L.begin."@, n)),
                );
                let m2 = match cond {
                    None => m1,
                    Some(c) => {
                        lemma_lower_counts(*c, scope, m1);
                        lower(*c, scope, m1).say(branch_if_zero(label_name(".L.end."@, n)))
                    },
                };
                lemma_lower_counts(*then, scope, m2);
                lemma_lower_opt_counts(incr, scope, lower(*then, scope, m2));
                assert(label_count_opt(cond) == match cond {
                    Some(c) => label_count(*c),
                    None => 0,
                });
            }
        },
        AstView::FunctionCall => {},
    }
}

pub proof fn lemma_lower_opt_counts(ast: Option<Box<AstView>>, scope: ScopeView, m: Machine)
    ensures
        lower_opt(ast, scope, m).label == m.label + label_count_opt(ast),
        lower_opt(ast, scope, m).depth == m.depth,
    decreases ast,
{
    match ast {
        Some(a) => lemma_lower_counts(*a, scope, m),
        None => {},
    }
}

pub proof fn lemma_lower_all_counts(asts: Seq<AstView>, scope: ScopeView, m: Machine)
    ensures
        lower_all(asts, scope, m).label == m.label + label_count_all(asts),
        lower_all(asts, scope, m).depth == m.depth,
    decreases asts,
{
    if asts.len() > 0 {
        lemma_lower_counts(asts[0], scope, m);
        lemma_lower_all_counts(asts.drop_first(), scope, lower(asts[0], scope, m));
    }
}

/// Labels with the same stem and different numbers have different names.
pub proof fn lemma_label_names_differ(stem: Seq<char>, a: int, b: int)
    requires
        0 <= a,
        0 <= b,
        a != b,
    ensures
        label_name(stem, a) != label_name(stem, b),
{
    lemma_digits_differ(a as nat, b as nat);
    if label_name(stem, a) == label_name(stem, b) {
        let x = label_name(stem, a);
        let y = label_name(stem, b);
        assert(x.subrange(stem.len() as int, x.len() as int) =~= decimal(a));
        assert(y.subrange(stem.len() as int, y.len() as int) =~= decimal(b));
    }
}

/// Two trees lowered one after the other get label numbers from ranges that
/// do not meet: those of the first end where those of the second begin.
pub proof fn lemma_labels_disjoint(first: AstView, second: AstView, scope: ScopeView, m: Machine)
    ensures
        ({
            let m1 = lower(first, scope, m);
            let m2 = lower(second, scope, m1);
            &&& labels_between(m.label, m1.label).len() == label_count(first)
            &&& labels_between(m1.label, m2.label).len() == label_count(second)
            &&& labels_between(m.label, m1.label).disjoint(labels_between(m1.label, m2.label))
        }),
{
    let m1 = lower(first, scope, m);
    let m2 = lower(second, scope, m1);
    lemma_lower_counts(first, scope, m);
    lemma_lower_counts(second, scope, m1);
    lemma_labels_between_len(m.label, m1.label);
    lemma_labels_between_len(m1.label, m2.label);
}

pub proof fn lemma_labels_between_len(lo: int, hi: int)
    requires
        lo <= hi,
    ensures
        labels_between(lo, hi).finite(),
        labels_between(lo, hi).len() == hi - lo,
    decreases hi - lo,
{
    if lo == hi {
        assert(labels_between(lo, hi) =~= Set::<int>::empty());
    } else {
        lemma_labels_between_len(lo, hi - 1);
        assert(labels_between(lo, hi) =~= labels_between(lo, hi - 1).insert(hi));
    }
}

/// The state in which nothing is written yet and the last label number
/// given out is `label`.
pub open spec fn blank(label: int) -> Machine {
    Machine { text: Seq::empty(), depth: 0, label, missing: Seq::empty() }
}

/// The state `base` with what `out` holds put after it: the text and the
/// noted ids are appended, the depths add up, and the label counter is that
/// of `out`.
pub open spec fn after(base: Machine, out: Machine) -> Machine {
    Machine {
        text: base.text + out.text,
        depth: base.depth + out.depth,
        label: out.label,
        missing: base.missing + out.missing,
    }
}

/// What lowering `ast` writes when the last label number given out is
/// `label`.
pub open spec fn written(ast: AstView, scope: ScopeView, label: int) -> Seq<char> {
    lower(ast, scope, blank(label)).text
}

/// What lowering an optional operand writes when the last label number
/// given out is `label`.
pub open spec fn written_opt(ast: Option<Box<AstView>>, scope: ScopeView, label: int) -> Seq<
    char,
> {
    match ast {
        Some(a) => written(*a, scope, label),
        None => Seq::empty(),
    }
}

/// Each single step of lowering does to a state with something before it
/// what it does to the state alone.
pub proof fn lemma_after_steps(
    base: Machine,
    f: Machine,
    text: Seq<char>,
    id: int,
    scope: ScopeView,
)
    ensures
        after(base, f).say(text) == after(base, f.say(text)),
        after(base, f).push() == after(base, f.push()),
        after(base, f).pop(text) == after(base, f.pop(text)),
        after(base, f).fresh() == after(base, f.fresh()),
        address(id, scope, after(base, f)) == after(base, address(id, scope, f)),
{
    let m = after(base, f);
    assert(m.say(text).text =~= after(base, f.say(text)).text);
    assert(m.push().text =~= after(base, f.push()).text);
    assert(m.pop(text).text =~= after(base, f.pop(text)).text);
    assert(address(id, scope, m).text =~= after(base, address(id, scope, f)).text);
    assert(address(id, scope, m).missing =~= after(base, address(id, scope, f)).missing);
}

/// Lowering does to a state with something before it what it does to the
/// state alone: what it writes does not depend on what was written
/// before.
pub proof fn lemma_lower_after(ast: AstView, scope: ScopeView, base: Machine, f: Machine)
    ensures
        lower(ast, scope, after(base, f)) == after(base, lower(ast, scope, f)),
    decreases ast,
{
    let m = after(base, f);
    match ast {
        AstView::Statements { kind, asts } => lemma_lower_all_after(asts, scope, base, f),
        AstView::Literal { kind, val } => {
            lemma_after_steps(base, f, line(cmd2("mov"@, "$"@ + val, "%rax"@)), 0, scope);
        },
        AstView::ArithExpr { token, operator, left, right } => {
            lemma_lower_after(*right, scope, base, f);
            let f1 = lower(*right, scope, f);
            lemma_after_steps(base, f1, Seq::empty(), 0, scope);
            lemma_lower_after(*left, scope, base, f1.push());
            let f2 = lower(*left, scope, f1.push());
            lemma_after_steps(base, f2, "%rdi"@, 0, scope);
            lemma_after_steps(base, f2.pop("%rdi"@), operator_text(token.kind), 0, scope);
        },
        AstView::Unary { token, operator, right } => {
            lemma_lower_after(*right, scope, base, f);
            lemma_after_steps(base, lower(*right, scope, f), unary_text(token.kind), 0, scope);
        },
        AstView::Variable { id, token, val, assign } => {
            lemma_after_steps(base, f, Seq::empty(), id, scope);
            let f1 = address(id, scope, f);
            match assign {
                None => {
                    lemma_after_steps(base, f1, line(cmd2("mov"@, "(%rax)"@, "%rax"@)), 0, scope);
                },
                Some(value) => {
                    lemma_after_steps(base, f1, Seq::empty(), 0, scope);
                    lemma_lower_after(*value, scope, base, f1.push());
                    let f2 = lower(*value, scope, f1.push());
                    lemma_after_steps(base, f2, "%rdi"@, 0, scope);
                    lemma_after_steps(
                        base,
                        f2.pop("%rdi"@),
                        line(cmd2("mov"@, "%rax"@, "(%rdi)"@)),
                        0,
                        scope,
                    );
                },
            }
        },
        AstView::Return { token, value } => {
            lemma_lower_opt_after(value, scope, base, f);
            lemma_after_steps(
                base,
                lower_opt(value, scope, f),
                line(cmd1("jmp"@, ".L.return"@)),
                0,
                scope,
            );
        },
        AstView::If { token, cond, then, alt } => {
            let n = f.label + 1;
            lemma_after_steps(base, f, Seq::empty(), 0, scope);
            lemma_lower_after(*cond, scope, base, f.fresh());
            let f1 = lower(*cond, scope, f.fresh());
            lemma_after_steps(base, f1, branch_if_zero(label_name(".L.else."@, n)), 0, scope);
            let f2 = f1.say(branch_if_zero(label_name(".L.else."@, n)));
            lemma_lower_after(*then, scope, base, f2);
            let f3 = lower(*then, scope, f2);
            lemma_after_steps(base, f3, line(cmd1("jmp"@, label_name(".L.end."@, n))), 0, scope);
            let f4 = f3.say(line(cmd1("jmp"@, label_name(".L.end."@, n))));
            lemma_after_steps(base, f4, label_line(label_name(".L.else."@, n)), 0, scope);
            let f5 = f4.say(label_line(label_name(".L.else."@, n)));
            lemma_lower_opt_after(alt, scope, base, f5);
            lemma_after_steps(
                base,
                lower_opt(alt, scope, f5),
                label_line(label_name(".L.end."@, n)),
                0,
                scope,
            );
        },
        AstView::Loop { kind, tok, init, cond, incr, then } => {
            if kind != LoopKind::DoWhile {
                let n = f.label + 1;
                lemma_after_steps(base, f, Seq::empty(), 0, scope);
                lemma_lower_opt_after(init, scope, base, f.fresh());
                let f0 = lower_opt(init, scope, f.fresh());
                lemma_after_steps(base, f0, label_line(label_name(".L.begin."@, n)), 0, scope);
                let f1 = f0.say(label_line(label_name(".L.begin."@, n)));
                let f2 = match cond {
                    None => f1,
                    Some(c) => {
                        lemma_lower_after(*c, scope, base, f1);
                        lemma_after_steps(
                            base,
                            lower(*c, scope, f1),
                            branch_if_zero(label_name(".L.end."@, n)),
                            0,
                            scope,
                        );
                        lower(*c, scope, f1).say(branch_if_zero(label_name(".L.end."@, n)))
                    },
                };
                lemma_lower_after(*then, scope, base, f2);
                lemma_lower_opt_after(incr, scope, base, lower(*then, scope, f2));
                let f3 = lower_opt(incr, scope, lower(*then, scope, f2));
                lemma_after_steps(
                    base,
                    f3,
                    line(cmd1("jmp"@, label_name(".L.begin."@, n))),
                    0,
                    scope,
                );
                lemma_after_steps(
                    base,
                    f3.say(line(cmd1("jmp"@, label_name(".L.begin."@, n)))),
                    label_line(label_name(".L.end."@, n)),
                    0,
                    scope,
                );
            }
        },
        AstView::FunctionCall => {},
    }
}

pub proof fn lemma_lower_opt_after(
    ast: Option<Box<AstView>>,
    scope: ScopeView,
    base: Machine,
    f: Machine,
)
    ensures
        lower_opt(ast, scope, after(base, f)) == after(base, lower_opt(ast, scope, f)),
    decreases ast,
{
    match ast {
        Some(a) => lemma_lower_after(*a, scope, base, f),
        None => {},
    }
}

pub proof fn lemma_lower_all_after(asts: Seq<AstView>, scope: ScopeView, base: Machine, f: Machine)
    ensures
        lower_all(asts, scope, after(base, f)) == after(base, lower_all(asts, scope, f)),
    decreases asts,
{
    if asts.len() > 0 {
        lemma_lower_after(asts[0], scope, base, f);
        lemma_lower_all_after(asts.drop_first(), scope, base, lower(asts[0], scope, f));
    }
}

/// Pushes and pops balance: whatever the tree, lowering it leaves as many
/// values pushed as it found.
pub proof fn lemma_push_pop_balance(ast: AstView, scope: ScopeView, m: Machine)
    ensures
        lower(ast, scope, m).depth == m.depth,
{
    lemma_lower_counts(ast, scope, m);
}

/// Lowering appends: the text after it is the text before it and what
/// lowering the tree writes, which depends on the tree, the scope and the
/// label counter alone.
pub proof fn lemma_lower_appends(ast: AstView, scope: ScopeView, m: Machine)
    ensures
        lower(ast, scope, m).text == m.text + written(ast, scope, m.label),
        lower(ast, scope, m).depth == m.depth,
        lower(ast, scope, m).label == m.label + label_count(ast),
{
    lemma_lower_after(ast, scope, m, blank(m.label));
    lemma_lower_counts(ast, scope, blank(m.label));
    lemma_lower_counts(ast, scope, m);
    assert(after(m, blank(m.label)).text =~= m.text);
    assert(after(m, blank(m.label)).missing =~= m.missing);
    assert(after(m, blank(m.label)) == m);
}

/// Lowering an optional operand appends what it writes.
pub proof fn lemma_lower_opt_appends(ast: Option<Box<AstView>>, scope: ScopeView, m: Machine)
    ensures
        lower_opt(ast, scope, m).text == m.text + written_opt(ast, scope, m.label),
        lower_opt(ast, scope, m).depth == m.depth,
        lower_opt(ast, scope, m).label == m.label + label_count_opt(ast),
{
    match ast {
        Some(a) => lemma_lower_appends(*a, scope, m),
        None => {
            assert(m.text + Seq::<char>::empty() =~= m.text);
        },
    }
}

/// The line that loads the address of the slot at `offset` into `%rax`.
pub open spec fn address_line(offset: int) -> Seq<char> {
    line(cmd2("lea"@, decimal(offset) + "(%rbp)"@, "%rax"@))
}

/// What a binary operation writes: the right operand, a push, the left
/// operand, a pop into `%rdi`, and the operator's own instructions.
pub proof fn lemma_binary_text(
    token: TokenView,
    operator: Seq<char>,
    left: AstView,
    right: AstView,
    scope: ScopeView,
    m: Machine,
)
    ensures
        lower(
            AstView::ArithExpr { token, operator, left: Box::new(left), right: Box::new(right) },
            scope,
            m,
        ).text == m.text + written(right, scope, m.label) + line(cmd1("push"@, "%rax"@))
            + written(left, scope, m.label + label_count(right)) + line(cmd1("pop"@, "%rdi"@))
            + operator_text(token.kind),
{
    lemma_lower_appends(right, scope, m);
    let m1 = lower(right, scope, m).push();
    lemma_lower_appends(left, scope, m1);
    let ast = AstView::ArithExpr {
        token,
        operator,
        left: Box::new(left),
        right: Box::new(right),
    };
    assert(lower(ast, scope, m).text =~= m.text + written(right, scope, m.label) + line(
        cmd1("push"@, "%rax"@),
    ) + written(left, scope, m.label + label_count(right)) + line(cmd1("pop"@, "%rdi"@))
        + operator_text(token.kind));
}

/// What a variable that the scope knows writes: the address of its slot,
/// then a load; or, where a value is assigned, a push, the value, a pop
/// into `%rdi` and a store. The depth stays.
pub proof fn lemma_variable_text(
    id: int,
    token: TokenView,
    val: Seq<char>,
    assign: Option<Box<AstView>>,
    scope: ScopeView,
    m: Machine,
)
    requires
        scope.offset_by_id(id).0,
    ensures
        lower(AstView::Variable { id, token, val, assign }, scope, m).text == m.text
            + address_line(scope.offset_by_id(id).1) + (match assign {
            None => line(cmd2("mov"@, "(%rax)"@, "%rax"@)),
            Some(value) => line(cmd1("push"@, "%rax"@)) + written(*value, scope, m.label) + line(
                cmd1("pop"@, "%rdi"@),
            ) + line(cmd2("mov"@, "%rax"@, "(%rdi)"@)),
        }),
        lower(AstView::Variable { id, token, val, assign }, scope, m).depth == m.depth,
{
    let ast = AstView::Variable { id, token, val, assign };
    lemma_lower_counts(ast, scope, m);
    let m1 = address(id, scope, m);
    match assign {
        None => {
            assert(lower(ast, scope, m).text =~= m.text + address_line(scope.offset_by_id(id).1)
                + line(cmd2("mov"@, "(%rax)"@, "%rax"@)));
        },
        Some(value) => {
            lemma_lower_appends(*value, scope, m1.push());
            assert(lower(ast, scope, m).text =~= m.text + address_line(scope.offset_by_id(id).1)
                + (line(cmd1("push"@, "%rax"@)) + written(*value, scope, m.label) + line(
                cmd1("pop"@, "%rdi"@),
            ) + line(cmd2("mov"@, "%rax"@, "(%rdi)"@))));
        },
    }
}

/// What an `if` writes, with `n` the label number it takes: the condition,
/// the branch to `.L.else.n` on zero, the first statement, the jump to
/// `.L.end.n`, the label `.L.else.n`, the alternative where there is one, and
/// the label `.L.end.n`. The label numbers inside it come after `n`.
pub proof fn lemma_if_text(
    token: TokenView,
    cond: AstView,
    then: AstView,
    alt: Option<Box<AstView>>,
    scope: ScopeView,
    m: Machine,
)
    ensures
        ({
            let n = m.label + 1;
            lower(
                AstView::If { token, cond: Box::new(cond), then: Box::new(then), alt },
                scope,
                m,
            ).text == m.text + written(cond, scope, n) + branch_if_zero(
                label_name(".L.else."@, n),
            ) + written(then, scope, n + label_count(cond)) + line(
                cmd1("jmp"@, label_name(".L.end."@, n)),
            ) + label_line(label_name(".L.else."@, n)) + written_opt(
                alt,
                scope,
                n + label_count(cond) + label_count(then),
            ) + label_line(label_name(".L.end."@, n))
        }),
{
    let n = m.label + 1;
    let ast = AstView::If { token, cond: Box::new(cond), then: Box::new(then), alt };
    lemma_lower_appends(cond, scope, m.fresh());
    let m1 = lower(cond, scope, m.fresh()).say(branch_if_zero(label_name(".L.else."@, n)));
    lemma_lower_appends(then, scope, m1);
    let m2 = lower(then, scope, m1).say(line(cmd1("jmp"@, label_name(".L.end."@, n)))).say(
        label_line(label_name(".L.else."@, n)),
    );
    lemma_lower_opt_appends(alt, scope, m2);
    assert(lower(ast, scope, m).text =~= m.text + written(cond, scope, n) + branch_if_zero(
        label_name(".L.else."@, n),
    ) + written(then, scope, n + label_count(cond)) + line(
        cmd1("jmp"@, label_name(".L.end."@, n)),
    ) + label_line(label_name(".L.else."@, n)) + written_opt(
        alt,
        scope,
        n + label_count(cond) + label_count(then),
    ) + label_line(label_name(".L.end."@, n)));
}

/// What the condition of a loop writes: the condition and the branch to
/// `target` on zero, or nothing where the loop has no condition.
pub open spec fn written_test(
    cond: Option<Box<AstView>>,
    scope: ScopeView,
    label: int,
    target: Seq<char>,
) -> Seq<char> {
    match cond {
        Some(c) => written(*c, scope, label) + branch_if_zero(target),
        None => Seq::empty(),
    }
}

/// What a `for` or `while` loop writes, with `n` the label number it takes:
/// the initializer, the label `.L.begin.n`, the condition with the branch to
/// `.L.end.n` where there is one, the body, the increment, the jump to
/// `.L.begin.n`, and the label `.L.end.n`.
pub proof fn lemma_loop_text(
    kind: LoopKind,
    tok: TokenView,
    init: Option<Box<AstView>>,
    cond: Option<Box<AstView>>,
    incr: Option<Box<AstView>>,
    then: AstView,
    scope: ScopeView,
    m: Machine,
)
    requires
        kind != LoopKind::DoWhile,
    ensures
        ({
            let n = m.label + 1;
            let at_cond = n + label_count_opt(init);
            let at_body = at_cond + label_count_opt(cond);
            let at_incr = at_body + label_count(then);
            lower(
                AstView::Loop { kind, tok, init, cond, incr, then: Box::new(then) },
                scope,
                m,
            ).text == m.text + written_opt(init, scope, n) + label_line(
                label_name(".L.begin."@, n),
            ) + written_test(cond, scope, at_cond, label_name(".L.end."@, n)) + written(
                then,
                scope,
                at_body,
            ) + written_opt(incr, scope, at_incr) + line(
                cmd1("jmp"@, label_name(".L.begin."@, n)),
            ) + label_line(label_name(".L.end."@, n))
        }),
{
    let n = m.label + 1;
    let at_cond = n + label_count_opt(init);
    let at_body = at_cond + label_count_opt(cond);
    let at_incr = at_body + label_count(then);
    let ast = AstView::Loop { kind, tok, init, cond, incr, then: Box::new(then) };
    lemma_lower_opt_appends(init, scope, m.fresh());
    lemma_opt_counts(cond);
    let m1 = lower_opt(init, scope, m.fresh()).say(label_line(label_name(".L.begin."@, n)));
    let m2 = match cond {
        None => m1,
        Some(c) => {
            lemma_lower_appends(*c, scope, m1);
            lower(*c, scope, m1).say(branch_if_zero(label_name(".L.end."@, n)))
        },
    };
    assert(m2.text =~= m1.text + written_test(cond, scope, at_cond, label_name(".L.end."@, n)));
    assert(m2.label == at_body);
    lemma_lower_appends(then, scope, m2);
    lemma_lower_opt_appends(incr, scope, lower(then, scope, m2));
    assert(lower(ast, scope, m).text =~= m.text + written_opt(init, scope, n) + label_line(
        label_name(".L.begin."@, n),
    ) + written_test(cond, scope, at_cond, label_name(".L.end."@, n)) + written(
        then,
        scope,
        at_body,
    ) + written_opt(incr, scope, at_incr) + line(cmd1("jmp"@, label_name(".L.begin."@, n)))
        + label_line(label_name(".L.end."@, n)));
}

} // verus!
