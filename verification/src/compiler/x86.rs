//! The emitter: walks a syntax tree and writes its assembly to the buffer.

use vstd::prelude::*;
use vstd::string::StringExecFns;
use crate::ast::{views, ArithExpr, Ast, AstView, If, Loop, LoopKind, Return, Unary, Variable};
use crate::codegen::writer::Codegen;
use crate::compiler::lowering::{
    address, branch_if_zero, comparison_text, label_count, label_count_all, label_name,
    lemma_lower_counts, lemma_opt_counts, lemma_opt_unfold, lower, lower_all, operator_text,
    stack_need, stack_need_all, Machine,
};
use crate::parser::localscope::LocalScope;
use crate::tokenizer::tokentype::TokenType;
use crate::util::{append_str, decimal, push_decimal};

verus! {

pub struct X86<'c> {
    pub gen: &'c mut Codegen,
    pub scope: LocalScope,
    pub label_suf_count: u16,
    /// The ids of the variables that were not found in the scope.
    pub unresolved: Vec<i8>,
}

impl<'c> View for X86<'c> {
    type V = Machine;

    open spec fn view(&self) -> Machine {
        Machine {
            text: self.gen.buf@,
            depth: self.gen.depth as int,
            label: self.label_suf_count as int,
            missing: self.unresolved@.map_values(|id: i8| id as int),
        }
    }
}

impl<'c> X86<'c> {
    pub fn new(codegen: &'c mut Codegen, scope: LocalScope) -> (x: Self)
        ensures
            x@ == (Machine {
                text: old(codegen).buf@,
                depth: old(codegen).depth as int,
                label: 0,
                missing: Seq::empty(),
            }),
            x.scope == scope,
            *final(x.gen) == *final(codegen),
    {
        let x = Self { gen: codegen, scope, label_suf_count: 0, unresolved: Vec::new() };
        assert(x@.missing =~= Seq::empty());
        x
    }

    /// Gives out the next label number.
    pub fn incr_label_suffix_counter(&mut self) -> (n: u16)
        requires
            old(self).label_suf_count < u16::MAX,
        ensures
            final(self)@ == old(self)@.fresh(),
            n == final(self)@.label,
            final(self).scope == old(self).scope,
            *final(final(self).gen) == *final(old(self).gen),
    {
        self.label_suf_count += 1;
        self.label_suf_count
    }

    /// Lowers `node` and everything below it.
    pub fn compile(&mut self, node: Ast)
        requires
            old(self).scope@.wf(),
            old(self)@.label + label_count(node@) <= u16::MAX,
            old(self)@.depth + stack_need(node@) <= i64::MAX,
        ensures
            final(self)@ == lower(node@, old(self).scope@, old(self)@),
            final(self)@.label == old(self)@.label + label_count(node@),
            final(self)@.depth == old(self)@.depth,
            final(self).scope == old(self).scope,
            *final(final(self).gen) == *final(old(self).gen),
        decreases node,
    {
        proof {
            lemma_lower_counts(node@, self.scope@, self@);
        }
        match node {
            Ast::Statements(program) => {
                let asts = program.asts;
                let ghost all = views(asts@);
                let ghost scope = self.scope@;
                let ghost goal = lower_all(all, scope, self@);
                assert(node@ matches AstView::Statements { kind, asts: a } && a =~= all);
                assert(all.skip(0) =~= all);
                for stmt in it: asts
                    invariant
                        it.seq() == asts@,
                        all == views(asts@),
                        scope == self.scope@,
                        scope.wf(),
                        self.scope == old(self).scope,
                        *final(self.gen) == *final(old(self).gen),
                        goal == lower_all(all.skip(it.index() as int), scope, self@),
                        self@.label + label_count_all(all.skip(it.index() as int)) <= u16::MAX,
                        self@.depth + stack_need_all(all.skip(it.index() as int)) <= i64::MAX,
                        forall|k: int|
                            0 <= k < asts@.len() ==> decreases_to!(node => #[trigger] asts@[k]),
                {
                    let ghost rest = all.skip(it.index() as int);
                    assert(rest[0] == stmt@);
                    assert(rest.drop_first() =~= all.skip(it.index() + 1));
                    proof {
                        lemma_lower_counts(stmt@, scope, self@);
                    }
                    self.compile(stmt);
                }
                assert(all.skip(asts@.len() as int) =~= Seq::empty());
            },
            Ast::Literal(lit) => {
                let mut val = String::from_str("$");
                val.append(lit.val.as_str());
                self.gen.icmd2ln("mov", val.as_str(), "%rax");
            },
            Ast::ArithExpr(arith) => self.arithmetic(arith),
            Ast::If(i) => self.if_stmt(i),
            Ast::Loop(l) => self.loop_stmt(l),
            Ast::FunctionCall(f) => {},
            Ast::Unary(u) => self.unary(u),
            Ast::Variable(v) => self.variable(v),
            Ast::Return(r) => self.return_stmt(r),
        }
    }

    /// Lowers a binary operation.
    pub fn arithmetic(&mut self, arith: ArithExpr)
        requires
            old(self).scope@.wf(),
            old(self)@.label + label_count(Ast::ArithExpr(arith)@) <= u16::MAX,
            old(self)@.depth + stack_need(Ast::ArithExpr(arith)@) <= i64::MAX,
        ensures
            final(self)@ == lower(Ast::ArithExpr(arith)@, old(self).scope@, old(self)@),
            final(self).scope == old(self).scope,
            *final(final(self).gen) == *final(old(self).gen),
        decreases arith,
    {
        let ArithExpr { token, operator, left, right } = arith;
        self.compile(*right);
        self.gen.ipush();
        self.compile(*left);
        self.gen.ipop("%rdi");

        match token.kind {
            TokenType::TokenPlus => self.gen.icmd2ln("add", "%rdi", "%rax"),
            TokenType::TokenMinus => self.gen.icmd2ln("sub", "%rdi", "%rax"),
            TokenType::TokenStar => self.gen.icmd2ln("imul", "%rdi", "%rax"),
            TokenType::TokenLess
            | TokenType::TokenLessEqual
            | TokenType::TokenGreater
            | TokenType::TokenGreaterEqual
            | TokenType::TokenBangEqual
            | TokenType::TokenEqualEqual => self.comparison(token.kind),
            TokenType::TokenSlash => {
                let ghost before = self@.text;
                self.gen.icmdln("cqo");
                self.gen.icmd1ln("idiv", "%rdi");
                assert(self@.text =~= before + operator_text(
                    token.kind,
                ));
            },
            _ => {
                assert(self@.text =~= self@.text + Seq::<char>::empty());
            },
        }
    }

    /// Compares `%rax` with `%rdi` and leaves 1 or 0 in `%rax`.
    pub fn comparison(&mut self, token_type: TokenType)
        ensures
            final(self)@ == old(self)@.say(comparison_text(token_type)),
            final(self).scope == old(self).scope,
            *final(final(self).gen) == *final(old(self).gen),
    {
        self.gen.icmd2ln("cmp", "%rdi", "%rax");
        match token_type {
            TokenType::TokenLessEqual => self.gen.icmd1ln("setle", "%al"),
            TokenType::TokenLess => self.gen.icmd1ln("setl", "%al"),
            TokenType::TokenGreater => self.gen.icmd1ln("setg", "%al"),
            TokenType::TokenGreaterEqual => self.gen.icmd1ln("setge", "%al"),
            TokenType::TokenBangEqual => self.gen.icmd1ln("setne", "%al"),
            TokenType::TokenEqualEqual => self.gen.icmd1ln("sete", "%al"),
            _ => {},
        }
        self.gen.icmd2ln("movzb", "%al", "%rax");
        assert(final(self)@.text =~= old(self)@.text
            + comparison_text(token_type));
    }

    /// Lowers a prefix operation.
    pub fn unary(&mut self, u: Unary)
        requires
            old(self).scope@.wf(),
            old(self)@.label + label_count(Ast::Unary(u)@) <= u16::MAX,
            old(self)@.depth + stack_need(Ast::Unary(u)@) <= i64::MAX,
        ensures
            final(self)@ == lower(Ast::Unary(u)@, old(self).scope@, old(self)@),
            final(self).scope == old(self).scope,
            *final(final(self).gen) == *final(old(self).gen),
        decreases u,
    {
        let Unary { token, operator, right } = u;
        self.compile(*right);
        match token.kind {
            TokenType::TokenMinus => {
                self.gen.icmd1ln("neg", "%rax");
            },
            _ => {
                assert(self@.text =~= self@.text + Seq::<char>::empty());
            },
        }
    }

    /// Lowers a variable: a load, or a store where a value is assigned.
    pub fn variable(&mut self, v: Variable)
        requires
            old(self).scope@.wf(),
            old(self)@.label + label_count(Ast::Variable(v)@) <= u16::MAX,
            old(self)@.depth + stack_need(Ast::Variable(v)@) <= i64::MAX,
        ensures
            final(self)@ == lower(Ast::Variable(v)@, old(self).scope@, old(self)@),
            final(self).scope == old(self).scope,
            *final(final(self).gen) == *final(old(self).gen),
        decreases v,
    {
        let Variable { id, token, val, assign } = v;
        proof {
            lemma_opt_unfold(Ast::Variable(v)@->assign, self.scope@, self@);
            lemma_opt_counts(Ast::Variable(v)@->assign);
        }
        self.gen_address(id);

        match assign {
            None => {
                self.gen.icmd2ln("mov", "(%rax)", "%rax");
            },
            Some(assign) => {
                self.gen.ipush();
                self.compile(*assign);
                self.gen.ipop("%rdi");
                self.gen.icmd2ln("mov", "%rax", "(%rdi)");
            },
        }
    }

    fn gen_address(&mut self, id: i8)
        requires
            old(self).scope@.wf(),
        ensures
            final(self)@ == address(id as int, old(self).scope@, old(self)@),
            final(self).scope == old(self).scope,
            *final(final(self).gen) == *final(old(self).gen),
    {
        let (found, offset) = self.scope.offset_by_id(id);
        if !found {
            self.unresolved.push(id);
            assert(final(self)@.missing =~= old(self)@.missing.push(id as int));
            return ;
        }
        let mut offset_rbp = String::new();
        push_decimal(&mut offset_rbp, offset as i64);
        offset_rbp.append("(%rbp)");
        assert(offset_rbp@ =~= decimal(offset as int) + "(%rbp)"@);
        self.gen.icmd2ln("lea", offset_rbp.as_str(), "%rax");
    }

    fn return_stmt(&mut self, ret: Return)
        requires
            old(self).scope@.wf(),
            old(self)@.label + label_count(Ast::Return(ret)@) <= u16::MAX,
            old(self)@.depth + stack_need(Ast::Return(ret)@) <= i64::MAX,
        ensures
            final(self)@ == lower(Ast::Return(ret)@, old(self).scope@, old(self)@),
            final(self).scope == old(self).scope,
            *final(final(self).gen) == *final(old(self).gen),
        decreases ret,
    {
        let Return { token, value } = ret;
        proof {
            lemma_opt_unfold(Ast::Return(ret)@->value, self.scope@, self@);
            lemma_opt_counts(Ast::Return(ret)@->value);
        }
        match value {
            None => {},
            Some(r) => self.compile(*r),
        }
        self.gen.icmd1ln("jmp", ".L.return");
    }

    /// The name of a label: `stem`, the number `id`, and `suffix`.
    fn label(stem: &str, id: u16, suffix: &str) -> (name: String)
        ensures
            name@ == label_name(stem@, id as int) + suffix@,
            suffix@.len() == 0 ==> name@ == label_name(
                stem@,
                id as int,
            ),
    {
        let name = append_str(stem, id as i64, suffix);
        assert(suffix@.len() == 0 ==> name@ =~= label_name(
            stem@,
            id as int,
        ));
        name
    }

    fn branch_if_zero(&mut self, target: &str)
        ensures
            final(self)@ == old(self)@.say(branch_if_zero(target@)),
            final(self).scope == old(self).scope,
            *final(final(self).gen) == *final(old(self).gen),
    {
        self.gen.icmd2ln("cmp", "$0", "%rax");
        self.gen.icmd1ln("je", target);
        assert(final(self)@.text =~= old(self)@.text
            + branch_if_zero(target@));
    }

    fn if_stmt(&mut self, i: If)
        requires
            old(self).scope@.wf(),
            old(self)@.label + label_count(Ast::If(i)@) <= u16::MAX,
            old(self)@.depth + stack_need(Ast::If(i)@) <= i64::MAX,
        ensures
            final(self)@ == lower(Ast::If(i)@, old(self).scope@, old(self)@),
            final(self).scope == old(self).scope,
            *final(final(self).gen) == *final(old(self).gen),
        decreases i,
    {
        let If { token, cond, then, alt } = i;
        proof {
            reveal_strlit("");
        }
        let label_id = self.incr_label_suffix_counter();

        self.compile(*cond);
        self.branch_if_zero(Self::label(".L.else.", label_id, "").as_str());

        self.compile(*then);

        self.gen.icmd1ln("jmp", Self::label(".L.end.", label_id, "").as_str());
        self.gen.writeln(Self::label(".L.else.", label_id, ":").as_str());
        proof {
            lemma_opt_unfold(Ast::If(i)@->alt, self.scope@, self@);
            lemma_opt_counts(Ast::If(i)@->alt);
        }
        match alt {
            None => {},
            Some(alt) => self.compile(*alt),
        }
        self.gen.writeln(Self::label(".L.end.", label_id, ":").as_str())
    }

    fn loop_stmt(&mut self, i: Loop)
        requires
            old(self).scope@.wf(),
            old(self)@.label + label_count(Ast::Loop(i)@) <= u16::MAX,
            old(self)@.depth + stack_need(Ast::Loop(i)@) <= i64::MAX,
        ensures
            final(self)@ == lower(Ast::Loop(i)@, old(self).scope@, old(self)@),
            final(self).scope == old(self).scope,
            *final(final(self).gen) == *final(old(self).gen),
        decreases i, 1nat,
    {
        match i.kind {
            LoopKind::For | LoopKind::While => self.for_stmt(i),
            LoopKind::DoWhile => {},
        }
    }

    fn for_stmt(&mut self, i: Loop)
        requires
            i.kind != LoopKind::DoWhile,
            old(self).scope@.wf(),
            old(self)@.label + label_count(Ast::Loop(i)@) <= u16::MAX,
            old(self)@.depth + stack_need(Ast::Loop(i)@) <= i64::MAX,
        ensures
            final(self)@ == lower(Ast::Loop(i)@, old(self).scope@, old(self)@),
            final(self).scope == old(self).scope,
            *final(final(self).gen) == *final(old(self).gen),
        decreases i, 0nat,
    {
        let Loop { kind, tok, init, cond, incr, then } = i;
        proof {
            reveal_strlit("");
        }
        let label_id = self.incr_label_suffix_counter();

        let label_begin = Self::label(".L.begin.", label_id, "");
        let label_end = Self::label(".L.end.", label_id, "");
        proof {
            lemma_opt_unfold(Ast::Loop(i)@->init, self.scope@, self@);
            lemma_opt_counts(Ast::Loop(i)@->init);
            lemma_opt_unfold(Ast::Loop(i)@->Loop_cond, self.scope@, self@);
            lemma_opt_counts(Ast::Loop(i)@->Loop_cond);
        }
        match init {
            None => {},
            Some(initializer) => {
                self.compile(*initializer);
            },
        }
        self.gen.writeln(Self::label(".L.begin.", label_id, ":").as_str());

        match cond {
            None => {},
            Some(condition) => {
                self.compile(*condition);
                self.branch_if_zero(label_end.as_str());
            },
        }
        self.compile(*then);
        proof {
            lemma_opt_unfold(Ast::Loop(i)@->incr, self.scope@, self@);
            lemma_opt_counts(Ast::Loop(i)@->incr);
        }
        match incr {
            None => {},
            Some(increment) => self.compile(*increment),
        }
        self.gen.icmd1ln("jmp", label_begin.as_str());
        self.gen.writeln(Self::label(".L.end.", label_id, ":").as_str());
    }
}

} // verus!
