//! What a tree asks of the emitter's counters, computed before it is
//! lowered: how many label numbers it takes and how deep it pushes.

use vstd::prelude::*;
use crate::ast::{views, Ast, AstView, If, Loop, LoopKind};
use crate::compiler::lowering::{
    label_count, label_count_all, lemma_opt_counts, stack_need, stack_need_all,
};

verus! {

/// `n` as a label count, if it fits the label counter.
pub open spec fn as_labels(n: nat) -> Option<u16> {
    if n <= u16::MAX {
        Some(n as u16)
    } else {
        None
    }
}

/// `n` as a depth, if it fits the depth counter.
pub open spec fn as_depth(n: nat) -> Option<i64> {
    if n <= i64::MAX {
        Some(n as i64)
    } else {
        None
    }
}

/// The count of two parts together, where `a` and `b` are the counts of the
/// parts.
pub open spec fn sum_spec(a: Option<u16>, b: Option<u16>) -> Option<u16> {
    match (a, b) {
        (Some(x), Some(y)) => as_labels((x + y) as nat),
        _ => None,
    }
}

/// One more than the depth `a`.
pub open spec fn deeper_spec(a: Option<i64>) -> Option<i64> {
    match a {
        Some(x) => as_depth((x + 1) as nat),
        None => None,
    }
}

/// The larger of the depths `a` and `b`.
pub open spec fn deepest_spec(a: Option<i64>, b: Option<i64>) -> Option<i64> {
    match (a, b) {
        (Some(x), Some(y)) => Some(if x >= y { x } else { y }),
        _ => None,
    }
}

fn sum(a: Option<u16>, b: Option<u16>) -> (r: Option<u16>)
    ensures
        r == sum_spec(a, b),
{
    match (a, b) {
        (Some(x), Some(y)) => if x <= u16::MAX - y {
            Some(x + y)
        } else {
            None
        },
        _ => None,
    }
}

fn deeper(a: Option<i64>) -> (r: Option<i64>)
    requires
        a matches Some(x) ==> x >= 0,
    ensures
        r == deeper_spec(a),
{
    match a {
        Some(x) => if x < i64::MAX {
            Some(x + 1)
        } else {
            None
        },
        None => None,
    }
}

fn deepest(a: Option<i64>, b: Option<i64>) -> (r: Option<i64>)
    ensures
        r == deepest_spec(a, b),
{
    match (a, b) {
        (Some(x), Some(y)) => if x >= y {
            Some(x)
        } else {
            Some(y)
        },
        _ => None,
    }
}

fn count_labels_opt(ast: &Option<Box<Ast>>) -> (n: Option<u16>)
    ensures
        n == as_labels(
            match *ast {
                Some(a) => label_count(a@),
                None => 0,
            },
        ),
    decreases *ast,
{
    match ast {
        Some(a) => count_labels(a),
        None => Some(0),
    }
}

/// How many label numbers lowering `ast` takes, if the label counter can
/// hold that many.
pub fn count_labels(ast: &Ast) -> (n: Option<u16>)
    ensures
        n == as_labels(label_count(ast@)),
    decreases *ast,
{
    match ast {
        Ast::Statements(s) => {
            let ghost all = views(s.asts@);
            assert(ast@ matches AstView::Statements { kind, asts } && asts =~= all);
            let mut total: Option<u16> = Some(0);
            let mut i: usize = s.asts.len();
            assert(all.skip(i as int) =~= Seq::empty());
            while i > 0
                invariant
                    i <= s.asts@.len(),
                    all == views(s.asts@),
                    total == as_labels(label_count_all(all.skip(i as int))),
                    forall|k: int|
                        0 <= k < s.asts@.len() ==> decreases_to!(*ast => #[trigger] s.asts@[k]),
                decreases i,
            {
                i -= 1;
                assert(all.skip(i as int).drop_first() =~= all.skip(i + 1));
                assert(all.skip(i as int)[0] == s.asts@[i as int]@);
                total = sum(count_labels(&s.asts[i]), total);
            }
            assert(all.skip(0) =~= all);
            total
        },
        Ast::Literal(_) => Some(0),
        Ast::ArithExpr(a) => sum(count_labels(&a.right), count_labels(&a.left)),
        Ast::Unary(u) => count_labels(&u.right),
        Ast::Variable(v) => {
            proof {
                lemma_opt_counts(ast@->assign);
            }
            count_labels_opt(&v.assign)
        },
        Ast::Return(r) => {
            proof {
                lemma_opt_counts(ast@->value);
            }
            count_labels_opt(&r.value)
        },
        Ast::If(i) => count_labels_if(i),
        Ast::Loop(l) => count_labels_loop(l),
        Ast::FunctionCall(_) => Some(0),
    }
}

fn count_labels_if(i: &If) -> (n: Option<u16>)
    ensures
        n == as_labels(label_count(Ast::If(*i)@)),
    decreases *i,
{
    let If { token, cond, then, alt } = i;
    proof {
        lemma_opt_counts(Ast::If(*i)@->alt);
    }
    let a = count_labels(cond);
    let b = count_labels(then);
    let c = count_labels_opt(alt);
    sum(sum(sum(Some(1), a), b), c)
}

fn count_labels_loop(l: &Loop) -> (n: Option<u16>)
    ensures
        n == as_labels(label_count(Ast::Loop(*l)@)),
    decreases *l,
{
    let Loop { kind, tok, init, cond, incr, then } = l;
    proof {
        lemma_opt_counts(Ast::Loop(*l)@->init);
        lemma_opt_counts(Ast::Loop(*l)@->Loop_cond);
        lemma_opt_counts(Ast::Loop(*l)@->incr);
    }
    match kind {
        LoopKind::DoWhile => Some(0),
        _ => {
            let a = count_labels_opt(init);
            let b = count_labels_opt(cond);
            let c = count_labels(then);
            let d = count_labels_opt(incr);
            sum(sum(sum(sum(Some(1), a), b), c), d)
        },
    }
}

fn push_depth_opt(ast: &Option<Box<Ast>>) -> (n: Option<i64>)
    ensures
        n == as_depth(
            match *ast {
                Some(a) => stack_need(a@),
                None => 0,
            },
        ),
    decreases *ast,
{
    match ast {
        Some(a) => push_depth(a),
        None => Some(0),
    }
}

/// How many values lowering `ast` has pushed at most at any one time, if the
/// depth counter can hold that many.
pub fn push_depth(ast: &Ast) -> (n: Option<i64>)
    ensures
        n == as_depth(stack_need(ast@)),
    decreases *ast,
{
    match ast {
        Ast::Statements(s) => {
            let ghost all = views(s.asts@);
            assert(ast@ matches AstView::Statements { kind, asts } && asts =~= all);
            let mut deep: Option<i64> = Some(0);
            let mut i: usize = s.asts.len();
            assert(all.skip(i as int) =~= Seq::empty());
            while i > 0
                invariant
                    i <= s.asts@.len(),
                    all == views(s.asts@),
                    deep == as_depth(stack_need_all(all.skip(i as int))),
                    forall|k: int|
                        0 <= k < s.asts@.len() ==> decreases_to!(*ast => #[trigger] s.asts@[k]),
                decreases i,
            {
                i -= 1;
                assert(all.skip(i as int).drop_first() =~= all.skip(i + 1));
                assert(all.skip(i as int)[0] == s.asts@[i as int]@);
                deep = deepest(push_depth(&s.asts[i]), deep);
            }
            assert(all.skip(0) =~= all);
            deep
        },
        Ast::Literal(_) => Some(0),
        Ast::ArithExpr(a) => deepest(push_depth(&a.right), deeper(push_depth(&a.left))),
        Ast::Unary(u) => push_depth(&u.right),
        Ast::Variable(v) => match &v.assign {
            Some(value) => deeper(push_depth(value)),
            None => Some(0),
        },
        Ast::Return(r) => {
            proof {
                lemma_opt_counts(ast@->value);
            }
            push_depth_opt(&r.value)
        },
        Ast::If(i) => push_depth_if(i),
        Ast::Loop(l) => push_depth_loop(l),
        Ast::FunctionCall(_) => Some(0),
    }
}

fn push_depth_if(i: &If) -> (n: Option<i64>)
    ensures
        n == as_depth(stack_need(Ast::If(*i)@)),
    decreases *i,
{
    let If { token, cond, then, alt } = i;
    proof {
        lemma_opt_counts(Ast::If(*i)@->alt);
    }
    let a = push_depth(cond);
    let b = push_depth(then);
    let c = push_depth_opt(alt);
    deepest(a, deepest(b, c))
}

fn push_depth_loop(l: &Loop) -> (n: Option<i64>)
    ensures
        n == as_depth(stack_need(Ast::Loop(*l)@)),
    decreases *l,
{
    let Loop { kind, tok, init, cond, incr, then } = l;
    proof {
        lemma_opt_counts(Ast::Loop(*l)@->init);
        lemma_opt_counts(Ast::Loop(*l)@->Loop_cond);
        lemma_opt_counts(Ast::Loop(*l)@->incr);
    }
    match kind {
        LoopKind::DoWhile => Some(0),
        _ => {
            let a = push_depth_opt(init);
            let b = push_depth_opt(cond);
            let c = push_depth(then);
            let d = push_depth_opt(incr);
            deepest(deepest(a, b), deepest(c, d))
        },
    }
}

} // verus!
