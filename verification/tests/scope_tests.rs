use chibicc::parser::localscope::{Local, LocalScope};
use chibicc::parser::precedence::{get_precedence, Precedence};
use chibicc::tokenizer::tokentype::TokenType;

#[test]
fn ids_count_up_from_one() {
    let mut s = LocalScope::new();
    assert_eq!(s.local_count, 0);
    assert_eq!(s.add_local("a"), 1);
    assert_eq!(s.add_local("b"), 2);
    assert_eq!(s.add_local_if_not_exist("c"), 3);
    assert_eq!(s.add_local_if_not_exist("a"), 1);
    assert_eq!(s.add_local_if_not_exist("b"), 2);
    assert_eq!(s.local_count, 3);
    assert_eq!(s.locals.len(), 3);
}

#[test]
fn contains_sees_the_current_block_only() {
    let mut s = LocalScope::new();
    s.add_local("outer");
    s.begin_scope();
    assert_eq!(s.scope_depth, 1);
    assert_eq!(s.contains("outer"), (false, 0));
    assert_eq!(s.add_local_if_not_exist("outer"), 2);
    assert_eq!(s.contains("outer"), (true, 2));
    assert_eq!(s.add_local("inner"), 3);
    assert_eq!(s.contains("inner"), (true, 3));
    assert_eq!(s.contains("nobody"), (false, 0));
    assert_eq!(s.resolve_local("outer"), Some(1));
    assert_eq!(s.resolve_local("inner"), Some(2));
    assert_eq!(s.resolve_local("nobody"), None);
}

#[test]
fn end_scope_pops_the_deeper_locals() {
    let mut s = LocalScope::new();
    s.add_local("a");
    s.begin_scope();
    s.add_local("b");
    s.add_local("c");
    assert_eq!(s.end_scope(), 2);
    assert_eq!(s.local_count, 1);
    assert_eq!(s.scope_depth, 0);
    assert_eq!(s.locals.len(), 3);
    assert_eq!(s.contains("a"), (true, 1));
    assert_eq!(s.contains("b"), (false, 0));
    assert_eq!(s.end_scope(), 1);
    assert_eq!(s.local_count, 0);
    assert_eq!(s.scope_depth, -1);
    assert_eq!(s.resolve_local("a"), None);
}

#[test]
fn offsets_are_minus_eight_times_the_rank() {
    let mut s = LocalScope::new();
    s.add_local("a");
    s.add_local("b");
    s.add_local("c");
    assert_eq!(s.offset_by_id(1), (true, 0));
    assert_eq!(s.assign_offsets(), 24);
    assert_eq!(s.offset, 24);
    assert_eq!(s.offset_by_id(1), (true, -8));
    assert_eq!(s.offset_by_id(2), (true, -16));
    assert_eq!(s.offset_by_id(3), (true, -24));
    assert_eq!(s.offset_by_id(4), (false, 0));
    assert_eq!(s.offset_by_id(0), (false, 0));
}

#[test]
fn ended_locals_still_get_a_slot() {
    let mut s = LocalScope::new();
    s.add_local("a");
    s.begin_scope();
    s.add_local("b");
    s.end_scope();
    assert_eq!(s.assign_offsets(), 16);
    assert_eq!(s.offset_by_id(2), (false, 0));
    assert_eq!(s.offset_by_id(1), (true, -8));
}

#[test]
fn a_count_below_zero_sees_nothing() {
    let mut s = LocalScope::new();
    s.add_local("a");
    s.local_count = -3;
    assert_eq!(s.contains("a"), (false, 0));
    assert_eq!(s.offset_by_id(1), (false, 0));
    assert_eq!(s.resolve_local("a"), None);
    assert_eq!(s.end_scope(), 0);
    assert_eq!(s.local_count, -3);
}

#[test]
fn empty_scope() {
    let mut s = LocalScope::new();
    assert_eq!(s.contains("a"), (false, 0));
    assert_eq!(s.offset_by_id(1), (false, 0));
    assert_eq!(s.resolve_local("a"), None);
    assert_eq!(s.assign_offsets(), 0);
    let l = Local::new(String::from("x"), 0, 1);
    s.locals.push(l);
    assert_eq!(s.locals.len(), 1);
}

#[test]
fn precedence_table() {
    assert_eq!(get_precedence(&TokenType::TokenEqual), Precedence::PrecedenceAssignment);
    assert_eq!(get_precedence(&TokenType::TokenEqualEqual), Precedence::PrecedenceEquality);
    assert_eq!(get_precedence(&TokenType::TokenBangEqual), Precedence::PrecedenceEquality);
    assert_eq!(get_precedence(&TokenType::TokenLess), Precedence::PrecedenceComparison);
    assert_eq!(get_precedence(&TokenType::TokenGreaterEqual), Precedence::PrecedenceComparison);
    assert_eq!(get_precedence(&TokenType::TokenPlus), Precedence::PrecedenceTerm);
    assert_eq!(get_precedence(&TokenType::TokenMinus), Precedence::PrecedenceTerm);
    assert_eq!(get_precedence(&TokenType::TokenStar), Precedence::PrecedenceFactor);
    assert_eq!(get_precedence(&TokenType::TokenSlash), Precedence::PrecedenceFactor);
    assert_eq!(get_precedence(&TokenType::TokenLeftParen), Precedence::PrecedenceCall);
    assert_eq!(get_precedence(&TokenType::TokenSemicolon), Precedence::PrecedenceNone);
    assert_eq!(get_precedence(&TokenType::TokenBang), Precedence::PrecedenceNone);
}

#[test]
fn precedence_ladder_is_ordered() {
    let ladder = [
        Precedence::PrecedenceNone,
        Precedence::PrecedenceAssignment,
        Precedence::PrecedenceEquality,
        Precedence::PrecedenceComparison,
        Precedence::PrecedenceTerm,
        Precedence::PrecedenceFactor,
        Precedence::PrecedenceUnary,
        Precedence::PrecedenceCall,
    ];
    let levels = [1u8, 2, 5, 6, 7, 8, 9, 10];
    for i in 0..ladder.len() {
        assert_eq!(ladder[i].level(), levels[i]);
        if i > 0 {
            assert!(ladder[i - 1] < ladder[i]);
            assert!(ladder[i - 1].level() < ladder[i].level());
        }
    }
}
