//! Character classes, decimal text and stack alignment.

use vstd::prelude::*;
use vstd::string::StringExecFns;

verus! {

/// `ch` is one of the ten decimal digits.
pub open spec fn digit(ch: char) -> bool {
    '0' <= ch && ch <= '9'
}

/// Whether `char::is_alphabetic` holds of `ch`: the Unicode property
/// `Alphabetic`, which is a table and not a formula.
pub uninterp spec fn alphabetic(ch: char) -> bool;

/// Whether `char::is_alphanumeric` holds of `ch`: a Unicode letter or number.
pub uninterp spec fn alphanumeric(ch: char) -> bool;

/// Tells whether `ch` is a decimal digit.
pub fn is_digit(ch: char) -> (b: bool)
    ensures
        b == digit(ch),
{
    ch >= '0' && ch <= '9'
}

/// Calls `char::is_alphabetic`. Trusted: the answer is the one the standard
/// library gives for this character, named [`alphabetic`].
#[verifier::external_body]
pub fn is_alpha(ch: char) -> (b: bool)
    ensures
        b == alphabetic(ch),
{
    return ch.is_alphabetic();
}

/// Calls `char::is_alphanumeric`. Trusted: the answer is the one the standard
/// library gives for this character, named [`alphanumeric`].
#[verifier::external_body]
pub fn is_alpha_num(ch: char) -> (b: bool)
    ensures
        b == alphanumeric(ch),
{
    return ch.is_alphanumeric();
}

/// Compares two string slices with `==`. Trusted: the answer is true exactly
/// when both hold the same characters in the same order.
#[verifier::external_body]
pub(crate) fn str_eq(a: &str, b: &str) -> (r: bool)
    ensures
        r == (a@ == b@),
{
    a == b
}

/// `a` divided by a `b` above zero, rounded toward zero.
pub open spec fn quotient(a: int, b: int) -> int {
    if a >= 0 {
        a / b
    } else {
        -((-a) / b)
    }
}

/// `offset` brought to a multiple of `align`: for an offset that is not
/// negative and an alignment above zero, the smallest multiple of `align`
/// that is not below `offset`.
pub open spec fn aligned(offset: int, align: int) -> int {
    quotient(offset + align - 1, align) * align
}

/// For an offset that is not negative, [`aligned`] rounds up.
pub proof fn lemma_aligned_rounds_up(offset: int, align: int)
    requires
        0 <= offset,
        0 < align,
    ensures
        aligned(offset, align) % align == 0,
        offset <= aligned(offset, align) < offset + align,
{
    let x = offset + align - 1;
    assert(x == align * (x / align) + x % align) by (nonlinear_arith)
        requires
            align > 0,
    ;
    assert(0 <= x % align < align) by (nonlinear_arith)
        requires
            align > 0,
    ;
    assert((x / align) * align == align * (x / align)) by (nonlinear_arith);
    assert(((x / align) * align) % align == 0) by (nonlinear_arith)
        requires
            align > 0,
    ;
}

/// Rounds `offset` up to a multiple of `align`.
pub fn align_to(offset: i32, align: i32) -> (r: i32)
    requires
        0 < align,
        i32::MIN < offset + align <= i32::MAX,
    ensures
        r == aligned(offset as int, align as int),
        0 <= offset && 0 < align ==> r % align == 0 && offset <= r < offset + align,
{
    let x: i32 = offset + align - 1;
    let q: i32 = x / align;
    proof {
        let a: int = if x >= 0 { x as int } else { -(x as int) };
        let b: int = align as int;
        assert(a == b * (a / b) + a % b && 0 <= a % b < b) by (nonlinear_arith)
            requires
                b > 0,
        ;
        assert((a / b) * b == b * (a / b)) by (nonlinear_arith);
        assert((-(a / b)) * b == -(b * (a / b))) by (nonlinear_arith);
        if 0 <= offset {
            lemma_aligned_rounds_up(offset as int, align as int);
        }
    }
    q * align
}

/// The character that stands for the digit `d`.
pub open spec fn digit_char(d: int) -> char {
    if d == 0 { '0' } else if d == 1 { '1' } else if d == 2 { '2' } else if d == 3 { '3' }
    else if d == 4 { '4' } else if d == 5 { '5' } else if d == 6 { '6' } else if d == 7 { '7' }
    else if d == 8 { '8' } else { '9' }
}

/// The decimal digits of `n`, most significant first, without leading zeros.
pub open spec fn digits(n: nat) -> Seq<char>
    decreases n,
{
    if n < 10 {
        seq![digit_char(n as int)]
    } else {
        digits(n / 10).push(digit_char((n % 10) as int))
    }
}

/// The decimal text of `i`, with a leading `-` when it is negative.
pub open spec fn decimal(i: int) -> Seq<char> {
    if i < 0 {
        seq!['-'] + digits((-i) as nat)
    } else {
        digits(i as nat)
    }
}

/// The digit that the character `ch` stands for.
pub open spec fn digit_value(ch: char) -> nat {
    if ch == '1' { 1 } else if ch == '2' { 2 } else if ch == '3' { 3 } else if ch == '4' { 4 }
    else if ch == '5' { 5 } else if ch == '6' { 6 } else if ch == '7' { 7 } else if ch == '8' { 8 }
    else if ch == '9' { 9 } else { 0 }
}

/// The number that the digits `s` spell.
pub open spec fn spelled(s: Seq<char>) -> nat
    decreases s.len(),
{
    if s.len() == 0 {
        0
    } else {
        spelled(s.drop_last()) * 10 + digit_value(s.last())
    }
}

/// The digits of a number spell that number.
pub proof fn lemma_digits_spell(n: nat)
    ensures
        spelled(digits(n)) == n,
    decreases n,
{
    if n < 10 {
        assert(digits(n).drop_last() =~= Seq::<char>::empty());
        assert(spelled(digits(n).drop_last()) == 0);
    } else {
        lemma_digits_spell(n / 10);
        assert(digits(n).drop_last() =~= digits(n / 10));
    }
}

/// Different numbers have different decimal texts.
pub proof fn lemma_digits_differ(a: nat, b: nat)
    requires
        a != b,
    ensures
        digits(a) != digits(b),
{
    lemma_digits_spell(a);
    lemma_digits_spell(b);
}

/// Calls `String::push`. Trusted: the string is the old one with `ch` at its
/// end.
#[verifier::external_body]
pub(crate) fn push_char(s: &mut String, ch: char)
    ensures
        final(s)@ == old(s)@.push(ch),
{
    s.push(ch)
}

fn digit_of(d: u64) -> (ch: char)
    requires
        d < 10,
    ensures
        ch == digit_char(d as int),
{
    if d == 0 { '0' } else if d == 1 { '1' } else if d == 2 { '2' } else if d == 3 { '3' }
    else if d == 4 { '4' } else if d == 5 { '5' } else if d == 6 { '6' } else if d == 7 { '7' }
    else if d == 8 { '8' } else { '9' }
}

fn push_digits(s: &mut String, n: u64)
    ensures
        final(s)@ == old(s)@ + digits(n as nat),
    decreases n,
{
    if n >= 10 {
        push_digits(s, n / 10);
    }
    push_char(s, digit_of(n % 10));
}

/// Appends the decimal text of the count `n` to `s`.
pub fn push_count(s: &mut String, n: usize)
    ensures
        final(s)@ == old(s)@ + digits(n as nat),
{
    push_digits(s, n as u64);
}

/// Appends the decimal text of `val` to `s`.
pub fn push_decimal(s: &mut String, val: i64)
    ensures
        final(s)@ == old(s)@ + decimal(val as int),
{
    if val < 0 {
        push_char(s, '-');
        let below: u64 = (-(val + 1)) as u64;
        push_digits(s, below + 1);
    } else {
        push_digits(s, val as u64);
    }
}

/// The frame size operand of the prologue: `$` and `offset` rounded up to
/// 16 bytes.
pub fn x86_program_offset(offset: i32) -> (r: String)
    requires
        offset <= i32::MAX - 16,
    ensures
        r@ == seq!['$'] + decimal(aligned(offset as int, 16)),
{
    let aligned: i32 = align_to(offset, 16);
    proof {
        reveal_strlit("$");
        reveal_strlit("");
        assert("$"@ =~= seq!['$']);
        assert("$"@ + decimal(aligned as int) + ""@ =~= seq!['$'] + decimal(aligned as int));
    }
    append_str("$", aligned as i64, "")
}

/// `s`, then the decimal text of `val`, then `suffix`.
pub fn append_str(s: &str, val: i64, suffix: &str) -> (r: String)
    ensures
        r@ == s@ + decimal(val as int) + suffix@,
{
    let mut output = String::from_str(s);
    push_decimal(&mut output, val);
    output.append(suffix);
    output
}

} // verus!
