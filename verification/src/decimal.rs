//! Decimal notation for integers, as used in the keys of enum value names.

use vstd::prelude::*;

verus! {

/// The character that writes the digit `d`.
pub open spec fn digit_char(d: int) -> char {
    if d == 0 {
        '0'
    } else if d == 1 {
        '1'
    } else if d == 2 {
        '2'
    } else if d == 3 {
        '3'
    } else if d == 4 {
        '4'
    } else if d == 5 {
        '5'
    } else if d == 6 {
        '6'
    } else if d == 7 {
        '7'
    } else if d == 8 {
        '8'
    } else {
        '9'
    }
}

/// The digit that a character writes; 0 for any other character.
pub open spec fn digit_value(c: char) -> int {
    if c == '1' {
        1
    } else if c == '2' {
        2
    } else if c == '3' {
        3
    } else if c == '4' {
        4
    } else if c == '5' {
        5
    } else if c == '6' {
        6
    } else if c == '7' {
        7
    } else if c == '8' {
        8
    } else if c == '9' {
        9
    } else {
        0
    }
}

/// The digits of a natural number, most significant first, without leading
/// zeros.
pub open spec fn decimal_nat(n: nat) -> Seq<char>
    decreases n,
{
    if n < 10 {
        seq![digit_char(n as int)]
    } else {
        decimal_nat(n / 10).push(digit_char((n % 10) as int))
    }
}

/// The decimal notation of an integer: a minus sign for a negative number,
/// then the digits of its magnitude.
pub open spec fn decimal(v: int) -> Seq<char> {
    if v < 0 {
        seq!['-'] + decimal_nat((-v) as nat)
    } else {
        decimal_nat(v as nat)
    }
}

/// The natural number that a run of digits writes.
pub open spec fn natural_of(s: Seq<char>) -> nat
    decreases s.len(),
{
    if s.len() == 0 {
        0
    } else {
        (natural_of(s.drop_last()) * 10 + digit_value(s.last())) as nat
    }
}

/// The integer that a decimal notation writes.
pub open spec fn integer_of(s: Seq<char>) -> int {
    if s.len() > 0 && s[0] == '-' {
        -(natural_of(s.drop_first()) as int)
    } else {
        natural_of(s) as int
    }
}

/// Reading the digits of a natural number gives the number back, and the
/// digits never start with a minus sign.
pub proof fn lemma_natural_round_trip(n: nat)
    ensures
        natural_of(decimal_nat(n)) == n,
        decimal_nat(n).len() > 0,
        decimal_nat(n)[0] != '-',
    decreases n,
{
    if n < 10 {
        let s = decimal_nat(n);
        assert(s.drop_last().len() == 0);
        assert(natural_of(s.drop_last()) == 0);
    } else {
        lemma_natural_round_trip(n / 10);
        let s = decimal_nat(n);
        assert(s.drop_last() == decimal_nat(n / 10));
        assert(s.last() == digit_char((n % 10) as int));
    }
}

/// Decimal notation round-trips: reading what was written for `v` gives `v`,
/// for negative numbers and zero as for positive ones.
pub proof fn lemma_decimal_round_trip(v: int)
    ensures
        integer_of(decimal(v)) == v,
{
    if v < 0 {
        lemma_natural_round_trip((-v) as nat);
        let s = decimal(v);
        assert(s[0] == '-');
        assert(s.drop_first() == decimal_nat((-v) as nat));
    } else {
        lemma_natural_round_trip(v as nat);
    }
}

/// Two integers with one decimal notation are the same integer.
pub proof fn lemma_decimal_injective(a: int, b: int)
    requires
        decimal(a) == decimal(b),
    ensures
        a == b,
{
    lemma_decimal_round_trip(a);
    lemma_decimal_round_trip(b);
}

/// The one-character text of a digit.
fn digit_text(d: u64) -> (r: &'static str)
    requires
        d < 10,
    ensures
        r@ == seq![digit_char(d as int)],
{
    proof {
        reveal_strlit("0");
        reveal_strlit("1");
        reveal_strlit("2");
        reveal_strlit("3");
        reveal_strlit("4");
        reveal_strlit("5");
        reveal_strlit("6");
        reveal_strlit("7");
        reveal_strlit("8");
        reveal_strlit("9");
    }
    let r = if d == 0 {
        "0"
    } else if d == 1 {
        "1"
    } else if d == 2 {
        "2"
    } else if d == 3 {
        "3"
    } else if d == 4 {
        "4"
    } else if d == 5 {
        "5"
    } else if d == 6 {
        "6"
    } else if d == 7 {
        "7"
    } else if d == 8 {
        "8"
    } else {
        "9"
    };
    assert(r@ =~= seq![digit_char(d as int)]);
    r
}

/// Appends the digits of `n` to `out`.
fn push_digits(out: &mut String, n: u64)
    ensures
        final(out)@ == old(out)@ + decimal_nat(n as nat),
    decreases n,
{
    if n >= 10 {
        push_digits(out, n / 10);
    }
    out.append(digit_text(n % 10));
}

/// Writes a natural number in decimal notation.
pub fn unsigned_string(n: u64) -> (r: String)
    ensures
        r@ == decimal_nat(n as nat),
{
    let mut out = String::new();
    push_digits(&mut out, n);
    assert(out@ =~= decimal_nat(n as nat));
    out
}

/// Writes an integer in decimal notation.
pub fn decimal_string(v: i64) -> (r: String)
    ensures
        r@ == decimal(v as int),
{
    let mut out = String::new();
    if v < 0 {
        proof {
            reveal_strlit("-");
        }
        out.append("-");
        let magnitude: u64 = (-(v + 1)) as u64 + 1;
        push_digits(&mut out, magnitude);
        assert(out@ =~= decimal(v as int));
    } else {
        push_digits(&mut out, v as u64);
        assert(out@ =~= decimal(v as int));
    }
    out
}

} // verus!
