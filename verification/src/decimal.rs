//! Decimal rendering of integers, with the facts needed to read a number back from text.
use vstd::prelude::*;

verus! {

/// The character of decimal digit `d`.
pub open spec fn digit_char(d: nat) -> char {
    if d == 0 {
        '0'
    } else if d == 1 {
        '1'
    } else if d == 2 {
        '2'
    } else if d == 3 {
        '3'
    } else if d == 4 {
        '4'
    } else if d == 5 {
        '5'
    } else if d == 6 {
        '6'
    } else if d == 7 {
        '7'
    } else if d == 8 {
        '8'
    } else {
        '9'
    }
}

/// The numeric value of a digit character.
pub open spec fn digit_value(c: char) -> nat {
    if c == '1' {
        1
    } else if c == '2' {
        2
    } else if c == '3' {
        3
    } else if c == '4' {
        4
    } else if c == '5' {
        5
    } else if c == '6' {
        6
    } else if c == '7' {
        7
    } else if c == '8' {
        8
    } else if c == '9' {
        9
    } else {
        0
    }
}

/// Whether `c` is an ASCII decimal digit.
pub open spec fn is_digit(c: char) -> bool {
    '0' <= c && c <= '9'
}

/// The decimal representation of `n`, without leading zeros (`n.to_string()`).
pub open spec fn decimal(n: nat) -> Seq<char>
    decreases n,
{
    if n < 10 {
        seq![digit_char(n)]
    } else {
        decimal(n / 10) + seq![digit_char(n % 10)]
    }
}

/// The decimal representation of a signed integer: a minus sign before negative values.
pub open spec fn signed_decimal(n: int) -> Seq<char> {
    if n < 0 {
        seq!['-'] + decimal((-n) as nat)
    } else {
        decimal(n as nat)
    }
}

/// The value of a string of digits.
pub open spec fn digits_value(s: Seq<char>) -> nat
    decreases s.len(),
{
    if s.len() == 0 {
        0
    } else {
        digits_value(s.drop_last()) * 10 + digit_value(s.last())
    }
}

/// Whether every character of `s` is a digit.
pub open spec fn all_digits(s: Seq<char>) -> bool {
    forall|i: int| 0 <= i < s.len() ==> is_digit(#[trigger] s[i])
}

/// A decimal representation is a non-empty string of digits that reads back as the number.
pub proof fn lemma_decimal(n: nat)
    ensures
        decimal(n).len() > 0,
        all_digits(decimal(n)),
        digits_value(decimal(n)) == n,
    decreases n,
{
    lemma_digit_roundtrip(n % 10);
    if n >= 10 {
        lemma_decimal(n / 10);
        let s = decimal(n);
        assert(s.drop_last() =~= decimal(n / 10));
        assert(s.last() == digit_char(n % 10));
        assert(digits_value(s) == digits_value(decimal(n / 10)) * 10 + digit_value(
            digit_char(n % 10),
        ));
        assert(n == (n / 10) * 10 + n % 10) by (nonlinear_arith);
    } else {
        let s = decimal(n);
        assert(s.drop_last() =~= Seq::<char>::empty());
        assert(n % 10 == n);
        assert(digits_value(s) == digits_value(s.drop_last()) * 10 + digit_value(s.last()));
    }
}

/// Digit characters read back as their value.
pub proof fn lemma_digit_roundtrip(d: nat)
    requires
        d < 10,
    ensures
        digit_value(digit_char(d)) == d,
        is_digit(digit_char(d)),
{
}

/// Different numbers have different decimal representations.
pub proof fn lemma_decimal_injective(a: nat, b: nat)
    ensures
        decimal(a) == decimal(b) ==> a == b,
{
    lemma_decimal(a);
    lemma_decimal(b);
}

/// A text made of a digit run followed by something that does not start with a digit splits
/// in only one way.
pub proof fn lemma_digits_then(p: Seq<char>, x: Seq<char>, q: Seq<char>, y: Seq<char>)
    requires
        all_digits(p),
        all_digits(q),
        x.len() == 0 || !is_digit(x[0]),
        y.len() == 0 || !is_digit(y[0]),
        p + x == q + y,
    ensures
        p == q,
        x == y,
{
    let s = p + x;
    if p.len() < q.len() {
        assert(s[p.len() as int] == q[p.len() as int]);
        if x.len() == 0 {
            assert(s.len() == p.len());
        } else {
            assert(s[p.len() as int] == x[0]);
        }
    } else if q.len() < p.len() {
        assert((q + y)[q.len() as int] == p[q.len() as int]);
        if y.len() == 0 {
            assert((q + y).len() == q.len());
        } else {
            assert((q + y)[q.len() as int] == y[0]);
        }
    }
    assert(p =~= s.subrange(0, p.len() as int));
    assert(q =~= (q + y).subrange(0, q.len() as int));
    assert(x =~= s.subrange(p.len() as int, s.len() as int));
    assert(y =~= (q + y).subrange(q.len() as int, (q + y).len() as int));
}

/// A signed decimal followed by something that does not start with a digit splits in only one
/// way, and the number is determined by its text.
pub proof fn lemma_signed_decimal_then(a: int, x: Seq<char>, b: int, y: Seq<char>)
    requires
        x.len() == 0 || !is_digit(x[0]),
        y.len() == 0 || !is_digit(y[0]),
        signed_decimal(a) + x == signed_decimal(b) + y,
    ensures
        a == b,
        x == y,
{
    let s = signed_decimal(a) + x;
    if a < 0 {
        lemma_decimal((-a) as nat);
    } else {
        lemma_decimal(a as nat);
    }
    if b < 0 {
        lemma_decimal((-b) as nat);
    } else {
        lemma_decimal(b as nat);
    }
    if a < 0 && b < 0 {
        let pa = decimal((-a) as nat);
        let pb = decimal((-b) as nat);
        assert(s.drop_first() =~= pa + x);
        assert((signed_decimal(b) + y).drop_first() =~= pb + y);
        lemma_digits_then(pa, x, pb, y);
        lemma_decimal_injective((-a) as nat, (-b) as nat);
    } else if a >= 0 && b >= 0 {
        lemma_digits_then(decimal(a as nat), x, decimal(b as nat), y);
        lemma_decimal_injective(a as nat, b as nat);
    } else if a < 0 {
        assert(s[0] == '-');
        assert((signed_decimal(b) + y)[0] == decimal(b as nat)[0]);
    } else {
        assert((signed_decimal(b) + y)[0] == '-');
        assert(s[0] == decimal(a as nat)[0]);
    }
}

fn digit(d: u64) -> (c: char)
    requires
        d < 10,
    ensures
        c == digit_char(d as nat),
{
    if d == 0 {
        '0'
    } else if d == 1 {
        '1'
    } else if d == 2 {
        '2'
    } else if d == 3 {
        '3'
    } else if d == 4 {
        '4'
    } else if d == 5 {
        '5'
    } else if d == 6 {
        '6'
    } else if d == 7 {
        '7'
    } else if d == 8 {
        '8'
    } else {
        '9'
    }
}

/// Appends the decimal representation of `n`.
pub fn push_decimal(out: &mut Vec<char>, n: u64)
    ensures
        final(out)@ == old(out)@ + decimal(n as nat),
    decreases n,
{
    if n >= 10 {
        push_decimal(out, n / 10);
    }
    out.push(digit(n % 10));
    proof {
        if n >= 10 {
            assert(final(out)@ =~= old(out)@ + decimal(n as nat));
        } else {
            assert(final(out)@ =~= old(out)@ + decimal(n as nat));
        }
    }
}

/// Appends the decimal representation of a signed `n`.
pub fn push_signed_decimal(out: &mut Vec<char>, n: i64)
    ensures
        final(out)@ == old(out)@ + signed_decimal(n as int),
{
    if n < 0 {
        out.push('-');
        let magnitude = (0i128 - (n as i128)) as u64;
        push_decimal(out, magnitude);
        assert(final(out)@ =~= old(out)@ + signed_decimal(n as int));
    } else {
        push_decimal(out, n as u64);
    }
}

} // verus!
