//! Base-ten rendering of unsigned integers.

use vstd::prelude::*;

verus! {

/// The character for a single decimal digit.
pub open spec fn digit_char(d: nat) -> char {
    if d == 0 {
        '0'
    } else if d == 1 {
        '1'
    } else if d == 2 {
        '2'
    } else if d == 3 {
        '3'
    } else if d == 4 {
        '4'
    } else if d == 5 {
        '5'
    } else if d == 6 {
        '6'
    } else if d == 7 {
        '7'
    } else if d == 8 {
        '8'
    } else {
        '9'
    }
}

/// The shortest base-ten spelling of `n`: most significant digit first, no
/// leading zeros, and "0" for zero.
pub open spec fn decimal(n: nat) -> Seq<char>
    decreases n,
{
    if n < 10 {
        seq![digit_char(n)]
    } else {
        decimal(n / 10).push(digit_char(n % 10))
    }
}

/// Whether `c` is one of the ten decimal digits.
pub open spec fn is_digit(c: char) -> bool {
    '0' <= c && c <= '9'
}

/// The value of a decimal digit character.
pub open spec fn digit_value(c: char) -> nat {
    (c as u32 - '0' as u32) as nat
}

/// The number that a string of decimal digits spells.
pub open spec fn value(s: Seq<char>) -> nat
    decreases s.len(),
{
    if s.len() == 0 {
        0
    } else {
        value(s.drop_last()) * 10 + digit_value(s.last())
    }
}

proof fn lemma_digit_char(k: nat)
    requires
        k < 10,
    ensures
        is_digit(digit_char(k)),
        digit_value(digit_char(k)) == k,
{
}

/// A decimal spelling is a non-empty run of digits that spells its number
/// back.
pub proof fn lemma_decimal(n: nat)
    ensures
        decimal(n).len() > 0,
        forall|i: int| 0 <= i < decimal(n).len() ==> is_digit(#[trigger] decimal(n)[i]),
        value(decimal(n)) == n,
    decreases n,
{
    lemma_digit_char(n % 10);
    if n >= 10 {
        lemma_decimal(n / 10);
        let d = decimal(n);
        assert(d.drop_last() =~= decimal(n / 10));
        assert(d.last() == digit_char(n % 10));
        assert(value(d) == value(decimal(n / 10)) * 10 + n % 10);
        assert((n / 10) * 10 + n % 10 == n);
    } else {
        let d = decimal(n);
        assert(d.drop_last() =~= Seq::<char>::empty());
        assert(value(d.drop_last()) == 0);
        assert(d.last() == digit_char(n));
        assert(n % 10 == n);
        assert(value(d) == digit_value(digit_char(n)));
    }
}

/// Different numbers are spelled differently.
pub proof fn lemma_decimal_injective(a: nat, b: nat)
    requires
        decimal(a) == decimal(b),
    ensures
        a == b,
{
    lemma_decimal(a);
    lemma_decimal(b);
}

fn digit_str(d: usize) -> (r: &'static str)
    requires
        d < 10,
    ensures
        r@ == seq![digit_char(d as nat)],
{
    proof {
        reveal_strlit("0");
        reveal_strlit("1");
        reveal_strlit("2");
        reveal_strlit("3");
        reveal_strlit("4");
        reveal_strlit("5");
        reveal_strlit("6");
        reveal_strlit("7");
        reveal_strlit("8");
        reveal_strlit("9");
    }
    let r = if d == 0 {
        "0"
    } else if d == 1 {
        "1"
    } else if d == 2 {
        "2"
    } else if d == 3 {
        "3"
    } else if d == 4 {
        "4"
    } else if d == 5 {
        "5"
    } else if d == 6 {
        "6"
    } else if d == 7 {
        "7"
    } else if d == 8 {
        "8"
    } else {
        "9"
    };
    assert(r@ =~= seq![digit_char(d as nat)]);
    r
}

/// Appends the decimal spelling of `n` to `out`.
pub fn push_decimal(out: &mut String, n: usize)
    ensures
        final(out)@ == old(out)@ + decimal(n as nat),
    decreases n,
{
    if n >= 10 {
        push_decimal(out, n / 10);
    }
    out.append(digit_str(n % 10));
    proof {
        if n >= 10 {
            assert(decimal(n as nat) == decimal((n / 10) as nat).push(digit_char((n % 10) as nat)));
        }
    }
    assert(out@ =~= old(out)@ + decimal(n as nat));
}

} // verus!
