//! Decimal rendering of fixed-point numbers, as used in decision reasons.

use vstd::prelude::*;

use crate::types::PPM;

verus! {

/// The decimal digit character for `d < 10`.
pub open spec fn digit_char(d: nat) -> char {
    (48 + d) as char
}

/// The decimal representation of `n`, without leading zeros.
pub open spec fn decimal(n: nat) -> Seq<char>
    decreases n,
{
    if n < 10 {
        seq![digit_char(n)]
    } else {
        decimal(n / 10).push(digit_char(n % 10))
    }
}

/// The last three decimal digits of `n`, zero-padded.
pub open spec fn three_digits(n: nat) -> Seq<char> {
    seq![digit_char((n / 100) % 10), digit_char((n / 10) % 10), digit_char(n % 10)]
}

/// `n / d` rounded to the nearest integer, ties to the even one.
pub open spec fn round_div(n: nat, d: nat) -> nat
    recommends
        d > 0,
{
    let q = n / d;
    let r = n % d;
    if 2 * r > d || (2 * r == d && q % 2 == 1) {
        q + 1
    } else {
        q
    }
}

/// `n / d` rounded to the nearest integer, ties away from zero.
pub open spec fn round_half_up(n: nat, d: nat) -> nat
    recommends
        d > 0,
{
    (n + d / 2) / d
}

/// The absolute value of `v`.
pub open spec fn magnitude(v: int) -> nat {
    if v < 0 {
        (-v) as nat
    } else {
        v as nat
    }
}

/// A fraction in parts per million written with three decimals, such as
/// `0.750` or `-1.250`; the magnitude is rounded to the nearest thousandth,
/// halves away from zero (`2500` is written `0.003`), and a negative value
/// keeps its sign even when it rounds to zero.
pub open spec fn fixed3(v: int) -> Seq<char> {
    let m = round_half_up(magnitude(v), 1000);
    let sign = if v < 0 {
        seq!['-']
    } else {
        Seq::<char>::empty()
    };
    sign + decimal(m / 1000) + seq!['.'] + three_digits(m % 1000)
}

/// A fraction in parts per million written as a whole percentage, rounded
/// to the nearest one, halves to the even one (`125_000` is written `12`).
pub open spec fn percent(v: nat) -> Seq<char> {
    decimal(round_div(v, 10_000))
}

/// Append the digit character of `d` to `s`.
fn push_digit(s: &mut String, d: u64)
    requires
        d < 10,
    ensures
        final(s)@ == old(s)@.push(digit_char(d as nat)),
{
    proof {
        reveal_strlit("0");
        reveal_strlit("1");
        reveal_strlit("2");
        reveal_strlit("3");
        reveal_strlit("4");
        reveal_strlit("5");
        reveal_strlit("6");
        reveal_strlit("7");
        reveal_strlit("8");
        reveal_strlit("9");
    }
    if d == 0 {
        s.append("0");
    } else if d == 1 {
        s.append("1");
    } else if d == 2 {
        s.append("2");
    } else if d == 3 {
        s.append("3");
    } else if d == 4 {
        s.append("4");
    } else if d == 5 {
        s.append("5");
    } else if d == 6 {
        s.append("6");
    } else if d == 7 {
        s.append("7");
    } else if d == 8 {
        s.append("8");
    } else {
        s.append("9");
    }
}

/// Append the decimal representation of `n` to `s`.
pub fn push_decimal(s: &mut String, n: u64)
    ensures
        final(s)@ == old(s)@ + decimal(n as nat),
    decreases n,
{
    if n >= 10 {
        push_decimal(s, n / 10);
    }
    push_digit(s, n % 10);
    proof {
        if n < 10 {
            assert(old(s)@.push(digit_char(n as nat)) =~= old(s)@ + decimal(n as nat));
        } else {
            assert(decimal(n as nat) == decimal((n / 10) as nat).push(digit_char((n % 10) as nat)));
            assert((old(s)@ + decimal((n / 10) as nat)).push(digit_char((n % 10) as nat))
                =~= old(s)@ + decimal(n as nat));
        }
    }
}

/// `n / d` rounded to the nearest integer, ties to the even one.
fn round_div_exec(n: u64, d: u64) -> (q: u64)
    requires
        0 < d <= PPM,
    ensures
        q == round_div(n as nat, d as nat),
{
    let q = n / d;
    let r = n % d;
    if 2 * r > d || (2 * r == d && q % 2 == 1) {
        proof {
            assert(d >= 2);
            assert(q * d <= n) by {
                vstd::arithmetic::div_mod::lemma_fundamental_div_mod(n as int, d as int);
            }
            assert(q < 0xffff_ffff_ffff_ffff) by (nonlinear_arith)
                requires
                    q * d <= n,
                    d >= 2,
                    n <= 0xffff_ffff_ffff_ffff,
            ;
        }
        q + 1
    } else {
        q
    }
}

/// Append a parts-per-million fraction written with three decimals.
pub fn push_fixed3(s: &mut String, v: i64)
    ensures
        final(s)@ == old(s)@ + fixed3(v as int),
{
    let mag: u64 = if v >= 0 {
        v as u64
    } else {
        (-(v as i128)) as u64
    };
    let m = (mag + 500) / 1000;
    proof {
        reveal_strlit("-");
        reveal_strlit(".");
    }
    let ghost s0 = s@;
    if v < 0 {
        s.append("-");
    }
    let ghost s1 = s@;
    push_decimal(s, m / 1000);
    s.append(".");
    let f = m % 1000;
    push_digit(s, f / 100);
    push_digit(s, (f / 10) % 10);
    push_digit(s, f % 10);
    proof {
        let sign = if v < 0 {
            seq!['-']
        } else {
            Seq::<char>::empty()
        };
        assert(s1 =~= s0 + sign);
        assert(s@ =~= old(s)@ + fixed3(v as int));
    }
}

/// Append a parts-per-million fraction written as a whole percentage.
pub fn push_percent(s: &mut String, v: u64)
    ensures
        final(s)@ == old(s)@ + percent(v as nat),
{
    let p = round_div_exec(v, 10_000);
    push_decimal(s, p);
}

} // verus!
