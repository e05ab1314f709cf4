//! Decimal rendering of integers and small string helpers.
use vstd::prelude::*;

verus! {

/// The ASCII character of a decimal digit.
pub open spec fn digit_char(d: int) -> char {
    (d + 48) as char
}

/// The decimal digits of a natural number, most significant first, without
/// leading zeros ("0" for zero).
pub open spec fn nat_digits(n: nat) -> Seq<char>
    decreases n,
{
    if n < 10 {
        seq![digit_char(n as int)]
    } else {
        nat_digits(n / 10).push(digit_char((n % 10) as int))
    }
}

/// The decimal rendering of an integer, as `Display` renders it: a minus
/// sign for negative numbers, then the digits of the magnitude.
pub open spec fn decimal_chars(i: int) -> Seq<char> {
    if i < 0 {
        seq!['-'].add(nat_digits((-i) as nat))
    } else {
        nat_digits(i as nat)
    }
}

/// Decimal rendering, digit by digit: the digits are `0`…`9`; a number
/// below ten is its one digit; `10·n + d` (with `n > 0`, `d < 10`) is the
/// digits of `n` followed by the digit `d`; a negative number is `-`
/// followed by the digits of its magnitude, and other numbers have no sign.
pub proof fn lemma_decimal_rendering(n: nat, d: nat)
    ensures
        d < 10 ==> digit_char(d as int) == "0123456789"@[d as int],
        d < 10 ==> nat_digits(d) == seq![digit_char(d as int)],
        (n > 0 && d < 10) ==> nat_digits(10 * n + d) == nat_digits(n).push(digit_char(d as int)),
        n > 0 ==> decimal_chars(-(n as int)) == seq!['-'] + nat_digits(n),
        decimal_chars(n as int) == nat_digits(n),
{
    reveal_strlit("0123456789");
    if n > 0 && d < 10 {
        assert((10 * n + d) / 10 == n);
        assert((10 * n + d) % 10 == d);
    }
}

fn digit_str(d: u64) -> (s: &'static str)
    requires
        d < 10,
    ensures
        s@ == seq![digit_char(d as int)],
{
    proof {
        reveal_strlit("0");
        reveal_strlit("1");
        reveal_strlit("2");
        reveal_strlit("3");
        reveal_strlit("4");
        reveal_strlit("5");
        reveal_strlit("6");
        reveal_strlit("7");
        reveal_strlit("8");
        reveal_strlit("9");
    }
    match d {
        0 => "0",
        1 => "1",
        2 => "2",
        3 => "3",
        4 => "4",
        5 => "5",
        6 => "6",
        7 => "7",
        8 => "8",
        _ => "9",
    }
}

/// Appends the digits of `n` to `out`.
fn push_digits(out: &mut String, n: u64)
    ensures
        final(out)@ == old(out)@ + nat_digits(n as nat),
    decreases n,
{
    if n < 10 {
        out.append(digit_str(n));
    } else {
        push_digits(out, n / 10);
        out.append(digit_str(n % 10));
    }
}

/// Renders `i` in decimal, as `i.to_string()` does.
pub fn decimal_string(i: i32) -> (s: String)
    ensures
        s@ == decimal_chars(i as int),
{
    let mut out = String::new();
    if i < 0 {
        proof {
            reveal_strlit("-");
        }
        out.append("-");
        let magnitude: i64 = -(i as i64);
        push_digits(&mut out, magnitude as u64);
    } else {
        push_digits(&mut out, i as u64);
    }
    out
}

} // verus!
