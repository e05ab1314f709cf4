//! Decimal amounts (prices, line totals, order totals).
//!
//! An [`Amount`] holds the two plain values that make up a
//! `rust_decimal::Decimal`: a signed mantissa of at most 96 bits and a
//! scale (the number of decimal places, at most 28). Its value is
//! `mantissa / 10^scale`. The arithmetic itself is done by `rust_decimal`.
use rust_decimal::Decimal;
use vstd::prelude::*;

verus! {

/// Largest magnitude of a mantissa: 2^96 - 1.
pub const MAX_MANTISSA: i128 = 79228162514264337593543950335;

/// Largest scale that a decimal may carry.
pub const MAX_SCALE: u32 = 28;

/// A decimal number `mantissa / 10^scale`.
#[derive(Clone, Copy, Debug, PartialEq, Eq, Structural)]
pub struct Amount {
    pub mantissa: i128,
    pub scale: u32,
}

/// `10^n`.
pub open spec fn pow10(n: nat) -> int
    decreases n,
{
    if n == 0 {
        1
    } else {
        10 * pow10((n - 1) as nat)
    }
}

pub open spec fn max_scale_of(a: (int, int), b: (int, int)) -> int {
    if a.1 >= b.1 {
        a.1
    } else {
        b.1
    }
}

/// The exact sum of two decimals, written at the larger of the two scales.
pub open spec fn aligned_sum(a: (int, int), b: (int, int)) -> int {
    let s = max_scale_of(a, b);
    a.0 * pow10((s - a.1) as nat) + b.0 * pow10((s - b.1) as nat)
}

pub open spec fn abs(i: int) -> int {
    if i < 0 {
        -i
    } else {
        i
    }
}

/// What `rust_decimal` returns for `a.checked_mul(b)`, the decimals given
/// by their (mantissa, scale) pairs, each result read back as such a pair.
pub uninterp spec fn decimal_checked_mul(a: (int, int), b: (int, int)) -> Option<(int, int)>;

/// What `rust_decimal` returns for `a.checked_add(b)`, in the same terms.
pub uninterp spec fn decimal_checked_add(a: (int, int), b: (int, int)) -> Option<(int, int)>;

/// When the product of two non-zero decimals is computed without rounding:
/// the exact product fits in 96 bits and the scales add up to at most 28.
pub open spec fn exact_product_fits(a: (int, int), b: (int, int)) -> bool {
    &&& a.0 != 0
    &&& b.0 != 0
    &&& abs(a.0 * b.0) <= MAX_MANTISSA
    &&& a.1 + b.1 <= MAX_SCALE
}

/// When the sum of two non-zero decimals is computed without rounding: both
/// mantissas fit in 64 bits, their scales differ by at most 19, and the sum
/// at the larger scale fits in 96 bits.
pub open spec fn exact_sum_fits(a: (int, int), b: (int, int)) -> bool {
    &&& a.0 != 0
    &&& b.0 != 0
    &&& abs(a.0) < 0x1_0000_0000_0000_0000
    &&& abs(b.0) < 0x1_0000_0000_0000_0000
    &&& abs(a.1 - b.1) <= 19
    &&& abs(aligned_sum(a, b)) <= MAX_MANTISSA
}

pub open spec fn opt_pair(a: Option<Amount>) -> Option<(int, int)> {
    match a {
        Some(x) => Some(x.pair()),
        None => None,
    }
}

impl Amount {
    /// The amount is representable as a `rust_decimal::Decimal`.
    pub open spec fn valid(self) -> bool {
        &&& -MAX_MANTISSA <= self.mantissa <= MAX_MANTISSA
        &&& self.scale <= MAX_SCALE
    }

    pub open spec fn pair(self) -> (int, int) {
        (self.mantissa as int, self.scale as int)
    }

    /// Zero at scale 0, the starting point of a sum.
    pub fn zero() -> (r: Amount)
        ensures
            r == (Amount { mantissa: 0, scale: 0 }),
            r.valid(),
    {
        Amount { mantissa: 0, scale: 0 }
    }

    /// The decimal that `Decimal::from(n)` builds: mantissa `n`, scale 0.
    pub fn from_i32(n: i32) -> (r: Amount)
        ensures
            r == (Amount { mantissa: n as i128, scale: 0 }),
            r.valid(),
    {
        Amount { mantissa: n as i128, scale: 0 }
    }
}

/// `Decimal::checked_mul`. Believed of it, from its source: the result, when
/// there is one, is a valid decimal; a zero factor gives zero at scale 0;
/// non-zero factors whose exact product fits give that product at the sum of
/// the scales. What it does beyond that (rounding an oversized product)
/// is left to the name `decimal_checked_mul`.
#[verifier::external_body]
pub(crate) fn checked_mul(a: Amount, b: Amount) -> (r: Option<Amount>)
    requires
        a.valid(),
        b.valid(),
    ensures
        opt_pair(r) == decimal_checked_mul(a.pair(), b.pair()),
        r matches Some(x) ==> x.valid(),
        (a.mantissa == 0 || b.mantissa == 0) ==> r == Some(Amount { mantissa: 0, scale: 0 }),
        exact_product_fits(a.pair(), b.pair()) ==> r == Some(
            Amount { mantissa: (a.mantissa * b.mantissa) as i128, scale: (a.scale + b.scale) as u32 },
        ),
{
    let x = Decimal::from_i128_with_scale(a.mantissa, a.scale);
    let y = Decimal::from_i128_with_scale(b.mantissa, b.scale);
    match x.checked_mul(y) {
        Some(p) => Some(Amount { mantissa: p.mantissa(), scale: p.scale() }),
        None => None,
    }
}

/// `Decimal::checked_add`. Believed of it, from its source: the result, when
/// there is one, is a valid decimal; adding to zero gives the other operand
/// unchanged; non-zero operands whose exact sum fits (see
/// `exact_sum_fits`) give that sum at the larger scale. Rounding of
/// oversized sums is left to the name `decimal_checked_add`.
#[verifier::external_body]
pub(crate) fn checked_add(a: Amount, b: Amount) -> (r: Option<Amount>)
    requires
        a.valid(),
        b.valid(),
    ensures
        opt_pair(r) == decimal_checked_add(a.pair(), b.pair()),
        r matches Some(x) ==> x.valid(),
        a.mantissa == 0 ==> r == Some(b),
        (a.mantissa != 0 && b.mantissa == 0) ==> r == Some(a),
        exact_sum_fits(a.pair(), b.pair()) ==> r == Some(
            Amount {
                mantissa: aligned_sum(a.pair(), b.pair()) as i128,
                scale: max_scale_of(a.pair(), b.pair()) as u32,
            },
        ),
{
    let x = Decimal::from_i128_with_scale(a.mantissa, a.scale);
    let y = Decimal::from_i128_with_scale(b.mantissa, b.scale);
    match x.checked_add(y) {
        Some(s) => Some(Amount { mantissa: s.mantissa(), scale: s.scale() }),
        None => None,
    }
}


/// What `round_dp(dp)` gives, in (mantissa, scale) terms: decimals with at
/// most `dp` places come back unchanged; others are cut to `dp` places, the
/// dropped part rounded half to even.
pub open spec fn round_half_even(a: (int, int), dp: int) -> (int, int) {
    if a.1 <= dp {
        a
    } else {
        let d = pow10((a.1 - dp) as nat);
        let q = abs(a.0) / d;
        let r = abs(a.0) % d;
        let q2 = if 2 * r > d || (2 * r == d && q % 2 == 1) {
            q + 1
        } else {
            q
        };
        (if a.0 < 0 {
            -q2
        } else {
            q2
        }, dp)
    }
}

/// `Decimal::round_dp`, which rounds half to even. Believed of it, from its
/// source: the result is `round_half_even` of the input.
#[verifier::external_body]
pub(crate) fn round_dp(a: Amount, dp: u32) -> (r: Amount)
    requires
        a.valid(),
        dp <= MAX_SCALE,
    ensures
        r.pair() == round_half_even(a.pair(), dp as int),
        r.valid(),
{
    let x = Decimal::from_i128_with_scale(a.mantissa, a.scale);
    let y = x.round_dp(dp);
    Amount { mantissa: y.mantissa(), scale: y.scale() }
}

/// Rounds a price to cents, as the ordering service does with catalog prices.
pub fn round_to_cents(a: Amount) -> (r: Amount)
    requires
        a.valid(),
    ensures
        r.pair() == round_half_even(a.pair(), 2),
        r.valid(),
{
    round_dp(a, 2)
}

/// A priced line: unit price and quantity.
pub open spec fn line_product(line: (Amount, i32)) -> Option<(int, int)> {
    decimal_checked_mul(line.0.pair(), (line.1 as int, 0))
}

/// The sum `Σ price × quantity` as `Iterator::sum` computes it over
/// `rust_decimal`: starting from zero at scale 0 and adding each line's
/// product in order; `None` where a product or a partial sum overflows.
pub open spec fn sum_of_lines(lines: Seq<(Amount, i32)>) -> Option<(int, int)>
    decreases lines.len(),
{
    if lines.len() == 0 {
        Some((0, 0))
    } else {
        match sum_of_lines(lines.drop_last()) {
            None => None,
            Some(acc) => match line_product(lines.last()) {
                None => None,
                Some(p) => decimal_checked_add(acc, p),
            },
        }
    }
}

pub open spec fn lines_valid(lines: Seq<(Amount, i32)>) -> bool {
    forall|i: int| 0 <= i < lines.len() ==> (#[trigger] lines[i]).0.valid()
}

/// The largest scale among the lines' prices (0 for no lines).
pub open spec fn max_line_scale(lines: Seq<(Amount, i32)>) -> nat
    decreases lines.len(),
{
    if lines.len() == 0 {
        0
    } else {
        let rest = max_line_scale(lines.drop_last());
        let s = lines.last().0.scale as nat;
        if rest >= s {
            rest
        } else {
            s
        }
    }
}

/// `Σ price × quantity`, exactly, in units of `10^-s`.
pub open spec fn exact_sum_at(lines: Seq<(Amount, i32)>, s: nat) -> int
    decreases lines.len(),
{
    if lines.len() == 0 {
        0
    } else {
        let l = lines.last();
        exact_sum_at(lines.drop_last(), s) + l.0.mantissa * l.1 * pow10((s - l.0.scale) as nat)
    }
}

/// `Σ |price × quantity|` in units of `10^-s`.
pub open spec fn magnitude_sum_at(lines: Seq<(Amount, i32)>, s: nat) -> int
    decreases lines.len(),
{
    if lines.len() == 0 {
        0
    } else {
        let l = lines.last();
        magnitude_sum_at(lines.drop_last(), s) + abs(l.0.mantissa * l.1) * pow10(
            (s - l.0.scale) as nat,
        )
    }
}

/// Lines that `rust_decimal` sums without rounding: prices have at most 19
/// places, and the sum of the lines' magnitudes, written at the largest of
/// their scales, stays below 2^64.
pub open spec fn sums_exactly(lines: Seq<(Amount, i32)>) -> bool {
    &&& max_line_scale(lines) <= 19
    &&& magnitude_sum_at(lines, max_line_scale(lines)) < 0x1_0000_0000_0000_0000
}

/// `t` is the number `value / 10^s`, written at a scale of at most `s`.
pub open spec fn represents(t: Amount, value: int, s: nat) -> bool {
    &&& t.scale <= s
    &&& t.mantissa * pow10((s - t.scale) as nat) == value
}

proof fn lemma_pow10_pos(n: nat)
    ensures
        pow10(n) >= 1,
    decreases n,
{
    if n > 0 {
        lemma_pow10_pos((n - 1) as nat);
    }
}

proof fn lemma_pow10_add(a: nat, b: nat)
    ensures
        pow10(a) * pow10(b) == pow10(a + b),
    decreases a,
{
    if a > 0 {
        lemma_pow10_add((a - 1) as nat, b);
        assert(pow10(a) == 10 * pow10((a - 1) as nat));
        assert(pow10(a + b) == 10 * pow10((a + b - 1) as nat));
        assert((10 * pow10((a - 1) as nat)) * pow10(b) == 10 * (pow10((a - 1) as nat) * pow10(b)))
            by (nonlinear_arith);
    }
}

/// Rewriting `x` from scale `a` to scale `t`, then to scale `s`, is
/// rewriting it from `a` to `s`.
proof fn lemma_rescale(x: int, a: nat, t: nat, s: nat)
    requires
        a <= t <= s,
    ensures
        (x * pow10((t - a) as nat)) * pow10((s - t) as nat) == x * pow10((s - a) as nat),
{
    lemma_pow10_add((t - a) as nat, (s - t) as nat);
    let p = pow10((t - a) as nat);
    let q = pow10((s - t) as nat);
    assert((x * p) * q == x * (p * q)) by (nonlinear_arith);
}

proof fn lemma_abs_mul(x: int, p: int)
    requires
        p >= 1,
    ensures
        abs(x * p) == abs(x) * p,
        abs(x) <= abs(x) * p,
        abs(x) * p >= 0,
{
    assert(abs(x * p) == abs(x) * p) by (nonlinear_arith)
        requires
            p >= 1,
    ;
    assert(abs(x) <= abs(x) * p) by (nonlinear_arith)
        requires
            p >= 1,
    ;
}

proof fn lemma_scales_bounded(lines: Seq<(Amount, i32)>, i: int)
    requires
        0 <= i < lines.len(),
    ensures
        lines[i].0.scale <= max_line_scale(lines),
    decreases lines.len(),
{
    if i < lines.len() - 1 {
        lemma_scales_bounded(lines.drop_last(), i);
        assert(lines.drop_last()[i] == lines[i]);
    }
}

proof fn lemma_magnitude_prefix(lines: Seq<(Amount, i32)>, s: nat, i: int)
    requires
        0 <= i <= lines.len(),
    ensures
        0 <= magnitude_sum_at(lines.take(i), s) <= magnitude_sum_at(lines, s),
    decreases lines.len() - i,
{
    if i < lines.len() {
        lemma_magnitude_prefix(lines, s, i + 1);
        let pre = lines.take(i + 1);
        assert(pre.drop_last() =~= lines.take(i));
        let l = pre.last();
        lemma_pow10_pos((s - l.0.scale) as nat);
        lemma_abs_mul(l.0.mantissa * l.1, pow10((s - l.0.scale) as nat));
        lemma_magnitude_nonneg(lines.take(i), s);
        assert(magnitude_sum_at(pre, s) == magnitude_sum_at(lines.take(i), s) + abs(l.0.mantissa
            * l.1) * pow10((s - l.0.scale) as nat));
    } else {
        assert(lines.take(i) =~= lines);
        lemma_magnitude_nonneg(lines, s);
    }
}

proof fn lemma_magnitude_nonneg(lines: Seq<(Amount, i32)>, s: nat)
    ensures
        magnitude_sum_at(lines, s) >= 0,
    decreases lines.len(),
{
    if lines.len() > 0 {
        lemma_magnitude_nonneg(lines.drop_last(), s);
        let l = lines.last();
        lemma_pow10_pos((s - l.0.scale) as nat);
        lemma_abs_mul(l.0.mantissa * l.1, pow10((s - l.0.scale) as nat));
    }
}

/// A line's product, when it has no more places than `s` and its magnitude
/// at scale `s` stays below 2^64, comes out exactly.
proof fn lemma_exact_product(price: Amount, q: i32, r: Option<Amount>, s: nat)
    requires
        price.valid(),
        price.scale <= s,
        s <= 19,
        abs(price.mantissa * q) * pow10((s - price.scale) as nat) < 0x1_0000_0000_0000_0000,
        (price.mantissa == 0 || q == 0) ==> r == Some(Amount { mantissa: 0, scale: 0 }),
        exact_product_fits(price.pair(), (q as int, 0)) ==> r == Some(
            Amount { mantissa: (price.mantissa * q) as i128, scale: price.scale },
        ),
    ensures
        r matches Some(x) && represents(x, price.mantissa * q * pow10((s - price.scale) as nat), s)
            && abs(x.mantissa as int) * pow10((s - x.scale) as nat) == abs(price.mantissa * q) * pow10(
            (s - price.scale) as nat,
        ),
{
    let p = pow10((s - price.scale) as nat);
    lemma_pow10_pos((s - price.scale) as nat);
    if price.mantissa == 0 || q == 0 {
        assert(price.mantissa * q == 0) by (nonlinear_arith)
            requires
                price.mantissa == 0 || q == 0,
        ;
        assert(0 * p == 0);
        assert(0 * pow10(s) == 0);
    } else {
        lemma_abs_mul(price.mantissa * q, p);
        assert(price.mantissa * q != 0) by (nonlinear_arith)
            requires
                price.mantissa != 0 && q != 0,
        ;
        assert(exact_product_fits(price.pair(), (q as int, 0)));
    }
}

/// Adding two amounts whose scales are at most `s <= 19` and whose
/// magnitudes at scale `s` sum below 2^64 comes out exactly.
proof fn lemma_exact_addition(a: Amount, b: Amount, r: Option<Amount>, s: nat)
    requires
        a.valid(),
        b.valid(),
        a.scale <= s,
        b.scale <= s,
        s <= 19,
        abs(a.mantissa as int) * pow10((s - a.scale) as nat) + abs(b.mantissa as int) * pow10(
            (s - b.scale) as nat,
        ) < 0x1_0000_0000_0000_0000,
        a.mantissa == 0 ==> r == Some(b),
        (a.mantissa != 0 && b.mantissa == 0) ==> r == Some(a),
        exact_sum_fits(a.pair(), b.pair()) ==> r == Some(
            Amount {
                mantissa: aligned_sum(a.pair(), b.pair()) as i128,
                scale: max_scale_of(a.pair(), b.pair()) as u32,
            },
        ),
    ensures
        r matches Some(x) && represents(
            x,
            a.mantissa * pow10((s - a.scale) as nat) + b.mantissa * pow10((s - b.scale) as nat),
            s,
        ) && abs(x.mantissa as int) * pow10((s - x.scale) as nat) <= abs(a.mantissa as int) * pow10(
            (s - a.scale) as nat,
        ) + abs(b.mantissa as int) * pow10((s - b.scale) as nat),
{
    let pa = pow10((s - a.scale) as nat);
    let pb = pow10((s - b.scale) as nat);
    lemma_pow10_pos((s - a.scale) as nat);
    lemma_pow10_pos((s - b.scale) as nat);
    lemma_abs_mul(a.mantissa as int, pa);
    lemma_abs_mul(b.mantissa as int, pb);
    if a.mantissa == 0 {
        assert(0 * pa == 0);
    } else if b.mantissa == 0 {
        assert(0 * pb == 0);
    } else {
        let t: nat = max_scale_of(a.pair(), b.pair()) as nat;
        let ta = pow10((t - a.scale) as nat);
        let tb = pow10((t - b.scale) as nat);
        let st = pow10((s - t) as nat);
        lemma_pow10_pos((t - a.scale) as nat);
        lemma_pow10_pos((t - b.scale) as nat);
        lemma_pow10_pos((s - t) as nat);
        lemma_rescale(a.mantissa as int, a.scale as nat, t, s);
        lemma_rescale(b.mantissa as int, b.scale as nat, t, s);
        let x = a.mantissa * ta;
        let y = b.mantissa * tb;
        assert((x + y) * st == x * st + y * st) by (nonlinear_arith);
        lemma_abs_mul(a.mantissa as int, ta);
        lemma_abs_mul(b.mantissa as int, tb);
        lemma_abs_mul(x, st);
        lemma_abs_mul(y, st);
        lemma_abs_mul(x + y, st);
        assert(abs(x + y) * st <= abs(x) * st + abs(y) * st) by (nonlinear_arith)
            requires
                st >= 1,
        ;
        assert(abs(x) * st == abs(a.mantissa as int) * pa) by {
            lemma_rescale(abs(a.mantissa as int), a.scale as nat, t, s);
        }
        assert(abs(y) * st == abs(b.mantissa as int) * pb) by {
            lemma_rescale(abs(b.mantissa as int), b.scale as nat, t, s);
        }
        assert(abs(a.mantissa as int) < 0x1_0000_0000_0000_0000);
        assert(abs(b.mantissa as int) < 0x1_0000_0000_0000_0000);
        assert(abs(x + y) < 0x1_0000_0000_0000_0000);
        assert(aligned_sum(a.pair(), b.pair()) == x + y);
        assert(exact_sum_fits(a.pair(), b.pair()));
    }
}

/// `pow10` is the power of ten: `10^0 = 1` and `10^(n+1) = 10 · 10^n`.
pub proof fn lemma_pow10_steps(n: nat)
    ensures
        pow10(0) == 1,
        pow10(n + 1) == 10 * pow10(n),
{
}

/// How a sum of lines grows: no lines sum to zero at scale 0; one more line
/// multiplies its price by its quantity (`rust_decimal`'s `checked_mul`,
/// the quantity at scale 0) and adds the product to the sum so far
/// (`checked_add`); an overflow anywhere makes the whole sum overflow.
pub proof fn lemma_sum_of_lines_steps(lines: Seq<(Amount, i32)>, line: (Amount, i32))
    ensures
        sum_of_lines(Seq::<(Amount, i32)>::empty()) == Some((0int, 0int)),
        sum_of_lines(lines.push(line)) == match sum_of_lines(lines) {
            None => None,
            Some(acc) => match decimal_checked_mul(
                (line.0.mantissa as int, line.0.scale as int),
                (line.1 as int, 0int),
            ) {
                None => None,
                Some(p) => decimal_checked_add(acc, p),
            },
        },
{
    assert(lines.push(line).drop_last() =~= lines);
}

/// The exact sum: zero for no lines; one more line adds
/// `mantissa × quantity × 10^(s − scale)`.
pub proof fn lemma_exact_sum_steps(lines: Seq<(Amount, i32)>, line: (Amount, i32), s: nat)
    ensures
        exact_sum_at(Seq::<(Amount, i32)>::empty(), s) == 0,
        exact_sum_at(lines.push(line), s) == exact_sum_at(lines, s) + line.0.mantissa * line.1
            * pow10((s - line.0.scale) as nat),
{
    assert(lines.push(line).drop_last() =~= lines);
}

/// Rounding to `dp` places: an amount with at most `dp` places is kept as
/// it is; otherwise the result has exactly `dp` places, lies within half a
/// unit of the last place from the amount, and on a tie the last digit is
/// even.
pub proof fn lemma_round_half_even_is_nearest(a: (int, int), dp: int)
    requires
        0 <= dp,
    ensures
        a.1 <= dp ==> round_half_even(a, dp) == a,
        a.1 > dp ==> ({
            let r = round_half_even(a, dp);
            let d = pow10((a.1 - dp) as nat);
            &&& r.1 == dp
            &&& 2 * abs(r.0 * d - a.0) <= d
            &&& (2 * abs(r.0 * d - a.0) == d ==> r.0 % 2 == 0)
        }),
{
    if a.1 > dp {
        let d = pow10((a.1 - dp) as nat);
        lemma_pow10_pos((a.1 - dp) as nat);
        let m = abs(a.0);
        let q = m / d;
        let r = m % d;
        assert(m == q * d + r && 0 <= r < d) by (nonlinear_arith)
            requires
                d >= 1,
                m >= 0,
                q == m / d,
                r == m % d,
        ;
        let q2 = if 2 * r > d || (2 * r == d && q % 2 == 1) {
            q + 1
        } else {
            q
        };
        assert(q2 * d - m == if q2 == q {
            -r
        } else {
            d - r
        }) by (nonlinear_arith)
            requires
                m == q * d + r,
                q2 == q || q2 == q + 1,
        ;
        if a.0 < 0 {
            assert((-q2) * d - a.0 == -(q2 * d - m)) by (nonlinear_arith)
                requires
                    m == -a.0,
            ;
        }
    }
}

/// Once a prefix of the lines overflows, the whole sum does.
proof fn lemma_sum_stays_none(lines: Seq<(Amount, i32)>, k: int)
    requires
        0 <= k <= lines.len(),
        sum_of_lines(lines.take(k)) is None,
    ensures
        sum_of_lines(lines) is None,
    decreases lines.len() - k,
{
    if k < lines.len() {
        assert(lines.take(k + 1).drop_last() =~= lines.take(k));
        lemma_sum_stays_none(lines, k + 1);
    } else {
        assert(lines.take(k) =~= lines);
    }
}

/// Sums `price × quantity` over the lines; `None` exactly where the
/// decimal arithmetic overflows. Where the lines sum without rounding
/// (`sums_exactly`), the result is the exact sum.
pub fn checked_sum_of_lines(lines: &Vec<(Amount, i32)>) -> (r: Option<Amount>)
    requires
        lines_valid(lines@),
    ensures
        opt_pair(r) == sum_of_lines(lines@),
        r matches Some(x) ==> x.valid(),
        sums_exactly(lines@) ==> (r matches Some(t) && represents(
            t,
            exact_sum_at(lines@, max_line_scale(lines@)),
            max_line_scale(lines@),
        )),
{
    let ghost top: nat = max_line_scale(lines@);
    let ghost exact: bool = sums_exactly(lines@);
    let mut acc = Amount::zero();
    let mut i: usize = 0;
    proof {
        assert(lines@.take(0) =~= Seq::<(Amount, i32)>::empty());
        assert(0 * pow10(top) == 0);
        assert(0int * pow10(top) == 0);
    }
    while i < lines.len()
        invariant
            i <= lines.len(),
            lines_valid(lines@),
            acc.valid(),
            sum_of_lines(lines@.take(i as int)) == Some(acc.pair()),
            top == max_line_scale(lines@),
            exact == sums_exactly(lines@),
            exact ==> represents(acc, exact_sum_at(lines@.take(i as int), top), top),
            exact ==> abs(acc.mantissa as int) * pow10((top - acc.scale) as nat)
                <= magnitude_sum_at(lines@.take(i as int), top),
        decreases lines.len() - i,
    {
        let (price, quantity) = lines[i];
        let ghost pre = lines@.take(i + 1);
        assert(pre.drop_last() =~= lines@.take(i as int));
        assert(pre.last() == lines@[i as int]);
        assert(lines@[i as int].0.valid());
        let product = checked_mul(price, Amount::from_i32(quantity));
        proof {
            if exact {
                lemma_scales_bounded(lines@, i as int);
                lemma_magnitude_prefix(lines@, top, i + 1);
                lemma_magnitude_nonneg(lines@.take(i as int), top);
                lemma_exact_product(price, quantity, product, top);
            }
        }
        match product {
            None => {
                proof {
                    lemma_sum_stays_none(lines@, i + 1);
                }
                return None;
            },
            Some(p) => {
                let added = checked_add(acc, p);
                proof {
                    if exact {
                        lemma_exact_addition(acc, p, added, top);
                    }
                }
                match added {
                    None => {
                        proof {
                            lemma_sum_stays_none(lines@, i + 1);
                        }
                        return None;
                    },
                    Some(s) => {
                        acc = s;
                    },
                }
            },
        }
        i = i + 1;
    }
    assert(lines@.take(lines.len() as int) =~= lines@);
    Some(acc)
}

} // verus!
