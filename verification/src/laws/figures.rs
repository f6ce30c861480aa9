//! Laws of the figures: how far each is from what it stands for.
use vstd::prelude::*;
use vstd::arithmetic::mul::lemma_mul_basics_3;
use vstd::arithmetic::power2::{lemma_pow2_pos, lemma_pow2_unfold, pow2};
use crate::figures::{
    half_even, lift, lift_bounds, lift_distance, lift_reaches, nearest_double, percent,
    percent_shown, quotient_significand, significand_at_most, size_shown, small_integers_are_doubles,
    spacing, spacing_bounds, two_decimals,
};
use crate::text::decimal;

verus! {

/// Rounding goes to the nearest integer, and to the even one of two.
pub proof fn rounding_is_to_the_nearest(num: nat, den: nat)
    requires
        den > 0,
    ensures
        (2 * half_even(num, den) - 1) * den <= 2 * num <= (2 * half_even(num, den) + 1) * den,
        2 * num == (2 * half_even(num, den) - 1) * den || 2 * num == (2 * half_even(num, den) + 1)
            * den ==> half_even(num, den) % 2 == 0,
{
    let q = num / den;
    let r = num % den;
    let h = half_even(num, den);
    vstd::arithmetic::div_mod::lemma_fundamental_div_mod(num as int, den as int);
    assert((2 * h - 1) * den == 2 * (h * den) - den && (2 * h + 1) * den == 2 * (h * den) + den)
        by (nonlinear_arith);
    assert((q + 1) * den == q * den + den) by (nonlinear_arith);
    assert(den * q == q * den) by (nonlinear_arith);
}

/// The spacing of doubles is a power of two.
proof fn spacing_is_power(n: nat) -> (k: nat)
    ensures
        spacing(n) == pow2(k),
    decreases n,
{
    if n < 0x20_0000_0000_0000 {
        vstd::arithmetic::power2::lemma2_to64();
        0
    } else {
        let k = spacing_is_power(n / 2);
        lemma_pow2_unfold(k + 1);
        k + 1
    }
}

/// The lift of a quotient is a power of two.
proof fn lift_is_power(num: nat, den: nat) -> (k: nat)
    ensures
        lift(num, den) == pow2(k),
    decreases lift_distance(num, den),
{
    if num == 0 || num >= 0x10_0000_0000_0000 * den {
        vstd::arithmetic::power2::lemma2_to64();
        0
    } else {
        let k = lift_is_power(2 * num, den);
        lemma_pow2_unfold(k + 1);
        k + 1
    }
}

/// The double of an integer is its nearest multiple of a power of two, the least
/// one of which 53 bits of multiples reach beyond it.
pub proof fn double_is_nearest_multiple(n: nat) -> (parts: (nat, nat))
    ensures
        nearest_double(n) == parts.0 * pow2(parts.1),
        n < 0x20_0000_0000_0000 * pow2(parts.1),
        parts.1 > 0 ==> n >= 0x10_0000_0000_0000 * pow2(parts.1),
        (2 * parts.0 - 1) * pow2(parts.1) <= 2 * n <= (2 * parts.0 + 1) * pow2(parts.1),
        2 * n == (2 * parts.0 - 1) * pow2(parts.1) || 2 * n == (2 * parts.0 + 1) * pow2(parts.1)
            ==> parts.0 % 2 == 0,
{
    let k = spacing_is_power(n);
    spacing_bounds(n);
    lemma_pow2_pos(k);
    if k > 0 {
        lemma_pow2_unfold(k);
        lemma_pow2_pos((k - 1) as nat);
    }
    rounding_is_to_the_nearest(n, pow2(k));
    (half_even(n, pow2(k)), k)
}

/// The percentage shown is that of doubles: the quotient of the two numbers as
/// doubles has the significand `m` over `pow2(a)` or times `pow2(b)`, one hundred
/// times it is a double again, and that is rounded to an integer.
pub proof fn percent_is_of_doubles(acknowledged: nat, total: nat) -> (parts: (nat, nat, nat))
    requires
        total > 0,
    ensures
        ({
            let (m, a, b) = parts;
            let num = nearest_double(acknowledged);
            let den = nearest_double(total) * pow2(b);
            let hundredfold = nearest_double(100 * m) * pow2(b);
            let shown = percent(acknowledged, total);
            &&& den > 0
            &&& a == 0 || b == 0
            &&& num > 0 ==> 0x10_0000_0000_0000 * den <= num * pow2(a) < 0x20_0000_0000_0000 * den
            &&& (2 * m - 1) * den <= 2 * (num * pow2(a)) <= (2 * m + 1) * den
            &&& 2 * (num * pow2(a)) == (2 * m - 1) * den || 2 * (num * pow2(a)) == (2 * m + 1) * den
                ==> m % 2 == 0
            &&& (2 * shown - 1) * pow2(a) <= 2 * hundredfold <= (2 * shown + 1) * pow2(a)
            &&& 2 * hundredfold == (2 * shown - 1) * pow2(a) || 2 * hundredfold == (2 * shown + 1)
                * pow2(a) ==> shown % 2 == 0
        }),
{
    let num = nearest_double(acknowledged);
    let den = nearest_double(total);
    crate::figures::nearest_double_bounds(total);
    let q = num / den;
    let a = lift_is_power(num, den);
    let b = spacing_is_power(q);
    let l = pow2(a);
    let s = pow2(b);
    let m = quotient_significand(num, den);
    lemma_pow2_pos(a);
    lemma_pow2_pos(b);
    lift_bounds(num, den);
    spacing_bounds(q);
    significand_at_most(num, den);
    rounding_is_to_the_nearest(num * l, den * s);
    rounding_is_to_the_nearest(nearest_double(100 * m) * s, l);
    vstd::arithmetic::div_mod::lemma_fundamental_div_mod(num as int, den as int);
    assert(den * q == q * den && (q + 1) * den == q * den + den) by (nonlinear_arith);
    if a > 0 {
        lemma_pow2_unfold(a);
        lemma_pow2_pos((a - 1) as nat);
        assert(0 < num < 0x10_0000_0000_0000 * den);
        assert(q < 0x10_0000_0000_0000) by (nonlinear_arith)
            requires
                q * den <= num,
                num < 0x10_0000_0000_0000 * den,
                den > 0,
        ;
        assert(spacing(q) == 1);
        if b > 0 {
            lemma_pow2_unfold(b);
            lemma_pow2_pos((b - 1) as nat);
        }
    } else {
        vstd::arithmetic::power2::lemma2_to64();
        lemma_mul_basics_3(num as int);
    }
    if num > 0 {
        lift_reaches(num, den);
        if s == 1 {
            lemma_mul_basics_3(den as int);
        } else {
            assert(a == 0);
            assert(0x10_0000_0000_0000 * (den * s) <= num) by (nonlinear_arith)
                requires
                    0x10_0000_0000_0000 * s <= q,
                    q * den <= num,
            ;
        }
        if a == 0 {
            assert(num < 0x20_0000_0000_0000 * (den * s)) by (nonlinear_arith)
                requires
                    num < (q + 1) * den,
                    q + 1 <= 0x20_0000_0000_0000 * s,
                    den > 0,
            ;
        }
    }
    (m, a, b)
}

/// The percentage shown is within half a percent of the exact one and the rounding
/// of doubles, which below 8 TiB never reaches the next integer.
pub proof fn percent_is_accurate(acknowledged: nat, total: nat)
    requires
        acknowledged < 0x20_0000_0000_0000,
        0 < total < 0x20_0000_0000_0000,
    ensures
        2 * (percent(acknowledged, total) * total) <= 2 * (100 * acknowledged) + total + acknowledged
            / 0x800_0000_0000,
        2 * (100 * acknowledged) <= 2 * (percent(acknowledged, total) * total) + total + acknowledged
            / 0x800_0000_0000,
        acknowledged < 0x800_0000_0000 ==> (2 * percent(acknowledged, total) - 1) * total <= 200
            * acknowledged <= (2 * percent(acknowledged, total) + 1) * total,
{
    let p = percent(acknowledged, total);
    let t = total;
    let n = acknowledged;
    small_integers_are_doubles(n);
    small_integers_are_doubles(t);
    assert((2 * p - 1) * t == 2 * (p * t) - t && (2 * p + 1) * t == 2 * (p * t) + t)
        by (nonlinear_arith);
    if n == 0 {
        crate::figures::percent_of_nothing_is_zero(t);
        assert(p * t == 0) by (nonlinear_arith)
            requires
                p == 0,
        ;
    } else {
        let (m, a, b) = percent_is_of_doubles(n, t);
        vstd::arithmetic::power2::lemma2_to64();
        lemma_pow2_pos(a);
        lemma_pow2_pos(b);
        let l = pow2(a) as int;
        if b > 0 {
            lemma_pow2_unfold(b);
            lemma_pow2_pos((b - 1) as nat);
            assert(false) by (nonlinear_arith)
                requires
                    0x10_0000_0000_0000 * (t * pow2(b)) <= n,
                    n < 0x20_0000_0000_0000,
                    t > 0,
                    pow2(b) >= 2,
            ;
        }
        assert(pow2(b) == 1);
        lemma_mul_basics_3(t as int);
        let (k, e) = double_is_nearest_multiple(100 * m);
        let h = nearest_double(100 * m);
        lemma_mul_basics_3(h as int);
        lemma_pow2_pos(e);
        let w = pow2(e) as int;
        significand_bound(n, t, l as nat, m);
        assert((2 * k - 1) * w == 2 * (k * w) - w && (2 * k + 1) * w == 2 * (k * w) + w)
            by (nonlinear_arith);
        if e == 0 {
            assert(w == 1);
        } else {
            assert(w <= 200) by (nonlinear_arith)
                requires
                    100 * m >= 0x10_0000_0000_0000 * w,
                    m <= 0x20_0000_0000_0000,
            ;
        }
        assert(2 * h <= 200 * m + 200 && 200 * m <= 2 * h + 200);
        error_of_chain(n as int, t as int, l, m as int, h as int, p as int);
    }
}

proof fn significand_bound(num: nat, den: nat, l: nat, m: nat)
    requires
        den > 0,
        num * l < 0x20_0000_0000_0000 * den,
        (2 * m - 1) * den <= 2 * (num * l),
    ensures
        m <= 0x20_0000_0000_0000,
{
    assert(2 * m - 1 < 2 * 0x20_0000_0000_0000) by (nonlinear_arith)
        requires
            den > 0,
            num * l < 0x20_0000_0000_0000 * den,
            (2 * m - 1) * den <= 2 * (num * l),
    ;
}

/// How three roundings add up.
proof fn error_of_chain(n: int, t: int, l: int, m: int, h: int, p: int)
    requires
        n > 0,
        t > 0,
        l > 0,
        0x10_0000_0000_0000 * t <= n * l,
        (2 * m - 1) * t <= 2 * (n * l) <= (2 * m + 1) * t,
        2 * h <= 200 * m + 200,
        200 * m <= 2 * h + 200,
        (2 * p - 1) * l <= 2 * h <= (2 * p + 1) * l,
    ensures
        2 * (p * t) <= 2 * (100 * n) + t + n / 0x800_0000_0000,
        2 * (100 * n) <= 2 * (p * t) + t + n / 0x800_0000_0000,
{
    let d = p * t - 100 * n;
    assert(2 * (l * d) <= t * l + 300 * t && -(2 * (l * d)) <= t * l + 300 * t) by {
        assert(l * d == (p * l) * t - 100 * (n * l)) by (nonlinear_arith)
            requires
                d == p * t - 100 * n,
        ;
        assert((2 * m - 1) * t == 2 * (m * t) - t && (2 * m + 1) * t == 2 * (m * t) + t)
            by (nonlinear_arith);
        assert((2 * p - 1) * l == 2 * (p * l) - l && (2 * p + 1) * l == 2 * (p * l) + l)
            by (nonlinear_arith);
        assert(2 * ((p * l) * t) <= 2 * (h * t) + l * t && 2 * (h * t) <= 2 * ((p * l) * t) + l * t)
            by (nonlinear_arith)
            requires
                t > 0,
                2 * (p * l) <= 2 * h + l,
                2 * h <= 2 * (p * l) + l,
        ;
        assert(2 * (h * t) <= 200 * (m * t) + 200 * t && 200 * (m * t) <= 2 * (h * t) + 200 * t)
            by (nonlinear_arith)
            requires
                t > 0,
                2 * h <= 200 * m + 200,
                200 * m <= 2 * h + 200,
        ;
        assert(l * t == t * l) by (nonlinear_arith);
    }
    assert(0x800_0000_0000 * (300 * t) <= n * l);
    let slack = 0x800_0000_0000int;
    assert(l * (slack * (2 * d - t)) <= l * n && l * (slack * (-(2 * d) - t)) <= l * n)
        by (nonlinear_arith)
        requires
            2 * (l * d) <= t * l + 300 * t,
            -(2 * (l * d)) <= t * l + 300 * t,
            slack * (300 * t) <= n * l,
            slack == 0x800_0000_0000int,
    ;
    assert(slack * (2 * d - t) <= n && slack * (-(2 * d) - t) <= n) by (nonlinear_arith)
        requires
            l > 0,
            l * (slack * (2 * d - t)) <= l * n,
            l * (slack * (-(2 * d) - t)) <= l * n,
    ;
}

/// A percentage is shown as the numeral of its number and the sign.
pub proof fn percent_ends_in_its_sign(acknowledged: nat, total: nat)
    ensures
        percent_shown(acknowledged, total) == decimal(percent(acknowledged, total)).push('%'),
{
    reveal_strlit("%");
}

/// Hundredths are written as the whole number, a point and two digits.
pub proof fn hundredths_have_two_decimals(whole: nat, tenths: nat, hundredths: nat)
    requires
        tenths < 10,
        hundredths < 10,
    ensures
        two_decimals(100 * whole + 10 * tenths + hundredths) == decimal(whole) + seq![
            '.',
            seq!['0', '1', '2', '3', '4', '5', '6', '7', '8', '9'][tenths as int],
            seq!['0', '1', '2', '3', '4', '5', '6', '7', '8', '9'][hundredths as int],
        ],
{
    let all = 100 * whole + 10 * tenths + hundredths;
    assert(all / 100 == whole && all / 10 % 10 == tenths && all % 10 == hundredths);
    crate::laws::text::digits_are_the_ten_digits(tenths);
    crate::laws::text::digits_are_the_ten_digits(hundredths);
}

/// A size above 1048576 bytes is shown in megabytes and any other in kilobytes,
/// with two decimals, nearest to what the double of the number of bytes comes to;
/// below 8 PiB that is the number of bytes itself.
pub proof fn size_is_nearest_in_its_unit(bytes: nat) -> (figure: (nat, nat, nat))
    ensures
        ({
            let (whole, tenths, hundredths) = figure;
            let unit: nat = if bytes > 1_048_576 { 1_048_576 } else { 1_024 };
            let shown = 100 * whole + 10 * tenths + hundredths;
            let double = nearest_double(bytes);
            &&& tenths < 10
            &&& hundredths < 10
            &&& size_shown(bytes) == decimal(whole) + seq![
                '.',
                seq!['0', '1', '2', '3', '4', '5', '6', '7', '8', '9'][tenths as int],
                seq!['0', '1', '2', '3', '4', '5', '6', '7', '8', '9'][hundredths as int],
                ' ',
                if bytes > 1_048_576 {
                    'M'
                } else {
                    'K'
                },
                'B',
            ]
            &&& bytes < 0x20_0000_0000_0000 ==> double == bytes
            &&& (2 * shown - 1) * unit <= 2 * (100 * double) <= (2 * shown + 1) * unit
            &&& 2 * (100 * double) == (2 * shown - 1) * unit || 2 * (100 * double) == (2 * shown + 1)
                * unit ==> shown % 2 == 0
        }),
{
    let unit: nat = if bytes > 1_048_576 { 1_048_576 } else { 1_024 };
    let double = nearest_double(bytes);
    let shown = half_even(100 * double, unit);
    rounding_is_to_the_nearest(100 * double, unit);
    if bytes < 0x20_0000_0000_0000 {
        small_integers_are_doubles(bytes);
    }
    let whole = shown / 100;
    let tenths = shown / 10 % 10;
    let hundredths = shown % 10;
    assert(shown == 100 * whole + 10 * tenths + hundredths);
    hundredths_have_two_decimals(whole, tenths, hundredths);
    reveal_strlit(" MB");
    reveal_strlit(" KB");
    (whole, tenths, hundredths)
}

} // verus!
