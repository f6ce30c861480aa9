//! The figures shown to the user: the size of an offered transfer and the
//! percentage of a running one.
//!
//! Both are shown as a double-precision quotient printed with a fixed number of
//! decimals. They are computed here in integers, so that the digits are exact:
//! a double is the nearest number with 53 significant bits, ties going to the
//! even neighbour, and printing rounds the double in the same way.
use vstd::prelude::*;
use vstd::arithmetic::mul::{lemma_mul_basics_3, lemma_mul_basics_4};
use vstd::string::*;
use crate::text::{decimal, decimal_text, digit_char};

verus! {

/// The number of integers that 53 bits can tell apart.
pub const DOUBLE_LIMIT: u128 = 0x20_0000_0000_0000;

/// Half of [`DOUBLE_LIMIT`]: the least integer of 53 significant bits.
pub const DOUBLE_FLOOR: u128 = 0x10_0000_0000_0000;

/// Transfers of more bytes than this are shown in megabytes.
pub const MEGABYTE: u64 = 1_048_576;

/// The bytes of the unit for smaller ones.
pub const KILOBYTE: u64 = 1_024;

/// `num / den` rounded to the nearest integer, a tie to the even one.
pub open spec fn half_even(num: nat, den: nat) -> nat
    recommends
        den > 0,
{
    let quotient = num / den;
    let rest = num % den;
    if 2 * rest < den || (2 * rest == den && quotient % 2 == 0) {
        quotient
    } else {
        quotient + 1
    }
}

/// The distance between neighbouring doubles around the integer `n`: the least
/// power of two of which 53 bits of multiples reach beyond `n`.
pub open spec fn spacing(n: nat) -> nat
    decreases n,
{
    if n < DOUBLE_LIMIT {
        1
    } else {
        2 * spacing(n / 2)
    }
}

/// The double nearest to the integer `n`.
pub open spec fn nearest_double(n: nat) -> nat {
    half_even(n, spacing(n)) * spacing(n)
}

/// How far `num` is below 53 bits of multiples of `den`.
pub open spec fn lift_distance(num: nat, den: nat) -> nat {
    if num < DOUBLE_FLOOR * den {
        (DOUBLE_FLOOR * den - num) as nat
    } else {
        0
    }
}

/// The least power of two that lifts `num / den` to 53 bits before the point.
pub open spec fn lift(num: nat, den: nat) -> nat
    decreases lift_distance(num, den),
{
    if num == 0 || num >= DOUBLE_FLOOR * den {
        1
    } else {
        2 * lift(2 * num, den)
    }
}

/// The significand of the double nearest to `num / den`, which is this number
/// times `spacing(num / den)` over `lift(num, den)`.
pub open spec fn quotient_significand(num: nat, den: nat) -> nat {
    half_even(num * lift(num, den), den * spacing(num / den))
}

/// The percentage shown after `acknowledged` of `total` bytes: the quotient of
/// the two as doubles, times one hundred as a double, to the nearest integer.
pub open spec fn percent(acknowledged: nat, total: nat) -> nat
    recommends
        total > 0,
{
    let num = nearest_double(acknowledged);
    let den = nearest_double(total);
    let hundredfold = nearest_double(100 * quotient_significand(num, den));
    half_even(hundredfold * spacing(num / den), lift(num, den))
}

/// `hundredths` written with a point and two decimals.
pub open spec fn two_decimals(hundredths: nat) -> Seq<char> {
    decimal(hundredths / 100) + seq!['.', digit_char(hundredths / 10 % 10), digit_char(hundredths % 10)]
}

/// The size of `bytes` bytes as shown: megabytes above one megabyte and
/// kilobytes otherwise, with two decimals.
pub open spec fn size_shown(bytes: nat) -> Seq<char> {
    if bytes > MEGABYTE {
        two_decimals(half_even(100 * nearest_double(bytes), MEGABYTE as nat)) + " MB"@
    } else {
        two_decimals(half_even(100 * nearest_double(bytes), KILOBYTE as nat)) + " KB"@
    }
}

/// The percentage as shown.
pub open spec fn percent_shown(acknowledged: nat, total: nat) -> Seq<char> {
    decimal(percent(acknowledged, total)) + "%"@
}

fn round_half_even(num: u128, den: u128) -> (rounded: u128)
    requires
        0 < den < 0x8000_0000_0000_0000_0000_0000_0000_0000,
        num < 0x8000_0000_0000_0000_0000_0000_0000_0000,
    ensures
        rounded == half_even(num as nat, den as nat),
{
    let quotient: u128 = num / den;
    let rest: u128 = num % den;
    if 2 * rest < den || (2 * rest == den && quotient % 2 == 0) {
        quotient
    } else {
        assert(num / den <= num) by (nonlinear_arith)
            requires
                den > 0,
        ;
        quotient + 1
    }
}

pub(crate) proof fn spacing_bounds(n: nat)
    ensures
        spacing(n) >= 1,
        n < DOUBLE_LIMIT * spacing(n),
        spacing(n) == 1 || DOUBLE_FLOOR * spacing(n) <= n,
    decreases n,
{
    if n >= DOUBLE_LIMIT {
        spacing_bounds(n / 2);
    }
}

fn double_spacing(n: u128) -> (step: u128)
    ensures
        step == spacing(n as nat),
    decreases n,
{
    if n < DOUBLE_LIMIT {
        1
    } else {
        let half: u128 = double_spacing(n / 2);
        proof {
            spacing_bounds((n / 2) as nat);
        }
        2 * half
    }
}

/// Rounding never passes an integer that `num / den` has not passed.
proof fn half_even_at_most(num: nat, den: nat, bound: nat)
    requires
        den > 0,
        num <= bound * den,
    ensures
        half_even(num, den) <= bound,
{
    let q = num / den;
    let r = num % den;
    assert(num == q * den + r && 0 <= r < den && q <= bound && (q == bound ==> r == 0))
        by (nonlinear_arith)
        requires
            den > 0,
            num <= bound * den,
            q == num / den,
            r == num % den,
    ;
}

proof fn half_even_at_least(num: nat, den: nat, bound: nat)
    requires
        den > 0,
        num >= bound * den,
    ensures
        half_even(num, den) >= bound,
{
    let q = num / den;
    assert(q >= bound) by (nonlinear_arith)
        requires
            den > 0,
            num >= bound * den,
            q == num / den,
    ;
}

pub(crate) proof fn nearest_double_bounds(n: nat)
    ensures
        nearest_double(n) <= 2 * n,
        n > 0 ==> nearest_double(n) > 0,
{
    spacing_bounds(n);
    let s = spacing(n);
    if s == 1 {
        half_even_at_most(n, 1, n);
        half_even_at_least(n, 1, n);
    } else {
        let q = n / s;
        assert(n <= (q + 1) * s && q * s <= n && s <= n) by (nonlinear_arith)
            requires
                s > 1,
                q == n / s,
                DOUBLE_FLOOR * s <= n,
        ;
        half_even_at_most(n, s, q + 1);
        half_even_at_least(n, s, DOUBLE_FLOOR as nat);
        let h = half_even(n, s);
        assert(h * s <= 2 * n && h * s > 0) by (nonlinear_arith)
            requires
                h <= q + 1,
                h >= DOUBLE_FLOOR,
                q * s <= n,
                s <= n,
                s > 1,
        ;
    }
}

fn to_double(n: u128) -> (double: u128)
    requires
        n <= 0x1_0000_0000_0000_0000,
    ensures
        double == nearest_double(n as nat),
        double <= 2 * n,
        n > 0 ==> double > 0,
{
    let step: u128 = double_spacing(n);
    proof {
        spacing_bounds(n as nat);
        nearest_double_bounds(n as nat);
    }
    let steps: u128 = round_half_even(n, step);
    steps * step
}

pub(crate) proof fn lift_bounds(num: nat, den: nat)
    requires
        den > 0,
    ensures
        lift(num, den) >= 1,
        num == 0 ==> lift(num, den) == 1,
        num * lift(num, den) < DOUBLE_LIMIT * den || lift(num, den) == 1,
    decreases lift_distance(num, den),
{
    if num != 0 && num < DOUBLE_FLOOR * den {
        lift_bounds(2 * num, den);
        let l = lift(2 * num, den);
        assert(num * (2 * l) == (2 * num) * l) by (nonlinear_arith);
        if l == 1 {
            assert((2 * num) * l == 2 * num) by (nonlinear_arith)
                requires
                    l == 1,
            ;
        }
    }
}

fn lift_factor(num: u128, den: u128) -> (factor: u128)
    requires
        0 < den <= 0x2_0000_0000_0000_0000,
        num < 0x4000_0000_0000_0000_0000_0000_0000_0000,
    ensures
        factor == lift(num as nat, den as nat),
    decreases lift_distance(num as nat, den as nat),
{
    if num == 0 || num >= DOUBLE_FLOOR * den {
        1
    } else {
        let half: u128 = lift_factor(2 * num, den);
        proof {
            lift_bounds((2 * num) as nat, den as nat);
            assert(half <= 2 * num * half) by (nonlinear_arith)
                requires
                    num > 0,
                    half >= 1,
            ;
        }
        2 * half
    }
}

fn percent_of(acknowledged: u64, total: u64) -> (shown: u128)
    requires
        total > 0,
    ensures
        shown == percent(acknowledged as nat, total as nat),
{
    let num: u128 = to_double(acknowledged as u128);
    let den: u128 = to_double(total as u128);
    let factor: u128 = lift_factor(num, den);
    let step: u128 = double_spacing(num / den);
    proof {
        significand_bounds(num as nat, den as nat);
    }
    let significand: u128 = round_half_even(num * factor, den * step);
    let hundredfold: u128 = to_double(100 * significand);
    assert(hundredfold * step <= 200 * DOUBLE_LIMIT * 0x2000) by (nonlinear_arith)
        requires
            hundredfold <= 200 * DOUBLE_LIMIT,
            step <= 0x2000,
    ;
    round_half_even(hundredfold * step, factor)
}

pub(crate) proof fn significand_at_most(num: nat, den: nat)
    requires
        den > 0,
    ensures
        den * spacing(num / den) > 0,
        quotient_significand(num, den) <= DOUBLE_LIMIT,
{
    let l = lift(num, den);
    let q = num / den;
    let s = spacing(q);
    lift_bounds(num, den);
    spacing_bounds(q);
    assert(num < (q + 1) * den) by (nonlinear_arith)
        requires
            den > 0,
            q == num / den,
    ;
    assert(num * l <= DOUBLE_LIMIT * (den * s)) by {
        if l == 1 {
            assert(num * l <= DOUBLE_LIMIT * (den * s)) by (nonlinear_arith)
                requires
                    l == 1,
                    num < (q + 1) * den,
                    q + 1 <= DOUBLE_LIMIT * s,
                    den > 0,
            ;
        } else {
            assert(DOUBLE_LIMIT * den <= DOUBLE_LIMIT * (den * s)) by (nonlinear_arith)
                requires
                    den > 0,
                    s >= 1,
            ;
        }
    }
    assert(den * s > 0) by (nonlinear_arith)
        requires
            den > 0,
            s >= 1,
    ;
    half_even_at_most(num * l, den * s, DOUBLE_LIMIT as nat);
}

proof fn significand_bounds(num: nat, den: nat)
    requires
        0 < den <= 0x2_0000_0000_0000_0000,
        num <= 0x2_0000_0000_0000_0000,
    ensures
        1 <= lift(num, den) <= DOUBLE_LIMIT * 0x2_0000_0000_0000_0000,
        num * lift(num, den) <= DOUBLE_LIMIT * 0x2_0000_0000_0000_0000,
        1 <= spacing(num / den) <= 0x2000,
        0 < den * spacing(num / den) <= DOUBLE_LIMIT * 0x2_0000_0000_0000_0000,
        quotient_significand(num, den) <= DOUBLE_LIMIT,
{
    let l = lift(num, den);
    let q = num / den;
    let s = spacing(q);
    lift_bounds(num, den);
    spacing_bounds(q);
    significand_at_most(num, den);
    assert(q * den <= num) by (nonlinear_arith)
        requires
            den > 0,
            q == num / den,
    ;
    assert(q <= num) by (nonlinear_arith)
        requires
            q * den <= num,
            den > 0,
    ;
    if s > 1 {
        assert(den * s <= num) by (nonlinear_arith)
            requires
                DOUBLE_FLOOR * s <= q,
                q * den <= num,
                den > 0,
        ;
    } else {
        lemma_mul_basics_3(den as int);
    }
    if l > 1 {
        assert(l <= num * l) by (nonlinear_arith)
            requires
                num > 0,
        ;
    } else {
        lemma_mul_basics_3(num as int);
    }
}

/// The percentage shown after `acknowledged` of `total` bytes, with its sign.
pub fn percent_text(acknowledged: u64, total: u64) -> (shown: String)
    requires
        total > 0,
    ensures
        shown@ == percent_shown(acknowledged as nat, total as nat),
{
    decimal_text(percent_of(acknowledged, total)).concat("%")
}

fn two_decimals_text(hundredths: u128) -> (shown: String)
    ensures
        shown@ == two_decimals(hundredths as nat),
{
    let mut shown = decimal_text(hundredths / 100).concat(".");
    shown.append(decimal_text(hundredths / 10 % 10).as_str());
    shown.append(decimal_text(hundredths % 10).as_str());
    proof {
        reveal_strlit(".");
        assert(shown@ == two_decimals(hundredths as nat));
    }
    shown
}

/// The size of `bytes` bytes as shown.
pub fn size_text(bytes: u64) -> (shown: String)
    ensures
        shown@ == size_shown(bytes as nat),
{
    let double: u128 = to_double(bytes as u128);
    if bytes > MEGABYTE {
        two_decimals_text(round_half_even(100 * double, MEGABYTE as u128)).concat(" MB")
    } else {
        two_decimals_text(round_half_even(100 * double, KILOBYTE as u128)).concat(" KB")
    }
}

/// `n` is a double itself.
spec fn is_double(n: nat) -> bool {
    exists|steps: nat| n == #[trigger] (steps * spacing(n))
}

proof fn double_is_kept(n: nat)
    requires
        is_double(n),
    ensures
        nearest_double(n) == n,
{
    spacing_bounds(n);
    let steps = choose|steps: nat| n == #[trigger] (steps * spacing(n));
    half_even_at_most(n, spacing(n), steps);
    half_even_at_least(n, spacing(n), steps);
}

proof fn twice_a_double(n: nat)
    requires
        is_double(n),
    ensures
        is_double(2 * n),
{
    if 2 * n < DOUBLE_LIMIT {
        lemma_mul_basics_3((2 * n) as int);
        assert(2 * n == (2 * n) * spacing(2 * n));
    } else {
        let steps = choose|steps: nat| n == #[trigger] (steps * spacing(n));
        let s = spacing(n);
        assert(spacing(2 * n) == 2 * s);
        assert(2 * n == steps * (2 * s)) by (nonlinear_arith)
            requires
                n == steps * s,
        ;
        assert(2 * n == steps * spacing(2 * n));
    }
}

proof fn hundredfold_lift_is_double(num: nat, den: nat)
    ensures
        is_double(100 * lift(num, den)),
    decreases lift_distance(num, den),
{
    if num == 0 || num >= DOUBLE_FLOOR * den {
        assert(100 * lift(num, den) == 100 * spacing(100));
    } else {
        hundredfold_lift_is_double(2 * num, den);
        twice_a_double(100 * lift(2 * num, den));
        assert(100 * lift(num, den) == 2 * (100 * lift(2 * num, den)));
    }
}

proof fn spacing_divides(a: nat, b: nat) -> (times: nat)
    requires
        a <= b,
    ensures
        times >= 1,
        spacing(b) == times * spacing(a),
    decreases b,
{
    if b < DOUBLE_LIMIT {
        1
    } else if a < DOUBLE_LIMIT {
        lemma_mul_basics_3(spacing(b) as int);
        spacing_bounds(b);
        spacing(b)
    } else {
        let times = spacing_divides(a / 2, b / 2);
        let s = spacing(a / 2);
        assert(2 * (times * s) == times * (2 * s)) by (nonlinear_arith);
        times
    }
}

proof fn half_even_monotone(a: nat, b: nat, den: nat)
    requires
        den > 0,
        a <= b,
    ensures
        half_even(a, den) <= half_even(b, den),
{
    let qa = a / den;
    let qb = b / den;
    let ra = a % den;
    let rb = b % den;
    assert(qa <= qb && (qa == qb ==> ra <= rb)) by (nonlinear_arith)
        requires
            den > 0,
            a <= b,
            qa == a / den,
            qb == b / den,
            ra == a % den,
            rb == b % den,
    ;
}

proof fn nearest_double_monotone(a: nat, b: nat)
    requires
        a <= b,
    ensures
        nearest_double(a) <= nearest_double(b),
{
    let times = spacing_divides(a, b);
    let sa = spacing(a);
    let sb = spacing(b);
    let ha = half_even(a, sa);
    let hb = half_even(b, sb);
    spacing_bounds(a);
    spacing_bounds(b);
    if times == 1 {
        assert(sb == sa);
        half_even_monotone(a, b, sa);
        assert(ha * sa <= hb * sa) by (nonlinear_arith)
            requires
                ha <= hb,
        ;
    } else {
        assert(sb >= 2 * sa) by (nonlinear_arith)
            requires
                sb == times * sa,
                times >= 2,
        ;
        half_even_at_most(a, sa, DOUBLE_LIMIT as nat);
        half_even_at_least(b, sb, DOUBLE_FLOOR as nat);
        assert(ha * sa <= hb * sb) by (nonlinear_arith)
            requires
                sb >= 2 * sa,
                ha <= 2 * DOUBLE_FLOOR,
                hb >= DOUBLE_FLOOR,
        ;
    }
}

/// Integers of up to 53 bits are doubles, so that the size of any transfer below
/// eight pebibytes is rounded only once, to the decimals that are shown.
pub proof fn small_integers_are_doubles(n: nat)
    requires
        n < DOUBLE_LIMIT,
    ensures
        nearest_double(n) == n,
{
    lemma_mul_basics_3(n as int);
    assert(n == n * spacing(n));
    double_is_kept(n);
}

/// A transfer that is not past its end never shows more than one hundred percent.
pub proof fn percent_is_at_most_hundred(acknowledged: nat, total: nat)
    requires
        acknowledged <= total,
        total > 0,
    ensures
        percent(acknowledged, total) <= 100,
{
    let num = nearest_double(acknowledged);
    let den = nearest_double(total);
    let l = lift(num, den);
    nearest_double_bounds(total);
    nearest_double_monotone(acknowledged, total);
    lift_bounds(num, den);
    quotient_of_at_most_one(num, den);
    let m = quotient_significand(num, den);
    assert(num * l <= l * den) by (nonlinear_arith)
        requires
            num <= den,
    ;
    half_even_at_most(num * l, den, l);
    hundredfold_lift_is_double(num, den);
    double_is_kept(100 * l);
    nearest_double_monotone(100 * m, 100 * l);
    half_even_at_most(nearest_double(100 * m), l, 100);
}

proof fn quotient_of_at_most_one(num: nat, den: nat)
    requires
        num <= den,
        den > 0,
    ensures
        spacing(num / den) == 1,
{
    assert(num / den <= 1) by (nonlinear_arith)
        requires
            num <= den,
            den > 0,
    ;
}

/// A complete transfer shows one hundred percent.
pub proof fn percent_of_all_is_hundred(total: nat)
    requires
        total > 0,
    ensures
        percent(total, total) == 100,
{
    let den = nearest_double(total);
    let l = lift(den, den);
    nearest_double_bounds(total);
    lift_bounds(den, den);
    quotient_of_at_most_one(den, den);
    assert(den * l == l * den) by (nonlinear_arith);
    half_even_at_most(den * l, den, l);
    half_even_at_least(den * l, den, l);
    hundredfold_lift_is_double(den, den);
    double_is_kept(100 * l);
    lemma_mul_basics_3(den as int);
    lemma_mul_basics_3((100 * l) as int);
    assert(quotient_significand(den, den) == l);
    half_even_at_most(100 * l, l, 100);
    half_even_at_least(100 * l, l, 100);
}

/// A transfer of which nothing has been acknowledged shows zero percent.
pub proof fn percent_of_nothing_is_zero(total: nat)
    requires
        total > 0,
    ensures
        percent(0, total) == 0,
{
    let den = nearest_double(total);
    nearest_double_bounds(total);
    nearest_double_bounds(0);
    quotient_of_at_most_one(0, den);
    half_even_at_most(0, den, 0);
    half_even_at_most(0, 1, 0);
}

proof fn half_even_scaled(num: nat, den: nat, times: nat)
    requires
        den > 0,
        times > 0,
    ensures
        half_even(num * times, den * times) == half_even(num, den),
        den * times > 0,
{
    let q = num / den;
    let r = num % den;
    vstd::arithmetic::div_mod::lemma_fundamental_div_mod(num as int, den as int);
    assert(num * times == q * (den * times) + r * times && 0 <= r * times < den * times)
        by (nonlinear_arith)
        requires
            num == den * q + r,
            0 <= r < den,
            times > 0,
    ;
    vstd::arithmetic::div_mod::lemma_fundamental_div_mod_converse(
        (num * times) as int,
        (den * times) as int,
        q as int,
        (r * times) as int,
    );
    assert((2 * r < den) == (2 * (r * times) < den * times)) by (nonlinear_arith)
        requires
            times > 0,
    ;
    assert((2 * r == den) == (2 * (r * times) == den * times)) by (nonlinear_arith)
        requires
            times > 0,
    ;
}

proof fn lift_divides(a: nat, b: nat, den: nat) -> (times: nat)
    requires
        0 < a <= b,
        den > 0,
    ensures
        times >= 1,
        lift(a, den) == lift(b, den) * times,
    decreases lift_distance(a, den),
{
    lift_bounds(a, den);
    if b >= DOUBLE_FLOOR * den {
        lemma_mul_basics_4(lift(a, den) as int);
        lift(a, den)
    } else {
        let times = lift_divides(2 * a, 2 * b, den);
        let l = lift(2 * b, den);
        assert(2 * (l * times) == (2 * l) * times) by (nonlinear_arith);
        times
    }
}

/// The quotient of two positive numbers has a full significand.
proof fn significand_is_full(num: nat, den: nat)
    requires
        num > 0,
        den > 0,
    ensures
        quotient_significand(num, den) >= DOUBLE_FLOOR,
{
    let l = lift(num, den);
    let q = num / den;
    let s = spacing(q);
    spacing_bounds(q);
    lift_bounds(num, den);
    lift_reaches(num, den);
    assert(q * den <= num) by (nonlinear_arith)
        requires
            den > 0,
            q == num / den,
    ;
    if s == 1 {
        lemma_mul_basics_3(den as int);
        half_even_at_least(num * l, den, DOUBLE_FLOOR as nat);
    } else {
        assert(num * l >= DOUBLE_FLOOR * (den * s)) by (nonlinear_arith)
            requires
                l >= 1,
                DOUBLE_FLOOR * s <= q,
                q * den <= num,
        ;
        assert(den * s > 0) by (nonlinear_arith)
            requires
                den > 0,
                s >= 1,
        ;
        half_even_at_least(num * l, den * s, DOUBLE_FLOOR as nat);
    }
}

pub(crate) proof fn lift_reaches(num: nat, den: nat)
    requires
        num > 0,
        den > 0,
    ensures
        num * lift(num, den) >= DOUBLE_FLOOR * den,
    decreases lift_distance(num, den),
{
    if num >= DOUBLE_FLOOR * den {
        lemma_mul_basics_3(num as int);
    } else {
        lift_reaches(2 * num, den);
        let l = lift(2 * num, den);
        assert(num * (2 * l) == (2 * num) * l) by (nonlinear_arith);
    }
}

/// The more of a transfer is acknowledged, the more is shown: the percentage
/// never goes back.
pub proof fn percent_never_goes_back(earlier: nat, later: nat, total: nat)
    requires
        earlier <= later,
        total > 0,
    ensures
        percent(earlier, total) <= percent(later, total),
{
    let a = nearest_double(earlier);
    let b = nearest_double(later);
    let den = nearest_double(total);
    nearest_double_bounds(total);
    nearest_double_bounds(earlier);
    nearest_double_monotone(earlier, later);
    if earlier == 0 {
        percent_of_nothing_is_zero(total);
    } else {
        let la = lift(a, den);
        let lb = lift(b, den);
        let sa = spacing(a / den);
        let sb = spacing(b / den);
        let ma = quotient_significand(a, den);
        let mb = quotient_significand(b, den);
        let ha = nearest_double(100 * ma);
        let hb = nearest_double(100 * mb);
        lift_bounds(a, den);
        lift_bounds(b, den);
        let lifts = lift_divides(a, b, den);
        vstd::arithmetic::div_mod::lemma_div_is_ordered(a as int, b as int, den as int);
        let steps = spacing_divides(a / den, b / den);
        spacing_bounds(a / den);
        spacing_bounds(b / den);
        assert(ha * sa <= (hb * sb) * lifts) by {
            if lifts == 1 && steps == 1 {
                lemma_mul_basics_3(lb as int);
                lemma_mul_basics_4(sa as int);
                assert(a * la <= b * la) by (nonlinear_arith)
                    requires
                        a <= b,
                ;
                assert(den * sa > 0) by (nonlinear_arith)
                    requires
                        den > 0,
                        sa >= 1,
                ;
                half_even_monotone(a * la, b * la, den * sa);
                nearest_double_monotone(100 * ma, 100 * mb);
                assert(ha * sa <= (hb * sb) * lifts) by (nonlinear_arith)
                    requires
                        ha <= hb,
                        sa == sb,
                        lifts == 1,
                ;
            } else {
                significand_at_most(a, den);
                significand_is_full(b, den);
                full_significands_are_doubles();
                nearest_double_monotone(100 * ma, 100 * DOUBLE_LIMIT as nat);
                nearest_double_monotone(100 * DOUBLE_FLOOR as nat, 100 * mb);
                assert(ha * sa <= (hb * sb) * lifts) by (nonlinear_arith)
                    requires
                        ha <= 200 * DOUBLE_FLOOR,
                        hb >= 100 * DOUBLE_FLOOR,
                        sb == steps * sa,
                        steps >= 1,
                        lifts >= 1,
                        steps >= 2 || lifts >= 2,
                ;
            }
        }
        half_even_monotone(ha * sa, (hb * sb) * lifts, la);
        half_even_scaled(hb * sb, lb, lifts);
    }
}

proof fn full_significands_are_doubles()
    ensures
        nearest_double((100 * DOUBLE_LIMIT) as nat) == 100 * DOUBLE_LIMIT,
        nearest_double((100 * DOUBLE_FLOOR) as nat) == 100 * DOUBLE_FLOOR,
{
    reveal_with_fuel(spacing, 9);
    assert(is_double((100 * DOUBLE_FLOOR) as nat)) by {
        assert(spacing((100 * DOUBLE_FLOOR) as nat) == 64);
        assert(100 * DOUBLE_FLOOR == (100 * DOUBLE_FLOOR / 64) as nat * spacing(
            (100 * DOUBLE_FLOOR) as nat,
        ));
    }
    twice_a_double((100 * DOUBLE_FLOOR) as nat);
    double_is_kept((100 * DOUBLE_FLOOR) as nat);
    double_is_kept((100 * DOUBLE_LIMIT) as nat);
}

} // verus!
