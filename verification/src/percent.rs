//! How far a transfer has come, in whole percent, as double-precision arithmetic has it.
use vstd::arithmetic::div_mod;
use vstd::prelude::*;

use crate::size;

verus! {

/// The power of two by which `a` is multiplied so that its quotient by `b` has 53 bits before
/// the point.
pub open spec fn scale(a: nat, b: nat) -> nat
    decreases b * 0x20_0000_0000_0000 - a,
{
    if a == 0 || a >= b * 0x10_0000_0000_0000 {
        1
    } else {
        2 * scale(2 * a, b)
    }
}

/// The quotient of `a` and `b` in percent: quotient and product are rounded to 53 bits, and what
/// follows the point is dropped.
pub open spec fn quotient_percent(a: nat, b: nat) -> nat {
    size::nearest_double(size::round_even(a * scale(a, b), b) * 100) / scale(a, b)
}

/// `part` of `whole` in percent, a hundred at most.
pub open spec fn percent(part: nat, whole: nat) -> nat {
    let a = size::nearest_double(part);
    let b = size::nearest_double(whole);
    if a >= b || quotient_percent(a, b) > 100 {
        100
    } else {
        quotient_percent(a, b)
    }
}

/// `part` of `whole` in whole percent.
pub fn whole_percent(part: u64, whole: u64) -> (res: u8)
    requires
        whole > 0,
    ensures
        res == percent(part as nat, whole as nat),
{
    let a = size::to_double(part);
    let b = size::to_double(whole);
    if a >= b {
        return 100;
    }
    if a == 0 {
        proof {
            lemma_nothing_is_no_percent(b as nat);
        }
        return 0;
    }
    let mut x: u128 = a;
    let mut s: u128 = 1;
    while x < b * 0x10_0000_0000_0000
        invariant
            0 < a < b <= 0x2_0000_0000_0000_0000,
            a <= x < b * 0x20_0000_0000_0000,
            x == a * s,
            0 < s <= x,
            scale(a as nat, b as nat) == s * scale(x as nat, b as nat),
        decreases b * 0x20_0000_0000_0000 - x,
    {
        proof {
            assert(x * 2 == a * (s * 2)) by (nonlinear_arith)
                requires
                    x == a * s,
            ;
            assert((s * 2) * scale(x as nat * 2, b as nat) == s * scale(x as nat, b as nat))
                by (nonlinear_arith)
                requires
                    scale(x as nat, b as nat) == 2 * scale(x as nat * 2, b as nat),
            ;
        }
        x = x * 2;
        s = s * 2;
    }
    proof {
        assert(scale(a as nat, b as nat) == s) by (nonlinear_arith)
            requires
                scale(x as nat, b as nat) == 1,
                scale(a as nat, b as nat) == s * scale(x as nat, b as nat),
        ;
        assert(x / b < 0x20_0000_0000_0000) by (nonlinear_arith)
            requires
                x < b * 0x20_0000_0000_0000,
                b > 0,
        ;
    }
    let m = size::divide_even(x, b);
    let product = size::to_double((m * 100) as u64) / s;
    if product > 100 {
        100
    } else {
        product as u8
    }
}

proof fn lemma_double_of_something(n: nat)
    requires
        n > 0,
    ensures
        size::nearest_double(n) > 0,
{
    let s = size::spacing(n);
    let c = size::round_even(n, s);
    size::lemma_spacing(n);
    assert(n <= n * s) by (nonlinear_arith)
        requires
            s >= 1,
    ;
    size::lemma_round_even_between(n, s, 1, n);
    assert(c * s > 0) by (nonlinear_arith)
        requires
            c >= 1,
            s >= 1,
    ;
}

proof fn lemma_nothing_is_no_percent(b: nat)
    requires
        b > 0,
    ensures
        size::nearest_double(0) == 0,
        quotient_percent(0, b) == 0,
{
    size::lemma_round_even_between(0, 1, 0, 0);
    size::lemma_round_even_between(0, b, 0, 0);
    assert(size::spacing(0) == 1);
}

proof fn lemma_scale(a: nat, b: nat)
    requires
        0 < a < b * 0x20_0000_0000_0000,
    ensures
        scale(a, b) >= 1,
        b * 0x10_0000_0000_0000 <= a * scale(a, b) < b * 0x20_0000_0000_0000,
    decreases b * 0x20_0000_0000_0000 - a,
{
    if a < b * 0x10_0000_0000_0000 {
        lemma_scale(2 * a, b);
        let t = scale(2 * a, b);
        assert(a * (2 * t) == (2 * a) * t) by (nonlinear_arith);
    }
}

proof fn lemma_quotient_percent_ordered(a1: nat, a2: nat, b: nat)
    requires
        0 < a1 <= a2 < b * 0x20_0000_0000_0000,
    ensures
        quotient_percent(a1, b) <= quotient_percent(a2, b),
    decreases b * 0x20_0000_0000_0000 - a1,
{
    let s1 = scale(a1, b);
    let s2 = scale(a2, b);
    let m1 = size::round_even(a1 * s1, b);
    let m2 = size::round_even(a2 * s2, b);
    let u1 = size::nearest_double(m1 * 100);
    let u2 = size::nearest_double(m2 * 100);
    lemma_scale(a1, b);
    lemma_scale(a2, b);
    if a1 >= b * 0x10_0000_0000_0000 {
        assert(s1 == 1 && s2 == 1);
        assert(a1 * s1 == a1 && a2 * s2 == a2) by (nonlinear_arith)
            requires
                s1 == 1,
                s2 == 1,
        ;
        size::lemma_round_even_ordered(a1, a2, b);
        size::lemma_nearest_double_ordered(m1 * 100, m2 * 100);
        assert(u1 / s1 == u1 && u2 / s2 == u2) by (nonlinear_arith)
            requires
                s1 == 1,
                s2 == 1,
        ;
    } else if a2 >= b * 0x10_0000_0000_0000 {
        lemma_scale(2 * a1, b);
        assert(s1 >= 2);
        assert(s2 == 1);
        assert(a2 * s2 == a2) by (nonlinear_arith)
            requires
                s2 == 1,
        ;
        size::lemma_round_even_between(a1 * s1, b, 0, 0x20_0000_0000_0000);
        size::lemma_round_even_between(
            a2,
            b,
            0x10_0000_0000_0000,
            0x20_0000_0000_0000,
        );
        size::lemma_nearest_double_ordered(m1 * 100, 2 * (m2 * 100));
        size::lemma_nearest_double_doubled(m2 * 100);
        assert(u1 / s1 <= u2 / s2) by (nonlinear_arith)
            requires
                u1 <= 2 * u2,
                s1 >= 2,
                s2 == 1,
        ;
    } else {
        lemma_halved(a1, b);
        lemma_halved(a2, b);
        lemma_quotient_percent_ordered(2 * a1, 2 * a2, b);
    }
}

proof fn lemma_halved(a: nat, b: nat)
    requires
        0 < a < b * 0x10_0000_0000_0000,
    ensures
        quotient_percent(a, b) == quotient_percent(2 * a, b) / 2,
{
    let t = scale(2 * a, b);
    lemma_scale(2 * a, b);
    assert(a * (2 * t) == (2 * a) * t) by (nonlinear_arith);
    let u = size::nearest_double(size::round_even((2 * a) * t, b) * 100);
    div_mod::lemma_div_denominator(u as int, t as int, 2);
    assert(t * 2 == 2 * t);
}

/// A percentage is a hundred at most, a hundred once everything has come, and zero before
/// anything has.
pub proof fn law_percent_from_start_to_end(part: nat, whole: nat)
    requires
        whole > 0,
    ensures
        percent(part, whole) <= 100,
        percent(whole, whole) == 100,
        percent(0, whole) == 0,
{
    lemma_double_of_something(whole);
    lemma_nothing_is_no_percent(size::nearest_double(whole));
}

/// A percentage never falls while more comes.
pub proof fn law_percent_never_falls(part: nat, more: nat, whole: nat)
    requires
        whole > 0,
        part <= more,
    ensures
        percent(part, whole) <= percent(more, whole),
{
    let a1 = size::nearest_double(part);
    let a2 = size::nearest_double(more);
    let b = size::nearest_double(whole);
    lemma_double_of_something(whole);
    lemma_nothing_is_no_percent(b);
    size::lemma_nearest_double_ordered(part, more);
    if 0 < a1 && a2 < b {
        lemma_quotient_percent_ordered(a1, a2, b);
    }
}

/// A percentage is that of the numbers themselves, but for a rounding of less than a part in
/// 2^44 of the whole: it does not exceed their quotient by more, and the next one does.
pub proof fn law_percent_is_near_the_quotient(part: nat, whole: nat)
    requires
        0 < whole < 0x20_0000_0000_0000,
        part <= whole,
    ensures
        percent(part, whole) * whole * 0x1000_0000_0000 <= 100 * part * 0x1000_0000_0000 + whole,
        100 * part * 0x1000_0000_0000 <= (percent(part, whole) + 1) * whole * 0x1000_0000_0000
            + whole,
{
    size::law_small_numbers_are_exact(part);
    size::law_small_numbers_are_exact(whole);
    let a = part;
    let b = whole;
    if a == 0 {
        lemma_nothing_is_no_percent(b);
        let zero = percent(part, whole);
        assert(zero * whole == 0) by (nonlinear_arith)
            requires
                zero == 0,
        ;
    } else if a < b {
        let s = scale(a, b);
        lemma_scale(a, b);
        let m = size::round_even(a * s, b);
        size::lemma_round_even_near(a * s, b);
        size::lemma_round_even_between(a * s, b, 0x10_0000_0000_0000, 0x20_0000_0000_0000);
        let u = size::nearest_double(m * 100);
        size::law_nearest_double_is_near(m * 100);
        let p = u / s;
        div_mod::lemma_fundamental_div_mod(u as int, s as int);
        let r = u % s;
        assert(u == s * p + r);
        // The scale is large, since what it multiplies is no more than the divisor.
        assert(s >= 0x10_0000_0000_0000) by (nonlinear_arith)
            requires
                a < b,
                b * 0x10_0000_0000_0000 <= a * s,
                a > 0,
        ;
        assert(u <= 100 * m + 128 && 100 * m <= u + 128);
        let ub = u * b;
        let mb = m * b;
        let as_ = a * s;
        assert(ub <= 100 * mb + 128 * b && 100 * mb <= ub + 128 * b) by (nonlinear_arith)
            requires
                u <= 100 * m + 128,
                100 * m <= u + 128,
                ub == u * b,
                mb == m * b,
        ;
        assert(ub <= 100 * as_ + 178 * b && 100 * as_ <= ub + 178 * b);
        let pb = p * b;
        let rb = r * b;
        assert(ub == s * pb + rb) by (nonlinear_arith)
            requires
                u == s * p + r,
                ub == u * b,
                pb == p * b,
                rb == r * b,
        ;
        assert(0 <= rb <= s * b) by (nonlinear_arith)
            requires
                0 <= r < s,
                rb == r * b,
        ;
        assert(178 * b * 0x1000_0000_0000 <= s * b) by (nonlinear_arith)
            requires
                s >= 0x10_0000_0000_0000,
        ;
        assert(pb * 0x1000_0000_0000 <= 100 * a * 0x1000_0000_0000 + b) by (nonlinear_arith)
            requires
                s * pb <= 100 * (a * s) + 178 * b,
                178 * b * 0x1000_0000_0000 <= s * b,
                s > 0,
        ;
        assert(100 * a * 0x1000_0000_0000 <= (pb + b) * 0x1000_0000_0000 + b) by (nonlinear_arith)
            requires
                100 * (a * s) <= s * pb + s * b + 178 * b,
                178 * b * 0x1000_0000_0000 <= s * b,
                s > 0,
        ;
        assert((p + 1) * b == pb + b) by (nonlinear_arith)
            requires
                pb == p * b,
        ;
        assert(p * b * 0x1000_0000_0000 == pb * 0x1000_0000_0000);
        if p > 100 {
            let cut = percent(part, whole);
            assert(cut * whole == 100 * whole && (cut + 1) * whole == 101 * whole)
                by (nonlinear_arith)
                requires
                    cut == 100,
            ;
            assert(100 * b * 0x1000_0000_0000 <= pb * 0x1000_0000_0000) by (nonlinear_arith)
                requires
                    pb == p * b,
                    p > 100,
            ;
            assert(100 * a * 0x1000_0000_0000 <= 100 * b * 0x1000_0000_0000) by (nonlinear_arith)
                requires
                    a <= b,
            ;
            assert(100 * b * 0x1000_0000_0000 <= 101 * b * 0x1000_0000_0000) by (nonlinear_arith);
        }
    } else {
        assert(a == b);
        let all = percent(part, whole);
        assert(all * whole == 100 * whole && (all + 1) * whole == 101 * whole) by (nonlinear_arith)
            requires
                all == 100,
        ;
        assert(100 * b * 0x1000_0000_0000 <= 101 * b * 0x1000_0000_0000) by (nonlinear_arith);
    }
}

} // verus!
