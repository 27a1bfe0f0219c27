//! Byte counts as people read them, such as `1.50 KB`.
use vstd::arithmetic::div_mod;
use vstd::prelude::*;

use crate::number;

verus! {

/// `n / d` rounded to the nearest whole number, and to the even one where two are as near.
pub open spec fn round_even(n: nat, d: nat) -> nat {
    let q = n / d;
    let r = n % d;
    if 2 * r < d || (2 * r == d && q % 2 == 0) {
        q
    } else {
        q + 1
    }
}

/// The distance between neighbouring double-precision numbers around `n`: 53 bits are kept.
pub open spec fn spacing(n: nat) -> nat
    decreases n,
{
    if n < 0x20_0000_0000_0000 {
        1
    } else {
        2 * spacing(n / 2)
    }
}

/// The double-precision number that is nearest to `n`.
pub open spec fn nearest_double(n: nat) -> nat {
    round_even(n, spacing(n)) * spacing(n)
}

/// How many bytes the unit has in which `n` bytes are given: the largest of the five that
/// does not exceed `n`.
pub open spec fn unit_size(n: nat) -> nat {
    if n < 0x400 {
        1
    } else if n < 0x10_0000 {
        0x400
    } else if n < 0x4000_0000 {
        0x10_0000
    } else if n < 0x100_0000_0000 {
        0x4000_0000
    } else {
        0x100_0000_0000
    }
}

/// The name of that unit.
pub open spec fn unit_name(n: nat) -> Seq<char> {
    if n < 0x400 {
        "B"@
    } else if n < 0x10_0000 {
        "KB"@
    } else if n < 0x4000_0000 {
        "MB"@
    } else if n < 0x100_0000_0000 {
        "GB"@
    } else {
        "TB"@
    }
}

/// Hundredths of the unit, rounded.
pub open spec fn hundredths(n: nat) -> nat {
    round_even(nearest_double(n) * 100, unit_size(n))
}

/// `n` bytes in the largest fitting unit, with two decimals.
pub open spec fn size_text(n: nat) -> Seq<char> {
    let h = hundredths(n);
    number::decimal(h / 100) + "."@ + seq![
        number::digit_char(h / 10 % 10),
        number::digit_char(h % 10),
    ] + " "@ + unit_name(n)
}

pub(crate) fn divide_even(n: u128, d: u128) -> (res: u128)
    requires
        0 < d <= 0x2_0000_0000_0000_0000,
        n < u128::MAX,
    ensures
        res == round_even(n as nat, d as nat),
        res <= n / d + 1,
{
    let q: u128 = n / d;
    let r: u128 = n % d;
    proof {
        assert(q <= n) by (nonlinear_arith)
            requires
                q == n / d,
                d > 0,
        ;
        assert(r < d) by (nonlinear_arith)
            requires
                r == n % d,
                d > 0,
        ;
    }
    if 2 * r < d || (2 * r == d && q % 2 == 0) {
        q
    } else {
        q + 1
    }
}

fn double_spacing(n: u64) -> (res: u128)
    ensures
        res == spacing(n as nat),
        0 < res <= 0x1_0000_0000_0000_0000,
{
    let mut m: u128 = n as u128;
    let mut s: u128 = 1;
    while m >= 0x20_0000_0000_0000
        invariant
            spacing(n as nat) == s * spacing(m as nat),
            s * m <= n,
            m > 0 || s == 1,
            s > 0,
        decreases m,
    {
        proof {
            assert(s <= n) by (nonlinear_arith)
                requires
                    s * m <= n,
                    m >= 1,
            ;
            assert((s * 2) * spacing((m / 2) as nat) == s * spacing(m as nat)) by (nonlinear_arith)
                requires
                    spacing(m as nat) == 2 * spacing((m / 2) as nat),
            ;
            assert((s * 2) * (m / 2) <= s * m) by (nonlinear_arith)
                requires
                    s > 0,
            ;
        }
        s = s * 2;
        m = m / 2;
    }
    proof {
        assert(s * spacing(m as nat) == s) by (nonlinear_arith)
            requires
                spacing(m as nat) == 1,
        ;
        if m > 0 {
            assert(s <= n) by (nonlinear_arith)
                requires
                    s * m <= n,
                    m >= 1,
            ;
        }
    }
    s
}

/// The double-precision number that is nearest to `n`.
pub(crate) fn to_double(n: u64) -> (res: u128)
    ensures
        res == nearest_double(n as nat),
        res <= 0x2_0000_0000_0000_0000,
{
    let step = double_spacing(n);
    let count = divide_even(n as u128, step);
    proof {
        assert(count * step <= n + step) by (nonlinear_arith)
            requires
                count <= n as int / step as int + 1,
                step > 0,
        ;
        assert(0 <= count * step) by (nonlinear_arith);
    }
    count * step
}

/// Writes `bytes` in the largest fitting unit, with two decimals.
pub fn write_size(bytes: u64) -> (res: String)
    ensures
        res@ == size_text(bytes as nat),
{
    let value = to_double(bytes);
    let (unit, name): (u128, &str) = if bytes < 0x400 {
        (1, "B")
    } else if bytes < 0x10_0000 {
        (0x400, "KB")
    } else if bytes < 0x4000_0000 {
        (0x10_0000, "MB")
    } else if bytes < 0x100_0000_0000 {
        (0x4000_0000, "GB")
    } else {
        (0x100_0000_0000, "TB")
    };
    let h = divide_even(value * 100, unit);
    let mut out = number::write_decimal(h / 100);
    out.append(".");
    let ghost whole = out@;
    out.push((48u8 + (h / 10 % 10) as u8) as char);
    out.push((48u8 + (h % 10) as u8) as char);
    assert(out@ =~= whole + seq![
        number::digit_char(h as nat / 10 % 10),
        number::digit_char(h as nat % 10),
    ]);
    out.append(" ");
    out.append(name);
    out
}

/// A quotient between two whole numbers is rounded to one between them.
pub proof fn lemma_round_even_between(n: nat, d: nat, low: nat, high: nat)
    requires
        d > 0,
        low * d <= n <= high * d,
    ensures
        low <= round_even(n, d) <= high,
{
    let q = n / d;
    let r = n % d;
    div_mod::lemma_fundamental_div_mod(n as int, d as int);
    assert(low <= q) by (nonlinear_arith)
        requires
            low * d <= n,
            n == d * q + r,
            r < d,
    ;
    assert(q <= high && (q == high ==> r == 0)) by (nonlinear_arith)
        requires
            n <= high * d,
            n == d * q + r,
            0 <= r < d,
    ;
}

/// Rounding keeps the order of quotients.
pub proof fn lemma_round_even_ordered(n1: nat, n2: nat, d: nat)
    requires
        d > 0,
        n1 <= n2,
    ensures
        round_even(n1, d) <= round_even(n2, d),
{
    let (q1, r1) = (n1 / d, n1 % d);
    let (q2, r2) = (n2 / d, n2 % d);
    div_mod::lemma_fundamental_div_mod(n1 as int, d as int);
    div_mod::lemma_fundamental_div_mod(n2 as int, d as int);
    assert(q1 <= q2 && (q1 == q2 ==> r1 <= r2)) by (nonlinear_arith)
        requires
            n1 <= n2,
            n1 == d * q1 + r1,
            n2 == d * q2 + r2,
            0 <= r1 < d,
            0 <= r2 < d,
    ;
}

/// A quotient is rounded to the same number when both its parts are doubled.
pub proof fn lemma_round_even_doubled(n: nat, d: nat)
    requires
        d > 0,
    ensures
        round_even(2 * n, 2 * d) == round_even(n, d),
{
    let q = n / d;
    let r = n % d;
    div_mod::lemma_fundamental_div_mod(n as int, d as int);
    assert(2 * n == q * (2 * d) + 2 * r) by (nonlinear_arith)
        requires
            n == d * q + r,
    ;
    div_mod::lemma_fundamental_div_mod_converse(2 * n as int, 2 * d as int, q as int, 2 * r as int);
}

/// A number has 53 bits of its spacing at most, and as many where the spacing is not one.
pub proof fn lemma_spacing(n: nat)
    ensures
        spacing(n) >= 1,
        n < 0x20_0000_0000_0000 * spacing(n),
        spacing(n) > 1 ==> 0x10_0000_0000_0000 * spacing(n) <= n,
    decreases n,
{
    if n >= 0x20_0000_0000_0000 {
        lemma_spacing(n / 2);
    }
}

/// Larger numbers are spaced as closely, or at least twice as far apart.
pub proof fn lemma_spacing_ordered(n1: nat, n2: nat)
    requires
        n1 <= n2,
    ensures
        spacing(n1) == spacing(n2) || 2 * spacing(n1) <= spacing(n2),
    decreases n2,
{
    if n2 >= 0x20_0000_0000_0000 {
        if n1 >= 0x20_0000_0000_0000 {
            lemma_spacing_ordered(n1 / 2, n2 / 2);
        } else {
            lemma_spacing(n2 / 2);
        }
    }
}

/// The nearest double-precision numbers of two numbers are in the order of these.
pub proof fn lemma_nearest_double_ordered(n1: nat, n2: nat)
    requires
        n1 <= n2,
    ensures
        nearest_double(n1) <= nearest_double(n2),
{
    let s1 = spacing(n1);
    let s2 = spacing(n2);
    let c1 = round_even(n1, s1);
    let c2 = round_even(n2, s2);
    lemma_spacing(n1);
    lemma_spacing(n2);
    lemma_spacing_ordered(n1, n2);
    if s1 == s2 {
        lemma_round_even_ordered(n1, n2, s1);
        assert(c1 * s1 <= c2 * s1) by (nonlinear_arith)
            requires
                c1 <= c2,
        ;
    } else {
        lemma_round_even_between(n1, s1, 0, 0x20_0000_0000_0000);
        assert(n2 <= n2 * s2) by (nonlinear_arith)
            requires
                s2 >= 1,
        ;
        lemma_round_even_between(n2, s2, 0x10_0000_0000_0000, n2);
        assert(c1 * s1 <= 0x20_0000_0000_0000 * s1) by (nonlinear_arith)
            requires
                c1 <= 0x20_0000_0000_0000,
        ;
        assert(0x10_0000_0000_0000 * s2 <= c2 * s2) by (nonlinear_arith)
            requires
                0x10_0000_0000_0000 <= c2,
        ;
    }
}

/// The nearest double-precision number of a number with 53 bits or more doubles with it.
pub proof fn lemma_nearest_double_doubled(n: nat)
    requires
        n >= 0x10_0000_0000_0000,
    ensures
        nearest_double(2 * n) == 2 * nearest_double(n),
{
    let s = spacing(n);
    lemma_spacing(n);
    assert((2 * n) / 2 == n);
    assert(spacing(2 * n) == 2 * s);
    lemma_round_even_doubled(n, s);
    let c = round_even(n, s);
    assert(c * (2 * s) == 2 * (c * s)) by (nonlinear_arith);
}

/// The nearest double-precision number of a number below 2^53 is that number.
pub proof fn law_small_numbers_are_exact(n: nat)
    requires
        n < 0x20_0000_0000_0000,
    ensures
        nearest_double(n) == n,
{
    lemma_round_even_between(n, 1, n, n);
    assert(spacing(n) == 1);
    assert(round_even(n, 1) == n);
}

/// The nearest double-precision number is off by half the distance of its neighbours at most,
/// which is less than a part in 2^53 of it.
pub proof fn law_nearest_double_is_near(n: nat)
    ensures
        nearest_double(n) * 0x20_0000_0000_0000 <= n * 0x20_0000_0000_0001,
        n * 0x1f_ffff_ffff_ffff <= nearest_double(n) * 0x20_0000_0000_0000,
{
    let s = spacing(n);
    let c = round_even(n, s);
    lemma_spacing(n);
    lemma_round_even_near(n, s);
    if s == 1 {
        law_small_numbers_are_exact(n);
    } else {
        assert(2 * (c * s) <= 2 * n + s && 2 * n <= 2 * (c * s) + s);
        assert(0x10_0000_0000_0000 * s <= n);
    }
}

/// A rounded quotient is off by a half at most, and even where it is off by just that.
pub proof fn lemma_round_even_near(n: nat, d: nat)
    requires
        d > 0,
    ensures
        2 * (round_even(n, d) * d) <= 2 * n + d,
        2 * n <= 2 * (round_even(n, d) * d) + d,
        2 * n == 2 * (round_even(n, d) * d) + d ==> round_even(n, d) % 2 == 0,
        2 * (round_even(n, d) * d) == 2 * n + d ==> round_even(n, d) % 2 == 0,
{
    let q = n / d;
    let r = n % d;
    div_mod::lemma_fundamental_div_mod(n as int, d as int);
    assert(d * q == q * d) by (nonlinear_arith);
    assert((q + 1) * d == q * d + d) by (nonlinear_arith);
}

/// A byte count is written as hundredths of its unit, with a point before the last two of their
/// digits: the unit is the largest of the five that the count reaches, and the hundredths are
/// those nearest to the count as a double-precision number.
pub proof fn law_size_text_is_near_the_count(n: nat)
    ensures
        ({
            let unit = if n >= 1024 * 1024 * 1024 * 1024 {
                1024nat * 1024 * 1024 * 1024
            } else if n >= 1024 * 1024 * 1024 {
                1024nat * 1024 * 1024
            } else if n >= 1024 * 1024 {
                1024nat * 1024
            } else if n >= 1024 {
                1024nat
            } else {
                1nat
            };
            let name = if n >= 1024 * 1024 * 1024 * 1024 {
                "TB"@
            } else if n >= 1024 * 1024 * 1024 {
                "GB"@
            } else if n >= 1024 * 1024 {
                "MB"@
            } else if n >= 1024 {
                "KB"@
            } else {
                "B"@
            };
            let h = hundredths(n);
            &&& 2 * (h * unit) <= 200 * nearest_double(n) + unit
            &&& 200 * nearest_double(n) <= 2 * (h * unit) + unit
            &&& 2 * (h * unit) == 200 * nearest_double(n) + unit ==> h % 2 == 0
            &&& 200 * nearest_double(n) == 2 * (h * unit) + unit ==> h % 2 == 0
            &&& n < 0x20_0000_0000_0000 ==> nearest_double(n) == n
            &&& size_text(n) == number::decimal(h / 100) + "."@ + number::decimal(h % 100 / 10)
                + number::decimal(h % 10) + " "@ + name
        }),
{
    let h = hundredths(n);
    if n < 0x20_0000_0000_0000 {
        law_small_numbers_are_exact(n);
    }
    lemma_round_even_near(nearest_double(n) * 100, unit_size(n));
    assert(h / 10 % 10 == h % 100 / 10);
    let text = number::decimal(h / 100) + "."@ + number::decimal(h % 100 / 10) + number::decimal(
        h % 10,
    ) + " "@ + unit_name(n);
    assert(size_text(n) =~= text);
}

} // verus!
