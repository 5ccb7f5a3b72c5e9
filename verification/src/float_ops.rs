//! Arithmetic on IEEE 754 numbers that are carried as their bit patterns.
//!
//! A width is given by the number of its fraction bits, 23 for single and 52 for
//! double precision. The magnitude of a number is its pattern without the sign.
//! Every finite number is a whole number of units, the unit being the smallest
//! positive number of its width; sums are exact in units and then rounded once.
use vstd::arithmetic::div_mod::*;
use vstd::arithmetic::power2::*;
use vstd::prelude::*;

use crate::float_bits::{
    high_bit, lemma_high_bit, lemma_high_bit_unique, lemma_round_bounds, power_of_two,
    round_half_even, DOUBLE_INFINITY, DOUBLE_NAN, DOUBLE_SIGN, SINGLE_INFINITY, SINGLE_NAN,
    SINGLE_SIGN,
};

verus! {

/// The exponent of a magnitude, the smallest numbers sharing one.
pub open spec fn exponent(p: nat, magnitude: nat) -> nat {
    let field = magnitude / pow2(p);
    if field == 0 {
        1
    } else {
        field
    }
}

/// The significand of a magnitude, as an integer.
pub open spec fn significand(p: nat, magnitude: nat) -> nat {
    if magnitude / pow2(p) == 0 {
        magnitude % pow2(p)
    } else {
        pow2(p) + magnitude % pow2(p)
    }
}

/// The size of a number with this magnitude, in units.
pub open spec fn units(p: nat, magnitude: nat) -> nat {
    significand(p, magnitude) * pow2((exponent(p, magnitude) - 1) as nat)
}

/// The magnitude nearest to a number of units, ties to the even one.
pub open spec fn nearest(p: nat, n: nat) -> nat {
    if n < pow2(p + 1) {
        n
    } else {
        let k = high_bit(n);
        ((k - p) * pow2(p) + round_half_even(n as int, pow2((k - p) as nat) as int)) as nat
    }
}

/// Rounding does not depend on a common factor.
proof fn lemma_round_scaled(n: int, d: int, f: int)
    requires
        n >= 0,
        d > 0,
        f > 0,
    ensures
        round_half_even(n * f, d * f) == round_half_even(n, d),
{
    let q = n / d;
    let r = n % d;
    lemma_fundamental_div_mod(n, d);
    assert(n * f == q * (d * f) + r * f) by (nonlinear_arith)
        requires
            n == d * q + r,
    ;
    assert(0 <= r * f < d * f) by (nonlinear_arith)
        requires
            0 <= r < d,
            f > 0,
    ;
    lemma_fundamental_div_mod_converse(n * f, d * f, q, r * f);
    assert(d * f > 0) by (nonlinear_arith)
        requires
            d > 0,
            f > 0,
    ;
    assert(2 * (r * f) < d * f <==> 2 * r < d) by (nonlinear_arith)
        requires
            f > 0,
    ;
    assert(2 * (r * f) == d * f <==> 2 * r == d) by (nonlinear_arith)
        requires
            f > 0,
    ;
}

/// A number close to a multiple rounds to that multiple.
proof fn lemma_round_close(q: int, d: int, delta: int)
    requires
        d > 0,
        -d < 2 * delta < d,
    ensures
        round_half_even(q * d + delta, d) == q,
{
    let n = q * d + delta;
    if delta >= 0 {
        lemma_fundamental_div_mod_converse(n, d, q, delta);
    } else {
        assert(n == (q - 1) * d + (d + delta)) by (nonlinear_arith)
            requires
                n == q * d + delta,
        ;
        lemma_fundamental_div_mod_converse(n, d, q - 1, d + delta);
    }
}

proof fn lemma_high_bit_scaled(n: nat, t: nat)
    requires
        n > 0,
    ensures
        high_bit(n * pow2(t)) == high_bit(n) + t,
        n * pow2(t) > 0,
{
    let k = high_bit(n);
    lemma_high_bit(n);
    lemma_pow2_pos(t);
    lemma_pow2_adds(k, t);
    lemma_pow2_adds(k + 1, t);
    assert(pow2(k) * pow2(t) <= n * pow2(t) < pow2(k + 1) * pow2(t)) by (nonlinear_arith)
        requires
            pow2(k) <= n < pow2(k + 1),
            pow2(t) > 0,
    ;
    assert(pow2((k + t) + 1) == pow2((k + 1) + t));
    lemma_pow2_pos(k + t);
    lemma_high_bit_unique(n * pow2(t), k + t);
}

/// What the nearest magnitude of a scaled number is.
pub proof fn lemma_nearest_scaled(p: nat, n: nat, t: nat)
    requires
        n > 0,
    ensures
        ({
            let k = high_bit(n);
            &&& k + t <= p ==> nearest(p, n * pow2(t)) == n * pow2(t)
            &&& k + t > p && k <= p ==> nearest(p, n * pow2(t)) == (k + t - p) * pow2(p) + n
                * pow2((p - k) as nat)
            &&& k + t > p && k > p ==> nearest(p, n * pow2(t)) == (k + t - p) * pow2(p)
                + round_half_even(n as int, pow2((k - p) as nat) as int)
        }),
{
    let k = high_bit(n);
    let big = n * pow2(t);
    lemma_high_bit_scaled(n, t);
    lemma_high_bit(big);
    lemma_pow2_pos(t);
    if k + t <= p {
        if k + t < p {
            lemma_pow2_strictly_increases(k + t + 1, p + 1);
        }
    } else {
        if p + 1 < k + t {
            lemma_pow2_strictly_increases(p + 1, k + t);
        }
        assert(big >= pow2(p + 1));
        if k <= p {
            // big = (n * 2^(p-k)) * 2^(k+t-p)
            lemma_pow2_adds((p - k) as nat, (k + t - p) as nat);
            let q = n * pow2((p - k) as nat);
            let d = pow2((k + t - p) as nat);
            assert(big == q * d) by (nonlinear_arith)
                requires
                    big == n * pow2(t),
                    pow2(t) == pow2((p - k) as nat) * d,
                    q == n * pow2((p - k) as nat),
            ;
            lemma_pow2_pos((k + t - p) as nat);
            lemma_round_close(q as int, d as int, 0);
            lemma_pow2_pos(p);
            assert((k + t - p) * pow2(p) >= 0) by (nonlinear_arith)
                requires
                    k + t > p,
                    pow2(p) > 0,
            ;
        } else {
            lemma_pow2_adds((k - p) as nat, t);
            lemma_pow2_pos((k - p) as nat);
            lemma_round_scaled(n as int, pow2((k - p) as nat) as int, pow2(t) as int);
            lemma_pow2_pos(p);
            assert((k + t - p) * pow2(p) >= 0) by (nonlinear_arith)
                requires
                    k + t > p,
                    pow2(p) > 0,
            ;
            let d = pow2((k - p) as nat) as int;
            assert(n <= n * d) by (nonlinear_arith)
                requires
                    d >= 1,
                    n >= 0,
            ;
            lemma_round_bounds(n as int, d, 0, n as int);
        }
    }
}

/// A magnitude is put together from its exponent and significand.
pub proof fn lemma_magnitude_parts(p: nat, magnitude: nat)
    ensures
        exponent(p, magnitude) >= 1,
        significand(p, magnitude) < pow2(p + 1),
        exponent(p, magnitude) > 1 ==> significand(p, magnitude) >= pow2(p),
        magnitude == (exponent(p, magnitude) - 1) * pow2(p) + significand(p, magnitude),
{
    lemma_pow2_pos(p);
    lemma_pow2_unfold(p + 1);
    let f = pow2(p) as int;
    let field = magnitude as int / f;
    lemma_fundamental_div_mod(magnitude as int, f);
    assert(magnitude == field * f + magnitude as int % f) by (nonlinear_arith)
        requires
            magnitude == f * field + magnitude as int % f,
    ;
    assert((field - 1) * f + f == field * f) by (nonlinear_arith);
    assert(magnitude as int % f < f);
}

/// A number that is far smaller does not change the nearest magnitude.
proof fn lemma_far(p: nat, high: nat, low: nat, gap: nat, t: nat)
    requires
        pow2(p) <= high < pow2(p + 1),
        low < pow2(p + 1),
        gap >= p + 4,
    ensures
        nearest(p, (high * pow2(gap) + low) * pow2(t)) == (gap + t) * pow2(p) + high,
        high * pow2(gap) >= low,
        nearest(p, ((high * pow2(gap) - low) as nat) * pow2(t)) == (gap + t) * pow2(p) + high,
        high * pow2(gap) - low > 0,
{
    let g = pow2(gap);
    let h = pow2((gap - 1) as nat);
    lemma_pow2_unfold(gap);
    lemma_pow2_unfold((gap - 1) as nat);
    lemma_pow2_pos(p);
    lemma_pow2_pos(gap);
    lemma_pow2_unfold(p + 1);
    // low is less than a quarter of h
    lemma_pow2_unfold((gap - 2) as nat);
    lemma_pow2_unfold((gap - 3) as nat);
    if p + 1 < gap - 3 {
        lemma_pow2_strictly_increases(p + 1, (gap - 3) as nat);
    }
    assert(8 * low < g);
    lemma_pow2_adds(p, gap);
    lemma_pow2_adds(p + 1, gap);
    let sum = high * g + low;
    assert(pow2(p) * g <= high * g && (high + 1) * g <= pow2(p + 1) * g) by (nonlinear_arith)
        requires
            pow2(p) <= high < pow2(p + 1),
            g > 0,
    ;
    assert((high + 1) * g == high * g + g) by (nonlinear_arith);
    assert(pow2((p + gap) + 1) == pow2((p + 1) + gap));
    lemma_high_bit_unique(sum, p + gap);
    lemma_nearest_scaled(p, sum, t);
    lemma_round_close(high as int, g as int, low as int);
    assert(p + gap - p == gap);
    let diff = (high * g - low) as nat;
    assert(high * g >= g) by (nonlinear_arith)
        requires
            high >= 1,
    ;
    if high > pow2(p) {
        assert((pow2(p) + 1) * g <= high * g) by (nonlinear_arith)
            requires
                pow2(p) + 1 <= high,
                g > 0,
        ;
        assert((pow2(p) + 1) * g == pow2(p) * g + g) by (nonlinear_arith);
        lemma_high_bit_unique(diff, p + gap);
        lemma_nearest_scaled(p, diff, t);
        lemma_round_close(high as int, g as int, -(low as int));
    } else if low == 0 {
        assert(diff == sum);
    } else {
        let k = (p + gap - 1) as nat;
        lemma_pow2_unfold(p + gap);
        assert(pow2(k) <= diff < pow2(k + 1));
        lemma_high_bit_unique(diff, k);
        lemma_nearest_scaled(p, diff, t);
        assert(diff == (2 * high) * h - low) by (nonlinear_arith)
            requires
                diff == high * g - low,
                g == 2 * h,
        ;
        lemma_round_close((2 * high) as int, h as int, -(low as int));
        assert((k + t - p) * pow2(p) + 2 * high == (gap + t) * pow2(p) + high) by (nonlinear_arith)
            requires
                k == p + gap - 1,
                high == pow2(p),
        ;
    }
}

/// 2^k.
fn wide_power(k: u32) -> (r: u128)
    requires
        k < 127,
    ensures
        r == pow2(k as nat),
        r > 0,
        r <= 0x4000_0000_0000_0000_0000_0000_0000_0000,
{
    proof {
        lemma2_to64();
        lemma2_to64_rest();
        lemma_pow2_adds(63, 63);
        if k < 126 {
            lemma_pow2_strictly_increases(k as nat, 126);
        }
        lemma_pow2_pos(k as nat);
    }
    if k < 64 {
        power_of_two(k) as u128
    } else {
        proof {
            lemma_pow2_adds(63, (k - 63) as nat);
            lemma_pow2_strictly_increases((k - 63) as nat, 64);
            assert(pow2(63) * pow2((k - 63) as nat) == pow2(k as nat));
        }
        power_of_two(63) as u128 * power_of_two(k - 63) as u128
    }
}

/// Position of the highest bit.
fn wide_highest_bit(n: u128) -> (k: u32)
    requires
        n > 0,
    ensures
        k == high_bit(n as nat),
        k < 128,
{
    let mut m: u128 = n;
    let mut k: u32 = 0;
    proof {
        lemma2_to64();
        lemma_pow2_adds(64, 64);
        lemma_high_bit(n as nat);
        if high_bit(n as nat) >= 128 {
            if high_bit(n as nat) > 128 {
                lemma_pow2_strictly_increases(128, high_bit(n as nat));
            }
        }
    }
    while m > 1
        invariant
            m > 0,
            high_bit(n as nat) == k + high_bit(m as nat),
            high_bit(n as nat) < 128,
        decreases m,
    {
        m = m / 2;
        k += 1;
    }
    k
}

fn wide_rounded_quotient(n: u128, d: u128) -> (r: u128)
    requires
        2 <= d <= 0x4000_0000_0000_0000_0000_0000_0000_0000,
    ensures
        r == round_half_even(n as int, d as int),
{
    let q: u128 = n / d;
    let r: u128 = n % d;
    let rest: u128 = d - r;
    if r < rest || (r == rest && q % 2 == 0) {
        q
    } else {
        assert(2 * q <= n) by (nonlinear_arith)
            requires
                q == n as int / d as int,
                d >= 2,
                n >= 0,
        ;
        q + 1
    }
}

/// The nearest magnitude of `n` times 2^t, no more than `limit`.
fn nearest_scaled(p: u32, n: u128, t: u32, limit: u64) -> (r: u64)
    requires
        p <= 52,
        0 < n,
        high_bit(n as nat) <= 125,
        t <= 2100,
        limit < 0x7FFF_FFFF_FFFF_FFFF,
    ensures
        r == (if nearest(p as nat, n as nat * pow2(t as nat)) < limit {
            nearest(p as nat, n as nat * pow2(t as nat)) as int
        } else {
            limit as int
        }),
{
    let k: u32 = wide_highest_bit(n);
    proof {
        lemma_nearest_scaled(p as nat, n as nat, t as nat);
        lemma_high_bit(n as nat);
        lemma_high_bit_scaled(n as nat, t as nat);
        lemma2_to64();
        lemma2_to64_rest();
        lemma_pow2_pos(p as nat);
        if p < 52 {
            lemma_pow2_strictly_increases(p as nat, 52);
        }
    }
    let magnitude: u128 = if k + t <= p {
        proof {
            lemma_high_bit(n as nat * pow2(t as nat));
            if k + t + 1 < 63 {
                lemma_pow2_strictly_increases((k + t + 1) as nat, 63);
            }
            if t < 52 {
                lemma_pow2_strictly_increases(t as nat, 52);
            }
        }
        n * wide_power(t)
    } else {
        let step: u128 = (k + t - p) as u128;
        let fraction: u128 = wide_power(p);
        assert(step * fraction <= 2300 * 0x10_0000_0000_0000) by (nonlinear_arith)
            requires
                step <= 2300,
                fraction <= 0x10_0000_0000_0000,
        ;
        if k <= p {
            proof {
                lemma_pow2_adds((p - k) as nat, (k + 1) as nat);
                lemma_pow2_unfold((p + 1) as nat);
                lemma_pow2_pos((p - k) as nat);
                assert(n * pow2((p - k) as nat) < pow2((k + 1) as nat) * pow2((p - k) as nat))
                    by (nonlinear_arith)
                    requires
                        n < pow2((k + 1) as nat),
                        pow2((p - k) as nat) > 0,
                ;
            }
            step * fraction + n * wide_power(p - k)
        } else {
            proof {
                lemma_pow2_strictly_increases(0, (k - p) as nat);
                let d = pow2((k - p) as nat) as int;
                lemma_pow2_adds((p + 1) as nat, (k - p) as nat);
                lemma_pow2_unfold((p + 1) as nat);
                assert(n <= pow2((p + 1) as nat) * d);
                lemma_round_bounds(n as int, d, 0, pow2((p + 1) as nat) as int);
            }
            step * fraction + wide_rounded_quotient(n, wide_power(k - p))
        }
    };
    if magnitude < limit as u128 {
        magnitude as u64
    } else {
        limit
    }
}

/// A finite number in units, with its sign.
pub open spec fn signed_units(p: nat, negative: bool, magnitude: nat) -> int {
    if negative {
        -(units(p, magnitude) as int)
    } else {
        units(p, magnitude) as int
    }
}

/// The absolute value of an integer.
pub open spec fn absolute(v: int) -> nat {
    if v < 0 {
        (-v) as nat
    } else {
        v as nat
    }
}

/// Sign and magnitude of the sum of two finite numbers, `limit` being the magnitude
/// of infinity: the exact sum, rounded once. Numbers that cancel out give a
/// positive zero; two negative zeros a negative one.
pub open spec fn finite_sum(
    p: nat,
    limit: nat,
    a_negative: bool,
    a: nat,
    b_negative: bool,
    b: nat,
) -> (bool, nat) {
    let v = signed_units(p, a_negative, a) + signed_units(p, b_negative, b);
    let magnitude = nearest(p, absolute(v));
    (
        if v == 0 {
            a_negative && b_negative
        } else {
            v < 0
        },
        if magnitude < limit {
            magnitude
        } else {
            limit
        },
    )
}

proof fn lemma_units_aligned(p: nat, magnitude: nat, t: nat)
    requires
        t < exponent(p, magnitude),
    ensures
        units(p, magnitude) == (significand(p, magnitude) * pow2(
            (exponent(p, magnitude) - 1 - t) as nat,
        )) * pow2(t),
{
    let d = (exponent(p, magnitude) - 1 - t) as nat;
    let m = significand(p, magnitude);
    lemma_pow2_adds(d, t);
    assert(m * (pow2(d) * pow2(t)) == (m * pow2(d)) * pow2(t)) by (nonlinear_arith);
}

/// The exact sum in aligned significands: `x` and `y` times 2^t.
proof fn lemma_exact_sum(
    p: nat,
    a_negative: bool,
    a: nat,
    b_negative: bool,
    b: nat,
    x: nat,
    y: nat,
    scale: nat,
)
    requires
        units(p, a) == x * scale,
        units(p, b) == y * scale,
        scale > 0,
    ensures
        ({
            let v = signed_units(p, a_negative, a) + signed_units(p, b_negative, b);
            &&& a_negative == b_negative ==> absolute(v) == (x + y) * scale && (v == 0 <==> x + y
                == 0) && (v < 0 <==> a_negative && x + y > 0)
            &&& a_negative != b_negative && x >= y ==> absolute(v) == (x - y) * scale && (v == 0
                <==> x == y) && (v < 0 <==> a_negative && x > y)
            &&& a_negative != b_negative && y > x ==> absolute(v) == (y - x) * scale && v != 0 && (v
                < 0 <==> b_negative)
        }),
{
    assert(x * scale + y * scale == (x + y) * scale) by (nonlinear_arith);
    assert(x * scale - y * scale == (x - y) * scale) by (nonlinear_arith);
    assert(y * scale - x * scale == (y - x) * scale) by (nonlinear_arith);
    assert(x + y > 0 ==> (x + y) * scale > 0) by (nonlinear_arith)
        requires
            scale > 0,
    ;
    assert(x > y ==> (x - y) * scale > 0) by (nonlinear_arith)
        requires
            scale > 0,
    ;
    assert(y > x ==> (y - x) * scale > 0) by (nonlinear_arith)
        requires
            scale > 0,
    ;
    assert(x + y == 0 ==> (x + y) * scale == 0) by (nonlinear_arith);
    assert(x == y ==> (x - y) * scale == 0) by (nonlinear_arith);
}

/// Exponent and significand of a magnitude.
fn parts_of(p: u32, magnitude: u64) -> (r: (u32, u64))
    requires
        1 <= p <= 52,
        magnitude < 2048 * pow2(p as nat),
    ensures
        r.0 == exponent(p as nat, magnitude as nat),
        r.1 == significand(p as nat, magnitude as nat),
        1 <= r.0 < 2048,
        r.1 < 0x20_0000_0000_0000,
{
    let ghost pp = p as nat;
    proof {
        lemma_magnitude_parts(pp, magnitude as nat);
        lemma2_to64();
        lemma2_to64_rest();
        lemma_pow2_pos(pp);
        lemma_pow2_unfold(pp + 1);
        if p < 52 {
            lemma_pow2_strictly_increases(pp, 52);
        }
        assert(magnitude as int / pow2(pp) as int <= 2047) by (nonlinear_arith)
            requires
                0 <= magnitude < 2048 * pow2(pp),
                pow2(pp) > 0,
        ;
    }
    let fraction: u64 = power_of_two(p);
    let field: u64 = magnitude / fraction;
    if field == 0 {
        (1, magnitude % fraction)
    } else {
        (field as u32, fraction + magnitude % fraction)
    }
}

proof fn lemma_aligned_bound(m: nat, gap: nat)
    requires
        m < 0x20_0000_0000_0000,
        gap <= 64,
    ensures
        m * pow2(gap) < pow2(118),
        m * pow2(gap) + 0x20_0000_0000_0000 < pow2(119),
        pow2(119) < pow2(125),
        pow2(125) < 0x4000_0000_0000_0000_0000_0000_0000_0000,
{
    lemma2_to64();
    lemma2_to64_rest();
    lemma_pow2_adds(53, 64);
    lemma_pow2_adds(62, 63);
    lemma_pow2_unfold(118);
    lemma_pow2_unfold(119);
    lemma_pow2_strictly_increases(119, 125);
    lemma_pow2_strictly_increases(53, 118);
    lemma_pow2_pos(gap);
    if gap < 64 {
        lemma_pow2_strictly_increases(gap, 64);
    }
    assert(m * pow2(gap) <= 0x20_0000_0000_0000 * pow2(64)) by (nonlinear_arith)
        requires
            m < 0x20_0000_0000_0000,
            0 < pow2(gap) <= pow2(64),
    ;
}

/// The sum of two numbers with aligned significands, up to the common scale.
fn add_aligned(a_negative: bool, x: u128, b_negative: bool, y: u128) -> (r: (bool, u128))
    requires
        x + y < 0x4000_0000_0000_0000_0000_0000_0000_0000,
    ensures
        a_negative == b_negative ==> r == (a_negative, (x + y) as u128),
        a_negative != b_negative && x >= y ==> r == (a_negative, (x - y) as u128),
        a_negative != b_negative && y > x ==> r == (b_negative, (y - x) as u128),
{
    if a_negative == b_negative {
        (a_negative, x + y)
    } else if x >= y {
        (a_negative, x - y)
    } else {
        (b_negative, y - x)
    }
}

/// The sum where the first number has the larger exponent.
#[verifier::rlimit(40)]
fn add_ordered(
    p: u32,
    limit: u64,
    a_negative: bool,
    a: u64,
    b_negative: bool,
    b: u64,
) -> (r: (bool, u64))
    requires
        1 <= p <= 52,
        a < limit < 0x7FFF_FFFF_FFFF_FFFF,
        b < limit,
        limit <= 2048 * pow2(p as nat),
        exponent(p as nat, a as nat) >= exponent(p as nat, b as nat),
    ensures
        (r.0, r.1 as nat) == finite_sum(
            p as nat,
            limit as nat,
            a_negative,
            a as nat,
            b_negative,
            b as nat,
        ),
{
    let ghost pp = p as nat;
    let (a_exponent, a_significand) = parts_of(p, a);
    let (b_exponent, b_significand) = parts_of(p, b);
    let gap: u32 = a_exponent - b_exponent;
    let t: u32 = b_exponent - 1;
    let ghost scale = pow2(t as nat);
    let ghost x = (a_significand * pow2(gap as nat)) as nat;
    let ghost y = b_significand as nat;
    proof {
        lemma_units_aligned(pp, a as nat, t as nat);
        lemma_units_aligned(pp, b as nat, t as nat);
        lemma2_to64();
        assert(b_significand * pow2(0) == b_significand) by (nonlinear_arith)
            requires
                pow2(0) == 1,
        ;
        lemma_pow2_pos(t as nat);
        lemma_pow2_pos(gap as nat);
        lemma_exact_sum(pp, a_negative, a as nat, b_negative, b as nat, x, y, scale);
    }
    if gap > 64 {
        proof {
            lemma_far_sum(pp, a as nat, b as nat, gap as nat, t as nat);
        }
        return (a_negative, a);
    }
    proof {
        lemma_aligned_bound(a_significand as nat, gap as nat);
    }
    let wide: u128 = a_significand as u128 * wide_power(gap);
    let (negative, total) = add_aligned(a_negative, wide, b_negative, b_significand as u128);
    if total == 0 {
        proof {
            lemma_pow2_pos(pp + 1);
            assert(0nat * scale == 0) by (nonlinear_arith);
        }
        return (a_negative && b_negative, 0);
    }
    proof {
        lemma_high_bit(total as nat);
        if high_bit(total as nat) > 125 {
            lemma_pow2_strictly_increases(125, high_bit(total as nat));
        }
    }
    (negative, nearest_scaled(p, total, t, limit))
}

/// A number that is far smaller does not change the sum.
proof fn lemma_far_sum(p: nat, a: nat, b: nat, gap: nat, t: nat)
    requires
        1 <= p <= 52,
        gap > 64,
        exponent(p, a) == exponent(p, b) + gap,
        t == exponent(p, b) - 1,
    ensures
        ({
            let x = (significand(p, a) * pow2(gap)) as nat;
            let y = significand(p, b);
            &&& nearest(p, (x + y) * pow2(t)) == a
            &&& x > y
            &&& nearest(p, ((x - y) as nat) * pow2(t)) == a
        }),
{
    lemma_magnitude_parts(p, a);
    lemma_magnitude_parts(p, b);
    lemma_far(p, significand(p, a), significand(p, b), gap, t);
}

/// The sum of two finite numbers.
fn add_finite(
    p: u32,
    limit: u64,
    a_negative: bool,
    a: u64,
    b_negative: bool,
    b: u64,
) -> (r: (bool, u64))
    requires
        1 <= p <= 52,
        a < limit < 0x7FFF_FFFF_FFFF_FFFF,
        b < limit,
        limit <= 2048 * pow2(p as nat),
    ensures
        (r.0, r.1 as nat) == finite_sum(
            p as nat,
            limit as nat,
            a_negative,
            a as nat,
            b_negative,
            b as nat,
        ),
{
    let fraction: u64 = {
        proof {
            lemma2_to64();
        }
        power_of_two(p)
    };
    if a / fraction >= b / fraction {
        add_ordered(p, limit, a_negative, a, b_negative, b)
    } else {
        add_ordered(p, limit, b_negative, b, a_negative, a)
    }
}

/// The sum of two double-precision numbers.
pub open spec fn double_sum(a: u64, b: u64) -> u64 {
    let x = a % DOUBLE_SIGN;
    let y = b % DOUBLE_SIGN;
    let a_negative = a >= DOUBLE_SIGN;
    let b_negative = b >= DOUBLE_SIGN;
    if x > DOUBLE_INFINITY || y > DOUBLE_INFINITY {
        DOUBLE_NAN
    } else if x == DOUBLE_INFINITY {
        if y == DOUBLE_INFINITY && a_negative != b_negative {
            DOUBLE_NAN
        } else {
            a
        }
    } else if y == DOUBLE_INFINITY {
        b
    } else {
        let (negative, magnitude) = finite_sum(
            52,
            DOUBLE_INFINITY as nat,
            a_negative,
            x as nat,
            b_negative,
            y as nat,
        );
        if negative {
            (DOUBLE_SIGN + magnitude) as u64
        } else {
            magnitude as u64
        }
    }
}

/// Adds two double-precision numbers.
pub fn add_doubles(a: u64, b: u64) -> (r: u64)
    ensures
        r == double_sum(a, b),
{
    let x: u64 = a % DOUBLE_SIGN;
    let y: u64 = b % DOUBLE_SIGN;
    let a_negative = a >= DOUBLE_SIGN;
    let b_negative = b >= DOUBLE_SIGN;
    if x > DOUBLE_INFINITY || y > DOUBLE_INFINITY {
        return DOUBLE_NAN;
    }
    if x == DOUBLE_INFINITY {
        return if y == DOUBLE_INFINITY && a_negative != b_negative {
            DOUBLE_NAN
        } else {
            a
        };
    }
    if y == DOUBLE_INFINITY {
        return b;
    }
    proof {
        lemma2_to64();
        lemma2_to64_rest();
    }
    let (negative, magnitude) = add_finite(52, DOUBLE_INFINITY, a_negative, x, b_negative, y);
    if negative {
        DOUBLE_SIGN + magnitude
    } else {
        magnitude
    }
}

/// The number with the other sign.
pub open spec fn double_negated(a: u64) -> u64 {
    if a >= DOUBLE_SIGN {
        (a - DOUBLE_SIGN) as u64
    } else {
        (a + DOUBLE_SIGN) as u64
    }
}

/// The difference of two double-precision numbers.
pub open spec fn double_difference(a: u64, b: u64) -> u64 {
    double_sum(a, double_negated(b))
}

/// Subtracts a double-precision number from another.
pub fn subtract_doubles(a: u64, b: u64) -> (r: u64)
    ensures
        r == double_difference(a, b),
{
    let negated: u64 = if b >= DOUBLE_SIGN {
        b - DOUBLE_SIGN
    } else {
        b + DOUBLE_SIGN
    };
    add_doubles(a, negated)
}

/// The sum of two single-precision numbers.
pub open spec fn single_sum(a: u32, b: u32) -> u32 {
    let x = a % SINGLE_SIGN;
    let y = b % SINGLE_SIGN;
    let a_negative = a >= SINGLE_SIGN;
    let b_negative = b >= SINGLE_SIGN;
    if x > SINGLE_INFINITY || y > SINGLE_INFINITY {
        SINGLE_NAN
    } else if x == SINGLE_INFINITY {
        if y == SINGLE_INFINITY && a_negative != b_negative {
            SINGLE_NAN
        } else {
            a
        }
    } else if y == SINGLE_INFINITY {
        b
    } else {
        let (negative, magnitude) = finite_sum(
            23,
            SINGLE_INFINITY as nat,
            a_negative,
            x as nat,
            b_negative,
            y as nat,
        );
        if negative {
            (SINGLE_SIGN + magnitude) as u32
        } else {
            magnitude as u32
        }
    }
}

/// Adds two single-precision numbers.
pub fn add_singles(a: u32, b: u32) -> (r: u32)
    ensures
        r == single_sum(a, b),
{
    let x: u32 = a % SINGLE_SIGN;
    let y: u32 = b % SINGLE_SIGN;
    let a_negative = a >= SINGLE_SIGN;
    let b_negative = b >= SINGLE_SIGN;
    if x > SINGLE_INFINITY || y > SINGLE_INFINITY {
        return SINGLE_NAN;
    }
    if x == SINGLE_INFINITY {
        return if y == SINGLE_INFINITY && a_negative != b_negative {
            SINGLE_NAN
        } else {
            a
        };
    }
    if y == SINGLE_INFINITY {
        return b;
    }
    proof {
        lemma2_to64();
    }
    let (negative, magnitude) = add_finite(
        23,
        SINGLE_INFINITY as u64,
        a_negative,
        x as u64,
        b_negative,
        y as u64,
    );
    if negative {
        SINGLE_SIGN + magnitude as u32
    } else {
        magnitude as u32
    }
}

/// Half of a double-precision number.
pub open spec fn double_halved(a: u64) -> u64 {
    let x = a % DOUBLE_SIGN;
    let sign = (a - x) as u64;
    if x > DOUBLE_INFINITY {
        DOUBLE_NAN
    } else if x == DOUBLE_INFINITY {
        a
    } else if x >= 0x20_0000_0000_0000 {
        (a - 0x10_0000_0000_0000) as u64
    } else {
        (sign + round_half_even(x as int, 2)) as u64
    }
}

/// Halves a double-precision number.
pub fn halve_double(a: u64) -> (r: u64)
    ensures
        r == double_halved(a),
{
    let x: u64 = a % DOUBLE_SIGN;
    let sign: u64 = a - x;
    if x > DOUBLE_INFINITY {
        DOUBLE_NAN
    } else if x == DOUBLE_INFINITY {
        a
    } else if x >= 0x20_0000_0000_0000 {
        a - 0x10_0000_0000_0000
    } else {
        sign + crate::float_bits::rounded_quotient(x, 2)
    }
}

/// A half is half: in units, but for the smallest numbers, of which halves need not
/// exist.
pub proof fn lemma_half_is_half(a: u64)
    requires
        0x20_0000_0000_0000 <= a < DOUBLE_INFINITY,
    ensures
        2 * units(52, double_halved(a) as nat) == units(52, a as nat),
{
    lemma2_to64();
    lemma2_to64_rest();
    let h = double_halved(a) as nat;
    let e = exponent(52, a as nat);
    assert(e >= 2);
    assert(exponent(52, h) == e - 1);
    assert(significand(52, h) == significand(52, a as nat));
    lemma_pow2_unfold((e - 1) as nat);
    let m = significand(52, h);
    let f = pow2((e - 2) as nat);
    assert(2 * (m * f) == m * (2 * f)) by (nonlinear_arith);
}

/// `n / d` rounded to the nearest integer, a tie to the larger one.
pub open spec fn round_half_up(n: nat, d: nat) -> nat
    recommends
        d > 0,
{
    ((2 * n + d) / (2 * d)) as nat
}

/// A double-precision number rounded to the nearest integer, ties away from zero,
/// as far as 32 bits hold it; 0 for what is no number.
pub open spec fn nearest_i32(a: u64) -> i32 {
    let x = a % DOUBLE_SIGN;
    let n = round_half_up(units(52, x as nat), pow2(1074));
    if x > DOUBLE_INFINITY {
        0
    } else if a >= DOUBLE_SIGN {
        if x == DOUBLE_INFINITY || n > 0x8000_0000 {
            i32::MIN
        } else {
            (-(n as int)) as i32
        }
    } else {
        if x == DOUBLE_INFINITY || n > 0x7FFF_FFFF {
            i32::MAX
        } else {
            n as i32
        }
    }
}

pub proof fn lemma_round_up_scaled(n: nat, d: nat, f: nat)
    requires
        d > 0,
        f > 0,
    ensures
        round_half_up(n * f, d * f) == round_half_up(n, d),
{
    let top = (2 * n + d) as int;
    let bottom = (2 * d) as int;
    let q = top / bottom;
    let r = top % bottom;
    lemma_fundamental_div_mod(top, bottom);
    assert((2 * (n * f) + d * f) == q * (2 * (d * f)) + r * f) by (nonlinear_arith)
        requires
            2 * n + d == 2 * d * q + r,
    ;
    assert(0 <= r * f < 2 * (d * f)) by (nonlinear_arith)
        requires
            0 <= r < 2 * d,
            f > 0,
    ;
    lemma_fundamental_div_mod_converse(
        (2 * (n * f) + d * f) as int,
        (2 * (d * f)) as int,
        q,
        r * f,
    );
}

/// The integer nearest to a magnitude: worked out from the significand where that
/// fits, and known to be small or large elsewhere.
proof fn lemma_nearest_integer(magnitude: nat)
    requires
        magnitude < DOUBLE_INFINITY,
    ensures
        ({
            let e = exponent(52, magnitude);
            let m = significand(52, magnitude);
            let n = round_half_up(units(52, magnitude), pow2(1074));
            &&& e < 1022 ==> n == 0
            &&& 1022 <= e <= 1053 ==> n == round_half_up(m, pow2((1075 - e) as nat)) && n
                <= 0x8000_0000
            &&& e > 1053 ==> n >= 0x8000_0000
        }),
{
    let e = exponent(52, magnitude);
    let m = significand(52, magnitude);
    lemma_magnitude_parts(52, magnitude);
    lemma2_to64();
    lemma2_to64_rest();
    lemma_pow2_pos((e - 1) as nat);
    if e <= 1053 {
        let d = pow2((1075 - e) as nat);
        lemma_pow2_pos((1075 - e) as nat);
        lemma_pow2_adds((1075 - e) as nat, (e - 1) as nat);
        lemma_round_up_scaled(m, d, pow2((e - 1) as nat));
        if e < 1022 {
            if 1075 - e > 54 {
                lemma_pow2_strictly_increases(54, (1075 - e) as nat);
            }
            assert((2 * m + d) / (2 * d) == 0) by (nonlinear_arith)
                requires
                    0 <= 2 * m < d,
            ;
        } else {
            // d is at least 2^22 and m below 2^53
            if 1075 - e > 22 {
                lemma_pow2_strictly_increases(22, (1075 - e) as nat);
            }
            assert((2 * m + d) / (2 * d) <= 0x8000_0000) by (nonlinear_arith)
                requires
                    0 <= m < 0x20_0000_0000_0000,
                    d >= 0x40_0000,
            ;
        }
    } else {
        let u = units(52, magnitude);
        let d = pow2(1074);
        lemma_pow2_pos(1074);
        // m is at least 2^52, so that u is at least 2^31 * 2^1074
        lemma_pow2_adds(52, (e - 1) as nat);
        lemma_pow2_adds(31, 1074);
        if 1105 < 52 + e - 1 {
            lemma_pow2_strictly_increases(1105, (52 + e - 1) as nat);
        }
        assert(m * pow2((e - 1) as nat) >= pow2(52) * pow2((e - 1) as nat)) by (nonlinear_arith)
            requires
                m >= pow2(52),
        ;
        assert(u >= 0x8000_0000 * d);
        assert((2 * u + d) / (2 * d) >= 0x8000_0000) by (nonlinear_arith)
            requires
                u >= 0x8000_0000 * d,
                d > 0,
        ;
    }
}

/// Rounds a double-precision number to the nearest integer that 32 bits hold.
pub fn round_to_i32(a: u64) -> (r: i32)
    ensures
        r == nearest_i32(a),
{
    let x: u64 = a % DOUBLE_SIGN;
    let negative = a >= DOUBLE_SIGN;
    if x > DOUBLE_INFINITY {
        return 0;
    }
    if x == DOUBLE_INFINITY {
        return if negative {
            i32::MIN
        } else {
            i32::MAX
        };
    }
    proof {
        lemma_nearest_integer(x as nat);
        lemma2_to64();
        lemma2_to64_rest();
    }
    let (e, m) = parts_of(52, x);
    if e < 1022 {
        return 0;
    }
    if e > 1053 {
        return if negative {
            i32::MIN
        } else {
            i32::MAX
        };
    }
    let d: u64 = power_of_two(1075 - e);
    proof {
        if 1075 - e < 53 {
            lemma_pow2_strictly_increases((1075 - e) as nat, 53);
        }
    }
    let n: u64 = (2 * m + d) / (2 * d);
    if negative {
        if n > 0x8000_0000 {
            i32::MIN
        } else {
            (-(n as i64)) as i32
        }
    } else if n > 0x7FFF_FFFF {
        i32::MAX
    } else {
        n as i32
    }
}

} // verus!
