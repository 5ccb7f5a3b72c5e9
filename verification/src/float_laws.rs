//! What the arithmetic on bit patterns means: patterns are ordered as the numbers
//! that they encode, and sums are exact up to one rounding.
use vstd::arithmetic::div_mod::*;
use vstd::arithmetic::power2::*;
use vstd::prelude::*;

use crate::float_bits::{
    double_finite, double_is_nan, double_rank, high_bit, lemma_high_bit, lemma_high_bit_unique,
    lemma_natural_as_double, lemma_round_bounds, natural_as_double, round_half_even, single_finite,
    single_is_nan, single_rank, DOUBLE_INFINITY, DOUBLE_SIGN, SINGLE_INFINITY, SINGLE_SIGN,
};
use crate::float_ops::{
    absolute, double_difference, double_halved, double_negated, double_sum, exponent, finite_sum,
    lemma_half_is_half, lemma_magnitude_parts, lemma_nearest_scaled, nearest, nearest_i32,
    signed_units, significand, single_sum, units,
};
use crate::window::sidebar::integer_as_double;

verus! {

/// The number that a finite double-precision pattern encodes, in units.
pub open spec fn double_units(x: u64) -> int {
    signed_units(52, x >= DOUBLE_SIGN, (x % DOUBLE_SIGN) as nat)
}

/// A number that exists in a width is the nearest one to itself.
pub proof fn lemma_nearest_of_units(p: nat, magnitude: nat)
    ensures
        nearest(p, units(p, magnitude)) == magnitude,
{
    let m = significand(p, magnitude);
    let t = (exponent(p, magnitude) - 1) as nat;
    lemma_magnitude_parts(p, magnitude);
    lemma2_to64();
    lemma_pow2_pos(p);
    if t == 0 {
        assert(m * pow2(0) == m) by (nonlinear_arith)
            requires
                pow2(0) == 1,
        ;
    } else {
        lemma_high_bit_unique(m, p);
        lemma_nearest_scaled(p, m, t);
        assert(m * pow2(0) == m) by (nonlinear_arith)
            requires
                pow2(0) == 1,
        ;
        assert((p - p) as nat == 0);
        assert(p + t - p == t);
        assert(nearest(p, m * pow2(t)) == t * pow2(p) + m);
    }
}

proof fn lemma_round_monotone(a: int, b: int, d: int)
    requires
        d > 0,
        a <= b,
    ensures
        round_half_even(a, d) <= round_half_even(b, d),
{
    lemma_fundamental_div_mod(a, d);
    lemma_fundamental_div_mod(b, d);
    lemma_div_is_ordered(a, b, d);
}

/// A larger number has no smaller nearest magnitude.
pub proof fn lemma_nearest_monotone(p: nat, a: nat, b: nat)
    requires
        a <= b,
    ensures
        nearest(p, a) <= nearest(p, b),
{
    lemma_pow2_pos(p);
    lemma_pow2_unfold(p + 1);
    if b >= pow2(p + 1) {
        let k = high_bit(b);
        lemma_nearest_range(p, b);
        if a >= pow2(p + 1) {
            let j = high_bit(a);
            lemma_nearest_range(p, a);
            lemma_high_bit(a);
            lemma_high_bit(b);
            if j > k {
                if k + 1 < j {
                    lemma_pow2_strictly_increases(k + 1, j);
                }
            }
            if j == k {
                lemma_pow2_pos((k - p) as nat);
                lemma_round_monotone(a as int, b as int, pow2((k - p) as nat) as int);
            } else {
                assert((j - p + 2) * pow2(p) <= (k - p + 1) * pow2(p)) by (nonlinear_arith)
                    requires
                        j + 1 <= k,
                        pow2(p) > 0,
                ;
            }
        } else {
            assert((k - p + 1) * pow2(p) >= 2 * pow2(p)) by (nonlinear_arith)
                requires
                    k > p,
                    pow2(p) > 0,
            ;
        }
    }
}

proof fn lemma_nearest_range(p: nat, n: nat)
    requires
        n >= pow2(p + 1),
    ensures
        high_bit(n) > p,
        (high_bit(n) - p + 1) * pow2(p) <= nearest(p, n) <= (high_bit(n) - p + 2) * pow2(p),
        nearest(p, n) == (high_bit(n) - p) * pow2(p) + round_half_even(
            n as int,
            pow2((high_bit(n) - p) as nat) as int,
        ),
{
    let k = high_bit(n);
    lemma_pow2_pos(p + 1);
    lemma_pow2_pos(p);
    lemma_high_bit(n);
    if k <= p {
        if k < p {
            lemma_pow2_strictly_increases(k + 1, p + 1);
        }
    }
    let d = pow2((k - p) as nat) as int;
    lemma_pow2_pos((k - p) as nat);
    lemma_pow2_adds(p, (k - p) as nat);
    lemma_pow2_adds(p + 1, (k - p) as nat);
    lemma_pow2_unfold(p + 1);
    lemma_round_bounds(n as int, d, pow2(p) as int, pow2(p + 1) as int);
    assert((k - p + 1) * pow2(p) == (k - p) * pow2(p) + pow2(p)) by (nonlinear_arith);
    assert((k - p + 2) * pow2(p) == (k - p) * pow2(p) + 2 * pow2(p)) by (nonlinear_arith);
    assert((k - p) * pow2(p) >= 0) by (nonlinear_arith)
        requires
            k > p,
    ;
}

proof fn lemma_units_ordered(p: nat, a: nat, b: nat)
    ensures
        a <= b <==> units(p, a) <= units(p, b),
{
    lemma_nearest_of_units(p, a);
    lemma_nearest_of_units(p, b);
    if units(p, a) <= units(p, b) {
        lemma_nearest_monotone(p, units(p, a), units(p, b));
    }
    if units(p, b) <= units(p, a) {
        lemma_nearest_monotone(p, units(p, b), units(p, a));
    }
}

proof fn lemma_no_units(p: nat, a: nat)
    ensures
        units(p, a) == 0 <==> a == 0,
{
    lemma_pow2_pos(p);
    lemma2_to64();
    assert(0nat / pow2(p) == 0 && 0nat % pow2(p) == 0) by (nonlinear_arith)
        requires
            pow2(p) > 0,
    ;
    assert(units(p, 0) == 0) by (nonlinear_arith)
        requires
            units(p, 0) == 0 * pow2(0),
    ;
    lemma_nearest_of_units(p, a);
    lemma_nearest_of_units(p, 0);
}

/// Finite patterns are ordered as the numbers that they encode.
pub proof fn lemma_rank_orders_numbers(a: u64, b: u64)
    ensures
        double_rank(a) <= double_rank(b) <==> double_units(a) <= double_units(b),
{
    let x = (a % DOUBLE_SIGN) as nat;
    let y = (b % DOUBLE_SIGN) as nat;
    lemma_units_ordered(52, x, y);
    lemma_units_ordered(52, y, x);
    lemma_no_units(52, x);
    lemma_no_units(52, y);
}

/// A sum is the exact one, rounded: no number lies between the two, and where the
/// exact sum is a number, it is the sum.
pub proof fn lemma_sum_is_rounded(a: u64, b: u64, c: u64)
    requires
        double_finite(a),
        double_finite(b),
        double_finite(c),
    ensures
        !double_is_nan(double_sum(a, b)),
        double_units(a) + double_units(b) <= double_units(c) ==> double_rank(double_sum(a, b))
            <= double_rank(c),
        double_units(a) + double_units(b) >= double_units(c) ==> double_rank(double_sum(a, b))
            >= double_rank(c),
        double_units(a) + double_units(b) == double_units(c) ==> double_finite(double_sum(a, b))
            && double_units(double_sum(a, b)) == double_units(c),
{
    let v = double_units(a) + double_units(b);
    let z = (c % DOUBLE_SIGN) as nat;
    let n = nearest(52, absolute(v));
    let r = double_sum(a, b);
    lemma_nearest_of_units(52, z);
    lemma_no_units(52, z);
    lemma_pow2_pos(53);
    assert(nearest(52, 0) == 0);
    if absolute(v) <= units(52, z) {
        lemma_nearest_monotone(52, absolute(v), units(52, z));
    }
    if absolute(v) >= units(52, z) {
        lemma_nearest_monotone(52, units(52, z), absolute(v));
    }
    let magnitude = if n < DOUBLE_INFINITY {
        n
    } else {
        DOUBLE_INFINITY as nat
    };
    let negative = finite_sum(
        52,
        DOUBLE_INFINITY as nat,
        a >= DOUBLE_SIGN,
        (a % DOUBLE_SIGN) as nat,
        b >= DOUBLE_SIGN,
        (b % DOUBLE_SIGN) as nat,
    ).0;
    assert(r == (if negative {
        (DOUBLE_SIGN + magnitude) as u64
    } else {
        magnitude as u64
    }));
    assert(r % DOUBLE_SIGN == magnitude);
    assert(double_rank(r) == (if negative {
        -(magnitude as int)
    } else {
        magnitude as int
    }));
    if v == double_units(c) {
        assert(absolute(v) == units(52, z));
    }
}

/// The other sign gives the number with the other sign.
pub proof fn lemma_negated(a: u64)
    ensures
        double_units(double_negated(a)) == -double_units(a),
        double_finite(double_negated(a)) == double_finite(a),
        double_is_nan(double_negated(a)) == double_is_nan(a),
        double_negated(double_negated(a)) == a,
{
}

/// The order of the terms does not matter.
pub proof fn lemma_sum_commutes(a: u64, b: u64)
    ensures
        double_sum(a, b) == double_sum(b, a),
{
}

/// A difference is the exact one, rounded.
pub proof fn lemma_difference_is_rounded(a: u64, b: u64, c: u64)
    requires
        double_finite(a),
        double_finite(b),
        double_finite(c),
    ensures
        !double_is_nan(double_difference(a, b)),
        double_units(a) - double_units(b) <= double_units(c) ==> double_rank(
            double_difference(a, b),
        ) <= double_rank(c),
        double_units(a) - double_units(b) >= double_units(c) ==> double_rank(
            double_difference(a, b),
        ) >= double_rank(c),
        double_units(a) - double_units(b) == double_units(c) ==> double_finite(
            double_difference(a, b),
        ) && double_units(double_difference(a, b)) == double_units(c),
{
    lemma_negated(b);
    lemma_sum_is_rounded(a, double_negated(b), c);
}

/// One, in units.
pub open spec fn one() -> int {
    pow2(1074) as int
}

/// Whether a finite pattern encodes an integer.
pub open spec fn encodes(x: u64, n: int) -> bool {
    double_finite(x) && double_units(x) == n * one()
}

proof fn lemma_natural_units(n: nat)
    requires
        0 < n < 0x8000_0000,
    ensures
        0x20_0000_0000_0000 <= natural_as_double(n) < DOUBLE_INFINITY,
        units(52, natural_as_double(n) as nat) == n * pow2(1074),
{
    lemma2_to64();
    lemma2_to64_rest();
    lemma_natural_as_double(n);
    let k = high_bit(n);
    lemma_high_bit(n);
    if k > 30 {
        lemma_pow2_strictly_increases(30, k);
        if k > 31 {
            lemma_pow2_strictly_increases(31, k);
        }
    }
    let d = pow2((52 - k) as nat);
    let m = (n * d) as nat;
    let magnitude = natural_as_double(n) as nat;
    assert(magnitude == (k + 1022) * 0x10_0000_0000_0000 + m);
    assert(magnitude as int / 0x10_0000_0000_0000 == k + 1023);
    assert(magnitude as int % 0x10_0000_0000_0000 == m - 0x10_0000_0000_0000);
    assert(exponent(52, magnitude) == k + 1023);
    assert(significand(52, magnitude) == m);
    lemma_pow2_adds((52 - k) as nat, k + 1022);
    assert((n * d) * pow2(k + 1022) == n * (d * pow2(k + 1022))) by (nonlinear_arith);
}

/// The pattern of an integer encodes it.
pub proof fn lemma_integer_encoded(n: i32)
    requires
        n > i32::MIN,
    ensures
        encodes(integer_as_double(n), n as int),
        n != 0 ==> integer_as_double(n) % DOUBLE_SIGN >= 0x20_0000_0000_0000,
        n == 0 ==> integer_as_double(n) == 0,
{
    if n > 0 {
        lemma_natural_units(n as nat);
    } else if n < 0 {
        lemma_natural_units((-n) as nat);
        let u = (-n) as nat * pow2(1074);
        assert(-(u as int) == n * one()) by (nonlinear_arith)
            requires
                u == (-n) * one(),
        ;
    } else {
        lemma_no_units(52, 0);
        assert(0 * one() == 0) by (nonlinear_arith);
    }
}

/// Sums and differences of integers are the integers' own.
pub proof fn lemma_integer_arithmetic(a: u64, b: u64, m: int, n: int)
    requires
        encodes(a, m),
        encodes(b, n),
        -0x4000_0000 <= m <= 0x4000_0000,
        -0x4000_0000 < n < 0x4000_0000,
    ensures
        encodes(double_sum(a, b), m + n),
        encodes(double_difference(a, b), m - n),
{
    let s = (m + n) as i32;
    let d = (m - n) as i32;
    lemma_integer_encoded(s);
    lemma_integer_encoded(d);
    assert(m * one() + n * one() == (m + n) * one()) by (nonlinear_arith);
    assert(m * one() - n * one() == (m - n) * one()) by (nonlinear_arith);
    lemma_sum_is_rounded(a, b, integer_as_double(s));
    lemma_difference_is_rounded(a, b, integer_as_double(d));
}

/// An integer is the nearest one to itself.
pub proof fn lemma_integer_is_nearest(x: u64, n: int)
    requires
        encodes(x, n),
        -0x7FFF_FFFF <= n <= 0x7FFF_FFFF,
    ensures
        nearest_i32(x) == n,
{
    let u = units(52, (x % DOUBLE_SIGN) as nat);
    let d = pow2(1074);
    lemma_pow2_pos(1074);
    let m = absolute(n);
    assert(u == m * d) by {
        if n < 0 {
            assert(n * one() < 0) by (nonlinear_arith)
                requires
                    n < 0,
                    one() > 0,
            ;
            assert(-(n * one()) == (-n) * one()) by (nonlinear_arith);
        } else {
            assert(n * one() >= 0) by (nonlinear_arith)
                requires
                    n >= 0,
                    one() > 0,
            ;
            if x >= DOUBLE_SIGN {
                assert(u == 0);
                assert(n * one() == 0);
                assert(n == 0) by (nonlinear_arith)
                    requires
                        n * one() == 0,
                        one() > 0,
                ;
                assert(0 * d == 0) by (nonlinear_arith);
            }
        }
    }
    assert((2 * (m * d) + d) / (2 * d) == m) by (nonlinear_arith)
        requires
            d > 0,
            m >= 0,
    {
        assert(2 * (m * d) + d == m * (2 * d) + d);
    }
    if n > 0 && x >= DOUBLE_SIGN {
        assert(n * one() > 0) by (nonlinear_arith)
            requires
                n > 0,
                one() > 0,
        ;
    }
    if n < 0 && x < DOUBLE_SIGN {
        assert(n * one() < 0) by (nonlinear_arith)
            requires
                n < 0,
                one() > 0,
        ;
    }
}

/// Half of an integer is half of it.
pub proof fn lemma_integer_halved(x: u64, n: int)
    requires
        encodes(x, n),
        -0x7FFF_FFFF <= n <= 0x7FFF_FFFF,
    ensures
        double_finite(double_halved(x)),
        2 * double_units(double_halved(x)) == n * one(),
{
    let magnitude = x % DOUBLE_SIGN;
    let k = n as i32;
    lemma_integer_encoded(k);
    lemma_rank_orders_numbers(x, integer_as_double(k));
    lemma_rank_orders_numbers(integer_as_double(k), x);
    if n != 0 {
        assert(magnitude == integer_as_double(k) % DOUBLE_SIGN);
        lemma_half_is_half(magnitude);
        assert(double_halved(x) % DOUBLE_SIGN == double_halved(magnitude));
    } else {
        assert(magnitude == 0);
        lemma_no_units(52, 0);
        assert(0 * one() == 0) by (nonlinear_arith);
        assert(round_half_even(0, 2) == 0);
    }
}

/// The difference of two halves of integers is half of the integers' difference.
pub proof fn lemma_difference_of_halves(a: u64, b: u64, m: int, n: int)
    requires
        double_finite(a),
        double_finite(b),
        2 * double_units(a) == m * one(),
        2 * double_units(b) == n * one(),
        -0x4000_0000 <= m <= 0x4000_0000,
        -0x4000_0000 < n < 0x4000_0000,
    ensures
        double_finite(double_difference(a, b)),
        2 * double_units(double_difference(a, b)) == (m - n) * one(),
{
    let d = (m - n) as i32;
    lemma_integer_encoded(d);
    lemma_integer_halved(integer_as_double(d), d as int);
    assert(m * one() - n * one() == (m - n) * one()) by (nonlinear_arith);
    lemma_difference_is_rounded(a, b, double_halved(integer_as_double(d)));
}

/// The size of half an integer in whole numbers: a half counts as one.
pub proof fn lemma_nearest_of_half(x: u64, n: int)
    requires
        double_finite(x),
        2 * double_units(x) == n * one(),
        -0x7FFF_FFFF <= n <= 0x7FFF_FFFF,
    ensures
        nearest_i32(x % DOUBLE_SIGN) == (absolute(n) as int + 1) / 2,
{
    let y = x % DOUBLE_SIGN;
    let u = units(52, y as nat);
    let d = pow2(1074);
    lemma_pow2_pos(1074);
    let m = absolute(n);
    assert(2 * u == m * d) by {
        if n < 0 {
            assert(n * one() < 0) by (nonlinear_arith)
                requires
                    n < 0,
                    one() > 0,
            ;
            assert(-(n * one()) == (-n) * one()) by (nonlinear_arith);
        } else {
            assert(n * one() >= 0) by (nonlinear_arith)
                requires
                    n >= 0,
                    one() > 0,
            ;
        }
    }
    assert((2 * u + d) / (2 * d) == (m + 1) / 2) by (nonlinear_arith)
        requires
            d > 0,
            m >= 0,
            2 * u == m * d,
    {
        let q = (m + 1) / 2;
        let r = (m + 1) % 2;
        assert(2 * u + d == (m + 1) * d);
        assert((m + 1) * d == q * (2 * d) + r * d);
        assert(0 <= r * d < 2 * d);
    }
    assert(y % DOUBLE_SIGN == y);
}

/// An integer is negative, or above another, as its pattern is.
pub proof fn lemma_integers_ordered(a: u64, b: u64, m: int, n: int)
    requires
        encodes(a, m),
        encodes(b, n),
    ensures
        double_rank(a) <= double_rank(b) <==> m <= n,
{
    lemma_rank_orders_numbers(a, b);
    lemma_pow2_pos(1074);
    assert(m * one() <= n * one() <==> m <= n) by (nonlinear_arith)
        requires
            one() > 0,
    ;
}

/// The number that a single-precision pattern encodes, in units of its smallest
/// number.
pub open spec fn single_measure(x: u32) -> int {
    signed_units(23, x >= SINGLE_SIGN, (x % SINGLE_SIGN) as nat)
}

/// As [`lemma_sum_is_rounded`], in single precision.
pub proof fn lemma_single_sum_is_rounded(a: u32, b: u32, c: u32)
    requires
        single_finite(a),
        single_finite(b),
        single_finite(c),
    ensures
        !single_is_nan(single_sum(a, b)),
        single_measure(a) + single_measure(b) <= single_measure(c) ==> single_rank(
            single_sum(a, b),
        ) <= single_rank(c),
        single_measure(a) + single_measure(b) >= single_measure(c) ==> single_rank(
            single_sum(a, b),
        ) >= single_rank(c),
{
    let v = single_measure(a) + single_measure(b);
    let z = (c % SINGLE_SIGN) as nat;
    let n = nearest(23, absolute(v));
    let r = single_sum(a, b);
    lemma_nearest_of_units(23, z);
    lemma_no_units(23, z);
    lemma_pow2_pos(24);
    assert(nearest(23, 0) == 0);
    if absolute(v) <= units(23, z) {
        lemma_nearest_monotone(23, absolute(v), units(23, z));
    }
    if absolute(v) >= units(23, z) {
        lemma_nearest_monotone(23, units(23, z), absolute(v));
    }
    let magnitude = if n < SINGLE_INFINITY {
        n
    } else {
        SINGLE_INFINITY as nat
    };
    let negative = finite_sum(
        23,
        SINGLE_INFINITY as nat,
        a >= SINGLE_SIGN,
        (a % SINGLE_SIGN) as nat,
        b >= SINGLE_SIGN,
        (b % SINGLE_SIGN) as nat,
    ).0;
    assert(r == (if negative {
        (SINGLE_SIGN + magnitude) as u32
    } else {
        magnitude as u32
    }));
    assert(r % SINGLE_SIGN == magnitude);
    assert(single_rank(r) == (if negative {
        -(magnitude as int)
    } else {
        magnitude as int
    }));
}

/// A quotient is rounded to the nearest integer, and to the even one where two are
/// equally near.
pub proof fn lemma_rounds_to_nearest(n: int, d: int)
    requires
        d > 0,
    ensures
        ({
            let r = round_half_even(n, d);
            &&& -d <= 2 * (r * d - n) <= d
            &&& 2 * (r * d - n) == d || 2 * (r * d - n) == -d ==> r % 2 == 0
        }),
{
    let q = n / d;
    let r = n % d;
    lemma_fundamental_div_mod(n, d);
    assert(d * q == q * d) by (nonlinear_arith);
    assert((q + 1) * d == q * d + d) by (nonlinear_arith);
    assert(0 <= r < d);
}

} // verus!
