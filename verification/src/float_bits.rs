//! IEEE 754 numbers carried as their bit patterns.
//!
//! Fractional settings (scale factors, font sizes, opacities, split ratios) are
//! held as the integer that encodes them, `u32` for single and `u64` for double
//! precision. This module reads those integers: which numbers are finite, how
//! they are ordered, and how one width is converted to the other.
use vstd::arithmetic::power2::*;
use vstd::prelude::*;

verus! {

/// Fraction field of a single: 2^23 patterns.
pub const SINGLE_FRACTION: u32 = 0x80_0000;

/// Sign bit of a single.
pub const SINGLE_SIGN: u32 = 0x8000_0000;

/// The pattern of single-precision infinity.
pub const SINGLE_INFINITY: u32 = 0x7F80_0000;

/// A single-precision pattern that is not a number.
pub const SINGLE_NAN: u32 = 0x7FC0_0000;

/// Fraction field of a double: 2^52 patterns.
pub const DOUBLE_FRACTION: u64 = 0x10_0000_0000_0000;

/// Sign bit of a double.
pub const DOUBLE_SIGN: u64 = 0x8000_0000_0000_0000;

/// The pattern of double-precision infinity.
pub const DOUBLE_INFINITY: u64 = 0x7FF0_0000_0000_0000;

/// A double-precision pattern that is not a number.
pub const DOUBLE_NAN: u64 = 0x7FF8_0000_0000_0000;

/// Whether a single encodes a finite number.
pub open spec fn single_finite(x: u32) -> bool {
    x % SINGLE_SIGN < SINGLE_INFINITY
}

/// Whether a single encodes no number at all.
pub open spec fn single_is_nan(x: u32) -> bool {
    x % SINGLE_SIGN > SINGLE_INFINITY
}

/// Whether a double encodes a finite number.
pub open spec fn double_finite(x: u64) -> bool {
    x % DOUBLE_SIGN < DOUBLE_INFINITY
}

/// Whether a double encodes no number at all.
pub open spec fn double_is_nan(x: u64) -> bool {
    x % DOUBLE_SIGN > DOUBLE_INFINITY
}

/// An integer that orders singles as the numbers they encode: for patterns that
/// are numbers, one number is below another exactly if its rank is. The two
/// zeros share a rank.
pub open spec fn single_rank(x: u32) -> int {
    if x < SINGLE_SIGN {
        x as int
    } else {
        SINGLE_SIGN - x
    }
}

/// As [`single_rank`], for doubles.
pub open spec fn double_rank(x: u64) -> int {
    if x < DOUBLE_SIGN {
        x as int
    } else {
        DOUBLE_SIGN - x
    }
}

/// The number that a finite single encodes, in units of 2^-149: every finite
/// single is a whole number of them.
pub open spec fn single_units(x: u32) -> int {
    let magnitude = x % SINGLE_SIGN;
    let exponent = magnitude / SINGLE_FRACTION;
    let fraction = magnitude % SINGLE_FRACTION;
    let size = if exponent == 0 {
        fraction as int
    } else {
        (SINGLE_FRACTION + fraction) * pow2((exponent - 1) as nat)
    };
    if x < SINGLE_SIGN {
        size
    } else {
        -size
    }
}

/// `n / d` rounded to the nearest integer, a tie to the even one.
pub open spec fn round_half_even(n: int, d: int) -> int {
    let q = n / d;
    let r = n % d;
    if 2 * r < d || (2 * r == d && q % 2 == 0) {
        q
    } else {
        q + 1
    }
}

/// The magnitude bits of the single nearest to a finite double with magnitude
/// bits `magnitude`, ties to the even pattern. A carry out of the fraction moves
/// into the exponent field, up to infinity.
pub open spec fn narrowed_magnitude(magnitude: int) -> int {
    let exponent = magnitude / (DOUBLE_FRACTION as int);
    let significand = DOUBLE_FRACTION + magnitude % (DOUBLE_FRACTION as int);
    if exponent >= 1151 {
        // 2^128 and above
        SINGLE_INFINITY as int
    } else if exponent >= 897 {
        // 2^-126 and above: 29 fraction bits are dropped
        (exponent - 897) * SINGLE_FRACTION + round_half_even(significand, pow2(29) as int)
    } else if exponent >= 872 {
        // a count of 2^-149
        round_half_even(significand, pow2((926 - exponent) as nat) as int)
    } else {
        // below half of 2^-149
        0
    }
}

/// The single that a double converts to: the nearest one, ties to even, with
/// overflow to infinity.
pub open spec fn narrowed(x: u64) -> u32 {
    let sign = if x < DOUBLE_SIGN {
        0
    } else {
        SINGLE_SIGN as int
    };
    if double_is_nan(x) {
        SINGLE_NAN
    } else if !double_finite(x) {
        (sign + SINGLE_INFINITY) as u32
    } else {
        (sign + narrowed_magnitude((x % DOUBLE_SIGN) as int)) as u32
    }
}

/// The position of the highest bit of a positive integer.
pub open spec fn high_bit(n: nat) -> nat
    decreases n,
{
    if n <= 1 {
        0
    } else {
        1 + high_bit(n / 2)
    }
}

/// The magnitude bits of the double that equals a finite single with magnitude
/// bits `magnitude`.
pub open spec fn widened_magnitude(magnitude: int) -> int {
    let exponent = magnitude / (SINGLE_FRACTION as int);
    let fraction = magnitude % (SINGLE_FRACTION as int);
    if exponent > 0 {
        (exponent + 896) * DOUBLE_FRACTION + fraction * pow2(29)
    } else if fraction > 0 {
        let k = high_bit(fraction as nat);
        (k + 873) * DOUBLE_FRACTION + fraction * pow2((52 - k) as nat)
    } else {
        0
    }
}

/// The double that a single converts to. Every single is a double, so nothing is
/// rounded.
pub open spec fn widened(x: u32) -> u64 {
    let sign = if x < SINGLE_SIGN {
        0
    } else {
        DOUBLE_SIGN as int
    };
    if single_is_nan(x) {
        DOUBLE_NAN
    } else if !single_finite(x) {
        (sign + DOUBLE_INFINITY) as u64
    } else {
        (sign + widened_magnitude((x % SINGLE_SIGN) as int)) as u64
    }
}

/// The magnitude bits of the double nearest to a natural number, ties to even.
pub open spec fn natural_as_double(n: nat) -> int {
    if n == 0 {
        0
    } else {
        let k = high_bit(n);
        if k <= 52 {
            (k + 1022) * DOUBLE_FRACTION + n * pow2((52 - k) as nat)
        } else {
            (k + 1022) * DOUBLE_FRACTION + round_half_even(n as int, pow2((k - 52) as nat) as int)
        }
    }
}

pub proof fn lemma_high_bit(n: nat)
    requires
        n > 0,
    ensures
        pow2(high_bit(n)) <= n < pow2(high_bit(n) + 1),
    decreases n,
{
    lemma2_to64();
    if n > 1 {
        lemma_high_bit(n / 2);
        lemma_pow2_unfold(high_bit(n));
        lemma_pow2_unfold(high_bit(n) + 1);
    }
}

pub proof fn lemma_high_bit_unique(n: nat, k: nat)
    requires
        pow2(k) <= n < pow2(k + 1),
    ensures
        high_bit(n) == k,
{
    lemma_pow2_pos(k);
    lemma_high_bit(n);
    let h = high_bit(n);
    if h < k {
        if h + 1 < k {
            lemma_pow2_strictly_increases(h + 1, k);
        }
    } else if k < h {
        if k + 1 < h {
            lemma_pow2_strictly_increases(k + 1, h);
        }
    }
}

proof fn lemma_high_bit_bound(n: nat, b: nat)
    requires
        0 < n < pow2(b),
    ensures
        high_bit(n) < b,
{
    lemma_high_bit(n);
    if high_bit(n) >= b {
        if high_bit(n) > b {
            lemma_pow2_strictly_increases(b, high_bit(n));
        }
    }
}

/// 2^k.
pub fn power_of_two(k: u32) -> (r: u64)
    requires
        k < 64,
    ensures
        r == pow2(k as nat),
        r > 0,
{
    let mut r: u64 = 1;
    let mut i: u32 = 0;
    proof {
        lemma2_to64();
    }
    while i < k
        invariant
            i <= k < 64,
            r == pow2(i as nat),
        decreases k - i,
    {
        proof {
            lemma_pow2_unfold((i + 1) as nat);
            lemma2_to64();
            lemma2_to64_rest();
            if i + 1 < 63 {
                lemma_pow2_strictly_increases((i + 1) as nat, 63);
            }
        }
        r = r * 2;
        i += 1;
    }
    proof {
        lemma_pow2_pos(k as nat);
    }
    r
}

/// Position of the highest bit.
fn highest_bit(n: u64) -> (k: u32)
    requires
        n > 0,
    ensures
        k == high_bit(n as nat),
        k < 64,
{
    let mut m: u64 = n;
    let mut k: u32 = 0;
    proof {
        lemma2_to64();
        lemma_high_bit_bound(n as nat, 64);
    }
    while m > 1
        invariant
            m > 0,
            high_bit(n as nat) == k + high_bit(m as nat),
            n > 0,
            high_bit(n as nat) < 64,
        decreases m,
    {
        m = m / 2;
        k += 1;
    }
    k
}

pub fn rounded_quotient(n: u64, d: u64) -> (r: u64)
    requires
        2 <= d <= DOUBLE_SIGN,
    ensures
        r == round_half_even(n as int, d as int),
{
    let q: u64 = n / d;
    let r: u64 = n % d;
    let twice: u64 = d - r;
    if r < twice || (r == twice && q % 2 == 0) {
        q
    } else {
        proof {
            assert(2 * q <= n) by (nonlinear_arith)
                requires
                    q == n as int / d as int,
                    d >= 2,
                    n >= 0,
            ;
        }
        q + 1
    }
}

/// An exact multiple rounds to its quotient.
proof fn lemma_round_exact(q: int, d: int)
    requires
        d > 0,
    ensures
        round_half_even(q * d, d) == q,
{
    assert((q * d) / d == q && (q * d) % d == 0) by (nonlinear_arith)
        requires
            d > 0,
    ;
}

/// Rounding stays between the two integers around the quotient.
pub proof fn lemma_round_bounds(n: int, d: int, low: int, high: int)
    requires
        d > 0,
        low * d <= n <= high * d,
    ensures
        low <= round_half_even(n, d) <= high,
{
    let q = n / d;
    assert(low <= q && (q < high || (q == high && n % d == 0))) by (nonlinear_arith)
        requires
            d > 0,
            low * d <= n <= high * d,
            q == n / d,
    {
        assert(n == d * (n / d) + n % d);
        assert(0 <= n % d < d);
        assert(q * d <= n);
        assert(n < (q + 1) * d);
    }
}

/// Narrowing stays in the range of single-precision magnitudes.
pub proof fn lemma_narrowed_magnitude_range(magnitude: int)
    requires
        0 <= magnitude < DOUBLE_INFINITY,
    ensures
        0 <= narrowed_magnitude(magnitude) <= SINGLE_INFINITY,
{
    lemma2_to64();
    lemma2_to64_rest();
    let exponent = magnitude / (DOUBLE_FRACTION as int);
    let significand = DOUBLE_FRACTION + magnitude % (DOUBLE_FRACTION as int);
    if 897 <= exponent < 1151 {
        lemma_round_bounds(significand, pow2(29) as int, 0x80_0000, 0x100_0000);
    } else if 872 <= exponent < 897 {
        let shift = (926 - exponent) as nat;
        lemma_pow2_pos(shift);
        assert(pow2(30) <= pow2(shift)) by {
            if shift > 30 {
                lemma_pow2_strictly_increases(30, shift);
            }
        }
        assert(significand <= 0x80_0000 * pow2(shift)) by (nonlinear_arith)
            requires
                significand <= 0x20_0000_0000_0000,
                pow2(shift) >= 0x4000_0000,
        ;
        lemma_round_bounds(significand, pow2(shift) as int, 0, 0x80_0000);
    }
}

/// Widening stays in the range of finite double-precision magnitudes.
proof fn lemma_widened_magnitude_parts(magnitude: int)
    requires
        0 < magnitude < SINGLE_INFINITY,
    ensures
        ({
            let w = widened_magnitude(magnitude);
            let exponent = magnitude / (SINGLE_FRACTION as int);
            let fraction = magnitude % (SINGLE_FRACTION as int);
            let k = high_bit(fraction as nat);
            &&& 0 < w < DOUBLE_INFINITY
            &&& exponent > 0 ==> {
                &&& w / (DOUBLE_FRACTION as int) == exponent + 896
                &&& DOUBLE_FRACTION + w % (DOUBLE_FRACTION as int) == (SINGLE_FRACTION + fraction)
                    * pow2(29)
            }
            &&& exponent == 0 ==> {
                &&& k <= 22
                &&& w / (DOUBLE_FRACTION as int) == k + 874
                &&& DOUBLE_FRACTION + w % (DOUBLE_FRACTION as int) == fraction * pow2(
                    (52 - k) as nat,
                )
            }
        }),
{
    lemma2_to64();
    lemma2_to64_rest();
    let exponent = magnitude / (SINGLE_FRACTION as int);
    let fraction = magnitude % (SINGLE_FRACTION as int);
    if exponent == 0 {
        lemma_high_bit(fraction as nat);
        lemma_high_bit_bound(fraction as nat, 23);
        let k = high_bit(fraction as nat);
        lemma_pow2_adds(k, (52 - k) as nat);
        lemma_pow2_adds(k + 1, (52 - k) as nat);
        let p = pow2((52 - k) as nat);
        lemma_pow2_pos((52 - k) as nat);
        assert(fraction * p >= pow2(k) * p) by (nonlinear_arith)
            requires
                fraction >= pow2(k),
                p > 0,
        ;
        assert(fraction * p < pow2(k + 1) * p) by (nonlinear_arith)
            requires
                fraction < pow2(k + 1),
                p > 0,
        ;
    }
}

/// Converting a finite single to a double and back gives it back.
pub proof fn lemma_narrow_widen(x: u32)
    requires
        single_finite(x),
    ensures
        narrowed(widened(x)) == x,
        double_finite(widened(x)),
{
    let magnitude = (x % SINGLE_SIGN) as int;
    if magnitude > 0 {
        lemma_widened_magnitude_parts(magnitude);
        let exponent = magnitude / (SINGLE_FRACTION as int);
        let fraction = magnitude % (SINGLE_FRACTION as int);
        if exponent > 0 {
            lemma_pow2_pos(29);
            lemma_round_exact(SINGLE_FRACTION + fraction, pow2(29) as int);
        } else {
            let k = high_bit(fraction as nat);
            lemma_pow2_pos((52 - k) as nat);
            lemma_round_exact(fraction, pow2((52 - k) as nat) as int);
        }
        assert(narrowed_magnitude(widened_magnitude(magnitude)) == magnitude);
    }
}

/// Whether a single is finite.
pub fn single_is_finite(x: u32) -> (r: bool)
    ensures
        r == single_finite(x),
{
    x % SINGLE_SIGN < SINGLE_INFINITY
}

/// Whether single `a` encodes a number below the one `b` encodes.
pub fn single_below(a: u32, b: u32) -> (r: bool)
    requires
        !single_is_nan(a),
        !single_is_nan(b),
    ensures
        r == (single_rank(a) < single_rank(b)),
{
    if a < SINGLE_SIGN {
        b < SINGLE_SIGN && a < b
    } else if b < SINGLE_SIGN {
        a > SINGLE_SIGN || b > 0
    } else {
        a > b
    }
}

/// Whether double `a` encodes a number below the one `b` encodes.
pub fn double_below(a: u64, b: u64) -> (r: bool)
    requires
        !double_is_nan(a),
        !double_is_nan(b),
    ensures
        r == (double_rank(a) < double_rank(b)),
{
    if a < DOUBLE_SIGN {
        b < DOUBLE_SIGN && a < b
    } else if b < DOUBLE_SIGN {
        a > DOUBLE_SIGN || b > 0
    } else {
        a > b
    }
}

/// Converts a double to the nearest single.
pub fn narrow(x: u64) -> (r: u32)
    ensures
        r == narrowed(x),
{
    let sign: u32 = if x < DOUBLE_SIGN {
        0
    } else {
        SINGLE_SIGN
    };
    let magnitude: u64 = x % DOUBLE_SIGN;
    if magnitude > DOUBLE_INFINITY {
        return SINGLE_NAN;
    }
    if magnitude == DOUBLE_INFINITY {
        return sign + SINGLE_INFINITY;
    }
    proof {
        lemma_narrowed_magnitude_range(magnitude as int);
        lemma2_to64();
        lemma2_to64_rest();
    }
    let exponent: u64 = magnitude / DOUBLE_FRACTION;
    let significand: u64 = DOUBLE_FRACTION + magnitude % DOUBLE_FRACTION;
    if exponent >= 1151 {
        sign + SINGLE_INFINITY
    } else if exponent >= 897 {
        let q: u64 = rounded_quotient(significand, 0x2000_0000);
        let m: u64 = (exponent - 897) * 0x80_0000 + q;
        sign + m as u32
    } else if exponent >= 872 {
        let shift: u32 = (926 - exponent) as u32;
        proof {
            lemma_pow2_strictly_increases(shift as nat, 63);
            lemma_pow2_strictly_increases(0, shift as nat);
        }
        let d: u64 = power_of_two(shift);
        let q: u64 = rounded_quotient(significand, d);
        sign + q as u32
    } else {
        sign
    }
}

/// Converts a single to the double that encodes the same number.
pub fn widen(x: u32) -> (r: u64)
    ensures
        r == widened(x),
{
    let sign: u64 = if x < SINGLE_SIGN {
        0
    } else {
        DOUBLE_SIGN
    };
    let magnitude: u32 = x % SINGLE_SIGN;
    if magnitude > SINGLE_INFINITY {
        return DOUBLE_NAN;
    }
    if magnitude == SINGLE_INFINITY {
        return sign + DOUBLE_INFINITY;
    }
    if magnitude == 0 {
        return sign;
    }
    proof {
        lemma_widened_magnitude_parts(magnitude as int);
        lemma2_to64();
        lemma2_to64_rest();
    }
    let exponent: u64 = (magnitude / SINGLE_FRACTION) as u64;
    let fraction: u64 = (magnitude % SINGLE_FRACTION) as u64;
    if exponent > 0 {
        sign + ((exponent + 896) * DOUBLE_FRACTION + fraction * 0x2000_0000)
    } else {
        let k: u32 = highest_bit(fraction);
        let scale: u64 = power_of_two(52 - k);
        sign + ((k as u64 + 873) * DOUBLE_FRACTION + fraction * scale)
    }
}

pub proof fn lemma_natural_as_double(n: nat)
    requires
        n <= u64::MAX,
    ensures
        0 <= natural_as_double(n) < DOUBLE_INFINITY,
        n > 0 ==> ({
            let k = high_bit(n);
            let d = pow2((52 - k) as nat);
            &&& k < 64
            &&& k <= 52 ==> DOUBLE_FRACTION <= n * d < 2 * DOUBLE_FRACTION
            &&& k > 52 ==> DOUBLE_FRACTION <= round_half_even(
                n as int,
                pow2((k - 52) as nat) as int,
            ) <= 2 * DOUBLE_FRACTION
        }),
{
    lemma2_to64();
    lemma2_to64_rest();
    if n > 0 {
        lemma_high_bit(n);
        lemma_high_bit_bound(n, 64);
        let k = high_bit(n);
        if k <= 52 {
            let d = pow2((52 - k) as nat);
            lemma_pow2_pos((52 - k) as nat);
            lemma_pow2_adds(k, (52 - k) as nat);
            lemma_pow2_adds(k + 1, (52 - k) as nat);
            assert(pow2(k) * d <= n * d < pow2(k + 1) * d) by (nonlinear_arith)
                requires
                    pow2(k) <= n < pow2(k + 1),
                    d > 0,
            ;
        } else {
            let d = pow2((k - 52) as nat);
            lemma_pow2_pos((k - 52) as nat);
            lemma_pow2_adds(52, (k - 52) as nat);
            lemma_pow2_adds(53, (k - 52) as nat);
            lemma_round_bounds(n as int, d as int, DOUBLE_FRACTION as int, 2 * DOUBLE_FRACTION);
        }
    }
}

/// The double nearest to an unsigned integer.
pub fn double_of_unsigned(n: u64) -> (r: u64)
    ensures
        r == natural_as_double(n as nat),
        r < DOUBLE_INFINITY,
{
    if n == 0 {
        return 0;
    }
    proof {
        lemma_natural_as_double(n as nat);
    }
    let k: u32 = highest_bit(n);
    if k <= 52 {
        let d: u64 = power_of_two(52 - k);
        (k as u64 + 1022) * DOUBLE_FRACTION + n * d
    } else {
        let d: u64 = power_of_two(k - 52);
        proof {
            lemma2_to64();
            lemma2_to64_rest();
            lemma_pow2_strictly_increases((k - 52) as nat, 63);
            lemma_pow2_strictly_increases(0, (k - 52) as nat);
        }
        let q: u64 = rounded_quotient(n, d);
        (k as u64 + 1022) * DOUBLE_FRACTION + q
    }
}

} // verus!
