//! Double-precision numbers, carried as their IEEE 754 bit patterns.
//!
//! Motion deltas, scales and finger positions arrive as binary64 values. Here they are held as
//! `u64` bit patterns and modelled by the exact integer multiple of `2^-1074` (the smallest
//! positive value of the format) that they denote, so comparing and rounding them is plain
//! integer reasoning.

use vstd::arithmetic::power2::{
    lemma_pow2_adds, lemma_pow2_pos, lemma_pow2_strictly_increases, lemma2_to64, lemma2_to64_rest,
    pow2,
};
use vstd::prelude::*;

verus! {

/// Number of distinct fractions: the fraction field is 52 bits wide.
pub const FRACTION_SPAN: u64 = 0x10_0000_0000_0000;

/// The sign bit.
pub const SIGN_BIT: u64 = 0x8000_0000_0000_0000;

/// Bit pattern of positive infinity, the greatest magnitude that is not a NaN.
pub const INFINITY_BITS: u64 = 0x7ff0_0000_0000_0000;

/// A binary64 value, by its bit pattern.
#[derive(Clone, Copy, Debug, PartialEq, Eq, Structural)]
pub struct Double {
    pub bits: u64,
}

/// What a sign-less bit pattern denotes, in units of `2^-1074`.
///
/// Infinity counts as `2^1024`, which is above every finite value.
pub open spec fn magnitude_units(magnitude: nat) -> nat {
    let exponent = magnitude / FRACTION_SPAN as nat;
    let fraction = magnitude % FRACTION_SPAN as nat;
    if exponent == 0 {
        fraction
    } else {
        (fraction + FRACTION_SPAN as nat) * pow2((exponent - 1) as nat)
    }
}

/// The number one, in units of `2^-1074`.
pub open spec fn one() -> nat {
    pow2(1074)
}

/// `units` rounded to the nearest integer, halfway cases away from zero.
pub open spec fn round_half_away(units: int) -> int {
    if units >= 0 {
        (2 * units + one()) / (2 * one() as int)
    } else {
        -((one() - 2 * units) / (2 * one() as int))
    }
}

/// `n`, or the end of the `i32` range that it lies beyond.
pub open spec fn saturate_i32(n: int) -> i32 {
    if n > i32::MAX {
        i32::MAX
    } else if n < i32::MIN {
        i32::MIN
    } else {
        n as i32
    }
}

impl Double {
    /// Sign-less part of the bit pattern.
    pub open spec fn magnitude(self) -> nat {
        (self.bits % SIGN_BIT) as nat
    }

    /// Whether the sign bit is set.
    pub open spec fn is_negative(self) -> bool {
        self.bits >= SIGN_BIT
    }

    /// Whether the value is not a number.
    pub open spec fn is_nan(self) -> bool {
        self.magnitude() > INFINITY_BITS
    }

    /// The value denoted, in units of `2^-1074`. Both zeros denote 0.
    pub open spec fn units(self) -> int {
        if self.is_negative() {
            -(magnitude_units(self.magnitude()) as int)
        } else {
            magnitude_units(self.magnitude()) as int
        }
    }

    /// Whether the value is exactly the integer `n`.
    pub open spec fn denotes(self, n: int) -> bool {
        !self.is_nan() && self.units() == n * one()
    }

    /// `self < other` as numbers: false as soon as one of the two is a NaN.
    pub open spec fn below(self, other: Double) -> bool {
        !self.is_nan() && !other.is_nan() && self.units() < other.units()
    }

    /// The nearest end of `[low, high]` where `self` lies outside, else `self`. A NaN stays.
    pub open spec fn clamped(self, low: Double, high: Double) -> Double {
        if self.below(low) {
            low
        } else if high.below(self) {
            high
        } else {
            self
        }
    }

    /// The nearest `i32`, halfway cases away from zero, out-of-range values at the nearer end
    /// of the range, a NaN at 0.
    pub open spec fn rounded(self) -> i32 {
        if self.is_nan() {
            0
        } else {
            saturate_i32(round_half_away(self.units()))
        }
    }

    /// Whether `n` is what the value rounds to: no integer is nearer, and of two equally near ones
    /// `n` is the one further from zero. Values that are nearer to an integer beyond the range of
    /// `i32` round to the end of that range, and a NaN rounds to 0.
    pub open spec fn rounds_to(self, n: int) -> bool {
        let twice_error = 2 * (n * one() - self.units());
        if self.is_nan() {
            n == 0
        } else if 2 * self.units() >= (2 * i32::MAX + 1) * one() {
            n == i32::MAX
        } else if 2 * self.units() <= (2 * i32::MIN - 1) * one() {
            n == i32::MIN
        } else {
            &&& -(one() as int) <= twice_error <= one()
            &&& twice_error == one() ==> self.units() > 0
            &&& twice_error == -(one() as int) ==> self.units() < 0
        }
    }

    /// Position of the value in numerical order, among values that are not NaN.
    fn rank(self) -> (r: i64)
        ensures
            r == (if self.is_negative() { -(self.magnitude() as int) } else {
                self.magnitude() as int
            }),
    {
        let magnitude: i64 = (self.bits % SIGN_BIT) as i64;
        if self.bits >= SIGN_BIT {
            -magnitude
        } else {
            magnitude
        }
    }

    /// Whether the value is not a number.
    pub fn nan(self) -> (r: bool)
        ensures
            r == self.is_nan(),
    {
        self.bits % SIGN_BIT > INFINITY_BITS
    }

    /// Whether `self` is less than `other`; false as soon as one of them is a NaN.
    pub fn lt(self, other: Double) -> (r: bool)
        ensures
            r == self.below(other),
    {
        proof {
            assert(magnitude_units(0) == 0);
            if self.magnitude() <= other.magnitude() {
                lemma_magnitude_monotone(self.magnitude(), other.magnitude());
            }
            if other.magnitude() <= self.magnitude() {
                lemma_magnitude_monotone(other.magnitude(), self.magnitude());
            }
            lemma_magnitude_monotone(0, self.magnitude());
            lemma_magnitude_monotone(0, other.magnitude());
        }
        !self.nan() && !other.nan() && self.rank() < other.rank()
    }

    /// Restricts the value to `[low, high]`.
    pub fn clamp(self, low: Double, high: Double) -> (r: Double)
        requires
            !low.is_nan(),
            !high.is_nan(),
            low.units() <= high.units(),
        ensures
            r == self.clamped(low, high),
    {
        if self.lt(low) {
            low
        } else if high.lt(self) {
            high
        } else {
            self
        }
    }

    /// Rounds to the nearest `i32`, halfway cases away from zero, saturating at the ends of the
    /// range. A NaN gives 0.
    pub fn round_to_i32(self) -> (r: i32)
        ensures
            r == self.rounded(),
            self.rounds_to(r as int),
    {
        proof {
            law_rounding(self);
        }
        let magnitude: u64 = self.bits % SIGN_BIT;
        if magnitude > INFINITY_BITS {
            return 0;
        }
        let n: u64 = round_magnitude(magnitude);
        proof {
            lemma_pow2_pos(1074);
            let units = magnitude_units(magnitude as nat) as int;
            assert((-1) * units <= 0);
            if self.is_negative() && units == 0 {
                assert(one() as int / (2 * one() as int) == 0) by (nonlinear_arith)
                    requires
                        one() > 0,
                ;
            }
        }
        if self.bits >= SIGN_BIT {
            if n >= 0x8000_0000 {
                i32::MIN
            } else {
                -(n as i32)
            }
        } else if n > 0x7fff_ffff {
            i32::MAX
        } else {
            n as i32
        }
    }
}

/// The integer nearest to what a sign-less pattern denotes, or `2^31` where that is greater.
fn round_magnitude(magnitude: u64) -> (n: u64)
    requires
        magnitude <= INFINITY_BITS,
    ensures
        ({
            let exact = round_half_away(magnitude_units(magnitude as nat) as int);
            n == if exact > 0x8000_0000 {
                0x8000_0000
            } else {
                exact
            }
        }),
{
    let exponent: u64 = magnitude / FRACTION_SPAN;
    let fraction: u64 = magnitude % FRACTION_SPAN;
    let (significand, scale): (u64, u64) = if exponent == 0 {
        (fraction, 0)
    } else {
        (fraction + FRACTION_SPAN, exponent - 1)
    };
    proof {
        lemma2_to64();
        lemma2_to64_rest();
        assert(magnitude_units(magnitude as nat) == significand * pow2(scale as nat)) by {
            if exponent == 0 {
                assert(significand * 1 == significand);
                assert(pow2(scale as nat) == 1);
            } else {
                assert(magnitude as nat / FRACTION_SPAN as nat == exponent);
                assert(magnitude as nat % FRACTION_SPAN as nat == fraction);
            }
        }
    }
    if scale >= 1074 {
        proof {
            lemma_round_large(significand as nat, scale as nat);
        }
        return 0x8000_0000;
    }
    let drop: u64 = 1074 - scale;
    proof {
        lemma_round_shift(significand as nat, scale as nat);
    }
    if drop > 54 {
        proof {
            lemma_pow2_strictly_increases(54, drop as nat);
            lemma_pow2_adds((drop - 1) as nat, 1);
            lemma_round_small(significand as nat, drop as nat);
        }
        return 0;
    }
    proof {
        lemma_pow2_strictly_increases((drop - 1) as nat, 54);
        vstd::bits::lemma_u64_pow2_no_overflow(drop as nat);
        vstd::bits::lemma_u64_pow2_no_overflow((drop - 1) as nat);
        vstd::bits::lemma_u64_shl_is_mul(1, (drop - 1) as u64);
        vstd::bits::lemma_u64_shr_is_div((significand + pow2((drop - 1) as nat)) as u64, drop);
    }
    let half: u64 = 1u64 << (drop - 1);
    let n: u64 = (significand + half) >> drop;
    if n > 0x8000_0000 {
        0x8000_0000
    } else {
        n
    }
}

/// A normal number with no fractional bits is at least `2^52`.
proof fn lemma_round_large(significand: nat, scale: nat)
    requires
        significand >= FRACTION_SPAN,
        scale >= 1074,
    ensures
        round_half_away((significand * pow2(scale)) as int) > 0x8000_0000,
{
    let d = one();
    let e = (scale - 1074) as nat;
    lemma_pow2_pos(1074);
    lemma_pow2_pos(e);
    lemma_pow2_adds(e, 1074);
    let m = significand * pow2(e);
    assert(m >= significand) by (nonlinear_arith)
        requires
            m == significand * pow2(e),
            pow2(e) >= 1,
    ;
    assert(significand * pow2(scale) == m * d) by (nonlinear_arith)
        requires
            m == significand * pow2(e),
            pow2(scale) == pow2(e) * d,
    ;
    let u = (m * d) as int;
    assert((2 * u + d) / (2 * d as int) >= m) by (nonlinear_arith)
        requires
            u == m * d,
            d > 0,
    ;
}

/// Rounding a value with fractional bits is adding a half and dropping them.
proof fn lemma_round_shift(significand: nat, scale: nat)
    requires
        scale < 1074,
    ensures
        round_half_away((significand * pow2(scale)) as int) == (significand + pow2(
            (1073 - scale) as nat,
        )) / pow2((1074 - scale) as nat),
{
    let drop = (1074 - scale) as nat;
    let p = pow2(scale);
    let h = pow2((drop - 1) as nat);
    let w = pow2(drop);
    lemma_pow2_pos(scale);
    lemma_pow2_pos((drop - 1) as nat);
    lemma_pow2_pos(drop);
    lemma_pow2_adds(scale, drop);
    lemma_pow2_adds((drop - 1) as nat, 1);
    lemma2_to64();
    let u = (significand * p) as int;
    assert(2 * u + one() == (2 * p) * (significand + h)) by (nonlinear_arith)
        requires
            u == significand * p,
            one() == p * w,
            w == h * 2,
    ;
    assert(2 * one() == (2 * p) * w) by (nonlinear_arith)
        requires
            one() == p * w,
    ;
    vstd::arithmetic::div_mod::lemma_div_denominator(
        ((2 * p) * (significand + h)) as int,
        (2 * p) as int,
        w as int,
    );
    vstd::arithmetic::div_mod::lemma_div_multiples_vanish((significand + h) as int, (2 * p) as int);
}

/// A value well below one half rounds to zero.
proof fn lemma_round_small(significand: nat, drop: nat)
    requires
        drop >= 1,
        2 * significand < pow2(drop),
    ensures
        (significand + pow2((drop - 1) as nat)) / pow2(drop) == 0,
{
    lemma_pow2_adds((drop - 1) as nat, 1);
    lemma2_to64();
    vstd::arithmetic::div_mod::lemma_basic_div(
        (significand + pow2((drop - 1) as nat)) as int,
        pow2(drop) as int,
    );
}

/// Greater bit patterns denote greater magnitudes.
pub proof fn lemma_magnitude_monotone(a: nat, b: nat)
    requires
        a <= b,
    ensures
        magnitude_units(a) <= magnitude_units(b),
        a < b ==> magnitude_units(a) < magnitude_units(b),
{
    let span = FRACTION_SPAN as nat;
    let (ea, fa) = (a / span, a % span);
    let (eb, fb) = (b / span, b % span);
    assert(a == span * ea + fa && b == span * eb + fb);
    assert(ea <= eb);
    lemma_pow2_pos((ea - 1) as nat);
    lemma_pow2_pos((eb - 1) as nat);
    if ea == eb {
        if ea > 0 {
            let p = pow2((ea - 1) as nat);
            assert(fa <= fb ==> (fa + span) * p <= (fb + span) * p) by (nonlinear_arith);
            assert(fa < fb && p > 0 ==> (fa + span) * p < (fb + span) * p) by (nonlinear_arith);
        }
    } else if ea == 0 {
        let p = pow2((eb - 1) as nat);
        assert(p >= 1 ==> (fb + span) * p >= fb + span) by (nonlinear_arith);
    } else {
        let p = pow2((ea - 1) as nat);
        let q = pow2((eb - 1) as nat);
        lemma_pow2_adds(1, (ea - 1) as nat);
        lemma2_to64();
        assert(pow2(ea) == 2 * p);
        if ea < eb - 1 {
            lemma_pow2_strictly_increases(ea, (eb - 1) as nat);
        }
        assert(q >= 2 * p);
        assert((fa + span) * p < (2 * span) * p) by (nonlinear_arith)
            requires
                fa < span,
                p > 0,
        ;
        assert((2 * span) * p == span * (2 * p)) by (nonlinear_arith);
        assert(span * (2 * p) <= span * q) by (nonlinear_arith)
            requires
                2 * p <= q,
        ;
        assert(span * q <= (fb + span) * q) by (nonlinear_arith);
    }
}

/// A normal pattern whose significand is a shifted integer denotes that integer.
pub proof fn lemma_denotes(bits: u64, n: nat)
    requires
        FRACTION_SPAN <= bits < SIGN_BIT,
        bits / FRACTION_SPAN <= 1075,
        bits % FRACTION_SPAN + FRACTION_SPAN == n * pow2((1075 - bits / FRACTION_SPAN) as nat),
    ensures
        (Double { bits }).denotes(n as int),
{
    let exponent = (bits / FRACTION_SPAN) as nat;
    let scale = (exponent - 1) as nat;
    let drop = (1075 - exponent) as nat;
    lemma_pow2_adds(scale, drop);
    assert((n * pow2(drop)) * pow2(scale) == n * one()) by (nonlinear_arith)
        requires
            one() == pow2(scale) * pow2(drop),
    ;
    assert(bits as nat / FRACTION_SPAN as nat == exponent);
    assert(bits as nat % FRACTION_SPAN as nat == bits % FRACTION_SPAN);
}

/// What lies between two integers rounds to something between them.
pub proof fn lemma_round_between(units: int, low: int, high: int)
    requires
        low * one() <= units <= high * one(),
    ensures
        low <= round_half_away(units) <= high,
{
    let d = one() as int;
    lemma_pow2_pos(1074);
    if units >= 0 {
        assert(low <= (2 * units + d) / (2 * d) <= high) by (nonlinear_arith)
            requires
                low * d <= units <= high * d,
                d > 0,
        ;
    } else {
        assert(-high <= (d - 2 * units) / (2 * d) <= -low) by (nonlinear_arith)
            requires
                low * d <= units <= high * d,
                d > 0,
        ;
    }
}

/// An integer in the range of `i32` rounds to itself.
pub proof fn lemma_round_integer(value: Double, n: int)
    requires
        value.denotes(n),
        i32::MIN <= n <= i32::MAX,
    ensures
        value.rounded() == n,
{
    lemma_round_between(value.units(), n, n);
}

/// Rounding gives the nearest integer, and lesser values never round to greater ones.
pub proof fn law_rounding_is_nearest(value: Double, greater: Double)
    requires
        !value.is_nan(),
        !greater.is_nan(),
        value.units() <= greater.units(),
    ensures
        i32::MIN < value.rounded() < i32::MAX ==> {
            let error = value.rounded() * one() - value.units();
            -(one() as int) <= 2 * error <= one()
        },
        value.rounded() <= greater.rounded(),
{
    lemma_pow2_pos(1074);
    lemma_round_error(value.units());
    lemma_round_monotone(value.units(), greater.units());
}

/// What a value rounds to is the nearest integer, the further from zero of two, within the range of
/// `i32`.
pub proof fn law_rounding(value: Double)
    ensures
        value.rounds_to(value.rounded() as int),
{
    lemma_pow2_pos(1074);
    let d = one() as int;
    let u = value.units();
    let q = round_half_away(u);
    lemma_round_error(u);
    if !value.is_nan() {
        if 2 * u >= (2 * i32::MAX + 1) * d {
            assert(u >= 0 && q > 0x7fff_ffff) by (nonlinear_arith)
                requires
                    2 * u >= (2 * 0x7fff_ffff + 1) * d,
                    u >= 0 ==> -d < 2 * (q * d - u),
                    d > 0,
            ;
        } else if 2 * u <= (2 * i32::MIN - 1) * d {
            assert(u < 0 && q < -0x8000_0000) by (nonlinear_arith)
                requires
                    2 * u <= (2 * -0x8000_0000 - 1) * d,
                    u < 0 ==> 2 * (q * d - u) < d,
                    d > 0,
            ;
        } else {
            assert(-0x8000_0000 <= q <= 0x7fff_ffff) by (nonlinear_arith)
                requires
                    (2 * -0x8000_0000 - 1) * d < 2 * u < (2 * 0x7fff_ffff + 1) * d,
                    -d <= 2 * (q * d - u) <= d,
                    d > 0,
            ;
        }
    }
}

/// A value rounds to one integer only.
pub proof fn law_rounding_is_unique(value: Double, n: int, m: int)
    requires
        value.rounds_to(n),
        value.rounds_to(m),
    ensures
        n == m,
{
    lemma_pow2_pos(1074);
    let d = one() as int;
    let u = value.units();
    if n != m && -d <= 2 * (n * d - u) <= d && -d <= 2 * (m * d - u) <= d {
        if n < m {
            assert(2 * (n * d - u) == -d && 2 * (m * d - u) == d) by (nonlinear_arith)
                requires
                    n + 1 <= m,
                    d > 0,
                    -d <= 2 * (n * d - u),
                    2 * (m * d - u) <= d,
            ;
        } else {
            assert(2 * (m * d - u) == -d && 2 * (n * d - u) == d) by (nonlinear_arith)
                requires
                    m + 1 <= n,
                    d > 0,
                    -d <= 2 * (m * d - u),
                    2 * (n * d - u) <= d,
            ;
        }
    }
}

/// What the fields of a bit pattern denote: sign, exponent and fraction, the latter with a leading
/// one unless the exponent is zero. The greatest exponent is that of infinity and of NaNs.
pub proof fn law_fields_denote_value(negative: bool, exponent: nat, fraction: nat)
    requires
        exponent < 2048,
        fraction < 0x10_0000_0000_0000,
    ensures
        ({
            let sign: int = if negative {
                0x8000_0000_0000_0000
            } else {
                0
            };
            let value = Double { bits: (sign + exponent * 0x10_0000_0000_0000 + fraction) as u64 };
            let magnitude: nat = if exponent == 0 {
                fraction
            } else {
                (0x10_0000_0000_0000 + fraction) * pow2((exponent - 1) as nat)
            };
            &&& value.is_nan() <==> exponent == 2047 && fraction > 0
            &&& value.units() == if negative {
                -(magnitude as int)
            } else {
                magnitude as int
            }
        }),
{
    let pattern = exponent * 0x10_0000_0000_0000 + fraction;
    assert(pattern / 0x10_0000_0000_0000 == exponent);
    assert(pattern % 0x10_0000_0000_0000 == fraction);
    assert((0x8000_0000_0000_0000 + pattern) % 0x8000_0000_0000_0000 == pattern);
    assert(pattern % 0x8000_0000_0000_0000 == pattern);
}

/// One value is less than another exactly where both are numbers and it denotes less.
pub proof fn law_order_is_that_of_the_numbers(value: Double, other: Double, n: int, m: int)
    ensures
        value.is_nan() || other.is_nan() ==> !value.below(other),
        value.denotes(n) && other.denotes(m) ==> (value.below(other) <==> n < m),
        !value.is_nan() && !other.is_nan() ==> {
            ||| value.below(other) && value.units() < other.units() && !other.below(value)
            ||| other.below(value) && other.units() < value.units() && !value.below(other)
            ||| value.units() == other.units() && !value.below(other) && !other.below(value)
        },
{
    lemma_pow2_pos(1074);
    let d = one() as int;
    assert(n < m <==> n * d < m * d) by (nonlinear_arith)
        requires
            d > 0,
    ;
}

/// Clamping leaves what lies between the ends as it is, gives the nearer end for every other
/// number, and leaves a NaN as it is.
pub proof fn law_clamping(value: Double, low: Double, high: Double)
    requires
        !low.is_nan(),
        !high.is_nan(),
        low.units() <= high.units(),
    ensures
        ({
            let kept = value.clamped(low, high);
            &&& value.is_nan() ==> kept == value
            &&& !value.is_nan() ==> {
                &&& low.units() <= kept.units() <= high.units()
                &&& low.units() <= value.units() <= high.units() ==> kept == value
                &&& value.units() < low.units() ==> kept == low
                &&& value.units() > high.units() ==> kept == high
            }
        }),
{
}

/// Values of opposite sign and equal magnitude round to opposite integers, as long as neither is
/// beyond the range of `i32`.
pub proof fn law_opposite_values_round_to_opposites(value: Double, opposite: Double)
    requires
        !value.is_nan(),
        !opposite.is_nan(),
        value.units() == -opposite.units(),
        -i32::MAX <= round_half_away(value.units()) <= i32::MAX,
    ensures
        value.rounded() == -opposite.rounded(),
{
    if value.units() == 0 {
        lemma_round_between(0, 0, 0);
    }
}

/// The rounding error is at most one half.
proof fn lemma_round_error(units: int)
    ensures
        -(one() as int) <= 2 * (round_half_away(units) * one() - units) <= one(),
        units >= 0 ==> -(one() as int) < 2 * (round_half_away(units) * one() - units),
        units < 0 ==> 2 * (round_half_away(units) * one() - units) < one(),
        units == 0 ==> round_half_away(units) == 0,
{
    lemma_pow2_pos(1074);
    let d = one() as int;
    if units >= 0 {
        let q = (2 * units + d) / (2 * d);
        vstd::arithmetic::div_mod::lemma_fundamental_div_mod(2 * units + d, 2 * d);
        if units == 0 {
            lemma_round_between(0, 0, 0);
        }
        assert(-d < 2 * (q * d - units) <= d) by (nonlinear_arith)
            requires
                d > 0,
                2 * units + d == (2 * d) * q + (2 * units + d) % (2 * d),
                0 <= (2 * units + d) % (2 * d) < 2 * d,
        ;
    } else {
        let q = (d - 2 * units) / (2 * d);
        vstd::arithmetic::div_mod::lemma_fundamental_div_mod(d - 2 * units, 2 * d);
        assert(-d <= 2 * (-q * d - units) < d) by (nonlinear_arith)
            requires
                d > 0,
                d - 2 * units == (2 * d) * q + (d - 2 * units) % (2 * d),
                0 <= (d - 2 * units) % (2 * d) < 2 * d,
        ;
    }
}

/// Rounding keeps the order.
proof fn lemma_round_monotone(less: int, more: int)
    requires
        less <= more,
    ensures
        round_half_away(less) <= round_half_away(more),
{
    lemma_pow2_pos(1074);
    let d = one() as int;
    if less >= 0 {
        vstd::arithmetic::div_mod::lemma_div_is_ordered(2 * less + d, 2 * more + d, 2 * d);
    } else if more < 0 {
        vstd::arithmetic::div_mod::lemma_div_is_ordered(d - 2 * more, d - 2 * less, 2 * d);
    } else {
        vstd::arithmetic::div_mod::lemma_div_pos_is_pos(d - 2 * less, 2 * d);
        vstd::arithmetic::div_mod::lemma_div_pos_is_pos(2 * more + d, 2 * d);
    }
}

} // verus!
