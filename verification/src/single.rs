//! Single-precision arithmetic on integers.
//!
//! Strengths, error chances and damage are binary32 numbers: the wire format
//! prints them as such, and a bot's mistake may hang on the last bit of one.
//! This module computes them with integers, so that every rounding step is
//! part of a contract.

use vstd::prelude::*;

verus! {

/// Units in one: a unit is 2^-40.
pub const ONE: u64 = 0x100_0000_0000;

/// A binary32 significand is below this: it holds 24 bits.
pub const SIGNIFICAND: u64 = 0x100_0000;

/// Values go up to 128, which is this many units.
pub const LIMIT: u64 = 0x8000_0000_0000;

/// Whether that many units are a binary32 number: at most 24 significant bits.
pub open spec fn representable(units: int) -> bool
    decreases units,
{
    0 <= units && (units < SIGNIFICAND || (units % 2 == 0 && representable(units / 2)))
}

/// The integer nearest to `num / den`, the even one of two that are equally near.
pub open spec fn half_even(num: int, den: int) -> int {
    let below = num / den;
    let rest = num % den;
    if 2 * rest < den || (2 * rest == den && below % 2 == 0) {
        below
    } else {
        below + 1
    }
}

/// `num / den` units, rounded to 24 significant bits, ties to even. Results
/// below 2^23 units are rounded to whole units.
pub open spec fn rounded(num: int, den: int) -> int
    decreases num - den,
    when den > 0
{
    if num < den * SIGNIFICAND {
        half_even(num, den)
    } else {
        2 * rounded(num, 2 * den)
    }
}

/// The units of the quotient `num / den`.
pub open spec fn ratio_units(num: int, den: int) -> int {
    rounded(num * ONE, den)
}

/// The units of the sum of `a` and `b` units.
pub open spec fn plus_units(a: int, b: int) -> int {
    rounded(a + b, 1)
}

/// The units of the difference of `a` and `b` units.
pub open spec fn minus_units(a: int, b: int) -> int {
    rounded(a - b, 1)
}

/// The units of the product of `a` and `b` units.
pub open spec fn times_units(a: int, b: int) -> int {
    rounded(a * b, ONE as int)
}

/// `units`, or the bound that it lies beyond.
pub open spec fn clamp_units(units: int, low: int, high: int) -> int {
    if units < low {
        low
    } else if units > high {
        high
    } else {
        units
    }
}

/// The whole number nearest to that many units, the larger one of two that
/// are equally near.
pub open spec fn whole(units: int) -> int {
    (units + ONE / 2) / (ONE as int)
}

/// A binary32 number from 0 up to 128.
#[derive(Clone, Copy, Debug, PartialEq, Eq, Structural)]
pub struct Single {
    pub units: u64,
}

impl View for Single {
    type V = int;

    open spec fn view(&self) -> int {
        self.units as int
    }
}

/// The nearest integer is as near as any.
proof fn lemma_half_even(num: int, den: int, w: int)
    requires
        den > 0,
    ensures
        -den <= 2 * (half_even(num, den) * den - num) <= den,
        vstd::math::abs(half_even(num, den) * den - num) <= vstd::math::abs(w * den - num),
{
    let below = num / den;
    let rest = num % den;
    assert(num == den * below + rest && 0 <= rest < den) by (nonlinear_arith)
        requires
            den > 0,
            below == num / den,
            rest == num % den,
    ;
    assert(below * den == den * below) by (nonlinear_arith);
    assert((below + 1) * den == below * den + den) by (nonlinear_arith);
    if w <= below {
        assert(w * den <= below * den) by (nonlinear_arith)
            requires
                w <= below,
                den > 0,
        ;
    } else {
        assert(w * den >= (below + 1) * den) by (nonlinear_arith)
            requires
                w >= below + 1,
                den > 0,
        ;
    }
}

proof fn lemma_half_even_range(num: int, den: int, bound: int)
    requires
        den > 0,
        0 <= num <= den * bound,
    ensures
        0 <= half_even(num, den) <= bound,
{
    let below = num / den;
    let rest = num % den;
    assert(num == den * below + rest && 0 <= rest < den && 0 <= below <= bound && (below == bound
        ==> rest == 0)) by (nonlinear_arith)
        requires
            den > 0,
            0 <= num <= den * bound,
            below == num / den,
            rest == num % den,
    ;
}

/// Rounding gives a binary32 number.
pub proof fn lemma_rounded_representable(num: int, den: int)
    requires
        den > 0,
        num >= 0,
    ensures
        representable(rounded(num, den)),
    decreases num - den,
{
    if num < den * SIGNIFICAND {
        lemma_half_even_range(num, den, SIGNIFICAND as int);
        let r = half_even(num, den);
        if r == SIGNIFICAND {
            assert(representable(SIGNIFICAND as int / 2));
        }
    } else {
        lemma_rounded_representable(num, 2 * den);
        let r = rounded(num, 2 * den);
        assert((2 * r) / 2 == r);
        if 2 * r < SIGNIFICAND {
        } else {
            assert(representable(2 * r));
        }
    }
}

/// Rounding is to the nearest: no binary32 number lies closer to `num / den`
/// units than the rounded one.
pub proof fn lemma_rounded_nearest(num: int, den: int, w: int)
    requires
        den > 0,
        num >= 0,
        representable(w),
    ensures
        vstd::math::abs(rounded(num, den) * den - num) <= vstd::math::abs(w * den - num),
    decreases num - den,
{
    if num < den * SIGNIFICAND {
        lemma_half_even(num, den, w);
    } else {
        let r = rounded(num, 2 * den);
        assert(r * (2 * den) == (2 * r) * den) by (nonlinear_arith);
        if w % 2 == 0 {
            lemma_rounded_nearest(num, 2 * den, w / 2);
            assert((w / 2) * (2 * den) == w * den) by (nonlinear_arith)
                requires
                    w % 2 == 0,
            ;
        } else {
            let v = (w + 1) / 2;
            lemma_rounded_nearest(num, 2 * den, v);
            assert(v * (2 * den) == w * den + den) by (nonlinear_arith)
                requires
                    w % 2 == 1,
                    v == (w + 1) / 2,
            ;
            assert((w + 1) * den <= den * SIGNIFICAND) by (nonlinear_arith)
                requires
                    w + 1 <= SIGNIFICAND,
                    den > 0,
            ;
            assert((w + 1) * den == w * den + den) by (nonlinear_arith);
        }
    }
}

/// Rounding does not cross a binary32 number.
pub proof fn lemma_rounded_bounds(num: int, den: int, w: int)
    requires
        den > 0,
        num >= 0,
        representable(w),
    ensures
        num <= w * den ==> rounded(num, den) <= w,
        num >= w * den ==> rounded(num, den) >= w,
{
    lemma_rounded_nearest(num, den, w);
    let r = rounded(num, den);
    if r > w {
        assert(r * den > w * den) by (nonlinear_arith)
            requires
                r > w,
                den > 0,
        ;
    }
    if r < w {
        assert(r * den < w * den) by (nonlinear_arith)
            requires
                r < w,
                den > 0,
        ;
    }
}

/// Rounding keeps the order of values.
pub proof fn lemma_rounded_monotone(low: int, high: int, den: int)
    requires
        den > 0,
        0 <= low <= high,
    ensures
        rounded(low, den) <= rounded(high, den),
{
    let a = rounded(low, den);
    let b = rounded(high, den);
    lemma_rounded_representable(low, den);
    lemma_rounded_representable(high, den);
    lemma_rounded_nearest(low, den, b);
    lemma_rounded_nearest(high, den, a);
    if b < a {
        assert(b * den < a * den) by (nonlinear_arith)
            requires
                b < a,
                den > 0,
        ;
    }
}

proof fn lemma_limit_representable()
    ensures
        representable(LIMIT as int),
{
    reveal_with_fuel(representable, 25);
}

/// One, two and four are binary32 numbers.
pub proof fn lemma_small_wholes()
    ensures
        representable(ONE as int),
        representable(2 * ONE),
        representable(4 * ONE),
{
    reveal_with_fuel(representable, 20);
}

/// Where a fraction that is not too small lies.
pub proof fn lemma_ratio_range(num: int, den: int)
    requires
        1 <= num <= den <= 128 * num,
    ensures
        0x2_0000_0000 <= ratio_units(num, den) <= ONE,
{
    reveal_with_fuel(representable, 20);
    lemma_rounded_bounds(num * ONE, den, 0x2_0000_0000);
    lemma_rounded_bounds(num * ONE, den, ONE as int);
    assert(0x2_0000_0000 * den <= num * ONE <= ONE * den) by (nonlinear_arith)
        requires
            1 <= num <= den <= 128 * num,
            ONE == 0x100_0000_0000,
    ;
}

/// The product of two numbers up to one is no larger than one.
pub proof fn lemma_times_range(a: int, b: int)
    requires
        0 <= a <= ONE,
        0 <= b <= ONE,
    ensures
        0 <= a * b <= ONE * ONE,
        0 <= times_units(a, b) <= ONE,
{
    lemma_small_wholes();
    assert(0 <= a * b <= ONE * ONE) by (nonlinear_arith)
        requires
            0 <= a <= ONE,
            0 <= b <= ONE,
    ;
    lemma_rounded_bounds(a * b, ONE as int, ONE as int);
    lemma_rounded_representable(a * b, ONE as int);
}

/// A sum does not exceed a bound that is a binary32 number.
pub proof fn lemma_plus_range(a: int, b: int, w: int)
    requires
        0 <= a,
        0 <= b,
        a + b <= w,
        representable(w),
    ensures
        0 <= plus_units(a, b) <= w,
{
    lemma_rounded_bounds(a + b, 1, w);
    lemma_rounded_representable(a + b, 1);
}

/// How far rounding can move a value: half a step of the scale that it is on.
pub proof fn lemma_rounded_close(num: int, den: int, step: nat)
    requires
        den > 0,
        0 <= num < den * (SIGNIFICAND * vstd::arithmetic::power2::pow2(step)),
    ensures
        2 * vstd::math::abs(rounded(num, den) * den - num) <= den
            * vstd::arithmetic::power2::pow2(step),
    decreases step,
{
    vstd::arithmetic::power2::lemma_pow2_pos(step);
    let p = vstd::arithmetic::power2::pow2(step);
    if num < den * SIGNIFICAND {
        lemma_half_even(num, den, 0);
        assert(den <= den * p) by (nonlinear_arith)
            requires
                den > 0,
                p >= 1,
        ;
    } else {
        if step == 0 {
            vstd::arithmetic::power2::lemma2_to64();
        }
        vstd::arithmetic::power2::lemma_pow2_unfold(step);
        let q = vstd::arithmetic::power2::pow2((step - 1) as nat);
        let r = rounded(num, 2 * den);
        assert(den * (SIGNIFICAND * p) == (2 * den) * (SIGNIFICAND * q)) by (nonlinear_arith)
            requires
                p == 2 * q,
        ;
        assert(den * p == (2 * den) * q) by (nonlinear_arith)
            requires
                p == 2 * q,
        ;
        lemma_rounded_close(num, 2 * den, (step - 1) as nat);
        assert(r * (2 * den) == (2 * r) * den) by (nonlinear_arith);
    }
}

/// `num / den` units, rounded.
fn round_ratio(num: u128, den: u128) -> (units: u64)
    requires
        0 < den <= 0x100_0000_0000,
        num <= den * LIMIT,
    ensures
        units == rounded(num as int, den as int),
        representable(units as int),
        units <= LIMIT,
{
    let mut step: u128 = 1;
    let mut scaled: u128 = den;
    proof {
        lemma_rounded_representable(num as int, den as int);
        lemma_limit_representable();
        assert(den * LIMIT == LIMIT * den) by (nonlinear_arith);
        lemma_rounded_bounds(num as int, den as int, LIMIT as int);
    }
    while num >= scaled * 0x100_0000
        invariant
            0 < den <= 0x100_0000_0000,
            num <= den * LIMIT,
            scaled == den * step,
            1 <= step <= 0x100_0000,
            0 < scaled <= 0x1_0000_0000_0000_0000,
            rounded(num as int, den as int) == step * rounded(num as int, scaled as int),
        decreases 0x200_0000 - step,
    {
        proof {
            assert(step <= 0x80_0000) by (nonlinear_arith)
                requires
                    num >= scaled * 0x100_0000,
                    scaled == den * step,
                    num <= den * 0x8000_0000_0000,
                    den > 0,
            ;
        }
        proof {
            assert(scaled * 2 == den * (step * 2)) by (nonlinear_arith)
                requires
                    scaled == den * step,
            ;
            assert(den * (step * 2) <= 0x100_0000_0000 * 0x100_0000) by (nonlinear_arith)
                requires
                    0 < den <= 0x100_0000_0000,
                    step <= 0x80_0000,
            ;
            assert(step * (2 * rounded(num as int, 2 * scaled as int)) == (step * 2) * rounded(
                num as int,
                2 * scaled as int,
            )) by (nonlinear_arith);
        }
        scaled = scaled * 2;
        step = step * 2;
    }
    let below = num / scaled;
    let rest = num % scaled;
    let nearest = if 2 * rest < scaled || (2 * rest == scaled && below % 2 == 0) {
        below
    } else {
        below + 1
    };
    assert(nearest == half_even(num as int, scaled as int));
    assert(step * nearest == rounded(num as int, den as int));
    (step * nearest) as u64
}

impl Single {
    /// Whether the units are those of a binary32 number up to 128.
    pub open spec fn wf(self) -> bool {
        representable(self@) && self.units <= LIMIT
    }

    /// The quotient of two whole numbers: zero, or no smaller than 2^-17, from
    /// where on a unit is fine enough for 24 significant bits.
    pub fn ratio(num: u32, den: u32) -> (quotient: Single)
        requires
            0 < den < SIGNIFICAND,
            num < SIGNIFICAND,
            num <= 128 * den,
            num == 0 || den <= num * 0x2_0000,
        ensures
            quotient@ == ratio_units(num as int, den as int),
            quotient.wf(),
    {
        assert(num * ONE <= den * LIMIT && num * ONE < 0x1_0000_0000_0000_0000) by (nonlinear_arith)
            requires
                num <= 128 * den,
                num < 0x100_0000,
                ONE == 0x100_0000_0000,
                LIMIT == 128 * ONE,
        ;
        Single { units: round_ratio(num as u128 * ONE as u128, den as u128) }
    }

    /// The sum.
    pub fn plus(self, other: Single) -> (sum: Single)
        requires
            self.wf(),
            other.wf(),
            self@ + other@ <= LIMIT,
        ensures
            sum@ == plus_units(self@, other@),
            sum.wf(),
    {
        Single { units: round_ratio(self.units as u128 + other.units as u128, 1) }
    }

    /// The difference.
    pub fn minus(self, other: Single) -> (difference: Single)
        requires
            self.wf(),
            other.wf(),
            other@ <= self@,
        ensures
            difference@ == minus_units(self@, other@),
            difference.wf(),
    {
        Single { units: round_ratio((self.units - other.units) as u128, 1) }
    }

    /// The product: zero, or no smaller than 2^-17.
    pub fn times(self, other: Single) -> (product: Single)
        requires
            self.wf(),
            other.wf(),
            self@ * other@ <= ONE * LIMIT,
            self@ * other@ == 0 || self@ * other@ >= ONE * 0x80_0000,
        ensures
            product@ == times_units(self@, other@),
            product.wf(),
    {
        assert(self.units * other.units <= ONE * LIMIT);
        Single { units: round_ratio(self.units as u128 * other.units as u128, ONE as u128) }
    }

    /// The number itself, or the bound that it lies beyond.
    pub fn clamp(self, low: Single, high: Single) -> (clamped: Single)
        requires
            self.wf(),
            low.wf(),
            high.wf(),
            low@ <= high@,
        ensures
            clamped@ == clamp_units(self@, low@, high@),
            clamped.wf(),
    {
        if self.units < low.units {
            low
        } else if self.units > high.units {
            high
        } else {
            self
        }
    }

    /// Whether the number is the smaller one.
    pub fn less(self, other: Single) -> (smaller: bool)
        ensures
            smaller == (self@ < other@),
    {
        self.units < other.units
    }

    /// The nearest whole number, away from zero where two are equally near.
    pub fn round(self) -> (nearest: i32)
        requires
            self.wf(),
        ensures
            nearest == whole(self@),
    {
        ((self.units + ONE / 2) / ONE) as i32
    }
}

/// Every number of at most 24 significant bits is a binary32 number: up to
/// 2^24 times a power of two.
pub proof fn lemma_representable(significand: int, exponent: nat)
    requires
        0 <= significand <= 0x100_0000,
    ensures
        representable(significand * vstd::arithmetic::power2::pow2(exponent)),
    decreases exponent,
{
    vstd::arithmetic::power2::lemma2_to64();
    let p = vstd::arithmetic::power2::pow2(exponent);
    if exponent == 0 {
        assert(significand * p == significand);
        if significand == SIGNIFICAND {
            assert(representable(SIGNIFICAND as int / 2));
        }
    } else {
        let q = vstd::arithmetic::power2::pow2((exponent - 1) as nat);
        vstd::arithmetic::power2::lemma_pow2_unfold(exponent);
        lemma_representable(significand, (exponent - 1) as nat);
        assert(significand * p == 2 * (significand * q)) by (nonlinear_arith)
            requires
                p == 2 * q,
        ;
        assert((2 * (significand * q)) / 2 == significand * q);
        assert(significand * q >= 0) by (nonlinear_arith)
            requires
                significand >= 0,
                q >= 0,
        ;
    }
}

/// A binary32 number has at most 24 significant bits: from 2^24 units on it is
/// even, and its half is one too; and there are no negative ones.
pub proof fn lemma_represented(units: int)
    requires
        representable(units),
    ensures
        units >= 0,
        units >= 0x100_0000 ==> units % 2 == 0 && representable(units / 2),
{
}

/// Of two whole units that are equally near, rounding takes the even one.
pub proof fn lemma_rounded_ties(num: int, den: int, below: int)
    requires
        den > 0,
        0 <= below < 0xff_ffff,
        2 * num == (2 * below + 1) * den,
    ensures
        below % 2 == 0 ==> rounded(num, den) == below,
        below % 2 == 1 ==> rounded(num, den) == below + 1,
{
    let half = num - below * den;
    assert(2 * half == den && num == den * below + half) by (nonlinear_arith)
        requires
            2 * num == (2 * below + 1) * den,
            half == num - below * den,
    ;
    assert(num / den == below && num % den == half) by (nonlinear_arith)
        requires
            num == den * below + half,
            2 * half == den,
            den > 0,
    ;
    assert(num < den * SIGNIFICAND) by (nonlinear_arith)
        requires
            num == den * below + half,
            2 * half == den,
            den > 0,
            below < 0xff_ffff,
            SIGNIFICAND == 0x100_0000,
    ;
}

/// From 2^23 units on, twice a value is rounded to twice what the value is.
pub proof fn lemma_rounded_scales(num: int, den: int)
    requires
        den > 0,
        num >= den * 0x80_0000,
    ensures
        rounded(2 * num, den) == 2 * rounded(num, den),
    decreases num - den,
{
    assert(2 * num >= den * SIGNIFICAND) by (nonlinear_arith)
        requires
            num >= den * 0x80_0000,
            SIGNIFICAND == 0x100_0000,
    ;
    assert(rounded(2 * num, den) == 2 * rounded(2 * num, 2 * den));
    lemma_rounded_common_factor(num, den);
}

/// Rounding only depends on the quotient: a common factor of two cancels out.
pub proof fn lemma_rounded_common_factor(num: int, den: int)
    requires
        den > 0,
        num >= 0,
    ensures
        rounded(2 * num, 2 * den) == rounded(num, den),
    decreases num - den,
{
    if num < den * SIGNIFICAND {
        let below = num / den;
        let rest = num % den;
        assert(num == den * below + rest && 0 <= rest < den) by (nonlinear_arith)
            requires
                den > 0,
                below == num / den,
                rest == num % den,
        ;
        assert((2 * num) / (2 * den) == below && (2 * num) % (2 * den) == 2 * rest) by (
        nonlinear_arith)
            requires
                num == den * below + rest,
                0 <= rest < den,
        ;
    } else {
        lemma_rounded_common_factor(num, 2 * den);
    }
}

/// Sums, differences, products and quotients are binary32 numbers, and no
/// binary32 number lies nearer to the exact result.
pub proof fn lemma_arithmetic(a: int, b: int, w: int)
    requires
        0 <= a,
        0 <= b,
        representable(w),
    ensures
        representable(plus_units(a, b)),
        vstd::math::abs(plus_units(a, b) - (a + b)) <= vstd::math::abs(w - (a + b)),
        b <= a ==> representable(minus_units(a, b)),
        b <= a ==> vstd::math::abs(minus_units(a, b) - (a - b)) <= vstd::math::abs(w - (a - b)),
        representable(times_units(a, b)),
        vstd::math::abs(times_units(a, b) * 0x100_0000_0000 - a * b) <= vstd::math::abs(
            w * 0x100_0000_0000 - a * b,
        ),
        0 < b ==> representable(ratio_units(a, b)),
        0 < b ==> vstd::math::abs(ratio_units(a, b) * b - a * 0x100_0000_0000) <= vstd::math::abs(
            w * b - a * 0x100_0000_0000,
        ),
{
    lemma_rounded_representable(a + b, 1);
    lemma_rounded_nearest(a + b, 1, w);
    if b <= a {
        lemma_rounded_representable(a - b, 1);
        lemma_rounded_nearest(a - b, 1, w);
    }
    assert(a * b >= 0) by (nonlinear_arith)
        requires
            a >= 0,
            b >= 0,
    ;
    lemma_rounded_representable(a * b, ONE as int);
    lemma_rounded_nearest(a * b, ONE as int, w);
    if 0 < b {
        lemma_rounded_representable(a * ONE, b);
        lemma_rounded_nearest(a * ONE, b, w);
    }
}

/// A number is kept within bounds: it is left alone between them, and is the
/// nearer bound beyond them.
pub proof fn lemma_clamp(units: int, low: int, high: int)
    requires
        low <= high,
    ensures
        low <= clamp_units(units, low, high) <= high,
        low <= units <= high ==> clamp_units(units, low, high) == units,
        units < low ==> clamp_units(units, low, high) == low,
        units > high ==> clamp_units(units, low, high) == high,
{
}

/// A whole number of ones is nearest, within a half, and the larger one of two
/// that are equally near.
pub proof fn lemma_whole(units: int)
    ensures
        -0x80_0000_0000 < whole(units) * 0x100_0000_0000 - units <= 0x80_0000_0000,
{
}

/// Sums, differences, products and quotients are the exact results, rounded
/// once.
pub proof fn lemma_rounded_once(a: int, b: int)
    ensures
        plus_units(a, b) == rounded(a + b, 1),
        minus_units(a, b) == rounded(a - b, 1),
        times_units(a, b) == rounded(a * b, 0x100_0000_0000),
        ratio_units(a, b) == rounded(a * 0x100_0000_0000, b),
{
}

/// A number is so many units of 2^-40, as it holds them.
pub proof fn lemma_single_view(number: Single)
    ensures
        number@ == number.units,
        number.wf() <==> representable(number.units as int) && number.units <= 0x8000_0000_0000,
{
}

} // verus!
