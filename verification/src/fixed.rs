//! Signed fixed-point numbers with 32 fractional bits and saturating
//! arithmetic. Every operation is total: a result outside the representable
//! range is clamped to the nearest bound, a quotient is truncated toward zero,
//! and division by zero gives zero. Beside the product that is truncated
//! stands one that is rounded away from zero, for where the sign of a small
//! product must not be lost.

use vstd::prelude::*;

verus! {

/// The raw value that represents one.
pub const ONE_RAW: i64 = 0x1_0000_0000;

/// The raw value nearest to the circle constant: 3.14159265358979...
pub const PI_RAW: i64 = 13493037705;

/// A fixed-point number: it stands for `raw / 2^32`.
#[derive(Clone, Copy, Debug, PartialEq, Eq, Structural)]
pub struct Fixed {
    pub raw: i64,
}

/// The integer `x` clamped into the range of `i64`.
pub open spec fn saturate(x: int) -> i64 {
    if x < i64::MIN {
        i64::MIN
    } else if x > i64::MAX {
        i64::MAX
    } else {
        x as i64
    }
}

/// The quotient of `x` by `d`, truncated toward zero, for `d != 0`.
pub open spec fn quot(x: int, d: int) -> int {
    if d > 0 {
        if x >= 0 {
            x / d
        } else {
            -((-x) / d)
        }
    } else {
        if x >= 0 {
            -(x / (-d))
        } else {
            (-x) / (-d)
        }
    }
}

/// The quotient of `x` by `d`, rounded away from zero, for `d > 0`: zero for
/// zero only.
pub open spec fn quot_outward(x: int, d: int) -> int {
    if x >= 0 {
        (x + d - 1) / d
    } else {
        -((-x + d - 1) / d)
    }
}

/// The wide integer `x` clamped into the range of `i64`.
fn clamp_wide(x: i128) -> (r: i64)
    ensures
        r == saturate(x as int),
{
    if x < -0x8000_0000_0000_0000i128 {
        -0x8000_0000_0000_0000i64
    } else if x > 0x7fff_ffff_ffff_ffffi128 {
        0x7fff_ffff_ffff_ffffi64
    } else {
        x as i64
    }
}

/// The absolute value of `x`.
fn magnitude(x: i64) -> (r: u128)
    ensures
        r == if x < 0 { -(x as int) } else { x as int },
        r <= 0x8000_0000_0000_0000,
{
    if x < 0 {
        (-(x as i128)) as u128
    } else {
        x as u128
    }
}

impl Fixed {
    /// Zero.
    pub open spec fn spec_zero() -> Fixed {
        Fixed { raw: 0 }
    }

    /// One.
    pub open spec fn spec_one() -> Fixed {
        Fixed { raw: ONE_RAW }
    }

    /// The circle constant, to the nearest representable value.
    pub open spec fn spec_pi() -> Fixed {
        Fixed { raw: PI_RAW }
    }

    /// The whole number `n`.
    pub open spec fn spec_from_int(n: i32) -> Fixed {
        Fixed { raw: (n as int * ONE_RAW as int) as i64 }
    }

    /// The sum, clamped.
    pub open spec fn spec_plus(self, other: Fixed) -> Fixed {
        Fixed { raw: saturate(self.raw as int + other.raw as int) }
    }

    /// The difference, clamped.
    pub open spec fn spec_minus(self, other: Fixed) -> Fixed {
        Fixed { raw: saturate(self.raw as int - other.raw as int) }
    }

    /// The opposite number, clamped.
    pub open spec fn spec_negated(self) -> Fixed {
        Fixed { raw: saturate(-(self.raw as int)) }
    }

    /// The product, truncated toward zero and clamped.
    pub open spec fn spec_times(self, other: Fixed) -> Fixed {
        Fixed { raw: saturate(quot(self.raw as int * other.raw as int, ONE_RAW as int)) }
    }

    /// The product, rounded away from zero and clamped: zero only where a
    /// factor is zero.
    pub open spec fn spec_times_outward(self, other: Fixed) -> Fixed {
        Fixed {
            raw: saturate(quot_outward(self.raw as int * other.raw as int, ONE_RAW as int)),
        }
    }

    /// The quotient, truncated toward zero and clamped; zero where `other`
    /// is zero.
    pub open spec fn spec_over(self, other: Fixed) -> Fixed {
        if other.raw == 0 {
            Fixed { raw: 0 }
        } else {
            Fixed { raw: saturate(quot(self.raw as int * ONE_RAW as int, other.raw as int)) }
        }
    }

    /// The quotient of two whole numbers.
    pub open spec fn spec_ratio(num: i32, den: i32) -> Fixed {
        Fixed::spec_from_int(num).spec_over(Fixed::spec_from_int(den))
    }

    /// Whether `self` is less than `other`.
    pub open spec fn spec_lt(self, other: Fixed) -> bool {
        self.raw < other.raw
    }

    /// The square.
    pub open spec fn spec_squared(self) -> Fixed {
        self.spec_times(self)
    }

    /// The third power.
    pub open spec fn spec_cubed(self) -> Fixed {
        self.spec_times(self).spec_times(self)
    }

    /// The number with the given raw value.
    pub fn from_raw(raw: i64) -> (r: Fixed)
        ensures
            r.raw == raw,
    {
        Fixed { raw }
    }

    /// Zero.
    pub fn zero() -> (r: Fixed)
        ensures
            r == Fixed::spec_zero(),
    {
        Fixed { raw: 0 }
    }

    /// One.
    pub fn one() -> (r: Fixed)
        ensures
            r == Fixed::spec_one(),
    {
        Fixed { raw: ONE_RAW }
    }

    /// The circle constant, to the nearest representable value.
    pub fn pi() -> (r: Fixed)
        ensures
            r == Fixed::spec_pi(),
    {
        Fixed { raw: PI_RAW }
    }

    /// The whole number `n`, exactly.
    pub fn from_int(n: i32) -> (r: Fixed)
        ensures
            r == Fixed::spec_from_int(n),
            r.raw == n * ONE_RAW,
    {
        let wide: i64 = n as i64;
        Fixed { raw: wide * ONE_RAW }
    }

    /// The sum, clamped.
    pub fn plus(self, other: Fixed) -> (r: Fixed)
        ensures
            r == self.spec_plus(other),
    {
        Fixed { raw: clamp_wide(self.raw as i128 + other.raw as i128) }
    }

    /// The difference, clamped.
    pub fn minus(self, other: Fixed) -> (r: Fixed)
        ensures
            r == self.spec_minus(other),
    {
        Fixed { raw: clamp_wide(self.raw as i128 - other.raw as i128) }
    }

    /// The opposite number; the opposite of the least number is the greatest.
    pub fn negated(self) -> (r: Fixed)
        ensures
            r == self.spec_negated(),
    {
        Fixed { raw: clamp_wide(-(self.raw as i128)) }
    }

    /// The product, truncated toward zero and clamped.
    pub fn times(self, other: Fixed) -> (r: Fixed)
        ensures
            r == self.spec_times(other),
    {
        let a: i128 = self.raw as i128;
        let b: i128 = other.raw as i128;
        assert(-0x4000_0000_0000_0000_0000_0000_0000_0000 <= a * b
            <= 0x4000_0000_0000_0000_0000_0000_0000_0000) by (nonlinear_arith)
            requires
                -0x8000_0000_0000_0000 <= a <= 0x8000_0000_0000_0000,
                -0x8000_0000_0000_0000 <= b <= 0x8000_0000_0000_0000,
        ;
        let wide: i128 = a * b;
        Fixed { raw: clamp_wide(wide / (ONE_RAW as i128)) }
    }

    /// The product, rounded away from zero and clamped: zero only where a
    /// factor is zero.
    pub fn times_outward(self, other: Fixed) -> (r: Fixed)
        ensures
            r == self.spec_times_outward(other),
    {
        let a: i128 = self.raw as i128;
        let b: i128 = other.raw as i128;
        assert(-0x4000_0000_0000_0000_0000_0000_0000_0000 <= a * b
            <= 0x4000_0000_0000_0000_0000_0000_0000_0000) by (nonlinear_arith)
            requires
                -0x8000_0000_0000_0000 <= a <= 0x8000_0000_0000_0000,
                -0x8000_0000_0000_0000 <= b <= 0x8000_0000_0000_0000,
        ;
        let wide: i128 = a * b;
        let rounded: i128 = if wide >= 0 {
            (wide + 0xffff_ffffi128) / (ONE_RAW as i128)
        } else {
            -((-wide + 0xffff_ffffi128) / (ONE_RAW as i128))
        };
        Fixed { raw: clamp_wide(rounded) }
    }

    /// The quotient, truncated toward zero and clamped; zero where `other` is
    /// zero.
    pub fn over(self, other: Fixed) -> (r: Fixed)
        ensures
            r == self.spec_over(other),
    {
        if other.raw == 0 {
            Fixed { raw: 0 }
        } else {
            let num: u128 = magnitude(self.raw) * 0x1_0000_0000u128;
            let den: u128 = magnitude(other.raw);
            let q: u128 = num / den;
            let wide: i128 = if (self.raw < 0) != (other.raw < 0) {
                -(q as i128)
            } else {
                q as i128
            };
            Fixed { raw: clamp_wide(wide) }
        }
    }

    /// The quotient of two whole numbers.
    pub fn ratio(num: i32, den: i32) -> (r: Fixed)
        ensures
            r == Fixed::spec_ratio(num, den),
    {
        Fixed::from_int(num).over(Fixed::from_int(den))
    }

    /// Whether `self` is less than `other`.
    pub fn lt(self, other: Fixed) -> (r: bool)
        ensures
            r == self.spec_lt(other),
    {
        self.raw < other.raw
    }

    /// The square.
    pub fn squared(self) -> (r: Fixed)
        ensures
            r == self.spec_squared(),
    {
        self.times(self)
    }

    /// The third power.
    pub fn cubed(self) -> (r: Fixed)
        ensures
            r == self.spec_cubed(),
    {
        self.times(self).times(self)
    }
}

/// The product of two numbers that are not negative is not negative.
pub proof fn lemma_times_nonneg(a: Fixed, b: Fixed)
    requires
        a.raw >= 0,
        b.raw >= 0,
    ensures
        a.spec_times(b).raw >= 0,
{
    assert(a.raw as int * b.raw as int >= 0) by (nonlinear_arith)
        requires
            a.raw >= 0,
            b.raw >= 0,
    ;
}

/// A product rounded away from zero, of a positive number and another, has
/// the sign of the other.
pub proof fn lemma_times_outward_sign(a: Fixed, b: Fixed)
    requires
        a.raw > 0,
    ensures
        a.spec_times_outward(b).raw > 0 <==> b.raw > 0,
        a.spec_times_outward(b).raw < 0 <==> b.raw < 0,
{
    let p = a.raw as int * b.raw as int;
    if b.raw > 0 {
        assert(p >= 1) by (nonlinear_arith)
            requires
                p == a.raw as int * b.raw as int,
                a.raw >= 1,
                b.raw >= 1,
        ;
    } else if b.raw < 0 {
        assert(p <= -1) by (nonlinear_arith)
            requires
                p == a.raw as int * b.raw as int,
                a.raw >= 1,
                b.raw <= -1,
        ;
    } else {
        assert(p == 0) by (nonlinear_arith)
            requires
                p == a.raw as int * b.raw as int,
                b.raw == 0,
        ;
    }
}

/// The square of any number is not negative.
pub proof fn lemma_squared_nonneg(a: Fixed)
    ensures
        a.spec_squared().raw >= 0,
{
    assert(a.raw as int * a.raw as int >= 0) by (nonlinear_arith);
}

/// Zero times a number is zero, and zero over a number is zero.
pub proof fn lemma_zero(a: Fixed)
    ensures
        Fixed::spec_zero().spec_times(a) == Fixed::spec_zero(),
        a.spec_times(Fixed::spec_zero()) == Fixed::spec_zero(),
        Fixed::spec_zero().spec_over(a) == Fixed::spec_zero(),
{
    let x = a.raw as int;
    assert(0 * x == 0 && x * 0 == 0) by (nonlinear_arith);
    if x > 0 {
        assert(0int / x == 0) by (nonlinear_arith)
            requires
                x > 0,
        ;
    }
    if x < 0 {
        assert(0int / (-x) == 0) by (nonlinear_arith)
            requires
                x < 0,
        ;
    }
}

/// A number times one is the number, and a number other than zero over
/// itself is one.
pub proof fn lemma_one(a: Fixed)
    ensures
        a.spec_times(Fixed::spec_one()) == a,
        Fixed::spec_one().spec_times(a) == a,
        a.raw != 0 ==> a.spec_over(a) == Fixed::spec_one(),
{
    let one = ONE_RAW as int;
    let x = a.raw as int;
    assert(x * one == one * x) by (nonlinear_arith);
    if x > 0 {
        assert((x * one) / x == one) by (nonlinear_arith)
            requires
                x > 0,
        ;
    }
    if x < 0 {
        assert(((-x) * one) / (-x) == one) by (nonlinear_arith)
            requires
                x < 0,
        ;
        assert(-(x * one) == (-x) * one) by (nonlinear_arith);
    }
}

/// The quotient of two numbers that are not negative is not negative.
pub proof fn lemma_over_nonneg(a: Fixed, b: Fixed)
    requires
        a.raw >= 0,
        b.raw >= 0,
    ensures
        a.spec_over(b).raw >= 0,
{
    if b.raw > 0 {
        let n = a.raw as int * ONE_RAW as int;
        assert(n >= 0);
        assert(n / (b.raw as int) >= 0) by (nonlinear_arith)
            requires
                n >= 0,
                b.raw > 0,
        ;
    }
}

} // verus!
