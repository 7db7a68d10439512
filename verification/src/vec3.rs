//! Vectors of three fixed-point components.

use crate::fixed::{Fixed, ONE_RAW};
use vstd::prelude::*;

verus! {

/// The raw value of how far the squared length of a unit vector may lie from
/// one: two to the power of minus sixteen.
pub const UNIT_TOLERANCE_RAW: i64 = 0x1_0000;

/// A vector in space.
#[derive(Clone, Copy, Debug, PartialEq, Eq, Structural)]
pub struct Vec3 {
    pub x: Fixed,
    pub y: Fixed,
    pub z: Fixed,
}

impl Vec3 {
    /// The zero vector.
    pub open spec fn spec_zero() -> Vec3 {
        Vec3 { x: Fixed::spec_zero(), y: Fixed::spec_zero(), z: Fixed::spec_zero() }
    }

    /// The sum, component by component.
    pub open spec fn spec_plus(self, other: Vec3) -> Vec3 {
        Vec3 {
            x: self.x.spec_plus(other.x),
            y: self.y.spec_plus(other.y),
            z: self.z.spec_plus(other.z),
        }
    }

    /// The difference, component by component.
    pub open spec fn spec_minus(self, other: Vec3) -> Vec3 {
        Vec3 {
            x: self.x.spec_minus(other.x),
            y: self.y.spec_minus(other.y),
            z: self.z.spec_minus(other.z),
        }
    }

    /// The opposite vector.
    pub open spec fn spec_negated(self) -> Vec3 {
        Vec3 { x: self.x.spec_negated(), y: self.y.spec_negated(), z: self.z.spec_negated() }
    }

    /// Each component multiplied by `k`.
    pub open spec fn spec_scaled(self, k: Fixed) -> Vec3 {
        Vec3 { x: self.x.spec_times(k), y: self.y.spec_times(k), z: self.z.spec_times(k) }
    }

    /// Each component divided by `k`; the zero vector where `k` is zero.
    pub open spec fn spec_divided(self, k: Fixed) -> Vec3 {
        Vec3 { x: self.x.spec_over(k), y: self.y.spec_over(k), z: self.z.spec_over(k) }
    }

    /// The squared length: the sum of the squared components, taken in the
    /// order x, y, z.
    pub open spec fn spec_norm_squared(self) -> Fixed {
        self.x.spec_squared().spec_plus(self.y.spec_squared()).spec_plus(self.z.spec_squared())
    }

    /// The vector divided by its length; the zero vector where the length
    /// rounds to zero.
    pub open spec fn spec_normalized(self) -> Vec3 {
        self.spec_divided(self.spec_norm_squared().spec_sqrt())
    }

    /// The vector is of length one, as far as rounding allows: its squared
    /// length lies within the unit tolerance of one.
    pub open spec fn spec_is_unit(self) -> bool {
        ONE_RAW - UNIT_TOLERANCE_RAW <= self.spec_norm_squared().raw <= ONE_RAW
            + UNIT_TOLERANCE_RAW
    }

    /// The vector with the given components.
    pub fn new(x: Fixed, y: Fixed, z: Fixed) -> (r: Vec3)
        ensures
            r == (Vec3 { x, y, z }),
    {
        Vec3 { x, y, z }
    }

    /// The zero vector.
    pub fn zero() -> (r: Vec3)
        ensures
            r == Vec3::spec_zero(),
    {
        Vec3 { x: Fixed::zero(), y: Fixed::zero(), z: Fixed::zero() }
    }

    /// The sum, component by component.
    pub fn plus(self, other: Vec3) -> (r: Vec3)
        ensures
            r == self.spec_plus(other),
    {
        Vec3 { x: self.x.plus(other.x), y: self.y.plus(other.y), z: self.z.plus(other.z) }
    }

    /// The difference, component by component.
    pub fn minus(self, other: Vec3) -> (r: Vec3)
        ensures
            r == self.spec_minus(other),
    {
        Vec3 { x: self.x.minus(other.x), y: self.y.minus(other.y), z: self.z.minus(other.z) }
    }

    /// The opposite vector.
    pub fn negated(self) -> (r: Vec3)
        ensures
            r == self.spec_negated(),
    {
        Vec3 { x: self.x.negated(), y: self.y.negated(), z: self.z.negated() }
    }

    /// Each component multiplied by `k`.
    pub fn scaled(self, k: Fixed) -> (r: Vec3)
        ensures
            r == self.spec_scaled(k),
    {
        Vec3 { x: self.x.times(k), y: self.y.times(k), z: self.z.times(k) }
    }

    /// Each component divided by `k`; the zero vector where `k` is zero.
    pub fn divided(self, k: Fixed) -> (r: Vec3)
        ensures
            r == self.spec_divided(k),
    {
        Vec3 { x: self.x.over(k), y: self.y.over(k), z: self.z.over(k) }
    }

    /// The squared length.
    pub fn norm_squared(self) -> (r: Fixed)
        ensures
            r == self.spec_norm_squared(),
    {
        self.x.squared().plus(self.y.squared()).plus(self.z.squared())
    }

    /// The vector of the same direction and length one, as far as rounding
    /// allows; the zero vector where the length rounds to zero.
    pub fn normalized(self) -> (r: Vec3)
        ensures
            r == self.spec_normalized(),
    {
        self.divided(self.norm_squared().sqrt())
    }

    /// Whether the vector is of length one, as far as rounding allows.
    pub fn is_unit(self) -> (r: bool)
        ensures
            r == self.spec_is_unit(),
    {
        let n = self.norm_squared().raw;
        ONE_RAW - UNIT_TOLERANCE_RAW <= n && n <= ONE_RAW + UNIT_TOLERANCE_RAW
    }
}

} // verus!
