//! One particle, and the record that a renderer draws it from.

use crate::fixed::Fixed;
use crate::kernel::{mass_to_radius, spec_mass_to_radius};
use crate::vec3::Vec3;
use vstd::prelude::*;

verus! {

/// A colour: red, green and blue.
#[derive(Clone, Copy, Debug, PartialEq, Eq, Structural)]
pub struct Color {
    pub r: Fixed,
    pub g: Fixed,
    pub b: Fixed,
}

/// A column of four components.
#[derive(Clone, Copy, Debug, PartialEq, Eq, Structural)]
pub struct Column {
    pub x: Fixed,
    pub y: Fixed,
    pub z: Fixed,
    pub w: Fixed,
}

/// A matrix of four columns.
#[derive(Clone, Copy, Debug, PartialEq, Eq, Structural)]
pub struct Matrix4 {
    pub x: Column,
    pub y: Column,
    pub z: Column,
    pub w: Column,
}

/// What a renderer needs of one particle: the transform of the unit sphere
/// onto it, and its colour.
#[derive(Clone, Copy, Debug, PartialEq, Eq, Structural)]
pub struct ParticleRaw {
    pub model: Matrix4,
    pub color: Color,
}

/// A particle.
#[derive(Clone, Copy, Debug, PartialEq, Eq, Structural)]
pub struct Particle {
    /// Where it is.
    pub position: Vec3,
    /// The force gathered in the current sub-step; zero between sub-steps.
    pub force: Vec3,
    /// The direction of its polarity.
    pub polarization: Vec3,
    /// The radius that belongs to its mass.
    pub radius: Fixed,
    pub mass: Fixed,
    /// The density around it, as of the last density pass.
    pub density: Fixed,
    /// The pressure at that density.
    pub pressure: Fixed,
    /// The age that it has gathered since its birth.
    pub age: Fixed,
    pub color: Color,
}

impl Color {
    /// The colour with each channel changed by the matching channel of
    /// `delta`.
    pub open spec fn spec_shifted(self, delta: Color) -> Color {
        Color {
            r: self.r.spec_plus(delta.r),
            g: self.g.spec_plus(delta.g),
            b: self.b.spec_plus(delta.b),
        }
    }

    /// The colour with each channel changed by the matching channel of
    /// `delta`.
    pub fn shifted(self, delta: Color) -> (c: Color)
        ensures
            c == self.spec_shifted(delta),
    {
        Color { r: self.r.plus(delta.r), g: self.g.plus(delta.g), b: self.b.plus(delta.b) }
    }
}

impl Matrix4 {
    /// The matrix that scales by `s` and then moves by `t`.
    pub open spec fn spec_scale_then_move(t: Vec3, s: Fixed) -> Matrix4 {
        let o = Fixed::spec_zero();
        Matrix4 {
            x: Column { x: s, y: o, z: o, w: o },
            y: Column { x: o, y: s, z: o, w: o },
            z: Column { x: o, y: o, z: s, w: o },
            w: Column { x: t.x, y: t.y, z: t.z, w: Fixed::spec_one() },
        }
    }

    /// The matrix that scales by `s` and then moves by `t`.
    pub fn scale_then_move(t: Vec3, s: Fixed) -> (m: Matrix4)
        ensures
            m == Matrix4::spec_scale_then_move(t, s),
    {
        let o = Fixed::zero();
        Matrix4 {
            x: Column { x: s, y: o, z: o, w: o },
            y: Column { x: o, y: s, z: o, w: o },
            z: Column { x: o, y: o, z: s, w: o },
            w: Column { x: t.x, y: t.y, z: t.z, w: Fixed::one() },
        }
    }
}

impl Particle {
    /// A new particle: at rest, of age zero, with the radius of its mass.
    pub open spec fn spec_new(position: Vec3, mass: Fixed, color: Color, polarization: Vec3)
        -> Particle {
        Particle {
            position,
            force: Vec3::spec_zero(),
            polarization,
            radius: spec_mass_to_radius(mass),
            mass,
            density: Fixed::spec_zero(),
            pressure: Fixed::spec_zero(),
            age: Fixed::spec_zero(),
            color,
        }
    }

    /// Mass and radius are positive, and the radius is that of the mass.
    pub open spec fn is_valid(self) -> bool {
        self.mass.raw > 0 && self.radius.raw > 0 && self.radius == spec_mass_to_radius(self.mass)
    }

    /// The particle after one integration step of length `dt`: moved along its
    /// force, the force cleared.
    pub open spec fn spec_integrated(self, dt: Fixed) -> Particle {
        Particle {
            position: self.position.spec_plus(self.force.spec_scaled(dt)),
            force: Vec3::spec_zero(),
            ..self
        }
    }

    /// The record to draw the particle from.
    pub open spec fn spec_as_raw(self) -> ParticleRaw {
        ParticleRaw {
            model: Matrix4::spec_scale_then_move(self.position, self.radius),
            color: self.color,
        }
    }

    /// A new particle at `position`: at rest, of age zero, with the radius of
    /// its mass. It is valid where the mass is positive and large enough for
    /// the radius not to round to zero.
    pub fn new(position: Vec3, mass: Fixed, color: Color, polarization: Vec3) -> (p: Particle)
        ensures
            p == Particle::spec_new(position, mass, color, polarization),
            p.is_valid() == (mass.raw > 0 && p.radius.raw > 0),
    {
        Particle {
            position,
            force: Vec3::zero(),
            polarization,
            radius: mass_to_radius(mass),
            mass,
            density: Fixed::zero(),
            pressure: Fixed::zero(),
            age: Fixed::zero(),
            color,
        }
    }

    /// Moves the particle by `dt` times its force, and clears the force.
    pub fn integrate(&mut self, dt: Fixed)
        ensures
            *final(self) == old(self).spec_integrated(dt),
    {
        self.position = self.position.plus(self.force.scaled(dt));
        self.force = Vec3::zero();
    }

    /// The record to draw the particle from: the transform that scales by the
    /// radius and moves to the position, and the colour.
    pub fn as_raw(&self) -> (raw: ParticleRaw)
        ensures
            raw == self.spec_as_raw(),
    {
        ParticleRaw {
            model: Matrix4::scale_then_move(self.position, self.radius),
            color: self.color,
        }
    }
}

} // verus!
