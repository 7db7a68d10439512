//! The smoothing kernels and the radius of a particle of given mass.
//!
//! Each kernel is a function of the squared separation `r2` of two particles
//! and of the interaction radius `h`, and is meant for `r2 < h * h` only: the
//! caller leaves out the pairs that lie further apart. The closed forms are
//! evaluated so that no intermediate value leaves the representable range for
//! radii of ordinary size: the powers of `h` in the denominators are divided
//! out one factor at a time.

use crate::fixed::{Fixed, ONE_RAW, PI_RAW};
use crate::roots::lemma_cbrt_positive;
use vstd::prelude::*;

verus! {

/// The radius of a sphere of unit density and mass `m`: the cube root of
/// `3 m / (4 pi)`.
pub open spec fn spec_mass_to_radius(m: Fixed) -> Fixed {
    Fixed::spec_from_int(3).spec_times(m).spec_over(
        Fixed::spec_from_int(4).spec_times(Fixed::spec_pi()),
    ).spec_cbrt()
}

/// The density kernel, `315 / (64 pi h^9) * (h^2 - r2)^3`, evaluated as
/// `315 / (64 pi) * ((h^2 - r2) / h^2)^3 / h^3`.
pub open spec fn spec_w_poly6(r2: Fixed, h: Fixed) -> Fixed {
    let h2 = h.spec_squared();
    let u = h2.spec_minus(r2).spec_over(h2);
    let c = Fixed::spec_from_int(315).spec_over(
        Fixed::spec_from_int(64).spec_times(Fixed::spec_pi()),
    );
    c.spec_times(u.spec_cubed()).spec_over(h.spec_cubed())
}

/// The magnitude of the pressure-gradient kernel,
/// `45 / (pi h^6) * (h - sqrt(r2))^2`, evaluated as
/// `45 / pi * ((h - sqrt(r2)) / h)^2 / h^2 / h^2`.
pub open spec fn spec_w_spiky_grad(r2: Fixed, h: Fixed) -> Fixed {
    let h2 = h.spec_squared();
    let s = h.spec_minus(r2.spec_sqrt()).spec_over(h);
    let c = Fixed::spec_from_int(45).spec_over(Fixed::spec_pi());
    c.spec_times(s.spec_squared()).spec_over(h2).spec_over(h2)
}

/// The viscosity kernel, `45 / (pi h^6) * (h - sqrt(r2))`, evaluated as
/// `45 / pi * ((h - sqrt(r2)) / h) / h^2 / h^2 / h`.
pub open spec fn spec_w_visc(r2: Fixed, h: Fixed) -> Fixed {
    let h2 = h.spec_squared();
    let s = h.spec_minus(r2.spec_sqrt()).spec_over(h);
    let c = Fixed::spec_from_int(45).spec_over(Fixed::spec_pi());
    c.spec_times(s).spec_over(h2).spec_over(h2).spec_over(h)
}

/// The radius of a mass of five units or more is positive.
pub proof fn lemma_radius_positive(m: Fixed)
    requires
        m.raw >= 5,
    ensures
        spec_mass_to_radius(m).raw > 0,
{
    let tripled = Fixed::spec_from_int(3).spec_times(m);
    let x = tripled.spec_over(Fixed::spec_from_int(4).spec_times(Fixed::spec_pi()));
    assert(tripled.raw >= 15) by {
        assert(3 * ONE_RAW as int * m.raw as int == (3 * m.raw as int) * ONE_RAW as int)
            by (nonlinear_arith);
    }
    assert(Fixed::spec_from_int(4).spec_times(Fixed::spec_pi()).raw == 4 * PI_RAW) by {
        assert(4 * ONE_RAW as int * PI_RAW as int == (4 * PI_RAW as int) * ONE_RAW as int)
            by (nonlinear_arith);
    }
    assert(x.raw >= 1);
    lemma_cbrt_positive(x);
}

/// The radius of a sphere of unit density and mass `m`.
pub fn mass_to_radius(m: Fixed) -> (r: Fixed)
    ensures
        r == spec_mass_to_radius(m),
        r.raw >= 0,
{
    Fixed::from_int(3).times(m).over(Fixed::from_int(4).times(Fixed::pi())).cbrt()
}

/// The density kernel at squared separation `r2` for interaction radius `h`.
pub fn w_poly6(r2: Fixed, h: Fixed) -> (w: Fixed)
    ensures
        w == spec_w_poly6(r2, h),
{
    let h2 = h.squared();
    let u = h2.minus(r2).over(h2);
    let c = Fixed::from_int(315).over(Fixed::from_int(64).times(Fixed::pi()));
    c.times(u.cubed()).over(h.cubed())
}

/// The magnitude of the pressure-gradient kernel at squared separation `r2`
/// for interaction radius `h`.
pub fn w_spiky_grad(r2: Fixed, h: Fixed) -> (w: Fixed)
    ensures
        w == spec_w_spiky_grad(r2, h),
{
    let h2 = h.squared();
    let s = h.minus(r2.sqrt()).over(h);
    let c = Fixed::from_int(45).over(Fixed::pi());
    c.times(s.squared()).over(h2).over(h2)
}

/// The viscosity kernel at squared separation `r2` for interaction radius `h`.
pub fn w_visc(r2: Fixed, h: Fixed) -> (w: Fixed)
    ensures
        w == spec_w_visc(r2, h),
{
    let h2 = h.squared();
    let s = h.minus(r2.sqrt()).over(h);
    let c = Fixed::from_int(45).over(Fixed::pi());
    c.times(s).over(h2).over(h2).over(h)
}

} // verus!
