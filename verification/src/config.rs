//! The constants of a simulation.

use crate::fixed::Fixed;
use vstd::prelude::*;

verus! {

/// The numeric constants that the host chooses.
#[derive(Clone, Copy, Debug)]
pub struct Config {
    /// The time step of one sub-step.
    pub dt: Fixed,
    /// The density at which the pressure is zero.
    pub rest_density: Fixed,
    /// The factor from excess density to pressure.
    pub gas_constant: Fixed,
    /// The drag of a particle against the medium: the diagonal of the friction
    /// matrix before the neighbours are counted.
    pub friction: Fixed,
    /// The coefficient of the drag between neighbours.
    pub viscosity: Fixed,
    /// The distance of the daughters after a division, in parent radii.
    pub division_length: Fixed,
    /// The age above which a selected particle divides.
    pub age_threshold: Fixed,
    /// The bound below which each particle's random age increment is drawn.
    pub age_jitter: Fixed,
    /// The age that the selected particle gains on top.
    pub age_boost: Fixed,
    /// The bound on the random change of each colour channel at a division.
    pub color_jitter: Fixed,
    /// The strength of the pull toward the origin.
    pub well_strength: Fixed,
    /// The factor by which the pull along the x axis differs.
    pub well_x_scale: Fixed,
    /// The strength of the push along a particle's own polarization.
    pub polar_strength: Fixed,
    /// The population above which no particle divides any more.
    pub max_population: usize,
    /// The number of sub-steps in one frame.
    pub substeps: usize,
    /// Whether a sub-step begins with the division rule.
    pub division_enabled: bool,
}

impl Config {
    /// The constants of the standard simulation.
    pub open spec fn spec_standard() -> Config {
        Config {
            dt: Fixed::spec_ratio(1, 2),
            rest_density: Fixed::spec_ratio(6, 5),
            gas_constant: Fixed::spec_ratio(3, 10000),
            friction: Fixed::spec_ratio(1, 100000),
            viscosity: Fixed::spec_ratio(1, 10000),
            division_length: Fixed::spec_ratio(7, 10),
            age_threshold: Fixed::spec_from_int(1000),
            age_jitter: Fixed::spec_ratio(1, 20),
            age_boost: Fixed::spec_ratio(1, 20),
            color_jitter: Fixed::spec_ratio(1, 10),
            well_strength: Fixed::spec_ratio(1, 100000),
            well_x_scale: Fixed::spec_ratio(3, 10),
            polar_strength: Fixed::spec_ratio(1, 1000000),
            max_population: 200,
            substeps: 10,
            division_enabled: true,
        }
    }

    /// The constants of the standard simulation: a time step of 1/2, rest
    /// density 6/5, gas constant 3/10000, friction 1/100000, viscosity
    /// 1/10000, division length 7/10, division above age 1000 with age
    /// increments below 1/20 and a boost of 1/20, at most 200 particles, and
    /// ten sub-steps in a frame.
    pub fn standard() -> (c: Config)
        ensures
            c == Config::spec_standard(),
    {
        Config {
            dt: Fixed::ratio(1, 2),
            rest_density: Fixed::ratio(6, 5),
            gas_constant: Fixed::ratio(3, 10000),
            friction: Fixed::ratio(1, 100000),
            viscosity: Fixed::ratio(1, 10000),
            division_length: Fixed::ratio(7, 10),
            age_threshold: Fixed::from_int(1000),
            age_jitter: Fixed::ratio(1, 20),
            age_boost: Fixed::ratio(1, 20),
            color_jitter: Fixed::ratio(1, 10),
            well_strength: Fixed::ratio(1, 100000),
            well_x_scale: Fixed::ratio(3, 10),
            polar_strength: Fixed::ratio(1, 1000000),
            max_population: 200,
            substeps: 10,
            division_enabled: true,
        }
    }
}

} // verus!
