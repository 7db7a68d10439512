//! The density around each particle and the pressure that follows from it.
//!
//! The density of a particle is the sum, over all particles including itself,
//! of the neighbour's mass weighted by the density kernel. Two particles are
//! neighbours where their squared separation is below the square of the sum
//! of their radii, and that sum is the interaction radius of the pair. The
//! pressure is linear in the density: the gas constant times the excess over
//! the rest density. It is negative below the rest density and positive above
//! it.

use crate::config::Config;
use crate::fixed::{
    lemma_over_nonneg, lemma_squared_nonneg, lemma_times_nonneg, lemma_times_outward_sign, Fixed,
};
use crate::kernel::{spec_w_poly6, w_poly6};
use crate::particle::Particle;
use crate::vec3::Vec3;
use vstd::prelude::*;

verus! {

/// The vector from `a` to `b`.
pub open spec fn spec_offset(a: Particle, b: Particle) -> Vec3 {
    b.position.spec_minus(a.position)
}

/// The interaction radius of a pair: the sum of the two radii.
pub open spec fn spec_reach(a: Particle, b: Particle) -> Fixed {
    a.radius.spec_plus(b.radius)
}

/// Whether a separation of square `r2` lies within the interaction radius `h`.
pub open spec fn spec_within(r2: Fixed, h: Fixed) -> bool {
    r2.spec_lt(h.spec_squared())
}

/// What the particle `b` adds to the density around `a`.
pub open spec fn spec_density_term(a: Particle, b: Particle) -> Fixed {
    let r2 = spec_offset(b, a).spec_norm_squared();
    let h = spec_reach(a, b);
    if spec_within(r2, h) {
        b.mass.spec_times(spec_w_poly6(r2, h))
    } else {
        Fixed::spec_zero()
    }
}

/// The density around particle `i` as far as the first `k` particles add to
/// it, summed in their order.
pub open spec fn spec_density_sum(ps: Seq<Particle>, i: int, k: int) -> Fixed
    decreases k,
{
    if k <= 0 {
        Fixed::spec_zero()
    } else {
        spec_density_sum(ps, i, k - 1).spec_plus(spec_density_term(ps[i], ps[k - 1]))
    }
}

/// The density around particle `i`.
pub open spec fn spec_density(ps: Seq<Particle>, i: int) -> Fixed {
    spec_density_sum(ps, i, ps.len() as int)
}

/// The pressure at density `density`: the gas constant times the excess over
/// the rest density, rounded away from zero, so that the pressure has the sign
/// of the excess however small the excess is.
pub open spec fn spec_pressure(density: Fixed, config: Config) -> Fixed {
    config.gas_constant.spec_times_outward(density.spec_minus(config.rest_density))
}

/// Particle `i` with its density and pressure brought up to date.
pub open spec fn spec_pressurized(ps: Seq<Particle>, i: int, config: Config) -> Particle {
    Particle {
        density: spec_density(ps, i),
        pressure: spec_pressure(spec_density(ps, i), config),
        ..ps[i]
    }
}

/// The population after a density pass.
pub open spec fn spec_update_pressure(ps: Seq<Particle>, config: Config) -> Seq<Particle> {
    Seq::new(ps.len(), |i: int| spec_pressurized(ps, i, config))
}

/// The pressure of every particle has the sign of the excess of its density
/// over the rest density: negative below it, positive above it.
pub open spec fn pressures_signed(ps: Seq<Particle>, config: Config) -> bool {
    forall|i: int|
        0 <= i < ps.len() ==> ((#[trigger] ps[i]).pressure.raw < 0 <==> ps[i].density.raw
            < config.rest_density.raw) && (ps[i].pressure.raw > 0 <==> ps[i].density.raw
            > config.rest_density.raw)
}

/// Two particles agree in what the density pass reads of them.
pub open spec fn same_body(a: Particle, b: Particle) -> bool {
    a.position == b.position && a.radius == b.radius && a.mass == b.mass
}

/// The density kernel is not negative within its support, for an interaction
/// radius that is not negative.
pub proof fn lemma_w_poly6_nonneg(r2: Fixed, h: Fixed)
    requires
        h.raw >= 0,
        spec_within(r2, h),
    ensures
        spec_w_poly6(r2, h).raw >= 0,
{
    let h2 = h.spec_squared();
    let u = h2.spec_minus(r2).spec_over(h2);
    let c = Fixed::spec_from_int(315).spec_over(
        Fixed::spec_from_int(64).spec_times(Fixed::spec_pi()),
    );
    lemma_squared_nonneg(h);
    lemma_over_nonneg(h2.spec_minus(r2), h2);
    lemma_times_nonneg(u, u);
    lemma_times_nonneg(u.spec_times(u), u);
    lemma_times_nonneg(Fixed::spec_from_int(64), Fixed::spec_pi());
    lemma_over_nonneg(
        Fixed::spec_from_int(315),
        Fixed::spec_from_int(64).spec_times(Fixed::spec_pi()),
    );
    lemma_times_nonneg(c, u.spec_cubed());
    lemma_times_nonneg(h, h);
    lemma_times_nonneg(h.spec_times(h), h);
    lemma_over_nonneg(c.spec_times(u.spec_cubed()), h.spec_cubed());
}

/// No particle of a valid population takes away from the density around
/// another.
pub proof fn lemma_density_term_nonneg(a: Particle, b: Particle)
    requires
        a.is_valid(),
        b.is_valid(),
    ensures
        spec_density_term(a, b).raw >= 0,
{
    let r2 = spec_offset(b, a).spec_norm_squared();
    let h = spec_reach(a, b);
    if spec_within(r2, h) {
        lemma_w_poly6_nonneg(r2, h);
        lemma_times_nonneg(b.mass, spec_w_poly6(r2, h));
    }
}

/// Every partial density sum over a valid population is not negative.
pub proof fn lemma_density_sum_nonneg(ps: Seq<Particle>, i: int, k: int)
    requires
        0 <= i < ps.len(),
        k <= ps.len(),
        forall|j: int| 0 <= j < ps.len() ==> (#[trigger] ps[j]).is_valid(),
    ensures
        spec_density_sum(ps, i, k).raw >= 0,
    decreases k,
{
    if k > 0 {
        lemma_density_sum_nonneg(ps, i, k - 1);
        lemma_density_term_nonneg(ps[i], ps[k - 1]);
    }
}

/// The density sum reads only position, radius and mass.
pub proof fn lemma_density_sum_same_body(ps: Seq<Particle>, qs: Seq<Particle>, i: int, k: int)
    requires
        0 <= i < ps.len(),
        k <= ps.len(),
        ps.len() == qs.len(),
        forall|j: int| 0 <= j < ps.len() ==> same_body(#[trigger] ps[j], qs[j]),
    ensures
        spec_density_sum(ps, i, k) == spec_density_sum(qs, i, k),
    decreases k,
{
    if k > 0 {
        lemma_density_sum_same_body(ps, qs, i, k - 1);
        assert(same_body(ps[i], qs[i]));
        assert(same_body(ps[k - 1], qs[k - 1]));
    }
}

/// The vector from `a` to `b`.
pub fn offset(a: &Particle, b: &Particle) -> (v: Vec3)
    ensures
        v == spec_offset(*a, *b),
{
    b.position.minus(a.position)
}

/// The interaction radius of a pair.
pub fn reach(a: &Particle, b: &Particle) -> (h: Fixed)
    ensures
        h == spec_reach(*a, *b),
{
    a.radius.plus(b.radius)
}

/// Whether a separation of square `r2` lies within the interaction radius `h`.
pub fn within(r2: Fixed, h: Fixed) -> (r: bool)
    ensures
        r == spec_within(r2, h),
{
    r2.lt(h.squared())
}

/// The density around particle `i`.
pub fn density_at(list: &Vec<Particle>, i: usize) -> (d: Fixed)
    requires
        i < list@.len(),
    ensures
        d == spec_density(list@, i as int),
{
    let n = list.len();
    let p_i = list[i];
    let mut density = Fixed::zero();
    let mut j: usize = 0;
    while j < n
        invariant
            n == list@.len(),
            i < n,
            j <= n,
            p_i == list@[i as int],
            density == spec_density_sum(list@, i as int, j as int),
        decreases n - j,
    {
        let p_j = list[j];
        let h = reach(&p_i, &p_j);
        let r2 = offset(&p_j, &p_i).norm_squared();
        if within(r2, h) {
            density = density.plus(p_j.mass.times(w_poly6(r2, h)));
        }
        j += 1;
    }
    density
}

/// The pressure at density `density`. Where the gas constant is positive, it
/// is negative below the rest density and positive above it.
pub fn pressure_at(density: Fixed, config: &Config) -> (p: Fixed)
    ensures
        p == spec_pressure(density, *config),
        config.gas_constant.raw > 0 ==> (p.raw < 0 <==> density.raw < config.rest_density.raw) && (
        p.raw > 0 <==> density.raw > config.rest_density.raw),
{
    proof {
        if config.gas_constant.raw > 0 {
            lemma_times_outward_sign(config.gas_constant, density.spec_minus(config.rest_density));
        }
    }
    config.gas_constant.times_outward(density.minus(config.rest_density))
}

/// Brings the density and the pressure of every particle up to date, and
/// leaves everything else as it is. Where the gas constant is positive, every
/// pressure is then negative below the rest density and positive above it.
pub fn update_pressure(list: &mut Vec<Particle>, config: &Config)
    ensures
        final(list)@ == spec_update_pressure(old(list)@, *config),
        config.gas_constant.raw > 0 ==> pressures_signed(final(list)@, *config),
        final(list)@.len() == old(list)@.len(),
        forall|i: int|
            0 <= i < old(list)@.len() ==> #[trigger] final(list)@[i] == spec_pressurized(
                old(list)@,
                i,
                *config,
            ),
{
    let n = list.len();
    let ghost before = list@;
    let mut i: usize = 0;
    while i < n
        invariant
            n == before.len(),
            list@.len() == n,
            i <= n,
            forall|k: int| 0 <= k < i ==> #[trigger] list@[k] == spec_pressurized(before, k, *config),
            forall|k: int| i <= k < n ==> #[trigger] list@[k] == before[k],
            config.gas_constant.raw > 0 ==> forall|k: int|
                0 <= k < i ==> ((#[trigger] list@[k]).pressure.raw < 0 <==> list@[k].density.raw
                    < config.rest_density.raw) && (list@[k].pressure.raw > 0
                    <==> list@[k].density.raw > config.rest_density.raw),
        decreases n - i,
    {
        proof {
            assert forall|j: int| 0 <= j < n implies same_body(#[trigger] list@[j], before[j]) by {
                if j < i {
                    assert(list@[j] == spec_pressurized(before, j, *config));
                } else {
                    assert(list@[j] == before[j]);
                }
            }
            lemma_density_sum_same_body(list@, before, i as int, n as int);
        }
        let density = density_at(list, i);
        let mut p = list[i];
        p.density = density;
        p.pressure = pressure_at(density, config);
        list[i] = p;
        i += 1;
    }
    assert(list@ =~= spec_update_pressure(before, *config));
}

} // verus!
