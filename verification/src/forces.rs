//! The forces on each particle: the pressure of its neighbours, the pull of
//! the well toward the origin, and the push along its own polarization.
//!
//! A neighbour of zero density adds no pressure force, and two particles at
//! the same place exert none on each other: a quotient by zero is zero.

use crate::config::Config;
use crate::density::{offset, reach, spec_offset, spec_reach, spec_within, within};
use crate::fixed::Fixed;
use crate::kernel::{spec_w_spiky_grad, w_spiky_grad};
use crate::particle::Particle;
use crate::vec3::Vec3;
use vstd::prelude::*;

verus! {

/// The pressure force that the neighbour `b` exerts on `a`: along the unit
/// vector from `b` to `a`, of size
/// `m_b (p_a + p_b) W(r2, h) / (2 density_b)`, where `W` is the
/// pressure-gradient kernel. Zero where `b` is out of range.
pub open spec fn spec_pressure_term(a: Particle, b: Particle) -> Vec3 {
    let d = spec_offset(a, b);
    let r2 = d.spec_norm_squared();
    let h = spec_reach(a, b);
    if spec_within(r2, h) {
        let size = b.mass.spec_times(a.pressure.spec_plus(b.pressure)).spec_times(
            spec_w_spiky_grad(r2, h),
        ).spec_over(Fixed::spec_from_int(2).spec_times(b.density));
        d.spec_normalized().spec_negated().spec_scaled(size)
    } else {
        Vec3::spec_zero()
    }
}

/// The pressure force on particle `i` as far as the first `k` particles exert
/// it, summed in their order; the particle exerts none on itself.
pub open spec fn spec_pressure_sum(ps: Seq<Particle>, i: int, k: int) -> Vec3
    decreases k,
{
    if k <= 0 {
        Vec3::spec_zero()
    } else if k - 1 == i {
        spec_pressure_sum(ps, i, k - 1)
    } else {
        spec_pressure_sum(ps, i, k - 1).spec_plus(spec_pressure_term(ps[i], ps[k - 1]))
    }
}

/// The pull toward the origin: the position, with its x component scaled,
/// times the negated strength of the well.
pub open spec fn spec_well_force(p: Particle, config: Config) -> Vec3 {
    Vec3 {
        x: p.position.x.spec_times(config.well_x_scale),
        y: p.position.y,
        z: p.position.z,
    }.spec_scaled(config.well_strength.spec_negated())
}

/// The push along the particle's own polarization.
pub open spec fn spec_polar_force(p: Particle, config: Config) -> Vec3 {
    p.polarization.spec_scaled(config.polar_strength)
}

/// All that a force pass adds to the force on particle `i`: pressure, well and
/// polarization, added in this order.
pub open spec fn spec_net_force(ps: Seq<Particle>, i: int, config: Config) -> Vec3 {
    spec_pressure_sum(ps, i, ps.len() as int).spec_plus(spec_well_force(ps[i], config)).spec_plus(
        spec_polar_force(ps[i], config),
    )
}

/// Particle `i` after a force pass.
pub open spec fn spec_forced(ps: Seq<Particle>, i: int, config: Config) -> Particle {
    Particle { force: ps[i].force.spec_plus(spec_net_force(ps, i, config)), ..ps[i] }
}

/// The population after a force pass.
pub open spec fn spec_update_forces(ps: Seq<Particle>, config: Config) -> Seq<Particle> {
    Seq::new(ps.len(), |i: int| spec_forced(ps, i, config))
}

/// The population after an integration step.
pub open spec fn spec_integrate_all(ps: Seq<Particle>, dt: Fixed) -> Seq<Particle> {
    Seq::new(ps.len(), |i: int| ps[i].spec_integrated(dt))
}

/// Two particles agree in all but the force.
pub open spec fn same_but_force(a: Particle, b: Particle) -> bool {
    a == (Particle { force: a.force, ..b })
}

/// The pressure sum does not read the forces.
pub proof fn lemma_pressure_sum_same(ps: Seq<Particle>, qs: Seq<Particle>, i: int, k: int)
    requires
        0 <= i < ps.len(),
        k <= ps.len(),
        ps.len() == qs.len(),
        forall|j: int| 0 <= j < ps.len() ==> same_but_force(#[trigger] ps[j], qs[j]),
    ensures
        spec_pressure_sum(ps, i, k) == spec_pressure_sum(qs, i, k),
    decreases k,
{
    if k > 0 {
        lemma_pressure_sum_same(ps, qs, i, k - 1);
        assert(same_but_force(ps[i], qs[i]));
        assert(same_but_force(ps[k - 1], qs[k - 1]));
    }
}

/// The pressure force that the neighbour `b` exerts on `a`.
pub fn pressure_term(a: &Particle, b: &Particle) -> (f: Vec3)
    ensures
        f == spec_pressure_term(*a, *b),
{
    let d = offset(a, b);
    let r2 = d.norm_squared();
    let h = reach(a, b);
    if within(r2, h) {
        let size = b.mass.times(a.pressure.plus(b.pressure)).times(w_spiky_grad(r2, h)).over(
            Fixed::from_int(2).times(b.density),
        );
        d.normalized().negated().scaled(size)
    } else {
        Vec3::zero()
    }
}

/// The pull toward the origin.
pub fn well_force(p: &Particle, config: &Config) -> (f: Vec3)
    ensures
        f == spec_well_force(*p, *config),
{
    Vec3::new(p.position.x.times(config.well_x_scale), p.position.y, p.position.z).scaled(
        config.well_strength.negated(),
    )
}

/// The push along the particle's own polarization.
pub fn polar_force(p: &Particle, config: &Config) -> (f: Vec3)
    ensures
        f == spec_polar_force(*p, *config),
{
    p.polarization.scaled(config.polar_strength)
}

/// All that a force pass adds to the force on particle `i`.
pub fn net_force(list: &Vec<Particle>, i: usize, config: &Config) -> (f: Vec3)
    requires
        i < list@.len(),
    ensures
        f == spec_net_force(list@, i as int, *config),
{
    let n = list.len();
    let p_i = list[i];
    let mut f_press = Vec3::zero();
    let mut j: usize = 0;
    while j < n
        invariant
            n == list@.len(),
            i < n,
            j <= n,
            p_i == list@[i as int],
            f_press == spec_pressure_sum(list@, i as int, j as int),
        decreases n - j,
    {
        if j != i {
            let p_j = list[j];
            f_press = f_press.plus(pressure_term(&p_i, &p_j));
        }
        j += 1;
    }
    f_press.plus(well_force(&p_i, config)).plus(polar_force(&p_i, config))
}

/// Adds to the force on every particle the pressure of its neighbours, the
/// pull of the well and the push of its polarization, and leaves everything
/// else as it is.
pub fn update_forces(list: &mut Vec<Particle>, config: &Config)
    ensures
        final(list)@ == spec_update_forces(old(list)@, *config),
        final(list)@.len() == old(list)@.len(),
        forall|i: int|
            0 <= i < old(list)@.len() ==> #[trigger] final(list)@[i] == spec_forced(
                old(list)@,
                i,
                *config,
            ),
{
    let n = list.len();
    let ghost before = list@;
    let mut i: usize = 0;
    while i < n
        invariant
            n == before.len(),
            list@.len() == n,
            i <= n,
            forall|k: int| 0 <= k < i ==> #[trigger] list@[k] == spec_forced(before, k, *config),
            forall|k: int| i <= k < n ==> #[trigger] list@[k] == before[k],
        decreases n - i,
    {
        proof {
            assert forall|j: int| 0 <= j < n implies same_but_force(
                #[trigger] list@[j],
                before[j],
            ) by {
                if j < i {
                    assert(list@[j] == spec_forced(before, j, *config));
                } else {
                    assert(list@[j] == before[j]);
                }
            }
            lemma_pressure_sum_same(list@, before, i as int, n as int);
        }
        let f = net_force(list, i, config);
        let mut p = list[i];
        p.force = p.force.plus(f);
        list[i] = p;
        i += 1;
    }
    assert(list@ =~= spec_update_forces(before, *config));
}

/// Moves every particle by `dt` times its force, and clears the forces.
pub fn integrate_all(list: &mut Vec<Particle>, dt: Fixed)
    ensures
        final(list)@ == spec_integrate_all(old(list)@, dt),
        final(list)@.len() == old(list)@.len(),
        forall|i: int|
            0 <= i < old(list)@.len() ==> #[trigger] final(list)@[i] == old(list)@[i].spec_integrated(
                dt,
            ),
{
    let n = list.len();
    let ghost before = list@;
    let mut i: usize = 0;
    while i < n
        invariant
            n == before.len(),
            list@.len() == n,
            i <= n,
            forall|k: int| 0 <= k < i ==> #[trigger] list@[k] == before[k].spec_integrated(dt),
            forall|k: int| i <= k < n ==> #[trigger] list@[k] == before[k],
        decreases n - i,
    {
        let mut p = list[i];
        p.integrate(dt);
        list[i] = p;
        i += 1;
    }
    assert(list@ =~= spec_integrate_all(before, dt));
}

} // verus!
