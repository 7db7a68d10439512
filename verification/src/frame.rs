//! What one sub-step and one frame do to a population.
//!
//! A sub-step is the division rule, where it is enabled, then the density
//! pass, the force pass, and the integration step. Between the force pass and
//! the integration step the forces are replaced by the solution of the
//! friction system, which a solver of the host's choice computes from the
//! friction matrix and the forces. Where the solver hands none back, or one
//! of the wrong size, the forces stay as the force pass left them: there are
//! no velocities for a pairwise drag to act on. A frame is a fixed number of
//! sub-steps.

use crate::config::Config;
use crate::density::{lemma_density_sum_nonneg, spec_density, spec_update_pressure};
use crate::division::{oriented, spec_divide, valid_population, DivisionAxes, DivisionDraws};
use crate::fixed::Fixed;
use crate::forces::{spec_integrate_all, spec_update_forces};
use crate::friction::{is_friction_matrix, spec_force_rows, spec_set_forces};
use crate::particle::{Particle, ParticleRaw};
use crate::vec3::Vec3;
use vstd::prelude::*;

verus! {

/// The population after the first half of a sub-step: the division rule with
/// the given draws, if any, then the density pass and the force pass.
pub open spec fn spec_prepared(ps: Seq<Particle>, draws: Option<DivisionDraws>, config: Config)
    -> Seq<Particle> {
    let divided = match draws {
        Some(d) => spec_divide(ps, d, config),
        None => ps,
    };
    spec_update_forces(spec_update_pressure(divided, config), config)
}

/// The population after the second half of a sub-step: the forces replaced by
/// the solution, where one of the right size is given, then the integration
/// step.
pub open spec fn spec_finished(ps: Seq<Particle>, solution: Option<Seq<Fixed>>, config: Config)
    -> Seq<Particle> {
    let solved = match solution {
        Some(x) => if x.len() == 3 * ps.len() {
            spec_set_forces(ps, x)
        } else {
            ps
        },
        None => ps,
    };
    spec_integrate_all(solved, config.dt)
}

/// The population after a whole sub-step with the given draws and the given
/// solution of the friction system, if any.
pub open spec fn spec_substep(
    ps: Seq<Particle>,
    draws: Option<DivisionDraws>,
    solution: Option<Seq<Fixed>>,
    config: Config,
) -> Seq<Particle> {
    spec_finished(spec_prepared(ps, draws, config), solution, config)
}

/// The draws are such as a sub-step makes for the population `ps` and the
/// directions `axes`: none where division is disabled, else draws that suit
/// the population, lie in the ranges of the constants, and carry `axes`.
pub open spec fn spec_draws_allowed(
    ps: Seq<Particle>,
    draws: Option<DivisionDraws>,
    axes: DivisionAxes,
    config: Config,
) -> bool {
    match draws {
        Some(d) => config.division_enabled && d.spec_fits(ps.len() as int) && d.spec_within(config)
            && d.axes == axes,
        None => !config.division_enabled,
    }
}

/// The first half of a sub-step with draws of its own can lead from `ps` to
/// `qs`.
pub open spec fn spec_prepare_reaches(
    ps: Seq<Particle>,
    qs: Seq<Particle>,
    axes: DivisionAxes,
    config: Config,
) -> bool {
    exists|draws: Option<DivisionDraws>| #[trigger]
        spec_draws_allowed(ps, draws, axes, config) && qs == spec_prepared(ps, draws, config)
}

/// The solution that a solver has handed back, as a sequence.
pub open spec fn spec_handed_back(solution: Option<Vec<Fixed>>) -> Option<Seq<Fixed>> {
    match solution {
        Some(x) => Some(x@),
        None => None,
    }
}

/// `solver`, handed the friction matrix and the forces of the population
/// `ps`, can hand back `solution`.
pub open spec fn spec_solver_answers<F: Fn(&Vec<Vec<Fixed>>, &Vec<Fixed>) -> Option<Vec<Fixed>>>(
    solver: F,
    ps: Seq<Particle>,
    solution: Option<Vec<Fixed>>,
    config: Config,
) -> bool {
    exists|gamma: Vec<Vec<Fixed>>, rows: Vec<Fixed>|
        is_friction_matrix(gamma@, ps, config) && rows@ == spec_force_rows(ps)
            && #[trigger] call_ensures(solver, (&gamma, &rows), solution)
}

/// A whole sub-step with draws of its own can lead from `ps` to `qs`: the
/// first half with some draws that are allowed, then `solver` on the friction
/// system of what the first half left, then the second half with what the
/// solver handed back.
pub open spec fn spec_substep_reaches<F: Fn(&Vec<Vec<Fixed>>, &Vec<Fixed>) -> Option<Vec<Fixed>>>(
    ps: Seq<Particle>,
    qs: Seq<Particle>,
    axes: DivisionAxes,
    config: Config,
    solver: F,
) -> bool {
    exists|draws: Option<DivisionDraws>, solution: Option<Vec<Fixed>>|
        spec_draws_allowed(ps, draws, axes, config) && #[trigger] spec_solver_answers(
            solver,
            spec_prepared(ps, draws, config),
            solution,
            config,
        ) && qs == spec_substep(ps, draws, spec_handed_back(solution), config)
}

/// The first `k` sub-steps of a frame, each with draws of its own, with the
/// directions of its place in `axes`, and with what `solver` hands back for
/// its friction system, can lead from `ps` to `qs`.
pub open spec fn spec_frame_reaches<F: Fn(&Vec<Vec<Fixed>>, &Vec<Fixed>) -> Option<Vec<Fixed>>>(
    ps: Seq<Particle>,
    qs: Seq<Particle>,
    k: int,
    axes: Seq<DivisionAxes>,
    config: Config,
    solver: F,
) -> bool
    decreases k,
{
    if k <= 0 {
        qs == ps
    } else {
        exists|mid: Seq<Particle>|
            spec_frame_reaches(ps, mid, k - 1, axes, config, solver)
                && #[trigger] spec_substep_reaches(mid, qs, axes[k - 1], config, solver)
    }
}

/// The records to draw the population from, in its order.
pub open spec fn spec_snapshot(ps: Seq<Particle>) -> Seq<ParticleRaw> {
    Seq::new(ps.len(), |i: int| ps[i].spec_as_raw())
}

/// No particle has a force on it.
pub open spec fn forces_cleared(ps: Seq<Particle>) -> bool {
    forall|i: int| 0 <= i < ps.len() ==> (#[trigger] ps[i]).force == Vec3::spec_zero()
}

/// No particle has a negative density.
pub open spec fn densities_nonneg(ps: Seq<Particle>) -> bool {
    forall|i: int| 0 <= i < ps.len() ==> (#[trigger] ps[i]).density.raw >= 0
}

/// Two particles agree in mass, radius, density, polarization and age.
pub open spec fn same_makeup(a: Particle, b: Particle) -> bool {
    a.mass == b.mass && a.radius == b.radius && a.density == b.density && a.polarization
        == b.polarization && a.age == b.age
}

/// Every particle of `qs` agrees with the particle of `ps` at its place in
/// mass, radius, density, polarization and age.
pub open spec fn same_makeup_all(ps: Seq<Particle>, qs: Seq<Particle>) -> bool {
    ps.len() == qs.len() && forall|i: int|
        0 <= i < ps.len() ==> same_makeup(ps[i], #[trigger] qs[i])
}

/// A step that leaves mass, radius, density, polarization and age as they
/// are leaves a valid population valid, densities that are not negative so, and
/// polarizations of length one so. The force pass, new forces and the
/// integration step are such steps.
pub proof fn lemma_same_makeup_keeps(ps: Seq<Particle>, qs: Seq<Particle>)
    requires
        same_makeup_all(ps, qs),
    ensures
        valid_population(ps) ==> valid_population(qs),
        densities_nonneg(ps) ==> densities_nonneg(qs),
        oriented(ps) ==> oriented(qs),
{
    assert forall|i: int| 0 <= i < qs.len() implies same_makeup(ps[i], #[trigger] qs[i]) by {}
    if valid_population(ps) {
        assert forall|i: int| 0 <= i < qs.len() implies (#[trigger] qs[i]).is_valid() by {
            assert(ps[i].is_valid());
        }
    }
    if densities_nonneg(ps) {
        assert forall|i: int| 0 <= i < qs.len() implies (#[trigger] qs[i]).density.raw >= 0 by {
            assert(ps[i].density.raw >= 0);
        }
    }
    if oriented(ps) {
        assert forall|i: int| 0 <= i < qs.len() implies (#[trigger] qs[i]).polarization.spec_is_unit() by {
            assert(ps[i].polarization.spec_is_unit());
        }
    }
}

/// The second half of a sub-step leaves mass, radius, density, polarization
/// and age as they are, and no force on any particle.
pub proof fn lemma_finished_keeps(ps: Seq<Particle>, solution: Option<Seq<Fixed>>, config: Config)
    ensures
        same_makeup_all(ps, spec_finished(ps, solution, config)),
        forces_cleared(spec_finished(ps, solution, config)),
{
}

/// A density pass leaves a valid population valid, with no density negative,
/// and polarizations of length one so.
pub proof fn lemma_update_pressure_keeps(ps: Seq<Particle>, config: Config)
    ensures
        valid_population(ps) ==> valid_population(spec_update_pressure(ps, config))
            && densities_nonneg(spec_update_pressure(ps, config)),
        oriented(ps) ==> oriented(spec_update_pressure(ps, config)),
{
    let qs = spec_update_pressure(ps, config);
    if valid_population(ps) {
        assert forall|i: int| 0 <= i < qs.len() implies (#[trigger] qs[i]).is_valid()
            && qs[i].density.raw >= 0 by {
            assert(ps[i].is_valid());
            lemma_density_sum_nonneg(ps, i, ps.len() as int);
            assert(qs[i].density == spec_density(ps, i));
        }
    }
    if oriented(ps) {
        assert forall|i: int| 0 <= i < qs.len() implies (#[trigger] qs[i]).polarization.spec_is_unit() by {
            assert(ps[i].polarization.spec_is_unit());
        }
    }
}

/// One more sub-step extends the sub-steps of a frame.
pub proof fn lemma_frame_extends<F: Fn(&Vec<Vec<Fixed>>, &Vec<Fixed>) -> Option<Vec<Fixed>>>(
    ps: Seq<Particle>,
    mid: Seq<Particle>,
    qs: Seq<Particle>,
    k: int,
    axes: Seq<DivisionAxes>,
    config: Config,
    solver: F,
)
    requires
        0 <= k < axes.len(),
        spec_frame_reaches(ps, mid, k, axes, config, solver),
        spec_substep_reaches(mid, qs, axes[k], config, solver),
    ensures
        spec_frame_reaches(ps, qs, k + 1, axes, config, solver),
{
    assert(spec_frame_reaches(ps, mid, (k + 1) - 1, axes, config, solver) && spec_substep_reaches(
        mid,
        qs,
        axes[(k + 1) - 1],
        config,
        solver,
    ));
}

} // verus!
