//! What holds of every population, whatever chance decides.

use crate::config::Config;
use crate::density::{
    spec_offset, spec_pressure, spec_reach, spec_update_pressure, spec_within,
};
use crate::division::{
    lemma_daughters_valid, lemma_divide_properties, lemma_division_conserves_mass, oriented,
    spec_aged, spec_aged_one, spec_divide, spec_divides, spec_drawn_below, spec_first_daughter,
    spec_second_daughter, valid_population, DivisionAxes, DivisionDraws,
};
use crate::fixed::{
    lemma_one, lemma_over_nonneg, lemma_squared_nonneg, lemma_times_nonneg,
    lemma_times_outward_sign, lemma_zero, Fixed,
};
use crate::kernel::{spec_w_poly6, spec_w_spiky_grad, spec_w_visc};
use crate::roots::lemma_sqrt_bounded;
use crate::forces::{
    spec_integrate_all, spec_polar_force, spec_pressure_sum, spec_update_forces, spec_well_force,
};
use crate::frame::{
    densities_nonneg, forces_cleared, lemma_finished_keeps, lemma_same_makeup_keeps,
    lemma_update_pressure_keeps, spec_draws_allowed, spec_finished, spec_frame_reaches,
    spec_handed_back, spec_prepared, spec_snapshot, spec_solver_answers, spec_substep,
    spec_substep_reaches,
};
use crate::friction::{is_friction_matrix, spec_force_rows, spec_set_forces};
use crate::particle::{Particle, ParticleRaw};
use crate::vec3::Vec3;
use vstd::prelude::*;

verus! {

/// The masses of a population, added up as whole numbers of the smallest
/// unit of mass.
pub open spec fn spec_total_mass(ps: Seq<Particle>) -> int
    decreases ps.len(),
{
    if ps.len() == 0 {
        0
    } else {
        spec_total_mass(ps.drop_last()) + ps.last().mass.raw
    }
}

/// Two populations whose particles agree in mass, one by one, have the same
/// total mass.
pub proof fn lemma_total_mass_same(ps: Seq<Particle>, qs: Seq<Particle>)
    requires
        ps.len() == qs.len(),
        forall|i: int| 0 <= i < ps.len() ==> (#[trigger] ps[i]).mass == qs[i].mass,
    ensures
        spec_total_mass(ps) == spec_total_mass(qs),
    decreases ps.len(),
{
    if ps.len() > 0 {
        assert(ps.last().mass == ps[ps.len() - 1].mass);
        assert forall|i: int| 0 <= i < ps.drop_last().len() implies (#[trigger] ps.drop_last()[i]).mass
            == qs.drop_last()[i].mass by {
            assert(ps[i].mass == qs[i].mass);
        }
        lemma_total_mass_same(ps.drop_last(), qs.drop_last());
    }
}

/// Replacing one particle changes the total mass by the difference of the
/// two masses.
pub proof fn lemma_total_mass_update(ps: Seq<Particle>, i: int, p: Particle)
    requires
        0 <= i < ps.len(),
    ensures
        spec_total_mass(ps.update(i, p)) == spec_total_mass(ps) - ps[i].mass.raw + p.mass.raw,
    decreases ps.len(),
{
    let qs = ps.update(i, p);
    if i == ps.len() - 1 {
        assert(qs.drop_last() =~= ps.drop_last());
    } else {
        assert(qs.drop_last() =~= ps.drop_last().update(i, p));
        lemma_total_mass_update(ps.drop_last(), i, p);
    }
}

/// The density pass leaves no density negative.
pub proof fn law_density_nonneg(ps: Seq<Particle>, config: Config)
    requires
        valid_population(ps),
    ensures
        densities_nonneg(spec_update_pressure(ps, config)),
{
    lemma_update_pressure_keeps(ps, config);
}

/// At zero separation, for an interaction radius `h` whose square does not
/// round to zero, the density kernel is `315 / (64 pi)` over the third power
/// of `h`; at the edge of its support it is zero.
pub proof fn law_density_kernel_at_zero_and_edge(h: Fixed)
    ensures
        h.spec_squared().raw != 0 ==> spec_w_poly6(Fixed::spec_zero(), h) == Fixed::spec_from_int(
            315,
        ).spec_over(Fixed::spec_from_int(64).spec_times(Fixed::spec_pi())).spec_over(
            h.spec_cubed(),
        ),
        spec_w_poly6(h.spec_squared(), h).raw == 0,
{
    let h2 = h.spec_squared();
    let c = Fixed::spec_from_int(315).spec_over(
        Fixed::spec_from_int(64).spec_times(Fixed::spec_pi()),
    );
    lemma_one(h2);
    lemma_one(Fixed::spec_one());
    lemma_one(c);
    lemma_zero(h2);
    lemma_zero(Fixed::spec_zero());
    lemma_zero(c);
    lemma_zero(h.spec_cubed());
}

/// Within their support, for an interaction radius that is not negative,
/// neither the pressure-gradient kernel nor the viscosity kernel is negative.
pub proof fn law_gradient_kernels_nonneg(r2: Fixed, h: Fixed)
    requires
        h.raw >= 0,
        r2.spec_lt(h.spec_squared()),
    ensures
        spec_w_spiky_grad(r2, h).raw >= 0,
        spec_w_visc(r2, h).raw >= 0,
{
    let h2 = h.spec_squared();
    let d = h.spec_minus(r2.spec_sqrt());
    let s = d.spec_over(h);
    let c = Fixed::spec_from_int(45).spec_over(Fixed::spec_pi());
    lemma_sqrt_bounded(r2, h);
    lemma_squared_nonneg(h);
    lemma_over_nonneg(d, h);
    lemma_over_nonneg(Fixed::spec_from_int(45), Fixed::spec_pi());
    lemma_squared_nonneg(s);
    lemma_times_nonneg(c, s.spec_squared());
    lemma_over_nonneg(c.spec_times(s.spec_squared()), h2);
    lemma_over_nonneg(c.spec_times(s.spec_squared()).spec_over(h2), h2);
    lemma_times_nonneg(c, s);
    lemma_over_nonneg(c.spec_times(s), h2);
    lemma_over_nonneg(c.spec_times(s).spec_over(h2), h2);
    lemma_over_nonneg(c.spec_times(s).spec_over(h2).spec_over(h2), h);
}

/// At zero separation, for a positive interaction radius `h`, the
/// pressure-gradient kernel is `45 / pi` over the fourth power of `h`, and
/// the viscosity kernel is `45 / pi` over the fifth power of `h`, each power
/// divided out as the kernel divides it out.
pub proof fn law_gradient_kernels_at_zero_separation(h: Fixed)
    requires
        h.raw > 0,
    ensures
        spec_w_spiky_grad(Fixed::spec_zero(), h) == Fixed::spec_from_int(45).spec_over(
            Fixed::spec_pi(),
        ).spec_over(h.spec_squared()).spec_over(h.spec_squared()),
        spec_w_visc(Fixed::spec_zero(), h) == Fixed::spec_from_int(45).spec_over(
            Fixed::spec_pi(),
        ).spec_over(h.spec_squared()).spec_over(h.spec_squared()).spec_over(h),
{
    let c = Fixed::spec_from_int(45).spec_over(Fixed::spec_pi());
    let s = h.spec_minus(Fixed::spec_zero().spec_sqrt()).spec_over(h);
    lemma_one(h);
    assert(s == Fixed::spec_one());
    lemma_one(Fixed::spec_one());
    assert(s.spec_squared() == Fixed::spec_one());
    lemma_one(c);
}

/// Where the gas constant is positive, the pressure is negative below the
/// rest density, positive above it, and zero at it.
pub proof fn law_pressure_sign(density: Fixed, config: Config)
    requires
        config.gas_constant.raw > 0,
    ensures
        spec_pressure(density, config).raw < 0 <==> density.raw < config.rest_density.raw,
        spec_pressure(density, config).raw > 0 <==> density.raw > config.rest_density.raw,
{
    lemma_times_outward_sign(config.gas_constant, density.spec_minus(config.rest_density));
}

/// Where a particle divides, the masses of the two daughters add up to the
/// mass of the parent, exactly; and whether one divides or not, the total
/// mass of the population stays what it was.
pub proof fn law_division_conserves_mass(ps: Seq<Particle>, draws: DivisionDraws, config: Config)
    requires
        draws.spec_fits(ps.len() as int),
    ensures
        spec_divides(ps, draws, config) ==> spec_divide(ps, draws, config)[draws.index as int].mass.spec_plus(
            spec_divide(ps, draws, config)[ps.len() as int].mass,
        ) == ps[draws.index as int].mass,
        spec_total_mass(spec_divide(ps, draws, config)) == spec_total_mass(ps),
{
    lemma_divide_properties(ps, draws, config);
    let aged = spec_aged(ps, draws, config);
    let qs = spec_divide(ps, draws, config);
    lemma_total_mass_same(ps, aged);
    if spec_divides(ps, draws, config) {
        let first = qs[draws.index as int];
        lemma_division_conserves_mass(aged[draws.index as int], draws.split);
        assert(qs.drop_last() =~= aged.update(draws.index as int, first));
        lemma_total_mass_update(aged, draws.index as int, first);
    }
}

/// No particle grows younger by ageing, where the boost is not negative.
pub proof fn law_ageing_monotone(ps: Seq<Particle>, draws: DivisionDraws, config: Config, i: int)
    requires
        draws.spec_fits(ps.len() as int),
        config.age_boost.raw >= 0,
        0 <= i < ps.len(),
    ensures
        spec_aged(ps, draws, config)[i].age.raw >= ps[i].age.raw,
{
    assert(draws.age_increments@[i].raw >= 0);
}

/// What one sub-step keeps, whatever its draws and whatever solution is
/// handed back: the population does not shrink and grows by one particle at
/// most, and not at all where division is disabled; it does not pass a bound
/// of two or more that it kept before; no force is left on any particle; the
/// total mass stays; a valid population stays valid, with no density
/// negative; and polarizations of length one stay so.
pub proof fn law_substep(
    ps: Seq<Particle>,
    draws: Option<DivisionDraws>,
    solution: Option<Seq<Fixed>>,
    axes: DivisionAxes,
    config: Config,
)
    requires
        spec_draws_allowed(ps, draws, axes, config),
    ensures
        ps.len() <= spec_substep(ps, draws, solution, config).len() <= ps.len() + 1,
        !config.division_enabled ==> spec_substep(ps, draws, solution, config).len() == ps.len(),
        ps.len() <= config.max_population && config.max_population >= 2 ==> spec_substep(
            ps,
            draws,
            solution,
            config,
        ).len() <= config.max_population,
        forces_cleared(spec_substep(ps, draws, solution, config)),
        spec_total_mass(spec_substep(ps, draws, solution, config)) == spec_total_mass(ps),
        valid_population(ps) ==> valid_population(spec_substep(ps, draws, solution, config))
            && densities_nonneg(spec_substep(ps, draws, solution, config)),
        oriented(ps) ==> oriented(spec_substep(ps, draws, solution, config)),
{
    let divided = match draws {
        Some(d) => spec_divide(ps, d, config),
        None => ps,
    };
    match draws {
        Some(d) => {
            lemma_divide_properties(ps, d, config);
            law_division_conserves_mass(ps, d, config);
        },
        None => {},
    }
    let pressed = spec_update_pressure(divided, config);
    let forced = spec_update_forces(pressed, config);
    let moved = spec_finished(forced, solution, config);
    assert(forced == spec_prepared(ps, draws, config));
    assert(moved == spec_substep(ps, draws, solution, config));
    lemma_update_pressure_keeps(divided, config);
    lemma_same_makeup_keeps(pressed, forced);
    lemma_finished_keeps(forced, solution, config);
    lemma_same_makeup_keeps(forced, moved);
    lemma_total_mass_same(divided, moved);
}

/// What the sub-steps of a frame keep, whatever their draws and whatever the
/// solver hands back: the population does not shrink and grows by one
/// particle in a sub-step at most, and not at all where division is disabled;
/// it does not pass a bound of two or more that it kept before; the total
/// mass stays; a valid population stays valid; polarizations of length one
/// stay so; and after one sub-step or more, no force is left on any particle
/// and no density is negative.
pub proof fn law_frame<F: Fn(&Vec<Vec<Fixed>>, &Vec<Fixed>) -> Option<Vec<Fixed>>>(
    ps: Seq<Particle>,
    qs: Seq<Particle>,
    k: int,
    axes: Seq<DivisionAxes>,
    config: Config,
    solver: F,
)
    requires
        valid_population(ps),
        0 <= k <= axes.len(),
        spec_frame_reaches(ps, qs, k, axes, config, solver),
    ensures
        ps.len() <= qs.len() <= ps.len() + k,
        !config.division_enabled ==> qs.len() == ps.len(),
        ps.len() <= config.max_population && config.max_population >= 2 ==> qs.len()
            <= config.max_population,
        spec_total_mass(qs) == spec_total_mass(ps),
        valid_population(qs),
        oriented(ps) ==> oriented(qs),
        k >= 1 ==> forces_cleared(qs) && densities_nonneg(qs),
    decreases k,
{
    if k > 0 {
        let mid = choose|mid: Seq<Particle>|
            spec_frame_reaches(ps, mid, k - 1, axes, config, solver)
                && #[trigger] spec_substep_reaches(mid, qs, axes[k - 1], config, solver);
        law_frame(ps, mid, k - 1, axes, config, solver);
        let (draws, solution) = choose|draws: Option<DivisionDraws>, solution: Option<Vec<Fixed>>|
            spec_draws_allowed(mid, draws, axes[k - 1], config) && #[trigger] spec_solver_answers(
                solver,
                spec_prepared(mid, draws, config),
                solution,
                config,
            ) && qs == spec_substep(mid, draws, spec_handed_back(solution), config);
        law_substep(mid, draws, spec_handed_back(solution), axes[k - 1], config);
    }
}

/// No two different particles lie within each other's reach.
pub open spec fn all_strangers(ps: Seq<Particle>) -> bool {
    forall|i: int, j: int|
        0 <= i < ps.len() && 0 <= j < ps.len() && i != j ==> !spec_within(
            spec_offset(ps[i], ps[j]).spec_norm_squared(),
            #[trigger] spec_reach(ps[i], ps[j]),
        )
}

/// Every particle of `qs` stands where the particle of `ps` at its place
/// stands, and has its radius.
pub open spec fn same_places(ps: Seq<Particle>, qs: Seq<Particle>) -> bool {
    ps.len() == qs.len() && forall|i: int|
        0 <= i < ps.len() ==> (#[trigger] qs[i]).position == ps[i].position && qs[i].radius
            == ps[i].radius
}

/// Every entry is zero.
pub open spec fn all_zero(x: Seq<Fixed>) -> bool {
    forall|k: int| 0 <= k < x.len() ==> (#[trigger] x[k]).raw == 0
}

/// The solution moves nothing: there is none, or each of its entries is zero.
pub open spec fn spec_moves_nothing(solution: Option<Seq<Fixed>>) -> bool {
    match solution {
        Some(x) => all_zero(x),
        None => true,
    }
}

/// Strangers exert no pressure on each other.
proof fn lemma_strangers_exert_nothing(ps: Seq<Particle>, i: int, k: int)
    requires
        0 <= i < ps.len(),
        k <= ps.len(),
        all_strangers(ps),
    ensures
        spec_pressure_sum(ps, i, k) == Vec3::spec_zero(),
    decreases k,
{
    if k > 0 {
        lemma_strangers_exert_nothing(ps, i, k - 1);
        if k - 1 != i {
            assert(!spec_within(
                spec_offset(ps[i], ps[k - 1]).spec_norm_squared(),
                spec_reach(ps[i], ps[k - 1]),
            ));
        }
    }
}

/// Strangers stay strangers where places and radii stay.
proof fn lemma_strangers_stay_strangers(ps: Seq<Particle>, qs: Seq<Particle>)
    requires
        all_strangers(ps),
        same_places(ps, qs),
    ensures
        all_strangers(qs),
{
    assert forall|i: int, j: int| 0 <= i < qs.len() && 0 <= j < qs.len() && i != j implies !spec_within(
        spec_offset(qs[i], qs[j]).spec_norm_squared(),
        #[trigger] spec_reach(qs[i], qs[j]),
    ) by {
        assert(spec_reach(ps[i], ps[j]) == spec_reach(qs[i], qs[j]));
        assert(spec_offset(ps[i], ps[j]) == spec_offset(qs[i], qs[j]));
    }
}

/// Without division, well and polarization, the first half of a sub-step
/// leaves strangers without force and where they are.
pub proof fn law_strangers_feel_nothing(ps: Seq<Particle>, config: Config)
    requires
        forces_cleared(ps),
        all_strangers(ps),
        config.well_strength.raw == 0,
        config.polar_strength.raw == 0,
    ensures
        forces_cleared(spec_prepared(ps, None, config)),
        same_places(ps, spec_prepared(ps, None, config)),
        all_zero(spec_force_rows(spec_prepared(ps, None, config))),
{
    let pressed = spec_update_pressure(ps, config);
    let forced = spec_update_forces(pressed, config);
    assert(same_places(ps, pressed));
    lemma_strangers_stay_strangers(ps, pressed);
    assert forall|i: int| 0 <= i < forced.len() implies (#[trigger] forced[i]).force
        == Vec3::spec_zero() by {
        lemma_strangers_exert_nothing(pressed, i, pressed.len() as int);
        lemma_zero(pressed[i].position.x.spec_times(config.well_x_scale));
        lemma_zero(pressed[i].position.y);
        lemma_zero(pressed[i].position.z);
        lemma_zero(pressed[i].polarization.x);
        lemma_zero(pressed[i].polarization.y);
        lemma_zero(pressed[i].polarization.z);
        assert(config.well_strength.spec_negated() == Fixed::spec_zero());
        assert(config.polar_strength == Fixed::spec_zero());
        assert(spec_well_force(pressed[i], config) == Vec3::spec_zero());
        assert(spec_polar_force(pressed[i], config) == Vec3::spec_zero());
        assert(pressed[i].force == ps[i].force);
    }
    assert forall|k: int| 0 <= k < spec_force_rows(forced).len() implies (
    #[trigger] spec_force_rows(forced)[k]).raw == 0 by {
        assert(forced[k / 3].force == Vec3::spec_zero());
    }
}

/// Without division, well and polarization, strangers stay where they are
/// through a sub-step in which the solution moves nothing; they are
/// strangers still, and no force is left on them.
pub proof fn law_strangers_stay(ps: Seq<Particle>, solution: Option<Seq<Fixed>>, config: Config)
    requires
        forces_cleared(ps),
        all_strangers(ps),
        config.well_strength.raw == 0,
        config.polar_strength.raw == 0,
        spec_moves_nothing(solution),
    ensures
        same_places(ps, spec_substep(ps, None, solution, config)),
        forces_cleared(spec_substep(ps, None, solution, config)),
        all_strangers(spec_substep(ps, None, solution, config)),
{
    let forced = spec_prepared(ps, None, config);
    let moved = spec_substep(ps, None, solution, config);
    law_strangers_feel_nothing(ps, config);
    lemma_zero(config.dt);
    let solved = match solution {
        Some(x) => if x.len() == 3 * forced.len() {
            spec_set_forces(forced, x)
        } else {
            forced
        },
        None => forced,
    };
    assert forall|i: int| 0 <= i < solved.len() implies (#[trigger] solved[i]).force
        == Vec3::spec_zero() && solved[i].position == ps[i].position && solved[i].radius
        == ps[i].radius by {
        assert(forced[i].force == Vec3::spec_zero());
        match solution {
            Some(x) => {
                if x.len() == 3 * forced.len() {
                    assert(x[3 * i].raw == 0 && x[3 * i + 1].raw == 0 && x[3 * i + 2].raw == 0);
                }
            },
            None => {},
        }
    }
    assert forall|i: int| 0 <= i < moved.len() implies (#[trigger] moved[i]).position
        == ps[i].position && moved[i].radius == ps[i].radius by {
        assert(solved[i].force == Vec3::spec_zero());
        assert(moved[i] == solved[i].spec_integrated(config.dt));
    }
    lemma_finished_keeps(forced, solution, config);
    lemma_strangers_stay_strangers(ps, moved);
}

/// Without division, well and polarization, and with a solver that hands
/// back nothing or zero forces where it is handed zero forces, strangers
/// stay where they are through the sub-steps of a frame.
pub proof fn law_frame_of_strangers<F: Fn(&Vec<Vec<Fixed>>, &Vec<Fixed>) -> Option<Vec<Fixed>>>(
    ps: Seq<Particle>,
    qs: Seq<Particle>,
    k: int,
    axes: Seq<DivisionAxes>,
    config: Config,
    solver: F,
)
    requires
        !config.division_enabled,
        config.well_strength.raw == 0,
        config.polar_strength.raw == 0,
        forces_cleared(ps),
        all_strangers(ps),
        0 <= k <= axes.len(),
        spec_frame_reaches(ps, qs, k, axes, config, solver),
        forall|gamma: &Vec<Vec<Fixed>>, rows: &Vec<Fixed>, answer: Option<Vec<Fixed>>|
            all_zero(rows@) && #[trigger] call_ensures(solver, (gamma, rows), answer)
                ==> spec_moves_nothing(spec_handed_back(answer)),
    ensures
        same_places(ps, qs),
        forces_cleared(qs),
        all_strangers(qs),
    decreases k,
{
    if k > 0 {
        let mid = choose|mid: Seq<Particle>|
            spec_frame_reaches(ps, mid, k - 1, axes, config, solver)
                && #[trigger] spec_substep_reaches(mid, qs, axes[k - 1], config, solver);
        law_frame_of_strangers(ps, mid, k - 1, axes, config, solver);
        let (draws, solution) = choose|draws: Option<DivisionDraws>, solution: Option<Vec<Fixed>>|
            spec_draws_allowed(mid, draws, axes[k - 1], config) && #[trigger] spec_solver_answers(
                solver,
                spec_prepared(mid, draws, config),
                solution,
                config,
            ) && qs == spec_substep(mid, draws, spec_handed_back(solution), config);
        assert(draws is None);
        law_strangers_feel_nothing(mid, config);
        let (gamma, rows) = choose|gamma: Vec<Vec<Fixed>>, rows: Vec<Fixed>|
            is_friction_matrix(gamma@, spec_prepared(mid, None, config), config) && rows@
                == spec_force_rows(spec_prepared(mid, None, config)) && #[trigger] call_ensures(
                solver,
                (&gamma, &rows),
                solution,
            );
        assert(spec_moves_nothing(spec_handed_back(solution)));
        law_strangers_stay(mid, spec_handed_back(solution), config);
    }
}

/// The most that a particle can age in one sub-step: the age jitter and the
/// age boost, as far as each is positive.
pub open spec fn spec_age_gain(config: Config) -> int {
    (if config.age_jitter.raw > 0 {
        config.age_jitter.raw as int
    } else {
        0
    }) + (if config.age_boost.raw > 0 {
        config.age_boost.raw as int
    } else {
        0
    })
}

/// No particle is older than `bound`, in the smallest unit of age.
pub open spec fn ages_at_most(ps: Seq<Particle>, bound: int) -> bool {
    forall|i: int| 0 <= i < ps.len() ==> (#[trigger] ps[i]).age.raw <= bound
}

/// The population as the division rule leaves it in a sub-step with the
/// given draws, if any.
pub open spec fn spec_divided(ps: Seq<Particle>, draws: Option<DivisionDraws>, config: Config)
    -> Seq<Particle> {
    match draws {
        Some(d) => spec_divide(ps, d, config),
        None => ps,
    }
}

/// After the division rule, a sub-step leaves every mass and every age as
/// they are.
proof fn lemma_substep_keeps_mass_and_age(
    ps: Seq<Particle>,
    draws: Option<DivisionDraws>,
    solution: Option<Seq<Fixed>>,
    config: Config,
)
    ensures
        spec_substep(ps, draws, solution, config).len() == spec_divided(ps, draws, config).len(),
        forall|i: int|
            0 <= i < spec_divided(ps, draws, config).len() ==> (#[trigger] spec_substep(
                ps,
                draws,
                solution,
                config,
            )[i]).mass == spec_divided(ps, draws, config)[i].mass && spec_substep(
                ps,
                draws,
                solution,
                config,
            )[i].age == spec_divided(ps, draws, config)[i].age,
{
    let divided = spec_divided(ps, draws, config);
    let pressed = spec_update_pressure(divided, config);
    let forced = spec_update_forces(pressed, config);
    let moved = spec_finished(forced, solution, config);
    lemma_finished_keeps(forced, solution, config);
    assert(moved == spec_substep(ps, draws, solution, config));
    assert forall|i: int| 0 <= i < divided.len() implies (#[trigger] moved[i]).mass
        == divided[i].mass && moved[i].age == divided[i].age by {
        assert(pressed[i].age == divided[i].age && pressed[i].mass == divided[i].mass);
        assert(forced[i].age == pressed[i].age && forced[i].mass == pressed[i].mass);
    }
}

/// A single particle of thirteen units of mass or more divides into two of
/// age zero that have its mass between them.
proof fn lemma_lone_particle_divides(ps: Seq<Particle>, d: DivisionDraws, config: Config)
    requires
        ps.len() == 1,
        ps[0].mass.raw >= 13,
        d.spec_fits(1),
    ensures
        spec_divide(ps, d, config).len() == 2,
        spec_divide(ps, d, config)[0].mass.raw + spec_divide(ps, d, config)[1].mass.raw
            == ps[0].mass.raw,
        ages_at_most(spec_divide(ps, d, config), 0),
{
    let aged = spec_aged(ps, d, config);
    let parent = aged[d.index as int];
    let divided = spec_divide(ps, d, config);
    assert(d.index == 0);
    assert(parent.mass == ps[0].mass);
    lemma_daughters_valid(parent, d, config);
    assert(spec_divides(ps, d, config));
    lemma_division_conserves_mass(parent, d.split);
    assert(divided[0] == spec_first_daughter(parent, d, config));
    assert(divided[1] == spec_second_daughter(parent, d, config));
}

/// Two particles that cannot age beyond the threshold in this sub-step only
/// age: neither divides.
proof fn lemma_young_pair_ages(ps: Seq<Particle>, d: DivisionDraws, config: Config, bound: int)
    requires
        ps.len() == 2,
        d.spec_fits(2),
        d.spec_within(config),
        ages_at_most(ps, bound),
        0 <= bound,
        bound + spec_age_gain(config) <= config.age_threshold.raw,
    ensures
        spec_divide(ps, d, config).len() == 2,
        spec_divide(ps, d, config)[0].mass == ps[0].mass,
        spec_divide(ps, d, config)[1].mass == ps[1].mass,
        ages_at_most(spec_divide(ps, d, config), bound + spec_age_gain(config)),
{
    let aged = spec_aged(ps, d, config);
    assert forall|i: int| 0 <= i < aged.len() implies (#[trigger] aged[i]).age.raw <= bound
        + spec_age_gain(config) && aged[i].mass == ps[i].mass by {
        assert(ps[i].age.raw <= bound);
        assert(spec_drawn_below(d.age_increments@[i], config.age_jitter));
        assert(aged[i] == spec_aged_one(ps, i, d, config));
    }
    assert(aged[d.index as int].age.raw <= config.age_threshold.raw);
    assert(!spec_divides(ps, d, config));
}

/// A frame that starts from a single particle of thirteen units of mass or
/// more, with division enabled, leaves two particles with the mass of the
/// one between them, as long as no particle can age beyond the threshold
/// within the frame: the single particle divides in the first sub-step, and
/// its daughters, of age zero then, do not grow old enough to divide.
pub proof fn law_lone_particle_divides_once<F: Fn(&Vec<Vec<Fixed>>, &Vec<Fixed>) -> Option<
    Vec<Fixed>,
>>(ps: Seq<Particle>, qs: Seq<Particle>, k: int, axes: Seq<DivisionAxes>, config: Config, solver: F)
    requires
        ps.len() == 1,
        ps[0].mass.raw >= 13,
        config.division_enabled,
        1 <= k <= axes.len(),
        (k - 1) * spec_age_gain(config) <= config.age_threshold.raw,
        spec_frame_reaches(ps, qs, k, axes, config, solver),
    ensures
        qs.len() == 2,
        qs[0].mass.raw + qs[1].mass.raw == ps[0].mass.raw,
        ages_at_most(qs, (k - 1) * spec_age_gain(config)),
    decreases k,
{
    let gain = spec_age_gain(config);
    let mid = choose|mid: Seq<Particle>|
        spec_frame_reaches(ps, mid, k - 1, axes, config, solver)
            && #[trigger] spec_substep_reaches(mid, qs, axes[k - 1], config, solver);
    let (draws, solution) = choose|draws: Option<DivisionDraws>, solution: Option<Vec<Fixed>>|
        spec_draws_allowed(mid, draws, axes[k - 1], config) && #[trigger] spec_solver_answers(
            solver,
            spec_prepared(mid, draws, config),
            solution,
            config,
        ) && qs == spec_substep(mid, draws, spec_handed_back(solution), config);
    assert(draws is Some);
    let d = draws->Some_0;
    lemma_substep_keeps_mass_and_age(mid, draws, spec_handed_back(solution), config);
    assert(spec_divided(mid, draws, config) == spec_divide(mid, d, config));
    if k == 1 {
        assert(mid == ps);
        lemma_lone_particle_divides(ps, d, config);
    } else {
        assert((k - 1) * gain == (k - 2) * gain + gain && (k - 2) * gain >= 0
            && (k - 2) * gain <= (k - 1) * gain) by (nonlinear_arith)
            requires
                k >= 2,
                gain >= 0,
        ;
        law_lone_particle_divides_once(ps, mid, k - 1, axes, config, solver);
        lemma_young_pair_ages(mid, d, config, (k - 2) * gain);
    }
}

/// A polarization of length one is of length one after an integration step.
pub proof fn law_integration_keeps_orientation(ps: Seq<Particle>, dt: Fixed)
    requires
        oriented(ps),
    ensures
        oriented(spec_integrate_all(ps, dt)),
{
    lemma_same_makeup_keeps(ps, spec_integrate_all(ps, dt));
}

/// Two snapshots of one population are the same.
pub proof fn law_snapshot_repeatable(ps: Seq<Particle>, first: Seq<ParticleRaw>, second: Seq<
    ParticleRaw,
>)
    requires
        first == spec_snapshot(ps),
        second == spec_snapshot(ps),
    ensures
        first == second,
{
}

} // verus!
