//! The population: the particles in their order, and the constants that
//! govern them. Its size changes only by division, and stays within the bound
//! that the constants set.

use crate::config::Config;
use crate::density;
use crate::density::{pressures_signed, spec_update_pressure};
use crate::division;
use crate::division::{
    oriented, spec_divide, spec_divides, valid_population, DivisionAxes, DivisionDraws,
};
use crate::fixed::Fixed;
use crate::forces;
use crate::forces::{spec_integrate_all, spec_update_forces};
use crate::frame::{
    densities_nonneg, forces_cleared, lemma_frame_extends, lemma_same_makeup_keeps,
    lemma_update_pressure_keeps, spec_draws_allowed, spec_finished, spec_frame_reaches,
    spec_handed_back, spec_prepare_reaches, spec_prepared, spec_snapshot, spec_solver_answers,
    spec_substep_reaches,
};
use crate::friction;
use crate::friction::{is_friction_matrix, spec_force_rows, spec_set_forces};
use crate::kernel::mass_to_radius;
use crate::particle::{Particle, ParticleRaw};
use vstd::prelude::*;

verus! {

/// A population of particles with the constants that govern it.
pub struct Particles {
    list: Vec<Particle>,
    config: Config,
}

/// A population can start from `seed` under `config`: the bound on the
/// population is two or more, there is at least one particle and no more
/// than the bound allows, and every particle has a positive mass, the
/// positive radius of its mass, and a polarization of length one. A bound
/// below two could not be kept, since a single particle is always due to
/// divide.
pub open spec fn spec_seed_accepted(seed: Seq<Particle>, config: Config) -> bool {
    &&& config.max_population >= 2
    &&& 1 <= seed.len() <= config.max_population
    &&& forall|i: int|
        0 <= i < seed.len() ==> (#[trigger] seed[i]).is_valid()
            && seed[i].polarization.spec_is_unit()
}

/// The draws that an optional reference stands for.
pub open spec fn spec_deref_draws(draws: Option<&DivisionDraws>) -> Option<DivisionDraws> {
    match draws {
        Some(d) => Some(*d),
        None => None,
    }
}

/// The solution that an optional reference stands for.
pub open spec fn spec_deref_solution(solution: Option<&Vec<Fixed>>) -> Option<Seq<Fixed>> {
    match solution {
        Some(x) => Some(x@),
        None => None,
    }
}

impl View for Particles {
    type V = Seq<Particle>;

    /// The particles in their order.
    closed spec fn view(&self) -> Seq<Particle> {
        self.list@
    }
}

impl Particles {
    /// The constants.
    pub closed spec fn spec_config(&self) -> Config {
        self.config
    }

    /// The bound on the population is two or more; there is at least one
    /// particle and no more than the bound allows; every particle is valid;
    /// and every polarization is of length one.
    pub open spec fn wf(&self) -> bool {
        &&& self.spec_config().max_population >= 2
        &&& 1 <= self@.len() <= self.spec_config().max_population
        &&& valid_population(self@)
        &&& oriented(self@)
    }

    /// The population of the particles of `seed`, in their order, under the
    /// constants `config`. There is none where the bound on the population is
    /// below two, where `seed` is empty or longer than the bound allows, or
    /// where it holds a particle whose mass or radius is not positive, whose
    /// radius is not that of its mass, or whose polarization is not of length
    /// one.
    pub fn new(config: Config, seed: Vec<Particle>) -> (r: Option<Particles>)
        ensures
            r.is_some() == spec_seed_accepted(seed@, config),
            r matches Some(p) ==> p@ == seed@ && p.spec_config() == config && p.wf(),
    {
        let n = seed.len();
        if config.max_population < 2 || n == 0 || n > config.max_population {
            return None;
        }
        let mut i: usize = 0;
        while i < n
            invariant
                n == seed@.len(),
                i <= n,
                forall|k: int|
                    0 <= k < i ==> (#[trigger] seed@[k]).is_valid()
                        && seed@[k].polarization.spec_is_unit(),
            decreases n - i,
        {
            let p = seed[i];
            if p.mass.raw <= 0 || p.radius.raw <= 0 || p.radius != mass_to_radius(p.mass)
                || !p.polarization.is_unit() {
                return None;
            }
            i += 1;
        }
        Some(Particles { list: seed, config })
    }

    /// The number of particles.
    pub fn len(&self) -> (n: usize)
        ensures
            n == self@.len(),
    {
        self.list.len()
    }

    /// Particle `i`, if there is one.
    pub fn get(&self, i: usize) -> (p: Option<Particle>)
        ensures
            p == if i < self@.len() { Some(self@[i as int]) } else { None },
    {
        if i < self.list.len() {
            Some(self.list[i])
        } else {
            None
        }
    }

    /// The constants.
    pub fn config(&self) -> (c: Config)
        ensures
            c == self.spec_config(),
    {
        self.config
    }

    /// One sub-step of the division rule with the given draws. Says whether a
    /// particle divided. The population never shrinks and grows by one
    /// particle at most; the daughters' masses add up to the parent's.
    pub fn divide_with(&mut self, draws: &DivisionDraws) -> (divided: bool)
        requires
            old(self).wf(),
            draws.spec_fits(old(self)@.len() as int),
        ensures
            final(self)@ == spec_divide(old(self)@, *draws, old(self).spec_config()),
            divided == spec_divides(old(self)@, *draws, old(self).spec_config()),
            final(self).spec_config() == old(self).spec_config(),
            final(self).wf(),
            final(self)@.len() == old(self)@.len() + if divided { 1int } else { 0int },
            divided ==> final(self)@[draws.index as int].mass.spec_plus(
                final(self)@[old(self)@.len() as int].mass,
            ) == old(self)@[draws.index as int].mass,
    {
        division::divide_with(&mut self.list, draws, &self.config)
    }

    /// One sub-step of the division rule, with draws of its own and the given
    /// directions. Says whether a particle divided.
    pub fn divide(&mut self, axes: &DivisionAxes) -> (divided: bool)
        requires
            old(self).wf(),
            axes.spec_is_unit(),
        ensures
            exists|draws: DivisionDraws|
                {
                    &&& #[trigger] draws.spec_fits(old(self)@.len() as int)
                    &&& draws.spec_within(old(self).spec_config())
                    &&& draws.axes == *axes
                    &&& final(self)@ == spec_divide(old(self)@, draws, old(self).spec_config())
                    &&& divided == spec_divides(old(self)@, draws, old(self).spec_config())
                },
            final(self).spec_config() == old(self).spec_config(),
            final(self).wf(),
            final(self)@.len() == old(self)@.len() + if divided { 1int } else { 0int },
    {
        division::divide(&mut self.list, axes, &self.config)
    }

    /// The density pass: brings the density and the pressure of every
    /// particle up to date. No density is negative afterwards, and where the
    /// gas constant is positive, every pressure is negative below the rest
    /// density and positive above it.
    pub fn update_pressure(&mut self)
        requires
            old(self).wf(),
        ensures
            final(self)@ == spec_update_pressure(old(self)@, old(self).spec_config()),
            final(self).spec_config() == old(self).spec_config(),
            final(self).wf(),
            densities_nonneg(final(self)@),
            old(self).spec_config().gas_constant.raw > 0 ==> pressures_signed(
                final(self)@,
                old(self).spec_config(),
            ),
    {
        proof {
            lemma_update_pressure_keeps(self@, self.config);
        }
        density::update_pressure(&mut self.list, &self.config);
    }

    /// The force pass: adds to the force on every particle the pressure of
    /// its neighbours, the pull of the well and the push of its
    /// polarization.
    pub fn update_forces(&mut self)
        requires
            old(self).wf(),
        ensures
            final(self)@ == spec_update_forces(old(self)@, old(self).spec_config()),
            final(self).spec_config() == old(self).spec_config(),
            final(self).wf(),
            densities_nonneg(old(self)@) ==> densities_nonneg(final(self)@),
    {
        proof {
            lemma_same_makeup_keeps(self@, spec_update_forces(self@, self.config));
        }
        forces::update_forces(&mut self.list, &self.config);
    }

    /// The integration step: moves every particle by the time step times its
    /// force, and clears the forces.
    pub fn integrate(&mut self)
        requires
            old(self).wf(),
        ensures
            final(self)@ == spec_integrate_all(old(self)@, old(self).spec_config().dt),
            final(self).spec_config() == old(self).spec_config(),
            final(self).wf(),
            forces_cleared(final(self)@),
            densities_nonneg(old(self)@) ==> densities_nonneg(final(self)@),
    {
        proof {
            lemma_same_makeup_keeps(self@, spec_integrate_all(self@, self.config.dt));
        }
        forces::integrate_all(&mut self.list, self.config.dt);
    }

    /// The friction matrix of the population, row by row.
    pub fn friction_matrix(&self) -> (m: Vec<Vec<Fixed>>)
        ensures
            is_friction_matrix(m@, self@, self.spec_config()),
    {
        friction::friction_matrix(&self.list, &self.config)
    }

    /// The forces of the population in one sequence, three components for
    /// each particle.
    pub fn force_rows(&self) -> (rows: Vec<Fixed>)
        ensures
            rows@ == spec_force_rows(self@),
    {
        friction::force_rows(&self.list)
    }

    /// Replaces the forces by the rows of `x`, where `x` holds three
    /// components for each particle, and says whether it did.
    pub fn set_forces(&mut self, x: &Vec<Fixed>) -> (done: bool)
        requires
            old(self).wf(),
        ensures
            done == (x@.len() == 3 * old(self)@.len()),
            done ==> final(self)@ == spec_set_forces(old(self)@, x@),
            !done ==> final(self)@ == old(self)@,
            final(self).spec_config() == old(self).spec_config(),
            final(self).wf(),
            densities_nonneg(old(self)@) ==> densities_nonneg(final(self)@),
    {
        proof {
            lemma_same_makeup_keeps(self@, spec_set_forces(self@, x@));
        }
        friction::set_forces(&mut self.list, x)
    }

    /// The first half of a sub-step with the given draws: the division rule,
    /// where draws are given, then the density pass and the force pass.
    pub fn begin_substep_with(&mut self, draws: Option<&DivisionDraws>)
        requires
            old(self).wf(),
            draws matches Some(d) ==> d.spec_fits(old(self)@.len() as int),
        ensures
            final(self)@ == spec_prepared(
                old(self)@,
                spec_deref_draws(draws),
                old(self).spec_config(),
            ),
            final(self).spec_config() == old(self).spec_config(),
            final(self).wf(),
            densities_nonneg(final(self)@),
            old(self)@.len() <= final(self)@.len() <= old(self)@.len() + 1,
    {
        match draws {
            Some(d) => {
                self.divide_with(d);
            },
            None => {},
        }
        self.update_pressure();
        self.update_forces();
    }

    /// The first half of a sub-step with draws of its own and the given
    /// directions, which are of length one where division is enabled.
    pub fn begin_substep(&mut self, axes: &DivisionAxes)
        requires
            old(self).wf(),
            old(self).spec_config().division_enabled ==> axes.spec_is_unit(),
        ensures
            spec_prepare_reaches(old(self)@, final(self)@, *axes, old(self).spec_config()),
            final(self).spec_config() == old(self).spec_config(),
            final(self).wf(),
            densities_nonneg(final(self)@),
            old(self)@.len() <= final(self)@.len() <= old(self)@.len() + 1,
    {
        if self.config.division_enabled {
            let draws = division::draw(self.list.len(), axes, &self.config);
            self.begin_substep_with(Some(&draws));
            assert(spec_draws_allowed(old(self)@, Some(draws), *axes, self.config));
        } else {
            self.begin_substep_with(None);
            assert(spec_draws_allowed(old(self)@, None, *axes, self.config));
        }
    }

    /// The second half of a sub-step: replaces the forces by `solution`,
    /// where one of the right size is given, and integrates. No force is left
    /// on any particle.
    pub fn finish_substep(&mut self, solution: Option<&Vec<Fixed>>)
        requires
            old(self).wf(),
        ensures
            final(self)@ == spec_finished(
                old(self)@,
                spec_deref_solution(solution),
                old(self).spec_config(),
            ),
            final(self).spec_config() == old(self).spec_config(),
            final(self).wf(),
            forces_cleared(final(self)@),
            final(self)@.len() == old(self)@.len(),
            densities_nonneg(old(self)@) ==> densities_nonneg(final(self)@),
    {
        match solution {
            Some(x) => {
                self.set_forces(x);
            },
            None => {},
        }
        self.integrate();
    }

    /// One frame: as many sub-steps as the constants say, each with draws of
    /// its own and the directions of its place in `axes`, which are of length
    /// one where division is enabled. In each sub-step `solver` is handed the
    /// friction matrix and the forces, and what it hands back replaces the
    /// forces, where it is of the right size. Afterwards no force is left on
    /// any particle; the population has not shrunk and has grown by one
    /// particle in a sub-step at most.
    pub fn update<F: Fn(&Vec<Vec<Fixed>>, &Vec<Fixed>) -> Option<Vec<Fixed>>>(
        &mut self,
        axes: &Vec<DivisionAxes>,
        solver: F,
    )
        requires
            old(self).wf(),
            axes@.len() == old(self).spec_config().substeps,
            old(self).spec_config().division_enabled ==> forall|k: int|
                0 <= k < axes@.len() ==> (#[trigger] axes@[k]).spec_is_unit(),
            forall|gamma: &Vec<Vec<Fixed>>, rows: &Vec<Fixed>| call_requires(solver, (gamma, rows)),
        ensures
            spec_frame_reaches(
                old(self)@,
                final(self)@,
                old(self).spec_config().substeps as int,
                axes@,
                old(self).spec_config(),
                solver,
            ),
            final(self).spec_config() == old(self).spec_config(),
            final(self).wf(),
            forces_cleared(old(self)@) || old(self).spec_config().substeps >= 1 ==> forces_cleared(
                final(self)@,
            ),
            old(self)@.len() <= final(self)@.len() <= old(self)@.len() + old(
                self,
            ).spec_config().substeps,
    {
        let substeps = self.config.substeps;
        let ghost before = self@;
        let ghost config = self.config;
        let mut k: usize = 0;
        while k < substeps
            invariant
                k <= substeps,
                substeps == config.substeps,
                axes@.len() == substeps,
                config.division_enabled ==> forall|k: int|
                    0 <= k < axes@.len() ==> (#[trigger] axes@[k]).spec_is_unit(),
                forall|gamma: &Vec<Vec<Fixed>>, rows: &Vec<Fixed>|
                    call_requires(solver, (gamma, rows)),
                self.spec_config() == config,
                self.wf(),
                spec_frame_reaches(before, self@, k as int, axes@, config, solver),
                forces_cleared(before) || k >= 1 ==> forces_cleared(self@),
                before.len() <= self@.len() <= before.len() + k,
            decreases substeps - k,
        {
            let ghost start = self@;
            self.begin_substep(&axes[k]);
            let ghost mid = self@;
            let gamma = self.friction_matrix();
            let rows = self.force_rows();
            let solution = solver(&gamma, &rows);
            match &solution {
                Some(x) => self.finish_substep(Some(x)),
                None => self.finish_substep(None),
            }
            proof {
                let draws = choose|draws: Option<DivisionDraws>| #[trigger]
                    spec_draws_allowed(start, draws, axes@[k as int], config) && mid
                        == spec_prepared(start, draws, config);
                assert(is_friction_matrix(gamma@, mid, config) && rows@ == spec_force_rows(mid)
                    && call_ensures(solver, (&gamma, &rows), solution));
                assert(spec_solver_answers(solver, mid, solution, config));
                assert(self@ == spec_finished(mid, spec_handed_back(solution), config));
                assert(spec_substep_reaches(start, self@, axes@[k as int], config, solver));
                lemma_frame_extends(before, start, self@, k as int, axes@, config, solver);
            }
            k += 1;
        }
    }

    /// The records to draw the population from, in its order. The population
    /// stays as it is.
    pub fn snapshot(&self) -> (records: Vec<ParticleRaw>)
        ensures
            records@ == spec_snapshot(self@),
    {
        let n = self.list.len();
        let mut records: Vec<ParticleRaw> = Vec::with_capacity(n);
        let mut i: usize = 0;
        while i < n
            invariant
                n == self.list@.len(),
                i <= n,
                records@.len() == i,
                forall|k: int| 0 <= k < i ==> #[trigger] records@[k] == self.list@[k].spec_as_raw(),
            decreases n - i,
        {
            records.push(self.list[i].as_raw());
            i += 1;
        }
        assert(records@ =~= spec_snapshot(self@));
        records
    }
}

} // verus!
