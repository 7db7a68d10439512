//! The division rule, by which the population grows.
//!
//! In every sub-step each particle ages by a small random amount, and one
//! particle, chosen at random, ages by a fixed amount on top. Where the age
//! of the chosen particle is then above the threshold and the population is
//! below its bound, or where the population is a single particle, the chosen
//! particle is due to divide: it is replaced by a daughter that takes a
//! random share of its mass, and a second daughter with the rest is added at
//! the end. The daughters stand on either side of the parent's place, are of
//! age zero, and share a colour that differs a little from the parent's. A
//! division that would leave a daughter without mass or without radius is
//! held back: mass and radius stay positive. At most one particle divides in
//! a sub-step.

use crate::config::Config;
use crate::fixed::{Fixed, ONE_RAW};
use crate::kernel::lemma_radius_positive;
use crate::particle::{Color, Particle};
use crate::random::uniform_between;
use crate::vec3::Vec3;
use vstd::prelude::*;

verus! {

/// The raw value of the least share of the mass that the first daughter may
/// take: two fifths.
pub const SPLIT_MIN_RAW: i64 = 1717986918;

/// The raw value of the greatest share of the mass that the first daughter
/// may take: three fifths.
pub const SPLIT_MAX_RAW: i64 = 2576980377;

/// The directions of one division: the unit vector along which the daughters
/// part, and the polarization of each daughter, a unit vector too.
#[derive(Clone, Copy, Debug, PartialEq, Eq, Structural)]
pub struct DivisionAxes {
    pub axis: Vec3,
    pub first_polarization: Vec3,
    pub second_polarization: Vec3,
}

impl DivisionAxes {
    /// Each of the three directions is of length one.
    pub open spec fn spec_is_unit(self) -> bool {
        self.axis.spec_is_unit() && self.first_polarization.spec_is_unit()
            && self.second_polarization.spec_is_unit()
    }

    /// Whether each of the three directions is of length one.
    pub fn is_unit(&self) -> (r: bool)
        ensures
            r == self.spec_is_unit(),
    {
        self.axis.is_unit() && self.first_polarization.is_unit()
            && self.second_polarization.is_unit()
    }
}

/// All that chance decides in one sub-step of the division rule.
#[derive(Debug)]
pub struct DivisionDraws {
    /// The age that each particle gains, one entry for each particle.
    pub age_increments: Vec<Fixed>,
    /// The particle that is chosen.
    pub index: usize,
    /// The share of the mass that the first daughter takes.
    pub split: Fixed,
    /// The change of the colour.
    pub color_delta: Color,
    pub axes: DivisionAxes,
}

impl DivisionDraws {
    /// The draws suit a population of `n` particles: there is one age
    /// increment for each particle and none is negative, the chosen particle
    /// exists, the share lies between two and three fifths, and the
    /// directions are of length one.
    pub open spec fn spec_fits(&self, n: int) -> bool {
        &&& self.age_increments@.len() == n
        &&& self.index < n
        &&& forall|i: int| 0 <= i < n ==> (#[trigger] self.age_increments@[i]).raw >= 0
        &&& SPLIT_MIN_RAW <= self.split.raw <= SPLIT_MAX_RAW
        &&& self.axes.spec_is_unit()
    }

    /// The draws lie in the ranges that the constants give: each age
    /// increment below the age jitter, each change of a colour channel within
    /// the colour jitter; zero where a jitter is not positive.
    pub open spec fn spec_within(&self, config: Config) -> bool {
        &&& forall|i: int|
            0 <= i < self.age_increments@.len() ==> spec_drawn_below(
                #[trigger] self.age_increments@[i],
                config.age_jitter,
            )
        &&& spec_drawn_around(self.color_delta.r, config.color_jitter)
        &&& spec_drawn_around(self.color_delta.g, config.color_jitter)
        &&& spec_drawn_around(self.color_delta.b, config.color_jitter)
    }

    /// Whether the draws suit a population of `n` particles.
    pub fn fits(&self, n: usize) -> (r: bool)
        ensures
            r == self.spec_fits(n as int),
    {
        if self.age_increments.len() != n || self.index >= n || self.split.raw < SPLIT_MIN_RAW
            || self.split.raw > SPLIT_MAX_RAW || !self.axes.is_unit() {
            return false;
        }
        let mut i: usize = 0;
        while i < n
            invariant
                self.age_increments@.len() == n,
                i <= n,
                forall|k: int| 0 <= k < i ==> (#[trigger] self.age_increments@[k]).raw >= 0,
            decreases n - i,
        {
            if self.age_increments[i].raw < 0 {
                return false;
            }
            i += 1;
        }
        true
    }
}

/// `x` is zero, or at least zero and below `bound`.
pub open spec fn spec_drawn_below(x: Fixed, bound: Fixed) -> bool {
    x.raw == 0 || 0 <= x.raw < bound.raw
}

/// `x` is zero, or at least `-bound` and below `bound`.
pub open spec fn spec_drawn_around(x: Fixed, bound: Fixed) -> bool {
    x.raw == 0 || -bound.raw <= x.raw < bound.raw
}

/// Particle `i` after ageing: older by its increment, and the chosen one by
/// the boost on top.
pub open spec fn spec_aged_one(ps: Seq<Particle>, i: int, draws: DivisionDraws, config: Config)
    -> Particle {
    let age = ps[i].age.spec_plus(draws.age_increments@[i]);
    Particle { age: if i == draws.index { age.spec_plus(config.age_boost) } else { age }, ..ps[i] }
}

/// The population after ageing.
pub open spec fn spec_aged(ps: Seq<Particle>, draws: DivisionDraws, config: Config) -> Seq<
    Particle,
> {
    Seq::new(ps.len(), |i: int| spec_aged_one(ps, i, draws, config))
}

/// Whether a chosen particle of age `age` is due to divide in a population of
/// `n`.
pub open spec fn spec_division_due(age: Fixed, n: int, config: Config) -> bool {
    (config.age_threshold.spec_lt(age) && n < config.max_population) || n == 1
}

/// Half the distance between the daughters: the axis scaled by half the
/// division length times the parent's radius.
pub open spec fn spec_division_shift(parent: Particle, axis: Vec3, config: Config) -> Vec3 {
    axis.spec_scaled(
        Fixed::spec_ratio(1, 2).spec_times(config.division_length).spec_times(parent.radius),
    )
}

/// The mass of the first daughter: the share times the parent's mass.
pub open spec fn spec_first_mass(parent: Particle, split: Fixed) -> Fixed {
    split.spec_times(parent.mass)
}

/// The mass of the second daughter: the rest, so that rounding loses none.
pub open spec fn spec_second_mass(parent: Particle, split: Fixed) -> Fixed {
    parent.mass.spec_minus(spec_first_mass(parent, split))
}

/// The daughter that takes the parent's place.
pub open spec fn spec_first_daughter(parent: Particle, draws: DivisionDraws, config: Config)
    -> Particle {
    Particle::spec_new(
        parent.position.spec_plus(spec_division_shift(parent, draws.axes.axis, config)),
        spec_first_mass(parent, draws.split),
        parent.color.spec_shifted(draws.color_delta),
        draws.axes.first_polarization,
    )
}

/// The daughter that is added at the end.
pub open spec fn spec_second_daughter(parent: Particle, draws: DivisionDraws, config: Config)
    -> Particle {
    Particle::spec_new(
        parent.position.spec_minus(spec_division_shift(parent, draws.axes.axis, config)),
        spec_second_mass(parent, draws.split),
        parent.color.spec_shifted(draws.color_delta),
        draws.axes.second_polarization,
    )
}

/// Both daughters of `parent` would have a positive mass and a positive
/// radius.
pub open spec fn spec_daughters_valid(parent: Particle, draws: DivisionDraws, config: Config)
    -> bool {
    spec_first_daughter(parent, draws, config).is_valid() && spec_second_daughter(
        parent,
        draws,
        config,
    ).is_valid()
}

/// Whether the chosen particle divides in this sub-step: it is due to divide,
/// and both daughters would have a positive mass and a positive radius.
pub open spec fn spec_divides(ps: Seq<Particle>, draws: DivisionDraws, config: Config) -> bool {
    let parent = spec_aged(ps, draws, config)[draws.index as int];
    spec_division_due(parent.age, ps.len() as int, config) && spec_daughters_valid(
        parent,
        draws,
        config,
    )
}

/// The population after one sub-step of the division rule.
pub open spec fn spec_divide(ps: Seq<Particle>, draws: DivisionDraws, config: Config) -> Seq<
    Particle,
> {
    let aged = spec_aged(ps, draws, config);
    let parent = aged[draws.index as int];
    if spec_divides(ps, draws, config) {
        aged.update(draws.index as int, spec_first_daughter(parent, draws, config)).push(
            spec_second_daughter(parent, draws, config),
        )
    } else {
        aged
    }
}

/// Every particle is valid.
pub open spec fn valid_population(ps: Seq<Particle>) -> bool {
    forall|i: int| 0 <= i < ps.len() ==> (#[trigger] ps[i]).is_valid()
}

/// The polarization of every particle is of length one.
pub open spec fn oriented(ps: Seq<Particle>) -> bool {
    forall|i: int| 0 <= i < ps.len() ==> (#[trigger] ps[i]).polarization.spec_is_unit()
}

/// A share between nothing and all of a mass lies between nothing and that
/// mass.
pub proof fn lemma_share_bounded(mass: Fixed, split: Fixed)
    requires
        0 <= split.raw <= ONE_RAW,
    ensures
        mass.raw >= 0 ==> 0 <= split.spec_times(mass).raw <= mass.raw,
        mass.raw <= 0 ==> mass.raw <= split.spec_times(mass).raw <= 0,
{
    let p = split.raw as int * mass.raw as int;
    if mass.raw >= 0 {
        assert(0 <= p <= ONE_RAW as int * mass.raw as int) by (nonlinear_arith)
            requires
                p == split.raw as int * mass.raw as int,
                mass.raw >= 0,
                0 <= split.raw <= ONE_RAW,
        ;
    } else {
        assert(0 <= -p <= ONE_RAW as int * (-(mass.raw as int))) by (nonlinear_arith)
            requires
                p == split.raw as int * mass.raw as int,
                mass.raw < 0,
                0 <= split.raw <= ONE_RAW,
        ;
    }
}

/// The masses of the two daughters add up to the mass of the parent, exactly,
/// also as whole numbers of the smallest unit of mass.
pub proof fn lemma_division_conserves_mass(parent: Particle, split: Fixed)
    requires
        0 <= split.raw <= ONE_RAW,
    ensures
        spec_first_mass(parent, split).spec_plus(spec_second_mass(parent, split)) == parent.mass,
        spec_first_mass(parent, split).raw + spec_second_mass(parent, split).raw
            == parent.mass.raw,
{
    lemma_share_bounded(parent.mass, split);
}

/// The daughters of a parent of thirteen units of mass or more have a
/// positive mass and a positive radius, whatever share between two and three
/// fifths the first of them takes.
pub proof fn lemma_daughters_valid(parent: Particle, draws: DivisionDraws, config: Config)
    requires
        parent.mass.raw >= 13,
        SPLIT_MIN_RAW <= draws.split.raw <= SPLIT_MAX_RAW,
    ensures
        spec_daughters_valid(parent, draws, config),
{
    let m = parent.mass.raw as int;
    let f = draws.split.raw as int;
    let p = f * m;
    assert(SPLIT_MIN_RAW * 13 <= p <= SPLIT_MAX_RAW * m) by (nonlinear_arith)
        requires
            p == f * m,
            m >= 13,
            SPLIT_MIN_RAW <= f <= SPLIT_MAX_RAW,
    ;
    lemma_share_bounded(parent.mass, draws.split);
    let first = spec_first_mass(parent, draws.split);
    let second = spec_second_mass(parent, draws.split);
    assert(first.raw == p / (ONE_RAW as int));
    assert(first.raw >= 5);
    assert(second.raw == m - first.raw);
    assert(second.raw >= 5);
    lemma_radius_positive(first);
    lemma_radius_positive(second);
}

/// What the division rule keeps: the population does not shrink and grows by
/// one particle at most, namely where the chosen particle divides; it does
/// not pass a bound of two or more that it kept before; a valid population
/// stays valid, and polarizations of length one stay so; and the masses of
/// the daughters add up to the mass of the parent.
pub proof fn lemma_divide_properties(ps: Seq<Particle>, draws: DivisionDraws, config: Config)
    requires
        draws.spec_fits(ps.len() as int),
    ensures
        spec_divide(ps, draws, config).len() == ps.len() + if spec_divides(ps, draws, config) {
            1int
        } else {
            0int
        },
        ps.len() <= config.max_population && config.max_population >= 2 ==> spec_divide(
            ps,
            draws,
            config,
        ).len() <= config.max_population,
        valid_population(ps) ==> valid_population(spec_divide(ps, draws, config)),
        oriented(ps) ==> oriented(spec_divide(ps, draws, config)),
        spec_divides(ps, draws, config) ==> spec_divide(ps, draws, config)[draws.index as int].mass.spec_plus(
            spec_divide(ps, draws, config)[ps.len() as int].mass,
        ) == ps[draws.index as int].mass,
{
    let aged = spec_aged(ps, draws, config);
    let parent = aged[draws.index as int];
    let qs = spec_divide(ps, draws, config);
    assert(parent.mass == ps[draws.index as int].mass);
    lemma_division_conserves_mass(parent, draws.split);
    if valid_population(ps) {
        assert(ps[draws.index as int].is_valid());
        assert forall|i: int| 0 <= i < qs.len() implies (#[trigger] qs[i]).is_valid() by {
            if i < ps.len() {
                assert(ps[i].is_valid());
                assert(aged[i] == spec_aged_one(ps, i, draws, config));
            }
        }
    }
    if oriented(ps) {
        assert forall|i: int| 0 <= i < qs.len() implies (#[trigger] qs[i]).polarization.spec_is_unit() by {
            if i < ps.len() {
                assert(ps[i].polarization.spec_is_unit());
                assert(aged[i] == spec_aged_one(ps, i, draws, config));
            }
        }
    }
}

/// Ages every particle by its increment and the chosen one by the boost on
/// top.
fn age_all(list: &mut Vec<Particle>, draws: &DivisionDraws, config: &Config)
    requires
        draws.age_increments@.len() == old(list)@.len(),
    ensures
        final(list)@ == spec_aged(old(list)@, *draws, *config),
{
    let n = list.len();
    let ghost before = list@;
    let mut i: usize = 0;
    while i < n
        invariant
            n == before.len(),
            list@.len() == n,
            draws.age_increments@.len() == n,
            i <= n,
            forall|k: int| 0 <= k < i ==> #[trigger] list@[k] == spec_aged_one(
                before,
                k,
                *draws,
                *config,
            ),
            forall|k: int| i <= k < n ==> #[trigger] list@[k] == before[k],
        decreases n - i,
    {
        let mut p = list[i];
        p.age = p.age.plus(draws.age_increments[i]);
        if i == draws.index {
            p.age = p.age.plus(config.age_boost);
        }
        list[i] = p;
        i += 1;
    }
    assert(list@ =~= spec_aged(before, *draws, *config));
}

/// One sub-step of the division rule with the given draws. Says whether a
/// particle divided.
pub fn divide_with(list: &mut Vec<Particle>, draws: &DivisionDraws, config: &Config) -> (divided:
    bool)
    requires
        draws.spec_fits(old(list)@.len() as int),
    ensures
        final(list)@ == spec_divide(old(list)@, *draws, *config),
        divided == spec_divides(old(list)@, *draws, *config),
        final(list)@.len() == old(list)@.len() + if divided { 1int } else { 0int },
        old(list)@.len() <= config.max_population && config.max_population >= 2
            ==> final(list)@.len() <= config.max_population,
        valid_population(old(list)@) ==> valid_population(final(list)@),
        oriented(old(list)@) ==> oriented(final(list)@),
        divided ==> final(list)@[draws.index as int].mass.spec_plus(
            final(list)@[old(list)@.len() as int].mass,
        ) == old(list)@[draws.index as int].mass,
{
    let n = list.len();
    let ghost before = list@;
    age_all(list, draws, config);
    let index = draws.index;
    let parent = list[index];
    let due = (config.age_threshold.lt(parent.age) && n < config.max_population) || n == 1;
    let mut divided = false;
    if due {
        let shift = draws.axes.axis.scaled(
            Fixed::ratio(1, 2).times(config.division_length).times(parent.radius),
        );
        let color = parent.color.shifted(draws.color_delta);
        let first_mass = draws.split.times(parent.mass);
        let second_mass = parent.mass.minus(first_mass);
        let first = Particle::new(
            parent.position.plus(shift),
            first_mass,
            color,
            draws.axes.first_polarization,
        );
        let second = Particle::new(
            parent.position.minus(shift),
            second_mass,
            color,
            draws.axes.second_polarization,
        );
        if first.mass.raw > 0 && first.radius.raw > 0 && second.mass.raw > 0 && second.radius.raw
            > 0 {
            list[index] = first;
            list.push(second);
            divided = true;
        }
    }
    proof {
        lemma_divide_properties(before, *draws, *config);
    }
    divided
}

/// A random age increment: zero, or at least zero and below `bound`.
fn draw_below(bound: Fixed) -> (x: Fixed)
    ensures
        spec_drawn_below(x, bound),
        x.raw >= 0,
{
    if bound.raw > 0 {
        Fixed::from_raw(uniform_between(0, bound.raw))
    } else {
        Fixed::zero()
    }
}

/// A random change of a colour channel: zero, or at least `-bound` and below
/// `bound`.
fn draw_around(bound: Fixed) -> (x: Fixed)
    ensures
        spec_drawn_around(x, bound),
{
    if bound.raw > 0 {
        Fixed::from_raw(uniform_between(-bound.raw, bound.raw))
    } else {
        Fixed::zero()
    }
}

/// A random particle of a population of `n`.
fn draw_index(n: usize) -> (index: usize)
    requires
        n >= 1,
    ensures
        index < n,
{
    let wide: u64 = n as u64;
    let bound: i64 = if wide <= 0x7fff_ffff_ffff_ffff {
        wide as i64
    } else {
        0x7fff_ffff_ffff_ffff
    };
    uniform_between(0, bound) as usize
}

/// Draws all that chance decides in one sub-step of the division rule, for a
/// population of `n` particles and the given directions.
pub fn draw(n: usize, axes: &DivisionAxes, config: &Config) -> (draws: DivisionDraws)
    requires
        n >= 1,
        axes.spec_is_unit(),
    ensures
        draws.spec_fits(n as int),
        draws.spec_within(*config),
        draws.axes == *axes,
{
    let mut age_increments: Vec<Fixed> = Vec::with_capacity(n);
    let mut i: usize = 0;
    while i < n
        invariant
            i <= n,
            age_increments@.len() == i,
            forall|k: int|
                0 <= k < i ==> (#[trigger] age_increments@[k]).raw >= 0 && spec_drawn_below(
                    age_increments@[k],
                    config.age_jitter,
                ),
        decreases n - i,
    {
        age_increments.push(draw_below(config.age_jitter));
        i += 1;
    }
    let index = draw_index(n);
    let split = Fixed::from_raw(uniform_between(SPLIT_MIN_RAW, SPLIT_MAX_RAW + 1));
    let color_delta = Color {
        r: draw_around(config.color_jitter),
        g: draw_around(config.color_jitter),
        b: draw_around(config.color_jitter),
    };
    DivisionDraws { age_increments, index, split, color_delta, axes: *axes }
}

/// One sub-step of the division rule, with draws of its own and the given
/// directions. Says whether a particle divided.
pub fn divide(list: &mut Vec<Particle>, axes: &DivisionAxes, config: &Config) -> (divided: bool)
    requires
        old(list)@.len() >= 1,
        axes.spec_is_unit(),
    ensures
        exists|draws: DivisionDraws|
            {
                &&& #[trigger] draws.spec_fits(old(list)@.len() as int)
                &&& draws.spec_within(*config)
                &&& draws.axes == *axes
                &&& final(list)@ == spec_divide(old(list)@, draws, *config)
                &&& divided == spec_divides(old(list)@, draws, *config)
            },
        final(list)@.len() == old(list)@.len() + if divided { 1int } else { 0int },
        old(list)@.len() <= config.max_population && config.max_population >= 2
            ==> final(list)@.len() <= config.max_population,
        valid_population(old(list)@) ==> valid_population(final(list)@),
        oriented(old(list)@) ==> oriented(final(list)@),
{
    let draws = draw(list.len(), axes, config);
    divide_with(list, &draws, config)
}

} // verus!
