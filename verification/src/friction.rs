//! The drag between neighbours as a linear system.
//!
//! With `n` particles the friction matrix has `n` rows and columns. Off the
//! diagonal, the entry of row `i` and column `j` is the negated viscous
//! coupling of the pair, which is zero out of range; on the diagonal stands
//! the friction against the medium plus the sum of the couplings of the row.
//! The right-hand side is the force on each particle, one row of three
//! components each. Whoever solves the system hands the solution back in the
//! same layout, and it replaces the forces.

use crate::config::Config;
use crate::density::{offset, reach, spec_offset, spec_reach, spec_within, within};
use crate::fixed::Fixed;
use crate::kernel::{spec_w_visc, w_visc};
use crate::particle::Particle;
use crate::vec3::Vec3;
use vstd::prelude::*;

verus! {

/// The viscous coupling of `a` to its neighbour `b`:
/// `viscosity * m_b * W(r2, h) / density_b`, where `W` is the viscosity
/// kernel; zero where `b` is out of range or has no density.
pub open spec fn spec_coupling(a: Particle, b: Particle, config: Config) -> Fixed {
    let r2 = spec_offset(a, b).spec_norm_squared();
    let h = spec_reach(a, b);
    if spec_within(r2, h) {
        config.viscosity.spec_times(b.mass).spec_times(spec_w_visc(r2, h)).spec_over(b.density)
    } else {
        Fixed::spec_zero()
    }
}

/// The sum of the couplings of particle `i` to the first `k` particles but
/// itself, in their order.
pub open spec fn spec_coupling_sum(ps: Seq<Particle>, i: int, k: int, config: Config) -> Fixed
    decreases k,
{
    if k <= 0 {
        Fixed::spec_zero()
    } else if k - 1 == i {
        spec_coupling_sum(ps, i, k - 1, config)
    } else {
        spec_coupling_sum(ps, i, k - 1, config).spec_plus(spec_coupling(ps[i], ps[k - 1], config))
    }
}

/// The entry of the friction matrix in row `i` and column `j`.
pub open spec fn spec_friction_entry(ps: Seq<Particle>, i: int, j: int, config: Config) -> Fixed {
    if i == j {
        config.friction.spec_plus(spec_coupling_sum(ps, i, ps.len() as int, config))
    } else {
        spec_coupling(ps[i], ps[j], config).spec_negated()
    }
}

/// `m` is the friction matrix of the population, row by row.
pub open spec fn is_friction_matrix(m: Seq<Vec<Fixed>>, ps: Seq<Particle>, config: Config) -> bool {
    &&& m.len() == ps.len()
    &&& forall|i: int| 0 <= i < m.len() ==> (#[trigger] m[i])@.len() == ps.len()
    &&& forall|i: int, j: int|
        0 <= i < ps.len() && 0 <= j < ps.len() ==> #[trigger] m[i]@[j] == spec_friction_entry(
            ps,
            i,
            j,
            config,
        )
}

/// The forces of the population in one sequence: three components for each
/// particle, in the order x, y, z.
pub open spec fn spec_force_rows(ps: Seq<Particle>) -> Seq<Fixed> {
    Seq::new(
        3 * ps.len(),
        |k: int|
            if k % 3 == 0 {
                ps[k / 3].force.x
            } else if k % 3 == 1 {
                ps[k / 3].force.y
            } else {
                ps[k / 3].force.z
            },
    )
}

/// Particle `i` with the force that row `i` of `x` holds.
pub open spec fn spec_with_force_row(ps: Seq<Particle>, i: int, x: Seq<Fixed>) -> Particle {
    Particle { force: Vec3 { x: x[3 * i], y: x[3 * i + 1], z: x[3 * i + 2] }, ..ps[i] }
}

/// The population with its forces replaced by the rows of `x`.
pub open spec fn spec_set_forces(ps: Seq<Particle>, x: Seq<Fixed>) -> Seq<Particle> {
    Seq::new(ps.len(), |i: int| spec_with_force_row(ps, i, x))
}

/// The viscous coupling of `a` to its neighbour `b`.
pub fn coupling(a: &Particle, b: &Particle, config: &Config) -> (c: Fixed)
    ensures
        c == spec_coupling(*a, *b, *config),
{
    let r2 = offset(a, b).norm_squared();
    let h = reach(a, b);
    if within(r2, h) {
        config.viscosity.times(b.mass).times(w_visc(r2, h)).over(b.density)
    } else {
        Fixed::zero()
    }
}

/// Row `i` of the friction matrix.
pub fn friction_row(list: &Vec<Particle>, i: usize, config: &Config) -> (row: Vec<Fixed>)
    requires
        i < list@.len(),
    ensures
        row@.len() == list@.len(),
        forall|j: int|
            0 <= j < list@.len() ==> #[trigger] row@[j] == spec_friction_entry(
                list@,
                i as int,
                j,
                *config,
            ),
{
    let n = list.len();
    let p_i = list[i];
    let mut row: Vec<Fixed> = Vec::with_capacity(n);
    let mut sum = Fixed::zero();
    let mut j: usize = 0;
    while j < n
        invariant
            n == list@.len(),
            i < n,
            j <= n,
            p_i == list@[i as int],
            row@.len() == j,
            sum == spec_coupling_sum(list@, i as int, j as int, *config),
            forall|k: int|
                0 <= k < j && k != i ==> #[trigger] row@[k] == spec_friction_entry(
                    list@,
                    i as int,
                    k,
                    *config,
                ),
        decreases n - j,
    {
        if j == i {
            row.push(config.friction);
        } else {
            let p_j = list[j];
            let c = coupling(&p_i, &p_j, config);
            sum = sum.plus(c);
            row.push(c.negated());
        }
        j += 1;
    }
    row[i] = config.friction.plus(sum);
    row
}

/// The friction matrix of the population, row by row.
pub fn friction_matrix(list: &Vec<Particle>, config: &Config) -> (m: Vec<Vec<Fixed>>)
    ensures
        is_friction_matrix(m@, list@, *config),
{
    let n = list.len();
    let mut m: Vec<Vec<Fixed>> = Vec::with_capacity(n);
    let mut i: usize = 0;
    while i < n
        invariant
            n == list@.len(),
            i <= n,
            m@.len() == i,
            forall|k: int| 0 <= k < i ==> (#[trigger] m@[k])@.len() == n,
            forall|k: int, j: int|
                0 <= k < i && 0 <= j < n ==> #[trigger] m@[k]@[j] == spec_friction_entry(
                    list@,
                    k,
                    j,
                    *config,
                ),
        decreases n - i,
    {
        let row = friction_row(list, i, config);
        m.push(row);
        i += 1;
    }
    m
}

/// The forces of the population in one sequence, three components for each
/// particle.
pub fn force_rows(list: &Vec<Particle>) -> (rows: Vec<Fixed>)
    ensures
        rows@ == spec_force_rows(list@),
        rows@.len() == 3 * list@.len(),
{
    let n = list.len();
    let mut rows: Vec<Fixed> = Vec::new();
    let mut i: usize = 0;
    while i < n
        invariant
            n == list@.len(),
            i <= n,
            rows@.len() == 3 * i,
            forall|k: int| 0 <= k < 3 * i ==> #[trigger] rows@[k] == spec_force_rows(list@)[k],
        decreases n - i,
    {
        let f = list[i].force;
        rows.push(f.x);
        rows.push(f.y);
        rows.push(f.z);
        i += 1;
    }
    assert(rows@ =~= spec_force_rows(list@));
    rows
}

/// Replaces the forces by the rows of `x`, where `x` holds three components
/// for each particle, and says whether it did. Where `x` is of another
/// length, nothing changes.
pub fn set_forces(list: &mut Vec<Particle>, x: &Vec<Fixed>) -> (done: bool)
    ensures
        done == (x@.len() == 3 * old(list)@.len()),
        done ==> final(list)@ == spec_set_forces(old(list)@, x@),
        !done ==> final(list)@ == old(list)@,
{
    let n = list.len();
    let m = x.len();
    if m / 3 != n || m % 3 != 0 {
        return false;
    }
    let ghost before = list@;
    let mut i: usize = 0;
    while i < n
        invariant
            n == before.len(),
            list@.len() == n,
            x@.len() == m,
            m == 3 * n,
            i <= n,
            forall|k: int| 0 <= k < i ==> #[trigger] list@[k] == spec_with_force_row(before, k, x@),
            forall|k: int| i <= k < n ==> #[trigger] list@[k] == before[k],
        decreases n - i,
    {
        let mut p = list[i];
        p.force = Vec3::new(x[3 * i], x[3 * i + 1], x[3 * i + 2]);
        list[i] = p;
        i += 1;
    }
    assert(list@ =~= spec_set_forces(before, x@));
    true
}

} // verus!
