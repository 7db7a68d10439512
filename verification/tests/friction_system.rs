use sph_particles::config::Config;
use sph_particles::density::update_pressure;
use sph_particles::fixed::Fixed;
use sph_particles::forces::update_forces;
use sph_particles::friction::{coupling, force_rows, friction_matrix, friction_row, set_forces};
use sph_particles::particle::{Color, Particle};
use sph_particles::vec3::Vec3;

fn grey() -> Color {
    Color { r: Fixed::ratio(1, 2), g: Fixed::ratio(1, 2), b: Fixed::ratio(1, 2) }
}

fn v(x: i32, y: i32, z: i32) -> Vec3 {
    Vec3::new(Fixed::from_int(x), Fixed::from_int(y), Fixed::from_int(z))
}

fn raw3(x: i64, y: i64, z: i64) -> Vec3 {
    Vec3::new(Fixed::from_raw(x), Fixed::from_raw(y), Fixed::from_raw(z))
}

fn raws(row: &Vec<Fixed>) -> Vec<i64> {
    row.iter().map(|x| x.raw).collect()
}

fn three() -> Vec<Particle> {
    let o = Fixed::zero();
    let mut list = vec![
        Particle::new(Vec3::new(Fixed::ratio(-1, 2), o, o), Fixed::from_int(1), grey(), v(0, 0, 1)),
        Particle::new(Vec3::new(Fixed::ratio(1, 2), o, o), Fixed::from_int(1), grey(), v(0, 1, 0)),
        Particle::new(v(5, 0, 0), Fixed::from_int(2), grey(), v(1, 0, 0)),
    ];
    update_pressure(&mut list, &Config::standard());
    list
}

#[test]
fn neighbours_are_coupled_and_strangers_are_not() {
    let c = Config::standard();
    let list = three();
    assert_eq!(coupling(&list[0], &list[1], &c).raw, 474490);
    assert_eq!(coupling(&list[1], &list[0], &c).raw, 474490);
    assert_eq!(coupling(&list[0], &list[2], &c).raw, 0);
}

#[test]
fn a_neighbour_of_zero_density_is_not_coupled() {
    let c = Config::standard();
    let mut list = three();
    list[1].density = Fixed::zero();
    assert_eq!(coupling(&list[0], &list[1], &c).raw, 0);
}

#[test]
fn the_friction_matrix_of_three_particles() {
    let c = Config::standard();
    let list = three();
    let m = friction_matrix(&list, &c);
    assert_eq!(m.len(), 3);
    assert_eq!(raws(&m[0]), vec![517439, -474490, 0]);
    assert_eq!(raws(&m[1]), vec![-474490, 517439, 0]);
    assert_eq!(raws(&m[2]), vec![0, 0, 42949]);
    assert_eq!(raws(&friction_row(&list, 1, &c)), vec![-474490, 517439, 0]);
}

#[test]
fn the_diagonal_is_the_friction_plus_the_couplings_of_the_row() {
    let c = Config::standard();
    let list = three();
    let m = friction_matrix(&list, &c);
    for i in 0..3 {
        let mut sum = c.friction.raw;
        for j in 0..3 {
            if j != i {
                sum -= m[i][j].raw;
            }
        }
        assert_eq!(m[i][i].raw, sum);
    }
}

#[test]
fn without_viscosity_the_matrix_is_the_friction_on_the_diagonal() {
    let mut c = Config::standard();
    c.viscosity = Fixed::zero();
    let list = three();
    let m = friction_matrix(&list, &c);
    for i in 0..3 {
        for j in 0..3 {
            assert_eq!(m[i][j].raw, if i == j { 42949 } else { 0 });
        }
    }
}

#[test]
fn the_friction_matrix_of_no_particles_is_empty() {
    let list: Vec<Particle> = Vec::new();
    assert!(friction_matrix(&list, &Config::standard()).is_empty());
    assert!(force_rows(&list).is_empty());
}

#[test]
fn the_forces_are_laid_out_row_by_row() {
    let c = Config::standard();
    let mut list = three();
    update_forces(&mut list, &c);
    let rows = force_rows(&list);
    assert_eq!(rows.len(), 9);
    for i in 0..3 {
        assert_eq!(rows[3 * i], list[i].force.x);
        assert_eq!(rows[3 * i + 1], list[i].force.y);
        assert_eq!(rows[3 * i + 2], list[i].force.z);
    }
    assert_eq!(raws(&rows)[0..6], [124446, 0, 4294, -124446, 4294, 0]);
}

#[test]
fn a_solution_of_the_right_size_replaces_the_forces() {
    let mut list = three();
    let before = list.clone();
    let x: Vec<Fixed> = (1..=9).map(|k| Fixed::from_raw(k)).collect();
    assert!(set_forces(&mut list, &x));
    assert_eq!(list[0].force, raw3(1, 2, 3));
    assert_eq!(list[1].force, raw3(4, 5, 6));
    assert_eq!(list[2].force, raw3(7, 8, 9));
    for i in 0..3 {
        let mut expected = before[i];
        expected.force = list[i].force;
        assert_eq!(list[i], expected);
    }
}

#[test]
fn a_solution_of_the_wrong_size_changes_nothing() {
    let mut list = three();
    list[0].force = raw3(1, 2, 3);
    let before = list.clone();
    let short: Vec<Fixed> = (1..=8).map(|k| Fixed::from_raw(k)).collect();
    assert!(!set_forces(&mut list, &short));
    assert_eq!(list, before);
    let long: Vec<Fixed> = (1..=10).map(|k| Fixed::from_raw(k)).collect();
    assert!(!set_forces(&mut list, &long));
    assert_eq!(list, before);
    let none: Vec<Fixed> = Vec::new();
    assert!(!set_forces(&mut list, &none));
    assert_eq!(list, before);
}

#[test]
fn what_is_read_back_is_what_was_set() {
    let mut list = three();
    let x: Vec<Fixed> = (1..=9).map(|k| Fixed::from_raw(100 * k)).collect();
    assert!(set_forces(&mut list, &x));
    assert_eq!(force_rows(&list), x);
}

#[test]
fn a_solved_system_satisfies_its_equations() {
    let c = Config::standard();
    let mut list = three();
    update_forces(&mut list, &c);
    let gamma = friction_matrix(&list, &c);
    let rows = force_rows(&list);
    let n = list.len();
    let scale = 4294967296.0;
    let a = nalgebra::DMatrix::from_fn(n, n, |i, j| gamma[i][j].raw as f64 / scale);
    let b = nalgebra::DMatrix::from_fn(n, 3, |i, k| rows[3 * i + k].raw as f64 / scale);
    let x = a.clone().lu().solve(&b).unwrap();
    let mut solution = Vec::new();
    for i in 0..n {
        for k in 0..3 {
            solution.push(Fixed::from_raw((x[(i, k)] * scale).round() as i64));
        }
    }
    assert!(set_forces(&mut list, &solution));
    for i in 0..n {
        let f = [list[i].force.x, list[i].force.y, list[i].force.z];
        for k in 0..3 {
            let mut lhs = 0.0;
            for j in 0..n {
                let fj = [list[j].force.x, list[j].force.y, list[j].force.z];
                lhs += gamma[i][j].raw as f64 / scale * (fj[k].raw as f64 / scale);
            }
            let rhs = rows[3 * i + k].raw as f64 / scale;
            assert!((lhs - rhs).abs() < 1e-9);
        }
        assert!(f[0].raw.abs() < 100 * 4294967296);
    }
    assert!(list[2].force.x.raw != rows[6].raw);
}
