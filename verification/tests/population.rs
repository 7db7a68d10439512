use sph_particles::config::Config;
use sph_particles::density::update_pressure;
use sph_particles::division::{divide_with, DivisionAxes, DivisionDraws};
use sph_particles::fixed::Fixed;
use sph_particles::forces::{integrate_all, update_forces};
use sph_particles::friction::{force_rows, friction_matrix};
use sph_particles::particle::{Color, Particle};
use sph_particles::particles::Particles;
use sph_particles::vec3::Vec3;

fn grey() -> Color {
    Color { r: Fixed::ratio(1, 2), g: Fixed::ratio(1, 2), b: Fixed::ratio(1, 2) }
}

fn v(x: i32, y: i32, z: i32) -> Vec3 {
    Vec3::new(Fixed::from_int(x), Fixed::from_int(y), Fixed::from_int(z))
}

fn axes() -> DivisionAxes {
    DivisionAxes { axis: v(0, 0, 1), first_polarization: v(1, 0, 0), second_polarization: v(0, 1, 0) }
}

fn draws(n: usize, index: usize) -> DivisionDraws {
    DivisionDraws {
        age_increments: vec![Fixed::ratio(1, 100); n],
        index,
        split: Fixed::ratio(1, 2),
        color_delta: Color { r: Fixed::zero(), g: Fixed::zero(), b: Fixed::zero() },
        axes: axes(),
    }
}

fn pair() -> Vec<Particle> {
    let o = Fixed::zero();
    vec![
        Particle::new(Vec3::new(Fixed::ratio(-1, 2), o, o), Fixed::from_int(1), grey(), v(0, 0, 1)),
        Particle::new(Vec3::new(Fixed::ratio(1, 2), o, o), Fixed::from_int(1), grey(), v(0, 1, 0)),
    ]
}

fn list_of(p: &Particles) -> Vec<Particle> {
    (0..p.len()).map(|i| p.get(i).unwrap()).collect()
}

#[test]
fn a_population_starts_from_its_seed() {
    let p = Particles::new(Config::standard(), pair()).unwrap();
    assert_eq!(p.len(), 2);
    assert_eq!(list_of(&p), pair());
    assert_eq!(p.get(2), None);
    assert_eq!(p.config().max_population, 200);
    assert_eq!(p.config().substeps, 10);
    assert_eq!(p.config().dt, Fixed::ratio(1, 2));
}

#[test]
fn an_empty_seed_is_refused() {
    assert!(Particles::new(Config::standard(), Vec::new()).is_none());
}

#[test]
fn a_seed_without_mass_is_refused() {
    let mut seed = pair();
    seed[1] = Particle::new(v(0, 0, 0), Fixed::zero(), grey(), v(0, 0, 1));
    assert!(Particles::new(Config::standard(), seed).is_none());
    let mut seed = pair();
    seed[0] = Particle::new(v(0, 0, 0), Fixed::from_int(-1), grey(), v(0, 0, 1));
    assert!(Particles::new(Config::standard(), seed).is_none());
}

#[test]
fn a_seed_with_a_radius_of_its_own_is_refused() {
    let mut seed = pair();
    seed[1].radius = Fixed::from_int(1);
    assert!(Particles::new(Config::standard(), seed).is_none());
    let mut seed = pair();
    seed[0].mass = Fixed::from_int(2);
    assert!(Particles::new(Config::standard(), seed).is_none());
}

#[test]
fn a_seed_whose_radius_rounds_to_zero_is_refused() {
    let mut seed = pair();
    seed[1] = Particle::new(v(0, 0, 0), Fixed::from_raw(4), grey(), v(0, 0, 1));
    assert_eq!(seed[1].radius.raw, 0);
    assert!(Particles::new(Config::standard(), seed).is_none());
    let mut seed = pair();
    seed[1] = Particle::new(v(0, 0, 0), Fixed::from_raw(5), grey(), v(0, 0, 1));
    assert!(Particles::new(Config::standard(), seed).is_some());
}

#[test]
fn a_seed_beyond_the_bound_is_refused() {
    let mut c = Config::standard();
    c.max_population = 2;
    assert!(Particles::new(c, pair()).is_some());
    let mut seed = pair();
    seed.push(Particle::new(v(9, 0, 0), Fixed::from_int(1), grey(), v(0, 0, 1)));
    assert!(Particles::new(c, seed.clone()).is_none());
    c.max_population = 3;
    assert!(Particles::new(c, seed).is_some());
}

#[test]
fn a_bound_below_two_is_refused() {
    let mut c = Config::standard();
    let seed = vec![Particle::new(v(0, 0, 0), Fixed::from_int(1), grey(), v(0, 0, 1))];
    c.max_population = 1;
    assert!(Particles::new(c, seed.clone()).is_none());
    c.max_population = 0;
    assert!(Particles::new(c, seed.clone()).is_none());
    c.max_population = 2;
    assert!(Particles::new(c, seed).is_some());
}

#[test]
fn a_seed_without_direction_is_refused() {
    let mut seed = pair();
    seed[1].polarization = Vec3::zero();
    assert!(Particles::new(Config::standard(), seed).is_none());
    let mut seed = pair();
    seed[0].polarization = v(1, 1, 0);
    assert!(Particles::new(Config::standard(), seed).is_none());
}

#[test]
fn the_standard_constants() {
    let c = Config::standard();
    assert_eq!(c.dt.raw, 2147483648);
    assert_eq!(c.rest_density.raw, 5153960755);
    assert_eq!(c.gas_constant.raw, 1288490);
    assert_eq!(c.friction.raw, 42949);
    assert_eq!(c.viscosity.raw, 429496);
    assert_eq!(c.division_length.raw, 3006477107);
    assert_eq!(c.age_threshold, Fixed::from_int(1000));
    assert_eq!(c.age_jitter.raw, 214748364);
    assert_eq!(c.age_boost.raw, 214748364);
    assert_eq!(c.color_jitter.raw, 429496729);
    assert_eq!(c.well_strength.raw, 42949);
    assert_eq!(c.well_x_scale.raw, 1288490188);
    assert_eq!(c.polar_strength.raw, 4294);
    assert_eq!(c.max_population, 200);
    assert_eq!(c.substeps, 10);
    assert!(c.division_enabled);
}

#[test]
fn the_passes_of_the_population_are_the_passes_of_its_particles() {
    let c = Config::standard();
    let mut p = Particles::new(c, pair()).unwrap();
    let mut list = pair();
    p.update_pressure();
    update_pressure(&mut list, &c);
    assert_eq!(list_of(&p), list);
    p.update_forces();
    update_forces(&mut list, &c);
    assert_eq!(list_of(&p), list);
    assert_eq!(p.force_rows(), force_rows(&list));
    assert_eq!(p.friction_matrix(), friction_matrix(&list, &c));
    p.integrate();
    integrate_all(&mut list, c.dt);
    assert_eq!(list_of(&p), list);
    let d = draws(2, 1);
    assert_eq!(p.divide_with(&d), divide_with(&mut list, &d, &c));
    assert_eq!(list_of(&p), list);
}

#[test]
fn new_forces_are_taken_only_in_the_right_size() {
    let mut p = Particles::new(Config::standard(), pair()).unwrap();
    let x: Vec<Fixed> = (1..=6).map(|k| Fixed::from_raw(k)).collect();
    assert!(p.set_forces(&x));
    assert_eq!(p.force_rows(), x);
    let short: Vec<Fixed> = (1..=5).map(|k| Fixed::from_raw(k)).collect();
    assert!(!p.set_forces(&short));
    assert_eq!(p.force_rows(), x);
}

#[test]
fn a_random_division_of_the_population_keeps_its_mass() {
    let mut c = Config::standard();
    c.age_threshold = Fixed::zero();
    c.max_population = 8;
    let seed = vec![Particle::new(v(0, 0, 0), Fixed::from_int(500), grey(), v(0, 0, 1))];
    let mut p = Particles::new(c, seed).unwrap();
    let mut last = 1;
    for _ in 0..30 {
        let divided = p.divide(&axes());
        assert_eq!(p.len(), last + if divided { 1 } else { 0 });
        last = p.len();
        assert!(last <= 8);
        let total: i128 = list_of(&p).iter().map(|q| q.mass.raw as i128).sum();
        assert_eq!(total, Fixed::from_int(500).raw as i128);
    }
    assert_eq!(last, 8);
}

#[test]
fn a_snapshot_holds_one_record_for_each_particle_in_order() {
    let mut p = Particles::new(Config::standard(), pair()).unwrap();
    p.update_pressure();
    let records = p.snapshot();
    assert_eq!(records.len(), 2);
    for i in 0..2 {
        assert_eq!(records[i], p.get(i).unwrap().as_raw());
    }
    assert_eq!(records[0].model.w.x, Fixed::ratio(-1, 2));
    assert_eq!(records[1].model.w.x, Fixed::ratio(1, 2));
    assert_eq!(records[0].model.x.x.raw, 2664385070);
}

#[test]
fn two_snapshots_without_a_frame_between_are_the_same() {
    let mut p = Particles::new(Config::standard(), pair()).unwrap();
    p.update(&vec![axes(); 10], |_: &Vec<Vec<Fixed>>, _: &Vec<Fixed>| None);
    let first = p.snapshot();
    let second = p.snapshot();
    assert_eq!(first, second);
    assert_eq!(first.len(), p.len());
}
