use sph_particles::config::Config;
use sph_particles::division::{
    divide, divide_with, draw, DivisionAxes, DivisionDraws, SPLIT_MAX_RAW, SPLIT_MIN_RAW,
};
use sph_particles::fixed::Fixed;
use sph_particles::particle::{Color, Particle};
use sph_particles::vec3::Vec3;

fn grey() -> Color {
    Color { r: Fixed::ratio(1, 2), g: Fixed::ratio(1, 2), b: Fixed::ratio(1, 2) }
}

fn v(x: i32, y: i32, z: i32) -> Vec3 {
    Vec3::new(Fixed::from_int(x), Fixed::from_int(y), Fixed::from_int(z))
}

fn axes() -> DivisionAxes {
    DivisionAxes { axis: v(0, 0, 1), first_polarization: v(1, 0, 0), second_polarization: v(0, 1, 0) }
}

fn draws(n: usize, index: usize, split: Fixed) -> DivisionDraws {
    DivisionDraws {
        age_increments: vec![Fixed::ratio(1, 100); n],
        index,
        split,
        color_delta: Color { r: Fixed::ratio(1, 20), g: Fixed::ratio(-1, 20), b: Fixed::zero() },
        axes: axes(),
    }
}

fn crowd(n: usize) -> Vec<Particle> {
    (0..n)
        .map(|i| Particle::new(v(3 * i as i32, 0, 0), Fixed::from_int(10), grey(), v(0, 0, 1)))
        .collect()
}

fn total_mass(list: &Vec<Particle>) -> i128 {
    list.iter().map(|p| p.mass.raw as i128).sum()
}

#[test]
fn the_split_bounds_are_two_and_three_fifths() {
    assert_eq!(SPLIT_MIN_RAW, Fixed::ratio(2, 5).raw);
    assert_eq!(SPLIT_MAX_RAW, Fixed::ratio(3, 5).raw);
}

#[test]
fn a_single_particle_divides_at_once() {
    let c = Config::standard();
    let mut list = vec![Particle::new(v(1, 2, 3), Fixed::from_int(500), grey(), v(0, 0, 1))];
    let d = draws(1, 0, Fixed::ratio(2, 5));
    assert!(divide_with(&mut list, &d, &c));
    assert_eq!(list.len(), 2);
    assert_eq!(list[0].mass.raw, 858993459000);
    assert_eq!(list[1].mass.raw, 1288490189000);
    assert_eq!(list[0].mass.raw + list[1].mass.raw, Fixed::from_int(500).raw);
    assert_eq!(list[0].age, Fixed::zero());
    assert_eq!(list[1].age, Fixed::zero());
}

#[test]
fn the_daughters_stand_on_either_side_of_the_parent() {
    let c = Config::standard();
    let mut list = vec![Particle::new(v(1, 2, 3), Fixed::from_int(500), grey(), v(0, 0, 1))];
    let d = draws(1, 0, Fixed::ratio(2, 5));
    divide_with(&mut list, &d, &c);
    assert_eq!(list[0].position.x, Fixed::from_int(1));
    assert_eq!(list[0].position.y, Fixed::from_int(2));
    assert_eq!(list[0].position.z.raw, 20286435296);
    assert_eq!(list[1].position.x, Fixed::from_int(1));
    assert_eq!(list[1].position.y, Fixed::from_int(2));
    assert_eq!(list[1].position.z.raw, 5483368480);
}

#[test]
fn the_daughters_are_new_particles_of_the_shifted_colour() {
    let c = Config::standard();
    let mut list = vec![Particle::new(v(1, 2, 3), Fixed::from_int(500), grey(), v(0, 0, 1))];
    list[0].density = Fixed::from_int(3);
    list[0].pressure = Fixed::from_int(4);
    let d = draws(1, 0, Fixed::ratio(2, 5));
    divide_with(&mut list, &d, &c);
    let colour = Color {
        r: Fixed::ratio(1, 2).plus(Fixed::ratio(1, 20)),
        g: Fixed::ratio(1, 2).plus(Fixed::ratio(-1, 20)),
        b: Fixed::ratio(1, 2),
    };
    assert_eq!(colour.r.raw, 2147483648 + 214748364);
    assert_eq!(colour.g.raw, 2147483648 - 214748364);
    for (k, p) in list.iter().enumerate() {
        assert_eq!(p.color, colour);
        assert_eq!(p.force, Vec3::zero());
        assert_eq!(p.density, Fixed::zero());
        assert_eq!(p.pressure, Fixed::zero());
        assert_eq!(p.polarization, if k == 0 { v(1, 0, 0) } else { v(0, 1, 0) });
    }
    assert_eq!(list[0].radius.raw, 15581418413);
    assert_eq!(list[1].radius.raw, 17836271579);
}

#[test]
fn every_particle_ages_and_the_chosen_one_more() {
    let c = Config::standard();
    let mut list = crowd(3);
    let mut d = draws(3, 1, Fixed::ratio(1, 2));
    d.age_increments = vec![Fixed::from_raw(10), Fixed::from_raw(20), Fixed::from_raw(30)];
    assert!(!divide_with(&mut list, &d, &c));
    assert_eq!(list.len(), 3);
    assert_eq!(list[0].age.raw, 10);
    assert_eq!(list[1].age.raw, 20 + Fixed::ratio(1, 20).raw);
    assert_eq!(list[2].age.raw, 30);
    let fresh = crowd(3);
    for i in 0..3 {
        let mut expected = fresh[i];
        expected.age = list[i].age;
        assert_eq!(list[i], expected);
    }
}

#[test]
fn an_old_particle_divides_below_the_bound() {
    let c = Config::standard();
    let mut list = crowd(3);
    list[1].age = Fixed::from_int(1000);
    let before = total_mass(&list);
    let d = draws(3, 1, Fixed::ratio(1, 2));
    assert!(divide_with(&mut list, &d, &c));
    assert_eq!(list.len(), 4);
    assert_eq!(list[1].mass, Fixed::from_int(5));
    assert_eq!(list[3].mass, Fixed::from_int(5));
    assert_eq!(list[1].age, Fixed::zero());
    assert_eq!(list[3].age, Fixed::zero());
    assert_eq!(list[0].mass, Fixed::from_int(10));
    assert_eq!(list[2].mass, Fixed::from_int(10));
    assert_eq!(list[0].age, Fixed::ratio(1, 100));
    assert_eq!(total_mass(&list), before);
}

#[test]
fn the_age_must_be_above_the_threshold() {
    let mut c = Config::standard();
    c.age_boost = Fixed::zero();
    let mut list = crowd(3);
    list[1].age = Fixed::from_int(1000);
    let mut d = draws(3, 1, Fixed::ratio(1, 2));
    d.age_increments = vec![Fixed::zero(); 3];
    assert!(!divide_with(&mut list, &d, &c));
    assert_eq!(list.len(), 3);
    d.age_increments = vec![Fixed::from_raw(1); 3];
    assert!(divide_with(&mut list, &d, &c));
    assert_eq!(list.len(), 4);
}

#[test]
fn only_the_chosen_particle_divides() {
    let c = Config::standard();
    let mut list = crowd(3);
    list[0].age = Fixed::from_int(2000);
    let d = draws(3, 1, Fixed::ratio(1, 2));
    assert!(!divide_with(&mut list, &d, &c));
    assert_eq!(list.len(), 3);
}

#[test]
fn no_particle_divides_at_the_bound() {
    let mut c = Config::standard();
    c.max_population = 3;
    let mut list = crowd(3);
    list[1].age = Fixed::from_int(2000);
    let d = draws(3, 1, Fixed::ratio(1, 2));
    assert!(!divide_with(&mut list, &d, &c));
    assert_eq!(list.len(), 3);
    c.max_population = 4;
    assert!(divide_with(&mut list, &d, &c));
    assert_eq!(list.len(), 4);
}

#[test]
fn the_number_of_particles_never_passes_the_bound() {
    let mut c = Config::standard();
    c.max_population = 5;
    c.age_threshold = Fixed::zero();
    let mut list = crowd(1);
    for step in 0..20 {
        let n = list.len();
        let d = draws(n, step % n, Fixed::ratio(1, 2));
        let divided = divide_with(&mut list, &d, &c);
        assert_eq!(list.len(), n + if divided { 1 } else { 0 });
        assert!(list.len() <= 5);
        assert_eq!(divided, n < 5);
    }
    assert_eq!(list.len(), 5);
    assert_eq!(total_mass(&list), Fixed::from_int(10).raw as i128);
}

#[test]
fn mass_is_conserved_to_the_last_unit() {
    let c = Config::standard();
    let mut list = vec![Particle::new(v(0, 0, 0), Fixed::from_raw(4294967297), grey(), v(0, 0, 1))];
    let d = draws(1, 0, Fixed::ratio(3, 5));
    assert!(divide_with(&mut list, &d, &c));
    assert_eq!(list[0].mass.raw, 2576980377);
    assert_eq!(list[1].mass.raw, 1717986920);
    assert_eq!(list[0].mass.plus(list[1].mass).raw, 4294967297);
}

#[test]
fn a_division_that_would_leave_a_daughter_without_radius_is_held_back() {
    let c = Config::standard();
    let parent = Particle::new(v(0, 0, 0), Fixed::from_raw(5), grey(), v(0, 0, 1));
    assert_eq!(parent.radius.raw, 2642245);
    let mut list = vec![parent];
    let d = draws(1, 0, Fixed::ratio(2, 5));
    assert!(!divide_with(&mut list, &d, &c));
    assert_eq!(list.len(), 1);
    assert_eq!(list[0].mass.raw, 5);
    assert_eq!(list[0].radius.raw, 2642245);
    assert_eq!(list[0].age.raw, Fixed::ratio(1, 100).raw + c.age_boost.raw);
}

#[test]
fn the_least_mass_that_divides_in_halves() {
    let c = Config::standard();
    let mut list = vec![Particle::new(v(0, 0, 0), Fixed::from_raw(9), grey(), v(0, 0, 1))];
    assert!(!divide_with(&mut list, &draws(1, 0, Fixed::ratio(1, 2)), &c));
    let mut list = vec![Particle::new(v(0, 0, 0), Fixed::from_raw(10), grey(), v(0, 0, 1))];
    assert!(divide_with(&mut list, &draws(1, 0, Fixed::ratio(1, 2)), &c));
    assert_eq!(list.len(), 2);
    for p in &list {
        assert_eq!(p.mass.raw, 5);
        assert!(p.radius.raw > 0);
    }
}

#[test]
fn draws_must_suit_the_population() {
    let good = draws(3, 2, Fixed::ratio(1, 2));
    assert!(good.fits(3));
    assert!(!good.fits(2));
    assert!(!good.fits(4));
    assert!(!draws(3, 3, Fixed::ratio(1, 2)).fits(3));
    assert!(!draws(3, 0, Fixed::ratio(1, 3)).fits(3));
    assert!(!draws(3, 0, Fixed::ratio(2, 3)).fits(3));
    assert!(draws(3, 0, Fixed::ratio(2, 5)).fits(3));
    assert!(draws(3, 0, Fixed::ratio(3, 5)).fits(3));
    let mut negative = draws(3, 0, Fixed::ratio(1, 2));
    negative.age_increments[2] = Fixed::from_raw(-1);
    assert!(!negative.fits(3));
    assert!(!draws(0, 0, Fixed::ratio(1, 2)).fits(0));
    let mut long = draws(3, 0, Fixed::ratio(1, 2));
    long.axes.axis = v(0, 0, 2);
    assert!(!long.fits(3));
    let mut flat = draws(3, 0, Fixed::ratio(1, 2));
    flat.axes.second_polarization = Vec3::zero();
    assert!(!flat.fits(3));
}

#[test]
fn the_directions_of_a_division_are_unit_vectors() {
    assert!(axes().is_unit());
    let mut a = axes();
    a.first_polarization = v(1, 1, 0);
    assert!(!a.is_unit());
    let mut a = axes();
    a.axis = Vec3::zero();
    assert!(!a.is_unit());
}

#[test]
fn random_draws_lie_in_their_ranges() {
    let c = Config::standard();
    for n in 1..40 {
        let d = draw(n, &axes(), &c);
        assert!(d.fits(n));
        assert!(d.index < n);
        assert_eq!(d.age_increments.len(), n);
        for x in &d.age_increments {
            assert!(0 <= x.raw && x.raw < c.age_jitter.raw);
        }
        assert!(SPLIT_MIN_RAW <= d.split.raw && d.split.raw <= SPLIT_MAX_RAW);
        for x in [d.color_delta.r, d.color_delta.g, d.color_delta.b] {
            assert!(-c.color_jitter.raw <= x.raw && x.raw < c.color_jitter.raw);
        }
        assert_eq!(d.axes, axes());
    }
}

#[test]
fn random_draws_vary() {
    let c = Config::standard();
    let first = draw(1, &axes(), &c);
    let mut differs = false;
    for _ in 0..20 {
        let next = draw(1, &axes(), &c);
        if next.split != first.split || next.age_increments != first.age_increments {
            differs = true;
        }
    }
    assert!(differs);
}

#[test]
fn draws_without_jitter_are_zero() {
    let mut c = Config::standard();
    c.age_jitter = Fixed::zero();
    c.color_jitter = Fixed::from_int(-1);
    let d = draw(5, &axes(), &c);
    assert!(d.fits(5));
    for x in &d.age_increments {
        assert_eq!(x.raw, 0);
    }
    assert_eq!(d.color_delta, Color { r: Fixed::zero(), g: Fixed::zero(), b: Fixed::zero() });
}

#[test]
fn a_random_division_conserves_mass() {
    let mut c = Config::standard();
    c.age_threshold = Fixed::zero();
    c.max_population = 50;
    let mut list = vec![Particle::new(v(0, 0, 0), Fixed::from_int(500), grey(), v(0, 0, 1))];
    for _ in 0..100 {
        let n = list.len();
        let divided = divide(&mut list, &axes(), &c);
        assert_eq!(list.len(), n + if divided { 1 } else { 0 });
        assert!(list.len() <= 50);
        assert_eq!(total_mass(&list), Fixed::from_int(500).raw as i128);
        for p in &list {
            assert!(p.mass.raw > 0);
        }
    }
    assert_eq!(list.len(), 50);
}
