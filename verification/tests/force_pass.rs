use sph_particles::config::Config;
use sph_particles::density::update_pressure;
use sph_particles::fixed::Fixed;
use sph_particles::forces::{
    integrate_all, net_force, polar_force, pressure_term, update_forces, well_force,
};
use sph_particles::particle::{Color, Particle};
use sph_particles::vec3::Vec3;

fn grey() -> Color {
    Color { r: Fixed::ratio(1, 2), g: Fixed::ratio(1, 2), b: Fixed::ratio(1, 2) }
}

fn v(x: i32, y: i32, z: i32) -> Vec3 {
    Vec3::new(Fixed::from_int(x), Fixed::from_int(y), Fixed::from_int(z))
}

fn raw3(x: i64, y: i64, z: i64) -> Vec3 {
    Vec3::new(Fixed::from_raw(x), Fixed::from_raw(y), Fixed::from_raw(z))
}

fn pair() -> Vec<Particle> {
    let o = Fixed::zero();
    let mut list = vec![
        Particle::new(Vec3::new(Fixed::ratio(-1, 2), o, o), Fixed::from_int(1), grey(), v(0, 0, 1)),
        Particle::new(Vec3::new(Fixed::ratio(1, 2), o, o), Fixed::from_int(1), grey(), v(0, 1, 0)),
    ];
    update_pressure(&mut list, &Config::standard());
    list
}

#[test]
fn under_dense_neighbours_attract_each_other() {
    let list = pair();
    assert_eq!(pressure_term(&list[0], &list[1]), raw3(118004, 0, 0));
    assert_eq!(pressure_term(&list[1], &list[0]), raw3(-118004, 0, 0));
}

#[test]
fn over_dense_neighbours_repel_each_other() {
    let mut list = pair();
    list[0].pressure = Fixed::ratio(1, 1000);
    list[1].pressure = Fixed::ratio(1, 1000);
    assert!(pressure_term(&list[0], &list[1]).x.raw < 0);
    assert!(pressure_term(&list[1], &list[0]).x.raw > 0);
}

#[test]
fn a_neighbour_out_of_range_exerts_no_pressure() {
    let mut list = pair();
    list[1].position = v(5, 0, 0);
    assert_eq!(pressure_term(&list[0], &list[1]), Vec3::zero());
}

#[test]
fn a_neighbour_of_zero_density_exerts_no_pressure() {
    let mut list = pair();
    list[1].density = Fixed::zero();
    assert_eq!(pressure_term(&list[0], &list[1]), Vec3::zero());
}

#[test]
fn particles_at_the_same_place_exert_no_pressure() {
    let mut list = pair();
    list[1].position = list[0].position;
    assert_eq!(pressure_term(&list[0], &list[1]), Vec3::zero());
}

#[test]
fn the_well_pulls_toward_the_origin_and_less_along_x() {
    let c = Config::standard();
    let p = Particle::new(v(10, 10, -10), Fixed::from_int(1), grey(), Vec3::zero());
    let f = well_force(&p, &c);
    assert_eq!(f, raw3(-128846, -429490, 429490));
    let list = pair();
    assert_eq!(well_force(&list[0], &c), raw3(6442, 0, 0));
    assert_eq!(well_force(&list[1], &c), raw3(-6442, 0, 0));
}

#[test]
fn the_polarization_pushes_along_itself() {
    let c = Config::standard();
    let list = pair();
    assert_eq!(polar_force(&list[0], &c), raw3(0, 0, 4294));
    assert_eq!(polar_force(&list[1], &c), raw3(0, 4294, 0));
}

#[test]
fn the_force_pass_adds_pressure_well_and_polarization() {
    let c = Config::standard();
    let mut list = pair();
    assert_eq!(net_force(&list, 0, &c), raw3(124446, 0, 4294));
    update_forces(&mut list, &c);
    assert_eq!(list[0].force, raw3(124446, 0, 4294));
    assert_eq!(list[1].force, raw3(-124446, 4294, 0));
}

#[test]
fn the_force_pass_adds_to_the_force_that_is_there() {
    let c = Config::standard();
    let mut list = pair();
    list[0].force = raw3(1000, 2000, 3000);
    update_forces(&mut list, &c);
    assert_eq!(list[0].force, raw3(125446, 2000, 7294));
}

#[test]
fn the_force_pass_changes_the_forces_only() {
    let c = Config::standard();
    let mut list = pair();
    let before = list.clone();
    update_forces(&mut list, &c);
    for i in 0..2 {
        let mut expected = before[i];
        expected.force = list[i].force;
        assert_eq!(list[i], expected);
    }
}

#[test]
fn a_particle_exerts_no_pressure_on_itself() {
    let mut c = Config::standard();
    c.well_strength = Fixed::zero();
    c.polar_strength = Fixed::zero();
    let o = Fixed::zero();
    let mut list = vec![Particle::new(Vec3::new(o, o, o), Fixed::from_int(1), grey(), v(0, 0, 1))];
    update_pressure(&mut list, &c);
    update_forces(&mut list, &c);
    assert_eq!(list[0].force, Vec3::zero());
}

#[test]
fn integration_moves_every_particle_and_clears_every_force() {
    let c = Config::standard();
    let mut list = pair();
    update_forces(&mut list, &c);
    integrate_all(&mut list, c.dt);
    assert_eq!(list[0].position, raw3(-2147421425, 0, 2147));
    assert_eq!(list[1].position, raw3(2147421425, 2147, 0));
    assert_eq!(list[0].force, Vec3::zero());
    assert_eq!(list[1].force, Vec3::zero());
}
