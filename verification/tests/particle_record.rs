use sph_particles::fixed::Fixed;
use sph_particles::particle::{Color, Particle};
use sph_particles::vec3::Vec3;

fn v(x: i32, y: i32, z: i32) -> Vec3 {
    Vec3::new(Fixed::from_int(x), Fixed::from_int(y), Fixed::from_int(z))
}

fn grey() -> Color {
    Color { r: Fixed::ratio(1, 2), g: Fixed::ratio(1, 2), b: Fixed::ratio(1, 2) }
}

#[test]
fn a_new_particle_is_at_rest_and_of_age_zero() {
    let p = Particle::new(v(1, 2, 3), Fixed::from_int(500), grey(), v(0, 0, 1));
    assert_eq!(p.position, v(1, 2, 3));
    assert_eq!(p.force, Vec3::zero());
    assert_eq!(p.polarization, v(0, 0, 1));
    assert_eq!(p.mass, Fixed::from_int(500));
    assert_eq!(p.radius.raw, 21147238318);
    assert_eq!(p.density, Fixed::zero());
    assert_eq!(p.pressure, Fixed::zero());
    assert_eq!(p.age, Fixed::zero());
    assert_eq!(p.color, grey());
}

#[test]
fn integration_moves_by_the_step_times_the_force_and_clears_the_force() {
    let mut p = Particle::new(v(1, 2, 3), Fixed::from_int(1), grey(), v(0, 0, 1));
    p.force = v(2, -4, 6);
    p.density = Fixed::from_int(9);
    p.age = Fixed::from_int(5);
    let before = p;
    p.integrate(Fixed::ratio(1, 2));
    assert_eq!(p.position, v(2, 0, 6));
    assert_eq!(p.force, Vec3::zero());
    assert_eq!(p.polarization, before.polarization);
    assert_eq!(p.mass, before.mass);
    assert_eq!(p.radius, before.radius);
    assert_eq!(p.density, before.density);
    assert_eq!(p.age, before.age);
    assert_eq!(p.color, before.color);
}

#[test]
fn integration_without_force_leaves_the_particle_in_place() {
    let mut p = Particle::new(v(1, 2, 3), Fixed::from_int(1), grey(), v(0, 0, 1));
    let before = p;
    p.integrate(Fixed::ratio(1, 2));
    assert_eq!(p, before);
}

#[test]
fn the_record_scales_by_the_radius_and_moves_to_the_position() {
    let p = Particle::new(v(1, -2, 3), Fixed::from_int(8), grey(), v(0, 0, 1));
    let raw = p.as_raw();
    let o = Fixed::zero();
    let r = p.radius;
    assert_eq!(r.raw, 5328770140);
    assert_eq!((raw.model.x.x, raw.model.x.y, raw.model.x.z, raw.model.x.w), (r, o, o, o));
    assert_eq!((raw.model.y.x, raw.model.y.y, raw.model.y.z, raw.model.y.w), (o, r, o, o));
    assert_eq!((raw.model.z.x, raw.model.z.y, raw.model.z.z, raw.model.z.w), (o, o, r, o));
    assert_eq!(
        (raw.model.w.x, raw.model.w.y, raw.model.w.z, raw.model.w.w),
        (Fixed::from_int(1), Fixed::from_int(-2), Fixed::from_int(3), Fixed::one())
    );
    assert_eq!(raw.color, grey());
}

#[test]
fn a_colour_shifts_channel_by_channel() {
    let delta = Color { r: Fixed::ratio(1, 4), g: Fixed::ratio(-1, 4), b: Fixed::zero() };
    let c = grey().shifted(delta);
    assert_eq!(c.r, Fixed::ratio(3, 4));
    assert_eq!(c.g, Fixed::ratio(1, 4));
    assert_eq!(c.b, Fixed::ratio(1, 2));
}
