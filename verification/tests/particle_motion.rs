use particle_sim::consts::C_CONST;
use particle_sim::element::Element;
use particle_sim::particle::Particle;
use particle_sim::point::Point;

fn still_particle(x: i64, y: i64, z: i64, radius: i64, density: i64, stickiness: i64) -> Particle {
    Particle {
        position: Point { x, y, z },
        velocity: Point::default(),
        acceleration: Point::default(),
        radius,
        density,
        element: Element { stickiness, name: String::from("probe"), color: [9, 9, 9] },
    }
}

#[test]
fn volume_and_mass_exact() {
    let p = still_particle(0, 0, 0, 5, 2, 0);
    assert_eq!(p.volume(), 125);
    assert_eq!(p.mass(), 250);
}

#[test]
fn distance_exact() {
    let a = still_particle(0, 0, 0, 1, 1, 0);
    let b = still_particle(3, 4, 0, 1, 1, 0);
    assert_eq!(a.distance(&b), 5);
    let c = still_particle(1, 1, 0, 1, 1, 0);
    // floor of sqrt(2)
    assert_eq!(a.distance(&c), 1);
    assert_eq!(a.distance(&a), 0);
}

#[test]
fn did_collide_boundary_and_symmetry() {
    let a = still_particle(0, 0, 0, 2, 1, 0);
    let b = still_particle(5, 0, 0, 3, 1, 0);
    // centres exactly at summed radii apart: strict inequality, no hit
    assert!(!a.did_collide(&b));
    assert!(!b.did_collide(&a));
    let c = still_particle(5, 0, 0, 4, 1, 0);
    assert!(a.did_collide(&c));
    assert!(c.did_collide(&a));
}

#[test]
fn would_stick_threshold() {
    let a = still_particle(0, 0, 0, 1, 1, 600);
    let b = still_particle(1, 0, 0, 1, 1, 200);
    // the threshold is 600 + 200/2 = 700, and the draw must exceed it
    assert!(!a.would_stick(&b, 700));
    assert!(a.would_stick(&b, 701));
    // the weighting is asymmetric: seen from b the threshold is 500
    assert!(b.would_stick(&a, 501));
    assert!(!b.would_stick(&a, 500));
}

#[test]
fn seeded_radius_within_range() {
    for _ in 0..50 {
        let p = Particle::low_energy_hydrogen(1, 2, 3);
        assert!(3 <= p.radius && p.radius < 8);
        assert_eq!(p.element.name.as_str(), "hydrogen");
        assert_eq!((p.position.x, p.position.y, p.position.z), (1, 2, 3));
        let o = Particle::low_energy_oxygen(1, 2, 3);
        assert_eq!(o.element.stickiness, 200);
        let c = Particle::low_energy_carbon(1, 2, 3);
        assert_eq!(c.element.stickiness, 340);
    }
}

#[test]
fn time_step_moves_then_accelerates() {
    let mut p = still_particle(10, 20, 30, 1, 1, 0);
    p.velocity = Point { x: 5, y: -7, z: 0 };
    p.acceleration = Point { x: 1, y: 2, z: -3 };
    let q = p.time_step();
    // position advances by the pre-step velocity
    assert_eq!((q.position.x, q.position.y, q.position.z), (15, 13, 30));
    // velocity advances by the acceleration
    assert_eq!((q.velocity.x, q.velocity.y, q.velocity.z), (6, -5, -3));
    assert_eq!((q.acceleration.x, q.acceleration.y, q.acceleration.z), (1, 2, -3));
}

#[test]
fn time_step_clamps_to_speed_cap() {
    let mut p = still_particle(0, 0, 0, 1, 1, 0);
    p.velocity = Point { x: C_CONST, y: -C_CONST, z: 0 };
    p.acceleration = Point { x: 1, y: -1, z: 0 };
    let q = p.time_step();
    assert_eq!(q.velocity.x, C_CONST);
    assert_eq!(q.velocity.y, -C_CONST);
}

#[test]
fn boundary_bounce_scenario() {
    // a particle at (0, 5, 5) in a domain of width 10 moving along -x:
    // after one integration-plus-reflection step it sits on the wall
    // with the velocity negated
    let mut p = still_particle(0, 5, 5, 1, 1, 0);
    p.velocity = Point { x: -1, y: 0, z: 0 };
    let q = p.time_step_return(10, 10, 10);
    assert_eq!(q.position.x, 0);
    assert_eq!(q.velocity.x, 1);
    assert_eq!((q.position.y, q.position.z), (5, 5));
}

#[test]
fn bounds_check_corrects_each_axis_independently() {
    let mut p = still_particle(-3, 12, 5, 1, 1, 0);
    p.velocity = Point { x: -2, y: 3, z: 4 };
    let q = p.bounds_check(10, 10, 10);
    // x lay below zero, y beyond the length, z inside
    assert_eq!((q.position.x, q.position.y, q.position.z), (0, 10, 5));
    assert_eq!((q.velocity.x, q.velocity.y, q.velocity.z), (2, -3, 4));
}

#[test]
fn bounds_check_is_idempotent_on_a_bounced_particle() {
    let mut p = still_particle(-3, 12, 11, 1, 1, 0);
    p.velocity = Point { x: -2, y: 3, z: 4 };
    let once = p.bounds_check(10, 10, 10);
    let twice = once.bounds_check(10, 10, 10);
    assert_eq!(once.position.x, twice.position.x);
    assert_eq!(once.position.y, twice.position.y);
    assert_eq!(once.position.z, twice.position.z);
    assert_eq!(once.velocity.x, twice.velocity.x);
    assert_eq!(once.velocity.y, twice.velocity.y);
    assert_eq!(once.velocity.z, twice.velocity.z);
}
