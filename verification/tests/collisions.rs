use particle_sim::element::Element;
use particle_sim::particle::Particle;
use particle_sim::point::Point;

fn probe(x: i64, y: i64, z: i64, radius: i64, density: i64, stickiness: i64) -> Particle {
    Particle {
        position: Point { x, y, z },
        velocity: Point::default(),
        acceleration: Point::default(),
        radius,
        density,
        element: Element { stickiness, name: String::from("probe"), color: [8, 8, 8] },
    }
}

#[test]
fn elastic_collision_swaps_velocities() {
    let mut a = probe(0, 0, 0, 2, 1, 0);
    a.velocity = Point { x: 3, y: -1, z: 7 };
    let mut b = probe(1, 0, 0, 3, 5, 0);
    b.velocity = Point { x: -4, y: 2, z: 0 };
    let (a2, b2) = a.elastic_collision(&b);
    // the pair of velocity vectors is exactly exchanged
    assert_eq!((a2.velocity.x, a2.velocity.y, a2.velocity.z), (-4, 2, 0));
    assert_eq!((b2.velocity.x, b2.velocity.y, b2.velocity.z), (3, -1, 7));
    // everything else is untouched
    assert_eq!(a2.position.x, 0);
    assert_eq!(a2.radius, 2);
    assert_eq!(b2.radius, 3);
    assert_eq!(b2.density, 5);
}

#[test]
fn head_on_merge_scenario() {
    // particle A at the origin, radius 5, moving +x at 2 per frame;
    // particle B at (6, 0, 0), radius 3: the centres are 6 < 8 apart,
    // so the pair collides, and a merge gives the volume-additive
    // radius: the floor cube root of 125 + 27 = 152 is 5
    let mut a = probe(0, 0, 0, 5, 1, 1000);
    a.velocity = Point { x: 2, y: 0, z: 0 };
    let b = probe(6, 0, 0, 3, 1, 1000);
    assert!(a.did_collide(&b));
    let m = a.sticky_collision(&b);
    assert_eq!(m.radius, 5);
    // the survivor sits where the larger partner sat
    assert_eq!((m.position.x, m.position.y, m.position.z), (0, 0, 0));
    // momentum is conserved: (2 * 125 + 0 * 27) / 152, truncated
    assert_eq!((m.velocity.x, m.velocity.y, m.velocity.z), (1, 0, 0));
    // mass is conserved through the recomputed density: 152 / 125
    assert_eq!(m.density, 1);
    // the element is the composite
    assert_eq!(m.element.name.as_str(), "probe-probe");
    assert_eq!(m.element.stickiness, 1000);
}

#[test]
fn merge_radius_is_volume_additive() {
    let a = probe(0, 0, 0, 3, 1, 0);
    let b = probe(1, 0, 0, 4, 1, 0);
    // 27 + 64 = 91, and 4^3 = 64 <= 91 < 125 = 5^3
    let m = a.sticky_collision(&b);
    assert_eq!(m.radius, 4);
    // the tie policy favours the larger partner's position
    assert_eq!(m.position.x, 1);
}

#[test]
fn merge_of_equal_radii_keeps_second_position() {
    let a = probe(0, 0, 0, 3, 1, 0);
    let b = probe(2, 0, 0, 3, 1, 0);
    // on a radius tie the second operand's position is kept
    let m = a.sticky_collision(&b);
    assert_eq!(m.position.x, 2);
    // 27 + 27 = 54, and 3^3 = 27 <= 54 < 64
    assert_eq!(m.radius, 3);
    // density doubles: 54 / 27
    assert_eq!(m.density, 2);
}

#[test]
fn gravity_attraction_scenario() {
    // two bodies of mass 125 separated by 10 along x pull each other
    // inward; the pull scales with the inverse square of the distance
    let a = probe(0, 0, 0, 5, 1, 0);
    let b = probe(10, 0, 0, 5, 1, 0);
    let a2 = a.gravitate(&b);
    let b2 = b.gravitate(&a);
    // 20 * 125 * 10 / (3 * 1000) = 8, toward each other
    assert_eq!(a2.acceleration.x, 8);
    assert_eq!(b2.acceleration.x, -8);
    assert_eq!(a2.acceleration.y, 0);
    assert_eq!(a2.acceleration.z, 0);

    // at half the distance the pull roughly quadruples:
    // 20 * 125 * 5 / (3 * 125) = 33
    let c = probe(5, 0, 0, 5, 1, 0);
    let a3 = a.gravitate(&c);
    assert_eq!(a3.acceleration.x, 33);

    // after one integration the bodies move toward each other
    let a4 = a2.time_step();
    let b4 = b2.time_step();
    assert!(a4.velocity.x > 0);
    assert!(b4.velocity.x < 0);
}

#[test]
fn gravity_skips_coincident_centres() {
    let a = probe(7, 7, 7, 2, 1, 0);
    let b = probe(7, 7, 7, 3, 1, 0);
    let a2 = a.gravitate(&b);
    assert_eq!((a2.acceleration.x, a2.acceleration.y, a2.acceleration.z), (0, 0, 0));
    assert_eq!(a2.position.x, 7);
}

#[test]
fn gravity_accumulates_onto_existing_acceleration() {
    let mut a = probe(0, 0, 0, 5, 1, 0);
    a.acceleration = Point { x: 100, y: 0, z: 0 };
    let b = probe(10, 0, 0, 5, 1, 0);
    let a2 = a.gravitate(&b);
    assert_eq!(a2.acceleration.x, 108);
}
