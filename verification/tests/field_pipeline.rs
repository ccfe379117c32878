use particle_sim::element::Element;
use particle_sim::field::SimulationField;
use particle_sim::mass::Mass;
use particle_sim::particle::Particle;
use particle_sim::particle_field::ParticleField;
use particle_sim::point::Point;

fn probe(x: i64, y: i64, z: i64, radius: i64, stickiness: i64) -> Particle {
    Particle {
        position: Point { x, y, z },
        velocity: Point::default(),
        acceleration: Point::default(),
        radius,
        density: 1,
        element: Element { stickiness, name: String::from("probe"), color: [5, 5, 5] },
    }
}

fn quiet_field(particles: Vec<Particle>, gravity: bool) -> SimulationField {
    SimulationField { particles, height: 1000, width: 1000, length: 1000, gravity }
}

#[test]
fn pass_visits_every_pair_once_without_merges() {
    // four well-separated particles: no collisions, so no merges, and
    // the pairwise pass considers exactly 4 * 3 / 2 pairs
    let field = quiet_field(
        vec![
            probe(100, 100, 100, 5, 0),
            probe(300, 100, 100, 5, 0),
            probe(500, 100, 100, 5, 0),
            probe(700, 100, 100, 5, 0),
        ],
        false,
    );
    assert!(field.is_well_formed());
    let (next, report) = field.time_step();
    assert_eq!(report.merges, 0);
    assert_eq!(report.pairs_considered, 6u64);
    assert_eq!(next.particles.len(), 4);
}

#[test]
fn quiet_frame_integrates_exactly() {
    let mut a = probe(100, 100, 100, 5, 0);
    a.velocity = Point { x: 1, y: 2, z: 3 };
    let mut b = probe(500, 500, 500, 5, 0);
    b.velocity = Point { x: -4, y: 0, z: 5 };
    let field = quiet_field(vec![a, b], false);
    let (next, report) = field.time_step();
    assert_eq!(report.merges, 0);
    assert_eq!(report.pairs_considered, 1u64);
    let p0 = &next.particles[0];
    assert_eq!((p0.position.x, p0.position.y, p0.position.z), (101, 102, 103));
    assert_eq!((p0.velocity.x, p0.velocity.y, p0.velocity.z), (1, 2, 3));
    let p1 = &next.particles[1];
    assert_eq!((p1.position.x, p1.position.y, p1.position.z), (496, 500, 505));
}

#[test]
fn gravity_pass_accumulates_both_ways() {
    // two bodies of mass 125 at rest, 10 apart along x: the pass
    // resets the accelerations and accumulates 8 toward each other
    let a = probe(100, 100, 100, 5, 0);
    let b = probe(110, 100, 100, 5, 0);
    let field = quiet_field(vec![a, b], true);
    let (next, report) = field.time_step();
    assert_eq!(report.merges, 0);
    assert_eq!(next.particles[0].acceleration.x, 8);
    assert_eq!(next.particles[1].acceleration.x, -8);
    // one more frame turns the pull into motion
    let (after, _) = next.time_step();
    assert!(after.particles[0].velocity.x > 0);
    assert!(after.particles[1].velocity.x < 0);
}

#[test]
fn gravity_pass_discards_stale_acceleration() {
    let mut a = probe(100, 100, 100, 5, 0);
    a.acceleration = Point { x: 30_000, y: 30_000, z: 30_000 };
    let b = probe(110, 100, 100, 5, 0);
    let field = quiet_field(vec![a, b], true);
    let (next, _) = field.time_step();
    // the stale acceleration moved this frame's velocity, but the new
    // accumulation started from zero
    assert_eq!(next.particles[0].acceleration.x, 8);
    assert_eq!((next.particles[0].acceleration.y, next.particles[0].acceleration.z), (0, 0));
}

#[test]
fn overlapping_sticky_pair_merges() {
    // zero stickiness makes nearly every draw a merge; an elastic
    // frame leaves the resting pair overlapping, so the merge comes
    // within a few frames
    let a = probe(50, 50, 50, 3, 0);
    let b = probe(52, 50, 50, 4, 0);
    let mut field = quiet_field(vec![a, b], false);
    let mut merged = false;
    for _ in 0..60 {
        let (next, report) = field.time_step();
        field = next;
        if report.merges == 1 {
            merged = true;
            break;
        }
    }
    assert!(merged);
    assert_eq!(field.particles.len(), 1);
    // the floor cube root of 27 + 64 = 91 is 4
    assert_eq!(field.particles[0].radius, 4);
    assert!(field.is_terminal(2));
}

#[test]
fn snapshot_reports_position_radius_and_colour() {
    let a = probe(10, 20, 30, 4, 0);
    let b = probe(700, 800, 900, 6, 0);
    let field = quiet_field(vec![a, b], false);
    let shot = field.snapshot();
    assert_eq!(shot.len(), 2);
    assert_eq!(shot[0], (10, 20, 4, [5, 5, 5]));
    assert_eq!(shot[1], (700, 800, 6, [5, 5, 5]));
}

#[test]
fn empty_field_steps_to_empty() {
    let field = quiet_field(vec![], false);
    let (next, report) = field.time_step();
    assert_eq!(next.particles.len(), 0);
    assert_eq!(report.pairs_considered, 0u64);
    assert_eq!(report.merges, 0);
}

#[test]
fn singleton_field_has_no_pairs() {
    let mut lone = probe(100, 100, 100, 5, 0);
    lone.velocity = Point { x: 3, y: 0, z: 0 };
    let field = quiet_field(vec![lone], true);
    let (next, report) = field.time_step();
    assert_eq!(next.particles.len(), 1);
    assert_eq!(report.pairs_considered, 0u64);
    assert_eq!(next.particles[0].position.x, 103);
}

#[test]
fn terminal_query_compares_population() {
    let field = quiet_field(vec![probe(1, 1, 1, 3, 0)], false);
    assert!(field.is_terminal(2));
    assert!(!field.is_terminal(1));
}

#[test]
fn malformed_field_is_rejected() {
    let mut bad = probe(1, 1, 1, 3, 0);
    bad.radius = 0;
    let field = quiet_field(vec![bad], false);
    assert!(!field.is_well_formed());
    let outside = quiet_field(vec![probe(1, 1, 1, 3, 0)], false);
    assert!(outside.is_well_formed());
}

#[test]
fn mass_time_step_tracks_centre_of_gravity() {
    let mut a = probe(10, 0, 0, 3, 0);
    a.velocity = Point { x: 1, y: 1, z: 0 };
    let mut b = probe(20, 5, 0, 3, 0);
    b.velocity = Point { x: -1, y: 0, z: 2 };
    let mass = Mass { particles: vec![a, b], center_of_gravity: Point::default() };
    let next = mass.time_step();
    assert_eq!(next.particles.len(), 2);
    assert_eq!(next.particles[0].position.x, 11);
    assert_eq!(next.particles[1].position.x, 19);
    // the centre of gravity is the fold of the stepped positions
    assert_eq!(next.center_of_gravity.x, 30);
    assert_eq!(next.center_of_gravity.y, 6);
    assert_eq!(next.center_of_gravity.z, 2);
}

#[test]
fn particle_field_steps_every_aggregate() {
    let mut a = probe(10, 0, 0, 3, 0);
    a.velocity = Point { x: 2, y: 0, z: 0 };
    let m1 = Mass { particles: vec![a], center_of_gravity: Point::default() };
    let m2 = Mass { particles: vec![], center_of_gravity: Point::default() };
    let pf = ParticleField { field: vec![m1, m2] };
    let next = pf.time_step();
    assert_eq!(next.field.len(), 2);
    assert_eq!(next.field[0].particles[0].position.x, 12);
    assert_eq!(next.field[0].center_of_gravity.x, 12);
    assert_eq!(next.field[1].particles.len(), 0);
}

#[test]
fn pixel_distance_exact() {
    assert_eq!(particle_sim::render::distance((0, 0), (3, 4)), 5);
    assert_eq!(particle_sim::render::distance((10, 10), (10, 10)), 0);
    // floor of sqrt(8)
    assert_eq!(particle_sim::render::distance((1, 1), (3, 3)), 2);
}
