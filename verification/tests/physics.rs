use nbody::body::{Body, Vec2};
use nbody::scalar::{LIM, SCALE};
use nbody::simulation::Simulation;

fn body(mass: i64, px: i64, py: i64, vx: i64, vy: i64) -> Body {
    Body {
        mass,
        position: Vec2 { x: px, y: py },
        velocity: Vec2 { x: vx, y: vy },
    }
}

fn assert_body(b: &Body, px: i64, py: i64, vx: i64, vy: i64) {
    assert_eq!(b.position, Vec2 { x: px, y: py });
    assert_eq!(b.velocity, Vec2 { x: vx, y: vy });
}

#[test]
fn single_body_unchanged_by_ticks() {
    let start = body(5 * SCALE, 3 * SCALE, 4 * SCALE, 123, -456);
    let mut sim = Simulation::new(vec![start], SCALE);
    for _ in 0..100 {
        sim.update(250_000);
    }
    assert_eq!(sim.bodies.len(), 1);
    assert_eq!(sim.bodies[0], start);
}

#[test]
fn identical_runs_agree() {
    let dts = [10, 10_000, 250_000, 50_000, 1, 999_999, 0, 300_000];
    let mut a = Simulation::three_body_system();
    let mut b = Simulation::three_body_system();
    for _ in 0..5 {
        for &dt in dts.iter() {
            a.update(dt);
            b.update(dt);
        }
    }
    for k in 0..3 {
        assert_eq!(a.bodies[k], b.bodies[k]);
    }
}

#[test]
fn one_tick_matches_closed_form() {
    // Masses 20 and 10 on the x axis, 100 units apart, G = 1, dt = 0.00001.
    // For the first body, r = (100, 0), d = 100 and mu = 10, so the raw
    // acceleration is -100*10^6 * 10^13 * 10^6 / 10^24 = -1000 on x. The
    // velocity moves by trunc(-1000 * 10 / SCALE) = 0 raw units and the
    // position by trunc(-127802 * 10 / SCALE) = -1 on y. The second body
    // then reads the first body's already-moved state.
    let mut sim = Simulation::two_body_system();
    sim.update(10);
    assert_body(&sim.bodies[0], 50_000_000, -1, 0, -127_802);
    assert_body(&sim.bodies[1], -50_000_000, 2, 0, 255_604);
}

#[test]
fn one_tick_matches_closed_form_larger_step() {
    // Same pair with dt = 0.01: the first body's velocity now moves by
    // trunc(-1000 * 10000 / SCALE) = -10 raw units on x, and the second
    // body, reading the moved partner, gains twice that magnitude.
    let mut sim = Simulation::two_body_system();
    sim.update(10_000);
    assert_body(&sim.bodies[0], 50_000_000, -1278, -10, -127_802);
    assert_body(&sim.bodies[1], -50_000_000, 2556, 20, 255_604);
}

#[test]
fn coincident_pair_at_rest_stays_finite_and_still() {
    // Two bodies on the same spot: the distance guard yields zero
    // acceleration instead of dividing by zero, and with zero velocity
    // nothing moves at all.
    let a = body(SCALE, 7 * SCALE, 7 * SCALE, 0, 0);
    let mut sim = Simulation::new(vec![a, a], SCALE);
    sim.update(SCALE);
    assert_eq!(sim.bodies[0], a);
    assert_eq!(sim.bodies[1], a);
}

#[test]
fn coincident_pair_moving_stays_bounded() {
    // A moving coincident pair: the first body feels no acceleration and
    // drifts with its own velocity; the second then sees a very close
    // partner and saturates at the window edge instead of overflowing.
    let a = body(SCALE, 7 * SCALE, 7 * SCALE, 1000, -2000);
    let mut sim = Simulation::new(vec![a, a], SCALE);
    sim.update(SCALE);
    assert_body(&sim.bodies[0], 7_001_000, 6_998_000, 1000, -2000);
    for k in 0..2 {
        let b = &sim.bodies[k];
        for v in [b.position.x, b.position.y, b.velocity.x, b.velocity.y] {
            assert!(v.abs() <= LIM);
        }
    }
}

#[test]
fn near_contact_saturates_at_window_edge() {
    // Two heavy bodies one raw unit apart: the raw acceleration exceeds
    // every bound and is clamped to LIM, as is the resulting velocity and
    // position of the first body.
    let mut sim = Simulation::new(vec![body(LIM, 0, 0, 0, 0), body(LIM, 1, 0, 0, 0)], LIM);
    sim.update(SCALE);
    assert_body(&sim.bodies[0], LIM, 0, LIM, 0);
    assert_body(&sim.bodies[1], 1_000_001, 0, 1_000_000, 0);
}

#[test]
fn two_body_orbit_nearly_periodic() {
    // Masses 20 and 10, 100 units apart, with exact circular-orbit
    // velocities about the barycenter: v = sqrt(G * 30 / 100) split in
    // inverse proportion to mass. One analytic period is
    // T = 2*pi*sqrt(100^3 / 30) ~ 1147.15; with dt = 0.1 that is 11471
    // ticks. Each body must come back near its starting point; the
    // tolerance is loose since the sequential pairwise policy and the
    // fixed-point quantum both bias the trajectory.
    let b0 = body(20 * SCALE, 50 * SCALE, 0, 0, -182_574);
    let b1 = body(10 * SCALE, -50 * SCALE, 0, 0, 365_148);
    let mut sim = Simulation::new(vec![b0, b1], SCALE);
    for _ in 0..11_471 {
        sim.update(100_000);
    }
    let d0x = (sim.bodies[0].position.x - 50 * SCALE) as f64;
    let d0y = sim.bodies[0].position.y as f64;
    let d1x = (sim.bodies[1].position.x + 50 * SCALE) as f64;
    let d1y = sim.bodies[1].position.y as f64;
    let err0 = (d0x * d0x + d0y * d0y).sqrt() / SCALE as f64;
    let err1 = (d1x * d1x + d1y * d1y).sqrt() / SCALE as f64;
    assert!(err0 < 5.0, "first body drifted {} units", err0);
    assert!(err1 < 10.0, "second body drifted {} units", err1);
}

#[test]
fn masses_and_order_never_change() {
    let mut sim = Simulation::new(
        vec![
            body(3 * SCALE, -SCALE, 0, 0, 0),
            body(7 * SCALE, SCALE, 0, 0, 0),
            body(11 * SCALE, 0, SCALE, 0, 0),
        ],
        SCALE,
    );
    for _ in 0..50 {
        sim.update(10_000);
    }
    assert_eq!(sim.bodies.len(), 3);
    assert_eq!(sim.bodies[0].mass, 3 * SCALE);
    assert_eq!(sim.bodies[1].mass, 7 * SCALE);
    assert_eq!(sim.bodies[2].mass, 11 * SCALE);
}
