use nbody::body::{Body, Vec2};
use nbody::scalar::SCALE;
use nbody::simulation::{circular_orbit_velocity, Simulation};

#[test]
fn new_keeps_bodies_and_constant() {
    let b = Body {
        mass: 2 * SCALE,
        position: Vec2::new(SCALE, -SCALE),
        velocity: Vec2::new(5, -5),
    };
    let sim = Simulation::new(vec![b], 3 * SCALE);
    assert_eq!(sim.g, 3 * SCALE);
    assert_eq!(sim.bodies.len(), 1);
    assert_eq!(sim.bodies[0], b);
}

#[test]
fn two_body_preset_contents() {
    let sim = Simulation::two_body_system();
    assert_eq!(sim.g, SCALE);
    assert_eq!(sim.bodies.len(), 2);
    assert_eq!(sim.bodies[0].mass, 20 * SCALE);
    assert_eq!(sim.bodies[0].position, Vec2 { x: 50 * SCALE, y: 0 });
    assert_eq!(sim.bodies[0].velocity, Vec2 { x: 0, y: -127_802 });
    assert_eq!(sim.bodies[1].mass, 10 * SCALE);
    assert_eq!(sim.bodies[1].position, Vec2 { x: -50 * SCALE, y: 0 });
    assert_eq!(sim.bodies[1].velocity, Vec2 { x: 0, y: 255_604 });
}

#[test]
fn three_body_preset_contents() {
    let sim = Simulation::three_body_system();
    assert_eq!(sim.g, SCALE);
    assert_eq!(sim.bodies.len(), 3);
    let expect = [
        (-33_333_333, -40 * SCALE),
        (46_666_667, -20 * SCALE),
        (-13_333_333, 60 * SCALE),
    ];
    for (b, &(px, py)) in sim.bodies.iter().zip(expect.iter()) {
        assert_eq!(b.mass, 10 * SCALE);
        assert_eq!(b.position, Vec2 { x: px, y: py });
        assert_eq!(b.velocity, Vec2 { x: 0, y: 0 });
    }
}

#[test]
fn three_body_centroid_at_origin() {
    // Equal masses at rest: the mass-weighted centroid is the plain mean,
    // and it sits within one raw quantum (a millionth of a unit) of the
    // origin in each coordinate.
    let sim = Simulation::three_body_system();
    let sx: i64 = sim.bodies.iter().map(|b| b.position.x).sum();
    let sy: i64 = sim.bodies.iter().map(|b| b.position.y).sum();
    assert!(sx.abs() <= 2, "centroid x residue {}", sx);
    assert!(sy.abs() <= 2, "centroid y residue {}", sy);
}

#[test]
fn circular_orbit_speed_exact_values() {
    // sqrt(G * M / d) in raw units: G = 1, M = 30, d = 100 gives
    // sqrt(0.3) ~ 0.547722; G = 1, M = 1000, d = 50 gives sqrt(20) ~
    // 4.472135. The direction is along the y axis.
    let v = circular_orbit_velocity(SCALE, 30 * SCALE, Vec2 { x: 100 * SCALE, y: 0 });
    assert_eq!(v, Vec2 { x: 0, y: 547_722 });
    let w = circular_orbit_velocity(SCALE, 1000 * SCALE, Vec2 { x: 50 * SCALE, y: 0 });
    assert_eq!(w, Vec2 { x: 0, y: 4_472_135 });
}

#[test]
fn circular_orbit_speed_at_attractor_is_zero() {
    let v = circular_orbit_velocity(SCALE, 30 * SCALE, Vec2 { x: 0, y: 0 });
    assert_eq!(v, Vec2 { x: 0, y: 0 });
}

#[test]
fn two_body_preset_velocities_follow_orbit_rule() {
    // The preset's speeds are the circular-orbit speed for the combined
    // mass at distance 100, scaled by the eccentricity factor 0.7 and
    // split in inverse proportion to mass: 547722 * 0.7 / 3 and twice
    // that, up to the fixed-point rounding baked into the preset.
    let sim = Simulation::two_body_system();
    let v = circular_orbit_velocity(SCALE, 30 * SCALE, Vec2 { x: 100 * SCALE, y: 0 });
    let scaled = (v.y as i128 * 700_000 / 1_000_000) as i64; // 383405
    let v0 = sim.bodies[0].velocity.y.abs();
    let v1 = sim.bodies[1].velocity.y.abs();
    assert!((v0 - scaled / 3).abs() <= 2, "{} vs {}", v0, scaled / 3);
    assert!((v1 - 2 * scaled / 3).abs() <= 2, "{} vs {}", v1, 2 * scaled / 3);
}
