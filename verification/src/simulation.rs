//! The simulation driver: an ordered body list, preset builders, and the
//! per-tick pairwise update policy.
//!
//! A tick walks every unordered pair of indices `(i, j)` with `i < j`, in
//! ascending order of `i` then `j`. Body `i` is advanced against body `j`'s
//! current state, then body `j` against body `i`'s state as it stands after
//! that first half-step. Later pairs therefore see partners that have
//! already moved within the same tick: the update is sequential by design,
//! not a simultaneous snapshot of the whole tick.

use vstd::prelude::*;

use crate::body::{Body, BodyModel, Vec2, body_after_update, body_ok, separation};
use crate::scalar::{LIM, SCALE};
use crate::scalar::{clamped, in_lim, isqrt, isqrt_spec, mag};

verus! {

/// One pairwise interaction: body `i` steps against body `j`'s current
/// state, then body `j` steps against the already advanced body `i`.
pub open spec fn pair_step(s: Seq<BodyModel>, g: int, dt: int, i: int, j: int) -> Seq<BodyModel> {
    let first = body_after_update(s[i], s[j], g, dt);
    let s1 = s.update(i, first);
    let second = body_after_update(s1[j], s1[i], g, dt);
    s1.update(j, second)
}

/// The tail of a tick: all pairs from `(i, j)` onward, in ascending order
/// of `i` then `j`.
pub open spec fn advance_pairs_from(s: Seq<BodyModel>, g: int, dt: int, i: nat, j: nat) -> Seq<
    BodyModel,
>
    decreases s.len() - i, s.len() - j,
{
    if i + 1 >= s.len() {
        s
    } else if j >= s.len() {
        advance_pairs_from(s, g, dt, i + 1, i + 2)
    } else {
        advance_pairs_from(pair_step(s, g, dt, i as int, j as int), g, dt, i, j + 1)
    }
}

/// One full tick over the body list: every pair `(i, j)` with `i < j`.
pub open spec fn ticked(s: Seq<BodyModel>, g: int, dt: int) -> Seq<BodyModel> {
    advance_pairs_from(s, g, dt, 0, 1)
}

/// A whole run: the ticks for a sequence of time steps, in order.
pub open spec fn ticked_all(s: Seq<BodyModel>, g: int, dts: Seq<int>) -> Seq<BodyModel>
    decreases dts.len(),
{
    if dts.len() == 0 {
        s
    } else {
        ticked_all(ticked(s, g, dts[0]), g, dts.drop_first())
    }
}

/// The bodies of the two-body preset: masses 20 and 10 placed on the x
/// axis, with tangential velocities for a closed orbit about their common
/// barycenter (circular-orbit speed scaled by an eccentricity factor of
/// 0.7, split between the bodies in inverse proportion to mass).
pub open spec fn two_body_models() -> Seq<BodyModel> {
    seq![
        BodyModel { mass: 20 * (SCALE as int), px: 50 * (SCALE as int), py: 0, vx: 0, vy: -127802 },
        BodyModel { mass: 10 * (SCALE as int), px: -50 * (SCALE as int), py: 0, vx: 0, vy: 255604 },
    ]
}

/// The bodies of the three-body preset: three equal masses at rest, their
/// positions recentered so the mass-weighted centroid sits at the origin
/// (up to the fixed-point quantum).
pub open spec fn three_body_models() -> Seq<BodyModel> {
    seq![
        BodyModel { mass: 10 * (SCALE as int), px: -33333333, py: -40 * (SCALE as int), vx: 0, vy: 0 },
        BodyModel { mass: 10 * (SCALE as int), px: 46666667, py: -20 * (SCALE as int), vx: 0, vy: 0 },
        BodyModel { mass: 10 * (SCALE as int), px: -13333333, py: 60 * (SCALE as int), vx: 0, vy: 0 },
    ]
}

/// The tangential speed that keeps a body on a circular path around a
/// stationary attractor of mass `m` at the body's distance: the raw value
/// of `sqrt(g * m / d)`, saturated at the window edge; zero when the body
/// sits on the attractor.
pub open spec fn orbit_speed(g: int, m: int, px: int, py: int) -> int {
    let d = separation(px, py);
    if d == 0 {
        0
    } else {
        clamped(isqrt_spec(((g * m * (SCALE as int)) / d) as nat) as int)
    }
}

/// The tangential velocity for a circular orbit of a body at `position`
/// around a stationary attractor of mass `central_mass` at the origin. The
/// returned vector points along the y axis, which is the tangent when the
/// body sits on the x axis; for other positions only the magnitude is
/// meaningful.
pub fn circular_orbit_velocity(g: i64, central_mass: i64, position: Vec2) -> (v: Vec2)
    requires
        0 <= g && g <= LIM,
        1 <= central_mass && central_mass <= LIM,
        in_lim(position.x as int),
        in_lim(position.y as int),
    ensures
        v.x == 0,
        v.y as int == orbit_speed(g as int, central_mass as int, position.x as int,
            position.y as int),
        in_lim(v.y as int),
{
    let pxm: u128 = if position.x >= 0 {
        position.x as u128
    } else {
        (-position.x) as u128
    };
    let pym: u128 = if position.y >= 0 {
        position.y as u128
    } else {
        (-position.y) as u128
    };
    proof {
        assert((pxm as int) * (pxm as int) == (position.x as int) * (position.x as int) && (
        pym as int) * (pym as int) == (position.y as int) * (position.y as int) && (pxm as int) * (
        pxm as int) + (pym as int) * (pym as int) <= u128::MAX as int) by (nonlinear_arith)
            requires
                pxm as int == mag(position.x as int) && pym as int == mag(position.y as int) && pxm
                    <= LIM as int && pym <= LIM as int,
        ;
    }
    let d2: u128 = pxm * pxm + pym * pym;
    let d: u128 = isqrt(d2);
    if d == 0 {
        Vec2 { x: 0, y: 0 }
    } else {
        proof {
            assert(0 <= (g as int) * (central_mass as int) && (g as int) * (central_mass as int) * (
            SCALE as int) <= u128::MAX as int && (g as int) * (central_mass as int) <= u128::MAX as int)
                by (nonlinear_arith)
                requires
                    0 <= g as int <= LIM as int && 1 <= central_mass as int <= LIM as int,
            ;
        }
        let num: u128 = (g as u128) * (central_mass as u128) * (SCALE as u128);
        let q: u128 = num / d;
        let s: u128 = isqrt(q);
        let vy: i64 = if s > (LIM as u128) {
            LIM
        } else {
            s as i64
        };
        Vec2 { x: 0, y: vy }
    }
}

/// The simulation: an ordered body list whose insertion order is fixed at
/// construction. Index `i` is the stable handle a consumer uses to read a
/// body's state back after each tick. The gravitational constant is carried
/// explicitly so independently configured simulations can coexist.
pub struct Simulation {
    pub bodies: Vec<Body>,
    pub g: i64,
}

impl View for Simulation {
    type V = Seq<BodyModel>;

    open spec fn view(&self) -> Seq<BodyModel> {
        self.bodies@.map_values(|b: Body| b@)
    }
}

impl Simulation {
    /// Every body well-formed and the gravitational constant in range.
    pub open spec fn wf(&self) -> bool {
        &&& 0 <= self.g <= LIM
        &&& forall|k: int| 0 <= k < self@.len() ==> body_ok(#[trigger] self@[k])
    }

    /// Build a simulation from an explicit body list; no transformation is
    /// applied. Masses must be positive and all components bounded for the
    /// simulation to be well-formed (see [`Simulation::wf`]).
    pub fn new(bodies: Vec<Body>, g: i64) -> (sim: Simulation)
        ensures
            sim.bodies@ == bodies@,
            sim.g == g,
            sim@ == bodies@.map_values(|b: Body| b@),
    {
        Simulation { bodies, g }
    }

    /// The two-body preset, under a gravitational constant of one.
    pub fn two_body_system() -> (sim: Simulation)
        ensures
            sim.wf(),
            sim.g == SCALE,
            sim@ == two_body_models(),
    {
        let body_i = Body {
            mass: 20 * SCALE,
            position: Vec2 { x: 50 * SCALE, y: 0 },
            velocity: Vec2 { x: 0, y: -127802 },
        };
        let body_j = Body {
            mass: 10 * SCALE,
            position: Vec2 { x: -50 * SCALE, y: 0 },
            velocity: Vec2 { x: 0, y: 255604 },
        };
        let mut bodies: Vec<Body> = Vec::new();
        bodies.push(body_i);
        bodies.push(body_j);
        let sim = Simulation { bodies, g: SCALE };
        proof {
            assert(sim@ =~= two_body_models());
        }
        sim
    }

    /// The three-body preset: three equal masses at rest, recentered so
    /// their mass-weighted centroid sits at the origin (the center of mass
    /// is rounded toward zero to whole raw units before subtraction).
    pub fn three_body_system() -> (sim: Simulation)
        ensures
            sim.wf(),
            sim.g == SCALE,
            sim@ == three_body_models(),
    {
        let mass: i64 = 10 * SCALE;

        let p1x: i64 = -30 * SCALE;
        let p1y: i64 = -40 * SCALE;
        let p2x: i64 = 50 * SCALE;
        let p2y: i64 = -20 * SCALE;
        let p3x: i64 = -10 * SCALE;
        let p3y: i64 = 60 * SCALE;

        let sum_x: i64 = p1x + p2x + p3x;
        let sum_y: i64 = p1y + p2y + p3y;
        let com_x: i64 = ((sum_x as u64) / 3) as i64;
        let com_y: i64 = ((sum_y as u64) / 3) as i64;

        let body1 = Body {
            mass,
            position: Vec2 { x: p1x - com_x, y: p1y - com_y },
            velocity: Vec2 { x: 0, y: 0 },
        };
        let body2 = Body {
            mass,
            position: Vec2 { x: p2x - com_x, y: p2y - com_y },
            velocity: Vec2 { x: 0, y: 0 },
        };
        let body3 = Body {
            mass,
            position: Vec2 { x: p3x - com_x, y: p3y - com_y },
            velocity: Vec2 { x: 0, y: 0 },
        };

        let mut bodies: Vec<Body> = Vec::new();
        bodies.push(body1);
        bodies.push(body2);
        bodies.push(body3);
        let sim = Simulation { bodies, g: SCALE };
        proof {
            assert(sim@ =~= three_body_models());
        }
        sim
    }

    /// Advance every body by one tick of length `dt`: all pairs `(i, j)`
    /// with `i < j` in ascending order, each half-pair reading its
    /// partner's most recently mutated state.
    pub fn update(&mut self, dt: i64)
        requires
            old(self).wf(),
            0 <= dt && dt <= LIM,
        ensures
            final(self).wf(),
            final(self).g == old(self).g,
            final(self)@ == ticked(old(self)@, old(self).g as int, dt as int),
    {
        let ghost start: Seq<BodyModel> = self@;
        let ghost gi: int = self.g as int;
        let ghost dti: int = dt as int;
        let g: i64 = self.g;
        let n: usize = self.bodies.len();
        let mut i: usize = 0;
        while i < n
            invariant
                self.bodies.len() == n,
                self.g == g,
                0 <= g && g <= LIM,
                0 <= dt && dt <= LIM,
                gi == g as int,
                dti == dt as int,
                i <= n,
                forall|k: int| 0 <= k < self@.len() ==> body_ok(#[trigger] self@[k]),
                advance_pairs_from(self@, gi, dti, i as nat, (i + 1) as nat) == ticked(
                    start,
                    gi,
                    dti,
                ),
            decreases n - i,
        {
            let mut j: usize = i + 1;
            while j < n
                invariant
                    self.bodies.len() == n,
                    self.g == g,
                    0 <= g && g <= LIM,
                    0 <= dt && dt <= LIM,
                    gi == g as int,
                    dti == dt as int,
                    i < n,
                    i < j && j <= n,
                    forall|k: int| 0 <= k < self@.len() ==> body_ok(#[trigger] self@[k]),
                    advance_pairs_from(self@, gi, dti, i as nat, j as nat) == ticked(
                        start,
                        gi,
                        dti,
                    ),
                decreases n - j,
            {
                let ghost pre: Seq<BodyModel> = self@;
                let other_j: Body = self.bodies[j];
                let mut bi: Body = self.bodies[i];
                bi.update_position(&other_j, g, dt);
                self.bodies[i] = bi;
                let other_i: Body = self.bodies[i];
                let mut bj: Body = self.bodies[j];
                bj.update_position(&other_i, g, dt);
                self.bodies[j] = bj;
                proof {
                    assert(self@ =~= pair_step(pre, gi, dti, i as int, j as int));
                    assert(advance_pairs_from(pre, gi, dti, i as nat, j as nat)
                        == advance_pairs_from(self@, gi, dti, i as nat, (j + 1) as nat));
                }
                j = j + 1;
            }
            proof {
                if i + 1 < n {
                    assert(advance_pairs_from(self@, gi, dti, i as nat, n as nat)
                        == advance_pairs_from(self@, gi, dti, (i + 1) as nat, (i + 2) as nat));
                } else {
                    assert(advance_pairs_from(self@, gi, dti, i as nat, n as nat) == self@);
                    assert(advance_pairs_from(self@, gi, dti, (i + 1) as nat, (i + 2) as nat)
                        == self@);
                }
            }
            i = i + 1;
        }
        proof {
            assert(advance_pairs_from(self@, gi, dti, n as nat, (n + 1) as nat) == self@);
        }
    }
}

} // verus!
