//! The body data model and the per-pair update law.
//!
//! A body is a point mass with a position and a velocity, all fixed-point
//! scalars (see [`crate::scalar`]). The gravity law gives the acceleration a
//! body feels from one attractor; the integrator is semi-implicit Euler: the
//! velocity is advanced first, and the position then moves with the already
//! advanced velocity. Two coincident bodies impart no acceleration on each
//! other: that guard replaces the division by a zero distance.

use vstd::prelude::*;

use crate::scalar::{LIM, SCALE};
use crate::scalar::{clamped, in_lim, isqrt, isqrt_spec, mag, offset_clamped, scale_step, scaled};
use crate::scalar::{lemma_isqrt_bounds};

verus! {

/// A 2D vector of raw fixed-point coordinates.
#[derive(Clone, Copy, PartialEq, Eq, Structural, Debug)]
pub struct Vec2 {
    pub x: i64,
    pub y: i64,
}

impl Vec2 {
    pub fn new(x: i64, y: i64) -> (v: Vec2)
        ensures
            v.x == x,
            v.y == y,
    {
        Vec2 { x, y }
    }
}

/// The mathematical value of a body: its fields as unbounded integers.
pub ghost struct BodyModel {
    pub mass: int,
    pub px: int,
    pub py: int,
    pub vx: int,
    pub vy: int,
}

/// A point mass. Masses must be positive (at least one raw unit): the
/// gravity law multiplies by the attractor's mass, and a non-positive mass
/// is ruled out as a precondition rather than checked at run time.
#[derive(Clone, Copy, PartialEq, Eq, Structural, Debug)]
pub struct Body {
    pub mass: i64,
    pub position: Vec2,
    pub velocity: Vec2,
}

impl View for Body {
    type V = BodyModel;

    open spec fn view(&self) -> BodyModel {
        BodyModel {
            mass: self.mass as int,
            px: self.position.x as int,
            py: self.position.y as int,
            vx: self.velocity.x as int,
            vy: self.velocity.y as int,
        }
    }
}

/// A body whose mass is positive and whose components all sit in the
/// saturation window.
pub open spec fn body_ok(b: BodyModel) -> bool {
    &&& 1 <= b.mass <= LIM as int
    &&& in_lim(b.px)
    &&& in_lim(b.py)
    &&& in_lim(b.vx)
    &&& in_lim(b.vy)
}

/// Squared distance between two positions given their coordinate deltas.
pub open spec fn dist_sq(dx: int, dy: int) -> int {
    dx * dx + dy * dy
}

/// Distance between two positions, rounded down to a whole raw unit.
pub open spec fn separation(dx: int, dy: int) -> int {
    isqrt_spec(dist_sq(dx, dy) as nat) as int
}

/// Magnitude of one acceleration component before saturation:
/// `|delta| * mu * SCALE / d^3`, where `mu = G * mass` carries scale
/// `SCALE^2`, so the quotient is again a raw fixed-point value.
pub open spec fn accel_mag(delta: int, mu: int, d: int) -> int {
    (mag(delta) * mu * (SCALE as int)) / (d * d * d)
}

/// One signed, saturated acceleration component. The acceleration points
/// from the body toward the attractor, hence opposite to `delta`.
pub open spec fn accel_component(delta: int, mu: int, d: int) -> int {
    let c = clamped(accel_mag(delta, mu, d));
    if delta >= 0 {
        -c
    } else {
        c
    }
}

/// The acceleration a body at `(b.px, b.py)` feels from attractor `o` under
/// gravitational constant `g`. Coincident bodies (separation zero) impart
/// no acceleration.
pub open spec fn gravity_accel(b: BodyModel, o: BodyModel, g: int) -> (int, int) {
    let dx = b.px - o.px;
    let dy = b.py - o.py;
    let d = separation(dx, dy);
    if d == 0 {
        (0, 0)
    } else {
        (accel_component(dx, g * o.mass, d), accel_component(dy, g * o.mass, d))
    }
}

/// One semi-implicit Euler step of `b` against attractor `o`: the velocity
/// absorbs the acceleration first, and the position then moves with the new
/// velocity. Every stored component saturates at the window edge.
pub open spec fn body_after_update(b: BodyModel, o: BodyModel, g: int, dt: int) -> BodyModel {
    let acc = gravity_accel(b, o, g);
    let vx = clamped(b.vx + scaled(acc.0, dt));
    let vy = clamped(b.vy + scaled(acc.1, dt));
    let px = clamped(b.px + scaled(vx, dt));
    let py = clamped(b.py + scaled(vy, dt));
    BodyModel { mass: b.mass, px, py, vx, vy }
}

/// The update never touches the mass and keeps every component in the
/// saturation window.
pub proof fn lemma_body_after_update_ok(b: BodyModel, o: BodyModel, g: int, dt: int)
    requires
        body_ok(b),
    ensures
        body_ok(body_after_update(b, o, g, dt)),
        body_after_update(b, o, g, dt).mass == b.mass,
{
}

/// Computes `gravity_accel` on machine integers, without overflow.
fn gravity_accel_exec(b: &Body, o: &Body, g: i64) -> (acc: (i64, i64))
    requires
        body_ok(b@),
        body_ok(o@),
        0 <= g && g <= LIM,
    ensures
        acc.0 as int == gravity_accel(b@, o@, g as int).0,
        acc.1 as int == gravity_accel(b@, o@, g as int).1,
        in_lim(acc.0 as int),
        in_lim(acc.1 as int),
{
    let dx: i64 = b.position.x - o.position.x;
    let dy: i64 = b.position.y - o.position.y;
    let dxm: u128 = if dx >= 0 {
        dx as u128
    } else {
        (-dx) as u128
    };
    let dym: u128 = if dy >= 0 {
        dy as u128
    } else {
        (-dy) as u128
    };
    proof {
        assert(dxm as int == mag(dx as int));
        assert(dym as int == mag(dy as int));
        assert((dxm as int) * (dxm as int) == (dx as int) * (dx as int)) by (nonlinear_arith)
            requires
                dxm as int == mag(dx as int),
        ;
        assert((dym as int) * (dym as int) == (dy as int) * (dy as int)) by (nonlinear_arith)
            requires
                dym as int == mag(dy as int),
        ;
        assert((dxm as int) * (dxm as int) <= 4 * (LIM as int) * (LIM as int)
            && (dym as int) * (dym as int) <= 4 * (LIM as int) * (LIM as int)) by (nonlinear_arith)
            requires
                dxm as int <= 2 * (LIM as int) && dym as int <= 2 * (LIM as int),
        ;
    }
    let d2: u128 = dxm * dxm + dym * dym;
    let d: u128 = isqrt(d2);
    if d == 0 {
        proof {
            assert(separation(b@.px - o@.px, b@.py - o@.py) == 0);
        }
        (0, 0)
    } else {
        proof {
            lemma_isqrt_bounds(d2 as nat);
            assert(d as int <= 30_000_000_000int) by (nonlinear_arith)
                requires
                    (d as int) * (d as int) <= 800_000_000_000_000_000_000int && 0 <= d as int,
            ;
        }
        proof {
            assert(0 <= (g as int) * (o.mass as int) <= (LIM as int) * (LIM as int)) by (
            nonlinear_arith)
                requires
                    0 <= g as int <= LIM as int && 0 <= o.mass as int <= LIM as int,
            ;
        }
        let mu: u128 = (g as u128) * (o.mass as u128);
        proof {
            assert((d as int) * (d as int) <= u128::MAX as int && (d as int) * (d as int) * (
            d as int) <= 27_000_000_000_000_000_000_000_000_000_000int && 1 <= (d as int) * (
            d as int) * (d as int)) by (nonlinear_arith)
                requires
                    1 <= d as int <= 30_000_000_000int,
            ;
        }
        let d3: u128 = d * d * d;
        proof {
            assert((dxm as int) * (mu as int) <= u128::MAX as int && (dym as int) * (mu as int)
                <= u128::MAX as int && (dxm as int) * (mu as int) * (SCALE as int) <= u128::MAX as int
                && (dym as int) * (mu as int) * (SCALE as int) <= u128::MAX as int) by (
            nonlinear_arith)
                requires
                    0 <= dxm as int <= 2 * (LIM as int) && 0 <= dym as int <= 2 * (LIM as int) && 0
                        <= mu as int <= (LIM as int) * (LIM as int),
            ;
        }
        let numx: u128 = dxm * mu * (SCALE as u128);
        let numy: u128 = dym * mu * (SCALE as u128);
        let magx: u128 = numx / d3;
        let magy: u128 = numy / d3;
        let cx: i64 = if magx > (LIM as u128) {
            LIM
        } else {
            magx as i64
        };
        let cy: i64 = if magy > (LIM as u128) {
            LIM
        } else {
            magy as i64
        };
        let ax: i64 = if dx >= 0 {
            -cx
        } else {
            cx
        };
        let ay: i64 = if dy >= 0 {
            -cy
        } else {
            cy
        };
        proof {
            assert(cx as int == clamped(accel_mag(b@.px - o@.px, (g as int) * (o@.mass), d as int)));
            assert(cy as int == clamped(accel_mag(b@.py - o@.py, (g as int) * (o@.mass), d as int)));
        }
        (ax, ay)
    }
}

impl Body {
    /// Every field within the model's bounds.
    pub open spec fn wf(&self) -> bool {
        body_ok(self@)
    }

    /// Advance this body one time step `dt` under the gravity of `other`,
    /// whose state is read as it currently stands. `g` is the gravitational
    /// constant; both carry `SCALE` raw units per unit.
    pub fn update_position(&mut self, other: &Body, g: i64, dt: i64)
        requires
            old(self).wf(),
            other.wf(),
            0 <= g && g <= LIM,
            0 <= dt && dt <= LIM,
        ensures
            final(self)@ == body_after_update(old(self)@, other@, g as int, dt as int),
            final(self).wf(),
            final(self).mass == old(self).mass,
    {
        let acc = gravity_accel_exec(self, other, g);
        let dvx: i64 = scale_step(acc.0, dt);
        let dvy: i64 = scale_step(acc.1, dt);
        let vx: i64 = offset_clamped(self.velocity.x, dvx);
        let vy: i64 = offset_clamped(self.velocity.y, dvy);
        self.velocity = Vec2 { x: vx, y: vy };
        let dpx: i64 = scale_step(vx, dt);
        let dpy: i64 = scale_step(vy, dt);
        let px: i64 = offset_clamped(self.position.x, dpx);
        let py: i64 = offset_clamped(self.position.y, dpy);
        self.position = Vec2 { x: px, y: py };
    }
}

} // verus!
