//! Laws of the integrator that hold for every input, stated and proved over
//! the tick model.

use vstd::prelude::*;

use crate::body::{BodyModel, body_after_update, body_ok};
use crate::scalar::{clamped, mag, scaled};
use crate::simulation::{advance_pairs_from, pair_step, three_body_models, ticked, ticked_all};

verus! {

/// A pairwise interaction never changes how many bodies there are, nor any
/// body's mass.
pub proof fn lemma_pair_step_shape(s: Seq<BodyModel>, g: int, dt: int, i: int, j: int)
    requires
        0 <= i < s.len(),
        0 <= j < s.len(),
    ensures
        pair_step(s, g, dt, i, j).len() == s.len(),
        forall|k: int| 0 <= k < s.len() ==> #[trigger] pair_step(s, g, dt, i, j)[k].mass
            == s[k].mass,
{
}

/// The tail of a tick preserves the body count and every mass.
pub proof fn lemma_advance_shape(s: Seq<BodyModel>, g: int, dt: int, i: nat, j: nat)
    ensures
        advance_pairs_from(s, g, dt, i, j).len() == s.len(),
        forall|k: int| 0 <= k < s.len() ==> #[trigger] advance_pairs_from(s, g, dt, i, j)[k].mass
            == s[k].mass,
    decreases s.len() - i, s.len() - j,
{
    if i + 1 >= s.len() {
    } else if j >= s.len() {
        lemma_advance_shape(s, g, dt, i + 1, i + 2);
    } else {
        lemma_pair_step_shape(s, g, dt, i as int, j as int);
        lemma_advance_shape(pair_step(s, g, dt, i as int, j as int), g, dt, i, j + 1);
    }
}

/// A tick preserves the body count and every mass: index `k` refers to the
/// same body, with the same mass, before and after.
pub proof fn lemma_ticked_shape(s: Seq<BodyModel>, g: int, dt: int)
    ensures
        ticked(s, g, dt).len() == s.len(),
        forall|k: int| 0 <= k < s.len() ==> #[trigger] ticked(s, g, dt)[k].mass == s[k].mass,
{
    lemma_advance_shape(s, g, dt, 0, 1);
}

/// With exactly two bodies a tick is the single pair interaction: the
/// first body reacts to the second's original state, then the second to
/// the first's already-moved state.
pub proof fn lemma_two_body_tick(s: Seq<BodyModel>, g: int, dt: int)
    requires
        s.len() == 2,
    ensures
        ticked(s, g, dt) == pair_step(s, g, dt, 0, 1),
{
    lemma_pair_step_shape(s, g, dt, 0, 1);
    let ps = pair_step(s, g, dt, 0, 1);
    assert(advance_pairs_from(ps, g, dt, 1, 2) == ps);
    assert(advance_pairs_from(ps, g, dt, 0, 2) == advance_pairs_from(ps, g, dt, 1, 2));
    assert(advance_pairs_from(s, g, dt, 0, 1) == advance_pairs_from(ps, g, dt, 0, 2));
}

/// A simulation containing exactly one body is unchanged, bit for bit, by
/// any number of ticks: no pair of distinct indices exists, so no update is
/// ever applied.
pub proof fn lemma_single_body_fixed(s: Seq<BodyModel>, g: int, dts: Seq<int>)
    requires
        s.len() == 1,
    ensures
        ticked_all(s, g, dts) == s,
    decreases dts.len(),
{
    if dts.len() == 0 {
    } else {
        assert(ticked(s, g, dts[0]) == s);
        lemma_single_body_fixed(s, g, dts.drop_first());
    }
}

/// Determinism: two runs from the same initial bodies, with the same
/// gravitational constant and the same sequence of time steps, end in the
/// same state. The tick is a function of its inputs alone.
pub proof fn lemma_deterministic(
    s1: Seq<BodyModel>,
    s2: Seq<BodyModel>,
    g1: int,
    g2: int,
    dts1: Seq<int>,
    dts2: Seq<int>,
)
    requires
        s1 == s2,
        g1 == g2,
        dts1 == dts2,
    ensures
        ticked_all(s1, g1, dts1) == ticked_all(s2, g2, dts2),
{
}

/// The three-body preset is centered: the masses are equal and at rest,
/// and each coordinate of the position sum stays within two raw quanta of
/// zero, so the mass-weighted centroid sits within one raw quantum of the
/// origin.
pub proof fn lemma_three_body_centroid()
    ensures
        ({
            let s = three_body_models();
            &&& s.len() == 3
            &&& s[0].mass == s[1].mass && s[1].mass == s[2].mass
            &&& s[0].vx == 0 && s[0].vy == 0 && s[1].vx == 0 && s[1].vy == 0 && s[2].vx == 0
                && s[2].vy == 0
            &&& mag(s[0].px + s[1].px + s[2].px) <= 2
            &&& mag(s[0].py + s[1].py + s[2].py) <= 2
        }),
{
}

/// The degenerate-pair policy: an attractor at the body's own position
/// imparts no acceleration. The body's velocity is untouched and its
/// position still advances with that velocity, so one tick of a coincident
/// pair stays finite and bounded instead of dividing by a zero distance.
pub proof fn lemma_coincident_attractor(b: BodyModel, o: BodyModel, g: int, dt: int)
    requires
        body_ok(b),
        b.px == o.px,
        b.py == o.py,
        0 <= dt,
    ensures
        ({
            let b2 = body_after_update(b, o, g, dt);
            &&& b2.mass == b.mass
            &&& b2.vx == b.vx
            &&& b2.vy == b.vy
            &&& b2.px == clamped(b.px + scaled(b.vx, dt))
            &&& b2.py == clamped(b.py + scaled(b.vy, dt))
        }),
{
    assert(crate::body::separation(0, 0) == 0);
    assert(scaled(0, dt) == 0);
}

} // verus!
