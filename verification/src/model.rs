//! Mathematical model of the simulation: ghost vectors, the pairwise
//! gravitational force, the result of one integration step, and bounds on
//! all the intermediate quantities.

use crate::num::{absi, div_trunc, isqrt_spec, lemma_div_trunc_basics, lemma_div_trunc_multiple,
    lemma_div_trunc_odd, lemma_div_trunc_ordered, lemma_div_trunc_scale_bound, lemma_isqrt_bounds,
    lemma_isqrt_unique, lemma_rem_trunc_bound, rem_trunc};
use vstd::prelude::*;

verus! {

/// Fixed-point resolution: one simulation unit of length, velocity or mass
/// is `FP_SCALE` integer steps (12 fractional bits).
pub const FP_SCALE: i64 = 4096;

/// `FP_SCALE` squared. Scaling the Newtonian force numerator by it makes
/// the integer force law agree with `m1 * m2 / r^2` stated in simulation
/// units (gravitational constant 1), while resolving accelerations down to
/// one fixed-point step of velocity per tick: without it, any pull smaller
/// than a whole step would truncate to nothing.
pub const FORCE_SCALE: i128 = 4096 * 4096;

/// Largest magnitude a position coordinate may have (2^40 fixed-point
/// steps). Keeps every displacement, squared distance and force numerator
/// well inside `i128`.
pub const POS_BOUND: i64 = 0x100_0000_0000;

/// Largest mass (2^30 fixed-point steps). A product of two masses and the
/// force resolution then fits in 84 bits.
pub const MASS_BOUND: i64 = 0x4000_0000;

/// Largest number of bodies (2^20). Accumulated forces stay inside `i128`.
pub const MAX_BODIES: usize = 0x10_0000;

/// Magnitude bound on one pairwise force component:
/// `MASS_BOUND * MASS_BOUND * FORCE_SCALE` (2^84).
pub const PAIR_FORCE_BOUND: i128 = 0x10_0000_0000_0000_0000_0000;

/// A two-dimensional vector of unbounded integers, the mathematical image
/// of the executable fixed-point vectors.
pub ghost struct V2 {
    pub x: int,
    pub y: int,
}

impl V2 {
    pub open spec fn zero() -> V2 {
        V2 { x: 0, y: 0 }
    }

    pub open spec fn plus(self, o: V2) -> V2 {
        V2 { x: self.x + o.x, y: self.y + o.y }
    }

    pub open spec fn neg(self) -> V2 {
        V2 { x: -self.x, y: -self.y }
    }
}

/// The mathematical image of one body.
pub ghost struct BodyModel {
    pub pos: V2,
    pub vel: V2,
    pub mass: int,
}

/// A body the simulation accepts: position within the fixed-point range and
/// a positive, bounded mass.
pub open spec fn body_wf(b: BodyModel) -> bool {
    &&& absi(b.pos.x) <= POS_BOUND as int
    &&& absi(b.pos.y) <= POS_BOUND as int
    &&& 0 < b.mass <= MASS_BOUND as int
}

/// A configuration the simulation accepts.
pub open spec fn bodies_wf(s: Seq<BodyModel>) -> bool {
    &&& s.len() <= MAX_BODIES
    &&& forall|i: int| 0 <= i < s.len() ==> body_wf(#[trigger] s[i])
}

/// Gravitational pull of `b2` on `b1`: the displacement `d` from `b1` to
/// `b2`, scaled by `m1 * m2 / |d|^2` and normalized, evaluated exactly as
/// `d * m1 * m2 * FORCE_SCALE / (|d|^2 * |d|)` in truncating integer
/// arithmetic with an integer square root. The `FORCE_SCALE` factor states
/// the law in simulation units on the fixed-point grid, so that forces far
/// below one grid step per tick still act. Coincident bodies exert no force
/// on each other: the direction of attraction is undefined there, and the
/// zero tie-break keeps the step total.
pub open spec fn pair_force(b1: BodyModel, b2: BodyModel) -> V2 {
    let dx = b2.pos.x - b1.pos.x;
    let dy = b2.pos.y - b1.pos.y;
    let r2 = dx * dx + dy * dy;
    if r2 == 0 {
        V2::zero()
    } else {
        let d3 = r2 * (isqrt_spec(r2 as nat) as int);
        V2 {
            x: div_trunc(dx * b1.mass * b2.mass * (FORCE_SCALE as int), d3),
            y: div_trunc(dy * b1.mass * b2.mass * (FORCE_SCALE as int), d3),
        }
    }
}

/// Sum of the pulls on body `i` from the bodies with index below `k`.
pub open spec fn force_prefix(s: Seq<BodyModel>, i: int, k: int) -> V2
    decreases k,
{
    if k <= 0 {
        V2::zero()
    } else if k - 1 == i {
        force_prefix(s, i, k - 1)
    } else {
        force_prefix(s, i, k - 1).plus(pair_force(s[i], s[k - 1]))
    }
}

/// Net force on body `i` from every other body.
pub open spec fn net_force(s: Seq<BodyModel>, i: int) -> V2 {
    force_prefix(s, i, s.len() as int)
}

/// One semi-implicit Euler update of a single body under force `f`: the
/// velocity moves by `f / m` first, and the position then moves by the
/// already-updated velocity.
pub open spec fn stepped_body(b: BodyModel, f: V2) -> BodyModel {
    let vel = V2 { x: b.vel.x + div_trunc(f.x, b.mass), y: b.vel.y + div_trunc(f.y, b.mass) };
    BodyModel { pos: b.pos.plus(vel), vel: vel, mass: b.mass }
}

/// The whole configuration after one step.
pub open spec fn step_bodies(s: Seq<BodyModel>) -> Seq<BodyModel> {
    Seq::new(s.len(), |i: int| stepped_body(s[i], net_force(s, i)))
}

/// Whether a stepped body can be stored again in the fixed-point range.
pub open spec fn body_fits(b: BodyModel) -> bool {
    &&& absi(b.pos.x) <= POS_BOUND as int
    &&& absi(b.pos.y) <= POS_BOUND as int
    &&& i64::MIN <= b.vel.x <= i64::MAX
    &&& i64::MIN <= b.vel.y <= i64::MAX
}

/// Whether the whole stepped configuration can be stored again.
pub open spec fn step_fits(s: Seq<BodyModel>) -> bool {
    forall|i: int| 0 <= i < s.len() ==> body_fits(#[trigger] step_bodies(s)[i])
}

/// A squared distance of at least one has an integer square root of at
/// least one, and the cube stays positive.
pub proof fn lemma_d3_pos(r2: int)
    requires
        r2 >= 1,
    ensures
        isqrt_spec(r2 as nat) >= 1,
        r2 * (isqrt_spec(r2 as nat) as int) >= 1,
{
    lemma_isqrt_bounds(r2 as nat);
    let r = isqrt_spec(r2 as nat) as int;
    if r == 0 {
        assert((0 + 1) * (0 + 1) == 1) by (nonlinear_arith);
        assert(r2 < 1);
    }
    assert(r2 * r >= 1) by (nonlinear_arith)
        requires
            r2 >= 1,
            r >= 1,
    ;
}

/// One pairwise force component never exceeds `PAIR_FORCE_BOUND` in
/// magnitude.
pub proof fn lemma_pair_force_bound(b1: BodyModel, b2: BodyModel)
    requires
        body_wf(b1),
        body_wf(b2),
    ensures
        absi(pair_force(b1, b2).x) <= PAIR_FORCE_BOUND as int,
        absi(pair_force(b1, b2).y) <= PAIR_FORCE_BOUND as int,
{
    let dx = b2.pos.x - b1.pos.x;
    let dy = b2.pos.y - b1.pos.y;
    let r2 = dx * dx + dy * dy;
    assert(r2 >= 0 && dx * dx <= r2 && dy * dy <= r2) by (nonlinear_arith)
        requires
            r2 == dx * dx + dy * dy,
    ;
    if r2 != 0 {
        lemma_d3_pos(r2);
        lemma_isqrt_bounds(r2 as nat);
        let r = isqrt_spec(r2 as nat) as int;
        let d3 = r2 * r;
        let c = b1.mass * b2.mass * (FORCE_SCALE as int);
        assert(absi(dx) <= r && absi(dy) <= r) by (nonlinear_arith)
            requires
                dx * dx <= r2,
                dy * dy <= r2,
                r2 < (r + 1) * (r + 1),
                r >= 1,
        ;
        assert(absi(dx * b1.mass * b2.mass * (FORCE_SCALE as int)) <= c * d3 && absi(
            dy * b1.mass * b2.mass * (FORCE_SCALE as int),
        ) <= c * d3 && 0 <= c <= PAIR_FORCE_BOUND as int) by (nonlinear_arith)
            requires
                absi(dx) <= r,
                absi(dy) <= r,
                r >= 1,
                r2 >= 1,
                d3 == r2 * r,
                c == b1.mass * b2.mass * (FORCE_SCALE as int),
                0 < b1.mass <= MASS_BOUND as int,
                0 < b2.mass <= MASS_BOUND as int,
                FORCE_SCALE > 0,
                PAIR_FORCE_BOUND as int == (MASS_BOUND as int) * (MASS_BOUND as int) * (
                FORCE_SCALE as int),
        ;
        lemma_div_trunc_scale_bound(dx * b1.mass * b2.mass * (FORCE_SCALE as int), d3, c);
        lemma_div_trunc_scale_bound(dy * b1.mass * b2.mass * (FORCE_SCALE as int), d3, c);
    }
}

/// A partial force sum over `k` bodies is at most `k` pairwise bounds.
pub proof fn lemma_force_prefix_bound(s: Seq<BodyModel>, i: int, k: int)
    requires
        bodies_wf(s),
        0 <= i < s.len(),
        0 <= k <= s.len(),
    ensures
        absi(force_prefix(s, i, k).x) <= k * PAIR_FORCE_BOUND as int,
        absi(force_prefix(s, i, k).y) <= k * PAIR_FORCE_BOUND as int,
    decreases k,
{
    if k == 0 {
    } else {
        lemma_force_prefix_bound(s, i, k - 1);
        if k - 1 != i {
            lemma_pair_force_bound(s[i], s[k - 1]);
        }
    }
}

/// Swapping the two bodies flips the pairwise force.
pub proof fn lemma_pair_force_antisym(b1: BodyModel, b2: BodyModel)
    ensures
        pair_force(b2, b1) == pair_force(b1, b2).neg(),
{
    let dx = b2.pos.x - b1.pos.x;
    let dy = b2.pos.y - b1.pos.y;
    let r2 = dx * dx + dy * dy;
    assert((-dx) * (-dx) + (-dy) * (-dy) == r2 && r2 >= 0) by (nonlinear_arith)
        requires
            r2 == dx * dx + dy * dy,
    ;
    if r2 == 0 {
        assert(pair_force(b2, b1) == V2::zero());
        assert(pair_force(b1, b2).neg() == V2::zero());
    } else {
        let d3 = r2 * (isqrt_spec(r2 as nat) as int);
        assert((-dx) * b2.mass * b1.mass * (FORCE_SCALE as int) == -(dx * b1.mass * b2.mass * (
        FORCE_SCALE as int))) by (nonlinear_arith);
        assert((-dy) * b2.mass * b1.mass * (FORCE_SCALE as int) == -(dy * b1.mass * b2.mass * (
        FORCE_SCALE as int))) by (nonlinear_arith);
        lemma_d3_pos(r2);
        lemma_div_trunc_odd(dx * b1.mass * b2.mass * (FORCE_SCALE as int), d3);
        lemma_div_trunc_odd(dy * b1.mass * b2.mass * (FORCE_SCALE as int), d3);
    }
}

/// Sum of the pulls of the bodies with index below `k` on body `t`.
spec fn pull_prefix(s: Seq<BodyModel>, t: int, k: int) -> V2
    decreases k,
{
    if k <= 0 {
        V2::zero()
    } else {
        pull_prefix(s, t, k - 1).plus(pair_force(s[k - 1], s[t]))
    }
}

/// Below its own index, a body's partial force sum is the negated sum of
/// its pulls on those bodies.
proof fn lemma_force_prefix_antisym(s: Seq<BodyModel>, t: int, k: int)
    requires
        0 <= k <= t,
    ensures
        force_prefix(s, t, k) == pull_prefix(s, t, k).neg(),
    decreases k,
{
    if k == 0 {
        assert(V2::zero().neg() == V2::zero());
    } else {
        lemma_force_prefix_antisym(s, t, k - 1);
        lemma_pair_force_antisym(s[k - 1], s[t]);
        assert(pair_force(s[t], s[k - 1]) == pair_force(s[k - 1], s[t]).neg());
    }
}

/// Sum over the first `k` bodies of their partial force sums up to `m`.
pub open spec fn force_prefix_sum(s: Seq<BodyModel>, k: int, m: int) -> V2
    decreases k,
{
    if k <= 0 {
        V2::zero()
    } else {
        force_prefix_sum(s, k - 1, m).plus(force_prefix(s, k - 1, m))
    }
}

/// Sum over every body of the net force it feels.
pub open spec fn net_force_sum(s: Seq<BodyModel>) -> V2 {
    force_prefix_sum(s, s.len() as int, s.len() as int)
}

/// Extending each partial force sum by body `m` adds exactly `m`'s pulls on
/// the first `k` bodies.
proof fn lemma_force_prefix_sum_extend(s: Seq<BodyModel>, k: int, m: int)
    requires
        0 <= k <= m,
    ensures
        force_prefix_sum(s, k, m + 1) == force_prefix_sum(s, k, m).plus(pull_prefix(s, m, k)),
    decreases k,
{
    if k == 0 {
    } else {
        lemma_force_prefix_sum_extend(s, k - 1, m);
        assert(force_prefix(s, k - 1, m + 1) == force_prefix(s, k - 1, m).plus(
            pair_force(s[k - 1], s[m]),
        ));
    }
}

/// Newton's third law in the large: the pairwise forces over the whole
/// configuration cancel exactly.
pub proof fn lemma_force_cancellation(s: Seq<BodyModel>, k: int)
    requires
        0 <= k <= s.len(),
    ensures
        force_prefix_sum(s, k, k) == V2::zero(),
    decreases k,
{
    if k == 0 {
    } else {
        lemma_force_cancellation(s, k - 1);
        lemma_force_prefix_sum_extend(s, k - 1, k - 1);
        lemma_force_prefix_antisym(s, k - 1, k - 1);
        assert(force_prefix(s, k - 1, k) == force_prefix(s, k - 1, k - 1));
    }
}

/// Sum of the vectors below `k`.
pub open spec fn v2_prefix_sum(q: Seq<V2>, k: int) -> V2
    decreases k,
{
    if k <= 0 {
        V2::zero()
    } else {
        v2_prefix_sum(q, k - 1).plus(q[k - 1])
    }
}

/// A vector sequence holding each body's net force sums, prefix by prefix,
/// to the accumulated force total.
proof fn lemma_v2_prefix_is_force_sum(s: Seq<BodyModel>, q: Seq<V2>, k: int)
    requires
        q.len() == s.len(),
        forall|i: int| 0 <= i < s.len() ==> q[i] == net_force(s, i),
        0 <= k <= s.len(),
    ensures
        v2_prefix_sum(q, k) == force_prefix_sum(s, k, s.len() as int),
    decreases k,
{
    if k > 0 {
        lemma_v2_prefix_is_force_sum(s, q, k - 1);
        assert(q[k - 1] == net_force(s, k - 1));
    }
}

/// The accumulated force vectors — one net force per body, exactly as the
/// engine's step leaves them — sum to zero.
pub proof fn lemma_net_forces_sum_to_zero(s: Seq<BodyModel>, q: Seq<V2>)
    requires
        q.len() == s.len(),
        forall|i: int| 0 <= i < s.len() ==> q[i] == net_force(s, i),
    ensures
        v2_prefix_sum(q, q.len() as int) == V2::zero(),
{
    lemma_v2_prefix_is_force_sum(s, q, s.len() as int);
    lemma_force_cancellation(s, s.len() as int);
}

/// Total momentum (mass times velocity, summed) of the bodies below `k`.
pub open spec fn momentum_prefix(s: Seq<BodyModel>, k: int) -> V2
    decreases k,
{
    if k <= 0 {
        V2::zero()
    } else {
        momentum_prefix(s, k - 1).plus(
            V2 { x: s[k - 1].mass * s[k - 1].vel.x, y: s[k - 1].mass * s[k - 1].vel.y },
        )
    }
}

/// Total momentum of the whole configuration.
pub open spec fn total_momentum(s: Seq<BodyModel>) -> V2 {
    momentum_prefix(s, s.len() as int)
}

/// Sum of the masses of the bodies below `k`.
pub open spec fn mass_prefix(s: Seq<BodyModel>, k: int) -> int
    decreases k,
{
    if k <= 0 {
        0
    } else {
        mass_prefix(s, k - 1) + s[k - 1].mass
    }
}

/// Sum of all the masses.
pub open spec fn total_mass(s: Seq<BodyModel>) -> int {
    mass_prefix(s, s.len() as int)
}

/// Mass sums of a well-formed configuration are positive and bounded.
pub proof fn lemma_mass_prefix_bounds(s: Seq<BodyModel>, k: int)
    requires
        bodies_wf(s),
        0 <= k <= s.len(),
    ensures
        k <= mass_prefix(s, k) <= k * MASS_BOUND as int,
    decreases k,
{
    if k == 0 {
    } else {
        lemma_mass_prefix_bounds(s, k - 1);
    }
}

/// Across one step, the momentum of the first `k` bodies differs from its
/// old value plus the accumulated forces only by the division rounding.
proof fn lemma_momentum_prefix_step(s: Seq<BodyModel>, k: int)
    requires
        bodies_wf(s),
        0 <= k <= s.len(),
    ensures
        absi(
            momentum_prefix(step_bodies(s), k).x - momentum_prefix(s, k).x - force_prefix_sum(
                s,
                k,
                s.len() as int,
            ).x,
        ) <= mass_prefix(s, k) - k,
        absi(
            momentum_prefix(step_bodies(s), k).y - momentum_prefix(s, k).y - force_prefix_sum(
                s,
                k,
                s.len() as int,
            ).y,
        ) <= mass_prefix(s, k) - k,
    decreases k,
{
    let t = step_bodies(s);
    let n = s.len() as int;
    if k == 0 {
    } else {
        lemma_momentum_prefix_step(s, k - 1);
        let b = s[k - 1];
        let f = net_force(s, k - 1);
        assert(t[k - 1] == stepped_body(b, f));
        assert(t[k - 1].vel.x == b.vel.x + div_trunc(f.x, b.mass));
        assert(t[k - 1].vel.y == b.vel.y + div_trunc(f.y, b.mass));
        assert(b.mass * t[k - 1].vel.x == b.mass * b.vel.x + b.mass * div_trunc(f.x, b.mass))
            by (nonlinear_arith)
            requires
                t[k - 1].vel.x == b.vel.x + div_trunc(f.x, b.mass),
        ;
        assert(b.mass * t[k - 1].vel.y == b.mass * b.vel.y + b.mass * div_trunc(f.y, b.mass))
            by (nonlinear_arith)
            requires
                t[k - 1].vel.y == b.vel.y + div_trunc(f.y, b.mass),
        ;
        assert(b.mass * div_trunc(f.x, b.mass) == f.x - rem_trunc(f.x, b.mass));
        assert(b.mass * div_trunc(f.y, b.mass) == f.y - rem_trunc(f.y, b.mass));
        lemma_rem_trunc_bound(f.x, b.mass);
        lemma_rem_trunc_bound(f.y, b.mass);
        assert(force_prefix_sum(s, k, n) == force_prefix_sum(s, k - 1, n).plus(
            force_prefix(s, k - 1, n),
        ));
    }
}

/// Momentum conservation: the pairwise forces cancel exactly, so over one
/// step the total momentum moves only by the division rounding, strictly
/// less than the total mass on each axis.
pub proof fn lemma_momentum_conservation(s: Seq<BodyModel>)
    requires
        bodies_wf(s),
        s.len() >= 2,
    ensures
        net_force_sum(s) == V2::zero(),
        absi(total_momentum(step_bodies(s)).x - total_momentum(s).x) < total_mass(s),
        absi(total_momentum(step_bodies(s)).y - total_momentum(s).y) < total_mass(s),
{
    let n = s.len() as int;
    lemma_force_cancellation(s, n);
    lemma_momentum_prefix_step(s, n);
    assert(step_bodies(s).len() == s.len());
}

/// A single body feels no force: one step leaves its velocity unchanged and
/// moves its position by exactly that velocity. Through `Space::update`'s
/// contract this holds of the engine whenever the advanced position stays
/// in the fixed-point range; otherwise the step reports failure and changes
/// nothing.
pub proof fn lemma_single_body_stasis(s: Seq<BodyModel>)
    requires
        bodies_wf(s),
        s.len() == 1,
    ensures
        step_bodies(s)[0].vel == s[0].vel,
        step_bodies(s)[0].pos == s[0].pos.plus(s[0].vel),
        step_bodies(s)[0].mass == s[0].mass,
{
    assert(net_force(s, 0) == force_prefix(s, 0, 1));
    assert(force_prefix(s, 0, 1) == force_prefix(s, 0, 0));
    lemma_div_trunc_basics(0, s[0].mass);
    assert(step_bodies(s)[0] == stepped_body(s[0], net_force(s, 0)));
    assert(step_bodies(s)[0].vel == s[0].vel);
}

/// Two equal masses at rest at mirrored positions on the x-axis move toward
/// each other by exactly opposite amounts, and only along the x-axis; and
/// whenever the exact Newtonian pull amounts to at least one fixed-point
/// step of velocity (`m * FORCE_SCALE >= 4 d^2`, that is `m / (2d)^2 >=
/// 1/FORCE_SCALE` in simulation units), both bodies strictly move toward
/// each other. Through `Space::update`'s exact contract this carries over
/// to the engine's own stepping.
pub proof fn lemma_two_body_symmetry(s: Seq<BodyModel>, d: int, m: int)
    requires
        s.len() == 2,
        0 < d <= POS_BOUND as int,
        0 < m <= MASS_BOUND as int,
        s[0] == (BodyModel { pos: V2 { x: -d, y: 0 }, vel: V2::zero(), mass: m }),
        s[1] == (BodyModel { pos: V2 { x: d, y: 0 }, vel: V2::zero(), mass: m }),
    ensures
        step_bodies(s)[0].vel.x >= 0,
        step_bodies(s)[1].vel.x == -step_bodies(s)[0].vel.x,
        step_bodies(s)[0].vel.y == 0,
        step_bodies(s)[1].vel.y == 0,
        step_bodies(s)[0].pos.x - s[0].pos.x == -(step_bodies(s)[1].pos.x - s[1].pos.x),
        step_bodies(s)[0].pos.y == 0,
        step_bodies(s)[1].pos.y == 0,
        4 * d * d <= m * (FORCE_SCALE as int) ==> step_bodies(s)[0].vel.x >= 1
            && step_bodies(s)[0].pos.x > s[0].pos.x && step_bodies(s)[1].pos.x < s[1].pos.x,
{
    let f0 = net_force(s, 0);
    let f1 = net_force(s, 1);
    assert(force_prefix(s, 0, 2) == force_prefix(s, 0, 1).plus(pair_force(s[0], s[1])));
    assert(force_prefix(s, 0, 1) == force_prefix(s, 0, 0));
    assert(f0 == pair_force(s[0], s[1]));
    assert(force_prefix(s, 1, 2) == force_prefix(s, 1, 1));
    assert(force_prefix(s, 1, 1) == force_prefix(s, 1, 0).plus(pair_force(s[1], s[0])));
    assert(f1 == pair_force(s[1], s[0]));
    lemma_pair_force_antisym(s[0], s[1]);
    assert(f1 == f0.neg());

    let dx = s[1].pos.x - s[0].pos.x;
    let r2 = dx * dx + 0 * 0;
    let fs = FORCE_SCALE as int;
    let num = dx * m * m * fs;
    assert(dx == 2 * d);
    assert(r2 > 0 && 0 * m * m * fs == 0 && num >= 0) by (nonlinear_arith)
        requires
            r2 == dx * dx + 0 * 0,
            num == dx * m * m * fs,
            dx == 2 * d,
            d > 0,
            m > 0,
            fs > 0,
    ;
    lemma_d3_pos(r2);
    let d3 = r2 * (isqrt_spec(r2 as nat) as int);
    assert(f0.x == div_trunc(num, d3));
    assert(f0.y == div_trunc(0 * m * m * fs, d3));
    lemma_div_trunc_basics(num, d3);
    lemma_div_trunc_basics(0, d3);
    assert(f0.x >= 0 && f0.y == 0);
    lemma_div_trunc_basics(f0.x, m);
    lemma_div_trunc_odd(f0.x, m);
    lemma_div_trunc_basics(0, m);
    assert(step_bodies(s)[0] == stepped_body(s[0], f0));
    assert(step_bodies(s)[1] == stepped_body(s[1], f1));

    if 4 * d * d <= m * fs {
        // The exact pull grants each body at least one velocity step: the
        // numerator covers m whole divisors, so the truncated force is at
        // least m, and dividing by the mass leaves at least 1.
        lemma_isqrt_bounds(r2 as nat);
        let r = isqrt_spec(r2 as nat) as int;
        assert((2 * d) * (2 * d) <= r2 && r2 < (2 * d + 1) * (2 * d + 1)) by (nonlinear_arith)
            requires
                r2 == (2 * d) * (2 * d) + 0 * 0,
                d > 0,
        ;
        lemma_isqrt_unique(r2 as nat, (2 * d) as nat);
        assert(r == 2 * d);
        assert(d3 == 8 * d * d * d && m * d3 <= num) by (nonlinear_arith)
            requires
                r2 == (2 * d) * (2 * d) + 0 * 0,
                r == 2 * d,
                d3 == r2 * r,
                num == (2 * d) * m * m * fs,
                4 * d * d <= m * fs,
                d > 0,
                m > 0,
        ;
        lemma_div_trunc_multiple(m, d3);
        lemma_div_trunc_ordered(m * d3, num, d3);
        assert(f0.x >= m);
        lemma_div_trunc_multiple(1, m);
        lemma_div_trunc_ordered(1 * m, f0.x, m);
        assert(div_trunc(f0.x, m) >= 1);
    }
}

/// Position of each body below `k`, weighted by its mass and summed.
pub open spec fn weighted_pos_prefix(s: Seq<BodyModel>, k: int) -> V2
    decreases k,
{
    if k <= 0 {
        V2::zero()
    } else {
        weighted_pos_prefix(s, k - 1).plus(
            V2 { x: s[k - 1].pos.x * s[k - 1].mass, y: s[k - 1].pos.y * s[k - 1].mass },
        )
    }
}

/// Mass-weighted centroid of the configuration: the truncating quotient of
/// the weighted position sum by the total mass.
pub open spec fn centroid(s: Seq<BodyModel>) -> V2
    recommends
        s.len() >= 1,
        bodies_wf(s),
{
    V2 {
        x: div_trunc(weighted_pos_prefix(s, s.len() as int).x, total_mass(s)),
        y: div_trunc(weighted_pos_prefix(s, s.len() as int).y, total_mass(s)),
    }
}

/// The weighted position sum is bounded by the accumulated mass times the
/// position range.
pub proof fn lemma_weighted_pos_bound(s: Seq<BodyModel>, k: int)
    requires
        bodies_wf(s),
        0 <= k <= s.len(),
    ensures
        absi(weighted_pos_prefix(s, k).x) <= mass_prefix(s, k) * POS_BOUND as int,
        absi(weighted_pos_prefix(s, k).y) <= mass_prefix(s, k) * POS_BOUND as int,
    decreases k,
{
    if k == 0 {
    } else {
        lemma_weighted_pos_bound(s, k - 1);
        let b = s[k - 1];
        assert(absi(b.pos.x * b.mass) <= b.mass * POS_BOUND as int && absi(b.pos.y * b.mass)
            <= b.mass * POS_BOUND as int && (mass_prefix(s, k - 1) + b.mass) * POS_BOUND as int
            == mass_prefix(s, k - 1) * POS_BOUND as int + b.mass * POS_BOUND as int)
            by (nonlinear_arith)
            requires
                absi(b.pos.x) <= POS_BOUND as int,
                absi(b.pos.y) <= POS_BOUND as int,
                b.mass > 0,
        ;
    }
}

/// The centroid of a well-formed configuration lies within the position
/// range.
pub proof fn lemma_centroid_in_range(s: Seq<BodyModel>)
    requires
        bodies_wf(s),
        s.len() >= 1,
    ensures
        absi(centroid(s).x) <= POS_BOUND as int,
        absi(centroid(s).y) <= POS_BOUND as int,
{
    let n = s.len() as int;
    lemma_mass_prefix_bounds(s, n);
    lemma_weighted_pos_bound(s, n);
    assert(total_mass(s) * POS_BOUND as int == POS_BOUND as int * total_mass(s)) by (nonlinear_arith);
    lemma_div_trunc_scale_bound(weighted_pos_prefix(s, n).x, total_mass(s), POS_BOUND as int);
    lemma_div_trunc_scale_bound(weighted_pos_prefix(s, n).y, total_mass(s), POS_BOUND as int);
}

} // verus!
