//! The simulation engine: bodies under mutual gravitational attraction,
//! advanced one fixed step at a time by pairwise force summation and
//! semi-implicit Euler integration, all in exact fixed-point arithmetic.

use crate::model::{
    bodies_wf, body_fits, body_wf, force_prefix, lemma_force_prefix_bound, lemma_d3_pos,
    lemma_pair_force_antisym, lemma_pair_force_bound, net_force, pair_force, step_bodies,
    step_fits, stepped_body, BodyModel, V2, FORCE_SCALE, MASS_BOUND, MAX_BODIES, PAIR_FORCE_BOUND,
    POS_BOUND,
};
use crate::num::{absi, div_trunc_i128, isqrt_spec, isqrt_u128};
use vstd::prelude::*;

verus! {

/// A two-dimensional fixed-point vector.
#[derive(Copy, Clone, Debug, PartialEq, Eq, Structural)]
pub struct Vec2i {
    pub x: i64,
    pub y: i64,
}

impl View for Vec2i {
    type V = V2;

    open spec fn view(&self) -> V2 {
        V2 { x: self.x as int, y: self.y as int }
    }
}

impl Vec2i {
    /// The origin.
    pub fn zero() -> (v: Vec2i)
        ensures
            v@ == V2::zero(),
    {
        Vec2i { x: 0, y: 0 }
    }

    /// The vector with the given coordinates.
    pub fn new(x: i64, y: i64) -> (v: Vec2i)
        ensures
            v@ == (V2 { x: x as int, y: y as int }),
    {
        Vec2i { x, y }
    }
}

/// An accumulated force vector. Wider than the body coordinates because up
/// to `MAX_BODIES` pairwise forces are summed into one of these.
#[derive(Copy, Clone)]
pub struct Force2 {
    pub x: i128,
    pub y: i128,
}

impl View for Force2 {
    type V = V2;

    open spec fn view(&self) -> V2 {
        V2 { x: self.x as int, y: self.y as int }
    }
}

/// A simulated point mass: position, velocity and mass, owned by the
/// engine and fixed in identity for the whole run.
#[derive(Copy, Clone)]
pub struct Body {
    position: Vec2i,
    velocity: Vec2i,
    mass: i64,
}

impl View for Body {
    type V = BodyModel;

    closed spec fn view(&self) -> BodyModel {
        BodyModel { pos: self.position@, vel: self.velocity@, mass: self.mass as int }
    }
}

impl Body {
    /// A body with the given state. The position must lie in the
    /// fixed-point range and the mass must be positive and bounded: a
    /// non-positive mass would make the integration meaningless.
    pub fn new(position: Vec2i, velocity: Vec2i, mass: i64) -> (b: Body)
        requires
            body_wf(BodyModel { pos: position@, vel: velocity@, mass: mass as int }),
        ensures
            b@ == (BodyModel { pos: position@, vel: velocity@, mass: mass as int }),
    {
        Body { position, velocity, mass }
    }

    /// Current position.
    pub fn position(&self) -> (p: Vec2i)
        ensures
            p@ == self@.pos,
    {
        self.position
    }

    /// Current velocity.
    pub fn velocity(&self) -> (v: Vec2i)
        ensures
            v@ == self@.vel,
    {
        self.velocity
    }

    /// Mass.
    pub fn mass(&self) -> (m: i64)
        ensures
            m as int == self@.mass,
    {
        self.mass
    }
}

/// The simulation engine: an ordered set of bodies and a parallel force
/// accumulator of the same length, rebuilt from scratch on every step.
pub struct Space {
    bodies: Vec<Body>,
    forces: Vec<Force2>,
}

impl View for Space {
    type V = Seq<BodyModel>;

    closed spec fn view(&self) -> Seq<BodyModel> {
        Seq::new(self.bodies@.len(), |i: int| self.bodies@[i]@)
    }
}

impl Space {
    /// The accumulated force vectors, index-matched with the bodies.
    pub closed spec fn forces_model(self) -> Seq<V2> {
        Seq::new(self.forces@.len(), |i: int| self.forces@[i]@)
    }

    /// Engine invariant: a well-formed configuration, and one force
    /// accumulator entry per body.
    pub open spec fn wf(self) -> bool {
        &&& bodies_wf(self@)
        &&& self.forces_model().len() == self@.len()
    }

    /// An engine over the given bodies, with the force accumulator zeroed.
    pub fn new(bodies: Vec<Body>) -> (s: Space)
        requires
            bodies@.len() <= MAX_BODIES,
            forall|i: int| 0 <= i < bodies@.len() ==> body_wf(#[trigger] bodies@[i]@),
        ensures
            s.wf(),
            s@.len() == bodies@.len(),
            forall|i: int| 0 <= i < bodies@.len() ==> s@[i] == bodies@[i]@,
            forall|i: int| 0 <= i < bodies@.len() ==> s.forces_model()[i] == V2::zero(),
    {
        let n = bodies.len();
        let mut forces: Vec<Force2> = Vec::new();
        while forces.len() < n
            invariant
                forces@.len() <= n,
                forall|i: int|
                    0 <= i < forces@.len() ==> (#[trigger] forces@[i])@ == V2::zero(),
            decreases n - forces@.len(),
        {
            forces.push(Force2 { x: 0, y: 0 });
        }
        Space { bodies, forces }
    }

    /// How many bodies the engine holds.
    pub fn len(&self) -> (n: usize)
        ensures
            n == self@.len(),
    {
        self.bodies.len()
    }

    /// The body at index `i`.
    pub fn body(&self, i: usize) -> (b: Body)
        requires
            i < self@.len(),
        ensures
            b@ == self@[i as int],
    {
        self.bodies[i]
    }

    /// Advance the simulation one step: recompute every pairwise force,
    /// then integrate each body with semi-implicit Euler (velocity first,
    /// position from the updated velocity). If some stepped body would
    /// leave the fixed-point range, no body is changed and `false` comes
    /// back; the forces still describe the configuration that was given.
    pub fn update(&mut self) -> (ok: bool)
        requires
            old(self).wf(),
        ensures
            final(self).wf(),
            final(self)@.len() == old(self)@.len(),
            ok == step_fits(old(self)@),
            ok ==> final(self)@ == step_bodies(old(self)@),
            !ok ==> final(self)@ == old(self)@,
            forall|i: int|
                0 <= i < old(self)@.len() ==> final(self).forces_model()[i] == net_force(
                    old(self)@,
                    i,
                ),
    {
        let ghost s0 = self@;
        self.update_forces();
        let n = self.bodies.len();
        let mut stepped: Vec<Body> = Vec::new();
        let mut i: usize = 0;
        while i < n
            invariant
                s0 == old(self)@,
                self.wf(),
                self@ == s0,
                n == s0.len(),
                self.forces_model().len() == n,
                forall|k: int| 0 <= k < n ==> self.forces_model()[k] == net_force(s0, k),
                i <= n,
                stepped@.len() == i,
                forall|k: int| 0 <= k < i ==> body_fits(#[trigger] step_bodies(s0)[k]),
                forall|k: int|
                    0 <= k < i ==> (#[trigger] stepped@[k])@ == step_bodies(s0)[k],
            decreases n - i,
        {
            let b = self.bodies[i];
            let f = self.forces[i];
            proof {
                assert(b@ == s0[i as int]);
                assert(f@ == net_force(s0, i as int));
                lemma_force_prefix_bound(s0, i as int, s0.len() as int);
                vstd::arithmetic::mul::lemma_mul_inequality(
                    s0.len() as int,
                    MAX_BODIES as int,
                    PAIR_FORCE_BOUND as int,
                );
            }
            let dvx = div_trunc_i128(f.x, b.mass as i128);
            let dvy = div_trunc_i128(f.y, b.mass as i128);
            let vx = b.velocity.x as i128 + dvx;
            let vy = b.velocity.y as i128 + dvy;
            let px = b.position.x as i128 + vx;
            let py = b.position.y as i128 + vy;
            proof {
                assert(step_bodies(s0)[i as int] == stepped_body(s0[i as int], f@));
            }
            if vx < i64::MIN as i128 || vx > i64::MAX as i128 || vy < i64::MIN as i128 || vy
                > i64::MAX as i128 || px < -(POS_BOUND as i128) || px > POS_BOUND as i128 || py < -(
            POS_BOUND as i128) || py > POS_BOUND as i128 {
                proof {
                    assert(!body_fits(step_bodies(s0)[i as int]));
                }
                return false;
            }
            let nb = Body {
                position: Vec2i { x: px as i64, y: py as i64 },
                velocity: Vec2i { x: vx as i64, y: vy as i64 },
                mass: b.mass,
            };
            proof {
                assert(nb@ == step_bodies(s0)[i as int]);
                assert(body_fits(step_bodies(s0)[i as int]));
            }
            stepped.push(nb);
            i += 1;
        }
        self.bodies = stepped;
        proof {
            assert(self@ =~= step_bodies(s0));
        }
        true
    }

    /// Rebuild the force accumulator: zero it, then add the pull of each
    /// unordered pair to one side and subtract it from the other, so the
    /// configuration's net forces come out exactly.
    fn update_forces(&mut self)
        requires
            old(self).wf(),
        ensures
            final(self).wf(),
            final(self)@ == old(self)@,
            final(self).forces_model().len() == final(self)@.len(),
            forall|i: int|
                0 <= i < final(self)@.len() ==> final(self).forces_model()[i] == net_force(
                    final(self)@,
                    i,
                ),
    {
        let ghost s = self@;
        let n = self.bodies.len();
        let mut i: usize = 0;
        while i < n
            invariant
                s == old(self)@,
                self.wf(),
                self@ == s,
                n == s.len(),
                self.forces_model().len() == n,
                i <= n,
                forall|k: int|
                    0 <= k < i ==> #[trigger] self.forces_model()[k] == V2::zero(),
            decreases n - i,
        {
            let ghost pm = self.forces_model();
            self.forces[i] = Force2 { x: 0, y: 0 };
            proof {
                assert forall|k: int| 0 <= k < i + 1 implies #[trigger] self.forces_model()[k]
                    == V2::zero() by {
                    if k < i as int {
                        assert(self.forces_model()[k] == pm[k]);
                        assert(pm[k] == V2::zero());
                    } else {
                        assert(self.forces_model()[k] == (Force2 { x: 0, y: 0 })@);
                    }
                }
            }
            i += 1;
        }
        proof {
            assert forall|k: int| 0 <= k < n implies #[trigger] self.forces_model()[k]
                == force_prefix(s, k, 0) by {
                assert(self.forces_model()[k] == V2::zero());
            }
        }
        let mut i: usize = 0;
        while i < n
            invariant
                s == old(self)@,
                self.wf(),
                self@ == s,
                n == s.len(),
                self.forces_model().len() == n,
                i <= n,
                forall|k: int|
                    0 <= k < i ==> #[trigger] self.forces_model()[k] == force_prefix(s, k, n as int),
                forall|k: int|
                    i <= k < n ==> #[trigger] self.forces_model()[k] == force_prefix(s, k, i as int),
            decreases n - i,
        {
            let mut j: usize = i + 1;
            proof {
                assert(self.forces_model()[i as int] == force_prefix(s, i as int, i as int));
                assert(force_prefix(s, i as int, i + 1) == force_prefix(s, i as int, i as int));
            }
            while j < n
                invariant
                    s == old(self)@,
                    self.wf(),
                    self@ == s,
                    n == s.len(),
                    self.forces_model().len() == n,
                    i < n,
                    i + 1 <= j <= n,
                    forall|k: int|
                        0 <= k < i ==> #[trigger] self.forces_model()[k] == force_prefix(
                            s,
                            k,
                            n as int,
                        ),
                    self.forces_model()[i as int] == force_prefix(s, i as int, j as int),
                    forall|k: int|
                        i < k < j ==> #[trigger] self.forces_model()[k] == force_prefix(
                            s,
                            k,
                            i + 1,
                        ),
                    forall|k: int|
                        j <= k < n ==> #[trigger] self.forces_model()[k] == force_prefix(
                            s,
                            k,
                            i as int,
                        ),
                decreases n - j,
            {
                let bi = self.bodies[i];
                let bj = self.bodies[j];
                proof {
                    assert(bi@ == s[i as int] && bj@ == s[j as int]);
                    assert(body_wf(s[i as int]) && body_wf(s[j as int]));
                }
                let f = gravity_force(&bi, &bj);
                let fi = self.forces[i];
                let fj = self.forces[j];
                proof {
                    assert(fi@ == force_prefix(s, i as int, j as int));
                    assert(self.forces_model()[j as int] == force_prefix(s, j as int, i as int));
                    assert(fj@ == force_prefix(s, j as int, i as int));
                    lemma_pair_force_bound(s[i as int], s[j as int]);
                    lemma_pair_force_antisym(s[i as int], s[j as int]);
                    lemma_force_prefix_bound(s, i as int, j as int);
                    lemma_force_prefix_bound(s, j as int, i as int);
                    vstd::arithmetic::mul::lemma_mul_inequality(
                        j as int,
                        MAX_BODIES as int,
                        PAIR_FORCE_BOUND as int,
                    );
                    vstd::arithmetic::mul::lemma_mul_inequality(
                        i as int,
                        MAX_BODIES as int,
                        PAIR_FORCE_BOUND as int,
                    );
                }
                let ghost pm = self.forces_model();
                let ghost pv = self.forces@;
                self.forces[i] = Force2 { x: fi.x + f.x, y: fi.y + f.y };
                self.forces[j] = Force2 { x: fj.x - f.x, y: fj.y - f.y };
                proof {
                    assert forall|k: int|
                        0 <= k < n && k != i as int && k != j as int implies #[trigger] self
                        .forces_model()[k] == pm[k] by {
                        assert(self.forces@[k] == pv[k]);
                        assert(pm[k] == pv[k]@);
                    }
                    assert(self.forces_model()[i as int] == force_prefix(s, i as int, j as int)
                        .plus(pair_force(s[i as int], s[j as int])));
                    assert(self.forces_model()[i as int] == force_prefix(s, i as int, j + 1));
                    assert(force_prefix(s, j as int, i + 1) == force_prefix(s, j as int, i as int)
                        .plus(pair_force(s[j as int], s[i as int])));
                    assert(self.forces_model()[j as int] == force_prefix(s, j as int, i + 1));
                }
                j += 1;
            }
            proof {
                assert(self.forces_model()[i as int] == force_prefix(s, i as int, n as int));
            }
            i += 1;
        }
    }
}

/// Gravitational force of `body_2` on `body_1`, computed exactly as the
/// model's `pair_force` states it: the displacement, scaled by the mass
/// product and divided by the cubed distance, with truncating division and
/// an integer square root.
fn gravity_force(body_1: &Body, body_2: &Body) -> (f: Force2)
    requires
        body_wf(body_1@),
        body_wf(body_2@),
    ensures
        f@ == pair_force(body_1@, body_2@),
{
    let dx: i128 = body_2.position.x as i128 - body_1.position.x as i128;
    let dy: i128 = body_2.position.y as i128 - body_1.position.y as i128;
    proof {
        assert(dx * dx + dy * dy <= 0x8_0000_0000_0000_0000_0000i128 && dx * dx >= 0 && dy * dy
            >= 0) by (nonlinear_arith)
            requires
                absi(dx as int) <= 2 * POS_BOUND as int,
                absi(dy as int) <= 2 * POS_BOUND as int,
                POS_BOUND == 0x100_0000_0000i64,
        ;
    }
    let r2: i128 = dx * dx + dy * dy;
    if r2 == 0 {
        Force2 { x: 0, y: 0 }
    } else {
        let r_u: u128 = isqrt_u128(r2 as u128);
        proof {
            assert(r2 as u128 as nat == r2 as nat);
            assert(r_u * r_u <= r2 as u128);
            if r_u > 0x400_0000_0000u128 {
                vstd::arithmetic::mul::lemma_mul_inequality(
                    0x400_0000_0001,
                    r_u as int,
                    r_u as int,
                );
                vstd::arithmetic::mul::lemma_mul_inequality(
                    0x400_0000_0001,
                    r_u as int,
                    0x400_0000_0001,
                );
                vstd::arithmetic::mul::lemma_mul_is_commutative(r_u as int, 0x400_0000_0001);
                assert(0x400_0000_0001i128 * 0x400_0000_0001i128
                    > 0x8_0000_0000_0000_0000_0000i128) by (nonlinear_arith);
                assert(false);
            }
            assert(r_u <= 0x400_0000_0000u128);
        }
        let r: i128 = r_u as i128;
        proof {
            lemma_d3_pos(r2 as int);
            assert(r as int == isqrt_spec(r2 as nat) as int);
            assert(r >= 1);
            assert(r2 * r <= 0x2000_0000_0000_0000_0000_0000_0000_0000i128) by (nonlinear_arith)
                requires
                    0 < r2 <= 0x8_0000_0000_0000_0000_0000i128,
                    0 < r <= 0x400_0000_0000i128,
            ;
        }
        let d3: i128 = r2 * r;
        let m1: i128 = body_1.mass as i128;
        let m2: i128 = body_2.mass as i128;
        proof {
            assert(absi(dx * m1) <= 0x80_0000_0000_0000_0000 && absi(dy * m1)
                <= 0x80_0000_0000_0000_0000 && absi(dx * m1 * m2)
                <= 0x20_0000_0000_0000_0000_0000_0000 && absi(dy * m1 * m2)
                <= 0x20_0000_0000_0000_0000_0000_0000 && absi(dx * m1 * m2 * FORCE_SCALE)
                <= 0x2000_0000_0000_0000_0000_0000_0000_0000 && absi(dy * m1 * m2 * FORCE_SCALE)
                <= 0x2000_0000_0000_0000_0000_0000_0000_0000) by (nonlinear_arith)
                requires
                    absi(dx as int) <= 2 * POS_BOUND as int,
                    absi(dy as int) <= 2 * POS_BOUND as int,
                    0 < m1 <= MASS_BOUND as int,
                    0 < m2 <= MASS_BOUND as int,
                    POS_BOUND == 0x100_0000_0000i64,
                    MASS_BOUND == 0x4000_0000i64,
                    FORCE_SCALE == 4096 * 4096,
            ;
        }
        let num_x: i128 = dx * m1 * m2 * FORCE_SCALE;
        let num_y: i128 = dy * m1 * m2 * FORCE_SCALE;
        Force2 { x: div_trunc_i128(num_x, d3), y: div_trunc_i128(num_y, d3) }
    }
}

} // verus!
