use nbody::model::POS_BOUND;
use nbody::num::{div_trunc_i128, isqrt_u128};
use nbody::space::{Body, Space, Vec2i};

fn body(px: i64, py: i64, vx: i64, vy: i64, m: i64) -> Body {
    Body::new(Vec2i::new(px, py), Vec2i::new(vx, vy), m)
}

#[test]
fn single_body_stasis() {
    let mut space = Space::new(vec![body(100, 50, 3, -4, 10)]);
    let ok = space.update();
    assert!(ok);
    let b = space.body(0);
    assert_eq!(b.velocity(), Vec2i::new(3, -4));
    assert_eq!(b.position(), Vec2i::new(103, 46));
    assert_eq!(b.mass(), 10);
}

#[test]
fn two_body_symmetric_attraction() {
    // One simulation unit of mass at one simulation unit of distance from
    // the midpoint: the exact pull is m / (2d)^2 = 1/4, so each body gains a
    // quarter of a unit of velocity (FP_SCALE / 4 = 1024 fixed-point steps).
    let d = nbody::model::FP_SCALE;
    let m = nbody::model::FP_SCALE;
    let mut space = Space::new(vec![body(-d, 0, 0, 0, m), body(d, 0, 0, 0, m)]);
    let ok = space.update();
    assert!(ok);
    let b0 = space.body(0);
    let b1 = space.body(1);
    assert_eq!(b0.velocity(), Vec2i::new(1024, 0));
    assert_eq!(b1.velocity(), Vec2i::new(-1024, 0));
    assert_eq!(b0.position(), Vec2i::new(-3072, 0));
    assert_eq!(b1.position(), Vec2i::new(3072, 0));
}

#[test]
fn close_pair_feels_strong_pull() {
    // Two minimal masses one grid step from the midpoint: even they attract.
    let mut space = Space::new(vec![body(-1, 0, 0, 0, 1), body(1, 0, 0, 0, 1)]);
    let ok = space.update();
    assert!(ok);
    assert_eq!(space.body(0).velocity(), Vec2i::new(4194304, 0));
    assert_eq!(space.body(1).velocity(), Vec2i::new(-4194304, 0));
    assert_eq!(space.body(0).position(), Vec2i::new(4194303, 0));
    assert_eq!(space.body(1).position(), Vec2i::new(-4194303, 0));
}

#[test]
fn sub_quantum_pull_truncates_to_zero() {
    // A pull below one fixed-point velocity step per tick is lost to the
    // truncating division and the bodies stay put.
    let mut space = Space::new(vec![body(-100000, 0, 0, 0, 1), body(100000, 0, 0, 0, 1)]);
    let ok = space.update();
    assert!(ok);
    assert_eq!(space.body(0).position(), Vec2i::new(-100000, 0));
    assert_eq!(space.body(0).velocity(), Vec2i::new(0, 0));
    assert_eq!(space.body(1).position(), Vec2i::new(100000, 0));
}

#[test]
fn three_body_step_exact() {
    let mut space = Space::new(vec![
        body(100, 50, 2, -1, 150000),
        body(-50, -50, 0, 3, 15000),
        body(50, -50, 0, 3, 5000),
    ]);
    let ok = space.update();
    assert!(ok);
    assert_eq!(space.body(0).position(), Vec2i::new(-9475595, -10347644));
    assert_eq!(space.body(0).velocity(), Vec2i::new(-9475695, -10347694));
    assert_eq!(space.body(1).position(), Vec2i::new(72916311, 43018455));
    assert_eq!(space.body(1).velocity(), Vec2i::new(72916361, 43018505));
    assert_eq!(space.body(2).position(), Vec2i::new(65521880, 181375261));
    assert_eq!(space.body(2).velocity(), Vec2i::new(65521830, 181375311));
}

#[test]
fn momentum_drift_stays_under_total_mass() {
    let bodies = vec![
        body(100, 50, 2, -1, 150000),
        body(-50, -50, 0, 3, 15000),
        body(50, -50, 0, 3, 5000),
    ];
    let total_mass: i128 = bodies.iter().map(|b| b.mass() as i128).sum();
    let momentum = |s: &Space| -> (i128, i128) {
        let mut px: i128 = 0;
        let mut py: i128 = 0;
        for i in 0..s.len() {
            let b = s.body(i);
            px += b.mass() as i128 * b.velocity().x as i128;
            py += b.mass() as i128 * b.velocity().y as i128;
        }
        (px, py)
    };
    let mut space = Space::new(bodies);
    let before = momentum(&space);
    assert!(space.update());
    let after = momentum(&space);
    assert!((after.0 - before.0).abs() < total_mass);
    assert!((after.1 - before.1).abs() < total_mass);
}

#[test]
fn coincident_bodies_exert_no_force() {
    let mut space = Space::new(vec![body(7, -3, 1, 0, 5), body(7, -3, 0, 2, 9)]);
    let ok = space.update();
    assert!(ok);
    assert_eq!(space.body(0).velocity(), Vec2i::new(1, 0));
    assert_eq!(space.body(0).position(), Vec2i::new(8, -3));
    assert_eq!(space.body(1).velocity(), Vec2i::new(0, 2));
    assert_eq!(space.body(1).position(), Vec2i::new(7, -1));
}

#[test]
fn update_rejects_step_out_of_range() {
    let mut space = Space::new(vec![body(POS_BOUND, 0, 1, 0, 10)]);
    let ok = space.update();
    assert!(!ok);
    let b = space.body(0);
    assert_eq!(b.position(), Vec2i::new(POS_BOUND, 0));
    assert_eq!(b.velocity(), Vec2i::new(1, 0));
}

#[test]
fn empty_space_steps() {
    let mut space = Space::new(Vec::new());
    assert!(space.update());
    assert_eq!(space.len(), 0);
}

#[test]
fn isqrt_brackets_the_square_root() {
    assert_eq!(isqrt_u128(0), 0);
    assert_eq!(isqrt_u128(1), 1);
    assert_eq!(isqrt_u128(3), 1);
    assert_eq!(isqrt_u128(4), 2);
    assert_eq!(isqrt_u128(40000), 200);
    assert_eq!(isqrt_u128(40001), 200);
}

#[test]
fn division_truncates_toward_zero() {
    assert_eq!(div_trunc_i128(7, 2), 3);
    assert_eq!(div_trunc_i128(-7, 2), -3);
    assert_eq!(div_trunc_i128(-6, 3), -2);
    assert_eq!(div_trunc_i128(0, 5), 0);
}
