//! A small n-body gravity simulation core with a render-ready view layer.
//!
//! The simulation engine advances point masses under mutual Newtonian
//! attraction, one fixed step at a time: pairwise force summation with
//! Newton's third law built in, then semi-implicit Euler integration. The
//! view layer consumes engine snapshots and derives per-body render
//! instances, bounded-window trail histories and a camera transform centred
//! on the mass-weighted barycenter. All state is held in fixed-point
//! integer coordinates (`FP_SCALE` steps per simulation unit, so pulls far
//! smaller than one grid step still act), and every computation is exact
//! and carries a proved contract.

pub mod model;
pub mod num;
pub mod render;
pub mod space;
pub mod view;
