//! The view derivation layer: consumes an engine snapshot each frame and
//! maintains the render instances, the per-body trail histories and the
//! barycenter-centred camera transform.

use crate::model::{
    centroid, lemma_centroid_in_range, lemma_mass_prefix_bounds, lemma_weighted_pos_bound,
    mass_prefix, weighted_pos_prefix, V2, MASS_BOUND, MAX_BODIES, POS_BOUND,
};
use crate::num::{absi, div_trunc_i128};
use crate::render::{BodyRenderVertex, Rgb, Rgba, TrackRenderVertex};
use crate::space::{Space, Vec2i};
use vstd::prelude::*;

verus! {

/// The camera frame: a pure translation that recenters the scene on the
/// negated mass-weighted centroid of the latest snapshot.
#[derive(Copy, Clone, Debug, PartialEq, Eq, Structural)]
pub struct CameraTransform {
    pub dx: i64,
    pub dy: i64,
}

impl View for CameraTransform {
    type V = V2;

    open spec fn view(&self) -> V2 {
        V2 { x: self.dx as int, y: self.dy as int }
    }
}

/// The trail vertex recording position `p`.
pub open spec fn track_point(p: V2) -> TrackRenderVertex {
    TrackRenderVertex { pos: Vec2i { x: p.x as i64, y: p.y as i64 } }
}

/// The view derivation layer: one render instance and one trail per body,
/// the current camera transform, and a frame heartbeat counter.
pub struct SpaceView {
    instances: Vec<BodyRenderVertex>,
    tracks: Vec<Vec<TrackRenderVertex>>,
    camera: CameraTransform,
    update_cnt: u64,
    history_len: Ghost<nat>,
}

impl SpaceView {
    /// The render instances, index-matched with the bodies.
    pub closed spec fn instances_model(self) -> Seq<BodyRenderVertex> {
        self.instances@
    }

    /// The trail histories, index-matched with the bodies.
    pub closed spec fn tracks_model(self) -> Seq<Seq<TrackRenderVertex>> {
        Seq::new(self.tracks@.len(), |i: int| self.tracks@[i]@)
    }

    /// The camera translation.
    pub closed spec fn camera_model(self) -> V2 {
        self.camera@
    }

    /// The frame heartbeat counter, wrapping on overflow.
    pub closed spec fn update_count(self) -> u64 {
        self.update_cnt
    }

    /// How many snapshots this view has consumed.
    pub closed spec fn history(self) -> nat {
        self.history_len@
    }

    /// Body count fixed at construction.
    pub open spec fn body_count(self) -> nat {
        self.instances_model().len()
    }

    /// View invariant: one instance and one trail per body, and every
    /// trail holds exactly one entry per consumed snapshot.
    pub open spec fn wf(self) -> bool {
        &&& self.tracks_model().len() == self.body_count()
        &&& forall|i: int|
            0 <= i < self.body_count() ==> (#[trigger] self.tracks_model()[i]).len()
                == self.history()
    }

    /// A view for as many bodies as there are colors: instances at the
    /// origin carrying the given colors at full opacity, empty trails, and
    /// the identity camera.
    pub fn new(colors: &Vec<Rgb>) -> (v: SpaceView)
        ensures
            v.wf(),
            v.body_count() == colors@.len(),
            v.history() == 0,
            v.update_count() == 0,
            v.camera_model() == V2::zero(),
            forall|i: int|
                0 <= i < colors@.len() ==> #[trigger] v.instances_model()[i] == (BodyRenderVertex {
                    body_pos: Vec2i { x: 0, y: 0 },
                    color: Rgba { r: colors@[i].r, g: colors@[i].g, b: colors@[i].b, a: 255 },
                }),
            forall|i: int| 0 <= i < colors@.len() ==> #[trigger] v.tracks_model()[i] == Seq::<
                TrackRenderVertex,
            >::empty(),
    {
        let n = colors.len();
        let mut instances: Vec<BodyRenderVertex> = Vec::new();
        let mut i: usize = 0;
        while i < n
            invariant
                i <= n,
                n == colors@.len(),
                instances@.len() == i,
                forall|k: int|
                    0 <= k < i ==> #[trigger] instances@[k] == (BodyRenderVertex {
                        body_pos: Vec2i { x: 0, y: 0 },
                        color: Rgba {
                            r: colors@[k].r,
                            g: colors@[k].g,
                            b: colors@[k].b,
                            a: 255,
                        },
                    }),
            decreases n - i,
        {
            instances.push(
                BodyRenderVertex { body_pos: Vec2i::zero(), color: Rgba::opaque(colors[i]) },
            );
            i += 1;
        }
        let mut tracks: Vec<Vec<TrackRenderVertex>> = Vec::new();
        let mut i: usize = 0;
        while i < n
            invariant
                i <= n,
                tracks@.len() == i,
                forall|k: int| 0 <= k < i ==> (#[trigger] tracks@[k])@.len() == 0,
            decreases n - i,
        {
            tracks.push(Vec::new());
            i += 1;
        }
        let v = SpaceView {
            instances,
            tracks,
            camera: CameraTransform { dx: 0, dy: 0 },
            update_cnt: 0,
            history_len: Ghost(0),
        };
        proof {
            assert forall|i: int| 0 <= i < colors@.len() implies #[trigger] v.tracks_model()[i]
                == Seq::<TrackRenderVertex>::empty() by {
                assert(v.tracks_model()[i] =~= Seq::<TrackRenderVertex>::empty());
            }
        }
        v
    }

    /// Consume one engine snapshot: move each instance to its body's
    /// current position, append that position to the body's trail, point
    /// the camera at the mass-weighted centroid, and tick the heartbeat.
    /// The snapshot must hold exactly as many bodies as this view was
    /// built for; anything else is a caller bug, which the precondition
    /// makes unreachable rather than recoverable.
    pub fn update(&mut self, space: &Space)
        requires
            old(self).wf(),
            space.wf(),
            space@.len() == old(self).body_count(),
            space@.len() >= 1,
        ensures
            final(self).wf(),
            final(self).body_count() == old(self).body_count(),
            final(self).history() == old(self).history() + 1,
            forall|i: int|
                0 <= i < space@.len() ==> #[trigger] final(self).instances_model()[i]
                    == (BodyRenderVertex {
                    body_pos: Vec2i { x: space@[i].pos.x as i64, y: space@[i].pos.y as i64 },
                    color: old(self).instances_model()[i].color,
                }),
            forall|i: int|
                0 <= i < space@.len() ==> #[trigger] final(self).tracks_model()[i] == old(
                    self,
                ).tracks_model()[i].push(track_point(space@[i].pos)),
            final(self).camera_model() == centroid(space@).neg(),
            final(self).update_count() == if old(self).update_count() == u64::MAX {
                0u64
            } else {
                (old(self).update_count() + 1) as u64
            },
    {
        let ghost s = space@;
        let n = self.instances.len();
        let mut i: usize = 0;
        while i < n
            invariant
                s == space@,
                space.wf(),
                s.len() == n,
                old(self).wf(),
                n == old(self).body_count(),
                self.instances@.len() == n,
                self.tracks@ == old(self).tracks@,
                self.camera == old(self).camera,
                self.update_cnt == old(self).update_cnt,
                self.history_len == old(self).history_len,
                i <= n,
                forall|k: int|
                    0 <= k < i ==> #[trigger] self.instances@[k] == (BodyRenderVertex {
                        body_pos: Vec2i { x: s[k].pos.x as i64, y: s[k].pos.y as i64 },
                        color: old(self).instances_model()[k].color,
                    }),
                forall|k: int|
                    i <= k < n ==> #[trigger] self.instances@[k] == old(self).instances_model()[k],
            decreases n - i,
        {
            let b = space.body(i);
            let p = b.position();
            let c = self.instances[i];
            self.instances[i] = BodyRenderVertex { body_pos: p, color: c.color };
            i += 1;
        }
        let mut i: usize = 0;
        while i < n
            invariant
                s == space@,
                space.wf(),
                s.len() == n,
                old(self).wf(),
                n == old(self).body_count(),
                self.tracks@.len() == n,
                self.instances@.len() == n,
                forall|k: int|
                    0 <= k < n ==> #[trigger] self.instances@[k] == (BodyRenderVertex {
                        body_pos: Vec2i { x: s[k].pos.x as i64, y: s[k].pos.y as i64 },
                        color: old(self).instances_model()[k].color,
                    }),
                self.camera == old(self).camera,
                self.update_cnt == old(self).update_cnt,
                self.history_len == old(self).history_len,
                i <= n,
                forall|k: int|
                    0 <= k < i ==> #[trigger] self.tracks_model()[k] == old(self).tracks_model()[k]
                        .push(track_point(s[k].pos)),
                forall|k: int|
                    i <= k < n ==> #[trigger] self.tracks_model()[k] == old(self).tracks_model()[k],
            decreases n - i,
        {
            let b = space.body(i);
            let p = b.position();
            let ghost pm = self.tracks_model();
            let ghost pv = self.tracks@;
            self.tracks[i].push(TrackRenderVertex { pos: p });
            proof {
                assert forall|k: int| 0 <= k < n && k != i as int implies #[trigger] self
                    .tracks_model()[k] == pm[k] by {
                    assert(self.tracks@[k] == pv[k]);
                    assert(pm[k] == pv[k]@);
                }
                assert(self.tracks_model()[i as int] == pm[i as int].push(
                    TrackRenderVertex { pos: p },
                ));
                assert(track_point(s[i as int].pos) == (TrackRenderVertex { pos: p }));
            }
            i += 1;
        }
        let ghost tracks_done = self.tracks_model();
        let ghost instances_done = self.instances_model();
        let center = mass_weighted_center(space);
        proof {
            lemma_centroid_in_range(s);
        }
        self.camera = CameraTransform { dx: -center.x, dy: -center.y };
        self.update_cnt = if self.update_cnt == u64::MAX {
            0
        } else {
            self.update_cnt + 1
        };
        self.history_len = Ghost(self.history_len@ + 1);
        proof {
            assert forall|k: int| 0 <= k < s.len() implies #[trigger] self.tracks_model()[k]
                == old(self).tracks_model()[k].push(track_point(s[k].pos)) by {
                assert(self.tracks_model()[k] == tracks_done[k]);
                assert(tracks_done[k] == old(self).tracks_model()[k].push(track_point(s[k].pos)));
            }
            assert forall|k: int| 0 <= k < s.len() implies #[trigger] self.instances_model()[k]
                == (BodyRenderVertex {
                body_pos: Vec2i { x: s[k].pos.x as i64, y: s[k].pos.y as i64 },
                color: old(self).instances_model()[k].color,
            }) by {
                assert(self.instances_model()[k] == instances_done[k]);
            }
            assert forall|k: int| 0 <= k < self.body_count() implies (#[trigger] self
                .tracks_model()[k]).len() == self.history() by {
                assert(old(self).tracks_model()[k].len() == old(self).history());
            }
        }
    }

    /// The render instances of the latest snapshot.
    pub fn instances(&self) -> (r: &Vec<BodyRenderVertex>)
        ensures
            r@ == self.instances_model(),
    {
        &self.instances
    }

    /// The trail histories, one per body.
    pub fn tracks(&self) -> (r: &Vec<Vec<TrackRenderVertex>>)
        ensures
            r@.len() == self.tracks_model().len(),
            forall|i: int|
                0 <= i < r@.len() ==> (#[trigger] r@[i])@ == self.tracks_model()[i],
    {
        &self.tracks
    }

    /// The camera transform of the latest snapshot.
    pub fn view_matrix(&self) -> (r: &CameraTransform)
        ensures
            r@ == self.camera_model(),
    {
        &self.camera
    }
}

/// The mass-weighted centroid of the snapshot, exactly as the model's
/// `centroid` states it.
fn mass_weighted_center(space: &Space) -> (c: Vec2i)
    requires
        space.wf(),
        space@.len() >= 1,
    ensures
        c@ == centroid(space@),
{
    let ghost s = space@;
    let n = space.len();
    let mut wx: i128 = 0;
    let mut wy: i128 = 0;
    let mut tm: i128 = 0;
    let mut i: usize = 0;
    while i < n
        invariant
            s == space@,
            space.wf(),
            s.len() == n,
            i <= n,
            wx as int == weighted_pos_prefix(s, i as int).x,
            wy as int == weighted_pos_prefix(s, i as int).y,
            tm as int == mass_prefix(s, i as int),
        decreases n - i,
    {
        let b = space.body(i);
        let p = b.position();
        let m = b.mass();
        proof {
            assert(crate::model::body_wf(s[i as int]));
            lemma_mass_prefix_bounds(s, i as int);
            vstd::arithmetic::mul::lemma_mul_inequality(
                i as int,
                MAX_BODIES as int,
                MASS_BOUND as int,
            );
            lemma_weighted_pos_bound(s, i as int);
            vstd::arithmetic::mul::lemma_mul_inequality(
                mass_prefix(s, i as int),
                MAX_BODIES as int * MASS_BOUND as int,
                POS_BOUND as int,
            );
            assert(absi(p.x as int * (m as int)) <= MASS_BOUND as int * POS_BOUND as int && absi(
                p.y as int * (m as int),
            ) <= MASS_BOUND as int * POS_BOUND as int) by (nonlinear_arith)
                requires
                    absi(p.x as int) <= POS_BOUND as int,
                    absi(p.y as int) <= POS_BOUND as int,
                    0 < m as int <= MASS_BOUND as int,
            ;
        }
        wx = wx + p.x as i128 * m as i128;
        wy = wy + p.y as i128 * m as i128;
        tm = tm + m as i128;
        i += 1;
    }
    proof {
        lemma_mass_prefix_bounds(s, n as int);
        lemma_centroid_in_range(s);
    }
    let cx = div_trunc_i128(wx, tm);
    let cy = div_trunc_i128(wy, tm);
    Vec2i { x: cx as i64, y: cy as i64 }
}

} // verus!
