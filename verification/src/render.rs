//! Render-ready data: per-body instance records, trail vertices, the
//! bounded visible window of a trail, and the static index patterns the
//! renderer draws circles and trail lines with.

use crate::space::Vec2i;
use vstd::prelude::*;

verus! {

/// Number of trail entries that are ever visible: older entries are kept
/// but never rendered.
pub const MAX_TRACK_LENGTH: usize = 1000;

/// Number of vertices on the rim of the circle that stands for a body.
pub const CIRCLE_QUALITY: usize = 12;

/// An RGB color, one per body, fixed at view construction.
#[derive(Copy, Clone, Debug, PartialEq, Eq, Structural)]
pub struct Rgb {
    pub r: u8,
    pub g: u8,
    pub b: u8,
}

/// An RGBA color; alpha 255 is fully opaque.
#[derive(Copy, Clone, Debug, PartialEq, Eq, Structural)]
pub struct Rgba {
    pub r: u8,
    pub g: u8,
    pub b: u8,
    pub a: u8,
}

impl Rgba {
    /// The given color at full opacity.
    pub fn opaque(c: Rgb) -> (o: Rgba)
        ensures
            o == (Rgba { r: c.r, g: c.g, b: c.b, a: 255 }),
    {
        Rgba { r: c.r, g: c.g, b: c.b, a: 255 }
    }
}

/// Per-body render payload: current screen position and fixed color.
#[derive(Copy, Clone, Debug, PartialEq, Eq, Structural)]
pub struct BodyRenderVertex {
    pub body_pos: Vec2i,
    pub color: Rgba,
}

/// One trail vertex: a past position of a body.
#[derive(Copy, Clone, Debug, PartialEq, Eq, Structural)]
pub struct TrackRenderVertex {
    pub pos: Vec2i,
}

/// Index where the visible window of a trail of the given length starts.
pub open spec fn window_start(len: nat) -> int {
    if len <= MAX_TRACK_LENGTH {
        0
    } else {
        len - MAX_TRACK_LENGTH
    }
}

/// The visible suffix of a trail: its last `MAX_TRACK_LENGTH` entries, or
/// all of them when there are fewer.
pub open spec fn visible_window(s: Seq<TrackRenderVertex>) -> Seq<TrackRenderVertex> {
    s.subrange(window_start(s.len()), s.len() as int)
}

/// Trail windowing law: the window holds `min(len, MAX_TRACK_LENGTH)`
/// entries, they are the newest entries in their original order, and a
/// trail that has not outgrown the window is visible whole.
pub proof fn lemma_visible_window(s: Seq<TrackRenderVertex>)
    ensures
        visible_window(s).len() == if s.len() <= MAX_TRACK_LENGTH {
            s.len() as int
        } else {
            MAX_TRACK_LENGTH as int
        },
        forall|i: int|
            0 <= i < visible_window(s).len() ==> visible_window(s)[i] == s[window_start(s.len())
                + i],
        s.len() <= MAX_TRACK_LENGTH ==> visible_window(s) == s,
{
    if s.len() <= MAX_TRACK_LENGTH {
        assert(visible_window(s) =~= s);
    }
}

/// Copy of the visible tail of one trail, exactly as the renderer draws it.
pub fn track_window(track: &Vec<TrackRenderVertex>) -> (w: Vec<TrackRenderVertex>)
    ensures
        w@ == visible_window(track@),
{
    let n = track.len();
    let left = if n <= MAX_TRACK_LENGTH {
        0
    } else {
        n - MAX_TRACK_LENGTH
    };
    let mut w: Vec<TrackRenderVertex> = Vec::new();
    let mut i: usize = left;
    while i < n
        invariant
            left == window_start(track@.len()),
            left <= i <= n,
            n == track@.len(),
            w@.len() == i - left,
            forall|k: int| 0 <= k < w@.len() ==> w@[k] == track@[left + k],
        decreases n - i,
    {
        w.push(track[i]);
        i += 1;
    }
    proof {
        assert(w@ =~= visible_window(track@));
    }
    w
}

/// The value at position `j` of the circle index pattern: triangle `t` of
/// the fan joins rim vertex 0 with rim vertices `t + 1` and `t + 2`.
pub open spec fn circle_index_at(j: int) -> u8 {
    if j % 3 == 0 {
        0
    } else if j % 3 == 1 {
        (j / 3 + 1) as u8
    } else {
        (j / 3 + 2) as u8
    }
}

/// Index pattern for the triangle fan that fills a body's circle.
pub fn circle_indices() -> (v: Vec<u8>)
    ensures
        v@.len() == (CIRCLE_QUALITY - 2) * 3,
        forall|j: int| 0 <= j < v@.len() ==> v@[j] == circle_index_at(j),
{
    let mut v: Vec<u8> = Vec::new();
    let mut t: usize = 0;
    while t < CIRCLE_QUALITY - 2
        invariant
            t <= CIRCLE_QUALITY - 2,
            v@.len() == t * 3,
            forall|j: int| 0 <= j < v@.len() ==> v@[j] == circle_index_at(j),
        decreases CIRCLE_QUALITY - 2 - t,
    {
        proof {
            assert((t * 3) % 3 == 0 && (t * 3) / 3 == t && (t * 3 + 1) % 3 == 1 && (t * 3 + 1) / 3
                == t && (t * 3 + 2) % 3 == 2 && (t * 3 + 2) / 3 == t) by (nonlinear_arith);
        }
        v.push(0);
        v.push((t + 1) as u8);
        v.push((t + 2) as u8);
        t += 1;
    }
    v
}

/// The value at position `j` of the trail line index pattern: segment `k`
/// joins trail vertices `k` and `k + 1`.
pub open spec fn track_line_index_at(j: int) -> u16 {
    if j % 2 == 0 {
        (j / 2) as u16
    } else {
        (j / 2 + 1) as u16
    }
}

/// Index pattern for the line segments of a trail: each window position is
/// joined to the next one.
pub fn track_line_indices() -> (v: Vec<u16>)
    ensures
        v@.len() == MAX_TRACK_LENGTH * 2,
        forall|j: int| 0 <= j < v@.len() ==> v@[j] == track_line_index_at(j),
{
    let mut v: Vec<u16> = Vec::new();
    let mut k: usize = 0;
    while k < MAX_TRACK_LENGTH
        invariant
            k <= MAX_TRACK_LENGTH,
            v@.len() == k * 2,
            forall|j: int| 0 <= j < v@.len() ==> v@[j] == track_line_index_at(j),
        decreases MAX_TRACK_LENGTH - k,
    {
        proof {
            assert((k * 2) % 2 == 0 && (k * 2) / 2 == k && (k * 2 + 1) % 2 == 1 && (k * 2 + 1) / 2
                == k) by (nonlinear_arith);
        }
        v.push(k as u16);
        v.push((k + 1) as u16);
        k += 1;
    }
    v
}

} // verus!
