use nbody::render::{
    circle_indices, track_line_indices, track_window, Rgb, Rgba, TrackRenderVertex,
    CIRCLE_QUALITY, MAX_TRACK_LENGTH,
};
use nbody::space::Vec2i;

#[test]
fn circle_index_fan_pattern() {
    let v = circle_indices();
    assert_eq!(v.len(), (CIRCLE_QUALITY - 2) * 3);
    assert_eq!(&v[0..6], &[0, 1, 2, 0, 2, 3]);
    assert_eq!(&v[27..30], &[0, 10, 11]);
    for t in 0..CIRCLE_QUALITY - 2 {
        assert_eq!(v[t * 3], 0);
        assert_eq!(v[t * 3 + 1] as usize, t + 1);
        assert_eq!(v[t * 3 + 2] as usize, t + 2);
    }
}

#[test]
fn track_line_segment_pattern() {
    let v = track_line_indices();
    assert_eq!(v.len(), MAX_TRACK_LENGTH * 2);
    assert_eq!(v[0], 0);
    assert_eq!(v[1], 1);
    assert_eq!(v[2], 1);
    assert_eq!(v[3], 2);
    assert_eq!(v[1998], 999);
    assert_eq!(v[1999], 1000);
}

#[test]
fn short_trail_is_visible_whole() {
    let track: Vec<TrackRenderVertex> = (0..3)
        .map(|i: i64| TrackRenderVertex { pos: Vec2i::new(i, -i) })
        .collect();
    let w = track_window(&track);
    assert_eq!(w.len(), 3);
    for i in 0..3usize {
        assert_eq!(w[i].pos, track[i].pos);
    }
    let empty: Vec<TrackRenderVertex> = Vec::new();
    assert!(track_window(&empty).is_empty());
}

#[test]
fn trail_exactly_at_window_size_is_whole() {
    let track: Vec<TrackRenderVertex> = (0..MAX_TRACK_LENGTH as i64)
        .map(|i| TrackRenderVertex { pos: Vec2i::new(i, 0) })
        .collect();
    let w = track_window(&track);
    assert_eq!(w.len(), MAX_TRACK_LENGTH);
    assert_eq!(w[0].pos, Vec2i::new(0, 0));
}

#[test]
fn opaque_color_has_full_alpha() {
    let o = Rgba::opaque(Rgb { r: 1, g: 2, b: 3 });
    assert_eq!(o, Rgba { r: 1, g: 2, b: 3, a: 255 });
}
