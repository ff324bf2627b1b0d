use nbody::render::{Rgb, MAX_TRACK_LENGTH};
use nbody::space::{Body, Space, Vec2i};
use nbody::view::SpaceView;

fn rgb(r: u8, g: u8, b: u8) -> Rgb {
    Rgb { r, g, b }
}

#[test]
fn view_initial_state() {
    let view = SpaceView::new(&vec![rgb(255, 0, 0), rgb(0, 255, 0)]);
    let instances = view.instances();
    assert_eq!(instances.len(), 2);
    assert_eq!(instances[0].body_pos, Vec2i::new(0, 0));
    assert_eq!(instances[0].color.r, 255);
    assert_eq!(instances[0].color.a, 255);
    assert_eq!(instances[1].color.g, 255);
    let tracks = view.tracks();
    assert_eq!(tracks.len(), 2);
    assert!(tracks[0].is_empty());
    assert!(tracks[1].is_empty());
    assert_eq!(view.view_matrix().dx, 0);
    assert_eq!(view.view_matrix().dy, 0);
}

#[test]
fn camera_tracks_mass_weighted_centroid() {
    let space = Space::new(vec![
        Body::new(Vec2i::new(0, 0), Vec2i::new(0, 0), 1),
        Body::new(Vec2i::new(90, 0), Vec2i::new(0, 0), 2),
    ]);
    let mut view = SpaceView::new(&vec![rgb(1, 2, 3), rgb(4, 5, 6)]);
    view.update(&space);
    assert_eq!(view.view_matrix().dx, -60);
    assert_eq!(view.view_matrix().dy, 0);
}

#[test]
fn camera_centroid_truncates_toward_zero() {
    let space = Space::new(vec![
        Body::new(Vec2i::new(-5, 0), Vec2i::new(0, 0), 1),
        Body::new(Vec2i::new(0, 0), Vec2i::new(0, 0), 1),
    ]);
    let mut view = SpaceView::new(&vec![rgb(0, 0, 0), rgb(0, 0, 0)]);
    view.update(&space);
    assert_eq!(view.view_matrix().dx, 2);
    assert_eq!(view.view_matrix().dy, 0);
}

#[test]
fn instances_follow_latest_snapshot() {
    let mut space = Space::new(vec![Body::new(Vec2i::new(10, 20), Vec2i::new(1, -2), 7)]);
    let mut view = SpaceView::new(&vec![rgb(9, 8, 7)]);
    view.update(&space);
    assert_eq!(view.instances()[0].body_pos, Vec2i::new(10, 20));
    assert_eq!(view.instances()[0].color.r, 9);
    assert!(space.update());
    view.update(&space);
    assert_eq!(view.instances()[0].body_pos, Vec2i::new(11, 18));
    assert_eq!(view.instances()[0].color.b, 7);
}

#[test]
fn trails_grow_by_one_entry_per_update() {
    let mut space = Space::new(vec![Body::new(Vec2i::new(0, 0), Vec2i::new(1, 0), 3)]);
    let mut view = SpaceView::new(&vec![rgb(0, 0, 0)]);
    for k in 0..3u32 {
        view.update(&space);
        assert_eq!(view.tracks()[0].len(), (k + 1) as usize);
        assert!(space.update());
    }
    let track = &view.tracks()[0];
    assert_eq!(track[0].pos, Vec2i::new(0, 0));
    assert_eq!(track[1].pos, Vec2i::new(1, 0));
    assert_eq!(track[2].pos, Vec2i::new(2, 0));
}

#[test]
fn window_shows_only_newest_entries() {
    let mut space = Space::new(vec![Body::new(Vec2i::new(0, 0), Vec2i::new(1, 0), 3)]);
    let mut view = SpaceView::new(&vec![rgb(0, 0, 0)]);
    for _ in 0..MAX_TRACK_LENGTH + 5 {
        view.update(&space);
        assert!(space.update());
    }
    let track = &view.tracks()[0];
    assert_eq!(track.len(), MAX_TRACK_LENGTH + 5);
    let window = nbody::render::track_window(track);
    assert_eq!(window.len(), MAX_TRACK_LENGTH);
    assert_eq!(window[0].pos, Vec2i::new(5, 0));
    assert_eq!(window[MAX_TRACK_LENGTH - 1].pos, Vec2i::new((MAX_TRACK_LENGTH + 4) as i64, 0));
}
