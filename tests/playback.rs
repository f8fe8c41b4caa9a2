use bevy_c3d::asset::C3dAsset;
use bevy_c3d::markers::{spawn_markers, update_markers, FrameCursor, Marker};
use c3dio::{C3d, MarkerPoint};

fn point(x: f32, y: f32, z: f32) -> MarkerPoint {
    MarkerPoint { point: [x, y, z], ..Default::default() }
}

fn asset(labels: &[&str], frames: Vec<Vec<MarkerPoint>>) -> C3dAsset {
    let mut c = C3d::new();
    c.points.labels = labels.iter().map(|s| s.to_string()).collect();
    for row in frames {
        c.points.push_row(row);
    }
    C3dAsset::from_c3d(c)
}

fn three_by_two() -> C3dAsset {
    asset(
        &["a", "b", "c"],
        vec![
            vec![point(0.0, 0.0, 0.0), point(1.0, 0.0, 0.0), point(0.0, 1.0, 0.0)],
            vec![point(0.0, 0.0, 1.0), point(1.0, 0.0, 1.0), point(0.0, 1.0, 1.0)],
        ],
    )
}

#[test]
fn asset_dimensions() {
    let a = three_by_two();
    assert_eq!(a.marker_count(), 3);
    assert_eq!(a.frame_count(), 2);
}

#[test]
fn spawns_one_marker_per_label() {
    let a = three_by_two();
    let m = spawn_markers(true, Some(&a));
    assert_eq!(m.len(), 3);
    let cols: Vec<usize> = m.iter().map(|m: &Marker| m.column).collect();
    assert_eq!(cols, vec![0, 1, 2]);
}

#[test]
fn no_spawn_without_event_or_asset() {
    let a = three_by_two();
    assert!(spawn_markers(false, Some(&a)).is_empty());
    assert!(spawn_markers(true, None).is_empty());
}

#[test]
fn two_frame_scenario() {
    let a = three_by_two();
    let markers = spawn_markers(true, Some(&a));
    let mut cursor = FrameCursor::new();
    let expected = [
        [[0.0, 0.0, 0.0], [0.001, 0.0, 0.0], [0.0, 0.001, 0.0]],
        [[0.0, 0.0, 0.001], [0.001, 0.0, 0.001], [0.0, 0.001, 0.001]],
    ];
    for (tick, cursor_after) in [(0usize, 1usize), (1, 0)] {
        let shown = update_markers(&mut cursor, Some(&a)).unwrap();
        assert_eq!(shown, tick);
        assert_eq!(cursor.frame, cursor_after);
        for m in &markers {
            let p = a.c3d().points[(shown, m.column)].point;
            let scaled = [p[0] / 1000.0, p[1] / 1000.0, p[2] / 1000.0];
            for k in 0..3 {
                assert!((scaled[k] - expected[tick][m.column][k]).abs() < 1e-9);
            }
        }
    }
}

#[test]
fn ten_frames_return_to_start() {
    for start in 0..10usize {
        let mut cursor = FrameCursor { frame: start };
        for _ in 0..10 {
            assert!(cursor.step(10).is_some());
        }
        assert_eq!(cursor.frame, start);
    }
}

#[test]
fn cursor_wraps_after_last_frame() {
    let mut cursor = FrameCursor::new();
    cursor.advance(3);
    assert_eq!(cursor.frame, 1);
    cursor.advance(3);
    assert_eq!(cursor.frame, 2);
    cursor.advance(3);
    assert_eq!(cursor.frame, 0);
}

#[test]
fn cursor_past_end_restarts() {
    let mut cursor = FrameCursor { frame: 7 };
    assert_eq!(cursor.step(4), None);
    assert_eq!(cursor.frame, 0);
    let mut empty = FrameCursor::new();
    assert_eq!(empty.step(0), None);
    assert_eq!(empty.frame, 0);
}

#[test]
fn no_asset_leaves_cursor() {
    let mut cursor = FrameCursor { frame: 4 };
    assert_eq!(update_markers(&mut cursor, None), None);
    assert_eq!(cursor.frame, 4);
}

#[test]
fn each_frame_shown_once_per_cycle() {
    for start in 0..5usize {
        let mut cursor = FrameCursor { frame: start };
        let mut seen = vec![0usize; 5];
        for k in 0..5usize {
            let f = cursor.step(5).unwrap();
            assert_eq!(f, (start + k) % 5);
            seen[f] += 1;
        }
        assert_eq!(seen, vec![1; 5]);
        assert_eq!(cursor.frame, start);
    }
}
