use bevy_c3d::camera::{drain_wheel, select_gesture, Gesture, OrbitCamera};

#[test]
fn gesture_priority() {
    assert!(select_gesture(true, true, 3) == Gesture::Orbiting);
    assert!(select_gesture(false, true, 3) == Gesture::Panning);
    assert!(select_gesture(false, false, -2) == Gesture::Zooming);
    assert!(select_gesture(false, false, 0) == Gesture::Idle);
}

// Up axis of a camera pitched by `degrees` from level has vertical component cos(pitch).
fn up_non_positive(degrees: f64) -> bool {
    degrees.to_radians().cos() <= 0.0
}

#[test]
fn yaw_inverts_only_when_upside_down() {
    let mut level = OrbitCamera::new(1000, 10);
    level.track_orbit_edge(false, true, up_non_positive(0.0));
    assert_eq!(level.yaw_sign(), 1);
    let mut flipped = OrbitCamera::new(1000, 10);
    flipped.track_orbit_edge(false, true, up_non_positive(100.0));
    assert!(flipped.upside_down);
    assert_eq!(flipped.yaw_sign(), -1);
}

#[test]
fn upside_down_only_changes_on_edges() {
    let mut cam = OrbitCamera::new(1000, 10);
    cam.track_orbit_edge(false, true, true);
    assert!(cam.upside_down);
    // Still orbiting: the flag is kept even though the camera turned upright.
    cam.track_orbit_edge(true, true, false);
    assert!(cam.upside_down);
    cam.track_orbit_edge(true, false, false);
    assert!(!cam.upside_down);
    cam.track_orbit_edge(false, false, true);
    assert!(!cam.upside_down);
}

#[test]
fn zoom_is_proportional() {
    let mut cam = OrbitCamera::new(100_000, 50);
    cam.zoom(1);
    assert_eq!(cam.radius, 80_000);
    cam.zoom(-1);
    assert_eq!(cam.radius, 96_000);
    cam.zoom(0);
    assert_eq!(cam.radius, 96_000);
}

#[test]
fn zoom_stops_at_floor() {
    // Radius 0.1 and floor 0.05, in thousandths.
    let mut cam = OrbitCamera::new(100, 50);
    for _ in 0..50 {
        cam.zoom(4);
        assert!(cam.radius >= 50);
    }
    assert_eq!(cam.radius, 50);
    cam.zoom(i64::MAX);
    assert_eq!(cam.radius, 50);
}

#[test]
fn zoom_out_saturates() {
    let mut cam = OrbitCamera::new(u64::MAX / 2, 1);
    cam.zoom(i64::MIN);
    assert_eq!(cam.radius, u64::MAX);
}

#[test]
fn tick_zooms_only_when_zooming() {
    let mut cam = OrbitCamera::new(1000, 10);
    assert!(cam.tick(false, false, true, 1, false) == Gesture::Panning);
    assert_eq!(cam.radius, 1000);
    assert!(cam.tick(false, false, false, 1, false) == Gesture::Zooming);
    assert_eq!(cam.radius, 800);
    assert!(cam.tick(false, true, false, 1, true) == Gesture::Orbiting);
    assert_eq!(cam.radius, 800);
    assert!(cam.upside_down);
    assert!(cam.tick(true, true, false, 0, false) == Gesture::Orbiting);
    assert!(cam.upside_down);
    assert!(cam.tick(true, false, false, 0, false) == Gesture::Idle);
    assert!(!cam.upside_down);
}

#[test]
fn wheel_deltas_are_drained() {
    let mut deltas = vec![1i64, 2, -5];
    assert_eq!(drain_wheel(&mut deltas), -2);
    assert!(deltas.is_empty());
    assert_eq!(drain_wheel(&mut deltas), 0);
    let mut big = vec![i64::MAX, i64::MAX];
    assert_eq!(drain_wheel(&mut big), i64::MAX);
    let mut small = vec![i64::MIN, -1];
    assert_eq!(drain_wheel(&mut small), i64::MIN);
}

#[test]
fn constant_zoom_in_converges_to_floor() {
    // Radius 0.1 and floor 0.05, in thousandths, with each delta from 1 to 4.
    for wheel in 1..5i64 {
        let mut cam = OrbitCamera::new(100, 50);
        let mut previous = cam.radius;
        for _ in 0..50 {
            cam.zoom(wheel);
            assert!(cam.radius <= previous);
            assert!(cam.radius >= 50);
            previous = cam.radius;
        }
        assert_eq!(cam.radius, 50);
    }
    let mut cam = OrbitCamera::new(64, 5);
    cam.zoom(1);
    assert_eq!(cam.radius, 52);
}
