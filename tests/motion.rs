use rand::rngs::StdRng;
use rand::SeedableRng;
use runner_core::scene::{standard_plane_settings, CAMERA_ROTATION_SPEED, CAMERA_START_ZOOM};
use runner_core::{
    CameraController, ConfigError, OrbitStep, PlaneMovement, PlaneSettings, PointerMotion, Position,
};

#[test]
fn zoom_takes_every_wheel_delta() {
    let mut cam = CameraController::new(45);
    let steps = cam.handle_input(&vec![2, -5], true, &vec![], 16, CAMERA_ROTATION_SPEED);
    assert_eq!(cam.zoom, 42);
    assert!(steps.is_empty());
}

#[test]
fn zoom_is_not_clamped() {
    let mut cam = CameraController::new(CAMERA_START_ZOOM);
    cam.handle_input(&vec![-30_000, -30_000], false, &vec![], 16, CAMERA_ROTATION_SPEED);
    assert_eq!(cam.zoom, -15_000);
}

#[test]
fn motion_turns_orbit_only_with_free_look() {
    let mut cam = CameraController::new(CAMERA_START_ZOOM);
    let motions = vec![PointerMotion { dx: 10, dy: -4 }, PointerMotion { dx: 0, dy: 1 }];
    let steps = cam.handle_input(&vec![], true, &motions, 16, CAMERA_ROTATION_SPEED);
    assert_eq!(
        steps,
        vec![
            OrbitStep { yaw: -48_000_000, pitch: 19_200_000 },
            OrbitStep { yaw: 0, pitch: -4_800_000 },
        ]
    );
    let steps = cam.handle_input(&vec![], false, &motions, 16, CAMERA_ROTATION_SPEED);
    assert!(steps.is_empty());
    assert_eq!(cam.zoom, CAMERA_START_ZOOM);
}

#[test]
fn zero_dt_gives_zero_orbit_steps() {
    let mut cam = CameraController::new(CAMERA_START_ZOOM);
    let motions = vec![PointerMotion { dx: 300, dy: -70 }];
    let steps = cam.handle_input(&vec![], true, &motions, 0, CAMERA_ROTATION_SPEED);
    assert_eq!(steps, vec![OrbitStep { yaw: 0, pitch: 0 }]);
    assert_eq!(cam.zoom, CAMERA_START_ZOOM);
}

#[test]
fn wander_target_changes_once_per_interval() {
    let settings = standard_plane_settings();
    let mut plane = PlaneMovement::new();
    let mut rng = StdRng::seed_from_u64(11);
    let mut changes = 0;
    let mut last = plane.target_pos;
    for _ in 0..130 {
        plane.tick(&settings, 100, &mut rng);
        if plane.target_pos != last {
            changes += 1;
            last = plane.target_pos;
        }
        let a = settings.box_area;
        for c in [last.x, last.y, last.z] {
            assert!(-a <= c && c < a);
        }
    }
    // 13 s with a change due at 0, 1.3 s, 2.6 s, ..., 11.7 s.
    assert_eq!(changes, 10);
}

#[test]
fn wander_tick_steers_toward_previous_target() {
    let settings = standard_plane_settings();
    let mut plane = PlaneMovement::new();
    let mut rng = StdRng::seed_from_u64(5);
    let steer = plane.tick(&settings, 16, &mut rng);
    assert_eq!(steer, Position::new(0, 0, 0));
    assert_eq!(plane.timer, 1300 - 16);
    let first = plane.target_pos;
    assert_ne!(first, Position::new(0, 0, 0));
    assert_eq!(plane.tick(&settings, 16, &mut rng), first);
    assert_eq!(plane.target_pos, first);
    assert_eq!(plane.timer, 1300 - 32);
}

#[test]
fn wander_step_takes_fresh_target_only_when_due() {
    let settings = standard_plane_settings();
    let mut plane = PlaneMovement { target_pos: Position::new(1, 2, 3), timer: 50 };
    assert!(!plane.step(&settings, 50, Position::new(9, 9, 9)));
    assert_eq!(plane.timer, 0);
    assert_eq!(plane.target_pos, Position::new(1, 2, 3));
    assert!(plane.step(&settings, 20, Position::new(9, 9, 9)));
    assert_eq!(plane.timer, 1280);
    assert_eq!(plane.target_pos, Position::new(9, 9, 9));
    assert!(plane.can_step(5));
    let low = PlaneMovement { target_pos: Position::new(0, 0, 0), timer: i64::MIN + 4 };
    assert!(!low.can_step(5));
}

#[test]
fn long_tick_changes_target_once() {
    let settings = standard_plane_settings();
    let mut plane = PlaneMovement { target_pos: Position::new(1, 2, 3), timer: 100 };
    assert!(plane.step(&settings, 3000, Position::new(4, 4, 4)));
    assert_eq!(plane.timer, 100 - 3000 + 1300);
    assert!(plane.step(&settings, 0, Position::new(5, 5, 5)));
    assert_eq!(plane.timer, -1600 + 1300);
}

#[test]
fn zero_dt_leaves_wander_state_unchanged() {
    let settings = standard_plane_settings();
    let mut plane = PlaneMovement { target_pos: Position::new(1, 2, 3), timer: 0 };
    let mut rng = StdRng::seed_from_u64(2);
    let before = plane;
    plane.tick(&settings, 0, &mut rng);
    assert_eq!(plane, before);
}

#[test]
fn plane_settings_are_checked() {
    assert_eq!(PlaneSettings::new(5000, 700, 1300, 6000, 1500), Ok(standard_plane_settings()));
    assert_eq!(PlaneSettings::new(5000, 700, 0, 6000, 1500), Err(ConfigError::NonPositiveInterval));
    assert_eq!(PlaneSettings::new(5000, 700, -1, 0, 1500), Err(ConfigError::NonPositiveInterval));
    assert_eq!(PlaneSettings::new(5000, 700, 1300, 0, 1500), Err(ConfigError::EmptyWanderBox));
}
