use runner_core::scene::{standard_world, LANDSCAPE_SIZE_HALF, LANDSCAPE_SPEED};
use runner_core::{ConfigError, Position, ScrollState, ScrollWorld, WorldParameters};

fn world_with(zs: &[i64]) -> ScrollWorld {
    let mut w = ScrollWorld::new(standard_world());
    for (i, z) in zs.iter().enumerate() {
        assert!(w.insert(i as u64, Position::new(5, -20_000, *z)));
    }
    w
}

#[test]
fn displacement_is_speed_times_dt() {
    let p = standard_world();
    assert_eq!(p.displacement(16), -1648);
    assert_eq!(p.displacement(0), 0);
    assert!(p.displacement_fits(1_000_000));
    let fast = WorldParameters::new(i64::MAX, 10).unwrap();
    assert!(!fast.displacement_fits(2));
}

#[test]
fn scroll_state_accumulates_elapsed_time() {
    let mut s = ScrollState::new(standard_world());
    assert_eq!(s.advance(16), -1648);
    assert_eq!(s.advance(17), -1751);
    assert_eq!(s.elapsed, 33);
}

#[test]
fn scroll_coordinate_moves_by_speed_times_dt() {
    let mut w = world_with(&[-600_000, 0, 12_345]);
    let removed = w.advance(20);
    assert!(removed.is_empty());
    let zs: Vec<i64> = w.entities.iter().map(|e| e.position.z).collect();
    assert_eq!(zs, vec![-600_000 + 2060, 2060, 12_345 + 2060]);
    assert_eq!(w.entities[2].position.x, 5);
    assert_eq!(w.entities[2].position.y, -20_000);
}

#[test]
fn entity_short_of_boundary_survives_then_is_removed() {
    // dt of 10 ms moves entities by 1030 mm toward the boundary.
    let eps = 1030;
    let mut w = world_with(&[LANDSCAPE_SIZE_HALF - 2 * eps, 0]);
    assert!(w.advance(10).is_empty());
    assert_eq!(w.entities[0].position.z, LANDSCAPE_SIZE_HALF - eps);
    let removed = w.advance(10);
    assert_eq!(removed.len(), 1);
    assert_eq!(removed[0].id, 0);
    assert_eq!(removed[0].position.z, LANDSCAPE_SIZE_HALF);
    assert_eq!(w.entities.len(), 1);
    assert_eq!(w.entities[0].id, 1);
}

#[test]
fn entity_at_boundary_is_removed_at_once() {
    let mut w = world_with(&[]);
    assert!(!w.insert(9, Position::new(0, 0, LANDSCAPE_SIZE_HALF)));
    assert!(w.entities.is_empty());
    assert!(w.insert(10, Position::new(0, 0, LANDSCAPE_SIZE_HALF - 1)));
    assert_eq!(w.entities.len(), 1);
}

#[test]
fn survivors_keep_their_order() {
    let mut w = world_with(&[599_000, -5, 598_970, 7]);
    let removed = w.advance(10);
    let gone: Vec<u64> = removed.iter().map(|e| e.id).collect();
    let kept: Vec<u64> = w.entities.iter().map(|e| e.id).collect();
    assert_eq!(gone, vec![0, 2]);
    assert_eq!(kept, vec![1, 3]);
}

#[test]
fn positive_speed_moves_entities_away_from_boundary() {
    let mut w = ScrollWorld::new(WorldParameters::new(50, 1000).unwrap());
    assert!(w.insert(1, Position::new(0, 0, 999)));
    assert!(w.advance(4).is_empty());
    assert_eq!(w.entities[0].position.z, 799);
}

#[test]
fn advance_overflow_is_detected() {
    let mut w = ScrollWorld::new(WorldParameters::new(1, 10).unwrap());
    assert!(w.insert(1, Position::new(0, 0, i64::MIN + 3)));
    assert!(w.can_advance(3));
    assert!(!w.can_advance(4));
}

#[test]
fn zero_dt_leaves_world_unchanged() {
    let mut w = world_with(&[LANDSCAPE_SIZE_HALF - 1, -3, 0]);
    let before = w.entities.clone();
    assert!(w.advance(0).is_empty());
    assert_eq!(w.entities, before);
    let mut s = ScrollState::new(standard_world());
    s.advance(5);
    let copy = s;
    assert_eq!(s.advance(0), 0);
    assert_eq!(s, copy);
}

#[test]
fn non_positive_half_extent_is_rejected() {
    assert_eq!(WorldParameters::new(LANDSCAPE_SPEED, 0), Err(ConfigError::NonPositiveHalfExtent));
    assert_eq!(WorldParameters::new(LANDSCAPE_SPEED, -4), Err(ConfigError::NonPositiveHalfExtent));
    assert_eq!(
        WorldParameters::new(LANDSCAPE_SPEED, 7),
        Ok(WorldParameters { scroll_speed: LANDSCAPE_SPEED, half_extent: 7 })
    );
}
