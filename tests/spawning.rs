use rand::rngs::StdRng;
use rand::SeedableRng;
use runner_core::scene::{
    standard_archetypes, standard_world, CLIFF, LANDSCAPE_SIZE_HALF, MOVABLE_SPAWN_INTERVAL,
    ROCK_COLUMN, SPAWN_HEIGHT, WALKER, X_FAR_SPAWN,
};
use runner_core::spawn::TURN;
use runner_core::{ArchetypeEntry, ArchetypeTable, ConfigError, SpawnScheduler, SpawnTimer};

fn scheduler(interval: u64) -> SpawnScheduler {
    SpawnScheduler::new(interval, standard_archetypes(), standard_world(), SPAWN_HEIGHT).unwrap()
}

fn entry(low: u64, high: u64, near: i64, far: i64) -> ArchetypeEntry {
    ArchetypeEntry { low, high, archetype: 0, near, far }
}

#[test]
fn one_long_tick_matches_many_short_ones() {
    let mut once = SpawnTimer::new(1300);
    assert_eq!(once.tick(5000), 3);
    let mut chunked = SpawnTimer::new(1300);
    let total: u64 = (0..5).map(|_| chunked.tick(1000)).sum();
    assert_eq!(total, 3);
    assert_eq!(once, chunked);
    assert_eq!(once.remaining, 200);
}

#[test]
fn uneven_chunks_fire_floor_of_time_over_interval() {
    let mut t = SpawnTimer::new(1300);
    let dts = [1, 499, 16, 17, 2000, 3, 3464];
    let total: u64 = dts.iter().map(|dt| t.tick(*dt)).sum();
    assert_eq!(total, 6000 / 1300);
}

#[test]
fn boundary_at_whole_interval_fires_on_next_tick() {
    let mut t = SpawnTimer::new(1300);
    assert_eq!(t.tick(2600), 1);
    assert_eq!(t.remaining, 0);
    assert_eq!(t.tick(1), 1);
    assert_eq!(t.remaining, 1299);
}

#[test]
fn timer_counts_down_without_firing() {
    let mut t = SpawnTimer::new(MOVABLE_SPAWN_INTERVAL);
    assert_eq!(t.tick(400), 0);
    assert_eq!(t.remaining, 600);
    assert_eq!(t.tick(0), 0);
    assert_eq!(t.remaining, 600);
}

#[test]
fn standard_table_selects_by_range() {
    let t = standard_archetypes();
    for (draw, want) in [(0, 0), (70, 0), (71, 1), (91, 1), (92, 2), (99, 2)] {
        assert_eq!(t.select(draw), want);
    }
    assert_eq!(t.entries[t.select(50)].archetype, WALKER);
    assert_eq!(t.entries[t.select(80)].archetype, ROCK_COLUMN);
    assert_eq!(t.entries[t.select(95)].archetype, CLIFF);
}

#[test]
fn weighted_spawn_distribution_follows_range_widths() {
    let mut s = scheduler(1);
    let mut rng = StdRng::seed_from_u64(20_240_917);
    let reqs = s.tick(10_001, &mut rng);
    assert_eq!(reqs.len(), 10_000);
    let mut counts = [0u32; 3];
    for r in &reqs {
        counts[r.entry] += 1;
    }
    let n = reqs.len() as f64;
    for (count, width) in counts.iter().zip([71.0, 21.0, 8.0]) {
        let freq = *count as f64 / n;
        assert!((freq - width / 100.0).abs() < 0.02, "{} vs {}", freq, width);
    }
}

#[test]
fn spawned_entities_sit_on_far_edge_within_band() {
    let mut s = scheduler(MOVABLE_SPAWN_INTERVAL);
    let mut rng = StdRng::seed_from_u64(3);
    let reqs = s.tick(50_500, &mut rng);
    assert_eq!(reqs.len(), 50);
    let mut sides = (0, 0);
    let mut yaws = std::collections::BTreeSet::new();
    for r in &reqs {
        let e = s.table.entries[r.entry];
        assert_eq!(r.archetype, e.archetype);
        assert_eq!(r.position.z, -LANDSCAPE_SIZE_HALF);
        assert_eq!(r.position.y, SPAWN_HEIGHT);
        let d = r.position.x.abs();
        assert!(e.near <= d && d < X_FAR_SPAWN);
        if r.position.x < 0 {
            sides.0 += 1;
        } else {
            sides.1 += 1;
        }
        assert!(r.yaw < TURN);
        yaws.insert(r.yaw);
    }
    assert!(sides.0 > 0 && sides.1 > 0);
    assert!(yaws.len() > 40);
    assert_eq!(s.timer.remaining, 500);
}

#[test]
fn request_for_places_exactly() {
    let s = scheduler(MOVABLE_SPAWN_INTERVAL);
    let r = s.request_for(93, true, 123_456, 250_000);
    assert_eq!(r.entry, 2);
    assert_eq!(r.archetype, CLIFF);
    assert_eq!(r.position.x, -123_456);
    assert_eq!(r.position.y, SPAWN_HEIGHT);
    assert_eq!(r.position.z, -LANDSCAPE_SIZE_HALF);
    assert_eq!(r.yaw, 250_000);
    let r = s.request_for(3, false, 40_000, 0);
    assert_eq!(r.archetype, WALKER);
    assert_eq!(r.position.x, 40_000);
}

#[test]
fn zero_dt_spawns_nothing() {
    let mut s = scheduler(MOVABLE_SPAWN_INTERVAL);
    let mut rng = StdRng::seed_from_u64(1);
    s.tick(250, &mut rng);
    let before = s.timer;
    assert!(s.tick(0, &mut rng).is_empty());
    assert_eq!(s.timer, before);
}

#[test]
fn zero_interval_is_rejected() {
    let r = SpawnScheduler::new(0, standard_archetypes(), standard_world(), SPAWN_HEIGHT);
    assert!(matches!(r, Err(ConfigError::NonPositiveInterval)));
}

#[test]
fn table_with_gap_is_rejected() {
    let r = ArchetypeTable::new(vec![entry(0, 40, 1, 2), entry(41, 100, 1, 2)]);
    assert!(matches!(r, Err(ConfigError::RangesNotContiguous)));
    let r = ArchetypeTable::new(vec![entry(5, 100, 1, 2)]);
    assert!(matches!(r, Err(ConfigError::RangesNotContiguous)));
}

#[test]
fn table_short_of_full_roll_is_rejected() {
    let r = ArchetypeTable::new(vec![entry(0, 40, 1, 2), entry(40, 99, 1, 2)]);
    assert!(matches!(r, Err(ConfigError::RangesNotCovering)));
    let r = ArchetypeTable::new(vec![]);
    assert!(matches!(r, Err(ConfigError::RangesNotCovering)));
}

#[test]
fn table_with_empty_band_is_rejected() {
    let r = ArchetypeTable::new(vec![entry(0, 40, 1, 2), entry(40, 100, 5, 5)]);
    assert!(matches!(r, Err(ConfigError::BadPlacementRange)));
    let r = ArchetypeTable::new(vec![entry(0, 100, -1, 5)]);
    assert!(matches!(r, Err(ConfigError::BadPlacementRange)));
}

#[test]
fn valid_table_is_accepted() {
    let t = ArchetypeTable::new(vec![entry(0, 30, 1, 2), entry(30, 30, 1, 2), entry(30, 100, 0, 9)]).unwrap();
    assert_eq!(t.select(29), 0);
    assert_eq!(t.select(30), 2);
}
