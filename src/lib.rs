//! Per-tick update core of an endless-runner scene: a scrolling world whose
//! tagged entities drift along the scroll axis and are removed at the far
//! boundary, a weighted spawner driven by an interval accumulator, an orbit
//! camera rig, and a wandering flyer.
//!
//! Units: lengths are millimetres, times are milliseconds, so a speed in
//! millimetres per millisecond reads as world units per second.
pub mod camera;
pub mod error;
pub mod geometry;
pub mod lifecycle;
mod random;
pub mod scene;
pub mod schedule;
pub mod scroll;
pub mod spawn;
pub mod wander;

pub use geometry::Position;
pub use lifecycle::{ScrollEntity, ScrollWorld};
pub use schedule::SpawnTimer;
pub use error::ConfigError;
pub use scroll::{ScrollState, WorldParameters};
pub use spawn::{ArchetypeEntry, ArchetypeTable, SpawnRequest, SpawnScheduler};
pub use camera::{CameraController, OrbitStep, PointerMotion};
pub use wander::{PlaneMovement, PlaneSettings};
