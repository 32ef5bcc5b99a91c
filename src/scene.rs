use crate::scroll::WorldParameters;
use crate::spawn::{ArchetypeEntry, ArchetypeTable, WEIGHT_TOTAL};
use crate::wander::PlaneSettings;
use vstd::prelude::*;

verus! {

/// Length of the landscape along the scroll axis.
pub const LANDSCAPE_SIZE: i64 = 1_200_000;

/// Half the landscape's length: where scrolled entities are removed and new
/// ones appear (on the far side).
pub const LANDSCAPE_SIZE_HALF: i64 = 600_000;

/// The landscape's scroll speed; negative, so entities travel toward the
/// removal boundary.
pub const LANDSCAPE_SPEED: i64 = -103;

/// Time between two spawns.
pub const MOVABLE_SPAWN_INTERVAL: u64 = 1000;

/// Outer edge of every archetype's placement band.
pub const X_FAR_SPAWN: i64 = 400_000;

/// Vertical coordinate of spawned entities.
pub const SPAWN_HEIGHT: i64 = -20_000;

/// Orbit turn rate of the camera, in microradians per pixel per second.
pub const CAMERA_ROTATION_SPEED: u32 = 300_000;

/// Starting distance of the camera from its focus point.
pub const CAMERA_START_ZOOM: i64 = 45_000;

/// Archetype identifiers of the standard scene.
pub const WALKER: u64 = 0;

pub const ROCK_COLUMN: u64 = 1;

pub const CLIFF: u64 = 2;

/// The standard world: a landscape of `LANDSCAPE_SIZE` scrolling at
/// `LANDSCAPE_SPEED`.
pub fn standard_world() -> (r: WorldParameters)
    ensures
        r.wf(),
        r == (WorldParameters { scroll_speed: LANDSCAPE_SPEED, half_extent: LANDSCAPE_SIZE_HALF }),
{
    WorldParameters { scroll_speed: LANDSCAPE_SPEED, half_extent: LANDSCAPE_SIZE_HALF }
}

/// The standard spawn table: walkers on 71 of the 100 draws, rock columns on
/// 21, cliffs on 8, each with its own nearest distance from the scroll axis.
pub fn standard_archetypes() -> (r: ArchetypeTable)
    ensures
        r.wf(),
        r.entries@ == seq![
            ArchetypeEntry { low: 0, high: 71, archetype: WALKER, near: 36_000, far: X_FAR_SPAWN },
            ArchetypeEntry {
                low: 71,
                high: 92,
                archetype: ROCK_COLUMN,
                near: 30_000,
                far: X_FAR_SPAWN,
            },
            ArchetypeEntry {
                low: 92,
                high: WEIGHT_TOTAL,
                archetype: CLIFF,
                near: 90_000,
                far: X_FAR_SPAWN,
            },
        ],
{
    let entries = vec![
        ArchetypeEntry { low: 0, high: 71, archetype: WALKER, near: 36_000, far: X_FAR_SPAWN },
        ArchetypeEntry { low: 71, high: 92, archetype: ROCK_COLUMN, near: 30_000, far: X_FAR_SPAWN },
        ArchetypeEntry { low: 92, high: WEIGHT_TOTAL, archetype: CLIFF, near: 90_000, far: X_FAR_SPAWN },
    ];
    let t = ArchetypeTable { entries };
    assert(t.entries@[0].high == t.entries@[1].low);
    assert(t.entries@[1].high == t.entries@[2].low);
    t
}

/// The standard flyer tuning: a new target every 1.3 s inside a cube of
/// half-side 6 units.
pub fn standard_plane_settings() -> (r: PlaneSettings)
    ensures
        r.wf(),
        r == (PlaneSettings {
            wobble_speed: 5000,
            rotation_speed: 700,
            move_interval: 1300,
            box_area: 6000,
            speed: 1500,
        }),
{
    PlaneSettings {
        wobble_speed: 5000,
        rotation_speed: 700,
        move_interval: 1300,
        box_area: 6000,
        speed: 1500,
    }
}

} // verus!
