use crate::geometry::Position;
use crate::random::draw_in;
use crate::schedule::{crossings, SpawnTimer};
use crate::error::ConfigError;
use crate::scroll::WorldParameters;
use rand::rngs::StdRng;
use vstd::prelude::*;
use vstd::set_lib::{lemma_int_range, set_int_range};

verus! {

/// The draws of the archetype roll lie in `[0, WEIGHT_TOTAL)`.
pub const WEIGHT_TOTAL: u64 = 100;

/// A yaw is a fraction of a full turn, in millionths.
pub const TURN: u64 = 1_000_000;

/// One archetype and its share of the roll: draws in `[low, high)` pick it.
/// Its entities are placed at a lateral distance in `[near, far)` from the
/// scroll axis, on either side.
#[derive(Clone, Copy, Debug, PartialEq, Eq, Structural)]
pub struct ArchetypeEntry {
    pub low: u64,
    pub high: u64,
    /// Opaque identifier of the archetype's visual representation.
    pub archetype: u64,
    pub near: i64,
    pub far: i64,
}

/// Whether `e`'s range holds `draw`.
pub open spec fn holds_draw(e: ArchetypeEntry, draw: int) -> bool {
    e.low <= draw < e.high
}

/// Whether every entry has a non-empty placement band at a non-negative
/// distance.
pub open spec fn placements_valid(s: Seq<ArchetypeEntry>) -> bool {
    forall|i: int| 0 <= i < s.len() ==> 0 <= #[trigger] s[i].near < s[i].far
}

/// Whether the ranges start at zero and each one ends where the next begins.
pub open spec fn ranges_contiguous(s: Seq<ArchetypeEntry>) -> bool {
    &&& s.len() > 0 ==> s[0].low == 0
    &&& forall|i: int| 0 <= i < s.len() ==> #[trigger] s[i].low <= s[i].high
    &&& forall|i: int| 0 <= i < s.len() - 1 ==> #[trigger] s[i].high == s[i + 1].low
}

/// Whether the ranges reach the end of the roll.
pub open spec fn ranges_cover(s: Seq<ArchetypeEntry>) -> bool {
    s.len() > 0 && s.last().high == WEIGHT_TOTAL
}

/// The ordered weighted table of what can be spawned. Its ranges partition
/// `[0, WEIGHT_TOTAL)`.
pub struct ArchetypeTable {
    pub entries: Vec<ArchetypeEntry>,
}

impl ArchetypeTable {
    pub open spec fn wf(&self) -> bool {
        &&& placements_valid(self.entries@)
        &&& ranges_contiguous(self.entries@)
        &&& ranges_cover(self.entries@)
    }

    /// Whether entry `i` is the one that `draw` picks.
    pub open spec fn selects(&self, draw: int, i: int) -> bool {
        0 <= i < self.entries@.len() && holds_draw(self.entries@[i], draw)
    }

    /// Validate and take a table. A bad placement band is reported first, then
    /// ranges that do not follow on from zero, then ranges that stop short of
    /// (or run past) the end of the roll.
    pub fn new(entries: Vec<ArchetypeEntry>) -> (r: Result<ArchetypeTable, ConfigError>)
        ensures
            r matches Ok(t) ==> t.wf() && t.entries@ == entries@,
            r is Ok <==> placements_valid(entries@) && ranges_contiguous(entries@)
                && ranges_cover(entries@),
            r matches Err(e) ==> (e == ConfigError::BadPlacementRange <==> !placements_valid(
                entries@,
            )),
            r matches Err(e) ==> (e == ConfigError::RangesNotContiguous <==> placements_valid(
                entries@,
            ) && !ranges_contiguous(entries@)),
            r matches Err(e) ==> (e == ConfigError::RangesNotCovering <==> placements_valid(
                entries@,
            ) && ranges_contiguous(entries@) && !ranges_cover(entries@)),
    {
        let n = entries.len();
        let mut i: usize = 0;
        while i < n
            invariant
                n == entries@.len(),
                0 <= i <= n,
                forall|k: int| 0 <= k < i ==> 0 <= #[trigger] entries@[k].near < entries@[k].far,
            decreases n - i,
        {
            if !(0 <= entries[i].near && entries[i].near < entries[i].far) {
                return Err(ConfigError::BadPlacementRange);
            }
            i = i + 1;
        }
        assert(placements_valid(entries@));
        if n > 0 && entries[0].low != 0 {
            return Err(ConfigError::RangesNotContiguous);
        }
        let mut i: usize = 0;
        while i < n
            invariant
                n == entries@.len(),
                0 <= i <= n,
                placements_valid(entries@),
                n > 0 ==> entries@[0].low == 0,
                forall|k: int| 0 <= k < i ==> #[trigger] entries@[k].low <= entries@[k].high,
                forall|k: int| 0 <= k < i && k < n - 1 ==> #[trigger] entries@[k].high
                    == entries@[k + 1].low,
            decreases n - i,
        {
            if entries[i].low > entries[i].high {
                return Err(ConfigError::RangesNotContiguous);
            }
            if i + 1 < n && entries[i].high != entries[i + 1].low {
                return Err(ConfigError::RangesNotContiguous);
            }
            i = i + 1;
        }
        if n == 0 || entries[n - 1].high != WEIGHT_TOTAL {
            return Err(ConfigError::RangesNotCovering);
        }
        Ok(ArchetypeTable { entries })
    }

    /// The entry whose range holds `draw`; exactly one does.
    pub fn select(&self, draw: u64) -> (r: usize)
        requires
            self.wf(),
            draw < WEIGHT_TOTAL,
        ensures
            self.selects(draw as int, r as int),
            forall|j: int| self.selects(draw as int, j) ==> j == r,
    {
        let n = self.entries.len();
        let mut i: usize = 0;
        while i < n
            invariant
                self.wf(),
                n == self.entries@.len(),
                draw < WEIGHT_TOTAL,
                0 <= i <= n,
                i < n ==> self.entries@[i as int].low <= draw,
                forall|k: int| 0 <= k < i ==> !holds_draw(#[trigger] self.entries@[k], draw as int),
                i == n ==> draw >= self.entries@[n - 1].high,
            decreases n - i,
        {
            let e = self.entries[i];
            if draw < e.high {
                proof {
                    assert forall|j: int| self.selects(draw as int, j) implies j == i by {
                        if j > i {
                            lemma_ranges_ordered(self.entries@, i as int, j);
                        }
                    }
                }
                return i;
            }
            i = i + 1;
        }
        i
    }
}

/// Ranges of a contiguous table follow one another in order.
proof fn lemma_ranges_ordered(s: Seq<ArchetypeEntry>, i: int, j: int)
    requires
        ranges_contiguous(s),
        0 <= i < j < s.len(),
    ensures
        s[i].high <= s[j].low,
    decreases j - i,
{
    if j > i + 1 {
        lemma_ranges_ordered(s, i, j - 1);
        assert(s[j - 1].low <= s[j - 1].high);
    }
}

/// Of the equally likely draws in `[0, WEIGHT_TOTAL)`, exactly
/// `high - low` pick entry `i` of a valid table: each archetype's chance is
/// its range width over the whole roll.
pub proof fn lemma_draws_for_entry(t: ArchetypeTable, i: int)
    requires
        t.wf(),
        0 <= i < t.entries@.len(),
    ensures
        Set::new(|d: int| 0 <= d < WEIGHT_TOTAL && t.selects(d, i)) == set_int_range(
            t.entries@[i].low as int,
            t.entries@[i].high as int,
        ),
        Set::new(|d: int| 0 <= d < WEIGHT_TOTAL && t.selects(d, i)).len() == t.entries@[i].high
            - t.entries@[i].low,
{
    let s = t.entries@;
    let n = s.len();
    if i > 0 {
        lemma_ranges_ordered(s, 0, i);
    }
    if i < n - 1 {
        lemma_ranges_ordered(s, i, n - 1);
    }
    assert(s[n - 1].low <= s[n - 1].high);
    assert(Set::new(|d: int| 0 <= d < WEIGHT_TOTAL && t.selects(d, i)) =~= set_int_range(
        s[i].low as int,
        s[i].high as int,
    ));
    lemma_int_range(s[i].low as int, s[i].high as int);
}

/// A request to create one scrolled entity.
#[derive(Clone, Copy, Debug, PartialEq, Eq, Structural)]
pub struct SpawnRequest {
    /// Index of the table entry that was picked.
    pub entry: usize,
    pub archetype: u64,
    pub position: Position,
    /// Rotation about the vertical axis, in millionths of a turn.
    pub yaw: u64,
}

/// Spawns scrolled entities at the far edge of the world, one per interval.
pub struct SpawnScheduler {
    pub timer: SpawnTimer,
    pub table: ArchetypeTable,
    pub half_extent: i64,
    /// Fixed vertical coordinate of new entities.
    pub height: i64,
}

/// The request for table entry `entry`, placed on the `negative` or positive
/// side at `distance` from the scroll axis, turned by `yaw`.
pub open spec fn request_spec(
    s: SpawnScheduler,
    entry: int,
    negative: bool,
    distance: i64,
    yaw: u64,
) -> SpawnRequest {
    SpawnRequest {
        entry: entry as usize,
        archetype: s.table.entries@[entry].archetype,
        position: Position {
            x: if negative {
                -distance
            } else {
                distance as int
            } as i64,
            y: s.height,
            z: -s.half_extent as i64,
        },
        yaw,
    }
}

/// Whether `r` is a request that the spawner can make: a valid entry,
/// placed on the far edge at the fixed height, at a lateral distance within
/// the entry's band, turned less than a full turn.
pub open spec fn request_possible(s: SpawnScheduler, r: SpawnRequest) -> bool {
    let e = s.table.entries@[r.entry as int];
    &&& r.entry < s.table.entries@.len()
    &&& r.archetype == e.archetype
    &&& r.position.y == s.height
    &&& r.position.z == -s.half_extent
    &&& (e.near <= r.position.x < e.far || e.near <= -r.position.x < e.far)
    &&& r.yaw < TURN
}

impl SpawnScheduler {
    pub open spec fn wf(&self) -> bool {
        &&& self.timer.wf()
        &&& self.table.wf()
        &&& self.half_extent > 0
    }

    /// A scheduler firing every `interval` milliseconds, the first firing one
    /// interval from now. A zero interval is a configuration error.
    pub fn new(interval: u64, table: ArchetypeTable, params: WorldParameters, height: i64) -> (r:
        Result<SpawnScheduler, ConfigError>)
        requires
            table.wf(),
            params.wf(),
        ensures
            r is Ok <==> interval > 0,
            r matches Err(e) ==> e == ConfigError::NonPositiveInterval,
            r matches Ok(s) ==> s.wf() && s.timer == SpawnTimer::new_spec(interval)
                && s.table.entries@ == table.entries@ && s.half_extent == params.half_extent
                && s.height == height,
    {
        if interval == 0 {
            return Err(ConfigError::NonPositiveInterval);
        }
        Ok(SpawnScheduler {
            timer: SpawnTimer::new(interval),
            table,
            half_extent: params.half_extent,
            height,
        })
    }

    /// The request for a roll of `draw`, placed on the `negative` or positive
    /// side at `distance` from the scroll axis, turned by `yaw`.
    pub fn request_for(&self, draw: u64, negative: bool, distance: i64, yaw: u64) -> (r:
        SpawnRequest)
        requires
            self.wf(),
            draw < WEIGHT_TOTAL,
            distance > i64::MIN,
        ensures
            self.table.selects(draw as int, r.entry as int),
            r == request_spec(*self, r.entry as int, negative, distance, yaw),
    {
        let entry = self.table.select(draw);
        let e = self.table.entries[entry];
        let x = if negative {
            -distance
        } else {
            distance
        };
        SpawnRequest {
            entry,
            archetype: e.archetype,
            position: Position { x, y: self.height, z: -self.half_extent },
            yaw,
        }
    }

    /// Count the timer down by `dt` and make one request per interval
    /// boundary crossed, each from fresh draws of `rng`.
    pub fn tick(&mut self, dt: u64, rng: &mut StdRng) -> (r: Vec<SpawnRequest>)
        requires
            old(self).wf(),
        ensures
            final(self).wf(),
            final(self).table == old(self).table,
            final(self).half_extent == old(self).half_extent,
            final(self).height == old(self).height,
            final(self).timer.interval == old(self).timer.interval,
            r@.len() == crossings(
                old(self).timer.remaining as int,
                old(self).timer.interval as int,
                dt as int,
            ),
            final(self).timer.remaining == old(self).timer.remaining + r@.len()
                * old(self).timer.interval - dt,
            forall|k: int| 0 <= k < r@.len() ==> request_possible(*final(self), #[trigger] r@[k]),
            dt == 0 ==> final(self).timer == old(self).timer && r@.len() == 0,
    {
        let n = self.timer.tick(dt);
        let mut out: Vec<SpawnRequest> = Vec::new();
        let mut k: u64 = 0;
        while k < n
            invariant
                self.wf(),
                0 <= k <= n,
                out@.len() == k,
                forall|j: int| 0 <= j < out@.len() ==> request_possible(*self, #[trigger] out@[j]),
            decreases n - k,
        {
            let draw = draw_in(rng, 0, WEIGHT_TOTAL as i64) as u64;
            let entry = self.table.select(draw);
            let e = self.table.entries[entry];
            let negative = draw_in(rng, 0, 2) == 0;
            let distance = draw_in(rng, e.near, e.far);
            let yaw = draw_in(rng, 0, TURN as i64) as u64;
            let req = self.request_for(draw, negative, distance, yaw);
            out.push(req);
            k = k + 1;
        }
        out
    }
}

} // verus!
