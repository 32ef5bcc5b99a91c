use crate::error::ConfigError;
use crate::geometry::Position;
use crate::random::draw_in;
use crate::schedule::{crossings, fired, lemma_fired_any_chunking, total};
use rand::rngs::StdRng;
use vstd::prelude::*;

verus! {

/// Tuning of the wandering flyer. `move_interval` is in milliseconds and
/// `box_area` in millimetres; the speeds (thousandths per second) feed the
/// host's smoothing and wobble, which this library does not compute.
#[derive(Clone, Copy, Debug, PartialEq, Eq, Structural)]
pub struct PlaneSettings {
    pub wobble_speed: i64,
    pub rotation_speed: i64,
    pub move_interval: i64,
    pub box_area: i64,
    pub speed: i64,
}

impl PlaneSettings {
    pub open spec fn wf(&self) -> bool {
        self.move_interval > 0 && self.box_area > 0
    }

    /// Checked tuning: the move interval and the box must be positive, the
    /// interval being checked first.
    pub fn new(
        wobble_speed: i64,
        rotation_speed: i64,
        move_interval: i64,
        box_area: i64,
        speed: i64,
    ) -> (r: Result<PlaneSettings, ConfigError>)
        ensures
            r is Ok <==> move_interval > 0 && box_area > 0,
            r matches Ok(s) ==> s.wf() && s == (PlaneSettings {
                wobble_speed,
                rotation_speed,
                move_interval,
                box_area,
                speed,
            }),
            r matches Err(e) ==> (e == ConfigError::NonPositiveInterval <==> move_interval <= 0),
            r matches Err(e) ==> (e == ConfigError::EmptyWanderBox <==> move_interval > 0
                && box_area <= 0),
    {
        if move_interval <= 0 {
            Err(ConfigError::NonPositiveInterval)
        } else if box_area <= 0 {
            Err(ConfigError::EmptyWanderBox)
        } else {
            Ok(PlaneSettings { wobble_speed, rotation_speed, move_interval, box_area, speed })
        }
    }
}

/// Whether `p` lies in the half-open cube `[-a, a)` on every axis.
pub open spec fn in_box(p: Position, a: i64) -> bool {
    &&& -a <= p.x < a
    &&& -a <= p.y < a
    &&& -a <= p.z < a
}

/// Per-entity wander state: the current target offset and the time left
/// before a new one is picked.
#[derive(Clone, Copy, Debug, PartialEq, Eq, Structural)]
pub struct PlaneMovement {
    pub target_pos: Position,
    pub timer: i64,
}

impl PlaneMovement {
    /// A flyer aiming at the origin, due to pick a target on its first tick.
    pub fn new() -> (r: PlaneMovement)
        ensures
            r.target_pos == (Position { x: 0, y: 0, z: 0 }),
            r.timer == 0,
    {
        PlaneMovement { target_pos: Position { x: 0, y: 0, z: 0 }, timer: 0 }
    }

    /// Whether a tick of `dt` takes the timer below zero.
    pub open spec fn due(&self, dt: u64) -> bool {
        self.timer - dt < 0
    }

    /// Whether a tick of `dt` can be taken without leaving `i64`.
    pub fn can_step(&self, dt: u64) -> (r: bool)
        ensures
            r == (self.timer - dt >= i64::MIN),
    {
        self.timer as i128 - dt as i128 >= i64::MIN as i128
    }

    /// Count `dt` down. When the timer goes below zero, one interval is added
    /// back and `fresh_target` becomes the target; the result says whether
    /// that happened.
    pub fn step(&mut self, settings: &PlaneSettings, dt: u64, fresh_target: Position) -> (r: bool)
        requires
            settings.wf(),
            old(self).timer - dt >= i64::MIN,
        ensures
            r == old(self).due(dt),
            r ==> final(self).timer == old(self).timer - dt + settings.move_interval
                && final(self).target_pos == fresh_target,
            !r ==> final(self).timer == old(self).timer - dt,
            !r ==> final(self).target_pos == old(self).target_pos,
    {
        let t = self.timer as i128 - dt as i128;
        if t < 0 {
            self.timer = (t + settings.move_interval as i128) as i64;
            self.target_pos = fresh_target;
            true
        } else {
            self.timer = t as i64;
            false
        }
    }

    /// One tick: returns the target to steer toward during this tick (the one
    /// held before it), then counts `dt` down and, when the timer goes below
    /// zero, picks a new target uniformly from the cube `[-box_area,
    /// box_area)`.
    pub fn tick(&mut self, settings: &PlaneSettings, dt: u64, rng: &mut StdRng) -> (r: Position)
        requires
            settings.wf(),
            old(self).timer - dt >= i64::MIN,
        ensures
            r == old(self).target_pos,
            old(self).due(dt) ==> final(self).timer == old(self).timer - dt
                + settings.move_interval && in_box(final(self).target_pos, settings.box_area),
            !old(self).due(dt) ==> final(self).timer == old(self).timer - dt,
            !old(self).due(dt) ==> final(self).target_pos == old(self).target_pos,
            dt == 0 && old(self).timer >= 0 ==> *final(self) == *old(self),
    {
        let current = self.target_pos;
        let mut fresh = current;
        if (self.timer as i128) - (dt as i128) < 0 {
            let a = settings.box_area;
            let x = draw_in(rng, -a, a);
            let y = draw_in(rng, -a, a);
            let z = draw_in(rng, -a, a);
            fresh = Position { x, y, z };
        }
        self.step(settings, dt, fresh);
        current
    }
}

/// Target changes of a flyer whose timer starts at `timer` when ticked by
/// each of `dts` in turn, each tick behaving as `PlaneMovement::step`.
pub open spec fn retargets(timer: int, interval: int, dts: Seq<int>) -> int
    decreases dts.len(),
{
    if dts.len() == 0 {
        0
    } else if timer - dts[0] < 0 {
        1 + retargets(timer - dts[0] + interval, interval, dts.drop_first())
    } else {
        retargets(timer - dts[0], interval, dts.drop_first())
    }
}

proof fn lemma_retargets_as_fired(timer: int, interval: int, dts: Seq<int>)
    requires
        0 <= timer <= interval,
        forall|k: int| 0 <= k < dts.len() ==> 0 <= #[trigger] dts[k] <= interval,
    ensures
        retargets(timer, interval, dts) == fired(timer, interval, dts),
    decreases dts.len(),
{
    if dts.len() > 0 {
        let dt = dts[0];
        let rest = dts.drop_first();
        assert(forall|k: int| 0 <= k < rest.len() ==> rest[k] == dts[k + 1]);
        if timer - dt < 0 {
            assert((dt - timer - 1) / interval == 0) by (nonlinear_arith)
                requires 0 <= dt - timer - 1 < interval;
            assert(crossings(timer, interval, dt) == 1);
        }
        lemma_retargets_as_fired(
            timer + crossings(timer, interval, dt) * interval - dt,
            interval,
            rest,
        );
    }
}

/// A flyer whose ticks are each no longer than its move interval changes
/// target once per interval: over total time `T`, as many times as there are
/// `k >= 0` with `timer + k * interval < T`, however `T` is chunked. A longer
/// tick would owe more than the one change a tick can make.
pub proof fn lemma_retarget_once_per_interval(timer: int, interval: int, dts: Seq<int>)
    requires
        0 < interval,
        0 <= timer <= interval,
        forall|k: int| 0 <= k < dts.len() ==> 0 <= #[trigger] dts[k] <= interval,
    ensures
        retargets(timer, interval, dts) == crossings(timer, interval, total(dts)),
{
    lemma_retargets_as_fired(timer, interval, dts);
    lemma_fired_any_chunking(timer, interval, dts);
}

} // verus!
