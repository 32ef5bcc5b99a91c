use vstd::prelude::*;

verus! {

/// Orbit camera state: how far the camera stands from its focus point, in
/// millimetres. The orbit orientation itself is a rotation that the host
/// keeps; it is turned by the steps that `handle_input` returns.
#[derive(Clone, Copy, Debug, PartialEq, Eq, Structural)]
pub struct CameraController {
    pub zoom: i64,
}

/// One pointer-motion event, in pixels.
#[derive(Clone, Copy, Debug, PartialEq, Eq, Structural)]
pub struct PointerMotion {
    pub dx: i32,
    pub dy: i32,
}

/// One turn of the orbit, in nanoradians: `yaw` from horizontal motion,
/// `pitch` from vertical motion, both negated so that dragging looks the
/// natural way.
#[derive(Clone, Copy, Debug, PartialEq, Eq, Structural)]
pub struct OrbitStep {
    pub yaw: i128,
    pub pitch: i128,
}

/// Sum of the wheel deltas of one tick.
pub open spec fn wheel_total(s: Seq<i32>) -> int
    decreases s.len(),
{
    if s.len() == 0 {
        0
    } else {
        wheel_total(s.drop_last()) + s.last()
    }
}

/// The orbit step for one motion event during a tick of `dt` milliseconds,
/// turning at `speed` microradians per pixel per second.
pub open spec fn step_for(m: PointerMotion, dt: u64, speed: u32) -> OrbitStep {
    OrbitStep { yaw: (-m.dx * dt * speed) as i128, pitch: (-m.dy * dt * speed) as i128 }
}

proof fn lemma_step_fits(d: int, dt: int, speed: int)
    requires
        i32::MIN <= d <= i32::MAX,
        0 <= dt <= u64::MAX,
        0 <= speed <= u32::MAX,
    ensures
        i128::MIN < d * dt <= i128::MAX,
        i128::MIN <= -(d * dt) * speed <= i128::MAX,
        -(d * dt) * speed == -d * dt * speed,
        dt == 0 ==> -d * dt * speed == 0,
{
    assert(-0x8000_0000 * 0xffff_ffff_ffff_ffff <= d * dt <= 0x7fff_ffff * 0xffff_ffff_ffff_ffff)
        by (nonlinear_arith)
        requires
            -0x8000_0000 <= d <= 0x7fff_ffff,
            0 <= dt <= 0xffff_ffff_ffff_ffff,
    ;
    let p = d * dt;
    assert(-0x8000_0000 * 0xffff_ffff_ffff_ffff * 0xffff_ffff <= -p * speed <= 0x8000_0000
        * 0xffff_ffff_ffff_ffff * 0xffff_ffff) by (nonlinear_arith)
        requires
            -0x8000_0000 * 0xffff_ffff_ffff_ffff <= p <= 0x8000_0000 * 0xffff_ffff_ffff_ffff,
            0 <= speed <= 0xffff_ffff,
    ;
    assert(-(d * dt) * speed == -d * dt * speed) by (nonlinear_arith);
    assert(dt == 0 ==> -d * dt * speed == 0) by (nonlinear_arith);
}

impl CameraController {
    pub fn new(zoom: i64) -> (r: CameraController)
        ensures
            r.zoom == zoom,
    {
        CameraController { zoom }
    }

    /// Take one tick of input: every wheel delta is added to the zoom, with no
    /// clamping; when `free_look` holds, each motion event becomes one orbit
    /// step, scaled by `dt * rotation_speed`; otherwise there are none.
    pub fn handle_input(
        &mut self,
        wheel: &Vec<i32>,
        free_look: bool,
        motions: &Vec<PointerMotion>,
        dt: u64,
        rotation_speed: u32,
    ) -> (steps: Vec<OrbitStep>)
        requires
            i64::MIN <= old(self).zoom + wheel_total(wheel@) <= i64::MAX,
        ensures
            final(self).zoom == old(self).zoom + wheel_total(wheel@),
            steps@.len() == if free_look {
                motions@.len()
            } else {
                0
            },
            forall|k: int|
                0 <= k < steps@.len() ==> #[trigger] steps@[k] == step_for(
                    motions@[k],
                    dt,
                    rotation_speed,
                ),
            dt == 0 ==> forall|k: int|
                0 <= k < steps@.len() ==> #[trigger] steps@[k] == (OrbitStep { yaw: 0, pitch: 0 }),
    {
        let mut acc: i128 = self.zoom as i128;
        let mut i: usize = 0;
        while i < wheel.len()
            invariant
                0 <= i <= wheel@.len(),
                acc == old(self).zoom + wheel_total(wheel@.take(i as int)),
                -0x8000_0000 * i <= wheel_total(wheel@.take(i as int)) <= 0x8000_0000 * i,
            decreases wheel@.len() - i,
        {
            assert(wheel@.take(i as int + 1).drop_last() == wheel@.take(i as int));
            assert(i < 0x1_0000_0000_0000_0000);
            assert(-0x8000_0000 * (i + 1) == -0x8000_0000 * i - 0x8000_0000);
            assert(0x8000_0000 * (i + 1) == 0x8000_0000 * i + 0x8000_0000);
            assert(0x8000_0000 * i <= 0x8000_0000 * 0x1_0000_0000_0000_0000) by (nonlinear_arith)
                requires i < 0x1_0000_0000_0000_0000;
            acc = acc + wheel[i] as i128;
            i = i + 1;
        }
        assert(wheel@.take(wheel@.len() as int) == wheel@);
        self.zoom = acc as i64;
        let mut steps: Vec<OrbitStep> = Vec::new();
        if free_look {
            let mut k: usize = 0;
            while k < motions.len()
                invariant
                    0 <= k <= motions@.len(),
                    steps@.len() == k,
                    forall|j: int|
                        0 <= j < k ==> #[trigger] steps@[j] == step_for(
                            motions@[j],
                            dt,
                            rotation_speed,
                        ),
                decreases motions@.len() - k,
            {
                let m = motions[k];
                proof {
                    lemma_step_fits(m.dx as int, dt as int, rotation_speed as int);
                    lemma_step_fits(m.dy as int, dt as int, rotation_speed as int);
                }
                let yaw = -((m.dx as i128) * (dt as i128)) * (rotation_speed as i128);
                let pitch = -((m.dy as i128) * (dt as i128)) * (rotation_speed as i128);
                steps.push(OrbitStep { yaw, pitch });
                k = k + 1;
            }
        }
        proof {
            if dt == 0 {
                assert forall|k: int| 0 <= k < steps@.len() implies #[trigger] steps@[k] == (
                OrbitStep { yaw: 0, pitch: 0 }) by {
                    lemma_step_fits(motions@[k].dx as int, 0, rotation_speed as int);
                    lemma_step_fits(motions@[k].dy as int, 0, rotation_speed as int);
                }
            }
        }
        steps
    }
}

} // verus!
