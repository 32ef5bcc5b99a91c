use crate::error::ConfigError;
use vstd::prelude::*;

verus! {

/// Scroll speed and world size, fixed at startup.
#[derive(Clone, Copy, Debug, PartialEq, Eq, Structural)]
pub struct WorldParameters {
    /// Millimetres per millisecond along the scroll axis; the sign is the
    /// direction of travel.
    pub scroll_speed: i64,
    /// Half the world's length along the scroll axis, in millimetres: the
    /// boundary at which scrolled entities are removed.
    pub half_extent: i64,
}

/// `scroll_speed * dt`, the distance the world scrolls in one tick.
pub open spec fn displacement_of(params: WorldParameters, dt: u64) -> int {
    params.scroll_speed * dt
}

impl WorldParameters {
    pub open spec fn wf(&self) -> bool {
        self.half_extent > 0
    }

    /// Parameters for a world of the given half-extent; a non-positive one is
    /// a configuration error.
    pub fn new(scroll_speed: i64, half_extent: i64) -> (r: Result<WorldParameters, ConfigError>)
        ensures
            half_extent > 0 <==> r is Ok,
            r matches Ok(p) ==> p.wf() && p.scroll_speed == scroll_speed && p.half_extent
                == half_extent,
            r matches Err(e) ==> e == ConfigError::NonPositiveHalfExtent,
    {
        if half_extent > 0 {
            Ok(WorldParameters { scroll_speed, half_extent })
        } else {
            Err(ConfigError::NonPositiveHalfExtent)
        }
    }

    /// Whether one tick of `dt` has a displacement that fits in an `i64`.
    pub fn displacement_fits(&self, dt: u64) -> (r: bool)
        ensures
            r == (i64::MIN <= displacement_of(*self, dt) <= i64::MAX),
    {
        proof {
            lemma_product_fits_i128(self.scroll_speed as int, dt as int);
        }
        let p = (self.scroll_speed as i128) * (dt as i128);
        i64::MIN as i128 <= p && p <= i64::MAX as i128
    }

    /// The distance the world scrolls during a tick of `dt` milliseconds.
    pub fn displacement(&self, dt: u64) -> (r: i64)
        requires
            i64::MIN <= displacement_of(*self, dt) <= i64::MAX,
        ensures
            r == displacement_of(*self, dt),
            dt == 0 ==> r == 0,
    {
        proof {
            lemma_product_fits_i128(self.scroll_speed as int, dt as int);
        }
        let p = (self.scroll_speed as i128) * (dt as i128);
        p as i64
    }
}

/// The product of an `i64` and a `u64` fits in an `i128`.
proof fn lemma_product_fits_i128(a: int, b: int)
    requires
        i64::MIN <= a <= i64::MAX,
        0 <= b <= u64::MAX,
    ensures
        i128::MIN <= a * b <= i128::MAX,
        b == 0 ==> a * b == 0,
{
    assert(-0x8000_0000_0000_0000 * 0xffff_ffff_ffff_ffff <= a * b <= 0x7fff_ffff_ffff_ffff
        * 0xffff_ffff_ffff_ffff) by (nonlinear_arith)
        requires
            -0x8000_0000_0000_0000 <= a <= 0x7fff_ffff_ffff_ffff,
            0 <= b <= 0xffff_ffff_ffff_ffff,
    ;
}

/// The world's scrolling state: its parameters and the time elapsed so far,
/// which time-driven visuals read.
#[derive(Clone, Copy, Debug, PartialEq, Eq, Structural)]
pub struct ScrollState {
    pub params: WorldParameters,
    pub elapsed: u64,
}

impl ScrollState {
    pub fn new(params: WorldParameters) -> (r: ScrollState)
        ensures
            r.params == params,
            r.elapsed == 0,
    {
        ScrollState { params, elapsed: 0 }
    }

    /// Accumulate `dt` into the elapsed time and return this tick's
    /// displacement.
    pub fn advance(&mut self, dt: u64) -> (r: i64)
        requires
            i64::MIN <= displacement_of(old(self).params, dt) <= i64::MAX,
            old(self).elapsed + dt <= u64::MAX,
        ensures
            r == displacement_of(old(self).params, dt),
            final(self).params == old(self).params,
            final(self).elapsed == old(self).elapsed + dt,
            dt == 0 ==> *final(self) == *old(self) && r == 0,
    {
        self.elapsed = self.elapsed + dt;
        self.params.displacement(dt)
    }
}

} // verus!
