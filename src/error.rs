use vstd::prelude::*;

verus! {

/// Startup configuration that the simulation cannot run with.
#[derive(Clone, Copy, Debug, PartialEq, Eq, Structural)]
pub enum ConfigError {
    NonPositiveHalfExtent,
    NonPositiveInterval,
    RangesNotContiguous,
    RangesNotCovering,
    BadPlacementRange,
    EmptyWanderBox,
}

} // verus!
