//! Rock-bottom gas planning for scuba divers.
//!
//! The library computes the minimum breathing-gas reserve a diver must keep
//! to surface safely from a given depth, including a mandatory safety stop,
//! and distributes that reserve across a set of cylinders with differing
//! breathability limits.
//!
//! All physical quantities (pressures, volumes, gas fractions, depths) are
//! exact rational numbers ([`rat::Rat`]): every contract states the computed
//! value as a precise fraction, and arithmetic that cannot be represented
//! surfaces as [`RockBottomError::ConversionFailure`] instead of silently
//! losing precision.

use vstd::prelude::*;

pub mod laws;
pub mod plan;
pub mod rat;
pub mod tank;

verus! {

/// Which allocation phase found no usable cylinder.
#[derive(Clone, Copy, Debug, PartialEq, Eq, Structural)]
pub enum InfeasibleKind {
    /// No cylinder is breathable at the target depth.
    NoBottomTanks,
    /// No cylinder is available for the safety-stop allocation.
    SafetyStopTanks,
}

/// The ways a rock-bottom computation can fail.
#[derive(Clone, Copy, Debug, PartialEq, Eq, Structural)]
pub enum RockBottomError {
    /// A numeric value could not be represented in the computation's
    /// rational number type.
    ConversionFailure,
    /// A per-phase tank partition was empty, so dividing gas among the
    /// tanks of that phase is undefined.
    InfeasibleAllocation(InfeasibleKind),
}

} // verus!
