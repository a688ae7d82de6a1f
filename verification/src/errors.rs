//! Error taxonomy of the contribution engine.
use vstd::prelude::*;

verus! {

/// The failures a contribution round can surface. Each is fatal for the
/// round: no partial output is ever returned alongside one of these.
#[derive(Clone, Copy, Debug, PartialEq, Eq, Structural)]
pub enum CeremonyError {
    /// A structural mismatch: a declared power count disagrees with the
    /// actual vector length, or a value has the wrong byte width.
    ValidationError,
    /// A wire value does not decode to a point on the curve.
    PointDecodeError,
    /// A decoded, on-curve point fails the prime-order subgroup check.
    InvalidContribution,
    /// The curve backend reported an internal failure.
    CryptoBackendError,
}

} // verus!
