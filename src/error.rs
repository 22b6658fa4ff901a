use vstd::prelude::*;

verus! {

/// The status values that a failed operation reports. A failed operation
/// leaves the state exactly as it was.
#[derive(Debug, Clone, Copy, PartialEq, Eq, Structural)]
pub enum StateError {
    /// The identifier does not resolve.
    NotFound,
    /// The identifier is already in the display order.
    Duplicate,
    /// A target position lies outside the display order.
    OutOfBounds,
    /// A surface width or height is not positive.
    InvalidDimensions,
}

} // verus!
