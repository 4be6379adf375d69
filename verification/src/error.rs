//! Why a grid could not be built.

use vstd::prelude::*;

verus! {

/// The reasons for which a constructor refuses its arguments.
#[derive(Clone, Copy, Debug, PartialEq, Eq, Structural)]
pub enum GridError {
    /// The width or the height is zero.
    ZeroDimension,
    /// The grid would hold more than `u32::MAX` cells.
    TooLarge,
    /// The initial cells are not exactly one per coordinate.
    SeedLength,
    /// The grid has fewer than four rows or columns, so the seeded pattern
    /// does not fit.
    PatternOutOfBounds,
}

} // verus!
