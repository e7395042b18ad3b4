//! Fixed-point scalars.
//!
//! Terrain quantities are carried as `i64` counts of millionths. Sums of a
//! scalar and a constant offset saturate at the ends of the `i64` range, so
//! that an unbounded sentinel stays unbounded when an offset is added to it.

use vstd::prelude::*;

verus! {

/// The fixed-point representation of `1.0`.
pub const UNIT: i64 = 1_000_000;

/// The sentinel for "no lower bound".
pub const UNBOUNDED_BELOW: i64 = i64::MIN;

/// The sentinel for "no upper bound".
pub const UNBOUNDED_ABOVE: i64 = i64::MAX;

/// The mathematical sum `a + b`, clamped into the `i64` range.
pub open spec fn saturating_sum(a: int, b: int) -> int {
    if a + b > i64::MAX {
        i64::MAX as int
    } else if a + b < i64::MIN {
        i64::MIN as int
    } else {
        a + b
    }
}

/// Adds an offset to a scalar, saturating at the ends of the range.
pub fn offset(value: i64, by: i64) -> (sum: i64)
    ensures
        sum == saturating_sum(value as int, by as int),
{
    let sum: i128 = value as i128 + by as i128;
    if sum > i64::MAX as i128 {
        i64::MAX
    } else if sum < i64::MIN as i128 {
        i64::MIN
    } else {
        sum as i64
    }
}

} // verus!
