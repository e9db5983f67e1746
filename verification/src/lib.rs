//! Layout optimizers for two simulated industrial multiblock structures:
//! an exhaustive search over a boiler's internal partition, and a greedy
//! iterative reduction of a fission fuel-rod grid until a cooling-throughput
//! constraint is met.

use vstd::prelude::*;

pub mod boiler;
pub mod fission_reactor;

verus! {

/// Valid exterior dimension ranges for either structure.
pub open spec fn dims_in_range(length: int, width: int, height: int) -> bool {
    &&& 3 <= length <= 18
    &&& 3 <= width <= 18
    &&& 4 <= height <= 18
}

/// Whether the given exterior dimensions can form a multiblock structure.
pub fn check_attributes(length: i64, width: i64, height: i64) -> (ok: bool)
    ensures
        ok == dims_in_range(length as int, width as int, height as int),
{
    3 <= length && length <= 18 && 3 <= width && width <= 18 && 4 <= height && height <= 18
}

} // verus!
