use vstd::prelude::*;

verus! {

/// Multiplication factor of the metric (decimal) convention.
pub const METRIC: u64 = 1000;

/// Multiplication factor of the binary convention.
pub const BINARY: u64 = 1024;

} // verus!
