use vstd::prelude::*;

verus! {

/// Result of parsing a raw magnitude: a coefficient rounded to the nearest
/// count of the chosen unit, the unit's prefix symbol, the power of the
/// scale base that the unit stands for, and the scale actually divided by.
#[derive(Debug, Clone, Copy, PartialEq, Eq, Structural)]
pub struct ParsedValue {
    /// Count in the chosen unit, rounded to the nearest integer.
    pub coefficient: u64,
    /// Unit prefix symbol, one of `'B'`, `'K'`, `'M'`, `'G'`, `'T'`, `'P'`.
    pub unit: char,
    /// Power of the scale base that the unit stands for.
    pub exponent: usize,
    /// The divisor used to compute the coefficient: the scale base raised
    /// to the exponent.
    pub scale: u64,
}

} // verus!
