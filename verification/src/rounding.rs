use vstd::prelude::*;
use vstd::arithmetic::div_mod::{lemma_fundamental_div_mod, lemma_fundamental_div_mod_converse};

verus! {

/// Unsigned integer division rounded to the nearest integer, with ties
/// rounded up: `(dividend + divisor / 2) / divisor` over the integers.
pub open spec fn rounded_div_spec(dividend: int, divisor: int) -> int {
    (dividend + divisor / 2) / divisor
}

/// Divide, rounding the quotient to the nearest integer (ties round up).
///
/// Computed from the truncating quotient and the remainder, so the result
/// is exact for every pair of operands: the textbook form
/// `(dividend + divisor / 2) / divisor` would overflow whenever the sum
/// exceeds sixty-four bits.
pub fn rounded_div(dividend: u64, divisor: u64) -> (quotient: u64)
    requires
        1 <= divisor,
    ensures
        quotient == rounded_div_spec(dividend as int, divisor as int),
{
    let whole = dividend / divisor;
    let remainder = dividend % divisor;
    proof {
        let d = dividend as int;
        let v = divisor as int;
        lemma_fundamental_div_mod(d, v);
        let q = whole as int;
        assert(v * q == q * v && (q + 1) * v == q * v + v) by (nonlinear_arith);
        if remainder >= divisor - divisor / 2 {
            lemma_fundamental_div_mod_converse(
                d + v / 2,
                v,
                whole as int + 1,
                remainder + v / 2 - v,
            );
            assert(whole as int * v >= whole as int) by (nonlinear_arith)
                requires
                    v >= 1,
                    whole as int >= 0,
            ;
        } else {
            lemma_fundamental_div_mod_converse(d + v / 2, v, whole as int, remainder + v / 2);
        }
    }
    if remainder >= divisor - divisor / 2 {
        whole + 1
    } else {
        whole
    }
}

} // verus!
