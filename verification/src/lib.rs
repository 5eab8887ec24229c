use vstd::prelude::*;

pub mod parsed_value;
pub mod rounding;
pub mod scale_base;

pub use parsed_value::ParsedValue;
pub use scale_base::{BINARY as BINARY_SCALE_BASE, METRIC as METRIC_SCALE_BASE};

use rounding::{rounded_div, rounded_div_spec};
use vstd::arithmetic::power::{lemma_pow_adds, lemma_pow_increases, pow};

verus! {

broadcast use
    vstd::arithmetic::power::lemma_pow0,
    vstd::arithmetic::power::lemma_pow1,
    vstd::arithmetic::power::lemma_pow_positive;

/// The unit prefix symbol that stands for a power of the scale base.
pub open spec fn unit_symbol(exponent: int) -> char {
    if exponent <= 0 {
        'B'
    } else if exponent == 1 {
        'K'
    } else if exponent == 2 {
        'M'
    } else if exponent == 3 {
        'G'
    } else if exponent == 4 {
        'T'
    } else {
        'P'
    }
}

/// The largest exponent in `0..=5` whose power of the base does not exceed
/// the value; zero when even the base itself exceeds the value.
pub open spec fn chosen_exponent(base: int, value: int) -> nat {
    if value >= pow(base, 5) {
        5
    } else if value >= pow(base, 4) {
        4
    } else if value >= pow(base, 3) {
        3
    } else if value >= pow(base, 2) {
        2
    } else if value >= pow(base, 1) {
        1
    } else {
        0
    }
}

/// The record that parsing `value` under `base` must produce: the chosen
/// exponent, its unit symbol, the matching scale, and the coefficient
/// rounded to the nearest count of that scale.
pub open spec fn parse_value_spec(base: int, value: u64) -> ParsedValue {
    let exponent = chosen_exponent(base, value as int);
    let scale = pow(base, exponent);
    ParsedValue {
        coefficient: rounded_div_spec(value as int, scale) as u64,
        unit: unit_symbol(exponent as int),
        exponent: exponent as usize,
        scale: scale as u64,
    }
}

/// For every value of at least one, the chosen exponent is the unique
/// largest exponent in `0..=5` whose power of the base does not exceed the
/// value. (The value zero lies below even the zeroth power, one, and is
/// reported with exponent zero by convention.)
pub proof fn lemma_chosen_exponent_is_largest(base: int, value: int)
    requires
        2 <= base,
        1 <= value,
    ensures
        chosen_exponent(base, value) <= 5,
        value >= pow(base, chosen_exponent(base, value)),
        forall|e: nat| e <= 5 && value >= pow(base, e) ==> e <= chosen_exponent(base, value),
{
    let c = chosen_exponent(base, value);
    assert forall|e: nat| e <= 5 && value >= pow(base, e) implies e <= c by {
        if c < e {
            lemma_pow_increases(base as nat, (c + 1) as nat, e);
        }
    }
}

/// The parse result is a function of the scale base and the input alone:
/// variants whose bases agree return identical records for every input, so
/// two variants can differ in behaviour only through their scale base.
pub proof fn lemma_base_determines_result(base_a: int, base_b: int, value: u64)
    requires
        base_a == base_b,
    ensures
        parse_value_spec(base_a, value) == parse_value_spec(base_b, value),
{
}

/// The chosen exponent is pinned down by a lower bound at the exponent
/// itself and upper bounds at every larger exponent up to five.
proof fn lemma_chosen_exponent_from_bounds(base: int, value: int, e: nat)
    requires
        e <= 5,
        e > 0 ==> value >= pow(base, e),
        forall|j: nat| e < j <= 5 ==> value < pow(base, j),
    ensures
        chosen_exponent(base, value) == e,
{
    if e < 5 {
        assert(value < pow(base, 5));
    }
    if e < 4 {
        assert(value < pow(base, 4));
    }
    if e < 3 {
        assert(value < pow(base, 3));
    }
    if e < 2 {
        assert(value < pow(base, 2));
    }
    if e < 1 {
        assert(value < pow(base, 1));
    }
}

/// Map an exponent in `0..=5` to its unit prefix symbol.
fn unit_of_exponent(exponent: usize) -> (symbol: char)
    requires
        exponent <= 5,
    ensures
        symbol == unit_symbol(exponent as int),
{
    if exponent == 0 {
        'B'
    } else if exponent == 1 {
        'K'
    } else if exponent == 2 {
        'M'
    } else if exponent == 3 {
        'G'
    } else if exponent == 4 {
        'T'
    } else {
        'P'
    }
}

/// Unit prefix to count bytes.
pub trait MeasurementSystem: core::fmt::Debug + Default + Clone + Copy {
    /// Multiplication factor of the variant, at the specification level.
    spec fn spec_scale_base() -> u64;

    /// Every variant's base is at least two, and its fifth power fits in
    /// sixty-four bits, so the parsing algorithm never overflows.
    proof fn scale_base_properties()
        ensures
            2 <= Self::spec_scale_base(),
            pow(Self::spec_scale_base() as int, 5) <= u64::MAX,
    ;

    /// Get multiplication factor in number.
    fn scale_base(self) -> (base: u64)
        ensures
            base == Self::spec_scale_base(),
    ;

    /// Get scale in number: the base raised to the given exponent.
    fn scale(self, exp: usize) -> (scale: u64)
        requires
            pow(Self::spec_scale_base() as int, exp as nat) <= u64::MAX,
        ensures
            scale == pow(Self::spec_scale_base() as int, exp as nat),
    {
        proof {
            Self::scale_base_properties();
        }
        let base = self.scale_base();
        let mut scale: u64 = 1;
        let mut i: usize = 0;
        while i < exp
            invariant
                i <= exp,
                base == Self::spec_scale_base(),
                2 <= base,
                pow(base as int, exp as nat) <= u64::MAX,
                scale == pow(base as int, i as nat),
            decreases exp - i,
        {
            proof {
                lemma_pow_increases(base as nat, (i + 1) as nat, exp as nat);
                lemma_pow_adds(base as int, i as nat, 1);
            }
            scale = scale * base;
            i = i + 1;
        }
        scale
    }

    /// Parse a value according to the prefixing rule: pick the largest unit
    /// whose scale does not exceed the value, and round the coefficient to
    /// the nearest count of that scale.
    fn parse_value(self, value: u64) -> (parsed: ParsedValue)
        ensures
            parsed == parse_value_spec(Self::spec_scale_base() as int, value),
            parsed.exponent <= 5,
            parsed.scale == pow(Self::spec_scale_base() as int, parsed.exponent as nat),
            parsed.coefficient == rounded_div_spec(value as int, parsed.scale as int),
            parsed.exponent > 0 ==> parsed.scale <= value,
            forall|e: nat|
                parsed.exponent < e <= 5 ==> (value as int) < pow(
                    Self::spec_scale_base() as int,
                    e,
                ),
            value < Self::spec_scale_base() ==> parsed == (ParsedValue {
                coefficient: value,
                unit: 'B',
                exponent: 0,
                scale: 1,
            }),
    {
        proof {
            Self::scale_base_properties();
        }
        let mut exponent: usize = 5;
        while exponent >= 1
            invariant
                exponent <= 5,
                2 <= Self::spec_scale_base(),
                pow(Self::spec_scale_base() as int, 5) <= u64::MAX,
                forall|e: nat|
                    exponent < e <= 5 ==> (value as int) < pow(
                        Self::spec_scale_base() as int,
                        e,
                    ),
            decreases exponent,
        {
            proof {
                lemma_pow_increases(Self::spec_scale_base() as nat, exponent as nat, 5);
            }
            let scale = self.scale(exponent);
            if value >= scale {
                let coefficient = rounded_div(value, scale);
                let unit = unit_of_exponent(exponent);
                proof {
                    lemma_pow_increases(Self::spec_scale_base() as nat, 1, exponent as nat);
                    lemma_chosen_exponent_from_bounds(
                        Self::spec_scale_base() as int,
                        value as int,
                        exponent as nat,
                    );
                }
                return ParsedValue { coefficient, unit, exponent, scale };
            }
            exponent = exponent - 1;
        }
        proof {
            lemma_chosen_exponent_from_bounds(Self::spec_scale_base() as int, value as int, 0);
            assert(pow(Self::spec_scale_base() as int, 0) == 1);
            assert(rounded_div_spec(value as int, 1) == value as int);
        }
        ParsedValue { coefficient: value, unit: 'B', exponent: 0, scale: 1 }
    }
}

/// Use the metric system.
#[derive(Debug, Clone, Copy, PartialEq, Eq, Structural)]
pub struct Metric;

impl Default for Metric {
    /// The canonical metric instance; every instance behaves the same.
    fn default() -> (instance: Self)
        ensures
            instance == Metric,
    {
        Metric
    }
}

impl MeasurementSystem for Metric {
    open spec fn spec_scale_base() -> u64 {
        METRIC_SCALE_BASE
    }

    proof fn scale_base_properties() {
        reveal_with_fuel(pow, 6);
    }

    fn scale_base(self) -> u64 {
        METRIC_SCALE_BASE
    }
}

/// Use the binary system.
#[derive(Debug, Clone, Copy, PartialEq, Eq, Structural)]
pub struct Binary;

impl Default for Binary {
    /// The canonical binary instance; every instance behaves the same.
    fn default() -> (instance: Self)
        ensures
            instance == Binary,
    {
        Binary
    }
}

impl MeasurementSystem for Binary {
    open spec fn spec_scale_base() -> u64 {
        BINARY_SCALE_BASE
    }

    proof fn scale_base_properties() {
        reveal_with_fuel(pow, 6);
    }

    fn scale_base(self) -> u64 {
        BINARY_SCALE_BASE
    }
}

} // verus!

