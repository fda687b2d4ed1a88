use vstd::prelude::*;
use vstd::arithmetic::power::pow;

verus! {

/// An exact decimal amount: `mantissa / 10^scale`, in the range a
/// `rust_decimal::Decimal` can hold.
#[derive(Debug, Clone, Copy, PartialEq, Eq, Structural)]
pub struct Money {
    pub mantissa: i128,
    pub scale: u32,
}

/// The largest mantissa a decimal can hold (96 bits).
pub open spec fn max_mantissa() -> int {
    79228162514264337593543950335
}

impl Money {
    pub open spec fn wf(self) -> bool {
        &&& self.scale <= 28
        &&& -max_mantissa() <= self.mantissa <= max_mantissa()
    }

    /// Zero.
    pub fn zero() -> (r: Money)
        ensures
            r.wf(),
            r.mantissa == 0,
            r.scale == 0,
    {
        Money { mantissa: 0, scale: 0 }
    }

    /// The amount `mantissa / 10^scale`, or `None` when a decimal cannot hold it.
    pub fn new(mantissa: i128, scale: u32) -> (r: Option<Money>)
        ensures
            match r {
                Some(m) => m.wf() && m.mantissa == mantissa && m.scale == scale,
                None => !(Money { mantissa, scale }).wf(),
            },
    {
        if scale <= 28 && -79228162514264337593543950335i128 <= mantissa
            && mantissa <= 79228162514264337593543950335i128 {
            Some(Money { mantissa, scale })
        } else {
            None
        }
    }
}

/// `a <= b` as rational numbers.
pub open spec fn money_le(a: Money, b: Money) -> bool {
    a.mantissa * pow(10, b.scale as nat) <= b.mantissa * pow(10, a.scale as nat)
}

/// The mantissa of `a + b` at the larger of the two scales.
pub open spec fn sum_at_common_scale(a: Money, b: Money) -> int {
    let s = if a.scale >= b.scale { a.scale } else { b.scale };
    a.mantissa * pow(10, (s - a.scale) as nat) + b.mantissa * pow(10, (s - b.scale) as nat)
}

pub open spec fn common_scale(a: Money, b: Money) -> u32 {
    if a.scale >= b.scale { a.scale } else { b.scale }
}

/// Compares two amounts with `rust_decimal`'s `<=`, which orders decimals by
/// value.
#[verifier::external_body]
pub(crate) fn money_le_exec(a: &Money, b: &Money) -> (r: bool)
    requires
        a.wf(),
        b.wf(),
    ensures
        r == money_le(*a, *b),
{
    rust_decimal::Decimal::from_i128_with_scale(a.mantissa, a.scale)
        <= rust_decimal::Decimal::from_i128_with_scale(b.mantissa, b.scale)
}

/// Adds two amounts with `rust_decimal`'s `+`.  When the exact sum fits at
/// the larger scale, that is the result; otherwise the decimal rounds it,
/// and this contract says only that the result is a valid amount.
#[verifier::external_body]
pub(crate) fn money_add(a: &Money, b: &Money) -> (r: Money)
    requires
        a.wf(),
        b.wf(),
        -max_mantissa() * pow(10, common_scale(*a, *b) as nat) <= sum_at_common_scale(*a, *b)
            <= max_mantissa() * pow(10, common_scale(*a, *b) as nat),
    ensures
        r.wf(),
        -max_mantissa() <= sum_at_common_scale(*a, *b) <= max_mantissa() ==> r.mantissa
            * pow(10, common_scale(*a, *b) as nat) == sum_at_common_scale(*a, *b) * pow(10, r.scale as nat),
{
    let d = rust_decimal::Decimal::from_i128_with_scale(a.mantissa, a.scale)
        + rust_decimal::Decimal::from_i128_with_scale(b.mantissa, b.scale);
    Money { mantissa: d.mantissa(), scale: d.scale() }
}

} // verus!
