use vstd::prelude::*;

verus! {

/// A money value with exactly four fractional decimal digits, stored as a
/// signed count of 1/10_000 currency units. All stored or compared money
/// quantities in this crate use this type, so arithmetic on money is exact
/// fixed-point arithmetic with no floating-point drift. Conversion from any
/// raw numeric input (including rounding to four digits) happens once, at
/// ingestion, outside this crate; from then on only these exact operations
/// touch the value.
#[derive(Clone, Copy, Debug, PartialEq, Eq, Structural)]
pub struct Amount {
    /// The value in units of 1/10_000, e.g. `5.0` is `50_000`.
    pub units: i64,
}

impl View for Amount {
    type V = int;

    open spec fn view(&self) -> int {
        self.units as int
    }
}

/// Whether a mathematical value is representable as an `Amount`.
pub open spec fn fits_amount(v: int) -> bool {
    i64::MIN <= v <= i64::MAX
}

/// The `Amount` holding a representable mathematical value.
pub open spec fn amount_from_int(v: int) -> Amount {
    Amount { units: v as i64 }
}

impl Amount {
    /// The amount holding `units` counts of 1/10_000.
    pub fn new(units: i64) -> (r: Amount)
        ensures
            r@ == units as int,
    {
        Amount { units }
    }

    /// The zero amount.
    pub fn zero() -> (r: Amount)
        ensures
            r@ == 0,
    {
        Amount { units: 0 }
    }

    /// Exact addition; `None` when the sum leaves the representable range.
    pub fn checked_add(self, other: Amount) -> (r: Option<Amount>)
        ensures
            fits_amount(self@ + other@) ==> r == Some(amount_from_int(self@ + other@)),
            !fits_amount(self@ + other@) ==> r is None,
    {
        match self.units.checked_add(other.units) {
            Some(u) => Some(Amount { units: u }),
            None => None,
        }
    }

    /// Exact subtraction; `None` when the difference leaves the representable
    /// range.
    pub fn checked_sub(self, other: Amount) -> (r: Option<Amount>)
        ensures
            fits_amount(self@ - other@) ==> r == Some(amount_from_int(self@ - other@)),
            !fits_amount(self@ - other@) ==> r is None,
    {
        match self.units.checked_sub(other.units) {
            Some(u) => Some(Amount { units: u }),
            None => None,
        }
    }

    /// Exact ordered comparison.
    pub fn lt(self, other: Amount) -> (r: bool)
        ensures
            r == (self@ < other@),
    {
        self.units < other.units
    }
}

} // verus!
