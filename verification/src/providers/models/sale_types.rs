use vstd::prelude::*;

use crate::providers::models::CentPrice;

verus! {

#[derive(Copy, Clone, Debug, PartialEq, Eq, Structural)]
pub enum SaleType {
    NumPlusNumFree(NumPlusNumFree),
    NumPercentOff(NumPercentOff),
    NumthPercentOff(NumthPercentOff),
    NumForPrice(NumForPrice),
    NumEuroOff(NumEuroOff),
    NumEuroPrice(NumEuroPrice),
}

/// `1 + 1 GRATIS` (1 required, 1 free), `4 + 2 GRATIS`, `2e GRATIS` (1 required, 1 free).
///
/// Both counts are positive.
#[derive(Copy, Clone, Debug, PartialEq, Eq, Structural)]
pub struct NumPlusNumFree {
    pub required: u16,
    pub free: u16,
}

/// `20% OFF`, `50% OFF`.
#[derive(Copy, Clone, Debug, PartialEq, Eq, Structural)]
pub struct NumPercentOff {
    /// The percent reduction, in `1..=100`.
    percent_off: u16,
}

impl NumPercentOff {
    pub closed spec fn spec_percent_off(self) -> u16 {
        self.percent_off
    }

    /// The value that [NumPercentOff::new] makes of `percent_off`.
    pub closed spec fn spec_from(percent_off: u16) -> NumPercentOff {
        NumPercentOff { percent_off }
    }

    /// The percentage of [NumPercentOff::spec_from] is the one it was made of.
    pub proof fn lemma_spec_from(percent_off: u16)
        ensures
            NumPercentOff::spec_from(percent_off).spec_percent_off() == percent_off,
    {
    }

    #[verifier::type_invariant]
    closed spec fn percent_in_range(self) -> bool {
        0 < self.percent_off <= 100
    }

    /// A percentage off; `None` unless `0 < percent_off <= 100`.
    pub fn new(percent_off: u16) -> (res: Option<NumPercentOff>)
        ensures
            res is Some <==> 0 < percent_off <= 100,
            res matches Some(p) ==> p.spec_percent_off() == percent_off && p == NumPercentOff::spec_from(
                percent_off,
            ),
    {
        if percent_off == 0 || percent_off > 100 {
            None
        } else {
            Some(NumPercentOff { percent_off })
        }
    }

    /// The percent off, in `1..=100`.
    pub fn get_percent_off(&self) -> (res: u16)
        ensures
            res == self.spec_percent_off(),
            0 < res <= 100,
    {
        proof {
            use_type_invariant(self);
        }
        self.percent_off
    }
}

/// `2e HALVE PRIJS`: 2 required, the last 50% off. Both fields are positive.
#[derive(Copy, Clone, Debug, PartialEq, Eq, Structural)]
pub struct NumthPercentOff {
    pub required: u16,
    pub last_percent_off: u16,
}

/// `3 voor €4,50`: 3 required, 450 cents. `required` is positive.
#[derive(Copy, Clone, Debug, PartialEq, Eq, Structural)]
pub struct NumForPrice {
    pub required: u16,
    pub price: CentPrice,
}

/// Whether a sale is one that a label can describe: every count positive, and a percentage off in
/// `1..=100`.
pub open spec fn sale_type_valid(t: SaleType) -> bool {
    match t {
        SaleType::NumPlusNumFree(s) => s.required > 0 && s.free > 0,
        SaleType::NumPercentOff(s) => 0 < s.spec_percent_off() <= 100,
        SaleType::NumthPercentOff(s) => s.required > 0 && s.last_percent_off > 0,
        SaleType::NumForPrice(s) => s.required > 0,
        SaleType::NumEuroOff(_) => true,
        SaleType::NumEuroPrice(_) => true,
    }
}

/// `1 EURO KORTING`: 100 cents off.
#[derive(Copy, Clone, Debug, PartialEq, Eq, Structural)]
pub struct NumEuroOff {
    pub price_off: CentPrice,
}

/// `NU €4.00`: 400 cents.
#[derive(Copy, Clone, Debug, PartialEq, Eq, Structural)]
pub struct NumEuroPrice {
    pub price: CentPrice,
}

} // verus!
