//! The fixed amounts of a trade, in base units.

use vstd::prelude::*;

verus! {

/// Price the seller asks for the inscribed output.
pub const PRICE: u64 = 1900;

/// Amount paid to the marketplace.
pub const SERVICE_FEE: u64 = 1000;

/// Value of the separator-sized output that the trade hands back to the buyer.
pub const ALLOWANCE: u64 = 1000;

/// Budget left to the network: two inputs of 180, three outputs of 34, and 10
/// for the remaining bytes, at one unit per byte.
pub const OVERHEAD: u64 = 472;

/// Largest value that an output may have to serve as a separator.
pub const DUST_THRESHOLD: u64 = 1000;

/// Network fee left by the transaction that mints a separator.
pub const SEPARATOR_FEE: u64 = 258;

/// The amounts that size a trade.
#[derive(Clone, Copy, Debug, PartialEq, Eq)]
pub struct TradeTerms {
    /// Paid to the seller.
    pub price: u64,
    /// Paid to the marketplace.
    pub service_fee: u64,
    /// Paid back to the buyer as a fresh separator-sized output.
    pub allowance: u64,
    /// Left unassigned, for the network.
    pub overhead: u64,
    /// An output at or below this value qualifies as a separator.
    pub dust_threshold: u64,
    /// Left unassigned by the transaction that mints a separator.
    pub separator_fee: u64,
}

impl TradeTerms {
    /// What the payment inputs of a trade must add up to, at least.
    pub open spec fn required_payment(&self) -> int {
        self.price + self.service_fee + self.allowance + self.overhead
    }

    /// What an output must exceed to be split into a separator and change.
    pub open spec fn separator_cost(&self) -> int {
        self.dust_threshold + self.separator_fee
    }

    /// The sum that the payment must reach fits in 64 bits.
    pub open spec fn well_formed(&self) -> bool {
        self.required_payment() <= u64::MAX
    }

    /// The terms every trade uses unless told otherwise.
    pub open spec fn standard_spec() -> TradeTerms {
        TradeTerms {
            price: PRICE,
            service_fee: SERVICE_FEE,
            allowance: ALLOWANCE,
            overhead: OVERHEAD,
            dust_threshold: DUST_THRESHOLD,
            separator_fee: SEPARATOR_FEE,
        }
    }

    pub fn standard() -> (terms: TradeTerms)
        ensures
            terms == Self::standard_spec(),
            terms.well_formed(),
            terms.required_payment() == 4372,
    {
        TradeTerms {
            price: PRICE,
            service_fee: SERVICE_FEE,
            allowance: ALLOWANCE,
            overhead: OVERHEAD,
            dust_threshold: DUST_THRESHOLD,
            separator_fee: SEPARATOR_FEE,
        }
    }

    /// Tells whether the sum that the payment must reach fits in 64 bits.
    pub fn is_well_formed(&self) -> (ok: bool)
        ensures
            ok == self.well_formed(),
    {
        let sum: u128 = self.price as u128 + self.service_fee as u128 + self.allowance as u128
            + self.overhead as u128;
        sum <= u64::MAX as u128
    }

    /// The sum that the payment inputs must reach.
    pub fn payment_threshold(&self) -> (sum: u64)
        requires
            self.well_formed(),
        ensures
            sum == self.required_payment(),
    {
        self.price + self.service_fee + self.allowance + self.overhead
    }
}

} // verus!
