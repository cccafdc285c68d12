//! How a run can end short of a settled trade.

use vstd::prelude::*;

verus! {

/// Why a trade was given up. Nothing is wrong; the buyer cannot pay.
#[derive(Clone, Copy, Debug, PartialEq, Eq)]
pub enum Abandoned {
    /// The buyer's balance or the outputs that may pay fall short.
    InsufficientFunds,
    /// The buyer has no output that the wallet can spend and that holds no
    /// inscription.
    NoSpendableOutputs,
}

/// Why a run cannot go on.
#[derive(Clone, Copy, Debug, PartialEq, Eq)]
pub enum Fatal {
    /// Bytes handed in as a previous transaction are not a transaction.
    MalformedFunding,
    /// A previous transaction handed in is not the one whose output the
    /// input spends.
    WrongFunding,
    /// The transaction named as holding the inscribed output has no output
    /// at that index.
    OutputNotFound,
    /// The seller's text is not a partially signed transaction.
    MalformedOffer,
    /// The seller's transaction lacks an input or an output.
    EmptyOffer,
    /// The seller's input already holds a final unlocking script, so that no
    /// unsigned transaction can hold it.
    OfferAlreadyFinal,
    /// The separator names no owning address.
    MissingAddress,
    /// An address does not parse or belongs to another network.
    MalformedAddress,
    /// The separator is owned by another address than the one at which the
    /// buyer receives.
    ForeignSeparator,
    /// The largest output is too small to be split into a separator and
    /// change.
    SeparatorSourceTooSmall,
    /// A separator was minted, and still the wallet lists none.
    SeparatorMissing,
    /// The previous transactions handed in are not as many as were asked for.
    FundingMismatch,
    /// The oracle's answers are not as many as the outputs asked about.
    OracleMismatch,
    /// The payment inputs hold less than the trade requires.
    PaymentShort,
    /// Values add up to more than 64 bits hold.
    ValueOverflow,
    /// Something was reported that the run was not waiting for.
    UnexpectedEvent,
}

} // verus!
