//! Two-party sale of one inscribed output for a fixed price.
//!
//! A seller commits to one input and one output under a signature that covers
//! only that pair. A buyer adds a separator input, payment inputs and the
//! remaining outputs, and signs everything else. The functions here decide
//! which outputs are spent, what the combined transaction looks like and when
//! a trade is abandoned; every decision carries a machine-checked contract.
//!
//! - [`terms`]: the amounts of a trade.
//! - [`ledger`]: output references, unspent outputs, unsigned transactions.
//! - [`oracle`]: where to ask whether an output holds an inscription, and how
//!   to read the answer.
//! - [`coins`]: which outputs may pay, and which of them do.
//! - [`separator`]: the low-value output that takes the first input slot.
//! - [`offer`]: the seller's side.
//! - [`trade`]: the combined transaction.
//! - [`partial`]: partially signed transactions.
//! - [`flow`]: the buyer's run, one decision at a time.
//! - [`outcome`]: how a run can end short of a settled trade.
//! - [`wire`]: what is taken on trust from the `bitcoin` crate.
//!
//! Nothing here talks to a wallet, a node or the oracle; the caller does, and
//! reports to the run what came of it.

pub mod coins;
pub mod flow;
pub mod ledger;
pub mod offer;
pub mod oracle;
pub mod outcome;
pub mod partial;
pub mod separator;
pub mod terms;
pub mod trade;
pub mod wire;
