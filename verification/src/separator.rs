//! The separator: a low-value output of the buyer that takes the first input
//! slot of a trade, and the transaction that mints one where none exists.

use vstd::pervasive::unreached;
use vstd::prelude::*;
use crate::ledger::{
    same_id, TransactionView, TxIn, TxOut, TxOutView, UnsignedTransaction, UnspentOutput,
    NO_LOCK_TIME, TX_VERSION,
};
use crate::outcome::Fatal;
use crate::partial::{Funding, PartialTransaction};
use crate::terms::TradeTerms;
use crate::wire::{
    address_script, script_of_address, transaction_id, transaction_of_bytes, Network,
};

verus! {

/// Some output is small enough to serve as a separator.
pub open spec fn has_dust(outputs: Seq<UnspentOutput>, dust: u64) -> bool {
    exists|i: int| 0 <= i < outputs.len() && #[trigger] outputs[i].value <= dust
}

/// `index` is the first output that is small enough to serve as a separator.
pub open spec fn is_first_dust(outputs: Seq<UnspentOutput>, index: int, dust: u64) -> bool {
    &&& 0 <= index < outputs.len()
    &&& outputs[index].value <= dust
    &&& forall|j: int| 0 <= j < index ==> #[trigger] outputs[j].value > dust
}

/// `index` holds the largest value, and is the last output that does.
pub open spec fn is_largest(outputs: Seq<UnspentOutput>, index: int) -> bool {
    &&& 0 <= index < outputs.len()
    &&& forall|j: int|
        0 <= j < outputs.len() ==> #[trigger] outputs[j].value <= outputs[index].value
    &&& forall|j: int|
        index < j < outputs.len() ==> #[trigger] outputs[j].value < outputs[index].value
}

/// Looks for the first output whose value does not exceed `dust`.
pub fn find_separator(outputs: &Vec<UnspentOutput>, dust: u64) -> (found: Option<usize>)
    ensures
        match found {
            Some(index) => is_first_dust(outputs@, index as int, dust),
            None => !has_dust(outputs@, dust),
        },
{
    let mut i: usize = 0;
    while i < outputs.len()
        invariant
            i <= outputs.len(),
            forall|j: int| 0 <= j < i ==> #[trigger] outputs@[j].value > dust,
        decreases outputs.len() - i,
    {
        if outputs[i].value <= dust {
            return Some(i);
        }
        i += 1;
    }
    None
}

/// Looks for the output of largest value; among equals, the last one.
pub fn find_largest(outputs: &Vec<UnspentOutput>) -> (found: Option<usize>)
    ensures
        match found {
            Some(index) => is_largest(outputs@, index as int),
            None => outputs@.len() == 0,
        },
{
    if outputs.len() == 0 {
        return None;
    }
    let mut best: usize = 0;
    let mut i: usize = 1;
    while i < outputs.len()
        invariant
            1 <= i <= outputs.len(),
            best < i,
            forall|j: int|
                0 <= j < i ==> #[trigger] outputs@[j].value <= outputs@[best as int].value,
            forall|j: int|
                best < j < i ==> #[trigger] outputs@[j].value < outputs@[best as int].value,
        decreases outputs.len() - i,
    {
        if outputs[i].value >= outputs[best].value {
            best = i;
        }
        i += 1;
    }
    Some(best)
}

/// How the buyer comes by a separator.
#[derive(Clone, Copy, Debug, PartialEq, Eq)]
pub enum SeparatorPlan {
    /// The output at `index` already qualifies; nothing is sent to the network.
    UseExisting { index: usize },
    /// No output qualifies; the output at `source` is split to mint one.
    Mint { source: usize },
}

/// Why the buyer cannot come by a separator.
#[derive(Clone, Copy, Debug, PartialEq, Eq)]
pub enum SeparatorError {
    /// The buyer has no output to use or to split.
    NothingToSpend,
    /// The largest output does not exceed the separator's value plus the fee
    /// of minting it, so splitting it would leave no change.
    SourceTooSmall,
}

/// `plan` is the answer that `outputs` and `terms` call for.
pub open spec fn plan_fits(
    outputs: Seq<UnspentOutput>,
    terms: TradeTerms,
    plan: Result<SeparatorPlan, SeparatorError>,
) -> bool {
    match plan {
        Ok(SeparatorPlan::UseExisting { index }) => is_first_dust(
            outputs,
            index as int,
            terms.dust_threshold,
        ),
        Ok(SeparatorPlan::Mint { source }) => {
            &&& !has_dust(outputs, terms.dust_threshold)
            &&& is_largest(outputs, source as int)
            &&& outputs[source as int].value > terms.separator_cost()
        },
        Err(SeparatorError::NothingToSpend) => outputs.len() == 0,
        Err(SeparatorError::SourceTooSmall) => {
            &&& !has_dust(outputs, terms.dust_threshold)
            &&& outputs.len() > 0
            &&& forall|j: int|
                0 <= j < outputs.len() ==> #[trigger] outputs[j].value <= terms.separator_cost()
        },
    }
}

/// Decides how the buyer comes by a separator: the first output at or below
/// the dust threshold where there is one, else a split of the largest output,
/// provided that it leaves change.
pub fn plan_separator(spendable: &Vec<UnspentOutput>, terms: &TradeTerms) -> (plan: Result<
    SeparatorPlan,
    SeparatorError,
>)
    ensures
        plan_fits(spendable@, *terms, plan),
        has_dust(spendable@, terms.dust_threshold) ==> plan is Ok && plan->Ok_0 is UseExisting,
{
    match find_separator(spendable, terms.dust_threshold) {
        Some(index) => Ok(SeparatorPlan::UseExisting { index }),
        None => match find_largest(spendable) {
            None => Err(SeparatorError::NothingToSpend),
            Some(source) => {
                let cost: u128 = terms.dust_threshold as u128 + terms.separator_fee as u128;
                if spendable[source].value as u128 > cost {
                    Ok(SeparatorPlan::Mint { source })
                } else {
                    Err(SeparatorError::SourceTooSmall)
                }
            },
        },
    }
}

/// The outputs and the terms leave no choice: two answers that both fit are
/// the same answer.
pub proof fn lemma_plan_is_determined(
    outputs: Seq<UnspentOutput>,
    terms: TradeTerms,
    one: Result<SeparatorPlan, SeparatorError>,
    other: Result<SeparatorPlan, SeparatorError>,
)
    requires
        plan_fits(outputs, terms, one),
        plan_fits(outputs, terms, other),
    ensures
        one == other,
{
    match (one, other) {
        (
            Ok(SeparatorPlan::UseExisting { index: a }),
            Ok(SeparatorPlan::UseExisting { index: b }),
        ) => {
            if a < b {
                assert(outputs[a as int].value > terms.dust_threshold);
            } else if b < a {
                assert(outputs[b as int].value > terms.dust_threshold);
            }
        },
        (Ok(SeparatorPlan::Mint { source: a }), Ok(SeparatorPlan::Mint { source: b })) => {
            if a < b {
                assert(outputs[b as int].value < outputs[a as int].value);
                assert(outputs[a as int].value <= outputs[b as int].value);
            } else if b < a {
                assert(outputs[a as int].value < outputs[b as int].value);
                assert(outputs[b as int].value <= outputs[a as int].value);
            }
        },
        (Ok(SeparatorPlan::UseExisting { index }), _) => {
            assert(outputs[index as int].value <= terms.dust_threshold);
        },
        (_, Ok(SeparatorPlan::UseExisting { index })) => {
            assert(outputs[index as int].value <= terms.dust_threshold);
        },
        (Ok(SeparatorPlan::Mint { source }), _) => {
            assert(outputs[source as int].value <= terms.separator_cost());
        },
        (_, Ok(SeparatorPlan::Mint { source })) => {
            assert(outputs[source as int].value <= terms.separator_cost());
        },
        _ => {},
    }
}

/// Where an output already qualifies as a separator, the plan that fits mints
/// nothing, however often it is asked for.
pub proof fn lemma_existing_separator_is_reused(
    outputs: Seq<UnspentOutput>,
    terms: TradeTerms,
    plan: Result<SeparatorPlan, SeparatorError>,
)
    requires
        has_dust(outputs, terms.dust_threshold),
        plan_fits(outputs, terms, plan),
    ensures
        plan matches Ok(SeparatorPlan::UseExisting { index }) && is_first_dust(
            outputs,
            index as int,
            terms.dust_threshold,
        ),
{
}

/// Position of the separator among the outputs of the transaction that mints
/// it; the change follows.
pub const MINTED_SEPARATOR_OUTPUT: u32 = 0;

/// `output` is the separator that the transaction `id` minted: its output at
/// the separator's position, with a value that qualifies.
pub open spec fn is_minted_separator(output: UnspentOutput, id: Seq<u8>, dust: u64) -> bool {
    &&& output.outpoint.txid@ == id
    &&& output.outpoint.vout == MINTED_SEPARATOR_OUTPUT
    &&& output.value <= dust
}

/// The separator that the transaction `id` minted is among the outputs.
pub open spec fn holds_minted(outputs: Seq<UnspentOutput>, id: Seq<u8>, dust: u64) -> bool {
    exists|i: int| 0 <= i < outputs.len() && is_minted_separator(#[trigger] outputs[i], id, dust)
}

/// `index` is the first output that is the separator that `id` minted.
pub open spec fn is_first_minted(
    outputs: Seq<UnspentOutput>,
    index: int,
    id: Seq<u8>,
    dust: u64,
) -> bool {
    &&& 0 <= index < outputs.len()
    &&& is_minted_separator(outputs[index], id, dust)
    &&& forall|j: int| 0 <= j < index ==> !is_minted_separator(#[trigger] outputs[j], id, dust)
}

/// Looks for the separator that the transaction `id` minted: the output of
/// that transaction at the separator's position. Its change, though it may be
/// as small, is no separator.
pub fn find_minted(outputs: &Vec<UnspentOutput>, id: &[u8; 32], dust: u64) -> (found: Option<
    usize,
>)
    ensures
        match found {
            Some(index) => is_first_minted(outputs@, index as int, id@, dust),
            None => !holds_minted(outputs@, id@, dust),
        },
{
    let mut i: usize = 0;
    while i < outputs.len()
        invariant
            i <= outputs.len(),
            forall|j: int| 0 <= j < i ==> !is_minted_separator(#[trigger] outputs@[j], id@, dust),
        decreases outputs.len() - i,
    {
        if outputs[i].outpoint.vout == MINTED_SEPARATOR_OUTPUT && outputs[i].value <= dust
            && same_id(&outputs[i].outpoint.txid, id) {
            return Some(i);
        }
        i += 1;
    }
    None
}

/// The transaction that splits `source` into a separator and change, both
/// locked by `script`.
pub open spec fn mint_spec(source: UnspentOutput, script: Seq<u8>, terms: TradeTerms)
    -> TransactionView {
    TransactionView {
        version: TX_VERSION,
        lock_time: NO_LOCK_TIME,
        input: seq![TxIn::unsigned_spec(source.outpoint)],
        output: seq![
            TxOutView { value: terms.dust_threshold, script_pubkey: script },
            TxOutView {
                value: (source.value - terms.separator_cost()) as u64,
                script_pubkey: script,
            },
        ],
    }
}

/// Builds the transaction that mints a separator out of `source`: one input,
/// a first output of exactly the dust threshold, and a second output with the
/// rest less the fee. It refuses a source that would leave no change.
pub fn mint_separator(source: &UnspentOutput, script: &Vec<u8>, terms: &TradeTerms) -> (minted:
    Result<UnsignedTransaction, SeparatorError>)
    ensures
        source.value <= terms.separator_cost() ==> minted == Err::<
            UnsignedTransaction,
            SeparatorError,
        >(SeparatorError::SourceTooSmall),
        source.value > terms.separator_cost() ==> minted is Ok && minted->Ok_0@ == mint_spec(
            *source,
            script@,
            *terms,
        ),
{
    let cost: u128 = terms.dust_threshold as u128 + terms.separator_fee as u128;
    if source.value as u128 <= cost {
        return Err(SeparatorError::SourceTooSmall);
    }
    let change: u64 = (source.value as u128 - cost) as u64;
    let mut input: Vec<TxIn> = Vec::new();
    input.push(TxIn::unsigned(source.outpoint));
    let mut output: Vec<TxOut> = Vec::new();
    output.push(TxOut { value: terms.dust_threshold, script_pubkey: script.clone() });
    output.push(TxOut { value: change, script_pubkey: script.clone() });
    let tx = UnsignedTransaction { version: TX_VERSION, lock_time: NO_LOCK_TIME, input, output };
    proof {
        assert(tx@.input =~= mint_spec(*source, script@, *terms).input);
        assert(tx@.output =~= mint_spec(*source, script@, *terms).output);
    }
    Ok(tx)
}

/// The minting transaction holds the separator at the separator's position,
/// with exactly the dust threshold for a value, and the change behind it.
pub proof fn lemma_minted_separator_is_dust(
    source: UnspentOutput,
    script: Seq<u8>,
    terms: TradeTerms,
)
    ensures
        mint_spec(source, script, terms).output.len() == 2,
        mint_spec(source, script, terms).output[MINTED_SEPARATOR_OUTPUT as int].value
            == terms.dust_threshold,
        mint_spec(source, script, terms).output[MINTED_SEPARATOR_OUTPUT as int].script_pubkey
            == script,
{
}

/// The reason for which no separator can be minted out of `source`, if any;
/// `funding` encodes the transaction that created `source`.
pub open spec fn mint_failure(
    source: UnspentOutput,
    funding: Seq<u8>,
    network: Network,
    terms: TradeTerms,
) -> Option<Fatal> {
    if source.address is None {
        Some(Fatal::MissingAddress)
    } else if script_of_address(source.address->Some_0@, network) is None {
        Some(Fatal::MalformedAddress)
    } else if source.value <= terms.separator_cost() {
        Some(Fatal::SeparatorSourceTooSmall)
    } else if transaction_of_bytes(funding) is None {
        Some(Fatal::MalformedFunding)
    } else if transaction_id(transaction_of_bytes(funding)->Some_0) != source.outpoint.txid@ {
        Some(Fatal::WrongFunding)
    } else {
        None
    }
}

/// Prepares for signing the transaction that mints a separator out of
/// `source`. Both outputs go to the address that owns `source`; `funding`,
/// the transaction that created `source`, is attached to the one input.
pub fn prepare_mint(
    source: &UnspentOutput,
    funding: &[u8],
    network: Network,
    terms: &TradeTerms,
) -> (prepared: Result<PartialTransaction, Fatal>)
    ensures
        match prepared {
            Ok(partial) => {
                &&& mint_failure(*source, funding@, network, *terms) is None
                &&& partial@.unsigned == mint_spec(
                    *source,
                    script_of_address(source.address->Some_0@, network)->Some_0,
                    *terms,
                )
                &&& partial@.funding == seq![transaction_of_bytes(funding@)]
                &&& partial@.sighash == seq![None::<u32>]
                &&& partial@.final_script == seq![None::<Seq<u8>>]
                &&& partial@.records.len() == 1
            },
            Err(cause) => mint_failure(*source, funding@, network, *terms) == Some(cause),
        },
{
    let script = match &source.address {
        None => {
            return Err(Fatal::MissingAddress);
        },
        Some(address) => match address_script(address.as_str(), network) {
            Ok(script) => script,
            Err(_) => {
                return Err(Fatal::MalformedAddress);
            },
        },
    };
    let tx = match mint_separator(source, &script, terms) {
        Ok(tx) => tx,
        Err(_) => {
            return Err(Fatal::SeparatorSourceTooSmall);
        },
    };
    let created = match Funding::decode(funding) {
        Some(created) => created,
        None => {
            return Err(Fatal::MalformedFunding);
        },
    };
    if !created.creates(&source.outpoint) {
        return Err(Fatal::WrongFunding);
    }
    proof {
        assert(tx@.input[0].script_sig.len() == 0);
    }
    let mut partial = match PartialTransaction::new(&tx) {
        Ok(partial) => partial,
        Err(_) => unreached(),
    };
    if partial.attach_funding(0, created).is_err() {
        unreached()
    }
    proof {
        assert(partial@.funding =~= seq![transaction_of_bytes(funding@)]);
        assert(partial@.sighash =~= seq![None::<u32>]);
        assert(partial@.final_script =~= seq![None::<Seq<u8>>]);
    }
    Ok(partial)
}

} // verus!
