//! The seller's side of a trade: one input, the inscribed output, and one
//! output, the price, paid to whoever holds the inscribed output now.

use vstd::pervasive::unreached;
use vstd::prelude::*;
use crate::ledger::{
    output_views, OutPoint, TransactionView, TxIn, TxOut, TxOutView, UnsignedTransaction,
    NO_LOCK_TIME, TX_VERSION,
};
use crate::outcome::Fatal;
use crate::partial::{Funding, PartialTransaction};
use crate::wire::{psbt_of_text, transaction_id, transaction_of_bytes};

verus! {

/// Signature-hash mode under which the seller signs: it commits to the
/// seller's own input and to the output at the same index, and to nothing
/// else, so that inputs and outputs can be added without breaking it.
pub const SIGHASH_SINGLE_ANYONE_CAN_PAY: u32 = 0x83;

/// The seller's transaction for `inscription`, which `held` locks at present.
pub open spec fn offer_spec(inscription: OutPoint, held: TxOutView, price: u64)
    -> TransactionView {
    TransactionView {
        version: TX_VERSION,
        lock_time: NO_LOCK_TIME,
        input: seq![TxIn::unsigned_spec(inscription)],
        output: seq![TxOutView { value: price, script_pubkey: held.script_pubkey }],
    }
}

/// Builds the seller's unsigned transaction: it spends `inscription` and pays
/// `price` to the script that locks the inscribed output `held`.
pub fn offer_transaction(inscription: OutPoint, held: &TxOut, price: u64) -> (tx:
    UnsignedTransaction)
    ensures
        tx@ == offer_spec(inscription, held@, price),
{
    let mut input: Vec<TxIn> = Vec::new();
    input.push(TxIn::unsigned(inscription));
    let mut output: Vec<TxOut> = Vec::new();
    output.push(TxOut { value: price, script_pubkey: held.script_pubkey.clone() });
    let tx = UnsignedTransaction { version: TX_VERSION, lock_time: NO_LOCK_TIME, input, output };
    proof {
        assert(tx@.input =~= offer_spec(inscription, held@, price).input);
        assert(tx@.output =~= offer_spec(inscription, held@, price).output);
    }
    tx
}

/// Picks the inscribed output out of the outputs of the transaction that
/// created it; `None` where that transaction has no output at `vout`.
pub fn inscribed_output(outputs: &Vec<TxOut>, vout: u32) -> (held: Option<TxOut>)
    ensures
        vout < outputs@.len() ==> held is Some && held->Some_0@ == outputs@[vout as int]@,
        vout >= outputs@.len() ==> held is None,
{
    if (vout as usize) < outputs.len() {
        Some(outputs[vout as usize].duplicate())
    } else {
        None
    }
}

/// What the seller hands to a wallet for signing, and the inscribed output
/// as it stands on the ledger.
#[derive(Debug, PartialEq, Eq)]
pub struct Offer {
    /// The seller's transaction, with the transaction that created the
    /// inscribed output attached to its input, and the signature-hash mode
    /// that the signer must use.
    pub partial: PartialTransaction,
    /// The inscribed output: its value and the script that locks it.
    pub held: TxOut,
}

/// The reason for which no offer can be made for `inscription`, if any;
/// `funding` encodes the transaction that created it.
pub open spec fn offer_failure(inscription: OutPoint, funding: Seq<u8>) -> Option<Fatal> {
    match transaction_of_bytes(funding) {
        None => Some(Fatal::MalformedFunding),
        Some(tx) => if transaction_id(tx) != inscription.txid@ {
            Some(Fatal::WrongFunding)
        } else if inscription.vout >= tx.output.len() {
            Some(Fatal::OutputNotFound)
        } else {
            None
        },
    }
}

/// `offer` is the offer for `inscription` at `price`.
pub open spec fn offer_fits(offer: Offer, inscription: OutPoint, funding: Seq<u8>, price: u64)
    -> bool {
    let tx = transaction_of_bytes(funding)->Some_0;
    &&& offer.held@ == tx.output[inscription.vout as int]
    &&& offer.partial@.unsigned == offer_spec(inscription, offer.held@, price)
    &&& offer.partial@.funding == seq![Some(tx)]
    &&& offer.partial@.sighash == seq![Some(SIGHASH_SINGLE_ANYONE_CAN_PAY)]
    &&& offer.partial@.final_script == seq![None::<Seq<u8>>]
    &&& offer.partial@.records.len() == 1
}

/// Prepares the seller's side for signing. `funding` is the transaction that
/// created the inscribed output, as it goes over the wire; bytes that are no
/// transaction, or a transaction of another id, are refused.
pub fn prepare_offer(inscription: OutPoint, funding: &[u8], price: u64) -> (prepared: Result<
    Offer,
    Fatal,
>)
    ensures
        match prepared {
            Ok(offer) => offer_failure(inscription, funding@) is None && offer_fits(
                offer,
                inscription,
                funding@,
                price,
            ),
            Err(cause) => offer_failure(inscription, funding@) == Some(cause),
        },
{
    let created = match Funding::decode(funding) {
        Some(created) => created,
        None => {
            return Err(Fatal::MalformedFunding);
        },
    };
    if !created.creates(&inscription) {
        return Err(Fatal::WrongFunding);
    }
    let outputs = created.outputs();
    proof {
        assert(outputs@.len() == output_views(outputs@).len());
    }
    let held = match inscribed_output(&outputs, inscription.vout) {
        Some(held) => held,
        None => {
            return Err(Fatal::OutputNotFound);
        },
    };
    let tx = offer_transaction(inscription, &held, price);
    proof {
        assert(tx@.input[0].script_sig.len() == 0);
    }
    let mut partial = match PartialTransaction::new(&tx) {
        Ok(partial) => partial,
        Err(_) => unreached(),
    };
    if partial.attach_funding(0, created).is_err() {
        unreached()
    }
    if partial.demand_sighash(0, SIGHASH_SINGLE_ANYONE_CAN_PAY).is_err() {
        unreached()
    }
    proof {
        let wanted = transaction_of_bytes(funding@)->Some_0;
        assert(partial@.funding =~= seq![Some(wanted)]);
        assert(partial@.sighash =~= seq![Some(SIGHASH_SINGLE_ANYONE_CAN_PAY)]);
        assert(partial@.final_script =~= seq![None::<Seq<u8>>]);
    }
    Ok(Offer { partial, held })
}

/// Reads the seller's transaction as the seller's wallet handed it back.
pub fn read_offer(text: &str) -> (offer: Result<PartialTransaction, Fatal>)
    ensures
        psbt_of_text(text@) is None ==> offer == Err::<PartialTransaction, Fatal>(
            Fatal::MalformedOffer,
        ),
        psbt_of_text(text@) is Some ==> offer is Ok && Some(offer->Ok_0@) == psbt_of_text(text@),
{
    match PartialTransaction::from_text(text) {
        Ok(partial) => Ok(partial),
        Err(_) => Err(Fatal::MalformedOffer),
    }
}

} // verus!
