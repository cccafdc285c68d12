//! Partially signed transactions: an unsigned transaction together with what
//! each signer needs to know of the outputs that its inputs spend.

use vstd::prelude::*;
use crate::ledger::{
    input_views, output_views, same_id, OutPoint, TransactionView, TxIn, TxOut, TxOutView,
    UnsignedTransaction,
};
use crate::wire::{
    decode_transaction, psbt_adopt_input, psbt_extract, psbt_from_text, psbt_input_count,
    psbt_model, psbt_new, psbt_of_text, psbt_set_funding, psbt_set_sighash, psbt_text,
    psbt_to_text, transaction_id, transaction_of_bytes, tx_id, tx_input_at, tx_input_count,
    tx_model, tx_new, tx_output_at, tx_output_count, tx_push_input, tx_push_output,
    tx_witness_free, with_final_scripts, PartialView,
};

verus! {

/// A transaction as it stands on the ledger, with outputs that a later
/// transaction spends.
#[derive(Debug, PartialEq, Eq)]
pub struct Funding {
    inner: bitcoin::Transaction,
}

impl View for Funding {
    type V = TransactionView;

    closed spec fn view(&self) -> TransactionView {
        tx_model(self.inner)
    }
}

/// The outputs of `tx`, one by one.
fn outputs_of(tx: &bitcoin::Transaction) -> (outputs: Vec<TxOut>)
    ensures
        output_views(outputs@) == tx_model(*tx).output,
{
    let count: usize = tx_output_count(tx);
    let mut outputs: Vec<TxOut> = Vec::new();
    let mut i: usize = 0;
    while i < count
        invariant
            i <= count,
            count == tx_model(*tx).output.len(),
            outputs@.len() == i,
            forall|k: int| 0 <= k < i ==> (#[trigger] outputs@[k])@ == tx_model(*tx).output[k],
        decreases count - i,
    {
        outputs.push(tx_output_at(tx, i));
        i += 1;
    }
    proof {
        assert(output_views(outputs@) =~= tx_model(*tx).output);
    }
    outputs
}

impl Funding {
    /// Reads a transaction from the bytes that go over the wire; `None`
    /// where the bytes are no transaction.
    pub fn decode(raw: &[u8]) -> (funding: Option<Funding>)
        ensures
            transaction_of_bytes(raw@) is None ==> funding is None,
            transaction_of_bytes(raw@) is Some ==> funding is Some && Some(funding->Some_0@)
                == transaction_of_bytes(raw@),
    {
        match decode_transaction(raw) {
            Ok(inner) => Some(Funding { inner }),
            Err(_) => None,
        }
    }

    /// The id of the transaction.
    pub fn id(&self) -> (id: [u8; 32])
        ensures
            id@ == transaction_id(self@),
    {
        tx_id(&self.inner)
    }

    /// Tells whether this is the transaction that created `outpoint`.
    pub fn creates(&self, outpoint: &OutPoint) -> (yes: bool)
        ensures
            yes == (transaction_id(self@) == outpoint.txid@),
    {
        let id = self.id();
        same_id(&id, &outpoint.txid)
    }

    /// The outputs of the transaction.
    pub fn outputs(&self) -> (outputs: Vec<TxOut>)
        ensures
            output_views(outputs@) == self@.output,
    {
        outputs_of(&self.inner)
    }
}

/// A transaction on its way to being signed.
#[derive(Debug, PartialEq, Eq)]
pub struct PartialTransaction {
    inner: bitcoin::psbt::PartiallySignedTransaction,
}

impl View for PartialTransaction {
    type V = PartialView;

    closed spec fn view(&self) -> PartialView {
        psbt_model(self.inner)
    }
}

/// Why a partially signed transaction could not be made or changed.
#[derive(Clone, Copy, Debug, PartialEq, Eq)]
pub enum PartialError {
    /// An input of the transaction already holds an unlocking script.
    AlreadySigned,
    /// The text is not a partially signed transaction.
    MalformedText,
    /// The transaction has no input at the position that was named.
    NoSuchInput,
}

/// Some input of the transaction holds an unlocking script.
pub open spec fn holds_script_sig(tx: TransactionView) -> bool {
    exists|i: int| 0 <= i < tx.input.len() && (#[trigger] tx.input[i]).script_sig.len() > 0
}

/// The input at `index` holds a final unlocking script that is not empty.
pub open spec fn holds_final_script(partial: PartialView, index: int) -> bool {
    &&& 0 <= index < partial.final_script.len()
    &&& partial.final_script[index] matches Some(script)
    &&& script.len() > 0
}

/// No input carries a previous transaction, a signature-hash mode or a final
/// unlocking script yet.
pub open spec fn is_blank(partial: PartialView) -> bool {
    &&& partial.funding == Seq::new(partial.unsigned.input.len(), |i: int| None::<TransactionView>)
    &&& partial.sighash == Seq::new(partial.unsigned.input.len(), |i: int| None::<u32>)
    &&& partial.final_script == Seq::new(partial.unsigned.input.len(), |i: int| None::<Seq<u8>>)
    &&& partial.records.len() == partial.unsigned.input.len()
}

/// Hands the transaction over to the `bitcoin` crate, input by input and
/// output by output.
fn to_wire(tx: &UnsignedTransaction) -> (wire: bitcoin::Transaction)
    ensures
        tx_model(wire) == tx@,
        tx_witness_free(wire),
{
    let mut wire = tx_new(tx.version, tx.lock_time);
    let mut i: usize = 0;
    while i < tx.input.len()
        invariant
            i <= tx.input.len(),
            tx_witness_free(wire),
            tx_model(wire).version == tx.version,
            tx_model(wire).lock_time == tx.lock_time,
            tx_model(wire).output == Seq::<TxOutView>::empty(),
            tx_model(wire).input == tx@.input.take(i as int),
        decreases tx.input.len() - i,
    {
        tx_push_input(&mut wire, &tx.input[i]);
        proof {
            assert(tx@.input.take(i as int).push(tx.input@[i as int]@) =~= tx@.input.take(i + 1));
        }
        i += 1;
    }
    let mut j: usize = 0;
    while j < tx.output.len()
        invariant
            j <= tx.output.len(),
            tx_witness_free(wire),
            tx_model(wire).version == tx.version,
            tx_model(wire).lock_time == tx.lock_time,
            tx_model(wire).input == tx@.input.take(tx.input.len() as int),
            tx_model(wire).output == tx@.output.take(j as int),
        decreases tx.output.len() - j,
    {
        tx_push_output(&mut wire, &tx.output[j]);
        proof {
            assert(tx@.output.take(j as int).push(tx.output@[j as int]@) =~= tx@.output.take(
                j + 1,
            ));
        }
        j += 1;
    }
    proof {
        assert(tx@.input.take(tx.input.len() as int) =~= tx@.input);
        assert(tx@.output.take(tx.output.len() as int) =~= tx@.output);
    }
    wire
}

impl PartialTransaction {
    /// The base64 text of this transaction.
    pub closed spec fn text(&self) -> Seq<char> {
        psbt_text(self.inner)
    }

    /// Starts from an unsigned transaction. An input that already holds an
    /// unlocking script is refused; otherwise the result holds the
    /// transaction, and nothing yet for any of its inputs.
    pub fn new(tx: &UnsignedTransaction) -> (made: Result<PartialTransaction, PartialError>)
        ensures
            holds_script_sig(tx@) ==> made == Err::<PartialTransaction, PartialError>(
                PartialError::AlreadySigned,
            ),
            !holds_script_sig(tx@) ==> made is Ok && made->Ok_0@.unsigned == tx@ && is_blank(
                made->Ok_0@,
            ),
    {
        let wire = to_wire(tx);
        match psbt_new(wire) {
            Ok(inner) => Ok(PartialTransaction { inner }),
            Err(_) => Err(PartialError::AlreadySigned),
        }
    }

    /// Reads a partially signed transaction from its base64 text.
    pub fn from_text(text: &str) -> (parsed: Result<PartialTransaction, PartialError>)
        ensures
            psbt_of_text(text@) is None ==> parsed == Err::<PartialTransaction, PartialError>(
                PartialError::MalformedText,
            ),
            psbt_of_text(text@) is Some ==> parsed is Ok && Some(parsed->Ok_0@) == psbt_of_text(
                text@,
            ) && parsed->Ok_0@.records.len() == parsed->Ok_0@.unsigned.input.len(),
    {
        match psbt_from_text(text) {
            Ok(inner) => Ok(PartialTransaction { inner }),
            Err(_) => Err(PartialError::MalformedText),
        }
    }

    /// Writes the transaction as base64 text.
    pub fn to_text(&self) -> (text: String)
        ensures
            text@ == self.text(),
    {
        psbt_to_text(&self.inner)
    }

    /// Number of input maps.
    pub fn input_count(&self) -> (count: usize)
        ensures
            count == self@.records.len(),
            count == self@.funding.len(),
            count == self@.sighash.len(),
            count == self@.final_script.len(),
    {
        psbt_input_count(&self.inner)
    }

    /// Attaches `funding` to the input at `index`, as the transaction whose
    /// output the input spends. Where `index` names no input, nothing
    /// changes.
    pub fn attach_funding(&mut self, index: usize, funding: Funding) -> (done: Result<
        (),
        PartialError,
    >)
        ensures
            index >= old(self)@.records.len() ==> done == Err::<(), PartialError>(
                PartialError::NoSuchInput,
            ) && *final(self) == *old(self),
            index < old(self)@.records.len() ==> {
                &&& done == Ok::<(), PartialError>(())
                &&& final(self)@.unsigned == old(self)@.unsigned
                &&& final(self)@.funding == old(self)@.funding.update(index as int, Some(funding@))
                &&& final(self)@.sighash == old(self)@.sighash
                &&& final(self)@.final_script == old(self)@.final_script
                &&& final(self)@.records.len() == old(self)@.records.len()
                &&& forall|k: int|
                    0 <= k < old(self)@.records.len() && k != index ==> final(self)@.records[k]
                        == old(self)@.records[k]
            },
    {
        if index >= psbt_input_count(&self.inner) {
            return Err(PartialError::NoSuchInput);
        }
        psbt_set_funding(&mut self.inner, index, funding.inner);
        Ok(())
    }

    /// Demands that the input at `index` be signed under the signature-hash
    /// mode `mode`. Where `index` names no input, nothing changes.
    pub fn demand_sighash(&mut self, index: usize, mode: u32) -> (done: Result<(), PartialError>)
        ensures
            index >= old(self)@.records.len() ==> done == Err::<(), PartialError>(
                PartialError::NoSuchInput,
            ) && *final(self) == *old(self),
            index < old(self)@.records.len() ==> {
                &&& done == Ok::<(), PartialError>(())
                &&& final(self)@.unsigned == old(self)@.unsigned
                &&& final(self)@.funding == old(self)@.funding
                &&& final(self)@.sighash == old(self)@.sighash.update(index as int, Some(mode))
                &&& final(self)@.final_script == old(self)@.final_script
                &&& final(self)@.records.len() == old(self)@.records.len()
                &&& forall|k: int|
                    0 <= k < old(self)@.records.len() && k != index ==> final(self)@.records[k]
                        == old(self)@.records[k]
            },
    {
        if index >= psbt_input_count(&self.inner) {
            return Err(PartialError::NoSuchInput);
        }
        psbt_set_sighash(&mut self.inner, index, mode);
        Ok(())
    }

    /// Puts in place of the input map at `index` the map at `from` of
    /// `source`, with everything a signer left in it. Where either position
    /// names no input, nothing changes.
    pub fn adopt_input(&mut self, index: usize, source: &PartialTransaction, from: usize) -> (done:
        Result<(), PartialError>)
        ensures
            index >= old(self)@.records.len() || from >= source@.records.len() ==> done == Err::<
                (),
                PartialError,
            >(PartialError::NoSuchInput) && *final(self) == *old(self),
            index < old(self)@.records.len() && from < source@.records.len() ==> {
                &&& done == Ok::<(), PartialError>(())
                &&& final(self)@.unsigned == old(self)@.unsigned
                &&& final(self)@.funding == old(self)@.funding.update(
                    index as int,
                    source@.funding[from as int],
                )
                &&& final(self)@.sighash == old(self)@.sighash.update(
                    index as int,
                    source@.sighash[from as int],
                )
                &&& final(self)@.final_script == old(self)@.final_script.update(
                    index as int,
                    source@.final_script[from as int],
                )
                &&& final(self)@.records == old(self)@.records.update(
                    index as int,
                    source@.records[from as int],
                )
            },
    {
        if index >= psbt_input_count(&self.inner) || from >= psbt_input_count(&source.inner) {
            return Err(PartialError::NoSuchInput);
        }
        psbt_adopt_input(&mut self.inner, index, &source.inner, from);
        Ok(())
    }

    /// The transaction with the unlocking scripts that are final so far.
    pub open spec fn signed(&self) -> TransactionView {
        with_final_scripts(self@)
    }

    /// The inputs of the transaction as they stand, each with the unlocking
    /// script that its signer made final, if any. Outpoints and sequence
    /// numbers are those of the unsigned transaction.
    pub fn signed_inputs(&self) -> (inputs: Vec<TxIn>)
        ensures
            input_views(inputs@) == self.signed().input,
            inputs@.len() == self@.unsigned.input.len(),
            forall|i: int|
                0 <= i < inputs@.len() ==> {
                    &&& (#[trigger] inputs@[i]).previous_output
                        == self@.unsigned.input[i].previous_output
                    &&& inputs@[i].sequence == self@.unsigned.input[i].sequence
                },
    {
        let tx = psbt_extract(&self.inner);
        let count: usize = tx_input_count(&tx);
        let mut inputs: Vec<TxIn> = Vec::new();
        let mut i: usize = 0;
        while i < count
            invariant
                i <= count,
                count == tx_model(tx).input.len(),
                inputs@.len() == i,
                forall|k: int| 0 <= k < i ==> (#[trigger] inputs@[k])@ == tx_model(tx).input[k],
            decreases count - i,
        {
            inputs.push(tx_input_at(&tx, i));
            i += 1;
        }
        proof {
            assert(input_views(inputs@) =~= tx_model(tx).input);
            assert forall|i: int| 0 <= i < inputs@.len() implies {
                &&& (#[trigger] inputs@[i]).previous_output
                    == self@.unsigned.input[i].previous_output
                &&& inputs@[i].sequence == self@.unsigned.input[i].sequence
            } by {
                assert(inputs@[i]@ == tx_model(tx).input[i]);
            }
        }
        inputs
    }

    /// The outputs of the transaction.
    pub fn outputs(&self) -> (outputs: Vec<TxOut>)
        ensures
            output_views(outputs@) == self@.unsigned.output,
    {
        let tx = psbt_extract(&self.inner);
        outputs_of(&tx)
    }
}

} // verus!
