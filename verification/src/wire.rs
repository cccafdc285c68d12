//! The boundary to the `bitcoin` crate: its transactions, its partially
//! signed transactions, and its text forms of addresses and output references.
//!
//! Nothing in this file is proved. Each function states what the crate's
//! source shows of the call it makes, and the rest of the library is proved
//! from these statements.

use vstd::prelude::*;
use crate::ledger::{OutPoint, TransactionView, TxIn, TxInView, TxOut};

verus! {

/// `bitcoin::Transaction`, held without looking inside.
#[verifier::external_type_specification]
#[verifier::external_body]
pub struct ExTransaction(bitcoin::Transaction);

/// `bitcoin::psbt::PartiallySignedTransaction`, held without looking inside.
#[verifier::external_type_specification]
#[verifier::external_body]
pub struct ExPartiallySignedTransaction(bitcoin::psbt::PartiallySignedTransaction);

/// The error of `bitcoin::consensus::encode::deserialize`.
#[verifier::external_type_specification]
#[verifier::external_body]
pub struct ExDecodeError(bitcoin::consensus::encode::Error);

/// The error of `Psbt::from_unsigned_tx`.
#[verifier::external_type_specification]
#[verifier::external_body]
pub struct ExPsbtError(bitcoin::psbt::Error);

/// The error of parsing a partially signed transaction from text.
#[verifier::external_type_specification]
#[verifier::external_body]
pub struct ExPsbtParseError(bitcoin::psbt::PsbtParseError);

/// The error of parsing an address or of checking its network.
#[verifier::external_type_specification]
#[verifier::external_body]
pub struct ExAddressError(bitcoin::address::Error);

/// The error of parsing an output reference from text.
#[verifier::external_type_specification]
#[verifier::external_body]
pub struct ExParseOutPointError(bitcoin::blockdata::transaction::ParseOutPointError);

/// The chain an address belongs to.
#[derive(Clone, Copy, Debug, PartialEq, Eq)]
pub enum Network {
    Bitcoin,
    Testnet,
    Signet,
    Regtest,
}

/// What the signing data of a partially signed transaction holds, as far as
/// this library looks at it. The last four fields have one entry per input.
pub struct PartialView {
    /// The unsigned transaction.
    pub unsigned: TransactionView,
    /// The previous transaction attached to each input, if any.
    pub funding: Seq<Option<TransactionView>>,
    /// The signature-hash mode demanded for each input, if any.
    pub sighash: Seq<Option<u32>>,
    /// The final unlocking script of each input, where its signer left one.
    pub final_script: Seq<Option<Seq<u8>>>,
    /// Everything that each input's map holds, as the bytes that the crate
    /// writes for it when it serializes the transaction.
    pub records: Seq<Seq<u8>>,
}

/// Version, lock time (as the 32-bit number that goes on the wire), inputs
/// and outputs of a `bitcoin::Transaction`. Of each input: the output it
/// spends, with the transaction id in the byte order of the hash, the bytes
/// of `script_sig`, and the sequence number. Witnesses are left out.
pub uninterp spec fn tx_model(tx: bitcoin::Transaction) -> TransactionView;

/// Whether the witness of every input of a `bitcoin::Transaction` is empty.
pub uninterp spec fn tx_witness_free(tx: bitcoin::Transaction) -> bool;

/// The id that `txid` computes for a transaction, in the byte order of the
/// hash. It covers version, inputs, outputs and lock time, and no witness, so
/// that the model determines it.
pub uninterp spec fn transaction_id(tx: TransactionView) -> Seq<u8>;

/// What `bitcoin::consensus::encode::deserialize` makes of `raw` as a
/// transaction: its model, or `None` where it reports an error.
pub uninterp spec fn transaction_of_bytes(raw: Seq<u8>) -> Option<TransactionView>;

/// The fields `unsigned_tx` and `inputs` of a partially signed transaction:
/// the model of the former, and of each entry of the latter the model of
/// `non_witness_utxo`, the number in `sighash_type`, the bytes of
/// `final_script_sig`, and the bytes of the whole map. The four runs are as
/// long as `inputs`.
pub uninterp spec fn psbt_model(psbt: bitcoin::psbt::PartiallySignedTransaction) -> PartialView;

/// The base64 text that `Display` writes for a partially signed transaction.
pub uninterp spec fn psbt_text(psbt: bitcoin::psbt::PartiallySignedTransaction) -> Seq<char>;

/// What `FromStr` makes of `text` as a partially signed transaction: its
/// model, or `None` where it reports an error.
pub uninterp spec fn psbt_of_text(text: Seq<char>) -> Option<PartialView>;

/// The locking script of the address that `text` spells, provided that the
/// address parses and is valid on `network`; else `None`.
pub uninterp spec fn script_of_address(text: Seq<char>, network: Network) -> Option<Seq<u8>>;

/// The text that `Display` writes for an output reference: the transaction
/// id in hexadecimal, a colon, and the output index in decimal.
pub uninterp spec fn outpoint_text(txid: Seq<u8>, vout: u32) -> Seq<char>;

/// What `FromStr` makes of `text` as an output reference: the transaction id
/// and the output index, or `None` where it reports an error.
pub uninterp spec fn outpoint_of_text(text: Seq<char>) -> Option<(Seq<u8>, u32)>;

/// Calls `bitcoin::consensus::encode::deserialize` for a transaction. The
/// result is named by `transaction_of_bytes`.
#[verifier::external_body]
pub(crate) fn decode_transaction(raw: &[u8]) -> (decoded: Result<
    bitcoin::Transaction,
    bitcoin::consensus::encode::Error,
>)
    ensures
        match decoded {
            Ok(tx) => transaction_of_bytes(raw@) == Some(tx_model(tx)),
            Err(_) => transaction_of_bytes(raw@) is None,
        },
{
    bitcoin::consensus::encode::deserialize(raw)
}

/// Calls `txid`, which hashes version, inputs, outputs and lock time of the
/// transaction and leaves the witnesses out. The result is named by
/// `transaction_id`.
#[verifier::external_body]
pub(crate) fn tx_id(tx: &bitcoin::Transaction) -> (id: [u8; 32])
    ensures
        id@ == transaction_id(tx_model(*tx)),
{
    bitcoin::hashes::Hash::to_byte_array(tx.txid())
}

/// Makes a `bitcoin::Transaction` without inputs and outputs, with the lock
/// time from `LockTime::from_consensus`, which `to_consensus_u32` gives back.
#[verifier::external_body]
pub(crate) fn tx_new(version: i32, lock_time: u32) -> (tx: bitcoin::Transaction)
    ensures
        tx_model(tx) == (TransactionView {
            version,
            lock_time,
            input: Seq::empty(),
            output: Seq::empty(),
        }),
        tx_witness_free(tx),
{
    bitcoin::Transaction {
        version,
        lock_time: bitcoin::absolute::LockTime::from_consensus(lock_time),
        input: Vec::new(),
        output: Vec::new(),
    }
}

/// Appends to `tx.input` an input with the fields of `input` and an empty
/// witness. Nothing else of `tx` changes.
#[verifier::external_body]
pub(crate) fn tx_push_input(tx: &mut bitcoin::Transaction, input: &TxIn)
    ensures
        tx_model(*final(tx)) == (TransactionView {
            input: tx_model(*old(tx)).input.push(input@),
            ..tx_model(*old(tx))
        }),
        tx_witness_free(*final(tx)) == tx_witness_free(*old(tx)),
{
    let txid: bitcoin::Txid = bitcoin::hashes::Hash::from_byte_array(input.previous_output.txid);
    tx.input.push(
        bitcoin::TxIn {
            previous_output: bitcoin::OutPoint::new(txid, input.previous_output.vout),
            script_sig: bitcoin::ScriptBuf::from_bytes(input.script_sig.clone()),
            sequence: bitcoin::Sequence(input.sequence),
            witness: bitcoin::Witness::new(),
        },
    );
}

/// Appends to `tx.output` an output with the fields of `output`. Nothing else
/// of `tx` changes.
#[verifier::external_body]
pub(crate) fn tx_push_output(tx: &mut bitcoin::Transaction, output: &TxOut)
    ensures
        tx_model(*final(tx)) == (TransactionView {
            output: tx_model(*old(tx)).output.push(output@),
            ..tx_model(*old(tx))
        }),
        tx_witness_free(*final(tx)) == tx_witness_free(*old(tx)),
{
    tx.output.push(
        bitcoin::TxOut {
            value: output.value,
            script_pubkey: bitcoin::ScriptBuf::from_bytes(output.script_pubkey.clone()),
        },
    );
}

/// The length of `tx.input`.
#[verifier::external_body]
pub(crate) fn tx_input_count(tx: &bitcoin::Transaction) -> (count: usize)
    ensures
        count == tx_model(*tx).input.len(),
{
    tx.input.len()
}

/// The fields of `tx.input[index]`, but for the witness.
#[verifier::external_body]
pub(crate) fn tx_input_at(tx: &bitcoin::Transaction, index: usize) -> (input: TxIn)
    requires
        index < tx_model(*tx).input.len(),
    ensures
        input@ == tx_model(*tx).input[index as int],
{
    let held = &tx.input[index];
    TxIn {
        previous_output: OutPoint {
            txid: bitcoin::hashes::Hash::to_byte_array(held.previous_output.txid),
            vout: held.previous_output.vout,
        },
        script_sig: held.script_sig.to_bytes(),
        sequence: held.sequence.0,
    }
}

/// The length of `tx.output`.
#[verifier::external_body]
pub(crate) fn tx_output_count(tx: &bitcoin::Transaction) -> (count: usize)
    ensures
        count == tx_model(*tx).output.len(),
{
    tx.output.len()
}

/// The fields of `tx.output[index]`.
#[verifier::external_body]
pub(crate) fn tx_output_at(tx: &bitcoin::Transaction, index: usize) -> (output: TxOut)
    requires
        index < tx_model(*tx).output.len(),
    ensures
        output@ == tx_model(*tx).output[index as int],
{
    let held = &tx.output[index];
    TxOut { value: held.value, script_pubkey: held.script_pubkey.to_bytes() }
}

/// No input of the transaction holds an unlocking script or a witness.
pub open spec fn is_unsigned(model: TransactionView, witness_free: bool) -> bool {
    &&& witness_free
    &&& forall|i: int|
        0 <= i < model.input.len() ==> (#[trigger] model.input[i]).script_sig.len() == 0
}

/// Calls `Psbt::from_unsigned_tx`. It succeeds exactly when no input holds an
/// unlocking script or a witness; the result then holds `tx` and, for each
/// of its inputs, a map without previous transaction, signature-hash mode and
/// final unlocking script.
#[verifier::external_body]
pub(crate) fn psbt_new(tx: bitcoin::Transaction) -> (created: Result<
    bitcoin::psbt::PartiallySignedTransaction,
    bitcoin::psbt::Error,
>)
    ensures
        created is Ok <==> is_unsigned(tx_model(tx), tx_witness_free(tx)),
        created matches Ok(psbt) ==> {
            &&& psbt_model(psbt).unsigned == tx_model(tx)
            &&& psbt_model(psbt).funding == Seq::new(
                tx_model(tx).input.len(),
                |i: int| None::<TransactionView>,
            )
            &&& psbt_model(psbt).sighash == Seq::new(tx_model(tx).input.len(), |i: int| None::<u32>)
            &&& psbt_model(psbt).final_script == Seq::new(
                tx_model(tx).input.len(),
                |i: int| None::<Seq<u8>>,
            )
            &&& psbt_model(psbt).records.len() == tx_model(tx).input.len()
        },
{
    bitcoin::psbt::PartiallySignedTransaction::from_unsigned_tx(tx)
}

/// The length of `psbt.inputs`.
#[verifier::external_body]
pub(crate) fn psbt_input_count(psbt: &bitcoin::psbt::PartiallySignedTransaction) -> (count: usize)
    ensures
        count == psbt_model(*psbt).records.len(),
        count == psbt_model(*psbt).funding.len(),
        count == psbt_model(*psbt).sighash.len(),
        count == psbt_model(*psbt).final_script.len(),
{
    psbt.inputs.len()
}

/// Sets `non_witness_utxo` of the input at `index` to `tx`. The other inputs
/// and the other fields of this one stay as they are.
#[verifier::external_body]
pub(crate) fn psbt_set_funding(
    psbt: &mut bitcoin::psbt::PartiallySignedTransaction,
    index: usize,
    tx: bitcoin::Transaction,
)
    requires
        index < psbt_model(*old(psbt)).records.len(),
    ensures
        psbt_model(*final(psbt)).unsigned == psbt_model(*old(psbt)).unsigned,
        psbt_model(*final(psbt)).funding == psbt_model(*old(psbt)).funding.update(
            index as int,
            Some(tx_model(tx)),
        ),
        psbt_model(*final(psbt)).sighash == psbt_model(*old(psbt)).sighash,
        psbt_model(*final(psbt)).final_script == psbt_model(*old(psbt)).final_script,
        psbt_model(*final(psbt)).records.len() == psbt_model(*old(psbt)).records.len(),
        forall|k: int|
            0 <= k < psbt_model(*old(psbt)).records.len() && k != index ==> psbt_model(
                *final(psbt),
            ).records[k] == psbt_model(*old(psbt)).records[k],
{
    psbt.inputs[index].non_witness_utxo = Some(tx);
}

/// Sets `sighash_type` of the input at `index` to `PsbtSighashType::from_u32`
/// of `mode`. The other inputs and the other fields of this one stay as they
/// are.
#[verifier::external_body]
pub(crate) fn psbt_set_sighash(
    psbt: &mut bitcoin::psbt::PartiallySignedTransaction,
    index: usize,
    mode: u32,
)
    requires
        index < psbt_model(*old(psbt)).records.len(),
    ensures
        psbt_model(*final(psbt)).unsigned == psbt_model(*old(psbt)).unsigned,
        psbt_model(*final(psbt)).funding == psbt_model(*old(psbt)).funding,
        psbt_model(*final(psbt)).sighash == psbt_model(*old(psbt)).sighash.update(
            index as int,
            Some(mode),
        ),
        psbt_model(*final(psbt)).final_script == psbt_model(*old(psbt)).final_script,
        psbt_model(*final(psbt)).records.len() == psbt_model(*old(psbt)).records.len(),
        forall|k: int|
            0 <= k < psbt_model(*old(psbt)).records.len() && k != index ==> psbt_model(
                *final(psbt),
            ).records[k] == psbt_model(*old(psbt)).records[k],
{
    psbt.inputs[index].sighash_type = Some(bitcoin::psbt::PsbtSighashType::from_u32(mode));
}

/// Replaces the input map at `index` by a clone of the map at `from` of
/// `source`. The other inputs stay as they are.
#[verifier::external_body]
pub(crate) fn psbt_adopt_input(
    psbt: &mut bitcoin::psbt::PartiallySignedTransaction,
    index: usize,
    source: &bitcoin::psbt::PartiallySignedTransaction,
    from: usize,
)
    requires
        index < psbt_model(*old(psbt)).records.len(),
        from < psbt_model(*source).records.len(),
    ensures
        psbt_model(*final(psbt)).unsigned == psbt_model(*old(psbt)).unsigned,
        psbt_model(*final(psbt)).funding == psbt_model(*old(psbt)).funding.update(
            index as int,
            psbt_model(*source).funding[from as int],
        ),
        psbt_model(*final(psbt)).sighash == psbt_model(*old(psbt)).sighash.update(
            index as int,
            psbt_model(*source).sighash[from as int],
        ),
        psbt_model(*final(psbt)).final_script == psbt_model(*old(psbt)).final_script.update(
            index as int,
            psbt_model(*source).final_script[from as int],
        ),
        psbt_model(*final(psbt)).records == psbt_model(*old(psbt)).records.update(
            index as int,
            psbt_model(*source).records[from as int],
        ),
{
    psbt.inputs[index] = source.inputs[from].clone();
}

/// Calls `to_string`, which writes the serialized transaction in base64. The
/// result is named by `psbt_text`.
#[verifier::external_body]
pub(crate) fn psbt_to_text(psbt: &bitcoin::psbt::PartiallySignedTransaction) -> (text: String)
    ensures
        text@ == psbt_text(*psbt),
{
    psbt.to_string()
}

/// Parses a partially signed transaction from base64 text through `FromStr`.
/// The result is named by `psbt_of_text`. A transaction that parses has one
/// input map for each input of its unsigned transaction.
#[verifier::external_body]
pub(crate) fn psbt_from_text(text: &str) -> (parsed: Result<
    bitcoin::psbt::PartiallySignedTransaction,
    bitcoin::psbt::PsbtParseError,
>)
    ensures
        match parsed {
            Ok(psbt) => {
                &&& psbt_of_text(text@) == Some(psbt_model(psbt))
                &&& psbt_model(psbt).records.len() == psbt_model(psbt).unsigned.input.len()
            },
            Err(_) => psbt_of_text(text@) is None,
        },
{
    text.parse::<bitcoin::psbt::PartiallySignedTransaction>()
}

/// The unsigned transaction with, in each input that has a map, the final
/// unlocking script of that map, or none where the map holds none.
pub open spec fn with_final_scripts(partial: PartialView) -> TransactionView {
    TransactionView {
        input: Seq::new(
            partial.unsigned.input.len(),
            |i: int|
                if i < partial.final_script.len() {
                    TxInView {
                        script_sig: match partial.final_script[i] {
                            Some(script) => script,
                            None => Seq::empty(),
                        },
                        ..partial.unsigned.input[i]
                    }
                } else {
                    partial.unsigned.input[i]
                },
        ),
        ..partial.unsigned
    }
}

/// Calls `extract_tx` on a clone. It takes the unsigned transaction and puts
/// into each input that has a map the `final_script_sig` of that map, or an
/// empty script where there is none; it changes witnesses besides, and
/// nothing else.
#[verifier::external_body]
pub(crate) fn psbt_extract(psbt: &bitcoin::psbt::PartiallySignedTransaction) -> (tx:
    bitcoin::Transaction)
    ensures
        tx_model(tx) == with_final_scripts(psbt_model(*psbt)),
{
    psbt.clone().extract_tx()
}

/// Parses `text` as an address through `FromStr`, checks it with
/// `require_network`, and returns the bytes of `script_pubkey`. The address
/// that passes from one call to the next is of a type generic over a trait
/// of the crate, which Verus cannot hold, so the three calls stand in one
/// function and one name, `script_of_address`, covers their chain.
#[verifier::external_body]
pub(crate) fn address_script(text: &str, network: Network) -> (script: Result<
    Vec<u8>,
    bitcoin::address::Error,
>)
    ensures
        match script {
            Ok(bytes) => script_of_address(text@, network) == Some(bytes@),
            Err(_) => script_of_address(text@, network) is None,
        },
{
    let required = match network {
        Network::Bitcoin => bitcoin::Network::Bitcoin,
        Network::Testnet => bitcoin::Network::Testnet,
        Network::Signet => bitcoin::Network::Signet,
        Network::Regtest => bitcoin::Network::Regtest,
    };
    let unchecked = text.parse::<bitcoin::Address<bitcoin::address::NetworkUnchecked>>()?;
    Ok(unchecked.require_network(required)?.script_pubkey().into_bytes())
}

/// Calls `to_string` on the `bitcoin::OutPoint` with these fields. The result
/// is named by `outpoint_text`.
#[verifier::external_body]
pub(crate) fn outpoint_to_text(outpoint: &OutPoint) -> (text: String)
    ensures
        text@ == outpoint_text(outpoint.txid@, outpoint.vout),
{
    let txid: bitcoin::Txid = bitcoin::hashes::Hash::from_byte_array(outpoint.txid);
    bitcoin::OutPoint::new(txid, outpoint.vout).to_string()
}

/// Parses an output reference through `FromStr`. The result is named by
/// `outpoint_of_text`.
#[verifier::external_body]
pub(crate) fn outpoint_from_text(text: &str) -> (parsed: Result<
    OutPoint,
    bitcoin::blockdata::transaction::ParseOutPointError,
>)
    ensures
        match parsed {
            Ok(outpoint) => outpoint_of_text(text@) == Some((outpoint.txid@, outpoint.vout)),
            Err(_) => outpoint_of_text(text@) is None,
        },
{
    let parsed = text.parse::<bitcoin::OutPoint>()?;
    Ok(OutPoint { txid: bitcoin::hashes::Hash::to_byte_array(parsed.txid), vout: parsed.vout })
}

} // verus!
