//! Plain-value model of the ledger: output references, unspent outputs and
//! unsigned transactions.

use vstd::prelude::*;

verus! {

/// Version number of every transaction built here.
pub const TX_VERSION: i32 = 2;

/// Lock time of every transaction built here: none.
pub const NO_LOCK_TIME: u32 = 0;

/// Sequence number of an input that opts out of replacement and relative locks.
pub const SEQUENCE_FINAL: u32 = 0xFFFF_FFFF;

/// Reference to one output of an earlier transaction.
#[derive(Clone, Copy, Debug, PartialEq, Eq)]
pub struct OutPoint {
    /// Id of the transaction, in the byte order of the hash.
    pub txid: [u8; 32],
    /// Index of the output in that transaction.
    pub vout: u32,
}

/// Snapshot of one unspent output as a wallet lists it.
#[derive(Clone, Debug, PartialEq, Eq)]
pub struct UnspentOutput {
    pub outpoint: OutPoint,
    /// Address that owns the output, as text, where the wallet knows it.
    pub address: Option<String>,
    /// Value in base units.
    pub value: u64,
    /// Whether the wallet holds the keys to spend it.
    pub spendable: bool,
}

impl UnspentOutput {
    /// An independent copy, equal to this output in every field.
    pub fn duplicate(&self) -> (copy: UnspentOutput)
        ensures
            copy == *self,
    {
        let address: Option<String> = match &self.address {
            Some(text) => Some(text.clone()),
            None => None,
        };
        UnspentOutput {
            outpoint: self.outpoint,
            address,
            value: self.value,
            spendable: self.spendable,
        }
    }
}

/// Sum of the values of a run of unspent outputs.
pub open spec fn total_value(outputs: Seq<UnspentOutput>) -> int
    decreases outputs.len(),
{
    if outputs.len() == 0 {
        0
    } else {
        total_value(outputs.drop_last()) + outputs.last().value
    }
}

/// Appending one output adds its value to the sum.
pub proof fn lemma_total_value_push(outputs: Seq<UnspentOutput>, last: UnspentOutput)
    ensures
        total_value(outputs.push(last)) == total_value(outputs) + last.value,
{
    assert(outputs.push(last).drop_last() == outputs);
}

/// The sum of two runs laid end to end is the sum of their sums.
pub proof fn lemma_total_value_concat(front: Seq<UnspentOutput>, back: Seq<UnspentOutput>)
    ensures
        total_value(front + back) == total_value(front) + total_value(back),
    decreases back.len(),
{
    if back.len() == 0 {
        assert(front + back == front);
    } else {
        lemma_total_value_concat(front, back.drop_last());
        assert((front + back).drop_last() == front + back.drop_last());
    }
}

/// The sum does not depend on the direction in which the run is read.
pub proof fn lemma_total_value_reverse(outputs: Seq<UnspentOutput>)
    ensures
        total_value(outputs.reverse()) == total_value(outputs),
    decreases outputs.len(),
{
    if outputs.len() > 0 {
        let rest = outputs.drop_last();
        let single = seq![outputs.last()];
        lemma_total_value_reverse(rest);
        assert(outputs.reverse() == single + rest.reverse());
        lemma_total_value_concat(single, rest.reverse());
        assert(single == Seq::<UnspentOutput>::empty().push(outputs.last()));
        lemma_total_value_push(Seq::empty(), outputs.last());
    }
}

/// A leading part of a run never sums to more than the run.
pub proof fn lemma_total_value_take(outputs: Seq<UnspentOutput>, count: int)
    requires
        0 <= count <= outputs.len(),
    ensures
        0 <= total_value(outputs.take(count)) <= total_value(outputs),
    decreases outputs.len(),
{
    if count == outputs.len() {
        assert(outputs.take(count) == outputs);
        if count > 0 {
            lemma_total_value_take(outputs.drop_last(), count - 1);
            assert(outputs.drop_last().take(count - 1) == outputs.drop_last());
        }
    } else {
        lemma_total_value_take(outputs.drop_last(), count);
        assert(outputs.drop_last().take(count) == outputs.take(count));
    }
}

/// One output of a transaction: a value and the script that locks it.
#[derive(Clone, Debug, PartialEq, Eq)]
pub struct TxOut {
    pub value: u64,
    pub script_pubkey: Vec<u8>,
}

/// What a [`TxOut`] holds.
pub struct TxOutView {
    pub value: u64,
    pub script_pubkey: Seq<u8>,
}

impl View for TxOut {
    type V = TxOutView;

    open spec fn view(&self) -> TxOutView {
        TxOutView { value: self.value, script_pubkey: self.script_pubkey@ }
    }
}

impl TxOut {
    /// An independent copy with the same value and the same script bytes.
    pub fn duplicate(&self) -> (copy: TxOut)
        ensures
            copy@ == self@,
    {
        TxOut { value: self.value, script_pubkey: self.script_pubkey.clone() }
    }
}

/// One input of a transaction: the output it spends, its unlocking script and
/// its sequence number. The unlocking script is empty until the input is signed.
#[derive(Clone, Debug, PartialEq, Eq)]
pub struct TxIn {
    pub previous_output: OutPoint,
    pub script_sig: Vec<u8>,
    pub sequence: u32,
}

/// What a [`TxIn`] holds.
pub struct TxInView {
    pub previous_output: OutPoint,
    pub script_sig: Seq<u8>,
    pub sequence: u32,
}

impl View for TxIn {
    type V = TxInView;

    open spec fn view(&self) -> TxInView {
        TxInView {
            previous_output: self.previous_output,
            script_sig: self.script_sig@,
            sequence: self.sequence,
        }
    }
}

impl TxIn {
    /// The view of an unsigned input that spends `outpoint` with the final
    /// sequence number.
    pub open spec fn unsigned_spec(outpoint: OutPoint) -> TxInView {
        TxInView { previous_output: outpoint, script_sig: Seq::empty(), sequence: SEQUENCE_FINAL }
    }

    /// An unsigned input that spends `outpoint`.
    pub fn unsigned(outpoint: OutPoint) -> (input: TxIn)
        ensures
            input@ == Self::unsigned_spec(outpoint),
    {
        TxIn { previous_output: outpoint, script_sig: Vec::new(), sequence: SEQUENCE_FINAL }
    }

    /// An independent copy with the same fields.
    pub fn duplicate(&self) -> (copy: TxIn)
        ensures
            copy@ == self@,
    {
        TxIn {
            previous_output: self.previous_output,
            script_sig: self.script_sig.clone(),
            sequence: self.sequence,
        }
    }
}

/// A transaction before anybody signed it.
#[derive(Clone, Debug, PartialEq, Eq)]
pub struct UnsignedTransaction {
    pub version: i32,
    pub lock_time: u32,
    pub input: Vec<TxIn>,
    pub output: Vec<TxOut>,
}

/// What an [`UnsignedTransaction`] holds.
pub struct TransactionView {
    pub version: i32,
    pub lock_time: u32,
    pub input: Seq<TxInView>,
    pub output: Seq<TxOutView>,
}

impl View for UnsignedTransaction {
    type V = TransactionView;

    open spec fn view(&self) -> TransactionView {
        TransactionView {
            version: self.version,
            lock_time: self.lock_time,
            input: input_views(self.input@),
            output: output_views(self.output@),
        }
    }
}

/// The views of a run of inputs, in order.
pub open spec fn input_views(inputs: Seq<TxIn>) -> Seq<TxInView> {
    Seq::new(inputs.len(), |i: int| inputs[i]@)
}

/// The views of a run of outputs, in order.
pub open spec fn output_views(outputs: Seq<TxOut>) -> Seq<TxOutView> {
    Seq::new(outputs.len(), |i: int| outputs[i]@)
}

/// Sum of the values of a run of transaction outputs.
pub open spec fn output_total(outputs: Seq<TxOutView>) -> int
    decreases outputs.len(),
{
    if outputs.len() == 0 {
        0
    } else {
        output_total(outputs.drop_last()) + outputs.last().value
    }
}

/// Tells whether two runs of bytes are the same.
pub fn same_bytes(one: &[u8], other: &[u8]) -> (same: bool)
    ensures
        same == (one@ == other@),
{
    if one.len() != other.len() {
        return false;
    }
    let mut i: usize = 0;
    while i < one.len()
        invariant
            i <= one@.len(),
            one@.len() == other@.len(),
            forall|k: int| 0 <= k < i ==> one@[k] == other@[k],
        decreases one@.len() - i,
    {
        if one[i] != other[i] {
            return false;
        }
        i += 1;
    }
    proof {
        assert(one@ =~= other@);
    }
    true
}

/// Tells whether two transaction ids are the same.
pub fn same_id(one: &[u8; 32], other: &[u8; 32]) -> (same: bool)
    ensures
        same == (one@ == other@),
{
    let mut i: usize = 0;
    while i < 32
        invariant
            i <= 32,
            forall|k: int| 0 <= k < i ==> one@[k] == other@[k],
        decreases 32 - i,
    {
        if one[i] != other[i] {
            return false;
        }
        i += 1;
    }
    proof {
        assert(one@ =~= other@);
    }
    true
}

} // verus!
