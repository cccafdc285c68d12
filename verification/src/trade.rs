//! The combined transaction: the buyer's separator and payment inputs around
//! the seller's input, and the five outputs that settle the trade.

use vstd::pervasive::unreached;
use vstd::prelude::*;
use crate::ledger::{
    input_views, lemma_total_value_take, output_total, output_views, same_bytes, total_value,
    OutPoint, TransactionView, TxIn, TxInView, TxOut, TxOutView, UnsignedTransaction,
    UnspentOutput, NO_LOCK_TIME, TX_VERSION,
};
use crate::outcome::Fatal;
use crate::partial::{holds_final_script, Funding, PartialTransaction};
use crate::terms::TradeTerms;
use crate::wire::{
    address_script, script_of_address, transaction_id, transaction_of_bytes, Network,
};

verus! {

/// Position of the separator among the inputs.
pub const SEPARATOR_INPUT: usize = 0;

/// Position of the seller's input among the inputs.
pub const SELLER_INPUT: usize = 1;

/// Position of the first payment input.
pub const FIRST_PAYMENT_INPUT: usize = 2;

/// Position of the output that hands the inscribed output to the buyer.
pub const INSCRIPTION_OUTPUT: usize = 0;

/// Position of the output that pays the seller.
pub const SELLER_OUTPUT: usize = 1;

/// Position of the output that pays the marketplace.
pub const SERVICE_OUTPUT: usize = 2;

/// Position of the output that hands the buyer a fresh separator.
pub const ALLOWANCE_OUTPUT: usize = 3;

/// Position of the output that returns what is left of the payment.
pub const CHANGE_OUTPUT: usize = 4;

/// The pair that the seller signed: the input that spends the inscribed
/// output and the output that pays the seller.
#[derive(Clone, Debug, PartialEq, Eq)]
pub struct SellerCommitment {
    pub input: TxIn,
    pub output: TxOut,
}

/// Why no combined transaction was built.
#[derive(Clone, Copy, Debug, PartialEq, Eq)]
pub enum TradeError {
    /// The payment inputs hold less than price, fee, allowance and overhead
    /// together, so that the change would be negative.
    PaymentShort,
    /// The first output or the change would hold more than an output can.
    ValueOverflow,
}

/// What is left of the payment once price, fee, allowance and overhead are
/// taken off.
pub open spec fn trade_change(payment: Seq<UnspentOutput>, terms: TradeTerms) -> int {
    total_value(payment) - terms.required_payment()
}

/// The reason for which no combined transaction can be built, if any.
pub open spec fn assembly_failure(
    inscription_value: u64,
    separator: UnspentOutput,
    payment: Seq<UnspentOutput>,
    terms: TradeTerms,
) -> Option<TradeError> {
    if inscription_value + separator.value > u64::MAX {
        Some(TradeError::ValueOverflow)
    } else if trade_change(payment, terms) < 0 {
        Some(TradeError::PaymentShort)
    } else if trade_change(payment, terms) > u64::MAX {
        Some(TradeError::ValueOverflow)
    } else {
        None
    }
}

/// The inputs of a trade: the separator, the seller's input with its script
/// and sequence number as the seller left them, then the payment inputs in
/// the order in which they were chosen.
pub open spec fn trade_inputs(
    separator: OutPoint,
    seller: TxInView,
    payment: Seq<UnspentOutput>,
) -> Seq<TxInView> {
    seq![TxIn::unsigned_spec(separator), seller] + Seq::new(
        payment.len(),
        |i: int| TxIn::unsigned_spec(payment[i].outpoint),
    )
}

/// The outputs of a trade: the inscribed output's value together with the
/// separator's, to the buyer; the seller's output as the seller signed it; the
/// marketplace fee; a fresh separator-sized output to the buyer; and the
/// change, to the buyer.
pub open spec fn trade_outputs(
    inscription_value: u64,
    separator_value: u64,
    seller: TxOutView,
    buyer_script: Seq<u8>,
    market_script: Seq<u8>,
    change: u64,
    terms: TradeTerms,
) -> Seq<TxOutView> {
    seq![
        TxOutView {
            value: (inscription_value + separator_value) as u64,
            script_pubkey: buyer_script,
        },
        seller,
        TxOutView { value: terms.service_fee, script_pubkey: market_script },
        TxOutView { value: terms.allowance, script_pubkey: buyer_script },
        TxOutView { value: change, script_pubkey: buyer_script },
    ]
}

/// The combined transaction of a trade.
pub open spec fn trade_spec(
    seller_input: TxInView,
    seller_output: TxOutView,
    inscription_value: u64,
    separator: UnspentOutput,
    buyer_script: Seq<u8>,
    market_script: Seq<u8>,
    payment: Seq<UnspentOutput>,
    terms: TradeTerms,
) -> TransactionView {
    TransactionView {
        version: TX_VERSION,
        lock_time: NO_LOCK_TIME,
        input: trade_inputs(separator.outpoint, seller_input, payment),
        output: trade_outputs(
            inscription_value,
            separator.value,
            seller_output,
            buyer_script,
            market_script,
            trade_change(payment, terms) as u64,
            terms,
        ),
    }
}

/// Adds up the values of `outputs`, and gives up once the sum passes
/// `ceiling`.
fn total_up_to(outputs: &Vec<UnspentOutput>, ceiling: u128) -> (sum: Option<u128>)
    requires
        ceiling <= u128::MAX - u64::MAX,
    ensures
        total_value(outputs@) > ceiling ==> sum is None,
        total_value(outputs@) <= ceiling ==> sum is Some && sum->Some_0 == total_value(outputs@),
{
    let mut sum: u128 = 0;
    let mut i: usize = 0;
    while i < outputs.len()
        invariant
            i <= outputs.len(),
            ceiling <= u128::MAX - u64::MAX,
            sum == total_value(outputs@.take(i as int)),
            sum <= ceiling,
        decreases outputs.len() - i,
    {
        proof {
            assert(outputs@.take(i + 1).drop_last() == outputs@.take(i as int));
        }
        sum = sum + outputs[i].value as u128;
        i += 1;
        if sum > ceiling {
            proof {
                lemma_total_value_take(outputs@, i as int);
            }
            return None;
        }
    }
    proof {
        assert(outputs@.take(outputs.len() as int) == outputs@);
    }
    Some(sum)
}

/// Builds the combined transaction. The seller's input and output go in as
/// they are; the buyer's script locks the three outputs that return to the
/// buyer. The change is what the payment holds beyond price, fee, allowance
/// and overhead; a payment that holds less is refused.
pub fn assemble_trade(
    seller: &SellerCommitment,
    inscription_value: u64,
    separator: &UnspentOutput,
    buyer_script: &Vec<u8>,
    market_script: &Vec<u8>,
    payment: &Vec<UnspentOutput>,
    terms: &TradeTerms,
) -> (trade: Result<UnsignedTransaction, TradeError>)
    ensures
        match trade {
            Ok(tx) => {
                &&& assembly_failure(inscription_value, *separator, payment@, *terms) is None
                &&& tx@ == trade_spec(
                    seller.input@,
                    seller.output@,
                    inscription_value,
                    *separator,
                    buyer_script@,
                    market_script@,
                    payment@,
                    *terms,
                )
                &&& tx@.output[SELLER_OUTPUT as int] == seller.output@
            },
            Err(cause) => assembly_failure(inscription_value, *separator, payment@, *terms)
                == Some(cause),
        },
{
    let received: u64 = match inscription_value.checked_add(separator.value) {
        Some(sum) => sum,
        None => {
            return Err(TradeError::ValueOverflow);
        },
    };
    let required: u128 = terms.price as u128 + terms.service_fee as u128 + terms.allowance as u128
        + terms.overhead as u128;
    let ceiling: u128 = required + u64::MAX as u128;
    let paid: u128 = match total_up_to(payment, ceiling) {
        Some(sum) => sum,
        None => {
            return Err(TradeError::ValueOverflow);
        },
    };
    if paid < required {
        return Err(TradeError::PaymentShort);
    }
    let change: u64 = (paid - required) as u64;
    let mut input: Vec<TxIn> = Vec::new();
    input.push(TxIn::unsigned(separator.outpoint));
    input.push(seller.input.duplicate());
    let mut i: usize = 0;
    while i < payment.len()
        invariant
            i <= payment.len(),
            input@.len() == 2 + i,
            input@[0]@ == TxIn::unsigned_spec(separator.outpoint),
            input@[1]@ == seller.input@,
            forall|k: int|
                0 <= k < i ==> (#[trigger] input@[2 + k])@ == TxIn::unsigned_spec(
                    payment@[k].outpoint,
                ),
        decreases payment.len() - i,
    {
        input.push(TxIn::unsigned(payment[i].outpoint));
        i += 1;
    }
    let mut output: Vec<TxOut> = Vec::new();
    output.push(TxOut { value: received, script_pubkey: buyer_script.clone() });
    output.push(seller.output.duplicate());
    output.push(TxOut { value: terms.service_fee, script_pubkey: market_script.clone() });
    output.push(TxOut { value: terms.allowance, script_pubkey: buyer_script.clone() });
    output.push(TxOut { value: change, script_pubkey: buyer_script.clone() });
    let tx = UnsignedTransaction { version: TX_VERSION, lock_time: NO_LOCK_TIME, input, output };
    proof {
        let expected = trade_spec(
            seller.input@,
            seller.output@,
            inscription_value,
            *separator,
            buyer_script@,
            market_script@,
            payment@,
            *terms,
        );
        assert forall|k: int| 0 <= k < tx@.input.len() implies tx@.input[k]
            == expected.input[k] by {
            if k >= 2 {
                assert(tx.input@[2 + (k - 2)]@ == TxIn::unsigned_spec(payment@[k - 2].outpoint));
            }
        }
        assert(tx@.input =~= expected.input);
        assert(tx@.output =~= expected.output);
    }
    Ok(tx)
}

/// Every part of a trade has its place: the separator comes first among the
/// inputs, the seller's input second, the payment after them in the order in
/// which it was chosen; and the five outputs stand in their fixed order.
pub proof fn lemma_trade_positions(
    seller_input: TxInView,
    seller_output: TxOutView,
    inscription_value: u64,
    separator: UnspentOutput,
    buyer_script: Seq<u8>,
    market_script: Seq<u8>,
    payment: Seq<UnspentOutput>,
    terms: TradeTerms,
)
    ensures
        ({
            let tx = trade_spec(
                seller_input,
                seller_output,
                inscription_value,
                separator,
                buyer_script,
                market_script,
                payment,
                terms,
            );
            &&& tx.input.len() == FIRST_PAYMENT_INPUT + payment.len()
            &&& tx.input[SEPARATOR_INPUT as int] == TxIn::unsigned_spec(separator.outpoint)
            &&& tx.input[SELLER_INPUT as int] == seller_input
            &&& forall|k: int|
                0 <= k < payment.len() ==> #[trigger] tx.input[FIRST_PAYMENT_INPUT + k]
                    == TxIn::unsigned_spec(payment[k].outpoint)
            &&& tx.output.len() == CHANGE_OUTPUT + 1
            &&& tx.output[INSCRIPTION_OUTPUT as int] == (TxOutView {
                value: (inscription_value + separator.value) as u64,
                script_pubkey: buyer_script,
            })
            &&& tx.output[SELLER_OUTPUT as int] == seller_output
            &&& tx.output[SERVICE_OUTPUT as int] == (TxOutView {
                value: terms.service_fee,
                script_pubkey: market_script,
            })
            &&& tx.output[ALLOWANCE_OUTPUT as int] == (TxOutView {
                value: terms.allowance,
                script_pubkey: buyer_script,
            })
            &&& tx.output[CHANGE_OUTPUT as int] == (TxOutView {
                value: trade_change(payment, terms) as u64,
                script_pubkey: buyer_script,
            })
        }),
{
}

/// Sum of the values that the inputs of a trade bring in: the separator, the
/// inscribed output and the payment.
pub open spec fn funding_total(
    inscription_value: u64,
    separator: UnspentOutput,
    payment: Seq<UnspentOutput>,
) -> int {
    separator.value + inscription_value + total_value(payment)
}

/// The sum of the five outputs of a trade.
pub proof fn lemma_trade_outputs_total(
    inscription_value: u64,
    separator_value: u64,
    seller: TxOutView,
    buyer_script: Seq<u8>,
    market_script: Seq<u8>,
    change: u64,
    terms: TradeTerms,
)
    requires
        inscription_value + separator_value <= u64::MAX,
    ensures
        output_total(
            trade_outputs(
                inscription_value,
                separator_value,
                seller,
                buyer_script,
                market_script,
                change,
                terms,
            ),
        ) == inscription_value + separator_value + seller.value + terms.service_fee
            + terms.allowance + change,
{
    let outputs = trade_outputs(
        inscription_value,
        separator_value,
        seller,
        buyer_script,
        market_script,
        change,
        terms,
    );
    let four = outputs.drop_last();
    let three = four.drop_last();
    let two = three.drop_last();
    let one = two.drop_last();
    assert(one.drop_last() == Seq::<TxOutView>::empty());
    assert(output_total(one.drop_last()) == 0);
    assert(output_total(one) == inscription_value + separator_value);
    assert(output_total(two) == output_total(one) + seller.value);
    assert(output_total(three) == output_total(two) + terms.service_fee);
    assert(output_total(four) == output_total(three) + terms.allowance);
}

/// Nothing is created and nothing is lost: what the inputs of a combined
/// transaction bring in is what its outputs hold plus the overhead left to
/// the network, as long as the seller asks the agreed price.
pub proof fn lemma_trade_conserves_value(
    seller_input: TxInView,
    seller_output: TxOutView,
    inscription_value: u64,
    separator: UnspentOutput,
    buyer_script: Seq<u8>,
    market_script: Seq<u8>,
    payment: Seq<UnspentOutput>,
    terms: TradeTerms,
)
    requires
        assembly_failure(inscription_value, separator, payment, terms) is None,
        seller_output.value == terms.price,
    ensures
        funding_total(inscription_value, separator, payment) == output_total(
            trade_spec(
                seller_input,
                seller_output,
                inscription_value,
                separator,
                buyer_script,
                market_script,
                payment,
                terms,
            ).output,
        ) + terms.overhead,
        terms.overhead >= 0,
{
    lemma_trade_outputs_total(
        inscription_value,
        separator.value,
        seller_output,
        buyer_script,
        market_script,
        trade_change(payment, terms) as u64,
        terms,
    );
}

/// Reads out of the seller's signed transaction the pair that the seller
/// committed to: the first input, with whatever unlocking script is final,
/// and the first output. `None` where either is missing.
pub fn seller_commitment(offer: &PartialTransaction) -> (pair: Option<SellerCommitment>)
    ensures
        offer@.unsigned.input.len() == 0 || offer@.unsigned.output.len() == 0 ==> pair is None,
        offer@.unsigned.input.len() > 0 && offer@.unsigned.output.len() > 0 ==> pair is Some && {
            let held = pair->Some_0;
            &&& held.input@ == offer.signed().input[0]
            &&& held.input@.previous_output == offer@.unsigned.input[0].previous_output
            &&& held.input@.sequence == offer@.unsigned.input[0].sequence
            &&& held.output@ == offer@.unsigned.output[0]
        },
{
    let inputs = offer.signed_inputs();
    let outputs = offer.outputs();
    proof {
        assert(outputs@.len() == output_views(outputs@).len());
        assert(inputs@.len() == input_views(inputs@).len());
    }
    if inputs.len() == 0 || outputs.len() == 0 {
        return None;
    }
    proof {
        assert(input_views(inputs@)[0] == inputs@[0]@);
        assert(output_views(outputs@)[0] == outputs@[0]@);
    }
    Some(SellerCommitment { input: inputs[0].duplicate(), output: outputs[0].duplicate() })
}

/// What the previous transaction at position `i` of `funding` decodes to.
pub open spec fn funding_at(funding: Seq<Vec<u8>>, i: int) -> Option<TransactionView> {
    transaction_of_bytes(funding[i]@)
}

/// The outputs that the buyer's inputs spend: the separator, then the
/// payment.
pub open spec fn trade_references(separator: UnspentOutput, payment: Seq<UnspentOutput>) -> Seq<
    OutPoint,
> {
    seq![separator.outpoint] + Seq::new(payment.len(), |i: int| payment[i].outpoint)
}

/// What is wrong with `raw` as the transaction that created `spent`, if
/// anything: it is no transaction, or it is another one.
pub open spec fn funding_fault(raw: Seq<u8>, spent: OutPoint) -> Option<Fatal> {
    match transaction_of_bytes(raw) {
        None => Some(Fatal::MalformedFunding),
        Some(tx) => if transaction_id(tx) != spent.txid@ {
            Some(Fatal::WrongFunding)
        } else {
            None
        },
    }
}

/// The first fault among the first `count` previous transactions, if any.
pub open spec fn first_funding_fault(funding: Seq<Vec<u8>>, spent: Seq<OutPoint>, count: int)
    -> Option<Fatal>
    decreases count,
{
    if count <= 0 {
        None
    } else {
        match first_funding_fault(funding, spent, count - 1) {
            Some(fault) => Some(fault),
            None => funding_fault(funding[count - 1]@, spent[count - 1]),
        }
    }
}

/// A fault that shows among the first previous transactions is the first
/// fault of them all.
pub proof fn lemma_first_fault_stays(
    funding: Seq<Vec<u8>>,
    spent: Seq<OutPoint>,
    count: int,
    more: int,
)
    requires
        count <= more,
        first_funding_fault(funding, spent, count) is Some,
    ensures
        first_funding_fault(funding, spent, more) == first_funding_fault(funding, spent, count),
    decreases more - count,
{
    if count < more {
        lemma_first_fault_stays(funding, spent, count, more - 1);
    }
}

/// What a failure to build the combined transaction means for the run.
pub open spec fn as_fatal(cause: TradeError) -> Fatal {
    match cause {
        TradeError::PaymentShort => Fatal::PaymentShort,
        TradeError::ValueOverflow => Fatal::ValueOverflow,
    }
}

/// The reason for which no trade can be prepared, if any. The checks run in
/// the order written.
pub open spec fn trade_failure(
    offer: PartialTransaction,
    inscription_value: u64,
    separator: UnspentOutput,
    payment: Seq<UnspentOutput>,
    funding: Seq<Vec<u8>>,
    buyer_address: Seq<char>,
    market_address: Seq<char>,
    network: Network,
    terms: TradeTerms,
) -> Option<Fatal> {
    if offer@.unsigned.input.len() == 0 || offer@.unsigned.output.len() == 0
        || offer@.records.len() == 0 {
        Some(Fatal::EmptyOffer)
    } else if separator.address is None {
        Some(Fatal::MissingAddress)
    } else if script_of_address(separator.address->Some_0@, network) is None {
        Some(Fatal::MalformedAddress)
    } else if script_of_address(buyer_address, network) is None {
        Some(Fatal::MalformedAddress)
    } else if script_of_address(separator.address->Some_0@, network) != script_of_address(
        buyer_address,
        network,
    ) {
        Some(Fatal::ForeignSeparator)
    } else if script_of_address(market_address, network) is None {
        Some(Fatal::MalformedAddress)
    } else if funding.len() != payment.len() + 1 {
        Some(Fatal::FundingMismatch)
    } else if assembly_failure(inscription_value, separator, payment, terms) is Some {
        Some(as_fatal(assembly_failure(inscription_value, separator, payment, terms)->Some_0))
    } else if holds_final_script(offer@, 0) {
        Some(Fatal::OfferAlreadyFinal)
    } else {
        first_funding_fault(funding, trade_references(separator, payment), funding.len() as int)
    }
}

/// The previous transaction that each input of a trade carries: the
/// separator's, whatever the seller's input carried, and one for each payment
/// input.
pub open spec fn trade_funding(offer: PartialTransaction, funding: Seq<Vec<u8>>) -> Seq<
    Option<TransactionView>,
> {
    Seq::new(
        funding.len() + 1,
        |i: int|
            if i == 0 {
                funding_at(funding, 0)
            } else if i == 1 {
                offer@.funding[0]
            } else {
                funding_at(funding, i - 1)
            },
    )
}

/// The signature-hash mode that each input of a trade demands: the seller's
/// where the seller set one, none for the buyer's inputs.
pub open spec fn trade_sighash(offer: PartialTransaction, inputs: nat) -> Seq<Option<u32>> {
    Seq::new(inputs, |i: int| if i == 1 { offer@.sighash[0] } else { None })
}

/// The final unlocking script that each input of a trade holds: the seller's
/// where the seller's input holds one, none for the buyer's inputs.
pub open spec fn trade_final_scripts(offer: PartialTransaction, inputs: nat) -> Seq<
    Option<Seq<u8>>,
> {
    Seq::new(inputs, |i: int| if i == 1 { offer@.final_script[0] } else { None })
}

/// `partial` is the trade prepared from these parts.
pub open spec fn trade_fits(
    partial: PartialTransaction,
    offer: PartialTransaction,
    inscription_value: u64,
    separator: UnspentOutput,
    payment: Seq<UnspentOutput>,
    funding: Seq<Vec<u8>>,
    buyer_address: Seq<char>,
    market_address: Seq<char>,
    network: Network,
    terms: TradeTerms,
) -> bool {
    &&& partial@.unsigned == trade_spec(
        offer.signed().input[0],
        offer@.unsigned.output[0],
        inscription_value,
        separator,
        script_of_address(buyer_address, network)->Some_0,
        script_of_address(market_address, network)->Some_0,
        payment,
        terms,
    )
    &&& partial@.funding == trade_funding(offer, funding)
    &&& partial@.sighash == trade_sighash(offer, payment.len() + 2)
    &&& partial@.final_script == trade_final_scripts(offer, payment.len() + 2)
    &&& partial@.records.len() == payment.len() + 2
    &&& partial@.records[SELLER_INPUT as int] == offer@.records[0]
}

/// Prepares the combined transaction for the buyer's wallet to sign.
///
/// `offer` is the seller's transaction as the seller's wallet signed it. The
/// buyer's outputs are locked by the script of the address that owns
/// `separator`, which must be the script of `buyer_address`; the
/// marketplace's by the script of `market_address`. `funding` holds the
/// transactions that created the separator and each payment input, in that
/// order, as they go over the wire; each must be the transaction that its
/// input names. The seller's input map is taken over as it is, with the
/// seller's signature in it.
#[verifier::loop_isolation(false)]
pub fn prepare_trade(
    offer: &PartialTransaction,
    inscription_value: u64,
    separator: &UnspentOutput,
    payment: &Vec<UnspentOutput>,
    funding: &Vec<Vec<u8>>,
    buyer_address: &str,
    market_address: &str,
    network: Network,
    terms: &TradeTerms,
) -> (prepared: Result<PartialTransaction, Fatal>)
    ensures
        match prepared {
            Ok(partial) => {
                &&& trade_failure(
                    *offer,
                    inscription_value,
                    *separator,
                    payment@,
                    funding@,
                    buyer_address@,
                    market_address@,
                    network,
                    *terms,
                ) is None
                &&& trade_fits(
                    partial,
                    *offer,
                    inscription_value,
                    *separator,
                    payment@,
                    funding@,
                    buyer_address@,
                    market_address@,
                    network,
                    *terms,
                )
                &&& partial@.unsigned.output[SELLER_OUTPUT as int] == offer@.unsigned.output[0]
            },
            Err(cause) => trade_failure(
                *offer,
                inscription_value,
                *separator,
                payment@,
                funding@,
                buyer_address@,
                market_address@,
                network,
                *terms,
            ) == Some(cause),
        },
{
    let seller = match seller_commitment(offer) {
        Some(seller) => seller,
        None => {
            return Err(Fatal::EmptyOffer);
        },
    };
    if offer.input_count() == 0 {
        return Err(Fatal::EmptyOffer);
    }
    let buyer_script = match &separator.address {
        None => {
            return Err(Fatal::MissingAddress);
        },
        Some(address) => match address_script(address.as_str(), network) {
            Ok(script) => script,
            Err(_) => {
                return Err(Fatal::MalformedAddress);
            },
        },
    };
    let destination = match address_script(buyer_address, network) {
        Ok(script) => script,
        Err(_) => {
            return Err(Fatal::MalformedAddress);
        },
    };
    if !same_bytes(buyer_script.as_slice(), destination.as_slice()) {
        return Err(Fatal::ForeignSeparator);
    }
    let market_script = match address_script(market_address, network) {
        Ok(script) => script,
        Err(_) => {
            return Err(Fatal::MalformedAddress);
        },
    };
    let count: usize = payment.len();
    if funding.len() == 0 || funding.len() - 1 != count {
        return Err(Fatal::FundingMismatch);
    }
    let tx = match assemble_trade(
        &seller,
        inscription_value,
        separator,
        &buyer_script,
        &market_script,
        payment,
        terms,
    ) {
        Ok(tx) => tx,
        Err(TradeError::ValueOverflow) => {
            return Err(Fatal::ValueOverflow);
        },
        Err(TradeError::PaymentShort) => {
            return Err(Fatal::PaymentShort);
        },
    };
    proof {
        assert(tx@.input.len() == count + 2);
        assert(tx@.input[1] == seller.input@);
        assert forall|i: int| 0 <= i < tx@.input.len() && i != 1 implies (
        #[trigger] tx@.input[i]).script_sig.len() == 0 by {}
        if seller.input@.script_sig.len() == 0 {
            assert(!crate::partial::holds_script_sig(tx@));
        }
    }
    let mut partial = match PartialTransaction::new(&tx) {
        Ok(partial) => partial,
        Err(_) => {
            return Err(Fatal::OfferAlreadyFinal);
        },
    };
    if partial.adopt_input(SELLER_INPUT, offer, 0).is_err() {
        unreached()
    }
    let ghost unsigned = partial@.unsigned;
    let ghost seller_record = offer@.records[0];
    let ghost spent = trade_references(*separator, payment@);
    let mut i: usize = 0;
    while i < funding.len()
        invariant
            i <= funding.len(),
            funding.len() == count + 1,
            partial@.unsigned == unsigned,
            partial@.records.len() == count + 2,
            partial@.records[1] == seller_record,
            partial@.funding.len() == count + 2,
            partial@.funding[1] == offer@.funding[0],
            partial@.sighash == trade_sighash(*offer, (count + 2) as nat),
            partial@.final_script == trade_final_scripts(*offer, (count + 2) as nat),
            first_funding_fault(funding@, spent, i as int) is None,
            partial@.funding[0] == if i > 0 {
                funding_at(funding@, 0)
            } else {
                None
            },
            forall|k: int|
                2 <= k < count + 2 ==> #[trigger] partial@.funding[k] == if k - 1 < i {
                    funding_at(funding@, k - 1)
                } else {
                    None
                },
        decreases funding.len() - i,
    {
        let slot: usize = if i == 0 {
            SEPARATOR_INPUT
        } else {
            i + 1
        };
        let created = match Funding::decode(funding[i].as_slice()) {
            Some(created) => created,
            None => {
                proof {
                    lemma_first_fault_stays(funding@, spent, i + 1, funding.len() as int);
                }
                return Err(Fatal::MalformedFunding);
            },
        };
        let right: bool = if i == 0 {
            created.creates(&separator.outpoint)
        } else {
            created.creates(&payment[i - 1].outpoint)
        };
        if !right {
            proof {
                lemma_first_fault_stays(funding@, spent, i + 1, funding.len() as int);
            }
            return Err(Fatal::WrongFunding);
        }
        if partial.attach_funding(slot, created).is_err() {
            unreached()
        }
        i += 1;
    }
    proof {
        assert(partial@.funding =~= trade_funding(*offer, funding@));
    }
    Ok(partial)
}

/// A prepared trade conserves value: the separator, the inscribed output and
/// the payment together bring in what the five outputs hold plus the
/// overhead, as long as the seller's output asks the agreed price.
pub proof fn lemma_prepared_trade_conserves_value(
    partial: PartialTransaction,
    offer: PartialTransaction,
    inscription_value: u64,
    separator: UnspentOutput,
    payment: Seq<UnspentOutput>,
    funding: Seq<Vec<u8>>,
    buyer_address: Seq<char>,
    market_address: Seq<char>,
    network: Network,
    terms: TradeTerms,
)
    requires
        trade_failure(
            offer,
            inscription_value,
            separator,
            payment,
            funding,
            buyer_address,
            market_address,
            network,
            terms,
        ) is None,
        trade_fits(
            partial,
            offer,
            inscription_value,
            separator,
            payment,
            funding,
            buyer_address,
            market_address,
            network,
            terms,
        ),
        offer@.unsigned.output[0].value == terms.price,
    ensures
        funding_total(inscription_value, separator, payment) == output_total(
            partial@.unsigned.output,
        ) + terms.overhead,
        partial@.unsigned.output[SELLER_OUTPUT as int] == offer@.unsigned.output[0],
        partial@.unsigned.input.len() == payment.len() + 2,
        partial@.unsigned.output.len() == 5,
{
    lemma_trade_conserves_value(
        offer.signed().input[0],
        offer@.unsigned.output[0],
        inscription_value,
        separator,
        script_of_address(buyer_address, network)->Some_0,
        script_of_address(market_address, network)->Some_0,
        payment,
        terms,
    );
}

} // verus!
