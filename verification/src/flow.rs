//! The buyer's run, one decision at a time.
//!
//! The run never talks to a wallet, a node or the oracle itself. It says what
//! to do next, the caller does it and reports what came of it, and the run
//! decides again. A run that has stopped stays stopped.

use vstd::pervasive::unreached;
use vstd::prelude::*;
use crate::coins::{
    ascending, eligible, is_ascending, is_barred, is_choice, is_minimal_cover,
    lemma_ascending_is_ascending, lemma_selection_is_fewest, lemma_selection_is_largest_first,
    lemma_sorted_output_was_listed, picked_value, select_payment, spendable_outputs, spent_first,
    Classified,
};
use crate::ledger::{output_total, total_value, OutPoint, UnspentOutput};
use crate::oracle::{holds_word, indicates_inscription, oracle_url, oracle_url_spec};
use crate::outcome::{Abandoned, Fatal};
use crate::partial::PartialTransaction;
use crate::separator::{
    find_minted, has_dust, holds_minted, is_first_dust, is_first_minted, is_largest,
    is_minted_separator, mint_failure, mint_spec, plan_separator, prepare_mint, SeparatorError,
    SeparatorPlan,
};
use crate::terms::TradeTerms;
use crate::trade::{
    funding_total, lemma_prepared_trade_conserves_value, prepare_trade, trade_failure, trade_fits,
    trade_references, SELLER_OUTPUT,
};
use crate::wire::{script_of_address, transaction_of_bytes, Network};

verus! {

/// What stays the same through a run.
#[derive(Debug, PartialEq, Eq)]
pub struct Request {
    /// The seller's transaction, as the seller's wallet signed it.
    pub offer: PartialTransaction,
    /// Value of the inscribed output.
    pub inscription_value: u64,
    /// Address at which the buyer receives; the separator must be owned by
    /// it.
    pub buyer_address: String,
    /// Address that receives the marketplace fee.
    pub market_address: String,
    /// Address of the oracle, up to and without the path `output/`.
    pub oracle: String,
    /// The chain that the addresses must belong to.
    pub network: Network,
    /// The amounts of the trade.
    pub terms: TradeTerms,
}

/// How a run ended.
#[derive(Clone, Debug, PartialEq, Eq)]
pub enum Outcome {
    /// The trade is on the network under this transaction id.
    Settled(String),
    /// The buyer cannot pay; nothing is wrong.
    Abandoned(Abandoned),
    /// The run cannot go on.
    Failed(Fatal),
}

/// What the run is waiting to hear.
#[derive(Clone, Debug, PartialEq, Eq)]
pub enum Waiting {
    /// That the caller is ready.
    Start,
    /// The buyer's confirmed balance.
    Balance,
    /// The buyer's unspent outputs.
    Outputs,
    /// The oracle's answers for `outputs`, in their order.
    Verdicts { outputs: Vec<UnspentOutput> },
    /// The transaction that created `source`, which is to be split.
    MintFunding { source: UnspentOutput },
    /// That the minting transaction is on the network, and under which id.
    MintBroadcast,
    /// The transactions that created the separator and the payment inputs.
    TradeFunding { separator: UnspentOutput, payment: Vec<UnspentOutput> },
    /// That the trade is on the network.
    Settlement,
    /// Nothing: the run has stopped.
    Done,
}

/// What the caller reports.
#[derive(Clone, Debug, PartialEq, Eq)]
pub enum Event {
    /// The caller is ready.
    Started,
    /// The buyer's confirmed balance.
    Balance(u64),
    /// The buyer's confirmed unspent outputs.
    Outputs(Vec<UnspentOutput>),
    /// The bodies of the oracle's answers, one for each address asked.
    Verdicts(Vec<String>),
    /// The transactions asked for, as they go over the wire, in the order of
    /// the request.
    Funding(Vec<Vec<u8>>),
    /// The minting transaction was signed and sent; this is its id, in the
    /// byte order of the hash.
    Broadcast([u8; 32]),
    /// The trade was signed and sent; this is its transaction id.
    Settled(String),
}

/// What the caller is to do next.
#[derive(Debug, PartialEq, Eq)]
pub enum Action {
    /// Ask the buyer's wallet for its confirmed balance.
    QueryBalance,
    /// Ask the buyer's wallet for the confirmed unspent outputs of the buyer.
    ListOutputs,
    /// Fetch each of these addresses from the oracle.
    AskOracle(Vec<String>),
    /// Fetch the transactions that created these outputs.
    FetchFunding(Vec<OutPoint>),
    /// Have the buyer's wallet sign this transaction, make it final and send
    /// it, and report the id under which it went out; it mints a separator.
    SignAndBroadcast(PartialTransaction),
    /// Have the buyer's wallet sign this transaction, make it final and send
    /// it; it is the trade.
    SignAndSettle(PartialTransaction),
    /// Stop; this is how the run ended.
    Stop(Outcome),
}

/// A buyer's run: the request, what the run is waiting for, and the id of the
/// transaction with which the run minted a separator, if it did.
#[derive(Debug, PartialEq, Eq)]
pub struct Run {
    request: Request,
    waiting: Waiting,
    minted: Option<[u8; 32]>,
}

/// The id of the minting transaction once `event` is in: the one reported,
/// where the run waited to hear that the minting transaction is out and
/// hears it, else what it was before.
pub open spec fn minted_after(minted: Option<[u8; 32]>, waiting: Waiting, event: Event) -> Option<
    [u8; 32],
> {
    if waiting is MintBroadcast && event is Broadcast {
        Some(event->Broadcast_0)
    } else {
        minted
    }
}

/// The run has stopped with `outcome`.
pub open spec fn stops(next: Waiting, action: Action, outcome: Outcome) -> bool {
    next is Done && action == Action::Stop(outcome)
}

/// The oracle's answers, read for each output.
pub open spec fn classify(outputs: Seq<UnspentOutput>, bodies: Seq<String>) -> Seq<Classified> {
    Seq::new(
        outputs.len(),
        |i: int| Classified { output: outputs[i], holds_inscription: holds_word(bodies[i]@) },
    )
}

/// What follows the buyer's balance: the run goes on exactly when the balance
/// covers the price.
pub open spec fn balance_fits(terms: TradeTerms, balance: u64, next: Waiting, action: Action)
    -> bool {
    if balance < terms.price {
        stops(next, action, Outcome::Abandoned(Abandoned::InsufficientFunds))
    } else {
        next is Outputs && action is ListOutputs
    }
}

/// What follows the list of outputs: one question to the oracle for each.
pub open spec fn outputs_fit(
    oracle: Seq<char>,
    outputs: Seq<UnspentOutput>,
    next: Waiting,
    action: Action,
) -> bool {
    &&& next is Verdicts
    &&& next->Verdicts_outputs@ == outputs
    &&& action is AskOracle
    &&& action->AskOracle_0@.len() == outputs.len()
    &&& forall|i: int|
        0 <= i < outputs.len() ==> (#[trigger] action->AskOracle_0@[i])@ == oracle_url_spec(
            oracle,
            outputs[i].outpoint,
        )
}

/// What follows once a separator is at hand: payment is chosen among the
/// other outputs, largest first, and the run asks for the transactions
/// behind the separator and the payment; or the outputs fall short.
pub open spec fn payment_fits(
    separator: UnspentOutput,
    candidates: Seq<UnspentOutput>,
    threshold: int,
    next: Waiting,
    action: Action,
) -> bool {
    if total_value(candidates) < threshold {
        stops(next, action, Outcome::Abandoned(Abandoned::InsufficientFunds))
    } else {
        &&& next is TradeFunding
        &&& next->TradeFunding_separator == separator
        &&& is_minimal_cover(candidates, next->TradeFunding_payment@.len() as int, threshold)
        &&& next->TradeFunding_payment@ == spent_first(
            candidates,
            next->TradeFunding_payment@.len() as int,
        )
        &&& action is FetchFunding
        &&& action->FetchFunding_0@ == trade_references(separator, next->TradeFunding_payment@)
    }
}

/// A separator is at hand: for a run that has minted one, the output at the
/// separator's position of the minting transaction; for a run that has not,
/// any output at or below the dust threshold.
pub open spec fn separator_at_hand(
    spendable: Seq<UnspentOutput>,
    minted: Option<[u8; 32]>,
    dust: u64,
) -> bool {
    match minted {
        Some(id) => holds_minted(spendable, id@, dust),
        None => has_dust(spendable, dust),
    }
}

/// `index` is where the separator stands: the first output that is the one
/// the run minted, or, for a run that has minted none, the first output at or
/// below the dust threshold.
pub open spec fn is_separator_at(
    spendable: Seq<UnspentOutput>,
    minted: Option<[u8; 32]>,
    index: int,
    dust: u64,
) -> bool {
    match minted {
        Some(id) => is_first_minted(spendable, index, id@, dust),
        None => is_first_dust(spendable, index, dust),
    }
}

/// What follows the oracle's answers.
///
/// Outputs with an inscription and outputs that the wallet cannot spend are
/// set aside, and the rest is put in ascending order. With nothing left the
/// trade is abandoned.
///
/// A run that has minted a separator takes that very output, the one at the
/// separator's position of the minting transaction `minted`, and nothing in
/// its place: where it is not listed, the run fails. A run that has not takes
/// the first output at or below the dust threshold; where there is none, the
/// largest output is split to mint one. Payment is chosen among the rest.
pub open spec fn verdicts_fit(
    terms: TradeTerms,
    outputs: Seq<UnspentOutput>,
    minted: Option<[u8; 32]>,
    bodies: Seq<String>,
    next: Waiting,
    action: Action,
) -> bool {
    let spendable = ascending(eligible(classify(outputs, bodies)));
    if bodies.len() != outputs.len() {
        stops(next, action, Outcome::Failed(Fatal::OracleMismatch))
    } else if spendable.len() == 0 {
        stops(next, action, Outcome::Abandoned(Abandoned::NoSpendableOutputs))
    } else if separator_at_hand(spendable, minted, terms.dust_threshold) {
        exists|index: int|
            is_separator_at(spendable, minted, index, terms.dust_threshold) && payment_fits(
                spendable[index],
                #[trigger] spendable.remove(index),
                terms.required_payment(),
                next,
                action,
            )
    } else if minted is Some {
        stops(next, action, Outcome::Failed(Fatal::SeparatorMissing))
    } else if forall|j: int|
        0 <= j < spendable.len() ==> #[trigger] spendable[j].value <= terms.separator_cost() {
        stops(next, action, Outcome::Failed(Fatal::SeparatorSourceTooSmall))
    } else {
        exists|source: int|
            #[trigger] is_largest(spendable, source) && next == (Waiting::MintFunding {
                source: spendable[source],
            }) && action is FetchFunding && action->FetchFunding_0@ == seq![
                spendable[source].outpoint,
            ]
    }
}

/// What follows the transaction behind the output that is to be split.
pub open spec fn mint_funding_fits(
    request: Request,
    source: UnspentOutput,
    funding: Seq<Vec<u8>>,
    next: Waiting,
    action: Action,
) -> bool {
    if funding.len() != 1 {
        stops(next, action, Outcome::Failed(Fatal::FundingMismatch))
    } else {
        match mint_failure(source, funding[0]@, request.network, request.terms) {
            Some(cause) => stops(next, action, Outcome::Failed(cause)),
            None => {
                &&& next is MintBroadcast
                &&& action is SignAndBroadcast
                &&& action->SignAndBroadcast_0@.unsigned == mint_spec(
                    source,
                    script_of_address(source.address->Some_0@, request.network)->Some_0,
                    request.terms,
                )
                &&& action->SignAndBroadcast_0@.funding == seq![transaction_of_bytes(funding[0]@)]
                &&& action->SignAndBroadcast_0@.sighash == seq![None::<u32>]
                &&& action->SignAndBroadcast_0@.final_script == seq![None::<Seq<u8>>]
            },
        }
    }
}

/// What follows the transactions behind the separator and the payment.
pub open spec fn trade_funding_fits(
    request: Request,
    separator: UnspentOutput,
    payment: Seq<UnspentOutput>,
    funding: Seq<Vec<u8>>,
    next: Waiting,
    action: Action,
) -> bool {
    match trade_failure(
        request.offer,
        request.inscription_value,
        separator,
        payment,
        funding,
        request.buyer_address@,
        request.market_address@,
        request.network,
        request.terms,
    ) {
        Some(cause) => stops(next, action, Outcome::Failed(cause)),
        None => {
            &&& next is Settlement
            &&& action is SignAndSettle
            &&& trade_fits(
                action->SignAndSettle_0,
                request.offer,
                request.inscription_value,
                separator,
                payment,
                funding,
                request.buyer_address@,
                request.market_address@,
                request.network,
                request.terms,
            )
        },
    }
}

/// `next` and `action` are what follows `event` in a run that waits for
/// `waiting`; `minted` is the id of the transaction with which the run has
/// minted a separator so far, if it has. An event that the run does not wait
/// for stops it.
pub open spec fn step_fits(
    request: Request,
    minted: Option<[u8; 32]>,
    waiting: Waiting,
    event: Event,
    next: Waiting,
    action: Action,
) -> bool {
    match (waiting, event) {
        (Waiting::Start, Event::Started) => next is Balance && action is QueryBalance,
        (Waiting::Balance, Event::Balance(balance)) => balance_fits(
            request.terms,
            balance,
            next,
            action,
        ),
        (Waiting::Outputs, Event::Outputs(outputs)) => outputs_fit(
            request.oracle@,
            outputs@,
            next,
            action,
        ),
        (Waiting::Verdicts { outputs }, Event::Verdicts(bodies)) => verdicts_fit(
            request.terms,
            outputs@,
            minted,
            bodies@,
            next,
            action,
        ),
        (Waiting::MintFunding { source }, Event::Funding(funding)) => mint_funding_fits(
            request,
            source,
            funding@,
            next,
            action,
        ),
        (Waiting::MintBroadcast, Event::Broadcast(id)) => next is Outputs && action is ListOutputs,
        (Waiting::TradeFunding { separator, payment }, Event::Funding(funding)) =>
            trade_funding_fits(request, separator, payment@, funding@, next, action),
        (Waiting::Settlement, Event::Settled(txid)) => stops(
            next,
            action,
            Outcome::Settled(txid),
        ),
        _ => stops(next, action, Outcome::Failed(Fatal::UnexpectedEvent)),
    }
}

/// The run stops with `outcome`.
fn stop(outcome: Outcome) -> (result: (Waiting, Action))
    ensures
        stops(result.0, result.1, outcome),
{
    (Waiting::Done, Action::Stop(outcome))
}

/// Asks the oracle about every output.
fn after_outputs(oracle: &str, outputs: Vec<UnspentOutput>) -> (result: (Waiting, Action))
    ensures
        outputs_fit(oracle@, outputs@, result.0, result.1),
{
    let mut questions: Vec<String> = Vec::new();
    let mut i: usize = 0;
    while i < outputs.len()
        invariant
            i <= outputs.len(),
            questions@.len() == i,
            forall|k: int|
                0 <= k < i ==> (#[trigger] questions@[k])@ == oracle_url_spec(
                    oracle@,
                    outputs@[k].outpoint,
                ),
        decreases outputs.len() - i,
    {
        questions.push(oracle_url(oracle, &outputs[i].outpoint));
        i += 1;
    }
    (Waiting::Verdicts { outputs }, Action::AskOracle(questions))
}

/// Chooses the payment among `candidates` and asks for the transactions
/// behind the separator and the payment.
fn choose_payment(separator: UnspentOutput, candidates: Vec<UnspentOutput>, threshold: u64)
    -> (result: (Waiting, Action))
    ensures
        payment_fits(separator, candidates@, threshold as int, result.0, result.1),
{
    match select_payment(&candidates, threshold) {
        None => stop(Outcome::Abandoned(Abandoned::InsufficientFunds)),
        Some(selection) => {
            let payment = selection.inputs;
            let mut references: Vec<OutPoint> = Vec::new();
            references.push(separator.outpoint);
            let mut i: usize = 0;
            while i < payment.len()
                invariant
                    i <= payment.len(),
                    references@.len() == i + 1,
                    references@[0] == separator.outpoint,
                    forall|k: int|
                        0 <= k < i ==> #[trigger] references@[k + 1] == payment@[k].outpoint,
                decreases payment.len() - i,
            {
                references.push(payment[i].outpoint);
                i += 1;
            }
            proof {
                let wanted = trade_references(separator, payment@);
                assert forall|k: int| 0 <= k < wanted.len() implies references@[k] == wanted[k] by {
                    if k > 0 {
                        assert(references@[(k - 1) + 1] == payment@[k - 1].outpoint);
                    }
                }
                assert(references@ =~= wanted);
            }
            (Waiting::TradeFunding { separator, payment }, Action::FetchFunding(references))
        },
    }
}

/// Takes the output at `index` for a separator and chooses the payment among
/// the others.
fn settle_on(spendable: Vec<UnspentOutput>, index: usize, threshold: u64) -> (result: (
    Waiting,
    Action,
))
    requires
        index < spendable@.len(),
    ensures
        payment_fits(
            spendable@[index as int],
            spendable@.remove(index as int),
            threshold as int,
            result.0,
            result.1,
        ),
{
    let separator = spendable[index].duplicate();
    let mut candidates = spendable;
    candidates.remove(index);
    choose_payment(separator, candidates, threshold)
}

/// Reads the oracle's answers, sets aside what must not be spent, and
/// settles on a separator: the one that the run minted, one that exists, or
/// one to be minted.
fn after_verdicts(
    terms: &TradeTerms,
    outputs: Vec<UnspentOutput>,
    minted: Option<[u8; 32]>,
    bodies: Vec<String>,
) -> (result: (Waiting, Action))
    requires
        terms.well_formed(),
    ensures
        verdicts_fit(*terms, outputs@, minted, bodies@, result.0, result.1),
{
    if bodies.len() != outputs.len() {
        return stop(Outcome::Failed(Fatal::OracleMismatch));
    }
    let mut classified: Vec<Classified> = Vec::new();
    let mut i: usize = 0;
    while i < outputs.len()
        invariant
            i <= outputs.len(),
            bodies.len() == outputs.len(),
            classified@.len() == i,
            forall|k: int|
                0 <= k < i ==> #[trigger] classified@[k] == classify(outputs@, bodies@)[k],
        decreases outputs.len() - i,
    {
        let holds_inscription: bool = indicates_inscription(bodies[i].as_str());
        classified.push(Classified { output: outputs[i].duplicate(), holds_inscription });
        i += 1;
    }
    proof {
        assert(classified@ =~= classify(outputs@, bodies@));
    }
    let spendable = spendable_outputs(&classified);
    if spendable.len() == 0 {
        return stop(Outcome::Abandoned(Abandoned::NoSpendableOutputs));
    }
    let ghost listed = spendable@;
    if let Some(id) = minted {
        return match find_minted(&spendable, &id, terms.dust_threshold) {
            Some(index) => {
                proof {
                    assert(is_minted_separator(listed[index as int], id@, terms.dust_threshold));
                }
                settle_on(spendable, index, terms.payment_threshold())
            },
            None => stop(Outcome::Failed(Fatal::SeparatorMissing)),
        };
    }
    match plan_separator(&spendable, terms) {
        Ok(SeparatorPlan::UseExisting { index }) => {
            proof {
                assert(has_dust(listed, terms.dust_threshold)) by {
                    assert(listed[index as int].value <= terms.dust_threshold);
                }
            }
            settle_on(spendable, index, terms.payment_threshold())
        },
        Ok(SeparatorPlan::Mint { source }) => {
            let chosen = spendable[source].duplicate();
            let mut references: Vec<OutPoint> = Vec::new();
            references.push(chosen.outpoint);
            proof {
                assert(listed[source as int].value > terms.separator_cost());
                assert(is_largest(listed, source as int));
                assert(references@ =~= seq![listed[source as int].outpoint]);
            }
            (Waiting::MintFunding { source: chosen }, Action::FetchFunding(references))
        },
        Err(SeparatorError::SourceTooSmall) => stop(
            Outcome::Failed(Fatal::SeparatorSourceTooSmall),
        ),
        Err(SeparatorError::NothingToSpend) => unreached(),
    }
}

/// Prepares the minting transaction for the wallet.
fn after_mint_funding(request: &Request, source: UnspentOutput, funding: Vec<Vec<u8>>) -> (result:
    (Waiting, Action))
    ensures
        mint_funding_fits(*request, source, funding@, result.0, result.1),
{
    if funding.len() != 1 {
        return stop(Outcome::Failed(Fatal::FundingMismatch));
    }
    match prepare_mint(&source, funding[0].as_slice(), request.network, &request.terms) {
        Err(cause) => stop(Outcome::Failed(cause)),
        Ok(partial) => (Waiting::MintBroadcast, Action::SignAndBroadcast(partial)),
    }
}

/// Prepares the trade for the wallet.
fn after_trade_funding(
    request: &Request,
    separator: UnspentOutput,
    payment: Vec<UnspentOutput>,
    funding: Vec<Vec<u8>>,
) -> (result: (Waiting, Action))
    ensures
        trade_funding_fits(*request, separator, payment@, funding@, result.0, result.1),
{
    match prepare_trade(
        &request.offer,
        request.inscription_value,
        &separator,
        &payment,
        &funding,
        request.buyer_address.as_str(),
        request.market_address.as_str(),
        request.network,
        &request.terms,
    ) {
        Err(cause) => stop(Outcome::Failed(cause)),
        Ok(partial) => (Waiting::Settlement, Action::SignAndSettle(partial)),
    }
}

impl Run {
    #[verifier::type_invariant]
    spec fn sound(self) -> bool {
        self.request.terms.well_formed()
    }

    /// What stays the same through the run.
    pub closed spec fn request(self) -> Request {
        self.request
    }

    /// What the run is waiting for.
    pub closed spec fn waiting(self) -> Waiting {
        self.waiting
    }

    /// The id of the transaction with which the run minted a separator, if
    /// it did.
    pub closed spec fn minted(self) -> Option<[u8; 32]> {
        self.minted
    }

    /// A run that has not started. Terms whose sums do not fit in 64 bits
    /// are refused.
    pub fn new(request: Request) -> (run: Option<Run>)
        ensures
            !request.terms.well_formed() ==> run is None,
            request.terms.well_formed() ==> run is Some && run->Some_0.request() == request
                && run->Some_0.waiting() is Start && run->Some_0.minted() is None,
    {
        if request.terms.is_well_formed() {
            Some(Run { request, waiting: Waiting::Start, minted: None })
        } else {
            None
        }
    }

    /// Tells whether the run has stopped.
    pub fn is_done(&self) -> (done: bool)
        ensures
            done == (self.waiting() is Done),
    {
        match self.waiting {
            Waiting::Done => true,
            _ => false,
        }
    }

    /// The id of the transaction with which the run minted a separator, if
    /// it did. A run that stops after it did leaves that separator behind on
    /// the ledger.
    pub fn minted_id(&self) -> (minted: Option<[u8; 32]>)
        ensures
            minted == self.minted(),
    {
        self.minted
    }

    /// Takes in what the caller reports and says what to do next.
    pub fn step(self, event: Event) -> (result: (Run, Action))
        ensures
            result.0.request() == self.request(),
            result.0.minted() == minted_after(self.minted(), self.waiting(), event),
            step_fits(
                self.request(),
                self.minted(),
                self.waiting(),
                event,
                result.0.waiting(),
                result.1,
            ),
    {
        proof {
            use_type_invariant(&self);
        }
        let Run { request, waiting, minted } = self;
        let mut sent: Option<[u8; 32]> = minted;
        let (next, action) = match (waiting, event) {
            (Waiting::Start, Event::Started) => (Waiting::Balance, Action::QueryBalance),
            (Waiting::Balance, Event::Balance(balance)) => {
                if balance < request.terms.price {
                    stop(Outcome::Abandoned(Abandoned::InsufficientFunds))
                } else {
                    (Waiting::Outputs, Action::ListOutputs)
                }
            },
            (Waiting::Outputs, Event::Outputs(outputs)) => after_outputs(
                request.oracle.as_str(),
                outputs,
            ),
            (Waiting::Verdicts { outputs }, Event::Verdicts(bodies)) => after_verdicts(
                &request.terms,
                outputs,
                minted,
                bodies,
            ),
            (Waiting::MintFunding { source }, Event::Funding(funding)) => after_mint_funding(
                &request,
                source,
                funding,
            ),
            (Waiting::MintBroadcast, Event::Broadcast(id)) => {
                sent = Some(id);
                (Waiting::Outputs, Action::ListOutputs)
            },
            (Waiting::TradeFunding { separator, payment }, Event::Funding(funding)) =>
                after_trade_funding(&request, separator, payment, funding),
            (Waiting::Settlement, Event::Settled(txid)) => stop(Outcome::Settled(txid)),
            _ => stop(Outcome::Failed(Fatal::UnexpectedEvent)),
        };
        (Run { request, waiting: next, minted: sent }, action)
    }
}

/// A balance below the price ends the run on the spot: the trade is
/// abandoned for want of funds, and nothing is handed out for signing or
/// sending.
pub proof fn lemma_low_balance_abandons(
    request: Request,
    minted: Option<[u8; 32]>,
    balance: u64,
    next: Waiting,
    action: Action,
)
    requires
        balance < request.terms.price,
        step_fits(request, minted, Waiting::Balance, Event::Balance(balance), next, action),
    ensures
        stops(next, action, Outcome::Abandoned(Abandoned::InsufficientFunds)),
{
}

/// Where no output is left that the wallet can spend and that holds no
/// inscription, the trade is abandoned; no separator is minted.
pub proof fn lemma_nothing_spendable_abandons(
    request: Request,
    outputs: Vec<UnspentOutput>,
    minted: Option<[u8; 32]>,
    bodies: Vec<String>,
    next: Waiting,
    action: Action,
)
    requires
        bodies@.len() == outputs@.len(),
        eligible(classify(outputs@, bodies@)).len() == 0,
        step_fits(
            request,
            minted,
            Waiting::Verdicts { outputs },
            Event::Verdicts(bodies),
            next,
            action,
        ),
    ensures
        stops(next, action, Outcome::Abandoned(Abandoned::NoSpendableOutputs)),
{
    lemma_ascending_is_ascending(eligible(classify(outputs@, bodies@)));
}

/// The separator has one place only: two positions that both are where the
/// separator stands are the same position.
pub proof fn lemma_separator_has_one_place(
    spendable: Seq<UnspentOutput>,
    minted: Option<[u8; 32]>,
    dust: u64,
    one: int,
    other: int,
)
    requires
        is_separator_at(spendable, minted, one, dust),
        is_separator_at(spendable, minted, other, dust),
    ensures
        one == other,
{
    if one < other {
        assert(spendable[one].value <= dust);
    } else if other < one {
        assert(spendable[other].value <= dust);
    }
}

/// With a separator at hand the run mints none: it goes on to the payment
/// with that separator, or abandons the trade for want of funds, and hands
/// out nothing to sign.
pub proof fn lemma_separator_at_hand_mints_nothing(
    request: Request,
    outputs: Vec<UnspentOutput>,
    minted: Option<[u8; 32]>,
    bodies: Vec<String>,
    next: Waiting,
    action: Action,
)
    requires
        bodies@.len() == outputs@.len(),
        separator_at_hand(
            ascending(eligible(classify(outputs@, bodies@))),
            minted,
            request.terms.dust_threshold,
        ),
        step_fits(
            request,
            minted,
            Waiting::Verdicts { outputs },
            Event::Verdicts(bodies),
            next,
            action,
        ),
    ensures
        next is TradeFunding || stops(
            next,
            action,
            Outcome::Abandoned(Abandoned::InsufficientFunds),
        ),
        next is TradeFunding ==> action is FetchFunding && next->TradeFunding_separator.value
            <= request.terms.dust_threshold,
        !(next is MintFunding),
        !(action is SignAndBroadcast),
{
    let spendable = ascending(eligible(classify(outputs@, bodies@)));
    let dust = request.terms.dust_threshold;
    if minted is Some {
        let at = choose|i: int|
            0 <= i < spendable.len() && is_minted_separator(
                #[trigger] spendable[i],
                minted->Some_0@,
                dust,
            );
        assert(spendable.len() > 0);
    } else {
        let at = choose|i: int| 0 <= i < spendable.len() && #[trigger] spendable[i].value <= dust;
        assert(spendable.len() > 0);
    }
    let index = choose|index: int|
        is_separator_at(spendable, minted, index, dust) && payment_fits(
            spendable[index],
            #[trigger] spendable.remove(index),
            request.terms.required_payment(),
            next,
            action,
        );
    assert(payment_fits(
        spendable[index],
        spendable.remove(index),
        request.terms.required_payment(),
        next,
        action,
    ));
}

/// Where an output that may be spent already qualifies as a separator, the
/// run mints none, however often it comes by. A run that has minted none
/// goes on to the payment with a separator at or below the dust threshold, or
/// abandons the trade for want of funds.
pub proof fn lemma_existing_separator_mints_nothing(
    request: Request,
    outputs: Vec<UnspentOutput>,
    minted: Option<[u8; 32]>,
    bodies: Vec<String>,
    next: Waiting,
    action: Action,
)
    requires
        bodies@.len() == outputs@.len(),
        has_dust(
            ascending(eligible(classify(outputs@, bodies@))),
            request.terms.dust_threshold,
        ),
        step_fits(
            request,
            minted,
            Waiting::Verdicts { outputs },
            Event::Verdicts(bodies),
            next,
            action,
        ),
    ensures
        !(next is MintFunding),
        !(action is SignAndBroadcast),
        minted is None ==> next is TradeFunding || stops(
            next,
            action,
            Outcome::Abandoned(Abandoned::InsufficientFunds),
        ),
        minted is None && next is TradeFunding ==> action is FetchFunding
            && next->TradeFunding_separator.value <= request.terms.dust_threshold,
{
    let spendable = ascending(eligible(classify(outputs@, bodies@)));
    if separator_at_hand(spendable, minted, request.terms.dust_threshold) {
        lemma_separator_at_hand_mints_nothing(request, outputs, minted, bodies, next, action);
    } else {
        let at = choose|i: int|
            0 <= i < spendable.len() && #[trigger] spendable[i].value
                <= request.terms.dust_threshold;
        assert(spendable.len() > 0);
    }
}

/// A run that has minted a separator takes the very output it minted: the
/// separator of the trade is the output at the separator's position of the
/// minting transaction, whatever else the wallet lists at or below the dust
/// threshold, the change of the minting among it. Where that output is not
/// listed the run fails, and it never mints a second time.
pub proof fn lemma_minted_separator_is_taken(
    request: Request,
    outputs: Vec<UnspentOutput>,
    id: [u8; 32],
    bodies: Vec<String>,
    next: Waiting,
    action: Action,
)
    requires
        bodies@.len() == outputs@.len(),
        step_fits(
            request,
            Some(id),
            Waiting::Verdicts { outputs },
            Event::Verdicts(bodies),
            next,
            action,
        ),
    ensures
        next is TradeFunding ==> is_minted_separator(
            next->TradeFunding_separator,
            id@,
            request.terms.dust_threshold,
        ),
        next is TradeFunding || next is Done,
        !(action is SignAndBroadcast),
        ({
            let spendable = ascending(eligible(classify(outputs@, bodies@)));
            &&& spendable.len() > 0 && !holds_minted(spendable, id@, request.terms.dust_threshold)
                ==> stops(next, action, Outcome::Failed(Fatal::SeparatorMissing))
            &&& holds_minted(spendable, id@, request.terms.dust_threshold) ==> next is TradeFunding
                || stops(next, action, Outcome::Abandoned(Abandoned::InsufficientFunds))
        }),
{
    let spendable = ascending(eligible(classify(outputs@, bodies@)));
    let dust = request.terms.dust_threshold;
    if holds_minted(spendable, id@, dust) {
        lemma_separator_at_hand_mints_nothing(request, outputs, Some(id), bodies, next, action);
        let index = choose|index: int|
            is_separator_at(spendable, Some(id), index, dust) && payment_fits(
                spendable[index],
                #[trigger] spendable.remove(index),
                request.terms.required_payment(),
                next,
                action,
            );
        assert(is_minted_separator(spendable[index], id@, dust));
    }
}

/// `output` was listed as one that the wallet can spend, and the oracle's
/// answer for it shows no inscription.
pub open spec fn listed_without_inscription(
    outputs: Seq<UnspentOutput>,
    bodies: Seq<String>,
    output: UnspentOutput,
) -> bool {
    exists|i: int|
        0 <= i < outputs.len() && #[trigger] outputs[i] == output && output.spendable
            && !holds_word(bodies[i]@)
}

/// A trade never spends what the oracle found to hold an inscription: the
/// separator and every payment input were listed, and the oracle's answer
/// for each shows none.
pub proof fn lemma_trade_spends_no_inscription(
    request: Request,
    outputs: Vec<UnspentOutput>,
    minted: Option<[u8; 32]>,
    bodies: Vec<String>,
    next: Waiting,
    action: Action,
)
    requires
        step_fits(
            request,
            minted,
            Waiting::Verdicts { outputs },
            Event::Verdicts(bodies),
            next,
            action,
        ),
        next is TradeFunding,
    ensures
        listed_without_inscription(outputs@, bodies@, next->TradeFunding_separator),
        forall|k: int|
            0 <= k < next->TradeFunding_payment@.len() ==> listed_without_inscription(
                outputs@,
                bodies@,
                #[trigger] next->TradeFunding_payment@[k],
            ),
{
    let classified = classify(outputs@, bodies@);
    let spendable = ascending(eligible(classified));
    let index = choose|index: int|
        is_separator_at(spendable, minted, index, request.terms.dust_threshold) && payment_fits(
            spendable[index],
            #[trigger] spendable.remove(index),
            request.terms.required_payment(),
            next,
            action,
        );
    let candidates = spendable.remove(index);
    let separator = next->TradeFunding_separator;
    let chosen = next->TradeFunding_payment@;
    assert(separator == spendable[index]);
    assert(spendable.contains(separator));
    lemma_sorted_output_was_listed(classified, separator);
    let at = choose|i: int|
        0 <= i < classified.len() && #[trigger] classified[i].output == separator
            && !is_barred(classified[i]);
    assert(outputs@[at] == separator && separator.spendable && !holds_word(bodies@[at]@));
    assert forall|k: int| 0 <= k < chosen.len() implies listed_without_inscription(
        outputs@,
        bodies@,
        #[trigger] chosen[k],
    ) by {
        let from = candidates.len() - 1 - k;
        assert(chosen[k] == candidates[from]);
        if from < index {
            assert(candidates[from] == spendable[from]);
        } else {
            assert(candidates[from] == spendable[from + 1]);
        }
        assert(spendable.contains(chosen[k]));
        lemma_sorted_output_was_listed(classified, chosen[k]);
        let i = choose|i: int|
            0 <= i < classified.len() && #[trigger] classified[i].output == chosen[k]
                && !is_barred(classified[i]);
        assert(outputs@[i] == chosen[k] && chosen[k].spendable && !holds_word(bodies@[i]@));
    }
}

/// The run pays largest first and with the fewest inputs: the candidates are
/// the outputs that may be spent, less the separator at `index`, and no
/// choice among them that reaches the required sum names fewer outputs than
/// the payment holds.
pub proof fn lemma_run_pays_with_the_fewest(
    request: Request,
    outputs: Vec<UnspentOutput>,
    minted: Option<[u8; 32]>,
    bodies: Vec<String>,
    next: Waiting,
    action: Action,
    index: int,
    picks: Seq<int>,
)
    requires
        step_fits(
            request,
            minted,
            Waiting::Verdicts { outputs },
            Event::Verdicts(bodies),
            next,
            action,
        ),
        next is TradeFunding,
        is_separator_at(
            ascending(eligible(classify(outputs@, bodies@))),
            minted,
            index,
            request.terms.dust_threshold,
        ),
        is_choice(ascending(eligible(classify(outputs@, bodies@))).remove(index), picks),
        picked_value(ascending(eligible(classify(outputs@, bodies@))).remove(index), picks)
            >= request.terms.required_payment(),
    ensures
        next->TradeFunding_separator == ascending(eligible(classify(outputs@, bodies@)))[index],
        next->TradeFunding_payment@ == spent_first(
            ascending(eligible(classify(outputs@, bodies@))).remove(index),
            next->TradeFunding_payment@.len() as int,
        ),
        is_ascending(ascending(eligible(classify(outputs@, bodies@))).remove(index)),
        picks.len() >= next->TradeFunding_payment@.len(),
        forall|k: int, l: int|
            #![trigger next->TradeFunding_payment@[k], next->TradeFunding_payment@[l]]
            0 <= k <= l < next->TradeFunding_payment@.len() ==> next->TradeFunding_payment@[k].value
                >= next->TradeFunding_payment@[l].value,
{
    let spendable = ascending(eligible(classify(outputs@, bodies@)));
    let dust = request.terms.dust_threshold;
    let found = choose|found: int|
        is_separator_at(spendable, minted, found, dust) && payment_fits(
            spendable[found],
            #[trigger] spendable.remove(found),
            request.terms.required_payment(),
            next,
            action,
        );
    lemma_separator_has_one_place(spendable, minted, dust, found, index);
    let candidates = spendable.remove(index);
    let count = next->TradeFunding_payment@.len() as int;
    lemma_ascending_is_ascending(eligible(classify(outputs@, bodies@)));
    assert forall|i: int, j: int| 0 <= i <= j < candidates.len() implies candidates[i].value
        <= candidates[j].value by {
        let from = if i < index {
            i
        } else {
            i + 1
        };
        let to = if j < index {
            j
        } else {
            j + 1
        };
        assert(candidates[i] == spendable[from] && candidates[j] == spendable[to]);
    }
    lemma_selection_is_fewest(candidates, count, request.terms.required_payment(), picks);
    lemma_selection_is_largest_first(candidates, count);
}

/// The trade that the run hands out for signing conserves value: separator,
/// inscribed output and payment bring in what its outputs hold plus the
/// overhead, as long as the seller's output asks the agreed price. The
/// seller's output stands in it as the seller signed it.
pub proof fn lemma_trade_handed_out_conserves_value(
    request: Request,
    minted: Option<[u8; 32]>,
    separator: UnspentOutput,
    payment: Vec<UnspentOutput>,
    funding: Vec<Vec<u8>>,
    next: Waiting,
    action: Action,
)
    requires
        step_fits(
            request,
            minted,
            Waiting::TradeFunding { separator, payment },
            Event::Funding(funding),
            next,
            action,
        ),
        action is SignAndSettle,
        request.offer@.unsigned.output[0].value == request.terms.price,
    ensures
        funding_total(request.inscription_value, separator, payment@) == output_total(
            action->SignAndSettle_0@.unsigned.output,
        ) + request.terms.overhead,
        action->SignAndSettle_0@.unsigned.output[SELLER_OUTPUT as int]
            == request.offer@.unsigned.output[0],
{
    lemma_prepared_trade_conserves_value(
        action->SignAndSettle_0,
        request.offer,
        request.inscription_value,
        separator,
        payment@,
        funding@,
        request.buyer_address@,
        request.market_address@,
        request.network,
        request.terms,
    );
}

/// A transaction is handed out for signing at two points only: a minting
/// transaction once the run holds the transaction behind the output to be
/// split, and the trade once it holds those behind separator and payment. A
/// run sets out to mint only if it has minted none before.
pub proof fn lemma_signing_points(
    request: Request,
    minted: Option<[u8; 32]>,
    waiting: Waiting,
    event: Event,
    next: Waiting,
    action: Action,
)
    requires
        step_fits(request, minted, waiting, event, next, action),
    ensures
        action is SignAndBroadcast ==> waiting is MintFunding && event is Funding,
        action is SignAndSettle ==> waiting is TradeFunding && event is Funding,
        next is MintFunding ==> waiting is Verdicts && minted is None,
{
    match (waiting, event) {
        (Waiting::Verdicts { outputs }, Event::Verdicts(bodies)) => {
            let spendable = ascending(eligible(classify(outputs@, bodies@)));
            if bodies@.len() == outputs@.len() && spendable.len() > 0 && separator_at_hand(
                spendable,
                minted,
                request.terms.dust_threshold,
            ) {
                lemma_separator_at_hand_mints_nothing(
                    request,
                    outputs,
                    minted,
                    bodies,
                    next,
                    action,
                );
            }
        },
        _ => {},
    }
}

/// A run that has stopped stays stopped: whatever is reported to it, it asks
/// for nothing more.
pub proof fn lemma_stopped_stays_stopped(
    request: Request,
    minted: Option<[u8; 32]>,
    event: Event,
    next: Waiting,
    action: Action,
)
    requires
        step_fits(request, minted, Waiting::Done, event, next, action),
    ensures
        next is Done,
        action is Stop,
{
}

} // verus!
