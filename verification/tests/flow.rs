use inscription_trade::flow::{Action, Event, Outcome, Request, Run};
use inscription_trade::ledger::{OutPoint, UnspentOutput};
use inscription_trade::offer::{prepare_offer, read_offer};
use inscription_trade::outcome::{Abandoned, Fatal};
use inscription_trade::partial::PartialTransaction;
use inscription_trade::terms::TradeTerms;
use inscription_trade::wire::Network;

const BUYER: &str = "tb1qw508d6qejxtdg4y5r3zarvary0c5xw7kxpjzsx";
const MARKET: &str = "tb1qrp33g0q5c5txsp9arysrx4k6zdkfs4nce4xj0gdcccefvpysxf3q0sl5k7";
const ORACLE: &str = "https://ord.example/";
const CLEAN: &str = "<dl><dt>value</dt><dd>3000</dd></dl>";
const INSCRIBED: &str = "<dl><dt>inscriptions</dt><dd class=thumbnails></dd></dl>";

fn buyer_script() -> Vec<u8> {
    vec![
        0x00, 0x14, 0x75, 0x1e, 0x76, 0xe8, 0x19, 0x91, 0x96, 0xd4, 0x54, 0x94, 0x1c, 0x45, 0xd1,
        0xb3, 0xa3, 0x23, 0xf1, 0x43, 0x3b, 0xd6,
    ]
}

fn creating(tag: u8, values: &[u64]) -> bitcoin::Transaction {
    let mut output = Vec::new();
    for value in values {
        output.push(bitcoin::TxOut {
            value: *value,
            script_pubkey: bitcoin::ScriptBuf::from_bytes(vec![0x51, tag]),
        });
    }
    bitcoin::Transaction {
        version: 2,
        lock_time: bitcoin::absolute::LockTime::ZERO,
        input: vec![bitcoin::TxIn {
            previous_output: bitcoin::OutPoint::new(
                bitcoin::hashes::Hash::from_byte_array([tag; 32]),
                0,
            ),
            script_sig: bitcoin::ScriptBuf::new(),
            sequence: bitcoin::Sequence::MAX,
            witness: bitcoin::Witness::new(),
        }],
        output,
    }
}

fn raw(tx: &bitcoin::Transaction) -> Vec<u8> {
    bitcoin::consensus::encode::serialize(tx)
}

fn unspent(tx: &bitcoin::Transaction, vout: u32) -> UnspentOutput {
    UnspentOutput {
        outpoint: OutPoint { txid: bitcoin::hashes::Hash::to_byte_array(tx.txid()), vout },
        address: Some(BUYER.to_string()),
        value: tx.output[vout as usize].value,
        spendable: true,
    }
}

fn id_of(tx: &bitcoin::Transaction) -> [u8; 32] {
    bitcoin::hashes::Hash::to_byte_array(tx.txid())
}

fn question(tx: &bitcoin::Transaction, vout: u32) -> String {
    format!("{}output/{}:{}", ORACLE, tx.txid(), vout)
}

fn offer() -> PartialTransaction {
    let inscribed = creating(0x11, &[546]);
    let reference =
        OutPoint { txid: bitcoin::hashes::Hash::to_byte_array(inscribed.txid()), vout: 0 };
    let prepared = match prepare_offer(reference, &raw(&inscribed), 1900) {
        Ok(offer) => offer,
        Err(cause) => panic!("no offer: {:?}", cause),
    };
    match read_offer(&prepared.partial.to_text()) {
        Ok(partial) => partial,
        Err(cause) => panic!("no offer: {:?}", cause),
    }
}

fn request() -> Request {
    Request {
        offer: offer(),
        inscription_value: 546,
        buyer_address: BUYER.to_string(),
        market_address: MARKET.to_string(),
        oracle: ORACLE.to_string(),
        network: Network::Testnet,
        terms: TradeTerms::standard(),
    }
}

fn started() -> Run {
    match Run::new(request()) {
        Some(run) => run,
        None => panic!("the standard terms are well formed"),
    }
}

fn after(run: Run, events: Vec<Event>) -> (Run, Action) {
    let mut run = run;
    let mut last = Action::QueryBalance;
    for event in events {
        let (next, action) = run.step(event);
        run = next;
        last = action;
    }
    (run, last)
}

fn bodies(texts: &[&str]) -> Vec<String> {
    texts.iter().map(|text| text.to_string()).collect()
}

fn parsed(partial: &PartialTransaction) -> bitcoin::psbt::PartiallySignedTransaction {
    match partial.to_text().parse::<bitcoin::psbt::PartiallySignedTransaction>() {
        Ok(psbt) => psbt,
        Err(_) => panic!("the text is a partially signed transaction"),
    }
}

#[test]
fn run_begins_with_the_balance() {
    let run = started();
    assert!(!run.is_done());
    assert_eq!(run.minted_id(), None);
    let (run, action) = run.step(Event::Started);
    assert_eq!(action, Action::QueryBalance);
    assert!(!run.is_done());
}

#[test]
fn terms_that_overflow_start_no_run() {
    let mut request = request();
    request.terms.price = u64::MAX;
    assert_eq!(Run::new(request), None);
}

#[test]
fn balance_below_the_price_abandons_the_trade() {
    let (run, action) = after(started(), vec![Event::Started, Event::Balance(1899)]);
    assert_eq!(action, Action::Stop(Outcome::Abandoned(Abandoned::InsufficientFunds)));
    assert!(run.is_done());
    assert_eq!(run.minted_id(), None);
    let (run, action) = after(started(), vec![Event::Started, Event::Balance(0)]);
    assert_eq!(action, Action::Stop(Outcome::Abandoned(Abandoned::InsufficientFunds)));
    assert!(run.is_done());
}

#[test]
fn balance_at_the_price_goes_on() {
    let (run, action) = after(started(), vec![Event::Started, Event::Balance(1900)]);
    assert_eq!(action, Action::ListOutputs);
    assert!(!run.is_done());
}

#[test]
fn stopped_run_stays_stopped() {
    let (run, _) = after(started(), vec![Event::Started, Event::Balance(5)]);
    let dust = creating(0x22, &[600]);
    let events = vec![
        Event::Started,
        Event::Balance(1_000_000),
        Event::Outputs(vec![unspent(&dust, 0)]),
        Event::Verdicts(bodies(&[CLEAN])),
        Event::Funding(vec![raw(&dust)]),
        Event::Broadcast([7; 32]),
        Event::Settled("00".repeat(32)),
    ];
    let mut run = run;
    for event in events {
        let (next, action) = run.step(event);
        assert_eq!(action, Action::Stop(Outcome::Failed(Fatal::UnexpectedEvent)));
        assert!(next.is_done());
        run = next;
    }
}

#[test]
fn oracle_is_asked_about_every_output() {
    let big = creating(0x33, &[5000]);
    let dust = creating(0x22, &[7000, 600]);
    let listed = vec![unspent(&big, 0), unspent(&dust, 1)];
    let (_, action) =
        after(started(), vec![Event::Started, Event::Balance(9000), Event::Outputs(listed)]);
    assert_eq!(action, Action::AskOracle(vec![question(&big, 0), question(&dust, 1)]));
    let (_, action) =
        after(started(), vec![Event::Started, Event::Balance(9000), Event::Outputs(Vec::new())]);
    assert_eq!(action, Action::AskOracle(Vec::new()));
}

#[test]
fn answers_must_match_the_questions() {
    let big = creating(0x33, &[5000]);
    let events = vec![
        Event::Started,
        Event::Balance(9000),
        Event::Outputs(vec![unspent(&big, 0)]),
        Event::Verdicts(bodies(&[CLEAN, CLEAN])),
    ];
    let (run, action) = after(started(), events);
    assert_eq!(action, Action::Stop(Outcome::Failed(Fatal::OracleMismatch)));
    assert!(run.is_done());
}

#[test]
fn nothing_without_inscription_abandons_the_trade() {
    let big = creating(0x33, &[5000, 9000]);
    let events = vec![
        Event::Started,
        Event::Balance(14_000),
        Event::Outputs(vec![unspent(&big, 0), unspent(&big, 1)]),
        Event::Verdicts(bodies(&[INSCRIBED, INSCRIBED])),
    ];
    let (run, action) = after(started(), events);
    assert_eq!(action, Action::Stop(Outcome::Abandoned(Abandoned::NoSpendableOutputs)));
    assert!(run.is_done());
    let events = vec![
        Event::Started,
        Event::Balance(14_000),
        Event::Outputs(Vec::new()),
        Event::Verdicts(Vec::new()),
    ];
    let (run, action) = after(started(), events);
    assert_eq!(action, Action::Stop(Outcome::Abandoned(Abandoned::NoSpendableOutputs)));
    assert!(run.is_done());
}

#[test]
fn existing_separator_goes_straight_to_the_payment() {
    let all = creating(0x33, &[5000, 600, 546, 3000, 900]);
    let listed = vec![
        unspent(&all, 0),
        unspent(&all, 1),
        unspent(&all, 2),
        unspent(&all, 3),
        unspent(&all, 4),
    ];
    let events = vec![
        Event::Started,
        Event::Balance(10_046),
        Event::Outputs(listed),
        Event::Verdicts(bodies(&[CLEAN, CLEAN, INSCRIBED, CLEAN, CLEAN])),
    ];
    let (run, action) = after(started(), events);
    assert!(!run.is_done());
    assert_eq!(
        action,
        Action::FetchFunding(vec![unspent(&all, 1).outpoint, unspent(&all, 0).outpoint])
    );
}

#[test]
fn separator_never_pays() {
    let all = creating(0x33, &[600, 3000, 1000]);
    let listed = vec![unspent(&all, 0), unspent(&all, 1), unspent(&all, 2)];
    let events = vec![
        Event::Started,
        Event::Balance(4600),
        Event::Outputs(listed),
        Event::Verdicts(bodies(&[CLEAN, CLEAN, CLEAN])),
    ];
    let (run, action) = after(started(), events);
    assert_eq!(action, Action::Stop(Outcome::Abandoned(Abandoned::InsufficientFunds)));
    assert!(run.is_done());
    let all = creating(0x33, &[600, 3000, 1372]);
    let listed = vec![unspent(&all, 0), unspent(&all, 1), unspent(&all, 2)];
    let events = vec![
        Event::Started,
        Event::Balance(4972),
        Event::Outputs(listed),
        Event::Verdicts(bodies(&[CLEAN, CLEAN, CLEAN])),
    ];
    let (_, action) = after(started(), events);
    assert_eq!(
        action,
        Action::FetchFunding(vec![
            unspent(&all, 0).outpoint,
            unspent(&all, 1).outpoint,
            unspent(&all, 2).outpoint,
        ])
    );
}

#[test]
fn candidates_that_fall_short_abandon_the_trade() {
    let all = creating(0x33, &[500, 3000, 400]);
    let listed = vec![unspent(&all, 0), unspent(&all, 1), unspent(&all, 2)];
    let events = vec![
        Event::Started,
        Event::Balance(3900),
        Event::Outputs(listed),
        Event::Verdicts(bodies(&[CLEAN, CLEAN, CLEAN])),
    ];
    let (run, action) = after(started(), events);
    assert_eq!(action, Action::Stop(Outcome::Abandoned(Abandoned::InsufficientFunds)));
    assert!(run.is_done());
}

#[test]
fn inscription_is_never_spent() {
    let all = creating(0x33, &[600, 90_000, 5000]);
    let listed = vec![unspent(&all, 0), unspent(&all, 1), unspent(&all, 2)];
    let events = vec![
        Event::Started,
        Event::Balance(95_600),
        Event::Outputs(listed),
        Event::Verdicts(bodies(&[CLEAN, INSCRIBED, CLEAN])),
    ];
    let (_, action) = after(started(), events);
    assert_eq!(
        action,
        Action::FetchFunding(vec![unspent(&all, 0).outpoint, unspent(&all, 2).outpoint])
    );
    let listed = vec![unspent(&all, 0), unspent(&all, 1), unspent(&all, 2)];
    let events = vec![
        Event::Started,
        Event::Balance(95_600),
        Event::Outputs(listed),
        Event::Verdicts(bodies(&[INSCRIBED, CLEAN, CLEAN])),
    ];
    let (_, action) = after(started(), events);
    assert_eq!(action, Action::FetchFunding(vec![unspent(&all, 1).outpoint]));
}

#[test]
fn trade_is_handed_out_and_settled() {
    let dust = creating(0x22, &[7000, 600]);
    let big = creating(0x33, &[5000]);
    let small = creating(0x44, &[3000]);
    let listed = vec![unspent(&big, 0), unspent(&dust, 1), unspent(&small, 0)];
    let events = vec![
        Event::Started,
        Event::Balance(8600),
        Event::Outputs(listed),
        Event::Verdicts(bodies(&[CLEAN, CLEAN, CLEAN])),
    ];
    let (run, action) = after(started(), events);
    assert_eq!(
        action,
        Action::FetchFunding(vec![unspent(&dust, 1).outpoint, unspent(&big, 0).outpoint])
    );
    let (run, action) = run.step(Event::Funding(vec![raw(&dust), raw(&big)]));
    let partial = match action {
        Action::SignAndSettle(partial) => partial,
        other => panic!("the trade is due, not {:?}", other),
    };
    let psbt = parsed(&partial);
    let seller = parsed(&offer());
    assert_eq!(psbt.unsigned_tx.input.len(), 3);
    assert_eq!(psbt.unsigned_tx.input[0].previous_output, bitcoin::OutPoint::new(dust.txid(), 1));
    assert_eq!(
        psbt.unsigned_tx.input[1].previous_output,
        seller.unsigned_tx.input[0].previous_output
    );
    assert_eq!(psbt.unsigned_tx.input[2].previous_output, bitcoin::OutPoint::new(big.txid(), 0));
    let values: Vec<u64> = psbt.unsigned_tx.output.iter().map(|o| o.value).collect();
    assert_eq!(values, vec![1146, 1900, 1000, 1000, 628]);
    assert_eq!(psbt.unsigned_tx.output[0].script_pubkey.as_bytes(), &buyer_script()[..]);
    assert_eq!(psbt.unsigned_tx.output[1], seller.unsigned_tx.output[0]);
    assert_eq!(psbt.unsigned_tx.output[3].script_pubkey.as_bytes(), &buyer_script()[..]);
    assert_eq!(psbt.unsigned_tx.output[4].script_pubkey.as_bytes(), &buyer_script()[..]);
    assert_eq!(psbt.inputs[0].non_witness_utxo, Some(dust));
    assert_eq!(psbt.inputs[1], seller.inputs[0]);
    assert_eq!(psbt.inputs[2].non_witness_utxo, Some(big));
    assert!(!run.is_done());
    let (run, action) = run.step(Event::Settled("ab".repeat(32)));
    assert_eq!(action, Action::Stop(Outcome::Settled("ab".repeat(32))));
    assert!(run.is_done());
}

#[test]
fn failure_to_prepare_the_trade_stops_the_run() {
    let dust = creating(0x22, &[600]);
    let big = creating(0x33, &[5000]);
    let events = vec![
        Event::Started,
        Event::Balance(5600),
        Event::Outputs(vec![unspent(&big, 0), unspent(&dust, 0)]),
        Event::Verdicts(bodies(&[CLEAN, CLEAN])),
        Event::Funding(vec![raw(&dust)]),
    ];
    let (run, action) = after(started(), events);
    assert_eq!(action, Action::Stop(Outcome::Failed(Fatal::FundingMismatch)));
    assert!(run.is_done());
}

#[test]
fn separator_is_minted_where_none_exists() {
    let big = creating(0x33, &[50_000]);
    let small = creating(0x44, &[3000]);
    let events = vec![
        Event::Started,
        Event::Balance(53_000),
        Event::Outputs(vec![unspent(&small, 0), unspent(&big, 0)]),
        Event::Verdicts(bodies(&[CLEAN, CLEAN])),
    ];
    let (run, action) = after(started(), events);
    assert_eq!(action, Action::FetchFunding(vec![unspent(&big, 0).outpoint]));
    let (run, action) = run.step(Event::Funding(vec![raw(&big)]));
    let partial = match action {
        Action::SignAndBroadcast(partial) => partial,
        other => panic!("the minting transaction is due, not {:?}", other),
    };
    let psbt = parsed(&partial);
    assert_eq!(psbt.unsigned_tx.version, 2);
    assert_eq!(psbt.unsigned_tx.input.len(), 1);
    assert_eq!(psbt.unsigned_tx.input[0].previous_output, bitcoin::OutPoint::new(big.txid(), 0));
    assert_eq!(psbt.unsigned_tx.input[0].sequence, bitcoin::Sequence::MAX);
    let values: Vec<u64> = psbt.unsigned_tx.output.iter().map(|o| o.value).collect();
    assert_eq!(values, vec![1000, 48_742]);
    assert_eq!(psbt.unsigned_tx.output[0].script_pubkey.as_bytes(), &buyer_script()[..]);
    assert_eq!(psbt.unsigned_tx.output[1].script_pubkey.as_bytes(), &buyer_script()[..]);
    let mut expected = bitcoin::psbt::Input::default();
    expected.non_witness_utxo = Some(big);
    assert_eq!(psbt.inputs, vec![expected]);

    assert_eq!(run.minted_id(), None);
    let minted = psbt.unsigned_tx.clone();
    let (run, action) = run.step(Event::Broadcast(id_of(&minted)));
    assert_eq!(action, Action::ListOutputs);
    assert_eq!(run.minted_id(), Some(id_of(&minted)));
    let listed = vec![unspent(&minted, 1), unspent(&small, 0), unspent(&minted, 0)];
    let (run, action) = run.step(Event::Outputs(listed));
    assert_eq!(
        action,
        Action::AskOracle(vec![question(&minted, 1), question(&small, 0), question(&minted, 0)])
    );
    let (run, action) = run.step(Event::Verdicts(bodies(&[CLEAN, CLEAN, CLEAN])));
    assert_eq!(
        action,
        Action::FetchFunding(vec![unspent(&minted, 0).outpoint, unspent(&minted, 1).outpoint])
    );
    assert!(!run.is_done());
}

#[test]
fn separator_is_minted_once() {
    let big = creating(0x33, &[50_000]);
    let events = vec![
        Event::Started,
        Event::Balance(50_000),
        Event::Outputs(vec![unspent(&big, 0)]),
        Event::Verdicts(bodies(&[CLEAN])),
        Event::Funding(vec![raw(&big)]),
        Event::Broadcast([9; 32]),
        Event::Outputs(vec![unspent(&big, 0)]),
        Event::Verdicts(bodies(&[CLEAN])),
    ];
    let (run, action) = after(started(), events);
    assert_eq!(action, Action::Stop(Outcome::Failed(Fatal::SeparatorMissing)));
    assert!(run.is_done());
    assert_eq!(run.minted_id(), Some([9; 32]));
}

fn minted_by(
    source: &bitcoin::Transaction,
    others: &[UnspentOutput],
) -> (Run, bitcoin::Transaction) {
    let mut listed = vec![unspent(source, 0)];
    let mut answers = vec![CLEAN];
    for other in others {
        listed.push(other.duplicate());
        answers.push(CLEAN);
    }
    let events = vec![
        Event::Started,
        Event::Balance(1_000_000),
        Event::Outputs(listed),
        Event::Verdicts(bodies(&answers)),
    ];
    let (run, action) = after(started(), events);
    assert_eq!(action, Action::FetchFunding(vec![unspent(source, 0).outpoint]));
    let (run, action) = run.step(Event::Funding(vec![raw(source)]));
    let minting = match action {
        Action::SignAndBroadcast(partial) => parsed(&partial).unsigned_tx,
        other => panic!("the minting transaction is due, not {:?}", other),
    };
    let (run, action) = run.step(Event::Broadcast(id_of(&minting)));
    assert_eq!(action, Action::ListOutputs);
    (run, minting)
}

#[test]
fn minted_separator_is_taken_and_not_the_change() {
    let source = creating(0x33, &[2200]);
    let others = creating(0x44, &[2000, 2100]);
    let (run, minting) = minted_by(&source, &[unspent(&others, 0), unspent(&others, 1)]);
    let values: Vec<u64> = minting.output.iter().map(|o| o.value).collect();
    assert_eq!(values, vec![1000, 942]);
    let listed = vec![
        unspent(&minting, 1),
        unspent(&others, 0),
        unspent(&minting, 0),
        unspent(&others, 1),
    ];
    let events = vec![Event::Outputs(listed), Event::Verdicts(bodies(&[CLEAN; 4]))];
    let (run, action) = after(run, events);
    let references = match action {
        Action::FetchFunding(references) => references,
        other => panic!("the payment is due, not {:?}", other),
    };
    assert_eq!(references[0], OutPoint { txid: id_of(&minting), vout: 0 });
    assert_eq!(
        references,
        vec![
            unspent(&minting, 0).outpoint,
            unspent(&others, 1).outpoint,
            unspent(&others, 0).outpoint,
            unspent(&minting, 1).outpoint,
        ]
    );
    let funding = vec![raw(&minting), raw(&others), raw(&others), raw(&minting)];
    let (run, action) = run.step(Event::Funding(funding));
    let trade = match action {
        Action::SignAndSettle(partial) => parsed(&partial).unsigned_tx,
        other => panic!("the trade is due, not {:?}", other),
    };
    assert_eq!(trade.input[0].previous_output, bitcoin::OutPoint::new(minting.txid(), 0));
    assert_eq!(trade.input[2].previous_output, bitcoin::OutPoint::new(others.txid(), 1));
    assert_eq!(trade.input[3].previous_output, bitcoin::OutPoint::new(others.txid(), 0));
    assert_eq!(trade.input[4].previous_output, bitcoin::OutPoint::new(minting.txid(), 1));
    let values: Vec<u64> = trade.output.iter().map(|o| o.value).collect();
    assert_eq!(values, vec![546 + 1000, 1900, 1000, 1000, 2100 + 2000 + 942 - 4372]);
    assert_eq!(run.minted_id(), Some(id_of(&minting)));
}

#[test]
fn change_of_the_minting_is_no_separator() {
    let source = creating(0x33, &[2200]);
    let others = creating(0x44, &[2000]);
    let (run, minting) = minted_by(&source, &[unspent(&others, 0)]);
    assert_eq!(unspent(&minting, 1).value, 942);
    let listed = vec![unspent(&minting, 1), unspent(&others, 0)];
    let events = vec![Event::Outputs(listed), Event::Verdicts(bodies(&[CLEAN, CLEAN]))];
    let (run, action) = after(run, events);
    assert_eq!(action, Action::Stop(Outcome::Failed(Fatal::SeparatorMissing)));
    assert!(run.is_done());
    assert_eq!(run.minted_id(), Some(id_of(&minting)));
}

#[test]
fn other_dust_does_not_stand_in_for_the_minted_separator() {
    let source = creating(0x33, &[50_000]);
    let others = creating(0x44, &[9000, 600]);
    let (run, minting) = minted_by(&source, &[unspent(&others, 0)]);
    let stranger = creating(0x55, &[1000, 7]);
    let listed = vec![
        unspent(&others, 1),
        unspent(&stranger, 0),
        unspent(&minting, 1),
        unspent(&others, 0),
    ];
    let events = vec![Event::Outputs(listed), Event::Verdicts(bodies(&[CLEAN; 4]))];
    let (_, action) = after(run, events);
    assert_eq!(action, Action::Stop(Outcome::Failed(Fatal::SeparatorMissing)));

    let (run, minting) = minted_by(&source, &[unspent(&others, 0)]);
    let listed = vec![
        unspent(&others, 1),
        unspent(&stranger, 0),
        unspent(&minting, 0),
        unspent(&others, 0),
    ];
    let events = vec![Event::Outputs(listed), Event::Verdicts(bodies(&[CLEAN; 4]))];
    let (_, action) = after(run, events);
    assert_eq!(
        action,
        Action::FetchFunding(vec![unspent(&minting, 0).outpoint, unspent(&others, 0).outpoint])
    );
}

#[test]
fn minted_separator_must_be_spendable_and_free_of_inscriptions() {
    let source = creating(0x33, &[50_000]);
    let others = creating(0x44, &[9000]);
    let (run, minting) = minted_by(&source, &[unspent(&others, 0)]);
    let listed = vec![unspent(&minting, 0), unspent(&others, 0)];
    let events = vec![Event::Outputs(listed), Event::Verdicts(bodies(&[INSCRIBED, CLEAN]))];
    let (_, action) = after(run, events);
    assert_eq!(action, Action::Stop(Outcome::Failed(Fatal::SeparatorMissing)));

    let (run, minting) = minted_by(&source, &[unspent(&others, 0)]);
    let mut watched = unspent(&minting, 0);
    watched.spendable = false;
    let events = vec![
        Event::Outputs(vec![watched, unspent(&others, 0)]),
        Event::Verdicts(bodies(&[CLEAN, CLEAN])),
    ];
    let (_, action) = after(run, events);
    assert_eq!(action, Action::Stop(Outcome::Failed(Fatal::SeparatorMissing)));

    let (run, minting) = minted_by(&source, &[unspent(&others, 0)]);
    let mut grown = unspent(&minting, 0);
    grown.value = 1001;
    let events = vec![
        Event::Outputs(vec![grown, unspent(&others, 0)]),
        Event::Verdicts(bodies(&[CLEAN, CLEAN])),
    ];
    let (_, action) = after(run, events);
    assert_eq!(action, Action::Stop(Outcome::Failed(Fatal::SeparatorMissing)));
}

#[test]
fn nothing_spendable_after_a_mint_abandons_the_trade() {
    let source = creating(0x33, &[50_000]);
    let (run, minting) = minted_by(&source, &[]);
    let events = vec![Event::Outputs(Vec::new()), Event::Verdicts(Vec::new())];
    let (run, action) = after(run, events);
    assert_eq!(action, Action::Stop(Outcome::Abandoned(Abandoned::NoSpendableOutputs)));
    assert_eq!(run.minted_id(), Some(id_of(&minting)));
}

#[test]
fn source_that_leaves_no_change_stops_the_run() {
    let small = creating(0x44, &[1258, 1100]);
    let events = vec![
        Event::Started,
        Event::Balance(2358),
        Event::Outputs(vec![unspent(&small, 0), unspent(&small, 1)]),
        Event::Verdicts(bodies(&[CLEAN, CLEAN])),
    ];
    let (run, action) = after(started(), events);
    assert_eq!(action, Action::Stop(Outcome::Failed(Fatal::SeparatorSourceTooSmall)));
    assert!(run.is_done());
}

#[test]
fn failure_to_prepare_the_minting_stops_the_run() {
    let big = creating(0x33, &[50_000]);
    let mut nameless = unspent(&big, 0);
    nameless.address = None;
    let upto = |output: UnspentOutput| {
        vec![
            Event::Started,
            Event::Balance(50_000),
            Event::Outputs(vec![output]),
            Event::Verdicts(bodies(&[CLEAN])),
        ]
    };
    let (run, _) = after(started(), upto(nameless));
    let (run, action) = run.step(Event::Funding(vec![raw(&big)]));
    assert_eq!(action, Action::Stop(Outcome::Failed(Fatal::MissingAddress)));
    assert!(run.is_done());

    let mut foreign = unspent(&big, 0);
    foreign.address = Some("bc1qw508d6qejxtdg4y5r3zarvary0c5xw7kv8f3t4".to_string());
    let (run, _) = after(started(), upto(foreign));
    let (_, action) = run.step(Event::Funding(vec![raw(&big)]));
    assert_eq!(action, Action::Stop(Outcome::Failed(Fatal::MalformedAddress)));

    let (run, _) = after(started(), upto(unspent(&big, 0)));
    let (_, action) = run.step(Event::Funding(vec![vec![1, 2, 3]]));
    assert_eq!(action, Action::Stop(Outcome::Failed(Fatal::MalformedFunding)));

    let (run, _) = after(started(), upto(unspent(&big, 0)));
    let (_, action) = run.step(Event::Funding(vec![raw(&creating(0x34, &[50_000]))]));
    assert_eq!(action, Action::Stop(Outcome::Failed(Fatal::WrongFunding)));

    let (run, _) = after(started(), upto(unspent(&big, 0)));
    let (_, action) = run.step(Event::Funding(Vec::new()));
    assert_eq!(action, Action::Stop(Outcome::Failed(Fatal::FundingMismatch)));

    let (run, _) = after(started(), upto(unspent(&big, 0)));
    let (_, action) = run.step(Event::Funding(vec![raw(&big), raw(&big)]));
    assert_eq!(action, Action::Stop(Outcome::Failed(Fatal::FundingMismatch)));
}

#[test]
fn event_out_of_turn_stops_the_run() {
    let (run, action) = started().step(Event::Balance(5000));
    assert_eq!(action, Action::Stop(Outcome::Failed(Fatal::UnexpectedEvent)));
    assert!(run.is_done());
    let (run, action) = after(started(), vec![Event::Started, Event::Started]);
    assert_eq!(action, Action::Stop(Outcome::Failed(Fatal::UnexpectedEvent)));
    assert!(run.is_done());
    let (_, action) =
        after(started(), vec![Event::Started, Event::Balance(5000), Event::Broadcast([1; 32])]);
    assert_eq!(action, Action::Stop(Outcome::Failed(Fatal::UnexpectedEvent)));
    let (_, action) = after(
        started(),
        vec![
            Event::Started,
            Event::Balance(5000),
            Event::Outputs(Vec::new()),
            Event::Settled(String::new()),
        ],
    );
    assert_eq!(action, Action::Stop(Outcome::Failed(Fatal::UnexpectedEvent)));
}

#[test]
fn separator_of_another_owner_stops_the_run() {
    let dust = creating(0x22, &[600]);
    let big = creating(0x33, &[5000]);
    let mut foreign = unspent(&dust, 0);
    foreign.address = Some(MARKET.to_string());
    let events = vec![
        Event::Started,
        Event::Balance(5600),
        Event::Outputs(vec![unspent(&big, 0), foreign]),
        Event::Verdicts(bodies(&[CLEAN, CLEAN])),
        Event::Funding(vec![raw(&dust), raw(&big)]),
    ];
    let (run, action) = after(started(), events);
    assert_eq!(action, Action::Stop(Outcome::Failed(Fatal::ForeignSeparator)));
    assert!(run.is_done());
}

#[test]
fn broadcast_out_of_turn_mints_nothing() {
    let (run, action) = after(started(), vec![Event::Started, Event::Broadcast([1; 32])]);
    assert_eq!(action, Action::Stop(Outcome::Failed(Fatal::UnexpectedEvent)));
    assert!(run.is_done());
    assert_eq!(run.minted_id(), None);
}

#[test]
fn outputs_that_the_wallet_cannot_spend_do_not_count() {
    let all = creating(0x33, &[600, 9000]);
    let mut dust = unspent(&all, 0);
    dust.spendable = false;
    let mut big = unspent(&all, 1);
    big.spendable = false;
    let events = vec![
        Event::Started,
        Event::Balance(9600),
        Event::Outputs(vec![dust, big]),
        Event::Verdicts(bodies(&[CLEAN, CLEAN])),
    ];
    let (run, action) = after(started(), events);
    assert_eq!(action, Action::Stop(Outcome::Abandoned(Abandoned::NoSpendableOutputs)));
    assert!(run.is_done());
    assert_eq!(run.minted_id(), None);
}
