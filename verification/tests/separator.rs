use inscription_trade::ledger::{OutPoint, TxIn, TxOut, UnspentOutput};
use inscription_trade::separator::{
    find_largest, find_minted, find_separator, mint_separator, plan_separator, SeparatorError,
    SeparatorPlan, MINTED_SEPARATOR_OUTPUT,
};
use inscription_trade::terms::TradeTerms;

fn output(tag: u8, value: u64) -> UnspentOutput {
    UnspentOutput {
        outpoint: OutPoint { txid: [tag; 32], vout: tag as u32 },
        address: None,
        value,
        spendable: true,
    }
}

#[test]
fn first_output_at_or_below_the_threshold_is_the_separator() {
    let outputs = vec![output(1, 1001), output(2, 1000), output(3, 400)];
    assert_eq!(find_separator(&outputs, 1000), Some(1));
    assert_eq!(find_separator(&outputs, 999), Some(2));
    assert_eq!(find_separator(&outputs, 399), None);
    assert_eq!(find_separator(&Vec::new(), 1000), None);
}

#[test]
fn largest_output_is_the_last_of_its_value() {
    let outputs = vec![output(1, 7000), output(2, 9000), output(3, 9000), output(4, 10)];
    assert_eq!(find_largest(&outputs), Some(2));
    assert_eq!(find_largest(&vec![output(1, 5)]), Some(0));
    assert_eq!(find_largest(&Vec::new()), None);
}

#[test]
fn existing_separator_is_used() {
    let terms = TradeTerms::standard();
    let outputs = vec![output(1, 600), output(2, 900), output(3, 50_000)];
    assert_eq!(plan_separator(&outputs, &terms), Ok(SeparatorPlan::UseExisting { index: 0 }));
}

#[test]
fn existing_separator_is_used_every_time() {
    let terms = TradeTerms::standard();
    let outputs = vec![output(1, 2000), output(2, 1000), output(3, 50_000)];
    let first = plan_separator(&outputs, &terms);
    let second = plan_separator(&outputs, &terms);
    assert_eq!(first, Ok(SeparatorPlan::UseExisting { index: 1 }));
    assert_eq!(first, second);
}

#[test]
fn largest_output_is_split_where_no_separator_exists() {
    let terms = TradeTerms::standard();
    let outputs = vec![output(1, 2000), output(2, 50_000), output(3, 1001)];
    assert_eq!(plan_separator(&outputs, &terms), Ok(SeparatorPlan::Mint { source: 1 }));
}

#[test]
fn source_must_exceed_separator_and_fee() {
    let terms = TradeTerms::standard();
    assert_eq!(
        plan_separator(&vec![output(1, 1258)], &terms),
        Err(SeparatorError::SourceTooSmall)
    );
    assert_eq!(
        plan_separator(&vec![output(1, 1001), output(2, 1200)], &terms),
        Err(SeparatorError::SourceTooSmall)
    );
    assert_eq!(
        plan_separator(&vec![output(1, 1259)], &terms),
        Ok(SeparatorPlan::Mint { source: 0 })
    );
}

#[test]
fn nothing_to_spend_gives_no_plan() {
    let terms = TradeTerms::standard();
    assert_eq!(plan_separator(&Vec::new(), &terms), Err(SeparatorError::NothingToSpend));
}

#[test]
fn minting_splits_the_source_in_two() {
    let terms = TradeTerms::standard();
    let source = output(7, 50_000);
    let script = vec![0x00, 0x14, 0xaa, 0xbb];
    let tx = match mint_separator(&source, &script, &terms) {
        Ok(tx) => tx,
        Err(_) => panic!("50000 can be split"),
    };
    assert_eq!(tx.version, 2);
    assert_eq!(tx.lock_time, 0);
    assert_eq!(
        tx.input,
        vec![TxIn {
            previous_output: OutPoint { txid: [7; 32], vout: 7 },
            script_sig: Vec::new(),
            sequence: 0xFFFF_FFFF,
        }]
    );
    assert_eq!(
        tx.output,
        vec![
            TxOut { value: 1000, script_pubkey: script.clone() },
            TxOut { value: 50_000 - 1000 - 258, script_pubkey: script.clone() },
        ]
    );
    assert_eq!(tx.output[1].value, 48_742);
}

#[test]
fn minting_refuses_a_source_that_leaves_no_change() {
    let terms = TradeTerms::standard();
    let script = vec![0x51];
    assert_eq!(
        mint_separator(&output(1, 1258), &script, &terms),
        Err(SeparatorError::SourceTooSmall)
    );
    assert_eq!(mint_separator(&output(1, 0), &script, &terms), Err(SeparatorError::SourceTooSmall));
    let least = match mint_separator(&output(1, 1259), &script, &terms) {
        Ok(tx) => tx,
        Err(_) => panic!("1259 leaves a change of 1"),
    };
    assert_eq!(least.output[0].value, 1000);
    assert_eq!(least.output[1].value, 1);
}

#[test]
fn minting_keeps_every_unit_but_the_fee() {
    let terms = TradeTerms::standard();
    let source = output(3, u64::MAX);
    let tx = match mint_separator(&source, &vec![0x51], &terms) {
        Ok(tx) => tx,
        Err(_) => panic!("the largest value can be split"),
    };
    assert_eq!(tx.output[0].value + tx.output[1].value + 258, u64::MAX);
}

#[test]
fn cost_beyond_every_value_mints_nothing() {
    let mut terms = TradeTerms::standard();
    terms.dust_threshold = 0;
    terms.separator_fee = u64::MAX;
    assert_eq!(
        plan_separator(&vec![output(1, u64::MAX)], &terms),
        Err(SeparatorError::SourceTooSmall)
    );
    assert_eq!(
        mint_separator(&output(1, u64::MAX), &vec![0x51], &terms),
        Err(SeparatorError::SourceTooSmall)
    );
    terms.dust_threshold = u64::MAX;
    assert_eq!(
        plan_separator(&vec![output(1, u64::MAX)], &terms),
        Ok(SeparatorPlan::UseExisting { index: 0 })
    );
    assert_eq!(
        mint_separator(&output(1, u64::MAX), &vec![0x51], &terms),
        Err(SeparatorError::SourceTooSmall)
    );
}

fn at(txid: [u8; 32], vout: u32, value: u64) -> UnspentOutput {
    UnspentOutput { outpoint: OutPoint { txid, vout }, address: None, value, spendable: true }
}

#[test]
fn separator_stands_first_in_the_minting_transaction() {
    assert_eq!(MINTED_SEPARATOR_OUTPUT, 0);
    let tx = match mint_separator(&output(7, 2200), &vec![0x51], &TradeTerms::standard()) {
        Ok(tx) => tx,
        Err(_) => panic!("2200 can be split"),
    };
    assert_eq!(tx.output[MINTED_SEPARATOR_OUTPUT as usize].value, 1000);
    assert_eq!(tx.output[1].value, 942);
}

#[test]
fn minted_separator_is_found_by_its_reference() {
    let id = [0xab; 32];
    let outputs = vec![at(id, 1, 942), at([0xcd; 32], 0, 1000), at(id, 0, 1000), at(id, 2, 5)];
    assert_eq!(find_minted(&outputs, &id, 1000), Some(2));
    assert_eq!(find_separator(&outputs, 1000), Some(0));
    assert_eq!(find_minted(&outputs, &[0xcd; 32], 1000), Some(1));
    assert_eq!(find_minted(&outputs, &[0xee; 32], 1000), None);
    assert_eq!(find_minted(&Vec::new(), &id, 1000), None);
}

#[test]
fn change_of_the_minting_is_not_the_minted_separator() {
    let id = [0xab; 32];
    let outputs = vec![at(id, 1, 942), at([0xcd; 32], 3, 600)];
    assert_eq!(find_minted(&outputs, &id, 1000), None);
}

#[test]
fn minted_separator_must_qualify() {
    let id = [0xab; 32];
    assert_eq!(find_minted(&vec![at(id, 0, 1001)], &id, 1000), None);
    assert_eq!(find_minted(&vec![at(id, 0, 1000)], &id, 1000), Some(0));
    assert_eq!(find_minted(&vec![at(id, 0, 1000)], &id, 999), None);
    let mut near = id;
    near[31] = 0xac;
    assert_eq!(find_minted(&vec![at(near, 0, 1000)], &id, 1000), None);
    assert_eq!(find_minted(&vec![at(near, 0, 1000), at(id, 0, 10)], &id, 1000), Some(1));
}
