use std::sync::Arc;

use accounts_bench::expectation::Expectation;
use accounts_bench::plan::read_actions;
use accounts_bench::population::{Key, Population, Record, SizePolicy};
use accounts_bench::replay::{Outcome, Replay};
use accounts_bench::slots::SlotSet;
use accounts_bench::workload::Action;
use solana_accounts_db::accounts_db::{
    AccountShrinkThreshold, AccountsDb, LoadHint, ACCOUNTS_DB_CONFIG_FOR_TESTING,
};
use solana_accounts_db::accounts_index::AccountSecondaryIndexes;
use solana_accounts_db::ancestors::Ancestors;
use solana_sdk::account::{AccountSharedData, ReadableAccount};
use solana_sdk::genesis_config::ClusterType;
use solana_sdk::pubkey::Pubkey;

fn engine() -> AccountsDb {
    AccountsDb::new_with_config(
        Vec::new(),
        &ClusterType::Development,
        AccountSecondaryIndexes::default(),
        AccountShrinkThreshold::default(),
        Some(ACCOUNTS_DB_CONFIG_FOR_TESTING),
        None,
        Arc::default(),
    )
}

fn address(key: &Key) -> Pubkey {
    Pubkey::new_from_array(key.bytes)
}

fn stored_form(record: &Record) -> AccountSharedData {
    AccountSharedData::new(record.lamports, record.data_len, &address(&record.owner))
}

fn load(db: &AccountsDb, ancestors: &Ancestors, key: &Key) -> Outcome {
    match db.load(ancestors, &address(key), LoadHint::Unspecified) {
        Some((account, _)) => {
            assert!(account.data().iter().all(|byte| *byte == 0));
            Outcome::Found(Record {
                lamports: account.lamports(),
                data_len: account.data().len(),
                owner: Key { bytes: account.owner().to_bytes() },
            })
        }
        None => Outcome::NotFound,
    }
}

#[test]
fn the_engine_returns_what_was_written_under_a_rooted_slot() {
    let db = engine();
    let population = Population::generate(2, SizePolicy::Cyclic);
    let ancestors = Ancestors::from(vec![0u64]);
    let mut expectation = Expectation::new(2, SlotSet::from_range(1));
    for (index, data_len) in [(0usize, 136usize), (1, 99_999)] {
        let key = population.get(index).unwrap().key;
        let record = Record::synthetic(data_len);
        db.store_uncached(0, &[(&address(&key), &stored_form(&record))]);
        expectation.note_write(0, index, record);
    }
    db.add_root(0);
    let mut replay = Replay::new(read_actions(2), expectation).unwrap();
    for index in 0..2 {
        let key = population.get(index).unwrap().key;
        let outcome = load(&db, &ancestors, &key);
        assert_eq!(replay.observe(outcome), Ok(()));
    }
    assert!(replay.is_complete());
}

#[test]
fn the_engine_reads_back_a_cyclic_population_on_disk() {
    let db = engine();
    let population = Population::generate(100, SizePolicy::Cyclic);
    let ancestors = Ancestors::from(vec![0u64]);
    let mut expectation = Expectation::new(100, SlotSet::from_range(1));
    for index in 0..100 {
        let account = population.get(index).unwrap();
        db.store_uncached(0, &[(&address(&account.key), &stored_form(&account.record))]);
    }
    expectation.note_population(&population, 0);
    db.add_root(0);
    let mut replay = Replay::new(read_actions(100), expectation).unwrap();
    while let Some(Action::Read { key }) = replay.next() {
        let outcome = load(&db, &ancestors, &population.get(key).unwrap().key);
        match outcome {
            Outcome::Found(record) => assert_eq!(record.data_len, key % 1000),
            other => panic!("account {} gave {:?}", key, other),
        }
        assert_eq!(replay.observe(outcome), Ok(()));
    }
    assert!(replay.is_complete());
}

#[test]
fn the_engine_reads_back_a_population_in_memory() {
    let db = engine();
    let population = Population::generate(100, SizePolicy::Cyclic);
    let ancestors = Ancestors::from(vec![0u64]);
    let mut expectation = Expectation::new(100, SlotSet::from_range(1));
    db.add_root(0);
    let addresses: Vec<Pubkey> = population.accounts.iter().map(|a| address(&a.key)).collect();
    let accounts: Vec<AccountSharedData> =
        population.accounts.iter().map(|a| stored_form(&a.record)).collect();
    let refs: Vec<(&Pubkey, &AccountSharedData)> = addresses.iter().zip(accounts.iter()).collect();
    db.store_cached((0u64, &refs[..]), None);
    expectation.note_population(&population, 0);
    let mut replay = Replay::new(read_actions(100), expectation).unwrap();
    while let Some(Action::Read { key }) = replay.next() {
        let outcome = load(&db, &ancestors, &population.get(key).unwrap().key);
        assert_eq!(replay.observe(outcome), Ok(()));
    }
    assert!(replay.is_complete());
}

#[test]
fn the_engine_lets_the_highest_ancestor_slot_win() {
    let db = engine();
    let population = Population::generate(1, SizePolicy::Cyclic);
    let key = population.get(0).unwrap().key;
    let mut expectation = Expectation::new(1, SlotSet::from_slots(&vec![0, 1]));
    for (slot, data_len) in [(1u64, 11usize), (0, 10), (2, 12)] {
        let record = Record::synthetic(data_len);
        db.store_uncached(slot, &[(&address(&key), &stored_form(&record))]);
        expectation.note_write(slot, 0, record);
    }
    db.add_root(0);
    db.add_root(1);
    assert_eq!(expectation.expected(0), Some(Record::synthetic(11)));
    let ancestors = Ancestors::from(vec![0u64, 1]);
    assert_eq!(load(&db, &ancestors, &key), Outcome::Found(Record::synthetic(11)));
}

#[test]
fn the_engine_finds_nothing_for_a_key_never_written() {
    let db = engine();
    db.add_root(0);
    let population = Population::generate(1, SizePolicy::Cyclic);
    let ancestors = Ancestors::from(vec![0u64]);
    let outcome = load(&db, &ancestors, &population.get(0).unwrap().key);
    assert_eq!(outcome, Outcome::NotFound);
    let expectation = Expectation::new(1, SlotSet::from_range(1));
    assert_eq!(expectation.expected(0), None);
}
