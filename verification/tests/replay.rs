use accounts_bench::config::WorkloadConfig;
use accounts_bench::expectation::Expectation;
use accounts_bench::plan::{expected_record, read_actions, store_actions};
use accounts_bench::population::{Key, Population, Record, SizePolicy};
use accounts_bench::replay::{BenchError, Outcome, Replay};
use accounts_bench::slots::SlotSet;
use accounts_bench::workload::{Action, Workload};

fn record(data_len: usize) -> Record {
    Record::synthetic(data_len)
}

fn write(slot: u64, key: usize, data_len: usize) -> Action {
    Action::Write { slot, key, record: record(data_len) }
}

/// Answers every pending action as a correct engine would, going by the
/// replay's own account.
fn run_to_the_end(replay: &mut Replay) -> Result<usize, BenchError> {
    let mut done = 0;
    while let Some(action) = replay.next() {
        let outcome = match action {
            Action::Write { .. } => Outcome::Stored,
            Action::Read { key } => match replay.expected(key) {
                Some(found) => Outcome::Found(found),
                None => Outcome::NotFound,
            },
        };
        replay.observe(outcome)?;
        done += 1;
    }
    Ok(done)
}

#[test]
fn nothing_is_expected_before_the_first_write() {
    let e = Expectation::new(3, SlotSet::from_range(2));
    for key in 0..3 {
        assert!(e.tracks(key));
        assert_eq!(e.expected(key), None);
    }
    assert!(!e.tracks(3));
    assert_eq!(e.expected(3), None);
}

#[test]
fn a_write_then_a_load_returns_the_record() {
    for data_len in [0usize, 136, 99_999] {
        let mut e = Expectation::new(1, SlotSet::from_range(1));
        assert!(e.note_write(0, 0, record(data_len)));
        assert_eq!(e.expected(0), Some(record(data_len)));
        assert_eq!(e.expected(0).unwrap().data_len, data_len);
    }
}

#[test]
fn the_highest_ancestor_slot_wins() {
    let mut e = Expectation::new(2, SlotSet::from_slots(&vec![1, 3, 5]));
    e.note_write(3, 0, record(30));
    assert_eq!(e.expected(0), Some(record(30)));
    e.note_write(1, 0, record(10));
    assert_eq!(e.expected(0), Some(record(30)));
    e.note_write(5, 0, record(50));
    assert_eq!(e.expected(0), Some(record(50)));
    e.note_write(3, 0, record(31));
    assert_eq!(e.expected(0), Some(record(50)));
    assert_eq!(e.expected(1), None);
}

#[test]
fn a_later_write_under_the_same_slot_replaces_the_earlier() {
    let mut e = Expectation::new(1, SlotSet::from_range(4));
    e.note_write(2, 0, record(1));
    e.note_write(2, 0, record(2));
    assert_eq!(e.expected(0), Some(record(2)));
}

#[test]
fn a_write_outside_the_ancestors_is_not_seen() {
    let mut e = Expectation::new(1, SlotSet::from_range(2));
    assert!(e.note_write(2, 0, record(7)));
    assert_eq!(e.expected(0), None);
    e.note_write(0, 0, record(8));
    e.note_write(9, 0, record(9));
    assert_eq!(e.expected(0), Some(record(8)));
}

#[test]
fn a_write_to_an_unknown_account_is_passed_over() {
    let mut e = Expectation::new(2, SlotSet::from_range(1));
    assert!(!e.note_write(0, 2, record(7)));
    assert_eq!(e.expected(0), None);
    assert_eq!(e.expected(1), None);
    assert_eq!(e.expected(2), None);
}

#[test]
fn the_population_is_seen_under_its_slot() {
    let population = Population::generate(100, SizePolicy::Cyclic);
    let mut e = Expectation::new(100, SlotSet::from_range(1));
    assert!(e.note_population(&population, 0));
    for i in 0..100 {
        let found = e.expected(i).unwrap();
        assert_eq!(found.data_len, i % 1000);
        assert_eq!(found, expected_record(i));
    }
}

#[test]
fn a_population_larger_than_what_is_tracked_is_cut() {
    let population = Population::generate(5, SizePolicy::Cyclic);
    let mut e = Expectation::new(3, SlotSet::from_range(1));
    assert!(!e.note_population(&population, 0));
    assert_eq!(e.expected(2), Some(record(2)));
    assert_eq!(e.expected(3), None);
}

#[test]
fn reads_after_the_population_never_miss() {
    let population = Population::generate(40, SizePolicy::Uniform);
    let cfg = WorkloadConfig {
        num_slots: 6,
        init_accounts_per_slot: 40,
        accounts_to_write: 300,
        read_write_ratio: 600_000,
        benchmark_runs: 1,
    };
    let workload = Workload::generate(&cfg, &population, 1_000_000).unwrap();
    let mut e = Expectation::new(40, SlotSet::from_range(3));
    for slot in 0..3 {
        e.note_population(&population, slot);
    }
    let total = workload.actions.len();
    let mut replay = Replay::new(workload.actions, e).unwrap();
    let mut seen = 0;
    while let Some(action) = replay.next() {
        let outcome = match action {
            Action::Write { .. } => Outcome::Stored,
            Action::Read { key } => {
                let found = replay.expected(key);
                assert!(found.is_some());
                Outcome::Found(found.unwrap())
            }
        };
        assert_eq!(replay.observe(outcome), Ok(()));
        seen += 1;
    }
    assert_eq!(seen, total);
    assert!(replay.is_complete());
    let (_, reads, writes) = replay.finish();
    assert_eq!((reads, writes), (workload.reads, workload.writes));
}

#[test]
fn replay_hands_out_the_actions_in_order() {
    let actions = vec![write(0, 1, 5), Action::Read { key: 1 }, write(0, 0, 6), Action::Read { key: 0 }];
    let e = Expectation::new(2, SlotSet::from_range(1));
    let mut replay = Replay::new(actions.clone(), e).unwrap();
    assert!(!replay.is_complete());
    assert_eq!(replay.next(), Some(actions[0]));
    assert_eq!(replay.next(), Some(actions[0]));
    assert_eq!(replay.observe(Outcome::Stored), Ok(()));
    assert_eq!(replay.next(), Some(actions[1]));
    assert_eq!(replay.expected(1), Some(record(5)));
    assert_eq!(replay.observe(Outcome::Found(record(5))), Ok(()));
    assert_eq!(replay.next(), Some(actions[2]));
    assert_eq!(replay.expected(0), None);
    assert_eq!(replay.observe(Outcome::Stored), Ok(()));
    assert_eq!(replay.expected(0), Some(record(6)));
    assert_eq!(replay.observe(Outcome::Found(record(6))), Ok(()));
    assert_eq!(replay.next(), None);
    assert!(replay.is_complete());
    assert_eq!(replay.observe(Outcome::Stored), Err(BenchError::NothingPending));
    let (e, reads, writes) = replay.finish();
    assert_eq!((reads, writes), (2, 2));
    assert_eq!(e.expected(0), Some(record(6)));
    assert_eq!(e.expected(1), Some(record(5)));
}

#[test]
fn a_read_that_finds_nothing_ends_the_replay() {
    let e = Expectation::new(3, SlotSet::from_range(1));
    let mut replay = Replay::new(vec![write(0, 0, 1), Action::Read { key: 2 }, write(0, 1, 1)], e).unwrap();
    assert_eq!(replay.observe(Outcome::Stored), Ok(()));
    assert_eq!(replay.observe(Outcome::NotFound), Err(BenchError::NotFound { at: 1, key: 2 }));
    assert_eq!(replay.next(), None);
    assert!(!replay.is_complete());
    assert_eq!(replay.observe(Outcome::Stored), Err(BenchError::NothingPending));
    let (_, reads, writes) = replay.finish();
    assert_eq!((reads, writes), (0, 1));
}

#[test]
fn a_read_that_finds_another_record_ends_the_replay() {
    let mut e = Expectation::new(1, SlotSet::from_range(1));
    e.note_write(0, 0, record(136));
    let mut replay = Replay::new(vec![Action::Read { key: 0 }], e).unwrap();
    assert_eq!(
        replay.observe(Outcome::Found(record(137))),
        Err(BenchError::WrongRecord { at: 0, key: 0 })
    );
    assert_eq!(replay.next(), None);
}

#[test]
fn a_read_is_held_against_every_field() {
    for wrong in [
        Record { lamports: 11, ..record(4) },
        Record { data_len: 5, ..record(4) },
        Record { owner: Key { bytes: [1u8; 32] }, ..record(4) },
    ] {
        let mut e = Expectation::new(1, SlotSet::from_range(1));
        e.note_write(0, 0, record(4));
        let mut replay = Replay::new(vec![Action::Read { key: 0 }], e).unwrap();
        assert_eq!(
            replay.observe(Outcome::Found(wrong)),
            Err(BenchError::WrongRecord { at: 0, key: 0 })
        );
    }
}

#[test]
fn a_read_of_what_is_not_visible_must_not_find_anything_else() {
    let mut e = Expectation::new(1, SlotSet::from_range(1));
    e.note_write(4, 0, record(9));
    let mut replay = Replay::new(vec![Action::Read { key: 0 }], e).unwrap();
    assert_eq!(
        replay.observe(Outcome::Found(record(9))),
        Err(BenchError::WrongRecord { at: 0, key: 0 })
    );
}

#[test]
fn an_outcome_of_the_other_kind_ends_the_replay() {
    let e = Expectation::new(1, SlotSet::from_range(1));
    let mut replay = Replay::new(vec![Action::Read { key: 0 }], e).unwrap();
    assert_eq!(replay.observe(Outcome::Stored), Err(BenchError::UnexpectedOutcome { at: 0 }));
    for outcome in [Outcome::NotFound, Outcome::Found(record(1))] {
        let e = Expectation::new(1, SlotSet::from_range(1));
        let mut replay = Replay::new(vec![write(0, 0, 1)], e).unwrap();
        assert_eq!(replay.observe(outcome), Err(BenchError::UnexpectedOutcome { at: 0 }));
        assert_eq!(replay.next(), None);
        let (e, reads, writes) = replay.finish();
        assert_eq!((reads, writes), (0, 0));
        assert_eq!(e.expected(0), None);
    }
}

#[test]
fn an_engine_failure_ends_the_replay() {
    for action in [Action::Read { key: 0 }, write(0, 0, 1)] {
        let e = Expectation::new(1, SlotSet::from_range(1));
        let mut replay = Replay::new(vec![write(0, 0, 2), action], e).unwrap();
        assert_eq!(replay.observe(Outcome::Stored), Ok(()));
        assert_eq!(replay.observe(Outcome::Failed), Err(BenchError::Backend { at: 1 }));
        assert_eq!(replay.observe(Outcome::Stored), Err(BenchError::NothingPending));
    }
}

#[test]
fn an_action_on_an_unknown_account_is_refused_at_the_start() {
    let actions = vec![Action::Read { key: 1 }, write(0, 2, 1), Action::Read { key: 5 }];
    let r = Replay::new(actions, Expectation::new(2, SlotSet::from_range(1)));
    assert!(matches!(r, Err(BenchError::KeyOutOfRange { at: 1 })));
    let r = Replay::new(vec![Action::Read { key: 0 }], Expectation::new(0, SlotSet::new()));
    assert!(matches!(r, Err(BenchError::KeyOutOfRange { at: 0 })));
}

#[test]
fn an_empty_replay_is_complete_at_once() {
    let mut replay = Replay::new(Vec::new(), Expectation::new(0, SlotSet::new())).unwrap();
    assert!(replay.is_complete());
    assert_eq!(replay.next(), None);
    assert_eq!(replay.observe(Outcome::Stored), Err(BenchError::NothingPending));
}

#[test]
fn writes_carry_over_to_the_next_trial() {
    let e = Expectation::new(2, SlotSet::from_range(2));
    let mut first = Replay::new(vec![write(1, 0, 10), write(0, 1, 20)], e).unwrap();
    assert_eq!(run_to_the_end(&mut first), Ok(2));
    let (e, _, _) = first.finish();
    let mut second = Replay::new(
        vec![Action::Read { key: 1 }, write(0, 0, 30), Action::Read { key: 0 }],
        e,
    )
    .unwrap();
    assert_eq!(second.expected(1), Some(record(20)));
    assert_eq!(second.observe(Outcome::Found(record(20))), Ok(()));
    assert_eq!(second.observe(Outcome::Stored), Ok(()));
    assert_eq!(second.expected(0), Some(record(10)));
    assert_eq!(second.observe(Outcome::Found(record(10))), Ok(()));
}

#[test]
fn a_planned_run_in_memory_reads_back_what_it_stored() {
    let n = 100;
    let e = Expectation::new(n, SlotSet::from_range(1));
    let mut store = Replay::new(store_actions(0, n), e).unwrap();
    assert_eq!(run_to_the_end(&mut store), Ok(n));
    let (e, reads, writes) = store.finish();
    assert_eq!((reads, writes), (0, n));
    let mut load = Replay::new(read_actions(n), e).unwrap();
    for i in 0..n {
        assert_eq!(load.next(), Some(Action::Read { key: i }));
        let found = load.expected(i).unwrap();
        assert_eq!(found.data_len, i % 1000);
        assert_eq!(load.observe(Outcome::Found(found)), Ok(()));
    }
    assert!(load.is_complete());
}
