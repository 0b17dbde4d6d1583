use accounts_bench::population::Record;
use accounts_bench::shuffle::{permuted, shuffled, ShuffleError};
use accounts_bench::workload::{Action, Workload};

fn read(key: usize) -> Action {
    Action::Read { key }
}

fn write(slot: u64, key: usize) -> Action {
    Action::Write { slot, key, record: Record::synthetic(key) }
}

fn tally(actions: &[Action]) -> Vec<(Action, usize)> {
    let mut out: Vec<(Action, usize)> = Vec::new();
    for action in actions {
        match out.iter_mut().find(|(seen, _)| seen == action) {
            Some((_, n)) => *n += 1,
            None => out.push((*action, 1)),
        }
    }
    out
}

fn same_multiset(a: &[Action], b: &[Action]) -> bool {
    let (ta, tb) = (tally(a), tally(b));
    a.len() == b.len()
        && ta.len() == tb.len()
        && ta.iter().all(|entry| tb.contains(entry))
}

fn mixed(n: usize) -> Vec<Action> {
    (0..n)
        .map(|i| if i % 3 == 0 { write((i % 4) as u64, i % 5) } else { read(i % 7) })
        .collect()
}

#[test]
fn picks_exchange_from_the_last_position_down() {
    let actions = vec![read(0), read(1), read(2), read(3)];
    let out = permuted(&actions, &vec![0, 0, 0]).unwrap();
    assert_eq!(out, vec![read(1), read(2), read(3), read(0)]);
    let out = permuted(&actions, &vec![3, 2, 1]).unwrap();
    assert_eq!(out, actions);
    let out = permuted(&actions, &vec![1, 1, 0]).unwrap();
    assert_eq!(out, vec![read(2), read(0), read(3), read(1)]);
    assert_eq!(actions, vec![read(0), read(1), read(2), read(3)]);
}

#[test]
fn short_sequences_take_no_pick() {
    assert_eq!(permuted(&Vec::new(), &Vec::new()), Ok(Vec::new()));
    assert_eq!(permuted(&vec![write(1, 2)], &Vec::new()), Ok(vec![write(1, 2)]));
}

#[test]
fn wrong_number_of_picks_is_refused() {
    let actions = vec![read(0), read(1), read(2)];
    assert_eq!(permuted(&actions, &vec![0]), Err(ShuffleError::WrongPickCount));
    assert_eq!(permuted(&actions, &vec![0, 0, 0]), Err(ShuffleError::WrongPickCount));
    assert_eq!(permuted(&Vec::new(), &vec![0]), Err(ShuffleError::WrongPickCount));
    assert_eq!(permuted(&vec![read(0)], &vec![0]), Err(ShuffleError::WrongPickCount));
}

#[test]
fn pick_behind_its_position_is_refused() {
    let actions = vec![read(0), read(1), read(2)];
    assert_eq!(
        permuted(&actions, &vec![3, 0]),
        Err(ShuffleError::PickOutOfRange { step: 0 })
    );
    assert_eq!(
        permuted(&actions, &vec![2, 2]),
        Err(ShuffleError::PickOutOfRange { step: 1 })
    );
    assert_eq!(permuted(&actions, &vec![2, 1]), Ok(actions.clone()));
}

#[test]
fn permuting_keeps_every_action() {
    let actions = mixed(9);
    let out = permuted(&actions, &vec![4, 0, 6, 2, 2, 3, 1, 0]).unwrap();
    assert!(same_multiset(&actions, &out));
}

#[test]
fn shuffling_keeps_every_action() {
    let actions = mixed(200);
    let out = shuffled(&actions);
    assert_eq!(actions, mixed(200));
    assert!(same_multiset(&actions, &out));
    let again = shuffled(&out);
    assert!(same_multiset(&actions, &again));
}

#[test]
fn shuffling_changes_the_order() {
    let actions: Vec<Action> = (0..100).map(read).collect();
    let changed = (0..5).any(|_| shuffled(&actions) != actions);
    assert!(changed);
}

#[test]
fn shuffling_reaches_every_position() {
    let actions: Vec<Action> = (0..4).map(read).collect();
    let mut first = [false; 4];
    let mut last = [false; 4];
    for _ in 0..400 {
        let out = shuffled(&actions);
        if let (Action::Read { key: a }, Action::Read { key: b }) = (out[0], out[3]) {
            first[a] = true;
            last[b] = true;
        }
    }
    assert!(first.iter().all(|seen| *seen));
    assert!(last.iter().all(|seen| *seen));
}

#[test]
fn shuffling_little_changes_nothing() {
    assert_eq!(shuffled(&Vec::new()), Vec::new());
    assert_eq!(shuffled(&vec![write(3, 1)]), vec![write(3, 1)]);
}

#[test]
fn reshuffled_workload_keeps_its_counts() {
    let actions = mixed(60);
    let reads = actions.iter().filter(|a| matches!(a, Action::Read { .. })).count();
    let workload = Workload { actions: actions.clone(), reads, writes: 60 - reads };
    let trial = workload.reshuffled();
    assert_eq!(workload.actions, actions);
    assert_eq!((trial.reads, trial.writes), (reads, 60 - reads));
    assert!(same_multiset(&actions, &trial.actions));
    let next = trial.reshuffled();
    assert_eq!((next.reads, next.writes), (reads, 60 - reads));
    assert!(same_multiset(&actions, &next.actions));
}
