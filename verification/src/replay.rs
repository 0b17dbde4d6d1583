//! Replay of a workload against the storage engine, one action at a time
//! and strictly in order.
//!
//! The engine is the caller's: it asks for the pending action, performs it,
//! and reports what came of it. The replay decides whether that is what a
//! correct engine does. A read that finds nothing, or something else than
//! what was written, ends the replay for good.

use crate::expectation::Expectation;
use crate::ledger::Ledger;
use crate::population::{Account, Record};
use crate::workload::{
    count_reads, count_writes, lemma_counts_add_up, lemma_counts_of_push, Action,
};
use vstd::prelude::*;

verus! {

/// What the engine answered to an action.
#[derive(Debug, Clone, Copy, PartialEq, Eq)]
pub enum Outcome {
    /// A write was stored.
    Stored,
    /// A read found this record.
    Found(Record),
    /// A read found nothing.
    NotFound,
    /// The engine failed on the action.
    Failed,
}

/// Why a replay cannot go on.
#[derive(Debug, Clone, Copy, PartialEq, Eq, Structural)]
pub enum BenchError {
    /// The read at position `at` found nothing for account `key`.
    NotFound { at: usize, key: usize },
    /// The read at position `at` found a record for account `key` that is
    /// not the one a load must return.
    WrongRecord { at: usize, key: usize },
    /// The outcome reported at position `at` is not one of its action: a
    /// read was answered as a write, or a write as a read.
    UnexpectedOutcome { at: usize },
    /// The engine failed on the action at position `at`. Nothing is tried
    /// again: the measurement is void.
    Backend { at: usize },
    /// The action at position `at` names an account that is not kept
    /// track of.
    KeyOutOfRange { at: usize },
    /// No action is pending: the replay is over or has failed.
    NothingPending,
}

/// How the outcome of the action at position `at` is judged, where a load
/// of its account must return `expected`.
pub open spec fn verdict(expected: Option<Record>, action: Action, outcome: Outcome, at: usize)
    -> Result<(), BenchError> {
    match (action, outcome) {
        (_, Outcome::Failed) => Err(BenchError::Backend { at }),
        (Action::Read { key }, Outcome::NotFound) => Err(BenchError::NotFound { at, key }),
        (Action::Read { key }, Outcome::Found(record)) => if expected == Some(record) {
            Ok(())
        } else {
            Err(BenchError::WrongRecord { at, key })
        },
        (Action::Read { .. }, Outcome::Stored) => Err(BenchError::UnexpectedOutcome { at }),
        (Action::Write { .. }, Outcome::Stored) => Ok(()),
        (Action::Write { .. }, _) => Err(BenchError::UnexpectedOutcome { at }),
    }
}

/// What a correct engine answers to `action` after the writes of `ledger`.
pub open spec fn correct_outcome(ledger: Ledger, ancestors: Set<u64>, action: Action) -> Outcome {
    match action {
        Action::Write { .. } => Outcome::Stored,
        Action::Read { key } => match ledger.load(ancestors, key) {
            Some(record) => Outcome::Found(record),
            None => Outcome::NotFound,
        },
    }
}

/// A correct engine is found in order on every write, and on every read of
/// an account that an ancestor slot holds.
pub proof fn lemma_correct_engine_passes(
    ledger: Ledger,
    ancestors: Set<u64>,
    action: Action,
    at: usize,
)
    requires
        action is Read ==> ledger.visible(ancestors, action.key()),
    ensures
        verdict(
            ledger.load(ancestors, action.key()),
            action,
            correct_outcome(ledger, ancestors, action),
            at,
        ) is Ok,
{
    ledger.lemma_load_finds_what_is_visible(ancestors, action.key());
}

/// Once the population has been stored under an ancestor slot, no action
/// on its accounts brings the replay on a correct engine to a halt: no
/// read finds nothing, however many reads and writes went before it.
pub proof fn lemma_replay_of_the_population_passes(
    start: Ledger,
    pool: Seq<Account>,
    slot: u64,
    ancestors: Set<u64>,
    actions: Seq<Action>,
    at: usize,
)
    requires
        ancestors.contains(slot),
        at < actions.len(),
        actions[at as int].key() < pool.len(),
    ensures
        ({
            let ledger = start.populate(pool, pool.len(), slot).replay(actions.take(at as int));
            let action = actions[at as int];
            &&& ledger.load(ancestors, action.key()) is Some
            &&& verdict(
                ledger.load(ancestors, action.key()),
                action,
                correct_outcome(ledger, ancestors, action),
                at,
            ) is Ok
        }),
{
    let ledger = start.populate(pool, pool.len(), slot).replay(actions.take(at as int));
    let action = actions[at as int];
    start.lemma_reads_never_miss(pool, slot, ancestors, actions.take(at as int), action.key());
    ledger.lemma_load_finds_what_is_visible(ancestors, action.key());
    lemma_correct_engine_passes(ledger, ancestors, action, at);
}

/// One run through a sequence of actions.
pub struct Replay {
    actions: Vec<Action>,
    cursor: usize,
    reads: usize,
    writes: usize,
    halted: bool,
    expectation: Expectation,
    start: Ghost<Ledger>,
}

impl Replay {
    /// The actions to go through.
    pub closed spec fn actions(&self) -> Seq<Action> {
        self.actions@
    }

    /// Number of actions that have been performed and found in order.
    pub closed spec fn position(&self) -> nat {
        self.cursor as nat
    }

    /// Whether an outcome has ended the replay.
    pub closed spec fn halted(&self) -> bool {
        self.halted
    }

    /// The writes that had been made before the replay began.
    pub closed spec fn start(&self) -> Ledger {
        self.start@
    }

    /// The slots that the reads see.
    pub closed spec fn ancestors(&self) -> Set<u64> {
        self.expectation.ancestors()
    }

    /// Number of accounts that are kept track of.
    pub closed spec fn accounts(&self) -> nat {
        self.expectation.accounts()
    }

    /// The writes made so far: those before the replay and those of the
    /// actions performed.
    pub open spec fn ledger(&self) -> Ledger {
        self.start().replay(self.actions().take(self.position() as int))
    }

    /// The action that is to be performed next.
    pub open spec fn pending(&self) -> Option<Action> {
        if !self.halted() && self.position() < self.actions().len() {
            Some(self.actions()[self.position() as int])
        } else {
            None
        }
    }

    /// Whether the replay is in a state that its own functions lead to.
    pub closed spec fn wf(&self) -> bool {
        &&& self.expectation.wf()
        &&& self.cursor <= self.actions@.len()
        &&& forall|i: int|
            0 <= i < self.actions@.len() ==> (#[trigger] self.actions@[i]).key()
                < self.expectation.accounts()
        &&& self.expectation.ledger() == self.start@.replay(self.actions@.take(self.cursor as int))
        &&& self.reads == count_reads(self.actions@.take(self.cursor as int))
        &&& self.writes == count_writes(self.actions@.take(self.cursor as int))
    }

    /// A replay of `actions` on top of what `expectation` has taken note
    /// of. It is refused where an action names an account that
    /// `expectation` does not keep track of; `at` is then the first such
    /// action.
    pub fn new(actions: Vec<Action>, expectation: Expectation) -> (r: Result<Replay, BenchError>)
        requires
            expectation.wf(),
        ensures
            match r {
                Ok(replay) => {
                    &&& replay.wf()
                    &&& replay.actions() == actions@
                    &&& replay.position() == 0
                    &&& !replay.halted()
                    &&& replay.start() == expectation.ledger()
                    &&& replay.ancestors() == expectation.ancestors()
                    &&& replay.accounts() == expectation.accounts()
                    &&& forall|i: int|
                        0 <= i < actions@.len() ==> (#[trigger] actions@[i]).key()
                            < expectation.accounts()
                },
                Err(e) => exists|at: usize|
                    {
                        &&& e == (BenchError::KeyOutOfRange { at })
                        &&& at < actions@.len()
                        &&& actions@[at as int].key() >= expectation.accounts()
                        &&& forall|i: int|
                            0 <= i < at ==> (#[trigger] actions@[i]).key() < expectation.accounts()
                    },
            },
    {
        let mut i: usize = 0;
        while i < actions.len()
            invariant
                i <= actions@.len(),
                expectation.wf(),
                forall|j: int| 0 <= j < i ==> (#[trigger] actions@[j]).key() < expectation.accounts(),
            decreases actions@.len() - i,
        {
            let key = match actions[i] {
                Action::Read { key } => key,
                Action::Write { key, .. } => key,
            };
            if !expectation.tracks(key) {
                return Err(BenchError::KeyOutOfRange { at: i });
            }
            i += 1;
        }
        let ghost start = expectation.ledger();
        assert(actions@.take(0) =~= Seq::<Action>::empty());
        Ok(
            Replay {
                actions,
                cursor: 0,
                reads: 0,
                writes: 0,
                halted: false,
                expectation,
                start: Ghost(start),
            },
        )
    }

    /// The action to perform next, if the replay is neither over nor
    /// failed.
    pub fn next(&self) -> (action: Option<Action>)
        requires
            self.wf(),
        ensures
            action == self.pending(),
    {
        if !self.halted && self.cursor < self.actions.len() {
            Some(self.actions[self.cursor])
        } else {
            None
        }
    }

    /// The record that a read of account `key` must find now.
    pub fn expected(&self, key: usize) -> (r: Option<Record>)
        requires
            self.wf(),
        ensures
            key < self.accounts() ==> r == self.ledger().load(self.ancestors(), key),
            key >= self.accounts() ==> r is None,
    {
        self.expectation.expected(key)
    }

    /// Takes note of what the engine answered to the pending action.
    ///
    /// An outcome in order moves the replay on by one action, and a write
    /// enters the ledger. Any other outcome halts the replay where it
    /// stands, and so does every call after that.
    pub fn observe(&mut self, outcome: Outcome) -> (r: Result<(), BenchError>)
        requires
            old(self).wf(),
        ensures
            final(self).wf(),
            final(self).actions() == old(self).actions(),
            final(self).start() == old(self).start(),
            final(self).ancestors() == old(self).ancestors(),
            final(self).accounts() == old(self).accounts(),
            match old(self).pending() {
                None => {
                    &&& r == Err::<(), _>(BenchError::NothingPending)
                    &&& final(self).position() == old(self).position()
                    &&& final(self).halted() == old(self).halted()
                },
                Some(action) => {
                    &&& r == verdict(
                        old(self).ledger().load(old(self).ancestors(), action.key()),
                        action,
                        outcome,
                        old(self).position() as usize,
                    )
                    &&& r is Ok ==> final(self).position() == old(self).position() + 1
                        && !final(self).halted()
                    &&& r is Err ==> final(self).position() == old(self).position()
                        && final(self).halted()
                },
            },
    {
        if self.halted || self.cursor >= self.actions.len() {
            return Err(BenchError::NothingPending);
        }
        let at = self.cursor;
        let action = self.actions[at];
        proof {
            assert(self.actions@.take(at + 1).drop_last() =~= self.actions@.take(at as int));
            lemma_counts_of_push(self.actions@.take(at as int), action);
            lemma_counts_add_up(self.actions@.take(at as int));
            assert(self.actions@.take(at + 1) =~= self.actions@.take(at as int).push(action));
        }
        match outcome {
            Outcome::Failed => {
                self.halted = true;
                return Err(BenchError::Backend { at });
            },
            _ => {},
        }
        match action {
            Action::Read { key } => {
                let expected = self.expectation.expected(key);
                match outcome {
                    Outcome::Failed => {
                        self.halted = true;
                        Err(BenchError::Backend { at })
                    },
                    Outcome::NotFound => {
                        self.halted = true;
                        Err(BenchError::NotFound { at, key })
                    },
                    Outcome::Stored => {
                        self.halted = true;
                        Err(BenchError::UnexpectedOutcome { at })
                    },
                    Outcome::Found(record) => {
                        let same = match expected {
                            Some(wanted) => wanted.same(&record),
                            None => false,
                        };
                        if same {
                            self.cursor = at + 1;
                            self.reads = self.reads + 1;
                            Ok(())
                        } else {
                            self.halted = true;
                            Err(BenchError::WrongRecord { at, key })
                        }
                    },
                }
            },
            Action::Write { slot, key, record } => {
                match outcome {
                    Outcome::Stored => {
                        self.expectation.note_write(slot, key, record);
                        self.cursor = at + 1;
                        self.writes = self.writes + 1;
                        Ok(())
                    },
                    _ => {
                        self.halted = true;
                        Err(BenchError::UnexpectedOutcome { at })
                    },
                }
            },
        }
    }

    /// Whether every action has been performed and found in order.
    pub fn is_complete(&self) -> (done: bool)
        requires
            self.wf(),
        ensures
            done == (self.position() == self.actions().len()),
    {
        self.cursor == self.actions.len()
    }

    /// Ends the replay and hands back what has been taken note of, for the
    /// next trial on the same engine, with the numbers of reads and writes
    /// performed.
    pub fn finish(self) -> (r: (Expectation, usize, usize))
        requires
            self.wf(),
        ensures
            r.0.wf(),
            r.0.ledger() == self.ledger(),
            r.0.ancestors() == self.ancestors(),
            r.0.accounts() == self.accounts(),
            r.1 == count_reads(self.actions().take(self.position() as int)),
            r.2 == count_writes(self.actions().take(self.position() as int)),
    {
        (self.expectation, self.reads, self.writes)
    }
}

} // verus!
