//! The benchmark's own account of what it has written, kept while it runs,
//! so that every load can be held against what a correct engine returns.

use crate::slots::Ancestors;
use crate::ledger::Ledger;
use crate::population::{Population, Record};
use vstd::prelude::*;

verus! {

/// For a fixed set of ancestor slots and a fixed number of accounts: what a
/// load of each account returns after the writes noted so far.
pub struct Expectation {
    ancestors: Ancestors,
    /// Per account, the highest ancestor slot written under and the record
    /// written there last.
    newest: Vec<Option<(u64, Record)>>,
    ledger: Ghost<Ledger>,
}

impl Expectation {
    /// Every write noted so far.
    pub closed spec fn ledger(&self) -> Ledger {
        self.ledger@
    }

    /// The slots that loads see.
    pub closed spec fn ancestors(&self) -> Set<u64> {
        self.ancestors@
    }

    /// Number of accounts that are kept track of.
    pub closed spec fn accounts(&self) -> nat {
        self.newest@.len()
    }

    /// Whether what is kept per account is what the ledger gives.
    pub closed spec fn wf(&self) -> bool {
        forall|k: int|
            0 <= k < self.newest@.len() ==> match #[trigger] self.newest@[k] {
                Some((slot, record)) => self.ledger@.is_newest(self.ancestors@, k as usize, slot)
                    && self.ledger@.writes[(slot, k as usize)] == record,
                None => !self.ledger@.visible(self.ancestors@, k as usize),
            }
    }

    /// The expectation before any write: no load of any of the `accounts`
    /// accounts finds anything.
    pub fn new(accounts: usize, ancestors: Ancestors) -> (e: Expectation)
        ensures
            e.wf(),
            e.ledger() == Ledger::empty(),
            e.ancestors() == ancestors@,
            e.accounts() == accounts,
    {
        let mut newest: Vec<Option<(u64, Record)>> = Vec::new();
        let mut k: usize = 0;
        while k < accounts
            invariant
                k <= accounts,
                newest@.len() == k,
                forall|j: int| 0 <= j < k ==> (#[trigger] newest@[j]) is None,
            decreases accounts - k,
        {
            newest.push(None);
            k += 1;
        }
        Expectation { ancestors, newest, ledger: Ghost(Ledger::empty()) }
    }

    /// Takes note that `record` has been written for account `key` under
    /// `slot`. An account that is not kept track of is passed over, and
    /// `false` says so.
    pub fn note_write(&mut self, slot: u64, key: usize, record: Record) -> (noted: bool)
        requires
            old(self).wf(),
        ensures
            final(self).wf(),
            final(self).ancestors() == old(self).ancestors(),
            final(self).accounts() == old(self).accounts(),
            noted == (key < old(self).accounts()),
            final(self).ledger() == (if noted {
                old(self).ledger().store(slot, key, record)
            } else {
                old(self).ledger()
            }),
    {
        if key >= self.newest.len() {
            return false;
        }
        let ghost before = self.ledger@;
        let ghost seen = self.ancestors@;
        let ghost kept = self.newest@;
        let ghost after = before.store(slot, key, record);
        let visible = self.ancestors.contains(slot);
        let current = self.newest[key];
        let replace = visible && match current {
            None => true,
            Some((held, _)) => held <= slot,
        };
        self.ledger = Ghost(after);
        if replace {
            self.newest.set(key, Some((slot, record)));
        }
        proof {
            assert forall|k: int| 0 <= k < self.newest@.len() implies match #[trigger] self.newest@[k] {
                Some((s, r)) => after.is_newest(seen, k as usize, s) && after.writes[(
                    s,
                    k as usize,
                )] == r,
                None => !after.visible(seen, k as usize),
            } by {
                assert forall|t: u64| #[trigger]
                    after.holds(t, k as usize) <==> before.holds(t, k as usize) || (t == slot && k
                        == key) by {}
                match kept[k] {
                    Some((s, r)) => {
                        assert(before.is_newest(seen, k as usize, s));
                        assert(before.holds(s, k as usize));
                    },
                    None => {
                        assert(!before.visible(seen, k as usize));
                        assert forall|t: u64| seen.contains(t) implies !#[trigger] before.holds(
                            t,
                            k as usize,
                        ) by {}
                    },
                }
            }
        }
        true
    }

    /// Whether account `key` is kept track of.
    pub fn tracks(&self, key: usize) -> (r: bool)
        ensures
            r == (key < self.accounts()),
    {
        key < self.newest.len()
    }

    /// What a load of account `key` must return now.
    pub fn expected(&self, key: usize) -> (r: Option<Record>)
        requires
            self.wf(),
        ensures
            key < self.accounts() ==> r == self.ledger().load(self.ancestors(), key),
            key >= self.accounts() ==> r is None,
    {
        if key >= self.newest.len() {
            return None;
        }
        match self.newest[key] {
            Some((slot, record)) => {
                proof {
                    self.ledger@.lemma_load_of_newest(self.ancestors@, key, slot);
                }
                Some(record)
            },
            None => {
                proof {
                    self.ledger@.lemma_load_finds_what_is_visible(self.ancestors@, key);
                }
                None
            },
        }
    }

    /// Takes note that every account of `population` has been written under
    /// `slot` with the record it has there. Accounts beyond those kept
    /// track of are passed over; `true` says that there were none.
    pub fn note_population(&mut self, population: &Population, slot: u64) -> (all: bool)
        requires
            old(self).wf(),
        ensures
            final(self).wf(),
            final(self).ancestors() == old(self).ancestors(),
            final(self).accounts() == old(self).accounts(),
            all == (population@.len() <= old(self).accounts()),
            final(self).ledger() == old(self).ledger().populate(
                population@,
                if all {
                    population@.len()
                } else {
                    old(self).accounts()
                },
                slot,
            ),
    {
        let n = population.len();
        let mut k: usize = 0;
        while k < n
            invariant
                k <= n,
                n == population@.len(),
                k <= self.accounts(),
                self.wf(),
                self.ancestors() == old(self).ancestors(),
                self.accounts() == old(self).accounts(),
                self.ledger() == old(self).ledger().populate(population@, k as nat, slot),
            decreases n - k,
        {
            if !self.note_write(slot, k, population.accounts[k].record) {
                return false;
            }
            k += 1;
        }
        true
    }
}

} // verus!
