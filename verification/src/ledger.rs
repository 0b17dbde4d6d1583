//! What the benchmark expects of the storage engine, as a mathematical
//! model: a ledger of the writes made, and what a load under a set of
//! ancestor slots returns from it.
//!
//! The engine itself is not modelled beyond this: the ledger says which
//! record a correct engine hands back, and the replay code checks the real
//! answers against it.

use crate::population::{Account, Record};
use crate::workload::Action;
use vstd::prelude::*;

verus! {

/// The writes made so far: for each slot and account, the record written
/// last.
pub struct Ledger {
    pub writes: Map<(u64, usize), Record>,
}

impl Ledger {
    /// The ledger before any write.
    pub open spec fn empty() -> Ledger {
        Ledger { writes: Map::empty() }
    }

    /// Whether account `key` has been written under `slot`.
    pub open spec fn holds(self, slot: u64, key: usize) -> bool {
        self.writes.dom().contains((slot, key))
    }

    /// The ledger after `record` has been written for `key` under `slot`.
    /// A later write under the same slot replaces an earlier one.
    pub open spec fn store(self, slot: u64, key: usize, record: Record) -> Ledger {
        Ledger { writes: self.writes.insert((slot, key), record) }
    }

    /// The ledger after `action`: a write is stored, a read changes
    /// nothing.
    pub open spec fn apply(self, action: Action) -> Ledger {
        match action {
            Action::Read { .. } => self,
            Action::Write { slot, key, record } => self.store(slot, key, record),
        }
    }

    /// The ledger after `actions`, taken in order.
    pub open spec fn replay(self, actions: Seq<Action>) -> Ledger
        decreases actions.len(),
    {
        if actions.len() == 0 {
            self
        } else {
            self.replay(actions.drop_last()).apply(actions.last())
        }
    }

    /// The ledger after the first `count` accounts of `pool` have each been
    /// written under `slot`.
    pub open spec fn populate(self, pool: Seq<Account>, count: nat, slot: u64) -> Ledger
        decreases count,
    {
        if count == 0 {
            self
        } else {
            self.populate(pool, (count - 1) as nat, slot).store(
                slot,
                (count - 1) as usize,
                pool[count - 1].record,
            )
        }
    }

    /// Whether `slot` is the highest of `ancestors` under which `key` has
    /// been written.
    pub open spec fn is_newest(self, ancestors: Set<u64>, key: usize, slot: u64) -> bool {
        &&& ancestors.contains(slot)
        &&& self.holds(slot, key)
        &&& forall|other: u64|
            ancestors.contains(other) && #[trigger] self.holds(other, key) ==> other <= slot
    }

    /// Whether a read of `key` under `ancestors` finds anything.
    pub open spec fn visible(self, ancestors: Set<u64>, key: usize) -> bool {
        exists|slot: u64| ancestors.contains(slot) && #[trigger] self.holds(slot, key)
    }

    /// What a load of `key` under `ancestors` returns: the record written
    /// under the highest ancestor slot that holds one, or nothing where
    /// none does.
    pub open spec fn load(self, ancestors: Set<u64>, key: usize) -> Option<Record> {
        if exists|slot: u64| self.is_newest(ancestors, key, slot) {
            let slot = choose|slot: u64| self.is_newest(ancestors, key, slot);
            Some(self.writes[(slot, key)])
        } else {
            None
        }
    }

    /// At most one slot is the newest.
    pub proof fn lemma_newest_is_unique(self, ancestors: Set<u64>, key: usize, a: u64, b: u64)
        requires
            self.is_newest(ancestors, key, a),
            self.is_newest(ancestors, key, b),
        ensures
            a == b,
    {
    }

    /// Where a slot is the newest, a load returns what was written under
    /// it.
    pub proof fn lemma_load_of_newest(self, ancestors: Set<u64>, key: usize, slot: u64)
        requires
            self.is_newest(ancestors, key, slot),
        ensures
            self.load(ancestors, key) == Some(self.writes[(slot, key)]),
    {
        let chosen = choose|s: u64| self.is_newest(ancestors, key, s);
        self.lemma_newest_is_unique(ancestors, key, chosen, slot);
    }

    /// Among the ancestor slots that hold `key`, one is the highest.
    pub proof fn lemma_newest_exists(self, ancestors: Set<u64>, key: usize, witness: u64)
        requires
            ancestors.contains(witness),
            self.holds(witness, key),
        ensures
            exists|slot: u64| self.is_newest(ancestors, key, slot),
        decreases u64::MAX - witness,
    {
        if !self.is_newest(ancestors, key, witness) {
            let higher = choose|other: u64|
                ancestors.contains(other) && #[trigger] self.holds(other, key) && other > witness;
            self.lemma_newest_exists(ancestors, key, higher);
        }
    }

    /// A load finds something exactly where an ancestor slot holds the
    /// account.
    pub proof fn lemma_load_finds_what_is_visible(self, ancestors: Set<u64>, key: usize)
        ensures
            self.load(ancestors, key) is Some <==> self.visible(ancestors, key),
    {
        if self.visible(ancestors, key) {
            let witness = choose|slot: u64| ancestors.contains(slot) && #[trigger] self.holds(slot, key);
            self.lemma_newest_exists(ancestors, key, witness);
        }
    }

    /// Round trip: once `record` is written for `key` under an ancestor
    /// slot, a load of `key` returns exactly `record`, unless a higher
    /// ancestor slot holds the account too, which then wins.
    pub proof fn lemma_load_after_store(
        self,
        ancestors: Set<u64>,
        slot: u64,
        key: usize,
        record: Record,
    )
        requires
            ancestors.contains(slot),
            forall|other: u64|
                ancestors.contains(other) && #[trigger] self.holds(other, key) ==> other <= slot,
        ensures
            self.store(slot, key, record).load(ancestors, key) == Some(record),
            self.store(slot, key, record).load(ancestors, key).unwrap().data() == record.data(),
    {
        let after = self.store(slot, key, record);
        assert(after.holds(slot, key));
        assert forall|other: u64|
            ancestors.contains(other) && #[trigger] after.holds(other, key) implies other
            <= slot by {
            if other != slot {
                assert(self.holds(other, key));
            }
        }
        after.lemma_load_of_newest(ancestors, key, slot);
    }

    /// A write leaves the loads of every other account as they were, and
    /// so does a write under a slot outside the ancestors for its own
    /// account.
    pub proof fn lemma_store_elsewhere(
        self,
        ancestors: Set<u64>,
        slot: u64,
        key: usize,
        record: Record,
        other_key: usize,
    )
        requires
            other_key != key || !ancestors.contains(slot),
        ensures
            self.store(slot, key, record).load(ancestors, other_key) == self.load(
                ancestors,
                other_key,
            ),
    {
        let after = self.store(slot, key, record);
        assert forall|s: u64|
            after.is_newest(ancestors, other_key, s) <==> self.is_newest(
                ancestors,
                other_key,
                s,
            ) by {
            assert forall|t: u64| ancestors.contains(t) implies (after.holds(t, other_key)
                <==> self.holds(t, other_key)) by {}
            if self.is_newest(ancestors, other_key, s) {
                assert forall|t: u64|
                    ancestors.contains(t) && #[trigger] after.holds(t, other_key) implies t
                    <= s by {
                    assert(self.holds(t, other_key));
                }
            }
            if after.is_newest(ancestors, other_key, s) {
                assert forall|t: u64|
                    ancestors.contains(t) && #[trigger] self.holds(t, other_key) implies t
                    <= s by {
                    assert(after.holds(t, other_key));
                }
            }
        }
        if exists|s: u64| self.is_newest(ancestors, other_key, s) {
            let s = choose|s: u64| self.is_newest(ancestors, other_key, s);
            assert(after.is_newest(ancestors, other_key, s));
            after.lemma_load_of_newest(ancestors, other_key, s);
            self.lemma_load_of_newest(ancestors, other_key, s);
        } else {
            assert forall|s: u64| !after.is_newest(ancestors, other_key, s) by {
                assert(!self.is_newest(ancestors, other_key, s));
            }
        }
    }

    /// What has been written stays written.
    pub proof fn lemma_replay_keeps_writes(self, actions: Seq<Action>, slot: u64, key: usize)
        requires
            self.holds(slot, key),
        ensures
            self.replay(actions).holds(slot, key),
        decreases actions.len(),
    {
        if actions.len() > 0 {
            self.lemma_replay_keeps_writes(actions.drop_last(), slot, key);
        }
    }

    /// After the population has been stored under a slot, the slot holds
    /// every account of it.
    pub proof fn lemma_populate_holds(self, pool: Seq<Account>, count: nat, slot: u64, key: usize)
        requires
            key < count,
        ensures
            self.populate(pool, count, slot).holds(slot, key),
        decreases count,
    {
        if key < count - 1 {
            self.lemma_populate_holds(pool, (count - 1) as nat, slot, key);
        }
    }

    /// However many actions have been replayed on a ledger that holds the
    /// initial population under an ancestor slot, a read of an account of
    /// the population finds a record.
    pub proof fn lemma_reads_never_miss(
        self,
        pool: Seq<Account>,
        slot: u64,
        ancestors: Set<u64>,
        actions: Seq<Action>,
        key: usize,
    )
        requires
            key < pool.len(),
            ancestors.contains(slot),
        ensures
            self.populate(pool, pool.len(), slot).replay(actions).load(ancestors, key) is Some,
    {
        let populated = self.populate(pool, pool.len(), slot);
        self.lemma_populate_holds(pool, pool.len(), slot, key);
        populated.lemma_replay_keeps_writes(actions, slot, key);
        populated.replay(actions).lemma_load_finds_what_is_visible(ancestors, key);
    }
}

} // verus!
