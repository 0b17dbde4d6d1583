//! The order in which the storage engine may be asked for things, whichever
//! way its accounts are placed.
//!
//! With accounts in memory a store also indexes what it stores. With
//! accounts on disk a store only appends, and the index of a slot is built
//! by a step of its own, once, before any read may see the slot; what the
//! builds of a batch of slots have gathered is then flushed, bin by bin,
//! before the next read. Either way a read sees rooted slots only.

use crate::config::{MemoryLocation, SyndicaBenchmark};
use crate::plan::{disk_run_fits, DiskPlan, IndexJob};
use crate::slots::{Ancestors, SlotSet};
use vstd::prelude::*;

verus! {

/// What a store under the session's placement amounts to.
#[derive(Debug, Clone, Copy, PartialEq, Eq, Structural)]
pub enum StoreKind {
    /// Stored and indexed in one call.
    Atomic,
    /// Appended to the slot's region; the index is still to be built.
    Append,
}

/// Why the engine may not be asked for something now.
#[derive(Debug, Clone, Copy, PartialEq, Eq, Structural)]
pub enum ProtocolError {
    /// The index of the slot has been built; on disk that ends the
    /// appending to it and is done only once.
    AlreadyIndexed { slot: u64 },
    /// Nothing has been stored under the slot yet.
    NothingStored { slot: u64 },
    /// With accounts in memory there is no index to build: every store has
    /// built it.
    IndexIsAtomic,
    /// All storage identifiers have been given out.
    OutOfStoreIds,
    /// No slot has been rooted yet.
    NothingRooted,
    /// An index has been built since the index was last flushed.
    IndexNotFlushed,
    /// The slot is among the ancestors of a load but has not been rooted.
    NotRooted { slot: u64 },
    /// The slot is among the ancestors of a load and holds records, but
    /// its index has not been built.
    IndexNotBuilt { slot: u64 },
}

/// What a session knows of the engine.
pub struct SessionState {
    pub accounts: MemoryLocation,
    /// Slots under which something has been stored.
    pub stored: Set<u64>,
    /// Slots whose records are indexed.
    pub indexed: Set<u64>,
    /// Slots that are rooted.
    pub rooted: Set<u64>,
    /// Number of storages indexed so far, which is the identifier of the
    /// next one.
    pub next_store_id: u32,
    /// Whether an index has been built since the last flush.
    pub unflushed: bool,
}

impl SessionState {
    /// The state of an engine that has just been set up and numbers its
    /// storages from `next_store_id` on.
    pub open spec fn numbering_from(accounts: MemoryLocation, next_store_id: u32) -> SessionState {
        SessionState {
            accounts,
            stored: Set::empty(),
            indexed: Set::empty(),
            rooted: Set::empty(),
            next_store_id,
            unflushed: false,
        }
    }

    /// The state of an engine that has just been set up.
    pub open spec fn initial(accounts: MemoryLocation) -> SessionState {
        SessionState::numbering_from(accounts, 0)
    }

    /// Whether records may be stored under `slot`, and the state after it.
    pub open spec fn store(self, slot: u64) -> Result<(SessionState, StoreKind), ProtocolError> {
        match self.accounts {
            MemoryLocation::Ram => Ok(
                (
                    SessionState {
                        stored: self.stored.insert(slot),
                        indexed: self.indexed.insert(slot),
                        ..self
                    },
                    StoreKind::Atomic,
                ),
            ),
            MemoryLocation::Disk => if self.indexed.contains(slot) {
                Err(ProtocolError::AlreadyIndexed { slot })
            } else {
                Ok((SessionState { stored: self.stored.insert(slot), ..self }, StoreKind::Append))
            },
        }
    }

    /// Whether the index of `slot` may be built, and the state after it
    /// with the job to hand to the engine.
    pub open spec fn build_index(self, slot: u64) -> Result<(SessionState, IndexJob), ProtocolError> {
        if self.accounts == MemoryLocation::Ram {
            Err(ProtocolError::IndexIsAtomic)
        } else if self.indexed.contains(slot) {
            Err(ProtocolError::AlreadyIndexed { slot })
        } else if !self.stored.contains(slot) {
            Err(ProtocolError::NothingStored { slot })
        } else if self.next_store_id == u32::MAX {
            Err(ProtocolError::OutOfStoreIds)
        } else {
            Ok(
                (
                    SessionState {
                        indexed: self.indexed.insert(slot),
                        next_store_id: (self.next_store_id + 1) as u32,
                        unflushed: true,
                        ..self
                    },
                    IndexJob { slot, store_id: self.next_store_id },
                ),
            )
        }
    }

    /// The state after the index has been flushed.
    pub open spec fn flush(self) -> SessionState {
        SessionState { unflushed: false, ..self }
    }

    /// The state after `slot` has been rooted.
    pub open spec fn root(self, slot: u64) -> SessionState {
        SessionState { rooted: self.rooted.insert(slot), ..self }
    }

    /// What stands against a read that sees `slot`, if anything.
    pub open spec fn objection(self, slot: u64) -> Option<ProtocolError> {
        if !self.rooted.contains(slot) {
            Some(ProtocolError::NotRooted { slot })
        } else if self.stored.contains(slot) && !self.indexed.contains(slot) {
            Some(ProtocolError::IndexNotBuilt { slot })
        } else {
            None
        }
    }

    /// Whether a load under `ancestors` is in order: something is rooted,
    /// the index is flushed, and nothing stands against any of the
    /// ancestors.
    pub open spec fn may_load(self, ancestors: Set<u64>) -> bool {
        &&& exists|slot: u64| self.rooted.contains(slot)
        &&& !self.unflushed
        &&& forall|slot: u64| ancestors.contains(slot) ==> (#[trigger] self.objection(slot)) is None
    }
}

/// The slots below `count`.
pub open spec fn slots_below(count: nat) -> Set<u64> {
    Set::new(|slot: u64| slot < count)
}

impl SessionState {
    /// The state of a run with accounts on disk in which the slots below
    /// `filled` have been appended to and rooted, and those below `indexed`
    /// have had their index built, in slot order.
    pub open spec fn disk_run(filled: nat, indexed: nat, unflushed: bool) -> SessionState {
        SessionState {
            accounts: MemoryLocation::Disk,
            stored: slots_below(filled),
            indexed: slots_below(indexed),
            rooted: slots_below(filled),
            next_store_id: indexed as u32,
            unflushed,
        }
    }

    /// In a run on disk, appending to the next slot is in order as long as
    /// no index has been built.
    pub proof fn lemma_disk_fill_is_in_order(self, filled: nat)
        requires
            self.accounts == MemoryLocation::Disk,
            self.stored == slots_below(filled),
            self.indexed == Set::<u64>::empty(),
            filled <= u64::MAX,
        ensures
            self.store(filled as u64) == Ok::<_, ProtocolError>(
                (
                    SessionState { stored: slots_below(filled + 1), ..self },
                    StoreKind::Append,
                ),
            ),
    {
        assert(self.stored.insert(filled as u64) =~= slots_below(filled + 1));
    }

    /// In a run on disk that builds its indexes in slot order, the next
    /// build is in order, and its job names the slot with the slot's own
    /// number as the storage identifier.
    pub proof fn lemma_disk_index_is_in_order(filled: nat, indexed: nat, unflushed: bool)
        requires
            indexed < filled <= u32::MAX,
        ensures
            SessionState::disk_run(filled, indexed, unflushed).build_index(indexed as u64) == Ok::<
                _,
                ProtocolError,
            >(
                (
                    SessionState::disk_run(filled, indexed + 1, true),
                    IndexJob { slot: indexed as u64, store_id: indexed as u32 },
                ),
            ),
    {
        let before = SessionState::disk_run(filled, indexed, unflushed);
        assert(before.indexed.insert(indexed as u64) =~= slots_below(indexed + 1));
    }

    /// In such a run the reads that see every filled slot are in order
    /// once every index has been built and flushed, and not before.
    pub proof fn lemma_disk_reads_wait_for_the_index(filled: nat, indexed: nat, unflushed: bool)
        requires
            indexed <= filled <= u32::MAX,
            filled > 0,
        ensures
            SessionState::disk_run(filled, indexed, unflushed).may_load(slots_below(filled)) <==> (
            indexed == filled && !unflushed),
    {
        let state = SessionState::disk_run(filled, indexed, unflushed);
        assert(state.rooted.contains(0u64));
        if indexed < filled {
            assert(slots_below(filled).contains(indexed as u64));
            assert(state.objection(indexed as u64) == Some(
                ProtocolError::IndexNotBuilt { slot: indexed as u64 },
            ));
        }
    }
}

/// A planned run on disk is in order: built in the plan's order, the warm
/// jobs first, every index build is admitted and yields the very job that
/// the plan holds; and the reads under the plan's ancestors are in order
/// once the last of them is done and flushed.
pub proof fn lemma_planned_disk_run_is_in_order(
    entry: SyndicaBenchmark,
    plan: DiskPlan,
    k: nat,
    unflushed: bool,
)
    requires
        disk_run_fits(entry),
        plan.is_plan_of(entry),
        k < plan.filled_slots,
    ensures
        ({
            let jobs = plan.warm@ + plan.timed@;
            let filled = plan.filled_slots as nat;
            &&& jobs.len() == filled
            &&& SessionState::disk_run(filled, k, unflushed).build_index(jobs[k as int].slot)
                == Ok::<_, ProtocolError>(
                (SessionState::disk_run(filled, k + 1, true), jobs[k as int]),
            )
            &&& plan.ancestors@.to_set() == slots_below(filled)
            &&& SessionState::disk_run(filled, filled, true).flush().may_load(
                plan.ancestors@.to_set(),
            )
        }),
{
    let jobs = plan.warm@ + plan.timed@;
    let filled = plan.filled_slots as nat;
    let warm = entry.n_accounts_multiple as nat;
    assert(jobs[k as int] == IndexJob { slot: k as u64, store_id: k as u32 }) by {
        if k < warm {
            assert(jobs[k as int] == plan.warm@[k as int]);
        } else {
            assert(jobs[k as int] == plan.timed@[k - warm]);
        }
    }
    SessionState::lemma_disk_index_is_in_order(filled, k, unflushed);
    SessionState::lemma_disk_reads_wait_for_the_index(filled, filled, false);
    assert(SessionState::disk_run(filled, filled, true).flush() == SessionState::disk_run(
        filled,
        filled,
        false,
    ));
    assert(plan.ancestors@.to_set() =~= slots_below(filled)) by {
        assert forall|slot: u64| plan.ancestors@.to_set().contains(slot) <==> slots_below(
            filled,
        ).contains(slot) by {
            if slot < filled {
                assert(plan.ancestors@[slot as int] == slot);
            }
        }
    }
}

/// The engine as the benchmark has driven it so far.
pub struct Session {
    accounts: MemoryLocation,
    stored: SlotSet,
    indexed: SlotSet,
    rooted: SlotSet,
    next_store_id: u32,
    unflushed: bool,
}

impl View for Session {
    type V = SessionState;

    closed spec fn view(&self) -> SessionState {
        SessionState {
            accounts: self.accounts,
            stored: self.stored@,
            indexed: self.indexed@,
            rooted: self.rooted@,
            next_store_id: self.next_store_id,
            unflushed: self.unflushed,
        }
    }
}

impl Session {
    /// The session of an engine that has just been set up with its
    /// accounts placed at `accounts`.
    pub fn new(accounts: MemoryLocation) -> (s: Session)
        ensures
            s@ == SessionState::initial(accounts),
    {
        Session::numbering_from(accounts, 0)
    }

    /// The session of an engine that has just been set up with its
    /// accounts placed at `accounts`, and that goes on numbering its
    /// storages where an earlier one left off.
    pub fn numbering_from(accounts: MemoryLocation, next_store_id: u32) -> (s: Session)
        ensures
            s@ == SessionState::numbering_from(accounts, next_store_id),
    {
        Session {
            accounts,
            stored: SlotSet::new(),
            indexed: SlotSet::new(),
            rooted: SlotSet::new(),
            next_store_id,
            unflushed: false,
        }
    }

    /// Asks to store records under `slot`, and says what the store amounts
    /// to. Where it is refused, nothing changes.
    pub fn store(&mut self, slot: u64) -> (r: Result<StoreKind, ProtocolError>)
        ensures
            match old(self)@.store(slot) {
                Ok((state, kind)) => r == Ok::<_, ProtocolError>(kind) && final(self)@ == state,
                Err(e) => r == Err::<StoreKind, _>(e) && final(self)@ == old(self)@,
            },
    {
        match self.accounts {
            MemoryLocation::Ram => {
                self.stored.insert(slot);
                self.indexed.insert(slot);
                Ok(StoreKind::Atomic)
            },
            MemoryLocation::Disk => {
                if self.indexed.contains(slot) {
                    Err(ProtocolError::AlreadyIndexed { slot })
                } else {
                    self.stored.insert(slot);
                    Ok(StoreKind::Append)
                }
            },
        }
    }

    /// Asks to build the index of `slot`, and gives the job for the
    /// engine. Where it is refused, nothing changes.
    pub fn build_index(&mut self, slot: u64) -> (r: Result<IndexJob, ProtocolError>)
        ensures
            match old(self)@.build_index(slot) {
                Ok((state, job)) => r == Ok::<_, ProtocolError>(job) && final(self)@ == state,
                Err(e) => r == Err::<IndexJob, _>(e) && final(self)@ == old(self)@,
            },
    {
        match self.accounts {
            MemoryLocation::Ram => {
                return Err(ProtocolError::IndexIsAtomic);
            },
            MemoryLocation::Disk => {},
        }
        if self.indexed.contains(slot) {
            Err(ProtocolError::AlreadyIndexed { slot })
        } else if !self.stored.contains(slot) {
            Err(ProtocolError::NothingStored { slot })
        } else if self.next_store_id == u32::MAX {
            Err(ProtocolError::OutOfStoreIds)
        } else {
            let job = IndexJob { slot, store_id: self.next_store_id };
            self.indexed.insert(slot);
            self.next_store_id = self.next_store_id + 1;
            self.unflushed = true;
            Ok(job)
        }
    }

    /// Takes note that the index has been flushed.
    pub fn flush_index(&mut self)
        ensures
            final(self)@ == old(self)@.flush(),
    {
        self.unflushed = false;
    }

    /// Takes note that `slot` is rooted.
    pub fn root(&mut self, slot: u64)
        ensures
            final(self)@ == old(self)@.root(slot),
    {
        self.rooted.insert(slot);
    }

    /// Asks whether a load under `ancestors` is in order. Where it is not,
    /// the error says that nothing is rooted at all, or else that the
    /// index is not flushed, or else names the lowest ancestor that
    /// something stands against.
    pub fn check_load(&self, ancestors: &Ancestors) -> (r: Result<(), ProtocolError>)
        ensures
            r is Ok <==> self@.may_load(ancestors@),
            r matches Err(e) ==> {
                ||| e == ProtocolError::NothingRooted && forall|slot: u64|
                    !self@.rooted.contains(slot)
                ||| e == ProtocolError::IndexNotFlushed && self@.unflushed && exists|slot: u64|
                    self@.rooted.contains(slot)
                ||| !self@.unflushed && exists|slot: u64|
                    {
                        &&& ancestors@.contains(slot)
                        &&& #[trigger] self@.objection(slot) == Some(e)
                        &&& forall|lower: u64|
                            ancestors@.contains(lower) && lower < slot ==> (
                            #[trigger] self@.objection(lower)) is None
                    }
            },
    {
        if self.rooted.len() == 0 {
            proof {
                self.rooted.lemma_empty_in_order();
            }
            return Err(ProtocolError::NothingRooted);
        }
        proof {
            self.rooted.lemma_first_is_member();
        }
        if self.unflushed {
            return Err(ProtocolError::IndexNotFlushed);
        }
        let slots = ancestors.slots();
        let mut i: usize = 0;
        while i < slots.len()
            invariant
                i <= slots@.len(),
                slots@ == ancestors.in_order(),
                crate::slots::strictly_increasing(slots@),
                forall|s: u64| ancestors@.contains(s) <==> slots@.contains(s),
                forall|k: int| 0 <= k < i ==> (#[trigger] self@.objection(slots@[k])) is None,
                exists|slot: u64| self@.rooted.contains(slot),
                !self@.unflushed,
            decreases slots@.len() - i,
        {
            let slot = slots[i];
            let found: Option<ProtocolError> = if !self.rooted.contains(slot) {
                Some(ProtocolError::NotRooted { slot })
            } else if self.stored.contains(slot) && !self.indexed.contains(slot) {
                Some(ProtocolError::IndexNotBuilt { slot })
            } else {
                None
            };
            match found {
                Some(e) => {
                    proof {
                        assert(slots@.contains(slot));
                        assert(ancestors@.contains(slot));
                        assert(self@.objection(slot) == Some(e));
                        assert forall|lower: u64|
                            ancestors@.contains(lower) && lower < slot implies (
                        #[trigger] self@.objection(lower)) is None by {
                            let k = choose|k: int| 0 <= k < slots@.len() && slots@[k] == lower;
                            assert(k < i);
                        }
                    }
                    return Err(e);
                },
                None => {},
            }
            i += 1;
        }
        proof {
            assert forall|slot: u64| ancestors@.contains(slot) implies (#[trigger] self@.objection(
                slot,
            )) is None by {
                let k = choose|k: int| 0 <= k < slots@.len() && slots@[k] == slot;
                assert(self@.objection(slots@[k]) is None);
            }
        }
        Ok(())
    }
}

} // verus!
