//! What a sweep entry asks of the storage engine, laid out before anything
//! is timed: which slots are filled, which are indexed ahead of the timed
//! region and which inside it, and which slots the reads may see.

use crate::config::{Benchmark, ConfigError, MemoryLocation, SyndicaBenchmark};
use crate::population::{cyclic_len, cyclic_region_size, synthetic_record, Record, CYCLE};
use crate::workload::Action;
use crate::layout::region_size;
use vstd::prelude::*;

verus! {

/// The order to build the index of one slot from its storage.
#[derive(Debug, Clone, Copy, PartialEq, Eq, Structural)]
pub struct IndexJob {
    pub slot: u64,
    /// Identifier of the slot's storage. Storages are numbered in the order
    /// in which they are indexed, starting at zero.
    pub store_id: u32,
}

/// The jobs for `count` consecutive slots from `first` on. Every slot of a
/// run is indexed in slot order, so a storage's identifier is its slot.
pub open spec fn index_jobs(first: nat, count: nat) -> Seq<IndexJob> {
    Seq::new(count, |i: int| IndexJob { slot: (first + i) as u64, store_id: (first + i) as u32 })
}

/// The slots `0 .. count`, in order.
pub open spec fn slot_list(count: nat) -> Seq<u64> {
    Seq::new(count, |i: int| i as u64)
}

/// A run with accounts on disk.
///
/// Slots `0 .. filled_slots` each get a region of `region_size` bytes, into
/// which accounts `0 .. n_accounts` are appended, account `i` with
/// [`expected_record`]`(i)`. Then every slot of `ancestors` is rooted. The
/// `warm` jobs run before the timed write region and the `timed` jobs
/// inside it; after each of the two the index is flushed. The timed read
/// region loads accounts `0 .. n_accounts` in order under `ancestors`.
#[derive(Debug, PartialEq, Eq)]
pub struct DiskPlan {
    pub index: MemoryLocation,
    pub n_accounts: usize,
    pub region_size: u64,
    pub filled_slots: u64,
    pub warm: Vec<IndexJob>,
    pub timed: Vec<IndexJob>,
    pub ancestors: Vec<u64>,
}

/// A run with accounts in memory: every slot of `ancestors` is rooted,
/// accounts `0 .. n_accounts` are stored under `slot` in one timed call,
/// account `i` with [`expected_record`]`(i)`, and are then loaded in order
/// under `ancestors`.
#[derive(Debug, PartialEq, Eq)]
pub struct RamPlan {
    pub index: MemoryLocation,
    pub n_accounts: usize,
    pub slot: u64,
    pub ancestors: Vec<u64>,
}

/// Whether the quantities of a disk run fit the engine's integers: every
/// storage identifier in 32 bits and the region size in 64.
pub open spec fn disk_run_fits(b: SyndicaBenchmark) -> bool {
    b.slot_list_len + b.n_accounts_multiple <= u32::MAX && region_size(
        b.n_accounts as nat,
        cyclic_len(),
    ) <= u64::MAX
}

impl DiskPlan {
    /// Whether this is the plan of the sweep entry `b`.
    pub open spec fn is_plan_of(&self, b: SyndicaBenchmark) -> bool {
        &&& self.index == b.index
        &&& self.n_accounts == b.n_accounts
        &&& self.region_size == region_size(b.n_accounts as nat, cyclic_len())
        &&& self.filled_slots == b.slot_list_len + b.n_accounts_multiple
        &&& self.warm@ == index_jobs(0, b.n_accounts_multiple as nat)
        &&& self.timed@ == index_jobs(b.n_accounts_multiple as nat, b.slot_list_len as nat)
        &&& self.ancestors@ == slot_list((b.slot_list_len + b.n_accounts_multiple) as nat)
    }
}

impl RamPlan {
    /// Whether this is the plan of the sweep entry `b`.
    pub open spec fn is_plan_of(&self, b: SyndicaBenchmark) -> bool {
        &&& self.index == b.index
        &&& self.n_accounts == b.n_accounts
        &&& self.slot == 0
        &&& self.ancestors@ == slot_list(1)
    }
}

/// The record that every run stores for account `index`, and that a load of
/// it must return.
pub fn expected_record(index: usize) -> (r: Record)
    ensures
        r == synthetic_record((index % CYCLE) as usize),
        r == planned_record()(index as int),
{
    Record::synthetic(index % CYCLE)
}

/// The reads of the accounts `0 .. n_accounts`, in order.
pub open spec fn reads_in_order(n_accounts: nat) -> Seq<Action> {
    Seq::new(n_accounts, |i: int| Action::Read { key: i as usize })
}

/// The writes of the accounts `0 .. n_accounts` under `slot`, in order, each
/// with the record that `record_at` gives for it.
pub open spec fn writes_in_order(slot: u64, n_accounts: nat, record_at: spec_fn(int) -> Record) -> Seq<
    Action,
> {
    Seq::new(n_accounts, |i: int| Action::Write { slot, key: i as usize, record: record_at(i) })
}

/// The record of account `i` in every planned run.
pub open spec fn planned_record() -> spec_fn(int) -> Record {
    |i: int| synthetic_record((i % (CYCLE as int)) as usize)
}

/// The actions of a read region over `n_accounts` accounts.
pub fn read_actions(n_accounts: usize) -> (actions: Vec<Action>)
    ensures
        actions@ == reads_in_order(n_accounts as nat),
{
    let mut actions: Vec<Action> = Vec::new();
    let mut i: usize = 0;
    while i < n_accounts
        invariant
            i <= n_accounts,
            actions@ == reads_in_order(i as nat),
        decreases n_accounts - i,
    {
        actions.push(Action::Read { key: i });
        i += 1;
        assert(actions@ =~= reads_in_order(i as nat));
    }
    actions
}

/// The actions of a store of `n_accounts` accounts under `slot`.
pub fn store_actions(slot: u64, n_accounts: usize) -> (actions: Vec<Action>)
    ensures
        actions@ == writes_in_order(slot, n_accounts as nat, planned_record()),
{
    let mut actions: Vec<Action> = Vec::new();
    let mut i: usize = 0;
    while i < n_accounts
        invariant
            i <= n_accounts,
            actions@ == writes_in_order(slot, i as nat, planned_record()),
        decreases n_accounts - i,
    {
        actions.push(Action::Write { slot, key: i, record: expected_record(i) });
        i += 1;
        assert(actions@ =~= writes_in_order(slot, i as nat, planned_record()));
    }
    actions
}

/// The index jobs for the slots `first .. first + count`.
fn make_jobs(first: u32, count: u32) -> (jobs: Vec<IndexJob>)
    requires
        first + count <= u32::MAX,
    ensures
        jobs@ == index_jobs(first as nat, count as nat),
{
    let mut jobs: Vec<IndexJob> = Vec::new();
    let mut i: u32 = 0;
    while i < count
        invariant
            i <= count,
            first + count <= u32::MAX,
            jobs@ == index_jobs(first as nat, i as nat),
        decreases count - i,
    {
        let id: u32 = first + i;
        jobs.push(IndexJob { slot: id as u64, store_id: id });
        i += 1;
        assert(jobs@ =~= index_jobs(first as nat, i as nat));
    }
    jobs
}

/// The slots `0 .. count`.
pub fn make_slot_list(count: u64) -> (slots: Vec<u64>)
    ensures
        slots@ == slot_list(count as nat),
{
    let mut slots: Vec<u64> = Vec::new();
    let mut s: u64 = 0;
    while s < count
        invariant
            s <= count,
            slots@ == slot_list(s as nat),
        decreases count - s,
    {
        slots.push(s);
        s += 1;
        assert(slots@ =~= slot_list(s as nat));
    }
    slots
}

impl SyndicaBenchmark {
    /// Lays out the run with accounts on disk. It fails only where the
    /// quantities do not fit; where the entry asks the accounts to live is
    /// not looked at.
    pub fn disk_plan(&self) -> (r: Result<DiskPlan, ConfigError>)
        ensures
            match r {
                Ok(plan) => disk_run_fits(*self) && plan.is_plan_of(*self),
                Err(e) => !disk_run_fits(*self) && e == ConfigError::TooLarge,
            },
    {
        let total: usize = match self.slot_list_len.checked_add(self.n_accounts_multiple) {
            Some(total) => total,
            None => {
                return Err(ConfigError::TooLarge);
            },
        };
        if total > u32::MAX as usize {
            return Err(ConfigError::TooLarge);
        }
        let region: u64 = match cyclic_region_size(self.n_accounts) {
            Some(region) => region,
            None => {
                return Err(ConfigError::TooLarge);
            },
        };
        let warm = make_jobs(0, self.n_accounts_multiple as u32);
        let timed = make_jobs(self.n_accounts_multiple as u32, self.slot_list_len as u32);
        let ancestors = make_slot_list(total as u64);
        Ok(
            DiskPlan {
                index: self.index,
                n_accounts: self.n_accounts,
                region_size: region,
                filled_slots: total as u64,
                warm,
                timed,
                ancestors,
            },
        )
    }

    /// Lays out the run with accounts in memory.
    pub fn ram_plan(&self) -> (plan: RamPlan)
        ensures
            plan.is_plan_of(*self),
    {
        RamPlan {
            index: self.index,
            n_accounts: self.n_accounts,
            slot: 0,
            ancestors: make_slot_list(1),
        }
    }
}

impl Benchmark {
    /// Lays out the profiled run, which keeps its accounts on disk and
    /// refuses an entry that asks for anything else.
    pub fn disk_plan(&self) -> (r: Result<DiskPlan, ConfigError>)
        ensures
            match r {
                Ok(plan) => self@.accounts == MemoryLocation::Disk && disk_run_fits(self@)
                    && plan.is_plan_of(self@),
                Err(e) => e == (if self@.accounts != MemoryLocation::Disk {
                    ConfigError::WrongPlacement
                } else {
                    ConfigError::TooLarge
                }) && !(self@.accounts == MemoryLocation::Disk && disk_run_fits(self@)),
            },
    {
        let entry = self.entry();
        if entry.accounts != MemoryLocation::Disk {
            return Err(ConfigError::WrongPlacement);
        }
        entry.disk_plan()
    }
}

} // verus!
