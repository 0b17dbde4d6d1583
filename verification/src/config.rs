//! Benchmark configurations and their validation.

use vstd::prelude::*;

verus! {

/// A read/write ratio is given in parts of this scale: `0` routes every
/// sample to a write, `RATIO_SCALE` every sample to a read.
pub const RATIO_SCALE: u64 = 1_000_000;

/// Where a part of the storage engine keeps its data.
#[derive(Debug, Clone, Copy, PartialEq, Eq, Structural)]
pub enum MemoryLocation {
    Ram,
    Disk,
}

/// How much of the index the storage engine may keep in memory.
#[derive(Debug, Clone, Copy, PartialEq, Eq, Structural)]
pub enum IndexLimit {
    /// The whole index stays in memory; nothing of it goes to disk.
    InMemOnly,
    /// No limit is given, and the engine spills the index to disk.
    Unspecified,
}

impl MemoryLocation {
    /// The index limit that places the index here.
    pub fn index_limit(self) -> (limit: IndexLimit)
        ensures
            limit == (match self {
                MemoryLocation::Ram => IndexLimit::InMemOnly,
                MemoryLocation::Disk => IndexLimit::Unspecified,
            }),
    {
        match self {
            MemoryLocation::Ram => IndexLimit::InMemOnly,
            MemoryLocation::Disk => IndexLimit::Unspecified,
        }
    }
}

/// Which timed region a profiler run is attached to.
#[derive(Debug, Clone, Copy, PartialEq, Eq, Structural)]
pub enum PerfBenchType {
    Read,
    Write,
}

/// Why a configuration cannot be run.
#[derive(Debug, Clone, Copy, PartialEq, Eq, Structural)]
pub enum ConfigError {
    /// The read/write ratio lies outside `0 ..= RATIO_SCALE`.
    RatioOutOfRange,
    /// Writes are asked for, but there is no account to write to.
    EmptyPool,
    /// Writes are asked for, but there is no slot to write under.
    NoSlots,
    /// A derived quantity does not fit the machine's integers.
    TooLarge,
    /// Accounts were asked to live where the chosen run cannot put them.
    WrongPlacement,
}

/// One entry of a sweep over the storage engine: how many accounts each slot
/// holds, how many slots are indexed inside the timed region
/// (`slot_list_len`) and how many before it (`n_accounts_multiple`), and
/// where accounts and index live.
#[derive(Debug, Clone, Copy, PartialEq, Eq, Structural)]
pub struct SyndicaBenchmark {
    pub n_accounts: usize,
    pub slot_list_len: usize,
    pub accounts: MemoryLocation,
    pub index: MemoryLocation,
    pub n_accounts_multiple: usize,
}

/// One entry of a profiled sweep. It has the fields of
/// [`SyndicaBenchmark`], fixed at construction.
#[derive(Debug, Clone, Copy, PartialEq, Eq, Structural)]
pub struct Benchmark {
    n_accounts: usize,
    slot_list_len: usize,
    accounts: MemoryLocation,
    index: MemoryLocation,
    n_accounts_multiple: usize,
}

impl View for Benchmark {
    type V = SyndicaBenchmark;

    closed spec fn view(&self) -> SyndicaBenchmark {
        SyndicaBenchmark {
            n_accounts: self.n_accounts,
            slot_list_len: self.slot_list_len,
            accounts: self.accounts,
            index: self.index,
            n_accounts_multiple: self.n_accounts_multiple,
        }
    }
}

impl Benchmark {
    /// The entry with the given fields.
    pub fn new(
        n_accounts: usize,
        slot_list_len: usize,
        accounts: MemoryLocation,
        index: MemoryLocation,
        n_accounts_multiple: usize,
    ) -> (b: Benchmark)
        ensures
            b@ == (SyndicaBenchmark {
                n_accounts,
                slot_list_len,
                accounts,
                index,
                n_accounts_multiple,
            }),
    {
        Benchmark { n_accounts, slot_list_len, accounts, index, n_accounts_multiple }
    }

    /// Number of accounts stored under each slot.
    pub fn n_accounts(&self) -> (n: usize)
        ensures
            n == self@.n_accounts,
    {
        self.n_accounts
    }

    /// Number of slots indexed inside the timed region.
    pub fn slot_list_len(&self) -> (n: usize)
        ensures
            n == self@.slot_list_len,
    {
        self.slot_list_len
    }

    /// Where the accounts live.
    pub fn accounts(&self) -> (location: MemoryLocation)
        ensures
            location == self@.accounts,
    {
        self.accounts
    }

    /// Where the index lives.
    pub fn index(&self) -> (location: MemoryLocation)
        ensures
            location == self@.index,
    {
        self.index
    }

    /// Number of slots indexed before the timed region.
    pub fn n_accounts_multiple(&self) -> (n: usize)
        ensures
            n == self@.n_accounts_multiple,
    {
        self.n_accounts_multiple
    }

    /// The entry with its fields laid open.
    pub fn entry(&self) -> (e: SyndicaBenchmark)
        ensures
            e == self@,
    {
        SyndicaBenchmark {
            n_accounts: self.n_accounts,
            slot_list_len: self.slot_list_len,
            accounts: self.accounts,
            index: self.index,
            n_accounts_multiple: self.n_accounts_multiple,
        }
    }
}

/// The options of a generated workload.
#[derive(Debug, Clone, Copy, PartialEq, Eq, Structural)]
pub struct WorkloadConfig {
    /// Slots that hold the initial population, each of them all of it;
    /// they are the slots that writes go to and that reads see.
    pub num_slots: u64,
    /// Accounts stored under each of these slots before the run: the size
    /// of the population.
    pub init_accounts_per_slot: usize,
    /// Number of write actions to generate.
    pub accounts_to_write: usize,
    /// Share of samples routed to reads, in parts of `RATIO_SCALE`.
    pub read_write_ratio: i64,
    /// Number of timed trials.
    pub benchmark_runs: usize,
}

impl WorkloadConfig {
    /// The first reason, if any, for which the configuration cannot be run.
    pub open spec fn defect(&self) -> Option<ConfigError> {
        if self.read_write_ratio < 0 || self.read_write_ratio > RATIO_SCALE {
            Some(ConfigError::RatioOutOfRange)
        } else if self.accounts_to_write > 0 && self.init_accounts_per_slot == 0 {
            Some(ConfigError::EmptyPool)
        } else if self.accounts_to_write > 0 && self.num_slots == 0 {
            Some(ConfigError::NoSlots)
        } else {
            None
        }
    }

    /// Checks the configuration, to be done before any timed work.
    pub fn validate(&self) -> (r: Result<(), ConfigError>)
        ensures
            match r {
                Ok(_) => self.defect() is None,
                Err(e) => self.defect() == Some(e),
            },
    {
        if self.read_write_ratio < 0 || self.read_write_ratio > RATIO_SCALE as i64 {
            Err(ConfigError::RatioOutOfRange)
        } else if self.accounts_to_write > 0 && self.init_accounts_per_slot == 0 {
            Err(ConfigError::EmptyPool)
        } else if self.accounts_to_write > 0 && self.num_slots == 0 {
            Err(ConfigError::NoSlots)
        } else {
            Ok(())
        }
    }
}

} // verus!
