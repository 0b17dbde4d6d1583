//! Generation of a workload: a sequence of reads and writes with a given
//! number of writes and a given share of reads.
//!
//! Each action comes from one sample: a threshold, an account and a slot.
//! A sample whose threshold is at most the read/write ratio becomes a read of
//! its account, any other a write of its account under its slot. Samples are
//! taken until the asked number of writes has been made.

use crate::config::{ConfigError, WorkloadConfig, RATIO_SCALE};
use crate::entropy::draw_below;
use crate::population::{Account, Population, Record};
use vstd::prelude::*;
use vstd::seq_lib::{to_multiset_contains, to_multiset_len, to_multiset_remove};
use vstd::set_lib::{lemma_int_range, set_int_range};

verus! {

/// One simulated operation. An account is named by its index in the
/// population.
#[derive(Debug, Clone, Copy, PartialEq, Eq)]
pub enum Action {
    Read { key: usize },
    Write { slot: u64, key: usize, record: Record },
}

/// The raw material of one action.
#[derive(Debug, Clone, Copy, PartialEq, Eq, Structural)]
pub struct Sample {
    /// Decides between read and write. Generated samples have it in
    /// `1 ..= RATIO_SCALE`.
    pub threshold: u64,
    /// Index of the account.
    pub key: usize,
    /// Target slot, should the sample become a write.
    pub slot: u64,
}

/// A generated sequence of actions with the realized counts.
#[derive(Debug, PartialEq, Eq)]
pub struct Workload {
    pub actions: Vec<Action>,
    pub reads: usize,
    pub writes: usize,
}

/// Why no workload was generated.
#[derive(Debug, Clone, Copy, PartialEq, Eq)]
pub enum GenerateError {
    /// The configuration is refused.
    Config(ConfigError),
    /// The sample at this position names an account outside the population.
    KeyOutOfRange { sample: usize },
    /// The samples ran out before the writes were made; the counts are
    /// those made until then.
    Exhausted { reads: usize, writes: usize },
}

impl Action {
    /// Index of the account that the action is about.
    pub open spec fn key(self) -> usize {
        match self {
            Action::Read { key } => key,
            Action::Write { key, .. } => key,
        }
    }
}

/// Number of writes in `actions`.
pub open spec fn count_writes(actions: Seq<Action>) -> nat
    decreases actions.len(),
{
    if actions.len() == 0 {
        0
    } else {
        count_writes(actions.drop_last()) + if actions.last() is Write {
            1nat
        } else {
            0nat
        }
    }
}

/// Number of reads in `actions`.
pub open spec fn count_reads(actions: Seq<Action>) -> nat
    decreases actions.len(),
{
    if actions.len() == 0 {
        0
    } else {
        count_reads(actions.drop_last()) + if actions.last() is Read {
            1nat
        } else {
            0nat
        }
    }
}

/// The action that `sample` becomes under `ratio`, with the record that
/// `pool` holds for its account.
pub open spec fn realize(sample: Sample, ratio: int, pool: Seq<Account>) -> Action {
    if sample.threshold <= ratio {
        Action::Read { key: sample.key }
    } else {
        Action::Write {
            slot: sample.slot,
            key: sample.key,
            record: pool[sample.key as int].record,
        }
    }
}

/// The actions that `samples` become, one for one.
pub open spec fn realize_all(samples: Seq<Sample>, ratio: int, pool: Seq<Account>) -> Seq<Action> {
    Seq::new(samples.len(), |i: int| realize(samples[i], ratio, pool))
}

/// Whether every action names an account of `pool`, and every write goes
/// to a slot below `num_slots` with the pool's record for its account.
pub open spec fn fits(actions: Seq<Action>, pool: Seq<Account>, num_slots: int) -> bool {
    forall|i: int|
        0 <= i < actions.len() ==> match #[trigger] actions[i] {
            Action::Read { key } => key < pool.len(),
            Action::Write { slot, key, record } => key < pool.len() && slot < num_slots && record
                == pool[key as int].record,
        }
}

/// Whether each of `samples` is one that generation may draw: a threshold
/// in `1 ..= RATIO_SCALE`, an account of a population of `pool_len`, and a
/// slot below `num_slots`.
pub open spec fn drawable(samples: Seq<Sample>, pool_len: nat, num_slots: int) -> bool {
    forall|i: int|
        0 <= i < samples.len() ==> {
            &&& 1 <= (#[trigger] samples[i]).threshold <= RATIO_SCALE
            &&& samples[i].key < pool_len
            &&& samples[i].slot < num_slots
        }
}

/// The first reason, if any, for which nothing can be generated for
/// `config` from a population of `pool_len` accounts.
pub open spec fn input_defect(config: WorkloadConfig, pool_len: nat) -> Option<ConfigError> {
    if config.defect() is Some {
        config.defect()
    } else if config.accounts_to_write > 0 && pool_len == 0 {
        Some(ConfigError::EmptyPool)
    } else {
        None
    }
}

/// Every action is a read or a write.
pub proof fn lemma_counts_add_up(actions: Seq<Action>)
    ensures
        count_reads(actions) + count_writes(actions) == actions.len(),
    decreases actions.len(),
{
    if actions.len() > 0 {
        lemma_counts_add_up(actions.drop_last());
    }
}

/// What one more action does to the counts.
pub proof fn lemma_counts_of_push(actions: Seq<Action>, action: Action)
    ensures
        count_writes(actions.push(action)) == count_writes(actions) + if action is Write {
            1nat
        } else {
            0nat
        },
        count_reads(actions.push(action)) == count_reads(actions) + if action is Read {
            1nat
        } else {
            0nat
        },
{
    assert(actions.push(action).drop_last() =~= actions);
}

/// A longer prefix holds no fewer writes.
pub proof fn lemma_count_writes_of_prefixes(actions: Seq<Action>, shorter: int, longer: int)
    requires
        0 <= shorter <= longer <= actions.len(),
    ensures
        count_writes(actions.take(shorter)) <= count_writes(actions.take(longer)),
    decreases longer - shorter,
{
    if shorter < longer {
        lemma_count_writes_of_prefixes(actions, shorter, longer - 1);
        assert(actions.take(longer).drop_last() =~= actions.take(longer - 1));
    }
}

/// A sequence that ends in a write holds more writes than each of its
/// shorter prefixes: a workload that stops at its last write is the
/// shortest run of samples that makes its writes.
pub proof fn lemma_stopping_at_a_write_is_shortest(actions: Seq<Action>, shorter: int)
    requires
        actions.len() > 0,
        actions.last() is Write,
        0 <= shorter < actions.len(),
    ensures
        count_writes(actions.take(shorter)) < count_writes(actions),
{
    lemma_count_writes_of_prefixes(actions, shorter, actions.len() - 1);
    assert(actions.take(actions.len() - 1) =~= actions.drop_last());
}

/// The thresholds that a generated sample may have.
pub open spec fn thresholds() -> Set<int> {
    Set::new(|t: int| 1 <= t <= RATIO_SCALE)
}

/// Of the `RATIO_SCALE` thresholds that a generated sample may have,
/// exactly `ratio` make a read.
pub proof fn lemma_read_share(ratio: int)
    requires
        0 <= ratio <= RATIO_SCALE,
    ensures
        thresholds().finite(),
        thresholds().len() == RATIO_SCALE,
        thresholds().filter(|t: int| t <= ratio).finite(),
        thresholds().filter(|t: int| t <= ratio).len() == ratio,
{
    lemma_int_range(1, RATIO_SCALE as int + 1);
    lemma_int_range(1, ratio + 1);
    assert(thresholds() =~= set_int_range(1, RATIO_SCALE as int + 1));
    assert(thresholds().filter(|t: int| t <= ratio) =~= set_int_range(1, ratio + 1));
}

/// With a ratio of zero every sample whose threshold is at least one
/// becomes a write.
pub proof fn lemma_zero_ratio_makes_only_writes(samples: Seq<Sample>, pool: Seq<Account>)
    requires
        forall|i: int| 0 <= i < samples.len() ==> (#[trigger] samples[i]).threshold >= 1,
    ensures
        count_reads(realize_all(samples, 0, pool)) == 0,
        count_writes(realize_all(samples, 0, pool)) == samples.len(),
    decreases samples.len(),
{
    if samples.len() > 0 {
        lemma_zero_ratio_makes_only_writes(samples.drop_last(), pool);
        assert(realize_all(samples, 0, pool).drop_last() =~= realize_all(
            samples.drop_last(),
            0,
            pool,
        ));
    }
}

/// With a ratio of `RATIO_SCALE` every sample whose threshold is at most
/// the scale becomes a read, so that no number of samples makes a write.
pub proof fn lemma_full_ratio_makes_only_reads(samples: Seq<Sample>, pool: Seq<Account>)
    requires
        forall|i: int| 0 <= i < samples.len() ==> (#[trigger] samples[i]).threshold <= RATIO_SCALE,
    ensures
        count_writes(realize_all(samples, RATIO_SCALE as int, pool)) == 0,
        count_reads(realize_all(samples, RATIO_SCALE as int, pool)) == samples.len(),
    decreases samples.len(),
{
    if samples.len() > 0 {
        lemma_full_ratio_makes_only_reads(samples.drop_last(), pool);
        assert(realize_all(samples, RATIO_SCALE as int, pool).drop_last() =~= realize_all(
            samples.drop_last(),
            RATIO_SCALE as int,
            pool,
        ));
    }
}

/// What taking one action out does to the counts.
pub proof fn lemma_counts_of_remove(actions: Seq<Action>, i: int)
    requires
        0 <= i < actions.len(),
    ensures
        count_writes(actions.remove(i)) + (if actions[i] is Write {
            1nat
        } else {
            0nat
        }) == count_writes(actions),
        count_reads(actions.remove(i)) + (if actions[i] is Read {
            1nat
        } else {
            0nat
        }) == count_reads(actions),
    decreases actions.len(),
{
    if i == actions.len() - 1 {
        assert(actions.remove(i) =~= actions.drop_last());
    } else {
        lemma_counts_of_remove(actions.drop_last(), i);
        assert(actions.remove(i).drop_last() =~= actions.drop_last().remove(i));
    }
}

/// Two sequences that hold the same actions, each as often as the other,
/// hold the same numbers of reads and writes.
pub proof fn lemma_counts_follow_multiset(a: Seq<Action>, b: Seq<Action>)
    requires
        a.to_multiset() == b.to_multiset(),
    ensures
        a.len() == b.len(),
        count_writes(a) == count_writes(b),
        count_reads(a) == count_reads(b),
    decreases a.len(),
{
    to_multiset_len(a);
    to_multiset_len(b);
    if a.len() > 0 {
        let x = a.last();
        let last = a.len() - 1;
        assert(a.contains(x));
        to_multiset_contains(a, x);
        to_multiset_contains(b, x);
        let j = choose|j: int| 0 <= j < b.len() && b[j] == x;
        to_multiset_remove(a, last);
        to_multiset_remove(b, j);
        assert(a.drop_last() =~= a.remove(last));
        lemma_counts_follow_multiset(a.drop_last(), b.remove(j));
        lemma_counts_of_remove(b, j);
    }
}

/// Realizing one more sample appends its action.
proof fn lemma_realize_all_of_take(samples: Seq<Sample>, ratio: int, pool: Seq<Account>, n: int)
    requires
        0 <= n < samples.len(),
    ensures
        realize_all(samples.take(n + 1), ratio, pool) == realize_all(
            samples.take(n),
            ratio,
            pool,
        ).push(realize(samples[n], ratio, pool)),
{
    assert(realize_all(samples.take(n + 1), ratio, pool) =~= realize_all(
        samples.take(n),
        ratio,
        pool,
    ).push(realize(samples[n], ratio, pool)));
}

impl Workload {
    /// Whether the two counts are those of the actions.
    pub open spec fn wf(&self) -> bool {
        self.reads == count_reads(self.actions@) && self.writes == count_writes(self.actions@)
    }

    /// The workload without actions.
    pub fn new() -> (w: Workload)
        ensures
            w.wf(),
            w.actions@.len() == 0,
    {
        Workload { actions: Vec::new(), reads: 0, writes: 0 }
    }

    /// Appends `action` and counts it.
    fn push(&mut self, action: Action)
        requires
            old(self).wf(),
            old(self).actions@.len() < usize::MAX,
        ensures
            final(self).wf(),
            final(self).actions@ == old(self).actions@.push(action),
    {
        proof {
            lemma_counts_of_push(self.actions@, action);
            lemma_counts_add_up(self.actions@);
        }
        match action {
            Action::Read { .. } => {
                self.reads = self.reads + 1;
            },
            Action::Write { .. } => {
                self.writes = self.writes + 1;
            },
        }
        self.actions.push(action);
    }

    /// The workload that `samples` give: they are turned into actions in
    /// order, up to and including the one that makes the last write asked
    /// for.
    ///
    /// Nothing is generated for a configuration with a defect, for a sample
    /// that names an account outside the population, or where the samples
    /// hold fewer writes than asked for. The slot and the threshold of a
    /// sample are taken as they are.
    pub fn from_samples(
        config: &WorkloadConfig,
        population: &Population,
        samples: &Vec<Sample>,
    ) -> (r: Result<Workload, GenerateError>)
        ensures
            match r {
                Ok(w) => {
                    let taken = w.actions@.len() as int;
                    &&& input_defect(*config, population@.len()) is None
                    &&& w.wf()
                    &&& taken <= samples@.len()
                    &&& w.actions@ == realize_all(
                        samples@.take(taken),
                        config.read_write_ratio as int,
                        population@,
                    )
                    &&& w.writes == config.accounts_to_write
                    &&& w.reads + w.writes == taken
                    &&& taken > 0 ==> w.actions@.last() is Write
                    &&& forall|i: int| 0 <= i < taken ==> (#[trigger] samples@[i]).key < population@.len()
                },
                Err(GenerateError::Config(e)) => input_defect(*config, population@.len()) == Some(e),
                Err(GenerateError::KeyOutOfRange { sample }) => {
                    &&& input_defect(*config, population@.len()) is None
                    &&& sample < samples@.len()
                    &&& samples@[sample as int].key >= population@.len()
                    &&& forall|i: int| 0 <= i < sample ==> (#[trigger] samples@[i]).key < population@.len()
                    &&& count_writes(
                        realize_all(
                            samples@.take(sample as int),
                            config.read_write_ratio as int,
                            population@,
                        ),
                    ) < config.accounts_to_write
                },
                Err(GenerateError::Exhausted { reads, writes }) => {
                    let all = realize_all(samples@, config.read_write_ratio as int, population@);
                    &&& input_defect(*config, population@.len()) is None
                    &&& forall|i: int|
                        0 <= i < samples@.len() ==> (#[trigger] samples@[i]).key < population@.len()
                    &&& writes == count_writes(all)
                    &&& reads == count_reads(all)
                    &&& writes < config.accounts_to_write
                },
            },
    {
        match config.validate() {
            Err(e) => {
                return Err(GenerateError::Config(e));
            },
            Ok(_) => {},
        }
        let target = config.accounts_to_write;
        if target > 0 && population.len() == 0 {
            return Err(GenerateError::Config(ConfigError::EmptyPool));
        }
        let ratio: u64 = config.read_write_ratio as u64;
        let ghost pool = population@;
        let ghost r = config.read_write_ratio as int;
        let mut w = Workload::new();
        let mut i: usize = 0;
        assert(w.actions@ =~= realize_all(samples@.take(0), r, pool));
        while w.writes < target
            invariant
                i <= samples@.len(),
                w.wf(),
                w.actions@.len() == i,
                w.actions@ == realize_all(samples@.take(i as int), r, pool),
                w.writes <= target,
                i > 0 && w.writes == target ==> w.actions@.last() is Write,
                forall|j: int| 0 <= j < i ==> (#[trigger] samples@[j]).key < pool.len(),
                pool == population@,
                r == config.read_write_ratio as int,
                ratio == r,
                target == config.accounts_to_write,
                input_defect(*config, population@.len()) is None,
            decreases samples@.len() - i,
        {
            if i >= samples.len() {
                assert(samples@.take(i as int) =~= samples@);
                return Err(GenerateError::Exhausted { reads: w.reads, writes: w.writes });
            }
            let sample = samples[i];
            if sample.key >= population.len() {
                return Err(GenerateError::KeyOutOfRange { sample: i });
            }
            let action = if sample.threshold <= ratio {
                Action::Read { key: sample.key }
            } else {
                Action::Write {
                    slot: sample.slot,
                    key: sample.key,
                    record: population.accounts[sample.key].record,
                }
            };
            proof {
                lemma_realize_all_of_take(samples@, r, pool, i as int);
                lemma_counts_of_push(w.actions@, action);
            }
            w.push(action);
            i += 1;
        }
        proof {
            lemma_counts_add_up(w.actions@);
        }
        Ok(w)
    }

    /// A workload for `config` over `population`, from at most
    /// `max_samples` random samples.
    ///
    /// Each sample draws a threshold uniformly from `1 ..= RATIO_SCALE` and
    /// an account uniformly from the population; a write also draws its
    /// slot uniformly from `0 .. config.num_slots`, and takes the record
    /// that the population holds for its account. The draws decide how
    /// many reads come between the writes, so a ratio above zero can use
    /// up any number of samples: `max_samples` bounds the run, and
    /// `Exhausted` reports that it was reached first. With a ratio of zero
    /// every sample is a write, and `max_samples >= accounts_to_write` is
    /// enough; with a ratio of `RATIO_SCALE` every sample is a read, and no
    /// bound is.
    pub fn generate(config: &WorkloadConfig, population: &Population, max_samples: usize) -> (r:
        Result<Workload, GenerateError>)
        ensures
            match r {
                Ok(w) => {
                    &&& input_defect(*config, population@.len()) is None
                    &&& w.wf()
                    &&& w.writes == config.accounts_to_write
                    &&& w.reads + w.writes == w.actions@.len()
                    &&& w.actions@.len() <= max_samples
                    &&& w.actions@.len() > 0 ==> w.actions@.last() is Write
                    &&& fits(w.actions@, population@, config.num_slots as int)
                    &&& config.read_write_ratio == 0 ==> w.reads == 0
                    &&& exists|samples: Seq<Sample>|
                        {
                            &&& drawable(samples, population@.len(), config.num_slots as int)
                            &&& #[trigger] realize_all(
                                samples,
                                config.read_write_ratio as int,
                                population@,
                            ) == w.actions@
                        }
                },
                Err(GenerateError::Config(e)) => input_defect(*config, population@.len()) == Some(
                    e,
                ),
                Err(GenerateError::KeyOutOfRange { .. }) => false,
                Err(GenerateError::Exhausted { reads, writes }) => {
                    &&& input_defect(*config, population@.len()) is None
                    &&& writes < config.accounts_to_write
                    &&& reads + writes == max_samples
                    &&& config.read_write_ratio == 0 ==> reads == 0
                    &&& config.read_write_ratio == RATIO_SCALE ==> writes == 0
                },
            },
            input_defect(*config, population@.len()) is None && config.read_write_ratio == 0
                && max_samples >= config.accounts_to_write ==> r is Ok,
            input_defect(*config, population@.len()) is None && config.read_write_ratio
                == RATIO_SCALE && config.accounts_to_write > 0 ==> r is Err,
    {
        match config.validate() {
            Err(e) => {
                return Err(GenerateError::Config(e));
            },
            Ok(_) => {},
        }
        let target = config.accounts_to_write;
        let pool_len = population.len();
        if target > 0 && pool_len == 0 {
            return Err(GenerateError::Config(ConfigError::EmptyPool));
        }
        let ratio: u64 = config.read_write_ratio as u64;
        let num_slots = config.num_slots;
        let mut w = Workload::new();
        let ghost pool = population@;
        let ghost r = config.read_write_ratio as int;
        let ghost mut samples: Seq<Sample> = Seq::empty();
        assert(realize_all(samples, r, pool) =~= w.actions@);
        if target == 0 {
            return Ok(w);
        }
        let mut drawn: usize = 0;
        while w.writes < target && drawn < max_samples
            invariant
                drawn <= max_samples,
                w.wf(),
                w.actions@.len() == drawn,
                w.writes <= target,
                drawn > 0 && w.writes == target ==> w.actions@.last() is Write,
                fits(w.actions@, population@, num_slots as int),
                ratio == 0 ==> w.reads == 0,
                ratio == RATIO_SCALE ==> w.writes == 0,
                ratio <= RATIO_SCALE,
                ratio == r,
                pool == population@,
                pool_len == population@.len(),
                target > 0,
                pool_len > 0,
                num_slots > 0,
                drawable(samples, pool.len(), num_slots as int),
                realize_all(samples, r, pool) == w.actions@,
            decreases max_samples - drawn,
        {
            let threshold: u64 = 1 + draw_below(RATIO_SCALE);
            let key: usize = draw_below(pool_len as u64) as usize;
            let ghost mut slot_drawn: u64 = 0;
            let action = if threshold <= ratio {
                Action::Read { key }
            } else {
                let slot: u64 = draw_below(num_slots);
                proof {
                    slot_drawn = slot;
                }
                Action::Write { slot, key, record: population.accounts[key].record }
            };
            proof {
                lemma_counts_of_push(w.actions@, action);
                let sample = Sample { threshold, key, slot: slot_drawn };
                assert(realize(sample, r, pool) == action);
                assert(realize_all(samples.push(sample), r, pool) =~= realize_all(
                    samples,
                    r,
                    pool,
                ).push(action));
                samples = samples.push(sample);
            }
            w.push(action);
            drawn += 1;
        }
        proof {
            lemma_counts_add_up(w.actions@);
        }
        if w.writes < target {
            Err(GenerateError::Exhausted { reads: w.reads, writes: w.writes })
        } else {
            Ok(w)
        }
    }
}

} // verus!
