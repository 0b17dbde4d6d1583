//! The measurements of repeated trials: each trial's elapsed time on its
//! own, and the time of all of them together. Nothing is averaged.

use vstd::prelude::*;

verus! {

/// The sum of `times`.
pub open spec fn sum(times: Seq<u128>) -> nat
    decreases times.len(),
{
    if times.len() == 0 {
        0
    } else {
        sum(times.drop_last()) + times.last() as nat
    }
}

/// The sum of a prefix is at most the sum of the whole.
pub proof fn lemma_sum_of_prefix(times: Seq<u128>, n: int)
    requires
        0 <= n <= times.len(),
    ensures
        sum(times.take(n)) <= sum(times),
    decreases times.len() - n,
{
    if n < times.len() {
        lemma_sum_of_prefix(times, n + 1);
        assert(times.take(n + 1).drop_last() =~= times.take(n));
    } else {
        assert(times.take(n) =~= times);
    }
}

/// Elapsed times in nanoseconds, one per trial in the order of the trials.
#[derive(Debug, PartialEq, Eq)]
pub struct TrialLog {
    pub runs: Vec<u128>,
}

impl View for TrialLog {
    type V = Seq<u128>;

    open spec fn view(&self) -> Seq<u128> {
        self.runs@
    }
}

impl TrialLog {
    /// The log before any trial.
    pub fn new() -> (log: TrialLog)
        ensures
            log@.len() == 0,
    {
        TrialLog { runs: Vec::new() }
    }

    /// Enters the elapsed time of one more trial.
    pub fn record(&mut self, nanos: u128)
        ensures
            final(self)@ == old(self)@.push(nanos),
    {
        self.runs.push(nanos);
    }

    /// The elapsed time of all trials together, or `None` where it does not
    /// fit in 128 bits.
    pub fn total(&self) -> (t: Option<u128>)
        ensures
            t matches Some(v) ==> v == sum(self@),
            t is None <==> sum(self@) > u128::MAX,
    {
        let mut total: u128 = 0;
        let mut i: usize = 0;
        assert(self@.take(0) =~= Seq::<u128>::empty());
        while i < self.runs.len()
            invariant
                i <= self@.len(),
                total == sum(self@.take(i as int)),
            decreases self@.len() - i,
        {
            proof {
                assert(self@.take(i + 1).drop_last() =~= self@.take(i as int));
                lemma_sum_of_prefix(self@, i + 1);
            }
            match total.checked_add(self.runs[i]) {
                None => {
                    return None;
                },
                Some(next) => {
                    total = next;
                },
            }
            i += 1;
        }
        assert(self@.take(self@.len() as int) =~= self@);
        Some(total)
    }
}

} // verus!
