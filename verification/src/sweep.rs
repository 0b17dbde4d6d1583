//! The order of a sweep: every configuration of a list is run a given
//! number of times, one run after the other, and a boundary is marked
//! after the last run of each.

use vstd::arithmetic::div_mod::lemma_fundamental_div_mod_converse;
use vstd::prelude::*;

verus! {

/// One step of a sweep.
#[derive(Debug, Clone, Copy, PartialEq, Eq, Structural)]
pub enum SweepStep {
    /// Run configuration `config` for the `repetition`-th time, counting
    /// from zero, and report its timing.
    Run { config: usize, repetition: usize },
    /// Mark the end of configuration `config`.
    Boundary { config: usize },
}

/// Number of steps of a sweep over `configs` configurations with `repeats`
/// runs each.
pub open spec fn step_count(configs: nat, repeats: nat) -> nat {
    configs * (repeats + 1)
}

/// Step `k` of a sweep with `repeats` runs of each configuration: the
/// configurations come in order, each with its runs in order and then its
/// boundary.
pub open spec fn step_at(repeats: nat, k: nat) -> SweepStep {
    let config = (k / (repeats + 1)) as usize;
    let turn = k % (repeats + 1);
    if turn < repeats {
        SweepStep::Run { config, repetition: turn as usize }
    } else {
        SweepStep::Boundary { config }
    }
}

/// The line that marks the end of a configuration in the output.
pub fn boundary_marker() -> (line: &'static str)
    ensures
        line@ == "---"@,
{
    "---"
}

/// A sweep under way.
#[derive(Debug, Clone, Copy, PartialEq, Eq, Structural)]
pub struct Sweep {
    configs: usize,
    repeats: usize,
    config: usize,
    repetition: usize,
}

impl Sweep {
    #[verifier::type_invariant]
    spec fn in_range(&self) -> bool {
        &&& self.config <= self.configs
        &&& self.repetition <= self.repeats
        &&& self.config == self.configs ==> self.repetition == 0
    }

    /// Number of configurations.
    pub closed spec fn configs(&self) -> nat {
        self.configs as nat
    }

    /// Number of runs of each configuration.
    pub closed spec fn repeats(&self) -> nat {
        self.repeats as nat
    }

    /// Number of steps handed out so far.
    pub closed spec fn emitted(&self) -> nat {
        (self.config * (self.repeats + 1) + self.repetition) as nat
    }

    /// A sweep over `configs` configurations with `repeats` runs each, at
    /// its beginning.
    pub fn new(configs: usize, repeats: usize) -> (sweep: Sweep)
        ensures
            sweep.configs() == configs,
            sweep.repeats() == repeats,
            sweep.emitted() == 0,
    {
        let sweep = Sweep { configs, repeats, config: 0, repetition: 0 };
        assert(0 * (repeats + 1) == 0);
        sweep
    }

    /// The next step, or `None` once every configuration has had its runs
    /// and its boundary.
    pub fn next(&mut self) -> (step: Option<SweepStep>)
        ensures
            final(self).configs() == old(self).configs(),
            final(self).repeats() == old(self).repeats(),
            old(self).emitted() <= step_count(old(self).configs(), old(self).repeats()),
            step == (if old(self).emitted() < step_count(old(self).configs(), old(self).repeats()) {
                Some(step_at(old(self).repeats(), old(self).emitted()))
            } else {
                None
            }),
            final(self).emitted() == old(self).emitted() + (if step is Some {
                1nat
            } else {
                0nat
            }),
    {
        proof {
            use_type_invariant(&*self);
            let per = self.repeats + 1;
            assert(self.config * per <= self.configs * per) by (nonlinear_arith)
                requires
                    self.config <= self.configs,
                    per > 0,
            ;
            if self.config < self.configs {
                lemma_fundamental_div_mod_converse(
                    self.config * per + self.repetition,
                    per,
                    self.config as int,
                    self.repetition as int,
                );
                assert((self.config + 1) * per <= self.configs * per) by (nonlinear_arith)
                    requires
                        self.config + 1 <= self.configs,
                        per > 0,
                ;
                assert((self.config + 1) * per == self.config * per + per) by (nonlinear_arith);
            }
        }
        if self.config >= self.configs {
            None
        } else if self.repetition < self.repeats {
            let step = SweepStep::Run { config: self.config, repetition: self.repetition };
            *self = Sweep { repetition: self.repetition + 1, ..*self };
            Some(step)
        } else {
            let step = SweepStep::Boundary { config: self.config };
            *self = Sweep { config: self.config + 1, repetition: 0, ..*self };
            Some(step)
        }
    }
}

} // verus!
