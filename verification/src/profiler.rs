//! Coordination of a timed region with an operating-system profiler that
//! runs in a second process.
//!
//! The process that measures duplicates itself; the duplicate attaches the
//! profiler to the process it was made from, which runs the timed body,
//! signals the duplicate and waits for its exit. What happens in the two processes is
//! the caller's business: it reports each outcome as an [`Event`] and is
//! told by a [`Directive`] what to do next.

use crate::config::PerfBenchType;
use vstd::prelude::*;

verus! {

/// How the profiler is run.
#[derive(Debug, Clone, Copy, PartialEq, Eq, Structural)]
pub enum ProfilerMode {
    /// `perf record`: samples call graphs into a data file and stops on an
    /// interrupt.
    Record,
    /// `perf stat`: counts events and reports on its error stream when the
    /// process that waits for it is terminated.
    Stat,
}

/// The signal that ends the profiler.
#[derive(Debug, Clone, Copy, PartialEq, Eq, Structural)]
pub enum StopSignal {
    Interrupt,
    Terminate,
}

/// How far the coordination has come, seen from the measuring process.
#[derive(Debug, Clone, Copy, PartialEq, Eq, Structural)]
pub enum Phase {
    /// Nothing has happened yet.
    Idle,
    /// The duplicate exists.
    Forked,
    /// The profiler command has been issued.
    ProfilerAttached,
    /// The timed body is running, or has run and the signal is still to
    /// be delivered.
    MeasuredBody,
    /// The duplicate has been told to stop.
    SignalSent,
    /// The duplicate's exit has been observed, or there never was one.
    Joined,
    /// The two processes are out of step for good.
    Failed,
}

/// The state of one coordinated region.
#[derive(Debug, Clone, Copy, PartialEq, Eq, Structural)]
pub struct Coordinator {
    pub mode: ProfilerMode,
    pub phase: Phase,
    /// Whether a duplicate was made. Without one the body runs unprofiled.
    pub profiled: bool,
    /// Process id of the duplicate; meaningful while `profiled`.
    pub child: i32,
    /// Whether the timed body has come to its end.
    pub body_done: bool,
}

/// What the caller observed.
#[derive(Debug, Clone, Copy, PartialEq, Eq, Structural)]
pub enum Event {
    Duplicated { child: i32 },
    DuplicationFailed,
    ProfilerIssued,
    BodyStarted,
    BodyFinished,
    SignalDelivered,
    SignalFailed,
    ChildExited,
    WaitFailed,
}

/// What the caller is to do next.
#[derive(Debug, Clone, Copy, PartialEq, Eq, Structural)]
pub enum Directive {
    /// Have the duplicate issue the profiler command.
    IssueProfiler,
    /// Start the timed body.
    StartBody,
    /// Let the timed body run to its end.
    Measure,
    /// Send `signal` to the process `child`.
    SendSignal { child: i32, signal: StopSignal },
    /// Block until the process `child` has exited.
    AwaitExit { child: i32 },
    /// The region is over; `profiled` tells whether a profiler ran.
    Finish { profiled: bool },
}

/// Why an event was not acted on.
#[derive(Debug, Clone, Copy, PartialEq, Eq, Structural)]
pub enum CoordinationError {
    /// The stop signal could not be delivered. Fatal.
    SignalFailed,
    /// The duplicate's exit could not be observed. Fatal.
    WaitFailed,
    /// The event cannot occur in the present phase. The state is kept.
    OutOfOrder,
}

impl ProfilerMode {
    /// The signal that stops a profiler run in this mode.
    pub open spec fn spec_stop_signal(self) -> StopSignal {
        match self {
            ProfilerMode::Record => StopSignal::Interrupt,
            ProfilerMode::Stat => StopSignal::Terminate,
        }
    }

    #[verifier::when_used_as_spec(spec_stop_signal)]
    pub fn stop_signal(self) -> (s: StopSignal)
        ensures
            s == self.spec_stop_signal(),
    {
        match self {
            ProfilerMode::Record => StopSignal::Interrupt,
            ProfilerMode::Stat => StopSignal::Terminate,
        }
    }
}

impl ProfilerMode {
    /// The subcommand of `perf` that runs the profiler in this mode.
    pub fn subcommand(self) -> (name: &'static str)
        ensures
            name@ == (match self {
                ProfilerMode::Record => "record"@,
                ProfilerMode::Stat => "stat"@,
            }),
    {
        match self {
            ProfilerMode::Record => "record",
            ProfilerMode::Stat => "stat",
        }
    }
}

/// Name of the file that takes what a counting profiler writes to its error
/// stream.
pub fn report_file() -> (name: &'static str)
    ensures
        name@ == "perf_output.txt"@,
{
    "perf_output.txt"
}

impl PerfBenchType {
    /// The word that heads the timing of this region in the output.
    pub fn label(&self) -> (word: &'static str)
        ensures
            word@ == (match self {
                PerfBenchType::Read => "READ"@,
                PerfBenchType::Write => "WRITE"@,
            }),
    {
        match self {
            PerfBenchType::Read => "READ",
            PerfBenchType::Write => "WRITE",
        }
    }

    /// Name of the file that the recording of this region goes to.
    pub fn data_file(&self) -> (name: &'static str)
        ensures
            name@ == (match self {
                PerfBenchType::Read => "read.data"@,
                PerfBenchType::Write => "write.data"@,
            }),
    {
        match self {
            PerfBenchType::Read => "read.data",
            PerfBenchType::Write => "write.data",
        }
    }
}

impl Phase {
    /// Position of the phase in the order in which a region passes
    /// through them.
    pub open spec fn rank(self) -> nat {
        match self {
            Phase::Idle => 0,
            Phase::Forked => 1,
            Phase::ProfilerAttached => 2,
            Phase::MeasuredBody => 3,
            Phase::SignalSent => 4,
            Phase::Joined => 5,
            Phase::Failed => 5,
        }
    }

    /// Whether no event is accepted any more.
    pub open spec fn is_final(self) -> bool {
        self == Phase::Joined || self == Phase::Failed
    }
}

impl Coordinator {
    /// The state before anything has happened.
    pub open spec fn initial(mode: ProfilerMode) -> Coordinator {
        Coordinator { mode, phase: Phase::Idle, profiled: false, child: 0, body_done: false }
    }

    /// The state that `event` leads to, and the answer to it.
    ///
    /// A failed duplication is no error: the body then runs at once,
    /// unprofiled, and the region is joined as soon as the body ends. A failed signal or
    /// wait ends the coordination. Every other pair of phase and event that
    /// is not listed is out of order and changes nothing.
    pub open spec fn transition(self, event: Event) -> (Coordinator, Result<
        Directive,
        CoordinationError,
    >) {
        match (self.phase, event) {
            (Phase::Idle, Event::Duplicated { child }) => (
                Coordinator { phase: Phase::Forked, profiled: true, child, ..self },
                Ok(Directive::IssueProfiler),
            ),
            (Phase::Idle, Event::DuplicationFailed) => (
                Coordinator { phase: Phase::MeasuredBody, profiled: false, body_done: false, ..self },
                Ok(Directive::Measure),
            ),
            (Phase::Forked, Event::ProfilerIssued) => (
                Coordinator { phase: Phase::ProfilerAttached, ..self },
                Ok(Directive::StartBody),
            ),
            (Phase::ProfilerAttached, Event::BodyStarted) => (
                Coordinator { phase: Phase::MeasuredBody, body_done: false, ..self },
                Ok(Directive::Measure),
            ),
            (Phase::MeasuredBody, Event::BodyFinished) => if self.body_done {
                (self, Err(CoordinationError::OutOfOrder))
            } else if self.profiled {
                (
                    Coordinator { body_done: true, ..self },
                    Ok(
                        Directive::SendSignal {
                            child: self.child,
                            signal: self.mode.spec_stop_signal(),
                        },
                    ),
                )
            } else {
                (
                    Coordinator { phase: Phase::Joined, body_done: true, ..self },
                    Ok(Directive::Finish { profiled: false }),
                )
            },
            (Phase::MeasuredBody, Event::SignalDelivered) => if self.body_done {
                (
                    Coordinator { phase: Phase::SignalSent, ..self },
                    Ok(Directive::AwaitExit { child: self.child }),
                )
            } else {
                (self, Err(CoordinationError::OutOfOrder))
            },
            (Phase::MeasuredBody, Event::SignalFailed) => if self.body_done {
                (Coordinator { phase: Phase::Failed, ..self }, Err(CoordinationError::SignalFailed))
            } else {
                (self, Err(CoordinationError::OutOfOrder))
            },
            (Phase::SignalSent, Event::ChildExited) => (
                Coordinator { phase: Phase::Joined, ..self },
                Ok(Directive::Finish { profiled: true }),
            ),
            (Phase::SignalSent, Event::WaitFailed) => (
                Coordinator { phase: Phase::Failed, ..self },
                Err(CoordinationError::WaitFailed),
            ),
            _ => (self, Err(CoordinationError::OutOfOrder)),
        }
    }

    /// The state after the events of `trace`, taken in order.
    pub open spec fn after(self, trace: Seq<Event>) -> Coordinator
        decreases trace.len(),
    {
        if trace.len() == 0 {
            self
        } else {
            self.after(trace.drop_last()).transition(trace.last()).0
        }
    }

    /// Number of steps that the state has left behind: the phases passed,
    /// counting the end of the body as a step of its own.
    pub open spec fn progress(self) -> nat {
        2 * self.phase.rank() + if self.phase == Phase::MeasuredBody && self.body_done {
            1nat
        } else {
            0nat
        }
    }

    /// What holds of every state that events can lead to: a duplicate
    /// exists from `Forked` on unless duplication failed, the stop signal
    /// goes out only once the body has ended, and only a run with a
    /// duplicate can fail.
    pub open spec fn consistent(self) -> bool {
        match self.phase {
            Phase::Idle => !self.profiled && !self.body_done,
            Phase::Forked => self.profiled && !self.body_done,
            Phase::ProfilerAttached => self.profiled && !self.body_done,
            Phase::MeasuredBody => self.body_done ==> self.profiled,
            Phase::SignalSent => self.profiled && self.body_done,
            Phase::Joined => self.body_done,
            Phase::Failed => self.profiled && self.body_done,
        }
    }

    /// An event that is acted on moves the region forward, and one that is
    /// out of order leaves it where it was.
    pub proof fn lemma_events_advance(self, event: Event)
        ensures
            self.transition(event).1 == Err::<Directive, _>(CoordinationError::OutOfOrder)
                ==> self.transition(event).0 == self,
            self.transition(event).1 != Err::<Directive, _>(CoordinationError::OutOfOrder)
                ==> self.transition(event).0.progress() > self.progress(),
            self.transition(event).0.mode == self.mode,
    {
    }

    /// Once joined or failed, a region takes no further event.
    pub proof fn lemma_final_phase_is_closed(self, event: Event)
        requires
            self.phase.is_final(),
        ensures
            self.transition(event) == (self, Err::<Directive, _>(CoordinationError::OutOfOrder)),
    {
    }

    /// A region never fails for want of a duplicate: the outcome of a step
    /// is fatal only where the signal or the wait failed, and then a
    /// duplicate existed and the body had run to its end.
    pub proof fn lemma_only_signal_and_wait_are_fatal(self, event: Event)
        requires
            self.consistent(),
        ensures
            self.transition(event).0.consistent(),
            self.transition(event).0.phase == Phase::Failed && self.phase != Phase::Failed ==> (
            event == Event::SignalFailed || event == Event::WaitFailed) && self.profiled
                && self.body_done,
            event == Event::DuplicationFailed && self.phase == Phase::Idle
                ==> self.transition(event).1 == Ok::<_, CoordinationError>(Directive::Measure),
    {
    }

    /// Whatever events are reported from the start, in whatever order, the
    /// state stays consistent.
    pub proof fn lemma_reachable_states_are_consistent(mode: ProfilerMode, trace: Seq<Event>)
        ensures
            Coordinator::initial(mode).after(trace).consistent(),
            Coordinator::initial(mode).after(trace).mode == mode,
        decreases trace.len(),
    {
        if trace.len() > 0 {
            Self::lemma_reachable_states_are_consistent(mode, trace.drop_last());
            Coordinator::initial(mode).after(trace.drop_last()).lemma_only_signal_and_wait_are_fatal(
                trace.last(),
            );
        }
    }

    /// A coordinator for a region profiled in `mode`, with nothing done yet.
    /// The caller starts by duplicating the process.
    pub fn new(mode: ProfilerMode) -> (c: Coordinator)
        ensures
            c == Coordinator::initial(mode),
    {
        Coordinator { mode, phase: Phase::Idle, profiled: false, child: 0, body_done: false }
    }

    /// Takes note of `event` and says what to do next.
    pub fn on_event(&mut self, event: Event) -> (r: Result<Directive, CoordinationError>)
        ensures
            *final(self) == old(self).transition(event).0,
            r == old(self).transition(event).1,
    {
        match (self.phase, event) {
            (Phase::Idle, Event::Duplicated { child }) => {
                self.phase = Phase::Forked;
                self.profiled = true;
                self.child = child;
                Ok(Directive::IssueProfiler)
            },
            (Phase::Idle, Event::DuplicationFailed) => {
                self.phase = Phase::MeasuredBody;
                self.profiled = false;
                self.body_done = false;
                Ok(Directive::Measure)
            },
            (Phase::Forked, Event::ProfilerIssued) => {
                self.phase = Phase::ProfilerAttached;
                Ok(Directive::StartBody)
            },
            (Phase::ProfilerAttached, Event::BodyStarted) => {
                self.phase = Phase::MeasuredBody;
                self.body_done = false;
                Ok(Directive::Measure)
            },
            (Phase::MeasuredBody, Event::BodyFinished) => {
                if self.body_done {
                    Err(CoordinationError::OutOfOrder)
                } else if self.profiled {
                    self.body_done = true;
                    Ok(Directive::SendSignal { child: self.child, signal: self.mode.stop_signal() })
                } else {
                    self.body_done = true;
                    self.phase = Phase::Joined;
                    Ok(Directive::Finish { profiled: false })
                }
            },
            (Phase::MeasuredBody, Event::SignalDelivered) => {
                if self.body_done {
                    self.phase = Phase::SignalSent;
                    Ok(Directive::AwaitExit { child: self.child })
                } else {
                    Err(CoordinationError::OutOfOrder)
                }
            },
            (Phase::MeasuredBody, Event::SignalFailed) => {
                if self.body_done {
                    self.phase = Phase::Failed;
                    Err(CoordinationError::SignalFailed)
                } else {
                    Err(CoordinationError::OutOfOrder)
                }
            },
            (Phase::SignalSent, Event::ChildExited) => {
                self.phase = Phase::Joined;
                Ok(Directive::Finish { profiled: true })
            },
            (Phase::SignalSent, Event::WaitFailed) => {
                self.phase = Phase::Failed;
                Err(CoordinationError::WaitFailed)
            },
            _ => Err(CoordinationError::OutOfOrder),
        }
    }
}

} // verus!
