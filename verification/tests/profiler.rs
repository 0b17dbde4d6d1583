use accounts_bench::config::PerfBenchType;
use accounts_bench::profiler::{
    report_file, CoordinationError, Coordinator, Directive, Event, Phase, ProfilerMode, StopSignal,
};

const ALL_EVENTS: [Event; 9] = [
    Event::Duplicated { child: 77 },
    Event::DuplicationFailed,
    Event::ProfilerIssued,
    Event::BodyStarted,
    Event::BodyFinished,
    Event::SignalDelivered,
    Event::SignalFailed,
    Event::ChildExited,
    Event::WaitFailed,
];

fn after(mode: ProfilerMode, events: &[Event]) -> Coordinator {
    let mut c = Coordinator::new(mode);
    for event in events {
        assert!(c.on_event(*event).is_ok());
    }
    c
}

#[test]
fn a_new_region_is_idle() {
    let c = Coordinator::new(ProfilerMode::Record);
    assert_eq!(c.phase, Phase::Idle);
    assert_eq!(c.mode, ProfilerMode::Record);
    assert!(!c.profiled);
    assert!(!c.body_done);
}

#[test]
fn a_recorded_region_runs_through_every_phase() {
    let mut c = Coordinator::new(ProfilerMode::Record);
    assert_eq!(c.on_event(Event::Duplicated { child: 4242 }), Ok(Directive::IssueProfiler));
    assert_eq!(c.phase, Phase::Forked);
    assert_eq!(c.on_event(Event::ProfilerIssued), Ok(Directive::StartBody));
    assert_eq!(c.phase, Phase::ProfilerAttached);
    assert_eq!(c.on_event(Event::BodyStarted), Ok(Directive::Measure));
    assert_eq!(c.phase, Phase::MeasuredBody);
    assert_eq!(
        c.on_event(Event::BodyFinished),
        Ok(Directive::SendSignal { child: 4242, signal: StopSignal::Interrupt })
    );
    assert_eq!(c.phase, Phase::MeasuredBody);
    assert_eq!(c.on_event(Event::SignalDelivered), Ok(Directive::AwaitExit { child: 4242 }));
    assert_eq!(c.phase, Phase::SignalSent);
    assert_eq!(c.on_event(Event::ChildExited), Ok(Directive::Finish { profiled: true }));
    assert_eq!(c.phase, Phase::Joined);
}

#[test]
fn a_counted_region_is_stopped_by_termination() {
    let mut c = after(
        ProfilerMode::Stat,
        &[Event::Duplicated { child: 9 }, Event::ProfilerIssued, Event::BodyStarted],
    );
    assert_eq!(
        c.on_event(Event::BodyFinished),
        Ok(Directive::SendSignal { child: 9, signal: StopSignal::Terminate })
    );
    assert_eq!(ProfilerMode::Stat.stop_signal(), StopSignal::Terminate);
    assert_eq!(ProfilerMode::Record.stop_signal(), StopSignal::Interrupt);
}

#[test]
fn a_failed_duplication_runs_the_body_unprofiled() {
    let mut c = Coordinator::new(ProfilerMode::Record);
    assert_eq!(c.on_event(Event::DuplicationFailed), Ok(Directive::Measure));
    assert_eq!(c.phase, Phase::MeasuredBody);
    assert!(!c.profiled);
    assert_eq!(c.on_event(Event::BodyFinished), Ok(Directive::Finish { profiled: false }));
    assert_eq!(c.phase, Phase::Joined);
}

#[test]
fn a_failed_signal_is_fatal() {
    let mut c = after(
        ProfilerMode::Record,
        &[
            Event::Duplicated { child: 1 },
            Event::ProfilerIssued,
            Event::BodyStarted,
            Event::BodyFinished,
        ],
    );
    assert_eq!(c.on_event(Event::SignalFailed), Err(CoordinationError::SignalFailed));
    assert_eq!(c.phase, Phase::Failed);
}

#[test]
fn a_failed_wait_is_fatal() {
    let mut c = after(
        ProfilerMode::Record,
        &[
            Event::Duplicated { child: 1 },
            Event::ProfilerIssued,
            Event::BodyStarted,
            Event::BodyFinished,
            Event::SignalDelivered,
        ],
    );
    assert_eq!(c.on_event(Event::WaitFailed), Err(CoordinationError::WaitFailed));
    assert_eq!(c.phase, Phase::Failed);
}

#[test]
fn no_signal_goes_out_before_the_body_has_ended() {
    let mut c = after(
        ProfilerMode::Record,
        &[Event::Duplicated { child: 1 }, Event::ProfilerIssued, Event::BodyStarted],
    );
    let before = c;
    assert_eq!(c.on_event(Event::SignalDelivered), Err(CoordinationError::OutOfOrder));
    assert_eq!(c.on_event(Event::SignalFailed), Err(CoordinationError::OutOfOrder));
    assert_eq!(c, before);
}

#[test]
fn the_body_ends_only_once() {
    let mut c = after(
        ProfilerMode::Record,
        &[
            Event::Duplicated { child: 1 },
            Event::ProfilerIssued,
            Event::BodyStarted,
            Event::BodyFinished,
        ],
    );
    let before = c;
    assert_eq!(c.on_event(Event::BodyFinished), Err(CoordinationError::OutOfOrder));
    assert_eq!(c, before);
}

#[test]
fn an_event_out_of_order_changes_nothing() {
    let idle = Coordinator::new(ProfilerMode::Stat);
    for event in ALL_EVENTS {
        let mut c = idle;
        let answer = c.on_event(event);
        match event {
            Event::Duplicated { .. } | Event::DuplicationFailed => assert!(answer.is_ok()),
            _ => {
                assert_eq!(answer, Err(CoordinationError::OutOfOrder));
                assert_eq!(c, idle);
            }
        }
    }
}

#[test]
fn a_region_that_is_over_takes_no_event() {
    let joined = after(
        ProfilerMode::Record,
        &[Event::DuplicationFailed, Event::BodyFinished],
    );
    let mut failed = after(
        ProfilerMode::Record,
        &[
            Event::Duplicated { child: 1 },
            Event::ProfilerIssued,
            Event::BodyStarted,
            Event::BodyFinished,
        ],
    );
    assert!(failed.on_event(Event::SignalFailed).is_err());
    for over in [joined, failed] {
        for event in ALL_EVENTS {
            let mut c = over;
            assert_eq!(c.on_event(event), Err(CoordinationError::OutOfOrder));
            assert_eq!(c, over);
        }
    }
}

#[test]
fn only_signal_and_wait_can_fail_a_region() {
    fn explore(c: Coordinator, depth: usize) {
        if depth == 0 {
            return;
        }
        for event in ALL_EVENTS {
            let mut next = c;
            let answer = next.on_event(event);
            if next.phase == Phase::Failed && c.phase != Phase::Failed {
                assert!(matches!(event, Event::SignalFailed | Event::WaitFailed));
                assert!(c.profiled && c.body_done);
            }
            if answer == Err(CoordinationError::OutOfOrder) {
                assert_eq!(next, c);
            } else {
                explore(next, depth - 1);
            }
        }
    }
    explore(Coordinator::new(ProfilerMode::Record), 8);
}

#[test]
fn recordings_go_to_a_file_per_region() {
    assert_eq!(PerfBenchType::Read.data_file(), "read.data");
    assert_eq!(PerfBenchType::Write.data_file(), "write.data");
    assert_eq!(PerfBenchType::Read.label(), "READ");
    assert_eq!(PerfBenchType::Write.label(), "WRITE");
    assert_eq!(report_file(), "perf_output.txt");
    assert_eq!(ProfilerMode::Record.subcommand(), "record");
    assert_eq!(ProfilerMode::Stat.subcommand(), "stat");
}
