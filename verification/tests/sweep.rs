use accounts_bench::sweep::{boundary_marker, Sweep, SweepStep};

fn all_steps(configs: usize, repeats: usize) -> Vec<SweepStep> {
    let mut sweep = Sweep::new(configs, repeats);
    let mut steps = Vec::new();
    while let Some(step) = sweep.next() {
        steps.push(step);
    }
    assert_eq!(sweep.next(), None);
    steps
}

#[test]
fn each_configuration_runs_its_repeats_and_then_its_boundary() {
    assert_eq!(
        all_steps(2, 3),
        vec![
            SweepStep::Run { config: 0, repetition: 0 },
            SweepStep::Run { config: 0, repetition: 1 },
            SweepStep::Run { config: 0, repetition: 2 },
            SweepStep::Boundary { config: 0 },
            SweepStep::Run { config: 1, repetition: 0 },
            SweepStep::Run { config: 1, repetition: 1 },
            SweepStep::Run { config: 1, repetition: 2 },
            SweepStep::Boundary { config: 1 },
        ]
    );
}

#[test]
fn one_run_each_alternates_run_and_boundary() {
    assert_eq!(
        all_steps(3, 1),
        vec![
            SweepStep::Run { config: 0, repetition: 0 },
            SweepStep::Boundary { config: 0 },
            SweepStep::Run { config: 1, repetition: 0 },
            SweepStep::Boundary { config: 1 },
            SweepStep::Run { config: 2, repetition: 0 },
            SweepStep::Boundary { config: 2 },
        ]
    );
}

#[test]
fn no_repeats_leaves_the_boundaries() {
    assert_eq!(
        all_steps(2, 0),
        vec![SweepStep::Boundary { config: 0 }, SweepStep::Boundary { config: 1 }]
    );
}

#[test]
fn no_configurations_give_no_steps() {
    assert_eq!(all_steps(0, 5), Vec::new());
    assert_eq!(all_steps(0, 0), Vec::new());
}

#[test]
fn step_count_is_configurations_times_repeats_plus_one() {
    for configs in 0..6 {
        for repeats in 0..6 {
            let steps = all_steps(configs, repeats);
            assert_eq!(steps.len(), configs * (repeats + 1));
            for (k, step) in steps.iter().enumerate() {
                let config = k / (repeats + 1);
                let turn = k % (repeats + 1);
                if turn < repeats {
                    assert_eq!(*step, SweepStep::Run { config, repetition: turn });
                } else {
                    assert_eq!(*step, SweepStep::Boundary { config });
                }
            }
        }
    }
}

#[test]
fn the_largest_repeat_count_does_not_overflow() {
    let mut sweep = Sweep::new(1, usize::MAX);
    assert_eq!(sweep.next(), Some(SweepStep::Run { config: 0, repetition: 0 }));
    assert_eq!(sweep.next(), Some(SweepStep::Run { config: 0, repetition: 1 }));
}

#[test]
fn the_boundary_is_three_dashes() {
    assert_eq!(boundary_marker(), "---");
}
