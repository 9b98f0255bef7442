use sesh::provision::{Event, Phase, Provisioner, Step};

/// Drives a run: `fail_at` is the repository whose worktree cannot be
/// created, `remove_fails` the worktrees whose removal fails. Returns the
/// steps performed and the worktrees that exist at the end.
fn drive(
    n: usize,
    fetch_first: bool,
    probe: bool,
    fail_at: Option<usize>,
    remove_fails: &[usize],
) -> (Vec<Step>, Vec<usize>, Provisioner) {
    let mut run = Provisioner::new(n, fetch_first, probe);
    let mut steps = Vec::new();
    let mut on_disk: Vec<usize> = Vec::new();
    let mut guard = 0;
    while !run.is_finished() {
        guard += 1;
        assert!(guard < 1000);
        let step = run.pending();
        steps.push(step);
        let event = match step {
            Step::Fetch { repo } => Event::Fetched { ok: repo % 2 == 0 },
            Step::Probe { repo } => Event::Probed { found: Some(repo % 2 == 1) },
            Step::Create { repo } | Step::CheckoutExisting { repo } => {
                if Some(repo) == fail_at {
                    Event::Added { ok: false }
                } else {
                    on_disk.push(repo);
                    Event::Added { ok: true }
                }
            }
            Step::Remove { repo } => {
                if remove_fails.contains(&repo) {
                    Event::Removed { ok: false }
                } else {
                    on_disk.retain(|r| *r != repo);
                    Event::Removed { ok: true }
                }
            }
            Step::Persist | Step::Abort { .. } => unreachable!(),
        };
        run.advance(event);
    }
    steps.push(run.pending());
    (steps, on_disk, run)
}

#[test]
fn all_worktrees_are_created_in_order() {
    let (steps, on_disk, run) = drive(3, true, false, None, &[]);
    assert_eq!(
        steps,
        vec![
            Step::Fetch { repo: 0 },
            Step::Create { repo: 0 },
            Step::Fetch { repo: 1 },
            Step::Create { repo: 1 },
            Step::Fetch { repo: 2 },
            Step::Create { repo: 2 },
            Step::Persist,
        ]
    );
    assert_eq!(on_disk, vec![0, 1, 2]);
    assert_eq!(run.phase(), Phase::Provisioned);
    assert!(run.stranded().is_empty());
}

#[test]
fn failure_rolls_back_in_reverse_creation_order() {
    let (steps, on_disk, run) = drive(4, false, false, Some(2), &[]);
    assert_eq!(
        steps,
        vec![
            Step::Create { repo: 0 },
            Step::Create { repo: 1 },
            Step::Create { repo: 2 },
            Step::Remove { repo: 1 },
            Step::Remove { repo: 0 },
            Step::Abort { failed: 2 },
        ]
    );
    assert!(on_disk.is_empty());
    assert_eq!(run.phase(), Phase::RolledBack);
}

#[test]
fn failure_of_the_first_repository_has_nothing_to_undo() {
    let (steps, on_disk, _) = drive(3, true, false, Some(0), &[]);
    assert_eq!(steps, vec![Step::Fetch { repo: 0 }, Step::Create { repo: 0 }, Step::Abort { failed: 0 }]);
    assert!(on_disk.is_empty());
}

#[test]
fn every_failure_point_leaves_all_or_nothing() {
    for n in 1..6 {
        for fetch_first in [false, true] {
            for probe in [false, true] {
                let (_, on_disk, run) = drive(n, fetch_first, probe, None, &[]);
                assert_eq!(on_disk.len(), n);
                assert_eq!(run.phase(), Phase::Provisioned);
                for fail_at in 0..n {
                    let (steps, on_disk, run) = drive(n, fetch_first, probe, Some(fail_at), &[]);
                    assert!(on_disk.is_empty(), "n={} fail_at={}", n, fail_at);
                    assert_eq!(run.phase(), Phase::RolledBack);
                    assert_eq!(steps.last(), Some(&Step::Abort { failed: fail_at }));
                    assert!(!steps.contains(&Step::Persist));
                }
            }
        }
    }
}

#[test]
fn failed_removals_are_reported_as_stranded() {
    let (steps, on_disk, run) = drive(4, false, false, Some(3), &[1]);
    assert_eq!(
        steps[4..],
        [Step::Remove { repo: 2 }, Step::Remove { repo: 1 }, Step::Remove { repo: 0 }, Step::Abort { failed: 3 }]
    );
    assert_eq!(on_disk, vec![1]);
    assert_eq!(run.stranded(), vec![1]);
}

#[test]
fn probing_picks_the_strategy_per_repository() {
    let (steps, _, _) = drive(2, false, true, None, &[]);
    assert_eq!(
        steps,
        vec![
            Step::Probe { repo: 0 },
            Step::Create { repo: 0 },
            Step::Probe { repo: 1 },
            Step::CheckoutExisting { repo: 1 },
            Step::Persist,
        ]
    );
}

#[test]
fn a_probe_that_cannot_be_made_rolls_back() {
    let mut run = Provisioner::new(2, false, true);
    run.advance(Event::Probed { found: Some(false) });
    run.advance(Event::Added { ok: true });
    assert_eq!(run.pending(), Step::Probe { repo: 1 });
    run.advance(Event::Probed { found: None });
    assert_eq!(run.pending(), Step::Remove { repo: 0 });
    run.advance(Event::Removed { ok: true });
    assert_eq!(run.pending(), Step::Abort { failed: 1 });
}

#[test]
fn fetch_failure_is_not_fatal_and_stray_reports_change_nothing() {
    let mut run = Provisioner::new(1, true, false);
    assert_eq!(run.pending(), Step::Fetch { repo: 0 });
    run.advance(Event::Added { ok: true });
    run.advance(Event::Removed { ok: true });
    assert_eq!(run.pending(), Step::Fetch { repo: 0 });
    run.advance(Event::Fetched { ok: false });
    assert_eq!(run.pending(), Step::Create { repo: 0 });
    run.advance(Event::Added { ok: true });
    assert_eq!(run.pending(), Step::Persist);
    run.advance(Event::Added { ok: false });
    assert_eq!(run.pending(), Step::Persist);
}

#[test]
fn an_empty_selection_has_nothing_to_provision() {
    let run = Provisioner::new(0, true, true);
    assert!(run.is_finished());
    assert_eq!(run.pending(), Step::Persist);
}
