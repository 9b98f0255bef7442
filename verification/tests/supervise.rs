use sesh::supervise::{KillEvent, KillStep, KillSupervisor, GRACE_MILLIS, POLL_MILLIS};

/// Runs the supervisor against processes that die after the given number
/// of milliseconds (`None`: only a kill ends them). Returns the steps, and
/// the simulated time at which each process went away.
fn drive(pids: &[u32], dies_after: &[Option<u64>]) -> (Vec<KillStep>, Vec<Option<u64>>) {
    let mut run = KillSupervisor::new(pids.to_vec());
    let mut steps = Vec::new();
    let mut clock: u64 = 0;
    let mut gone: Vec<Option<u64>> = vec![None; pids.len()];
    let mut signalled = vec![false; pids.len()];
    let index = |pid: u32| pids.iter().position(|p| *p == pid).unwrap();
    let mut guard = 0;
    while !run.is_done() {
        guard += 1;
        assert!(guard < 10_000);
        let step = run.pending();
        steps.push(step);
        let event = match step {
            KillStep::Terminate { pid } => {
                signalled[index(pid)] = true;
                KillEvent::Signalled
            }
            KillStep::Probe { pid } => {
                let i = index(pid);
                if gone[i].is_none() {
                    if let Some(after) = dies_after[i] {
                        if signalled[i] && clock >= after {
                            gone[i] = Some(clock);
                        }
                    }
                }
                KillEvent::Probed { alive: gone[i].is_none() }
            }
            KillStep::ReadClock => KillEvent::Clock { elapsed_millis: clock },
            KillStep::Sleep { millis } => {
                clock += millis;
                KillEvent::Slept
            }
            KillStep::Kill { pid } => {
                gone[index(pid)] = Some(clock);
                KillEvent::Signalled
            }
            KillStep::Finish => unreachable!(),
        };
        run.advance(event);
    }
    assert_eq!(run.pending(), KillStep::Finish);
    (steps, gone)
}

#[test]
fn the_limits_are_five_seconds_and_a_fifth() {
    assert_eq!(GRACE_MILLIS, 5000);
    assert_eq!(POLL_MILLIS, 200);
}

#[test]
fn prompt_exit_needs_neither_wait_nor_kill() {
    let (steps, gone) = drive(&[10, 11], &[Some(0), Some(0)]);
    assert_eq!(
        steps,
        vec![
            KillStep::Terminate { pid: 10 },
            KillStep::Terminate { pid: 11 },
            KillStep::Probe { pid: 10 },
            KillStep::Probe { pid: 11 },
            KillStep::Probe { pid: 10 },
            KillStep::Probe { pid: 11 },
        ]
    );
    assert!(gone.iter().all(|g| g.is_some()));
}

#[test]
fn slow_exit_is_waited_for_without_a_kill() {
    let (steps, gone) = drive(&[10, 11], &[Some(0), Some(500)]);
    assert!(!steps.iter().any(|s| matches!(s, KillStep::Kill { .. })));
    assert_eq!(steps.iter().filter(|s| matches!(s, KillStep::Sleep { .. })).count(), 3);
    assert_eq!(gone[1], Some(600));
    assert!(gone[1].unwrap() < GRACE_MILLIS);
}

#[test]
fn a_process_that_ignores_the_signal_is_killed_at_the_deadline() {
    let (steps, gone) = drive(&[10, 11, 12], &[Some(0), None, Some(200)]);
    let kills: Vec<&KillStep> = steps.iter().filter(|s| matches!(s, KillStep::Kill { .. })).collect();
    assert_eq!(kills, vec![&KillStep::Kill { pid: 11 }]);
    assert_eq!(gone[1], Some(GRACE_MILLIS));
    assert_eq!(steps.iter().filter(|s| matches!(s, KillStep::Sleep { .. })).count(), 25);
    // Every process was asked to terminate first.
    assert_eq!(
        steps[..3],
        [KillStep::Terminate { pid: 10 }, KillStep::Terminate { pid: 11 }, KillStep::Terminate { pid: 12 }]
    );
    assert!(gone.iter().all(|g| g.is_some()));
}

#[test]
fn every_survivor_is_killed() {
    let (steps, gone) = drive(&[1, 2, 3], &[None, None, None]);
    let kills: Vec<&KillStep> = steps.iter().filter(|s| matches!(s, KillStep::Kill { .. })).collect();
    assert_eq!(
        kills,
        vec![&KillStep::Kill { pid: 1 }, &KillStep::Kill { pid: 2 }, &KillStep::Kill { pid: 3 }]
    );
    assert!(gone.iter().all(|g| *g == Some(GRACE_MILLIS)));
}

#[test]
fn polling_stops_at_the_first_live_process() {
    let mut run = KillSupervisor::new(vec![7, 8]);
    run.advance(KillEvent::Signalled);
    run.advance(KillEvent::Signalled);
    assert_eq!(run.pending(), KillStep::Probe { pid: 7 });
    run.advance(KillEvent::Probed { alive: true });
    assert_eq!(run.pending(), KillStep::ReadClock);
    run.advance(KillEvent::Clock { elapsed_millis: 4999 });
    assert_eq!(run.pending(), KillStep::Sleep { millis: 200 });
    run.advance(KillEvent::Slept);
    assert_eq!(run.pending(), KillStep::Probe { pid: 7 });
    run.advance(KillEvent::Probed { alive: true });
    run.advance(KillEvent::Clock { elapsed_millis: 5000 });
    assert_eq!(run.pending(), KillStep::Probe { pid: 7 });
    run.advance(KillEvent::Probed { alive: false });
    assert_eq!(run.pending(), KillStep::Probe { pid: 8 });
    run.advance(KillEvent::Probed { alive: true });
    assert_eq!(run.pending(), KillStep::Kill { pid: 8 });
    run.advance(KillEvent::Signalled);
    assert!(run.is_done());
}

#[test]
fn nothing_to_stop() {
    let run = KillSupervisor::new(vec![]);
    assert!(run.is_done());
    assert_eq!(run.pending(), KillStep::Finish);
}
