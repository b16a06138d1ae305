use midair_proto::supervise::{Phase, Stall, Supervisor, Task, Verdict, MONITOR_PERIOD_MS, WDT_TIMEOUT_MS};

#[test]
fn a_fresh_supervisor_is_alive() {
    let s = Supervisor::new(1_000);
    assert_eq!(s.check(1_000), Verdict::Alive);
    assert_eq!(s.check(1_000 + Task::Loop.bound_ms() as u64), Verdict::Alive);
}

#[test]
fn a_task_past_its_bound_is_a_stall_naming_its_phase() {
    let mut s = Supervisor::new(0);
    s.beat(Task::Loop, Phase::TxSend, 10_000);
    s.beat(Task::Serve, Phase::Advertise, 10_000);
    let at = 10_000 + Task::Loop.bound_ms() as u64 + 1;
    // The serve bound is longer, so only the loop is out.
    assert_eq!(
        s.check(at),
        Verdict::Stalled(Stall {
            task: Task::Loop,
            phase: Phase::TxSend,
            silent_ms: Task::Loop.bound_ms() + 1,
        })
    );
    s.beat(Task::Loop, Phase::Receive, at);
    assert_eq!(s.check(at), Verdict::Alive);
}

#[test]
fn the_first_task_in_order_is_the_one_reported() {
    let mut s = Supervisor::new(0);
    // Both long gone: the loop is named, the serve loop is its victim.
    let at = Task::Serve.bound_ms() as u64 * 2;
    match s.check(at) {
        Verdict::Stalled(stall) => assert_eq!(stall.task, Task::Loop),
        v => panic!("{v:?}"),
    }
    s.beat(Task::Loop, Phase::Receive, at);
    match s.check(at) {
        Verdict::Stalled(stall) => assert_eq!(stall.task, Task::Serve),
        v => panic!("{v:?}"),
    }
}

#[test]
fn the_watchdog_outlasts_every_bound_and_a_period() {
    for task in Task::ALL {
        assert!(task.bound_ms() + 2 * MONITOR_PERIOD_MS < WDT_TIMEOUT_MS);
    }
}

#[test]
fn tasks_and_phases_round_trip_the_wire() {
    for task in Task::ALL {
        assert_eq!(Task::from_wire(task.as_wire()), Some(task));
    }
    assert_eq!(Task::from_wire(0), None);
    for v in 0..=u8::MAX {
        if let Some(p) = Phase::from_wire(v) {
            assert_eq!(p.as_wire(), v);
            assert!(!p.as_str().is_empty());
        }
    }
    assert_eq!(Phase::from_wire(Phase::Sleep.as_wire() + 1), None);
}

/// A beat is read back, and the silence is counted from it.
#[test]
fn silence_is_counted_from_the_last_beat() {
    let mut s = Supervisor::new(100);
    s.beat(Task::Serve, Phase::Advertise, 1_000);
    assert_eq!(s.phase(Task::Serve), Phase::Advertise);
    assert_eq!(s.silent_ms(Task::Serve, 1_250), 250);
    assert_eq!(s.silent_ms(Task::Loop, 1_250), 1_150);
    assert_eq!(s.silent_ms(Task::Serve, 900), 0);
    assert_eq!(s.silent_ms(Task::Serve, u64::MAX), u32::MAX);
}
