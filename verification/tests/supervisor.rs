use rusty_autossh::clock::{PollClock, Span};
use rusty_autossh::supervisor::{
    ExitReason, LoopEvent, Notice, Op, Phase, ProbeTimer, RespawnDecision, Step, Supervisor,
};
use rusty_autossh::{AutosshError, CompatibilityMode, MonitorMode, SignalKind};

fn mk_supervisor(monitor_mode: MonitorMode) -> Supervisor {
    Supervisor {
        clock: PollClock::default(),
        mode: CompatibilityMode::Default,
        monitor_mode,
        ssh_path: "/bin/true".to_string(),
        ssh_args: Vec::new(),
        retry_count: 0,
        one_shot: false,
        has_monitor: false,
        has_child: false,
        phase: Phase::Ready,
    }
}

#[test]
fn clean_exit_in_monitor_none_terminates_supervisor() {
    let mut sup = mk_supervisor(MonitorMode::Disabled);
    let dec = sup.handle_child_exit(true, Span::from_secs(60));
    assert_eq!(dec, RespawnDecision::Exit(ExitReason::Clean));
}

#[test]
fn clean_exit_in_monitor_active_respawns_and_resets_counter() {
    let mut sup = mk_supervisor(MonitorMode::Active { port: 20000, echo: None });
    sup.retry_count = 5;
    let dec = sup.handle_child_exit(true, Span::from_secs(60));
    assert_eq!(dec, RespawnDecision::Respawn);
    assert_eq!(sup.retry_count, 0);
}

#[test]
fn short_lifetime_nonzero_exit_increments_counter() {
    let mut sup = mk_supervisor(MonitorMode::Disabled);
    sup.clock.gate_time = Span::from_secs(30);
    let dec = sup.handle_child_exit(false, Span::from_secs(1));
    assert_eq!(dec, RespawnDecision::Respawn);
    assert_eq!(sup.retry_count, 1);
}

#[test]
fn gate_exceeding_nonzero_exit_resets_counter() {
    let mut sup = mk_supervisor(MonitorMode::Disabled);
    sup.clock.gate_time = Span::from_secs(30);
    sup.retry_count = 4;
    let dec = sup.handle_child_exit(false, Span::from_secs(60));
    assert_eq!(dec, RespawnDecision::Respawn);
    assert_eq!(sup.retry_count, 0);
}

#[test]
fn max_start_cap_returns_max_start_reached() {
    let mut sup = mk_supervisor(MonitorMode::Disabled);
    sup.clock.gate_time = Span::from_secs(30);
    sup.clock.max_start = Some(3);
    sup.retry_count = 2;
    let dec = sup.handle_child_exit(false, Span::from_secs(1));
    assert_eq!(dec, RespawnDecision::Exit(ExitReason::MaxStartReached { attempts: 3 }));
}

#[test]
fn one_shot_first_failure_exits() {
    let mut sup = mk_supervisor(MonitorMode::Disabled);
    sup.one_shot = true;
    let dec = sup.handle_child_exit(false, Span::from_secs(1));
    assert_eq!(dec, RespawnDecision::Exit(ExitReason::OneShotFailed));
}

#[test]
fn check_lifetime_returns_none_when_no_cap() {
    let sup = mk_supervisor(MonitorMode::Disabled);
    assert!(sup.check_lifetime(Span::from_secs(1_000_000)).is_none());
}

#[test]
fn check_lifetime_returns_exit_when_deadline_passed() {
    let mut sup = mk_supervisor(MonitorMode::Disabled);
    sup.clock.max_lifetime = Some(Span::from_millis(1));
    let dec = sup.check_lifetime(Span::from_secs(10)).expect("deadline passed");
    assert_eq!(dec, RespawnDecision::Exit(ExitReason::MaxLifetimeReached));
}

#[test]
fn sigterm_sigint_map_to_clean_exit_decision() {
    let dec = RespawnDecision::Exit(ExitReason::Clean);
    assert_eq!(dec, RespawnDecision::Exit(ExitReason::Clean));
}

fn waiting(sup: &mut Supervisor) {
    assert!(matches!(sup.step(LoopEvent::Start).op, Op::Spawn));
    let s = sup.step(LoopEvent::Spawned);
    assert_eq!(s.notices, vec![Notice::ChildSpawned]);
    assert!(matches!(s.op, Op::CheckLifetime));
    assert!(matches!(sup.step(LoopEvent::Elapsed(Span::zero())).op, Op::Wait));
}

#[test]
fn sighup_resets_retry_counter_to_zero() {
    let mut sup = mk_supervisor(MonitorMode::Disabled);
    sup.clock.max_start = Some(3);
    waiting(&mut sup);
    sup.retry_count = 2;
    let s = sup.step(LoopEvent::Signal(SignalKind::Hangup));
    assert_eq!(s.notices, vec![Notice::SignalReceived(SignalKind::Hangup)]);
    assert!(matches!(s.op, Op::Terminate));
    assert_eq!(sup.retry_count, 0, "SIGHUP must reset retry_count to 0");
    let s = sup.step(LoopEvent::Terminated { status: Some(false), lifetime: Span::from_secs(1) });
    assert!(matches!(s.op, Op::Spawn));
    let s = sup.step(LoopEvent::Spawned);
    assert_eq!(s.notices, vec![Notice::ChildSpawned, Notice::ChildRespawned]);
}

#[test]
fn sigusr1_leaves_retry_counter_unchanged() {
    let mut sup = mk_supervisor(MonitorMode::Disabled);
    waiting(&mut sup);
    sup.retry_count = 2;
    let s = sup.step(LoopEvent::Signal(SignalKind::UserDefined1));
    assert!(matches!(s.op, Op::Terminate));
    let s = sup.step(LoopEvent::Terminated { status: Some(true), lifetime: Span::from_secs(1) });
    assert!(matches!(s.op, Op::Spawn));
    assert_eq!(sup.retry_count, 2, "SIGUSR1 must NOT change retry_count");
}

#[test]
fn sigterm_terminates_and_exits_cleanly() {
    for k in [SignalKind::Terminate, SignalKind::Interrupt, SignalKind::CtrlBreak] {
        let mut sup = mk_supervisor(MonitorMode::Disabled);
        waiting(&mut sup);
        assert!(matches!(sup.step(LoopEvent::Signal(k)).op, Op::Terminate));
        let s = sup.step(LoopEvent::TerminateFailed(std::io::Error::other("gone")));
        assert!(matches!(s.op, Op::Finish(Ok(()))));
        assert_eq!(sup.phase, Phase::Done);
    }
}

#[test]
fn retries_until_max_start_with_gate_backoff() {
    let mut sup = mk_supervisor(MonitorMode::Disabled);
    sup.clock.max_start = Some(2);
    sup.clock.gate_time = Span::from_secs(3);
    waiting(&mut sup);
    let s = sup.step(LoopEvent::ChildExited { success: false, lifetime: Span::from_secs(1) });
    assert_eq!(s.notices, vec![Notice::ChildExited]);
    match s.op {
        Op::Sleep(d) => assert_eq!(d, Span::from_secs(3)),
        other => panic!("expected back-off, got {other:?}"),
    }
    assert!(matches!(sup.step(LoopEvent::Slept).op, Op::Spawn));
    let s = sup.step(LoopEvent::Spawned);
    assert_eq!(s.notices, vec![Notice::ChildSpawned, Notice::ChildRespawned]);
    assert!(matches!(sup.step(LoopEvent::Elapsed(Span::from_secs(5))).op, Op::Wait));
    let s: Step = sup.step(LoopEvent::ChildExited { success: false, lifetime: Span::from_secs(1) });
    assert_eq!(s.notices, vec![Notice::ChildExited, Notice::MaxStartReached { attempts: 2 }]);
    assert!(matches!(s.op, Op::Finish(Err(AutosshError::MaxStartReached { attempts: 2 }))));
}

#[test]
fn clean_exit_without_monitor_finishes_ok() {
    let mut sup = mk_supervisor(MonitorMode::Disabled);
    waiting(&mut sup);
    let s = sup.step(LoopEvent::ChildExited { success: true, lifetime: Span::from_secs(1) });
    assert!(matches!(s.op, Op::Finish(Ok(()))));
}

#[test]
fn one_shot_failure_finishes_with_error() {
    let mut sup = mk_supervisor(MonitorMode::Disabled);
    sup.one_shot = true;
    waiting(&mut sup);
    let s = sup.step(LoopEvent::ChildExited { success: false, lifetime: Span::from_secs(100) });
    assert!(matches!(s.op, Op::Finish(Err(AutosshError::MaxStartReached { attempts: 1 }))));
}

#[test]
fn lifetime_cap_terminates_then_finishes_ok() {
    let mut sup = mk_supervisor(MonitorMode::Disabled);
    sup.clock.max_lifetime = Some(Span::from_secs(10));
    waiting(&mut sup);
    assert!(matches!(sup.step(LoopEvent::ChildExited { success: false, lifetime: Span::from_secs(100) }).op, Op::Sleep(_)));
    assert!(matches!(sup.step(LoopEvent::Slept).op, Op::Spawn));
    sup.step(LoopEvent::Spawned);
    let s = sup.step(LoopEvent::Elapsed(Span::from_secs(10)));
    assert_eq!(s.notices, vec![Notice::MaxLifetimeReached]);
    assert!(matches!(s.op, Op::Terminate));
    let s = sup.step(LoopEvent::Terminated { status: Some(false), lifetime: Span::from_secs(1) });
    assert!(matches!(s.op, Op::Finish(Ok(()))));
}

#[test]
fn monitored_run_arms_and_rearms_probe_timer() {
    let mut sup = mk_supervisor(MonitorMode::Active { port: 20000, echo: None });
    sup.has_monitor = true;
    sup.clock.first_poll = Span::from_secs(5);
    sup.clock.poll = Span::from_secs(60);
    sup.clock.gate_time = Span::zero();
    sup.step(LoopEvent::Start);
    let s = sup.step(LoopEvent::Spawned);
    assert_eq!(s.timer, ProbeTimer::ArmIn(Span::from_secs(5)));
    sup.step(LoopEvent::Elapsed(Span::zero()));
    let s = sup.step(LoopEvent::ProbeOk);
    assert_eq!(s.timer, ProbeTimer::ArmIn(Span::from_secs(60)));
    sup.step(LoopEvent::Elapsed(Span::zero()));
    let s = sup.step(LoopEvent::ProbeFailed);
    assert_eq!(s.notices, vec![Notice::ProbeTimeout]);
    assert!(matches!(s.op, Op::Terminate));
    let s = sup.step(LoopEvent::Terminated { status: Some(true), lifetime: Span::from_secs(1) });
    assert_eq!(s.notices, vec![Notice::ChildExited]);
    assert!(matches!(s.op, Op::Sleep(_)));
    assert_eq!(sup.retry_count, 0, "gate time zero: the probe failure is long-lived");
    sup.step(LoopEvent::Slept);
    let s = sup.step(LoopEvent::Spawned);
    assert_eq!(s.timer, ProbeTimer::ArmIn(Span::from_secs(5)));
}

#[test]
fn unexpected_event_ends_run_with_internal_error() {
    let mut sup = mk_supervisor(MonitorMode::Disabled);
    let s = sup.step(LoopEvent::ProbeOk);
    assert!(matches!(s.op, Op::Finish(Err(AutosshError::Internal(_)))));
}

#[test]
fn spawn_failure_ends_run_with_io_error() {
    let mut sup = mk_supervisor(MonitorMode::Disabled);
    sup.step(LoopEvent::Start);
    let s = sup.step(LoopEvent::SpawnFailed(std::io::Error::other("no such file")));
    assert!(matches!(s.op, Op::Finish(Err(AutosshError::Io(_)))));
}

#[test]
fn spawn_args_inject_monitor_forwards() {
    let mut sup = mk_supervisor(MonitorMode::Active { port: 20000, echo: Some(22) });
    sup.ssh_args = vec!["user@host".to_string()];
    assert_eq!(sup.spawn_args(), vec!["-L".to_string(), "20000:127.0.0.1:22".to_string(), "user@host".to_string()]);
}

#[test]
fn one_shot_probe_failure_finishes_with_error() {
    let mut sup = mk_supervisor(MonitorMode::Active { port: 20000, echo: None });
    sup.has_monitor = true;
    sup.one_shot = true;
    waiting(&mut sup);
    assert!(matches!(sup.step(LoopEvent::ProbeFailed).op, Op::Terminate));
    let s = sup.step(LoopEvent::Terminated { status: Some(true), lifetime: Span::from_secs(100) });
    assert_eq!(s.notices, vec![Notice::ChildExited]);
    assert!(matches!(s.op, Op::Finish(Err(AutosshError::MaxStartReached { attempts: 1 }))));
}

/// Feeds events in order and collects the child notices.
fn child_notices(sup: &mut Supervisor, events: Vec<LoopEvent>) -> Vec<Notice> {
    let mut out = Vec::new();
    for e in events {
        for n in sup.step(e).notices {
            if n == Notice::ChildSpawned || n == Notice::ChildExited {
                out.push(n);
            }
        }
    }
    out
}

#[test]
fn signal_respawn_announces_exit_before_new_spawn() {
    for k in [SignalKind::UserDefined1, SignalKind::Hangup] {
        let mut sup = mk_supervisor(MonitorMode::Disabled);
        let ns = child_notices(
            &mut sup,
            vec![
                LoopEvent::Start,
                LoopEvent::Spawned,
                LoopEvent::Elapsed(Span::zero()),
                LoopEvent::Signal(k),
                LoopEvent::Terminated { status: Some(false), lifetime: Span::from_secs(3) },
                LoopEvent::Spawned,
            ],
        );
        assert_eq!(ns, vec![Notice::ChildSpawned, Notice::ChildExited, Notice::ChildSpawned]);
    }
}

#[test]
fn no_concurrent_ssh_children_in_notices() {
    let mut sup = mk_supervisor(MonitorMode::Active { port: 20000, echo: None });
    sup.has_monitor = true;
    sup.clock.gate_time = Span::from_secs(1);
    let ns = child_notices(
        &mut sup,
        vec![
            LoopEvent::Start,
            LoopEvent::Spawned,
            LoopEvent::Elapsed(Span::zero()),
            LoopEvent::ProbeFailed,
            LoopEvent::Terminated { status: Some(false), lifetime: Span::from_secs(5) },
            LoopEvent::Slept,
            LoopEvent::Spawned,
            LoopEvent::Elapsed(Span::zero()),
            LoopEvent::Signal(SignalKind::UserDefined1),
            LoopEvent::TerminateFailed(std::io::Error::other("gone")),
            LoopEvent::Spawned,
            LoopEvent::Elapsed(Span::zero()),
            LoopEvent::ChildExited { success: false, lifetime: Span::from_secs(5) },
            LoopEvent::Slept,
            LoopEvent::Spawned,
            LoopEvent::Elapsed(Span::zero()),
            LoopEvent::Signal(SignalKind::Terminate),
            LoopEvent::Terminated { status: Some(true), lifetime: Span::from_secs(1) },
        ],
    );
    let expected: Vec<Notice> =
        (0..8).map(|i| if i % 2 == 0 { Notice::ChildSpawned } else { Notice::ChildExited }).collect();
    assert_eq!(ns, expected);
    assert_eq!(sup.phase, Phase::Done);
}
