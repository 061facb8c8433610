use rusty_autossh::cli::parse_monitor_value;
use rusty_autossh::clock::{ClockFlags, EnvSnapshot, PollClock, Span};
use rusty_autossh::spawner::SshLookup;
use rusty_autossh::supervisor::{LoopEvent, Notice, Op, Supervisor};
use rusty_autossh::{AutosshError, MonitorMode, SshSupervisorBuilder};

/// The supervisor state for `-M <m>` with the given environment and
/// command-line clock flags, as the command-line program builds it.
fn supervisor_for(m: &str, env_pairs: &[(&str, &str)], flags: ClockFlags) -> Supervisor {
    let mut env = EnvSnapshot::new();
    for (k, v) in env_pairs {
        env.insert((*k).to_string(), (*v).to_string());
    }
    let mode = parse_monitor_value(Some(m)).expect("valid -M value");
    let clock = PollClock::resolve_from_env_and_flags(&env, &flags, false);
    let sup = SshSupervisorBuilder::<()>::new()
        .monitor_mode(mode)
        .poll(clock.poll)
        .first_poll(clock.first_poll)
        .gate_time(clock.gate_time)
        .max_start(clock.max_start)
        .max_lifetime(clock.max_lifetime)
        .ssh_path("/usr/libexec/echo_child".to_string())
        .build(&SshLookup { autossh_path: None, path_probes: None })
        .expect("the ssh binary is set");
    sup.initial_state(None)
}

/// Feeds one child lifetime ending with `success`, from the spawn request
/// on; returns the step that answers the exit.
fn one_child(sup: &mut Supervisor, success: bool, lifetime: Span) -> rusty_autossh::supervisor::Step {
    assert!(matches!(sup.step(LoopEvent::Spawned).op, Op::CheckLifetime));
    assert!(matches!(sup.step(LoopEvent::Elapsed(Span::zero())).op, Op::Wait));
    sup.step(LoopEvent::ChildExited { success, lifetime })
}

fn exit_status(op: &Op) -> Option<u8> {
    match op {
        Op::Finish(Ok(())) => Some(0),
        Op::Finish(Err(e)) => Some(e.exit_code()),
        _ => None,
    }
}

#[test]
fn dash_M_zero_with_clean_exit_returns_zero() {
    let flags = ClockFlags { gate_time: Some(Span::from_secs(1)), ..ClockFlags::default() };
    let mut sup = supervisor_for("0", &[], flags);
    assert_eq!(sup.monitor_mode, MonitorMode::Disabled);
    assert!(matches!(sup.step(LoopEvent::Start).op, Op::Spawn));
    let s = one_child(&mut sup, true, Span::from_millis(20));
    assert_eq!(exit_status(&s.op), Some(0));
}

#[test]
fn env_max_start_three_ends_run_after_three_short_failures() {
    let mut sup = supervisor_for("0", &[("AUTOSSH_MAXSTART", "3"), ("AUTOSSH_GATETIME", "1")], ClockFlags::default());
    assert!(matches!(sup.step(LoopEvent::Start).op, Op::Spawn));
    for _ in 0..2 {
        let s = one_child(&mut sup, false, Span::from_millis(20));
        assert!(matches!(s.op, Op::Sleep(d) if d == Span::from_secs(1)));
        assert!(matches!(sup.step(LoopEvent::Slept).op, Op::Spawn));
    }
    let s = one_child(&mut sup, false, Span::from_millis(20));
    assert_eq!(s.notices, vec![Notice::ChildExited, Notice::MaxStartReached { attempts: 3 }]);
    assert!(matches!(s.op, Op::Finish(Err(AutosshError::MaxStartReached { attempts: 3 }))));
    assert_eq!(exit_status(&s.op), Some(1));
}

#[test]
fn env_max_start_minus_one_never_caps() {
    let mut sup = supervisor_for("0", &[("AUTOSSH_MAXSTART", "-1"), ("AUTOSSH_GATETIME", "1")], ClockFlags::default());
    assert!(matches!(sup.step(LoopEvent::Start).op, Op::Spawn));
    for _ in 0..50 {
        let s = one_child(&mut sup, false, Span::from_millis(20));
        assert_eq!(s.notices, vec![Notice::ChildExited]);
        assert!(matches!(s.op, Op::Sleep(_)));
        assert!(matches!(sup.step(LoopEvent::Slept).op, Op::Spawn));
    }
    assert_eq!(sup.retry_count, 50);
}
