use rusty_autossh::clock::{ClockFlags, EnvSnapshot, PollClock, Span};

fn env_with(pairs: &[(&str, &str)]) -> EnvSnapshot {
    let mut env = EnvSnapshot::new();
    for (k, v) in pairs {
        env.insert((*k).to_string(), (*v).to_string());
    }
    env
}

#[test]
fn defaults_match_spec() {
    let env = EnvSnapshot::new();
    let clock = PollClock::resolve_from_env(&env);
    assert_eq!(clock.poll, Span::from_secs(600));
    assert_eq!(clock.first_poll, Span::from_secs(600));
    assert_eq!(clock.gate_time, Span::from_secs(30));
    assert_eq!(clock.max_start, None);
    assert_eq!(clock.max_lifetime, None);
}

#[test]
fn env_only_poll_and_gate_time() {
    let env = env_with(&[("AUTOSSH_POLL", "120"), ("AUTOSSH_GATETIME", "15")]);
    let clock = PollClock::resolve_from_env(&env);
    assert_eq!(clock.poll, Span::from_secs(120));
    assert_eq!(clock.first_poll, Span::from_secs(120));
    assert_eq!(clock.gate_time, Span::from_secs(15));
}

#[test]
fn flag_wins_over_env_for_poll() {
    let env = env_with(&[("AUTOSSH_POLL", "60")]);
    let flags = ClockFlags { poll: Some(Span::from_secs(30)), ..ClockFlags::default() };
    let clock = PollClock::resolve_from_env_and_flags(&env, &flags, false);
    assert_eq!(clock.poll, Span::from_secs(30));
}

#[test]
fn max_start_negative_one_is_unlimited_sentinel() {
    let env = env_with(&[("AUTOSSH_MAXSTART", "-1")]);
    let clock = PollClock::resolve_from_env(&env);
    assert_eq!(clock.max_start, None);
}

#[test]
fn max_start_positive_caps_retries() {
    let env = env_with(&[("AUTOSSH_MAXSTART", "3")]);
    let clock = PollClock::resolve_from_env(&env);
    assert_eq!(clock.max_start, Some(3));
}

#[test]
fn max_lifetime_zero_is_unlimited_sentinel() {
    let env = env_with(&[("AUTOSSH_MAXLIFETIME", "0")]);
    let clock = PollClock::resolve_from_env(&env);
    assert_eq!(clock.max_lifetime, None);
}

#[test]
fn max_lifetime_flag_zero_encoded_as_none() {
    let env = EnvSnapshot::new();
    let flags = ClockFlags { max_lifetime: Some(None), ..ClockFlags::default() };
    let clock = PollClock::resolve_from_env_and_flags(&env, &flags, false);
    assert_eq!(clock.max_lifetime, None);
}

#[test]
fn dash_f_forces_gate_time_zero_overrides_env() {
    let env = env_with(&[("AUTOSSH_GATETIME", "99")]);
    let clock = PollClock::resolve_from_env_and_flags(&env, &ClockFlags::default(), true);
    assert_eq!(clock.gate_time, Span::zero());
}

#[test]
fn dash_f_forces_gate_time_zero_overrides_flag() {
    let env = EnvSnapshot::new();
    let flags = ClockFlags { gate_time: Some(Span::from_secs(99)), ..ClockFlags::default() };
    let clock = PollClock::resolve_from_env_and_flags(&env, &flags, true);
    assert_eq!(clock.gate_time, Span::zero());
}

#[test]
fn dash_f_forces_gatetime_zero_default_mode() {
    let env = env_with(&[("AUTOSSH_GATETIME", "99")]);
    let flags = ClockFlags { gate_time: Some(Span::from_secs(99)), ..ClockFlags::default() };
    let clock = PollClock::resolve_from_env_and_flags(&env, &flags, true);
    assert_eq!(clock.gate_time, Span::zero(), "default mode: -f overrides env + flag");
}

#[test]
fn dash_f_forces_gatetime_zero_strict_mode() {
    let env = env_with(&[("AUTOSSH_GATETIME", "99")]);
    let clock = PollClock::resolve_from_env_and_flags(&env, &ClockFlags::default(), true);
    assert_eq!(clock.gate_time, Span::zero(), "strict mode: -f overrides env");
}

#[test]
fn first_poll_env_overrides_poll_default() {
    let env = env_with(&[("AUTOSSH_POLL", "100"), ("AUTOSSH_FIRST_POLL", "5")]);
    let clock = PollClock::resolve_from_env(&env);
    assert_eq!(clock.poll, Span::from_secs(100));
    assert_eq!(clock.first_poll, Span::from_secs(5));
}

#[test]
fn malformed_values_fall_back_to_defaults() {
    let env = env_with(&[
        ("AUTOSSH_POLL", " 60"),
        ("AUTOSSH_GATETIME", "-3"),
        ("AUTOSSH_MAXSTART", "many"),
        ("AUTOSSH_MAXLIFETIME", "18446744073709551616"),
    ]);
    let clock = PollClock::resolve_from_env(&env);
    assert_eq!(clock.poll, Span::from_secs(600));
    assert_eq!(clock.gate_time, Span::from_secs(30));
    assert_eq!(clock.max_start, None);
    assert_eq!(clock.max_lifetime, None);
}

#[test]
fn numbers_accept_plus_sign_and_saturate_max_start() {
    let env = env_with(&[
        ("AUTOSSH_POLL", "+45"),
        ("AUTOSSH_MAXSTART", "4294967297"),
        ("AUTOSSH_MAXLIFETIME", "7200"),
    ]);
    let clock = PollClock::resolve_from_env(&env);
    assert_eq!(clock.poll, Span::from_secs(45));
    assert_eq!(clock.max_start, Some(u32::MAX));
    assert_eq!(clock.max_lifetime, Some(Span::from_secs(7200)));
}

#[test]
fn last_binding_of_a_name_counts() {
    let env = env_with(&[("AUTOSSH_POLL", "10"), ("AUTOSSH_POLL", "20")]);
    assert_eq!(env.get_str("AUTOSSH_POLL"), Some("20"));
    assert_eq!(PollClock::resolve_from_env(&env).poll, Span::from_secs(20));
}

#[test]
fn span_conversions_and_ordering() {
    let s = Span::from_millis(1500);
    assert_eq!(s.as_secs(), 1);
    assert_eq!(s.nanos_part(), 500_000_000);
    assert_eq!(Span::from_parts(1, 500_000_000), s);
    assert!(s.at_least(&Span::from_secs(1)));
    assert!(!s.at_least(&Span::from_secs(2)));
    assert!(Span::zero().at_least(&Span::zero()));
}

#[test]
fn max_start_above_u32_never_becomes_zero() {
    let clock = PollClock::resolve_from_env(&env_with(&[("AUTOSSH_MAXSTART", "4294967296")]));
    assert_eq!(clock.max_start, Some(u32::MAX));
    let clock = PollClock::resolve_from_env(&env_with(&[("AUTOSSH_MAXSTART", "4294967295")]));
    assert_eq!(clock.max_start, Some(u32::MAX));
}

#[test]
fn first_poll_follows_poll_flag() {
    let flags = ClockFlags { poll: Some(Span::from_secs(30)), ..ClockFlags::default() };
    let clock = PollClock::resolve_from_env_and_flags(&EnvSnapshot::new(), &flags, false);
    assert_eq!(clock.poll, Span::from_secs(30));
    assert_eq!(clock.first_poll, Span::from_secs(30));

    // An explicit first poll, from the environment or a flag, is kept.
    let env = env_with(&[("AUTOSSH_FIRST_POLL", "7")]);
    let clock = PollClock::resolve_from_env_and_flags(&env, &flags, false);
    assert_eq!(clock.first_poll, Span::from_secs(7));
    let both = ClockFlags { first_poll: Some(Span::from_secs(3)), ..flags };
    let clock = PollClock::resolve_from_env_and_flags(&env, &both, false);
    assert_eq!(clock.first_poll, Span::from_secs(3));
}
