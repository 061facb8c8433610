use rusty_autossh::cli::{
    apply_dash_f_overrides, is_autossh_known_flag, logfile_path_from_cli_or_env, monitor_value_from_cli_or_env,
    parse_monitor_value, pidfile_path_from_cli_or_env, split_autossh_args, Cli,
};
use rusty_autossh::clock::{EnvSnapshot, PollClock, Span};
use rusty_autossh::MonitorMode;

fn strings(items: &[&str]) -> Vec<String> {
    items.iter().map(|s| s.to_string()).collect()
}

#[test]
fn split_separator_dash_dash() {
    let argv = strings(&["-M", "20000", "--", "--strict", "user@host"]);
    let (a, s) = split_autossh_args(&argv);
    assert_eq!(a, vec!["-M".to_string(), "20000".to_string()]);
    assert_eq!(s, vec!["--strict".to_string(), "user@host".to_string()]);
}

#[test]
fn split_first_unrecognized_starts_ssh_args() {
    let argv = strings(&["-f", "user@host", "-L", "8080:localhost:80"]);
    let (a, s) = split_autossh_args(&argv);
    assert_eq!(a, vec!["-f".to_string()]);
    assert_eq!(
        s,
        vec!["user@host".to_string(), "-L".to_string(), "8080:localhost:80".to_string()]
    );
}

#[test]
fn apply_dash_f_zeros_gate_time() {
    let mut clock = PollClock::default();
    apply_dash_f_overrides(&mut clock, true);
    assert_eq!(clock.gate_time, Span::zero());
}

#[test]
fn apply_dash_f_absent_keeps_gate_time() {
    let mut clock = PollClock::default();
    apply_dash_f_overrides(&mut clock, false);
    assert_eq!(clock.gate_time, Span::from_secs(30));
}

#[test]
fn split_inline_and_equals_forms_stay_with_supervisor() {
    let argv = strings(&["-M20000", "--poll=30", "--max-start", "-1", "host", "-f"]);
    let (a, s) = split_autossh_args(&argv);
    assert_eq!(a, strings(&["-M20000", "--poll=30", "--max-start", "-1"]));
    assert_eq!(s, strings(&["host", "-f"]));
}

#[test]
fn split_value_flag_at_end_keeps_flag_alone() {
    let argv = strings(&["-f", "--poll"]);
    let (a, s) = split_autossh_args(&argv);
    assert_eq!(a, strings(&["-f", "--poll"]));
    assert!(s.is_empty());
}

#[test]
fn known_flag_recognition() {
    assert!(is_autossh_known_flag("--no-strict"));
    assert!(is_autossh_known_flag("--log-level=debug"));
    assert!(is_autossh_known_flag("-M0"));
    assert!(!is_autossh_known_flag("-L"));
    assert!(!is_autossh_known_flag("--color"));
}

#[test]
fn monitor_value_parses_port_and_echo() {
    assert_eq!(parse_monitor_value(None).unwrap(), MonitorMode::Disabled);
    assert_eq!(parse_monitor_value(Some("0")).unwrap(), MonitorMode::Disabled);
    assert_eq!(
        parse_monitor_value(Some("20000")).unwrap(),
        MonitorMode::Active { port: 20000, echo: None }
    );
    assert_eq!(
        parse_monitor_value(Some("20000:22")).unwrap(),
        MonitorMode::Active { port: 20000, echo: Some(22) }
    );
    assert_eq!(parse_monitor_value(Some("0:22")).unwrap(), MonitorMode::Disabled);
    assert_eq!(
        parse_monitor_value(Some("+7")).unwrap(),
        MonitorMode::Active { port: 7, echo: None }
    );
}

#[test]
fn monitor_value_errors_name_the_bad_number() {
    assert_eq!(parse_monitor_value(Some("70000")).unwrap_err(), "invalid -M port '70000'");
    assert_eq!(parse_monitor_value(Some("x:22")).unwrap_err(), "invalid -M port 'x'");
    assert_eq!(parse_monitor_value(Some("20000:")).unwrap_err(), "invalid -M echo ''");
    assert_eq!(parse_monitor_value(Some("20000:1:2")).unwrap_err(), "invalid -M echo '1:2'");
}

fn empty_cli() -> Cli {
    Cli {
        monitor: None,
        background: false,
        print_version: None,
        one_shot: false,
        poll: None,
        first_poll: None,
        gate_time: None,
        max_start: None,
        max_lifetime: None,
        ssh_path: None,
        pid_file: None,
        log_file: None,
        debug: false,
        log_level: None,
        strict: false,
        no_strict: false,
        command: None,
        ssh_args: Vec::new(),
    }
}

#[test]
fn cli_clock_flags_encode_sentinels() {
    let mut cli = empty_cli();
    cli.poll = Some(45);
    cli.max_start = Some(-1);
    cli.max_lifetime = Some(0);
    let f = cli.clock_flags();
    assert_eq!(f.poll, Some(Span::from_secs(45)));
    assert_eq!(f.first_poll, None);
    assert_eq!(f.max_start, Some(None));
    assert_eq!(f.max_lifetime, Some(None));

    cli.max_start = Some(4_294_967_298);
    cli.max_lifetime = Some(90);
    let f = cli.clock_flags();
    assert_eq!(f.max_start, Some(Some(u32::MAX)));
    assert_eq!(f.max_lifetime, Some(Some(Span::from_secs(90))));
}

#[test]
fn file_paths_prefer_cli_over_env() {
    let mut env = EnvSnapshot::new();
    env.insert("AUTOSSH_PIDFILE".to_string(), "/run/env.pid".to_string());
    env.insert("AUTOSSH_LOGFILE".to_string(), "/var/log/env.log".to_string());
    assert_eq!(
        pidfile_path_from_cli_or_env(&Some("/tmp/cli.pid".to_string()), &env),
        Some("/tmp/cli.pid".to_string())
    );
    assert_eq!(pidfile_path_from_cli_or_env(&None, &env), Some("/run/env.pid".to_string()));
    assert_eq!(logfile_path_from_cli_or_env(&None, &env), Some("/var/log/env.log".to_string()));
    assert_eq!(logfile_path_from_cli_or_env(&None, &EnvSnapshot::new()), None);
}

#[test]
fn autossh_port_overrides_dash_m() {
    let mut env = EnvSnapshot::new();
    assert_eq!(monitor_value_from_cli_or_env(&Some("20000".to_string()), &env), Some("20000".to_string()));
    assert_eq!(monitor_value_from_cli_or_env(&None, &env), None);
    env.insert("AUTOSSH_PORT".to_string(), "30000:22".to_string());
    let v = monitor_value_from_cli_or_env(&Some("20000".to_string()), &env);
    assert_eq!(v, Some("30000:22".to_string()));
    assert_eq!(parse_monitor_value(v.as_deref()), Ok(MonitorMode::Active { port: 30000, echo: Some(22) }));
    assert_eq!(monitor_value_from_cli_or_env(&None, &env), Some("30000:22".to_string()));
}

#[test]
fn split_groups_flags_with_their_values() {
    let (a, s) = split_autossh_args(&strings(&["--poll", "--", "-f", "--max-start", "3", "host", "-f"]));
    assert_eq!(a, strings(&["--poll", "--", "-f", "--max-start", "3"]));
    assert_eq!(s, strings(&["host", "-f"]));
}
