use rusty_autossh::clock::EnvSnapshot;
use rusty_autossh::mode::resolve;
use rusty_autossh::strict::{parse_argv, ArgToken, StrictArgs};
use rusty_autossh::CompatibilityMode;

/// What the command line does before any process work: Default mode hands
/// the argv to the Default-mode parser; Strict mode either parses it or
/// rejects it with the stderr line that is printed before exiting 1.
enum Dispatch {
    Default,
    StrictParsed(StrictArgs),
    StrictRejected(String),
}

fn dispatch(args: &[&str], env_pairs: &[(&str, &str)]) -> Dispatch {
    let mut env = EnvSnapshot::new();
    for (k, v) in env_pairs {
        env.insert((*k).to_string(), (*v).to_string());
    }
    let tokens: Vec<ArgToken> = args.iter().map(|a| ArgToken::unicode(a.to_string())).collect();
    match resolve(&tokens, &env, "/usr/local/bin/rusty-autossh", false) {
        CompatibilityMode::Strict => match parse_argv(&tokens) {
            Ok(p) => Dispatch::StrictParsed(p),
            Err(e) => Dispatch::StrictRejected(e.message()),
        },
        _ => Dispatch::Default,
    }
}

fn rejected_with(d: Dispatch, expected: &str) {
    match d {
        Dispatch::StrictRejected(line) => assert!(line.contains(expected), "stderr line {line:?}"),
        Dispatch::StrictParsed(_) => panic!("expected a Strict-mode rejection, the argv parsed"),
        Dispatch::Default => panic!("expected Strict mode, got Default"),
    }
}

#[test]
fn strict_flag_activates_strict_mode() {
    rejected_with(
        dispatch(&["--strict", "--monitor-port", "20000"], &[]),
        "autossh: unrecognized option '--monitor-port'",
    );
}

#[test]
fn strict_env_var_activates_strict_mode() {
    rejected_with(
        dispatch(&["--monitor-port", "20000"], &[("RUSTY_AUTOSSH_STRICT", "1")]),
        "autossh: unrecognized option '--monitor-port'",
    );
}

#[test]
fn strict_env_var_true_activates_strict_mode() {
    rejected_with(
        dispatch(&["--debug"], &[("RUSTY_AUTOSSH_STRICT", "TRUE")]),
        "autossh: unrecognized option '--debug'",
    );
}

#[test]
fn no_strict_overrides_env() {
    // Default mode takes `--help`; Strict mode would reject it.
    assert!(matches!(
        dispatch(&["--no-strict", "--help"], &[("RUSTY_AUTOSSH_STRICT", "1")]),
        Dispatch::Default
    ));
}

#[test]
fn no_strict_then_strict_last_wins_strict() {
    rejected_with(
        dispatch(&["--no-strict", "--strict", "--monitor-port", "20000"], &[]),
        "autossh: unrecognized option '--monitor-port'",
    );
}

#[test]
fn strict_then_no_strict_last_wins_default() {
    assert!(matches!(dispatch(&["--strict", "--no-strict", "--help"], &[]), Dispatch::Default));
}

#[test]
fn strict_excluded_short_d_emits_invalid_option() {
    rejected_with(dispatch(&["--strict", "-d"], &[]), "autossh: invalid option -- 'd'");
}

#[test]
fn strict_excluded_short_flags_D_X_T_a_N_Y_q() {
    for c in ['D', 'X', 'T', 'a', 'N', 'Y', 'q'] {
        let flag = format!("-{c}");
        let expected = format!("autossh: invalid option -- '{c}'");
        rejected_with(dispatch(&["--strict", flag.as_str()], &[]), &expected);
    }
}

#[test]
fn strict_excluded_long_monitor_port_emits_unrecognized() {
    rejected_with(
        dispatch(&["--strict", "--monitor-port", "20000"], &[]),
        "autossh: unrecognized option '--monitor-port'",
    );
}

#[test]
fn strict_excluded_long_flags() {
    let excluded = ["--poll", "--first-poll", "--gate-time", "--max-start", "--max-lifetime", "--ssh-path", "--log-file"];
    for flag in excluded {
        let expected = format!("autossh: unrecognized option '{flag}'");
        rejected_with(dispatch(&["--strict", flag], &[]), &expected);
    }
}

#[test]
fn strict_excluded_long_debug() {
    rejected_with(dispatch(&["--strict", "--debug"], &[]), "autossh: unrecognized option '--debug'");
}

#[test]
fn strict_invented_long_flag_color_rejected() {
    rejected_with(dispatch(&["--strict", "--color"], &[]), "autossh: unrecognized option '--color'");
}

#[test]
fn strict_rejects_completions_subcommand() {
    rejected_with(
        dispatch(&["--strict", "completions", "bash"], &[]),
        "autossh: unrecognized option 'completions'",
    );
}

#[test]
fn strict_mode_rejects_completions_subcommand() {
    // Rejected before anything is generated, so no completion script.
    rejected_with(
        dispatch(&["--strict", "completions", "bash"], &[]),
        "autossh: unrecognized option 'completions'",
    );
}

#[test]
fn strict_dash_V_prints_version() {
    match dispatch(&["--strict", "-V"], &[]) {
        Dispatch::StrictParsed(p) => assert!(p.version),
        _ => panic!("expected `-V` to parse in Strict mode"),
    }
}
