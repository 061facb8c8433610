use rusty_autossh::strict::{format_unknown_flag, parse_argv, ArgToken, StrictError};
use rusty_autossh::AutosshError;

fn argv(s: &[&str]) -> Vec<ArgToken> {
    s.iter().map(|x| ArgToken::unicode(x.to_string())).collect()
}

#[test]
fn format_short_unknown_flag_matches_upstream() {
    assert_eq!(format_unknown_flag("-X"), "autossh: invalid option -- 'X'");
}

#[test]
fn format_long_unknown_flag_matches_upstream() {
    assert_eq!(
        format_unknown_flag("--monitor-port"),
        "autossh: unrecognized option '--monitor-port'"
    );
}

#[test]
fn format_bare_subcommand_token_matches_upstream() {
    assert_eq!(
        format_unknown_flag("completions"),
        "autossh: unrecognized option 'completions'"
    );
}

#[test]
fn format_lone_dash_uses_question_mark() {
    assert_eq!(format_unknown_flag("-"), "autossh: invalid option -- '?'");
}

#[test]
#[allow(non_snake_case)]
fn parses_dash_M_with_separate_value() {
    let args = parse_argv(&argv(&["-M", "20000", "user@host"])).unwrap();
    assert_eq!(args.monitor.as_deref(), Some("20000"));
    assert_eq!(args.ssh_args, vec!["user@host".to_string()]);
}

#[test]
#[allow(non_snake_case)]
fn parses_dash_M_with_inline_value() {
    let args = parse_argv(&argv(&["-M20000", "user@host"])).unwrap();
    assert_eq!(args.monitor.as_deref(), Some("20000"));
}

#[test]
fn parses_dash_f_dash_one() {
    let args = parse_argv(&argv(&["-f", "-1", "user@host"])).unwrap();
    assert!(args.background);
    assert!(args.one_shot);
}

#[test]
#[allow(non_snake_case)]
fn rejects_excluded_short_dash_X() {
    let err = parse_argv(&argv(&["-X"])).unwrap_err();
    match err {
        StrictError::UnknownShort(s) => assert_eq!(s, "autossh: invalid option -- 'X'"),
        _ => panic!("expected UnknownShort"),
    }
}

#[test]
fn rejects_excluded_long_monitor_port() {
    let err = parse_argv(&argv(&["--monitor-port", "20000"])).unwrap_err();
    match err {
        StrictError::UnknownLong(s) => {
            assert_eq!(s, "autossh: unrecognized option '--monitor-port'");
        }
        _ => panic!("expected UnknownLong"),
    }
}

#[test]
fn rejects_completions_subcommand() {
    let err = parse_argv(&argv(&["completions", "bash"])).unwrap_err();
    match err {
        StrictError::UnknownLong(s) => {
            assert_eq!(s, "autossh: unrecognized option 'completions'");
        }
        _ => panic!("expected UnknownLong"),
    }
}

#[test]
fn double_dash_starts_passthrough() {
    let args = parse_argv(&argv(&["-f", "--", "--strict", "-X"])).unwrap();
    assert!(args.background);
    assert_eq!(args.ssh_args, vec!["--strict".to_string(), "-X".to_string()]);
}

#[test]
fn leading_double_dash_passes_everything_and_sets_nothing() {
    let args = parse_argv(&argv(&["--", "-M", "20000", "--poll", "completions", "-1"])).unwrap();
    assert!(args.monitor.is_none());
    assert!(!args.background && !args.version && !args.one_shot);
    assert_eq!(
        args.ssh_args,
        vec!["-M".to_string(), "20000".to_string(), "--poll".to_string(), "completions".to_string(), "-1".to_string()]
    );
}

#[test]
fn strict_excluded_short_flags_are_rejected() {
    for c in ['d', 'D', 'X', 'T', 'a', 'N', 'Y', 'q'] {
        let tok = format!("-{c}");
        let err = parse_argv(&argv(&[tok.as_str()])).unwrap_err();
        assert_eq!(err.message(), format!("autossh: invalid option -- '{c}'"));
    }
}

#[test]
fn strict_excluded_long_flags_are_rejected() {
    for flag in ["--poll", "--first-poll", "--gate-time", "--max-start", "--debug", "--color"] {
        let err = parse_argv(&argv(&[flag, "10"])).unwrap_err();
        assert_eq!(err.message(), format!("autossh: unrecognized option '{flag}'"));
    }
}

#[test]
fn strict_toggles_are_skipped() {
    let args = parse_argv(&argv(&["--strict", "--no-strict=1", "-V", "host"])).unwrap();
    assert!(args.version);
    assert_eq!(args.ssh_args, vec!["host".to_string()]);
}

#[test]
fn missing_monitor_value_is_reported() {
    let err = parse_argv(&argv(&["-f", "-M"])).unwrap_err();
    assert!(matches!(err, StrictError::MissingValue('M')));
    assert_eq!(err.message(), "autossh: option requires an argument -- 'M'");
}

#[test]
fn first_bare_token_starts_passthrough_and_lone_dash_passes() {
    let args = parse_argv(&argv(&["-", "-f", "host", "-X", "--poll"])).unwrap();
    assert!(args.background);
    assert_eq!(args.ssh_args, vec!["-".to_string(), "host".to_string(), "-X".to_string(), "--poll".to_string()]);
}

#[test]
fn non_unicode_token_passes_without_starting_passthrough() {
    let mut toks = vec![ArgToken { text: "-\u{fffd}".to_string(), is_unicode: false }];
    toks.extend(argv(&["-f", "host"]));
    let args = parse_argv(&toks).unwrap();
    assert!(args.background);
    assert_eq!(args.ssh_args, vec!["-\u{fffd}".to_string(), "host".to_string()]);
}

#[test]
fn only_first_short_letter_counts() {
    let args = parse_argv(&argv(&["-fX", "host"])).unwrap();
    assert!(args.background);
}

#[test]
fn strict_error_converts_to_internal() {
    let e: AutosshError = StrictError::MissingValue('M').into();
    assert!(matches!(e, AutosshError::Internal("strict parse error")));
    assert_eq!(StrictError::Internal("x".to_string()).message(), "strict parse failed: x");
}
