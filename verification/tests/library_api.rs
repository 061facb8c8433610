use std::io;

use rusty_autossh::clock::Span;
use rusty_autossh::monitor::MonitorPortPair;
use rusty_autossh::pidfile::{pid_file_contents, PidfileGuard};
use rusty_autossh::spawner::{inject_monitor_forwards, resolve_ssh_path, ssh_file_names, PathProbe, SshLookup};
use rusty_autossh::supervisor::Phase;
use rusty_autossh::{AutosshError, CompatibilityMode, MonitorMode, SshSupervisor, SshSupervisorBuilder};

fn assert_send<T: Send>() {}
fn assert_sync<T: Sync>() {}

#[test]
fn send_sync_compile_time_guards_pass() {
    assert_send::<SshSupervisorBuilder<()>>();
    assert_sync::<SshSupervisorBuilder<()>>();
    assert_send::<SshSupervisor<()>>();
    assert_send::<MonitorMode>();
    assert_sync::<MonitorMode>();
    assert_send::<AutosshError>();
    assert_sync::<AutosshError>();
    assert_send::<CompatibilityMode>();
}

#[test]
fn monitor_mode_active_variants_are_constructible() {
    let two_listener = MonitorMode::Active { port: 20000, echo: None };
    let single_listener = MonitorMode::Active { port: 20000, echo: Some(22) };
    let none = MonitorMode::Disabled;
    for mode in [two_listener, single_listener, none] {
        match mode {
            MonitorMode::Disabled => {}
            MonitorMode::Active { port, echo } => {
                assert_eq!(port, 20000);
                assert!(matches!(echo, None | Some(22)));
            }
            _ => unreachable!("non_exhaustive future variant"),
        }
    }
    assert_eq!(MonitorMode::default(), MonitorMode::Disabled);
    assert_eq!(CompatibilityMode::default(), CompatibilityMode::Default);
}

#[test]
#[allow(non_snake_case)]
fn dash_M_port_injects_L_and_R_forwards() {
    let mode = MonitorMode::Active { port: 20000, echo: None };
    let injected = inject_monitor_forwards(&mode, &vec!["user@host".to_string()]);
    assert_eq!(injected[0], "-L");
    assert_eq!(injected[1], "20000:127.0.0.1:20001");
    assert_eq!(injected[2], "-R");
    assert_eq!(injected[3], "20000:127.0.0.1:20001");
    assert_eq!(injected[4], "user@host");
}

#[test]
fn monitor_mode_active_with_echo_argv_injection() {
    let mode = MonitorMode::Active { port: 20000, echo: Some(22) };
    let injected = inject_monitor_forwards(&mode, &vec!["user@host".to_string()]);
    assert_eq!(injected.len(), 3, "expected 3 tokens, got {injected:?}");
    assert_eq!(injected[0], "-L");
    assert_eq!(injected[1], "20000:127.0.0.1:22");
    assert_eq!(injected[2], "user@host");
    assert!(!injected.iter().any(|t| t == "-R"));
}

#[test]
fn injection_saturates_port_and_keeps_disabled_argv() {
    let injected = inject_monitor_forwards(&MonitorMode::Active { port: 65535, echo: None }, &Vec::new());
    assert_eq!(injected[1], "65535:127.0.0.1:65535");
    let args = vec!["-v".to_string(), "host".to_string()];
    assert_eq!(inject_monitor_forwards(&MonitorMode::Disabled, &args), args);
}

#[test]
fn autossh_error_from_io_error_via_from_derive() {
    let io_err = io::Error::new(io::ErrorKind::PermissionDenied, "denied");
    let autossh_err: AutosshError = io_err.into();
    match autossh_err {
        AutosshError::Io(inner) => assert_eq!(inner.kind(), io::ErrorKind::PermissionDenied),
        other => panic!("expected AutosshError::Io, got {other:?}"),
    }
}

#[test]
fn error_exit_codes() {
    assert_eq!(AutosshError::SshNotFound { searched: Vec::new() }.exit_code(), 1);
    assert_eq!(AutosshError::MaxStartReached { attempts: 3 }.exit_code(), 1);
    assert_eq!(AutosshError::MaxLifetimeReached.exit_code(), 2);
    assert_eq!(AutosshError::Io(io::Error::other("x")).exit_code(), 2);
    assert_eq!(AutosshError::Daemonize { reason: "x".to_string() }.exit_code(), 2);
}

#[test]
fn builder_defaults_and_overrides() {
    let sup = SshSupervisorBuilder::<u8>::new()
        .ssh_args(vec!["user@host".to_string()])
        .monitor_mode(MonitorMode::Active { port: 0, echo: None })
        .max_start(Some(3))
        .message("alive".to_string())
        .event_sender(7)
        .build(&SshLookup { autossh_path: Some("/usr/bin/ssh".to_string()), path_probes: None })
        .expect("AUTOSSH_PATH is used verbatim");
    let clock = sup.clock();
    assert_eq!(clock.poll, Span::from_secs(600));
    assert_eq!(clock.first_poll, Span::from_secs(600));
    assert_eq!(clock.gate_time, Span::from_secs(30));
    assert_eq!(clock.max_start, Some(3));
    assert_eq!(clock.max_lifetime, None);
    assert_eq!(sup.message().as_deref(), Some("alive"));
    assert_eq!(*sup.event_sender(), Some(7));
    assert_eq!(sup.ssh_path(), "/usr/bin/ssh");

    let state = sup.initial_state(Some(MonitorPortPair { port_in: 41000, port_out: 41001 }));
    assert_eq!(state.ssh_path, "/usr/bin/ssh");
    assert_eq!(state.monitor_mode, MonitorMode::Active { port: 41000, echo: None });
    assert!(state.has_monitor);
    assert!(!state.has_child);
    assert_eq!(state.retry_count, 0);
    assert_eq!(state.phase, Phase::Ready);
    assert_eq!(state.ssh_args, vec!["user@host".to_string()]);
}

#[test]
fn builder_first_poll_and_gate_override() {
    let sup = SshSupervisorBuilder::<()>::new()
        .poll(Span::from_secs(60))
        .first_poll(Span::from_secs(5))
        .gate_time(Span::from_secs(10))
        .max_lifetime(Some(Span::from_secs(100)))
        .one_shot(true)
        .compatibility_mode(CompatibilityMode::Strict)
        .pidfile_path("/tmp/a.pid".to_string())
        .logfile_path("/tmp/a.log".to_string())
        .ssh_path("/opt/ssh".to_string())
        .build(&SshLookup { autossh_path: Some("/ignored".to_string()), path_probes: None })
        .unwrap();
    let clock = sup.clock();
    assert_eq!(clock.poll, Span::from_secs(60));
    assert_eq!(clock.first_poll, Span::from_secs(5));
    assert_eq!(clock.gate_time, Span::from_secs(10));
    assert_eq!(clock.max_lifetime, Some(Span::from_secs(100)));
    assert_eq!(sup.compatibility_mode(), CompatibilityMode::Strict);
    assert_eq!(sup.pidfile_path().as_deref(), Some("/tmp/a.pid"));
    assert_eq!(sup.logfile_path().as_deref(), Some("/tmp/a.log"));
    assert_eq!(sup.ssh_path(), "/opt/ssh");
}

fn probe(dir: &str, found: &[bool]) -> PathProbe {
    let names = ["ssh.exe", "ssh"];
    let skip = names.len() - found.len();
    let candidates = names[skip..]
        .iter()
        .zip(found.iter())
        .map(|(n, f)| (format!("{dir}/{n}"), *f))
        .collect();
    PathProbe { dir: dir.to_string(), candidates }
}

#[test]
fn ssh_file_names_per_platform() {
    assert_eq!(ssh_file_names(false), vec!["ssh".to_string()]);
    assert_eq!(ssh_file_names(true), vec!["ssh.exe".to_string(), "ssh".to_string()]);
}

#[test]
fn ssh_resolution_order() {
    assert_eq!(resolve_ssh_path(Some("/custom/ssh"), None).unwrap(), "/custom/ssh");
    let probes = vec![probe("/a", &[false]), probe("/b", &[true]), probe("/c", &[true])];
    assert_eq!(resolve_ssh_path(None, Some(&probes)).unwrap(), "/b/ssh");
    let misses = vec![probe("/a", &[false]), probe("/d", &[false])];
    match resolve_ssh_path(None, Some(&misses)) {
        Err(AutosshError::SshNotFound { searched }) => assert_eq!(searched, vec!["/a".to_string(), "/d".to_string()]),
        other => panic!("expected SshNotFound, got {other:?}"),
    }
    match resolve_ssh_path(None, None) {
        Err(AutosshError::SshNotFound { searched }) => assert!(searched.is_empty()),
        other => panic!("expected SshNotFound, got {other:?}"),
    }
}

#[test]
fn windows_candidates_prefer_ssh_exe() {
    let both = vec![probe("C:/w", &[true, true])];
    assert_eq!(resolve_ssh_path(None, Some(&both)).unwrap(), "C:/w/ssh.exe");
    let bare = vec![probe("C:/v", &[false, false]), probe("C:/w", &[false, true])];
    assert_eq!(resolve_ssh_path(None, Some(&bare)).unwrap(), "C:/w/ssh");
}

#[test]
fn build_fails_when_no_ssh_is_found() {
    let lookup = SshLookup { autossh_path: None, path_probes: Some(vec![probe("/a", &[false]), probe("/b", &[false])]) };
    match SshSupervisorBuilder::<()>::new().build(&lookup) {
        Err(AutosshError::SshNotFound { searched }) => assert_eq!(searched, vec!["/a".to_string(), "/b".to_string()]),
        other => panic!("expected SshNotFound, got {other:?}"),
    }
    match SshSupervisorBuilder::<()>::new().build(&SshLookup { autossh_path: None, path_probes: None }) {
        Err(AutosshError::SshNotFound { searched }) => assert!(searched.is_empty()),
        other => panic!("expected SshNotFound, got {other:?}"),
    }
    let found = SshLookup { autossh_path: None, path_probes: Some(vec![probe("/a", &[false]), probe("/b", &[true])]) };
    assert_eq!(SshSupervisorBuilder::<()>::new().build(&found).unwrap().ssh_path(), "/b/ssh");
}

#[test]
fn build_rejects_newline_message_only_when_monitoring() {
    let lookup = SshLookup { autossh_path: Some("/usr/bin/ssh".to_string()), path_probes: None };
    let active = SshSupervisorBuilder::<()>::new()
        .monitor_mode(MonitorMode::Active { port: 20000, echo: None })
        .message("a\nb".to_string())
        .build(&lookup);
    assert!(matches!(active, Err(AutosshError::Internal(_))));
    let disabled = SshSupervisorBuilder::<()>::new().message("a\nb".to_string()).build(&lookup);
    assert!(disabled.is_ok());
}

#[test]
fn pid_file_contents_is_decimal_and_newline() {
    assert_eq!(pid_file_contents(12345), "12345\n");
    assert_eq!(pid_file_contents(0), "0\n");
    let guard = PidfileGuard { path: "/tmp/x.pid".to_string() };
    assert_eq!(guard.path(), "/tmp/x.pid");
}
