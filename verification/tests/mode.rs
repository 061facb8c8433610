use rusty_autossh::clock::EnvSnapshot;
use rusty_autossh::mode::{is_strict_value, path_file_stem, resolve};
use rusty_autossh::strict::ArgToken;
use rusty_autossh::CompatibilityMode;

fn env_with(pairs: &[(&str, &str)]) -> EnvSnapshot {
    let mut env = EnvSnapshot::new();
    for (k, v) in pairs {
        env.insert((*k).to_string(), (*v).to_string());
    }
    env
}

fn argv(s: &[&str]) -> Vec<ArgToken> {
    s.iter().map(|x| ArgToken::unicode(x.to_string())).collect()
}

#[test]
fn strict_flag_alone_is_strict() {
    let env = EnvSnapshot::new();
    assert_eq!(resolve(&argv(&["--strict"]), &env, "rusty-autossh", false), CompatibilityMode::Strict);
}

#[test]
fn env_var_one_is_strict() {
    let env = env_with(&[("RUSTY_AUTOSSH_STRICT", "1")]);
    assert_eq!(resolve(&[].to_vec(), &env, "rusty-autossh", false), CompatibilityMode::Strict);
}

#[test]
fn argv0_autossh_is_strict() {
    let env = EnvSnapshot::new();
    assert_eq!(resolve(&Vec::new(), &env, "autossh", false), CompatibilityMode::Strict);
}

#[test]
fn mode_no_strict_overrides_env() {
    let env = env_with(&[("RUSTY_AUTOSSH_STRICT", "1")]);
    assert_eq!(resolve(&argv(&["--no-strict"]), &env, "rusty-autossh", false), CompatibilityMode::Default);
}

#[test]
fn no_strict_overrides_argv0() {
    let env = EnvSnapshot::new();
    assert_eq!(resolve(&argv(&["--no-strict"]), &env, "autossh", false), CompatibilityMode::Default);
}

#[test]
fn last_wins_strict_then_no_strict_is_default() {
    let env = EnvSnapshot::new();
    assert_eq!(
        resolve(&argv(&["--strict", "--no-strict"]), &env, "rusty-autossh", false),
        CompatibilityMode::Default
    );
}

#[test]
fn last_wins_no_strict_then_strict_is_strict() {
    let env = EnvSnapshot::new();
    assert_eq!(
        resolve(&argv(&["--no-strict", "--strict"]), &env, "rusty-autossh", false),
        CompatibilityMode::Strict
    );
}

#[test]
fn argv0_autossh_exe_on_windows_is_strict_after_stem_strip() {
    let env = EnvSnapshot::new();
    assert_eq!(resolve(&Vec::new(), &env, "autossh.exe", false), CompatibilityMode::Strict);
}

#[test]
fn argv0_with_path_prefix_still_strict() {
    let env = EnvSnapshot::new();
    assert_eq!(resolve(&Vec::new(), &env, "/usr/local/bin/autossh", false), CompatibilityMode::Strict);
}

#[test]
fn default_when_nothing_activates() {
    let env = EnvSnapshot::new();
    assert_eq!(resolve(&Vec::new(), &env, "rusty-autossh", false), CompatibilityMode::Default);
}

#[test]
fn env_values_are_trimmed_and_case_insensitive() {
    assert!(is_strict_value(" TRUE "));
    assert!(is_strict_value("Yes\n"));
    assert!(is_strict_value("\u{a0}1"));
    assert!(!is_strict_value("on"));
    assert!(!is_strict_value("0"));
    assert!(!is_strict_value(""));
}

#[test]
fn file_stem_follows_path_rules() {
    let stem = |p: &str| path_file_stem(p, false).map(|v| v.into_iter().collect::<String>());
    assert_eq!(stem("/usr/bin/autossh"), Some("autossh".to_string()));
    assert_eq!(stem("autossh.tar.gz"), Some("autossh.tar".to_string()));
    assert_eq!(stem(".bashrc"), Some(".bashrc".to_string()));
    assert_eq!(stem("dir/autossh/"), Some("autossh".to_string()));
    assert_eq!(stem("dir/autossh/."), Some("autossh".to_string()));
    assert_eq!(stem("dir/.."), None);
    assert_eq!(stem("/"), None);
    assert_eq!(stem(""), None);
    assert_eq!(stem("a."), Some("a".to_string()));
}

#[test]
fn dotted_or_nested_autossh_names_do_not_activate() {
    let env = EnvSnapshot::new();
    assert_eq!(resolve(&Vec::new(), &env, "autossh-wrapper", false), CompatibilityMode::Default);
    assert_eq!(resolve(&Vec::new(), &env, "/opt/autossh/bin/ssh", false), CompatibilityMode::Default);
}

#[test]
fn windows_argv0_with_drive_and_backslashes_is_strict() {
    let env = EnvSnapshot::new();
    assert_eq!(resolve(&Vec::new(), &env, "C:\\Program Files\\autossh\\autossh.exe", true), CompatibilityMode::Strict);
    assert_eq!(resolve(&Vec::new(), &env, "C:autossh.exe", true), CompatibilityMode::Strict);
    assert_eq!(resolve(&Vec::new(), &env, "C:/tools/autossh", true), CompatibilityMode::Strict);
    // Under Unix rules a backslash is an ordinary character.
    assert_eq!(resolve(&Vec::new(), &env, "C:\\tools\\autossh.exe", false), CompatibilityMode::Default);
}

#[test]
fn windows_file_stem_rules() {
    let stem = |p: &str| path_file_stem(p, true).map(|v| v.into_iter().collect::<String>());
    assert_eq!(stem("C:\\bin\\autossh.exe"), Some("autossh".to_string()));
    assert_eq!(stem("dir\\sub\\"), Some("sub".to_string()));
    assert_eq!(stem("C:"), None);
    assert_eq!(stem("C:\\"), None);
}
