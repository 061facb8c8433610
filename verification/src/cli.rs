//! Default-mode command-line helpers: the argv splitter, the `-M` value
//! parser, and the conversion of parsed flags into clock overrides and file
//! paths.

use vstd::prelude::*;

use crate::clock::{env_get, opt_span, secs_ns, ClockFlags, ClockFlagsView, EnvSnapshot, PollClock, PollClockView, Span};
use crate::spawner::extend_strings;
use crate::text::{decimal, has_prefix, lemma_decimal_reads_back, parse_u16, parse_unsigned, starts_with, str_eq};
use crate::MonitorMode;

verus! {

/// `completions <shell>` target shell.
#[derive(Debug, Clone, Copy, PartialEq, Eq, Structural)]
pub enum Shell {
    /// Bash completion script.
    Bash,
    /// Zsh completion script.
    Zsh,
    /// Fish completion script.
    Fish,
    /// PowerShell completion script.
    Powershell,
}

/// Top-level subcommands.
#[derive(Debug, Clone, Copy, PartialEq, Eq, Structural)]
pub enum Subcommand {
    /// Emit a shell completion script.
    Completions {
        /// Target shell.
        shell: Shell,
    },
}

/// The parsed Default-mode command line.
#[derive(Debug)]
pub struct Cli {
    /// `-M <PORT[:ECHO]>` / `--monitor-port`.
    pub monitor: Option<String>,
    /// `-f` / `--background`.
    pub background: bool,
    /// `-V` / `--version`.
    pub print_version: Option<bool>,
    /// `-1` / `--one-shot`.
    pub one_shot: bool,
    /// `--poll <SECS>`.
    pub poll: Option<u64>,
    /// `--first-poll <SECS>`.
    pub first_poll: Option<u64>,
    /// `--gate-time <SECS>`.
    pub gate_time: Option<u64>,
    /// `--max-start <N>` (`-1` = unlimited).
    pub max_start: Option<i64>,
    /// `--max-lifetime <SECS>` (`0` = unlimited).
    pub max_lifetime: Option<u64>,
    /// `--ssh-path <PATH>`.
    pub ssh_path: Option<String>,
    /// `--pid-file <PATH>`.
    pub pid_file: Option<String>,
    /// `--log-file <PATH>`.
    pub log_file: Option<String>,
    /// `--debug`.
    pub debug: bool,
    /// `--log-level <LEVEL>`.
    pub log_level: Option<String>,
    /// `--strict`.
    pub strict: bool,
    /// `--no-strict`.
    pub no_strict: bool,
    /// Subcommand, if any.
    pub command: Option<Subcommand>,
    /// Remaining arguments, passed to ssh.
    pub ssh_args: Vec<String>,
}

/// The flags that belong to the supervisor when they appear verbatim.
pub open spec fn known_flags() -> Seq<Seq<char>> {
    seq![
        "-M"@, "-f"@, "-V"@, "-1"@, "--monitor-port"@, "--background"@, "--version"@, "--one-shot"@,
        "--poll"@, "--first-poll"@, "--gate-time"@, "--max-start"@, "--max-lifetime"@, "--ssh-path"@,
        "--pid-file"@, "--log-file"@, "--debug"@, "--log-level"@, "--strict"@, "--no-strict"@,
    ]
}

/// The prefixes of the `--name=value` forms, and `-M` with an inline value.
pub open spec fn known_prefixes() -> Seq<Seq<char>> {
    seq![
        "--monitor-port="@, "--poll="@, "--first-poll="@, "--gate-time="@, "--max-start="@,
        "--max-lifetime="@, "--ssh-path="@, "--pid-file="@, "--log-file="@, "--log-level="@, "-M"@,
    ]
}

/// The flags that take the next token as their value.
pub open spec fn value_flags() -> Seq<Seq<char>> {
    seq![
        "-M"@, "--monitor-port"@, "--poll"@, "--first-poll"@, "--gate-time"@, "--max-start"@,
        "--max-lifetime"@, "--ssh-path"@, "--pid-file"@, "--log-file"@, "--log-level"@,
    ]
}

/// Whether `t` is a supervisor flag.
pub open spec fn is_known_flag(t: Seq<char>) -> bool {
    known_flags().contains(t) || exists|i: int| 0 <= i < known_prefixes().len() && has_prefix(t, #[trigger] known_prefixes()[i])
}

/// Whether `t` is a flag that consumes the next token.
pub open spec fn takes_value(t: Seq<char>) -> bool {
    value_flags().contains(t)
}

/// The split of an argv into (supervisor flags, ssh arguments): supervisor
/// flags are taken from the left, a value-taking flag also takes the next
/// token, `--` ends the supervisor flags and is dropped, and the first
/// other token starts the ssh arguments.
pub open spec fn split_spec(argv: Seq<Seq<char>>) -> (Seq<Seq<char>>, Seq<Seq<char>>)
    decreases argv.len(),
{
    if argv.len() == 0 {
        (Seq::empty(), Seq::empty())
    } else if argv[0] == "--"@ {
        (Seq::empty(), argv.drop_first())
    } else if is_known_flag(argv[0]) {
        if takes_value(argv[0]) && argv.len() >= 2 {
            let rest = split_spec(argv.skip(2));
            (seq![argv[0], argv[1]] + rest.0, rest.1)
        } else {
            let rest = split_spec(argv.drop_first());
            (seq![argv[0]] + rest.0, rest.1)
        }
    } else {
        (Seq::empty(), argv)
    }
}

/// The character sequences of a list of string slices.
pub open spec fn str_views(list: Seq<&str>) -> Seq<Seq<char>> {
    list.map_values(|s: &str| s@)
}

fn in_list(t: &str, list: &Vec<&str>) -> (r: bool)
    ensures
        r == str_views(list@).contains(t@),
{
    let mut i: usize = 0;
    while i < list.len()
        invariant
            i <= list@.len(),
            forall|j: int| 0 <= j < i ==> list@[j]@ != t@,
        decreases list.len() - i,
    {
        if str_eq(list[i], t) {
            proof {
                assert(str_views(list@)[i as int] == t@);
            }
            return true;
        }
        i = i + 1;
    }
    proof {
        if str_views(list@).contains(t@) {
            let j = choose|j: int| 0 <= j < list@.len() && #[trigger] str_views(list@)[j] == t@;
            assert(list@[j]@ == t@);
        }
    }
    false
}

fn has_any_prefix(t: &str, list: &Vec<&str>) -> (r: bool)
    ensures
        r == exists|i: int| 0 <= i < list@.len() && has_prefix(t@, #[trigger] str_views(list@)[i]),
{
    let mut i: usize = 0;
    while i < list.len()
        invariant
            i <= list@.len(),
            forall|j: int| 0 <= j < i ==> !has_prefix(t@, #[trigger] str_views(list@)[j]),
        decreases list.len() - i,
    {
        if starts_with(t, list[i]) {
            proof {
                assert(has_prefix(t@, str_views(list@)[i as int]));
            }
            return true;
        }
        i = i + 1;
    }
    false
}

/// Whether `tok` is a supervisor flag (see [`is_known_flag`]).
pub fn is_autossh_known_flag(tok: &str) -> (r: bool)
    ensures
        r == is_known_flag(tok@),
{
    let exact: Vec<&str> = vec![
        "-M", "-f", "-V", "-1", "--monitor-port", "--background", "--version", "--one-shot", "--poll",
        "--first-poll", "--gate-time", "--max-start", "--max-lifetime", "--ssh-path", "--pid-file",
        "--log-file", "--debug", "--log-level", "--strict", "--no-strict",
    ];
    let prefixes: Vec<&str> = vec![
        "--monitor-port=", "--poll=", "--first-poll=", "--gate-time=", "--max-start=", "--max-lifetime=",
        "--ssh-path=", "--pid-file=", "--log-file=", "--log-level=", "-M",
    ];
    proof {
        assert(str_views(exact@) =~= known_flags());
        assert(str_views(prefixes@) =~= known_prefixes());
    }
    in_list(tok, &exact) || has_any_prefix(tok, &prefixes)
}

/// Whether `tok` consumes the next token as its value.
pub fn flag_takes_value(tok: &str) -> (r: bool)
    ensures
        r == takes_value(tok@),
{
    let names: Vec<&str> = vec![
        "-M", "--monitor-port", "--poll", "--first-poll", "--gate-time", "--max-start", "--max-lifetime",
        "--ssh-path", "--pid-file", "--log-file", "--log-level",
    ];
    proof {
        assert(str_views(names@) =~= value_flags());
    }
    in_list(tok, &names)
}

/// Clones of `items[from..]`.
fn strings_from(items: &Vec<String>, from: usize) -> (r: Vec<String>)
    requires
        from <= items.len(),
    ensures
        r.deep_view() == items.deep_view().skip(from as int),
{
    let mut r: Vec<String> = Vec::new();
    let mut i = from;
    while i < items.len()
        invariant
            from <= i <= items.len(),
            r.deep_view() == items.deep_view().subrange(from as int, i as int),
        decreases items.len() - i,
    {
        let ghost prev = r.deep_view();
        r.push(items[i].clone());
        proof {
            assert(r.deep_view() =~= prev.push(items[i as int]@));
            assert(r.deep_view() =~= items.deep_view().subrange(from as int, i + 1));
        }
        i = i + 1;
    }
    proof {
        assert(items.deep_view().subrange(from as int, i as int) =~= items.deep_view().skip(from as int));
    }
    r
}

/// Splits argv left to right into (supervisor flags, ssh arguments); see
/// [`split_spec`].
pub fn split_autossh_args(argv: &Vec<String>) -> (r: (Vec<String>, Vec<String>))
    ensures
        (r.0.deep_view(), r.1.deep_view()) == split_spec(argv.deep_view()),
{
    let ghost whole = argv.deep_view();
    let mut autossh: Vec<String> = Vec::new();
    let mut i: usize = 0;
    proof {
        assert(whole.skip(0) =~= whole);
        assert(autossh.deep_view() + split_spec(whole).0 =~= split_spec(whole).0);
    }
    while i < argv.len()
        invariant
            i <= argv.len(),
            whole == argv.deep_view(),
            split_spec(whole).0 == autossh.deep_view() + split_spec(whole.skip(i as int)).0,
            split_spec(whole).1 == split_spec(whole.skip(i as int)).1,
        decreases argv.len() - i,
    {
        let ghost rest = whole.skip(i as int);
        let tok = argv[i].as_str();
        proof {
            assert(rest[0] == tok@);
        }
        if str_eq(tok, "--") {
            let ssh = strings_from(argv, i + 1);
            proof {
                assert(rest.drop_first() =~= whole.skip(i + 1));
                assert(autossh.deep_view() + Seq::<Seq<char>>::empty() =~= autossh.deep_view());
            }
            return (autossh, ssh);
        }
        if is_autossh_known_flag(tok) {
            let ghost prev = autossh.deep_view();
            autossh.push(argv[i].clone());
            if flag_takes_value(tok) && i + 1 < argv.len() {
                autossh.push(argv[i + 1].clone());
                proof {
                    assert(rest.skip(2) =~= whole.skip(i + 2));
                    assert(autossh.deep_view() =~= prev + seq![rest[0], rest[1]]);
                    assert(prev + (seq![rest[0], rest[1]] + split_spec(rest.skip(2)).0) =~= autossh.deep_view()
                        + split_spec(whole.skip(i + 2)).0);
                }
                i = i + 2;
                continue;
            }
            proof {
                assert(rest.drop_first() =~= whole.skip(i + 1));
                assert(autossh.deep_view() =~= prev.push(rest[0]));
                assert(prev + (seq![rest[0]] + split_spec(rest.drop_first()).0) =~= autossh.deep_view()
                    + split_spec(whole.skip(i + 1)).0);
            }
            i = i + 1;
            continue;
        }
        let ssh = strings_from(argv, i);
        proof {
            assert(autossh.deep_view() + Seq::<Seq<char>>::empty() =~= autossh.deep_view());
        }
        return (autossh, ssh);
    }
    proof {
        assert(whole.skip(i as int) =~= Seq::<Seq<char>>::empty());
        assert(autossh.deep_view() + Seq::<Seq<char>>::empty() =~= autossh.deep_view());
    }
    (autossh, Vec::new())
}


/// Law: the split loses nothing but the `--` separator. Either the two parts
/// concatenate back to the argv, or the argv is the supervisor flags, a
/// `--`, and the ssh arguments.
pub proof fn lemma_split_partition(argv: Seq<Seq<char>>)
    ensures
        ({
            let (a, s) = split_spec(argv);
            a + s == argv || (a.len() < argv.len() && argv[a.len() as int] == "--"@ && argv == a.push("--"@) + s)
        }),
    decreases argv.len(),
{
    if argv.len() == 0 {
        assert(Seq::<Seq<char>>::empty() + Seq::<Seq<char>>::empty() =~= argv);
    } else if argv[0] == "--"@ {
        assert(Seq::<Seq<char>>::empty().push("--"@) + argv.drop_first() =~= argv);
    } else if is_known_flag(argv[0]) {
        if takes_value(argv[0]) && argv.len() >= 2 {
            lemma_split_partition(argv.skip(2));
            let (a, s) = split_spec(argv.skip(2));
            let head = seq![argv[0], argv[1]];
            assert(argv =~= head + argv.skip(2));
            if a + s == argv.skip(2) {
                assert(head + a + s =~= argv);
            } else {
                assert(argv.skip(2) == a.push("--"@) + s);
                assert((head + a).push("--"@) + s =~= head + (a.push("--"@) + s));
            }
        } else {
            lemma_split_partition(argv.drop_first());
            let (a, s) = split_spec(argv.drop_first());
            let head = seq![argv[0]];
            assert(argv =~= head + argv.drop_first());
            if a + s == argv.drop_first() {
                assert(head + a + s =~= argv);
            } else {
                assert(argv.drop_first() == a.push("--"@) + s);
                assert((head + a).push("--"@) + s =~= head + (a.push("--"@) + s));
            }
        }
    } else {
        assert(Seq::<Seq<char>>::empty() + argv =~= argv);
    }
}

/// Whether `a` is a run of supervisor-flag groups: each group is a known
/// flag (never `--`), followed by its value exactly when the flag takes one
/// and a token follows it (in `a`, or after `a` when `more`).
pub open spec fn flag_groups(a: Seq<Seq<char>>, more: bool) -> bool
    decreases a.len(),
{
    if a.len() == 0 {
        true
    } else if !is_known_flag(a[0]) || a[0] == "--"@ {
        false
    } else if takes_value(a[0]) && (a.len() >= 2 || more) {
        a.len() >= 2 && flag_groups(a.skip(2), more)
    } else {
        flag_groups(a.drop_first(), more)
    }
}

/// Law: the supervisor flags are the longest prefix of the argv made of
/// flag groups; the ssh arguments are what follows, without the `--` that
/// may separate them, and otherwise start at a token that is not a
/// supervisor flag.
pub proof fn lemma_split_groups(argv: Seq<Seq<char>>)
    ensures
        ({
            let (a, s) = split_spec(argv);
            let k = a.len() as int;
            &&& k <= argv.len()
            &&& a == argv.take(k)
            &&& flag_groups(a, k < argv.len())
            &&& k == argv.len() ==> s.len() == 0
            &&& k < argv.len() && argv[k] == "--"@ ==> s == argv.skip(k + 1)
            &&& k < argv.len() && argv[k] != "--"@ ==> !is_known_flag(argv[k]) && s == argv.skip(k)
        }),
    decreases argv.len(),
{
    if argv.len() == 0 {
        assert(argv.take(0) =~= Seq::<Seq<char>>::empty());
    } else if argv[0] == "--"@ {
        assert(argv.take(0) =~= Seq::<Seq<char>>::empty());
        assert(argv.skip(1) =~= argv.drop_first());
    } else if is_known_flag(argv[0]) {
        if takes_value(argv[0]) && argv.len() >= 2 {
            let rest = argv.skip(2);
            lemma_split_groups(rest);
            let (a, s) = split_spec(rest);
            let head = seq![argv[0], argv[1]];
            let k = a.len() as int;
            assert(head + a =~= argv.take(k + 2));
            assert((head + a).skip(2) =~= a);
            assert((head + a)[0] == argv[0]);
            if k < rest.len() {
                assert(argv[k + 2] == rest[k]);
                assert(rest.skip(k + 1) =~= argv.skip(k + 3));
                assert(rest.skip(k) =~= argv.skip(k + 2));
            }
        } else {
            let rest = argv.drop_first();
            lemma_split_groups(rest);
            let (a, s) = split_spec(rest);
            let head = seq![argv[0]];
            let k = a.len() as int;
            assert(head + a =~= argv.take(k + 1));
            assert((head + a).drop_first() =~= a);
            assert((head + a)[0] == argv[0]);
            if k < rest.len() {
                assert(argv[k + 1] == rest[k]);
                assert(rest.skip(k + 1) =~= argv.skip(k + 2));
                assert(rest.skip(k) =~= argv.skip(k + 1));
            }
        }
    } else {
        assert(argv.take(0) =~= Seq::<Seq<char>>::empty());
        assert(argv.skip(0) =~= argv);
    }
}

/// Law: each documented value-taking flag keeps the token after it as its
/// value: the supervisor flags of `[f, v] + rest` start with `f, v`, whatever
/// `v` is (even `--` or a token that looks like a flag).
pub proof fn lemma_value_flags_take_next(f: Seq<char>, v: Seq<char>, rest: Seq<Seq<char>>)
    requires
        f == "-M"@ || f == "--monitor-port"@ || f == "--poll"@ || f == "--first-poll"@ || f == "--gate-time"@ || f == "--max-start"@ || f == "--max-lifetime"@ || f == "--ssh-path"@ || f == "--pid-file"@ || f == "--log-file"@ || f == "--log-level"@,
    ensures
        split_spec(seq![f, v] + rest).0.len() >= 2,
        split_spec(seq![f, v] + rest).0[0] == f,
        split_spec(seq![f, v] + rest).0[1] == v,
{
    reveal_strlit("-M");
    reveal_strlit("--monitor-port");
    reveal_strlit("--poll");
    reveal_strlit("--first-poll");
    reveal_strlit("--gate-time");
    reveal_strlit("--max-start");
    reveal_strlit("--max-lifetime");
    reveal_strlit("--ssh-path");
    reveal_strlit("--pid-file");
    reveal_strlit("--log-file");
    reveal_strlit("--log-level");
    reveal_strlit("-f");
    reveal_strlit("-V");
    reveal_strlit("-1");
    reveal_strlit("--background");
    reveal_strlit("--version");
    reveal_strlit("--one-shot");
    reveal_strlit("--debug");
    reveal_strlit("--strict");
    reveal_strlit("--no-strict");
    reveal_strlit("--");
    let argv = seq![f, v] + rest;
    assert(argv[0] == f && argv[1] == v);
    assert(argv.skip(2) =~= rest);
    assert(f != "--"@) by {
        if f.len() == 2 {
            assert(f[1] == 'M');
        }
    }
    assert(known_flags().contains(f)) by {
        if f == "-M"@ { assert(known_flags()[0] == f); }
        if f == "--monitor-port"@ { assert(known_flags()[4] == f); }
        if f == "--poll"@ { assert(known_flags()[8] == f); }
        if f == "--first-poll"@ { assert(known_flags()[9] == f); }
        if f == "--gate-time"@ { assert(known_flags()[10] == f); }
        if f == "--max-start"@ { assert(known_flags()[11] == f); }
        if f == "--max-lifetime"@ { assert(known_flags()[12] == f); }
        if f == "--ssh-path"@ { assert(known_flags()[13] == f); }
        if f == "--pid-file"@ { assert(known_flags()[14] == f); }
        if f == "--log-file"@ { assert(known_flags()[15] == f); }
        if f == "--log-level"@ { assert(known_flags()[17] == f); }
    }
    assert(value_flags().contains(f)) by {
        if f == "-M"@ { assert(value_flags()[0] == f); }
        if f == "--monitor-port"@ { assert(value_flags()[1] == f); }
        if f == "--poll"@ { assert(value_flags()[2] == f); }
        if f == "--first-poll"@ { assert(value_flags()[3] == f); }
        if f == "--gate-time"@ { assert(value_flags()[4] == f); }
        if f == "--max-start"@ { assert(value_flags()[5] == f); }
        if f == "--max-lifetime"@ { assert(value_flags()[6] == f); }
        if f == "--ssh-path"@ { assert(value_flags()[7] == f); }
        if f == "--pid-file"@ { assert(value_flags()[8] == f); }
        if f == "--log-file"@ { assert(value_flags()[9] == f); }
        if f == "--log-level"@ { assert(value_flags()[10] == f); }
    }
}

/// Law: each documented switch (a flag without value) is taken by the
/// supervisor alone: the supervisor flags of `[f] + rest` start with `f`,
/// and the next token is examined on its own.
pub proof fn lemma_switches_stand_alone(f: Seq<char>, rest: Seq<Seq<char>>)
    requires
        f == "-f"@ || f == "-V"@ || f == "-1"@ || f == "--background"@ || f == "--version"@ || f == "--one-shot"@ || f == "--debug"@ || f == "--strict"@ || f == "--no-strict"@,
    ensures
        split_spec(seq![f] + rest).0.len() >= 1,
        split_spec(seq![f] + rest).0[0] == f,
        split_spec(seq![f] + rest).0.drop_first() == split_spec(rest).0,
        split_spec(seq![f] + rest).1 == split_spec(rest).1,
{
    reveal_strlit("-M");
    reveal_strlit("--monitor-port");
    reveal_strlit("--poll");
    reveal_strlit("--first-poll");
    reveal_strlit("--gate-time");
    reveal_strlit("--max-start");
    reveal_strlit("--max-lifetime");
    reveal_strlit("--ssh-path");
    reveal_strlit("--pid-file");
    reveal_strlit("--log-file");
    reveal_strlit("--log-level");
    reveal_strlit("-f");
    reveal_strlit("-V");
    reveal_strlit("-1");
    reveal_strlit("--background");
    reveal_strlit("--version");
    reveal_strlit("--one-shot");
    reveal_strlit("--debug");
    reveal_strlit("--strict");
    reveal_strlit("--no-strict");
    reveal_strlit("--");
    let argv = seq![f] + rest;
    assert(argv[0] == f);
    assert(argv.drop_first() =~= rest);
    assert(f != "--"@) by {
        if f.len() == 2 {
            assert(f[1] != '-');
        }
    }
    assert(known_flags().contains(f)) by {
        if f == "-f"@ { assert(known_flags()[1] == f); }
        if f == "-V"@ { assert(known_flags()[2] == f); }
        if f == "-1"@ { assert(known_flags()[3] == f); }
        if f == "--background"@ { assert(known_flags()[5] == f); }
        if f == "--version"@ { assert(known_flags()[6] == f); }
        if f == "--one-shot"@ { assert(known_flags()[7] == f); }
        if f == "--debug"@ { assert(known_flags()[16] == f); }
        if f == "--strict"@ { assert(known_flags()[18] == f); }
        if f == "--no-strict"@ { assert(known_flags()[19] == f); }
    }
    assert forall|k: int| 0 <= k < value_flags().len() implies value_flags()[k] != f by {
        if f == "-f"@ {
            if k == 0 { assert(value_flags()[k][1] != f[1]); }
        }
        if f == "-V"@ {
            if k == 0 { assert(value_flags()[k][1] != f[1]); }
        }
        if f == "-1"@ {
            if k == 0 { assert(value_flags()[k][1] != f[1]); }
        }
        if f == "--background"@ {
            if k == 3 { assert(value_flags()[k][2] != f[2]); }
        }
        if f == "--one-shot"@ {
            if k == 7 { assert(value_flags()[k][2] != f[2]); }
            if k == 8 { assert(value_flags()[k][2] != f[2]); }
            if k == 9 { assert(value_flags()[k][2] != f[2]); }
        }
        if f == "--no-strict"@ {
            if k == 4 { assert(value_flags()[k][2] != f[2]); }
            if k == 5 { assert(value_flags()[k][2] != f[2]); }
            if k == 10 { assert(value_flags()[k][2] != f[2]); }
        }
    }
    assert(seq![f] + split_spec(rest).0 =~= split_spec(argv).0);
}

/// Law: a token that does not start with `-` is never a supervisor flag: an
/// argv that starts with one goes to ssh whole.
pub proof fn lemma_plain_token_starts_ssh_args(argv: Seq<Seq<char>>)
    requires
        argv.len() > 0,
        argv[0].len() == 0 || argv[0][0] != '-',
    ensures
        split_spec(argv).0.len() == 0,
        split_spec(argv).1 == argv,
{
    reveal_strlit("--");
    assert(argv[0] != "--"@) by {
        if argv[0] == "--"@ {
            assert("--"@[0] == '-');
        }
    }
    assert(!is_known_flag(argv[0])) by {
        assert forall|i: int| 0 <= i < known_flags().len() implies known_flags()[i] != argv[0] by {
            reveal_known_first_dash(i);
        }
        assert forall|i: int| 0 <= i < known_prefixes().len() implies !has_prefix(argv[0], #[trigger] known_prefixes()[i]) by {
            reveal_prefix_first_dash(i);
            if has_prefix(argv[0], known_prefixes()[i]) {
                assert(argv[0].take(known_prefixes()[i].len() as int)[0] == argv[0][0]);
            }
        }
    }
}

proof fn reveal_known_first_dash(i: int)
    requires
        0 <= i < known_flags().len(),
    ensures
        known_flags()[i].len() > 0 && known_flags()[i][0] == '-',
{
    reveal_strlit("-M");
    reveal_strlit("-f");
    reveal_strlit("-V");
    reveal_strlit("-1");
    reveal_strlit("--monitor-port");
    reveal_strlit("--background");
    reveal_strlit("--version");
    reveal_strlit("--one-shot");
    reveal_strlit("--poll");
    reveal_strlit("--first-poll");
    reveal_strlit("--gate-time");
    reveal_strlit("--max-start");
    reveal_strlit("--max-lifetime");
    reveal_strlit("--ssh-path");
    reveal_strlit("--pid-file");
    reveal_strlit("--log-file");
    reveal_strlit("--debug");
    reveal_strlit("--log-level");
    reveal_strlit("--strict");
    reveal_strlit("--no-strict");
}

proof fn reveal_prefix_first_dash(i: int)
    requires
        0 <= i < known_prefixes().len(),
    ensures
        known_prefixes()[i].len() > 0 && known_prefixes()[i][0] == '-',
{
    reveal_strlit("--monitor-port=");
    reveal_strlit("--poll=");
    reveal_strlit("--first-poll=");
    reveal_strlit("--gate-time=");
    reveal_strlit("--max-start=");
    reveal_strlit("--max-lifetime=");
    reveal_strlit("--ssh-path=");
    reveal_strlit("--pid-file=");
    reveal_strlit("--log-file=");
    reveal_strlit("--log-level=");
    reveal_strlit("-M");
}

/// Forces the gatetime to zero when `-f` was given (the unconditional
/// background-mode override); leaves the clock unchanged otherwise.
pub fn apply_dash_f_overrides(clock: &mut PollClock, dash_f: bool)
    ensures
        final(clock)@ == (PollClockView {
            gate_time: if dash_f { 0 } else { old(clock)@.gate_time },
            ..old(clock)@
        }),
{
    if dash_f {
        clock.gate_time = Span::zero();
    }
}

/// The first `:` split of `s`: the text before it and the text after it.
pub open spec fn split_once_colon(s: Seq<char>) -> Option<(Seq<char>, Seq<char>)>
    decreases s.len(),
{
    if s.len() == 0 {
        None
    } else if s[0] == ':' {
        Some((Seq::empty(), s.drop_first()))
    } else {
        match split_once_colon(s.drop_first()) {
            Some((a, b)) => Some((seq![s[0]] + a, b)),
            None => None,
        }
    }
}

proof fn lemma_split_once_colon(s: Seq<char>, k: int)
    requires
        0 <= k <= s.len(),
        forall|m: int| 0 <= m < k ==> s[m] != ':',
        k == s.len() || s[k] == ':',
    ensures
        split_once_colon(s) == (if k == s.len() { None } else { Some((s.take(k), s.skip(k + 1))) }),
    decreases s.len(),
{
    if s.len() > 0 && s[0] != ':' {
        lemma_split_once_colon(s.drop_first(), k - 1);
        if k < s.len() {
            assert(seq![s[0]] + s.drop_first().take(k - 1) =~= s.take(k));
            assert(s.drop_first().skip(k) =~= s.skip(k + 1));
        }
    } else if s.len() > 0 {
        assert(s.take(0) =~= Seq::<char>::empty());
        assert(s.skip(1) =~= s.drop_first());
    }
}

/// The parse of a `-M` value: absent or port `0` disables monitoring;
/// `<port>` monitors with a listener pair; `<port>:<echo>` with a remote
/// echo port. The error is the diagnostic for the first malformed number.
pub open spec fn monitor_value_spec(val: Option<Seq<char>>) -> Result<MonitorMode, Seq<char>> {
    match val {
        None => Ok(MonitorMode::Disabled),
        Some(s) => match split_once_colon(s) {
            Some((p, e)) => match parse_unsigned(p, 0xffff) {
                None => Err("invalid -M port '"@ + p + "'"@),
                Some(port) => match parse_unsigned(e, 0xffff) {
                    None => Err("invalid -M echo '"@ + e + "'"@),
                    Some(echo) => if port == 0 {
                        Ok(MonitorMode::Disabled)
                    } else {
                        Ok(MonitorMode::Active { port: port as u16, echo: Some(echo as u16) })
                    },
                },
            },
            None => match parse_unsigned(s, 0xffff) {
                None => Err("invalid -M port '"@ + s + "'"@),
                Some(port) => if port == 0 {
                    Ok(MonitorMode::Disabled)
                } else {
                    Ok(MonitorMode::Active { port: port as u16, echo: None })
                },
            },
        },
    }
}

fn quoted_error(head: &str, body: &str) -> (m: String)
    ensures
        m@ == head@ + body@ + "'"@,
{
    let mut m = String::from_str(head);
    m.append(body);
    m.append("'");
    m
}

/// Parses a `-M` / `--monitor-port` value into a [`MonitorMode`] (see
/// [`monitor_value_spec`]).
pub fn parse_monitor_value(val: Option<&str>) -> (r: Result<MonitorMode, String>)
    ensures
        match r {
            Ok(m) => monitor_value_spec(match val { Some(v) => Some(v@), None => None }) == Ok::<MonitorMode, Seq<char>>(m),
            Err(msg) => monitor_value_spec(match val { Some(v) => Some(v@), None => None }) == Err::<MonitorMode, Seq<char>>(msg@),
        },
{
    let s = match val {
        None => {
            return Ok(MonitorMode::Disabled);
        },
        Some(s) => s,
    };
    let v = crate::text::chars_of(s);
    let mut k: usize = 0;
    while k < v.len() && v[k] != ':'
        invariant
            k <= v@.len(),
            forall|m: int| 0 <= m < k ==> v@[m] != ':',
        decreases v.len() - k,
    {
        k = k + 1;
    }
    proof {
        lemma_split_once_colon(s@, k as int);
    }
    if k < v.len() {
        let p = s.substring_char(0, k);
        let e = s.substring_char(k + 1, v.len());
        proof {
            assert(p@ =~= s@.take(k as int));
            assert(e@ =~= s@.skip(k + 1));
        }
        let port = match parse_u16(p) {
            Some(n) => n,
            None => {
                return Err(quoted_error("invalid -M port '", p));
            },
        };
        let echo = match parse_u16(e) {
            Some(n) => n,
            None => {
                return Err(quoted_error("invalid -M echo '", e));
            },
        };
        if port == 0 {
            return Ok(MonitorMode::Disabled);
        }
        return Ok(MonitorMode::Active { port, echo: Some(echo) });
    }
    let port = match parse_u16(s) {
        Some(n) => n,
        None => {
            return Err(quoted_error("invalid -M port '", s));
        },
    };
    if port == 0 {
        Ok(MonitorMode::Disabled)
    } else {
        Ok(MonitorMode::Active { port, echo: None })
    }
}

/// `--max-start <n>` as a retry-cap override: negative means unlimited;
/// values above `u32::MAX` saturate.
pub open spec fn max_start_flag(n: i64) -> Option<u32> {
    if n < 0 {
        None
    } else if n > u32::MAX {
        Some(u32::MAX)
    } else {
        Some(n as u32)
    }
}

/// The clock overrides given on a Default-mode command line.
pub open spec fn cli_clock_flags(cli: Cli) -> ClockFlagsView {
    ClockFlagsView {
        poll: match cli.poll {
            Some(n) => Some(secs_ns(n as int)),
            None => None,
        },
        first_poll: match cli.first_poll {
            Some(n) => Some(secs_ns(n as int)),
            None => None,
        },
        gate_time: match cli.gate_time {
            Some(n) => Some(secs_ns(n as int)),
            None => None,
        },
        max_start: match cli.max_start {
            Some(n) => Some(max_start_flag(n)),
            None => None,
        },
        max_lifetime: match cli.max_lifetime {
            Some(n) => Some(
                if n == 0 {
                    None
                } else {
                    Some(secs_ns(n as int))
                },
            ),
            None => None,
        },
    }
}

fn secs_opt(n: Option<u64>) -> (r: Option<Span>)
    ensures
        opt_span(r) == match n {
            Some(k) => Some(secs_ns(k as int)),
            None => None::<int>,
        },
{
    match n {
        Some(k) => Some(Span::from_secs(k)),
        None => None,
    }
}

impl Cli {
    /// The clock overrides of this command line: seconds become spans,
    /// `--max-start -1` means unlimited (larger caps saturate) and `--max-lifetime 0` means
    /// unlimited.
    pub fn clock_flags(&self) -> (f: ClockFlags)
        ensures
            f@ == cli_clock_flags(*self),
    {
        let max_start = match self.max_start {
            Some(n) => {
                if n < 0 {
                    Some(None)
                } else if n > 0xffff_ffff {
                    Some(Some(u32::MAX))
                } else {
                    Some(Some(n as u32))
                }
            },
            None => None,
        };
        let max_lifetime = match self.max_lifetime {
            Some(n) => {
                if n == 0 {
                    Some(None)
                } else {
                    Some(Some(Span::from_secs(n)))
                }
            },
            None => None,
        };
        ClockFlags {
            poll: secs_opt(self.poll),
            first_poll: secs_opt(self.first_poll),
            gate_time: secs_opt(self.gate_time),
            max_start,
            max_lifetime,
        }
    }
}

/// A path given on the command line, else the one bound to `key` in the
/// environment.
pub open spec fn path_from_cli_or_env(cli_path: Option<Seq<char>>, vars: Seq<(String, String)>, key: Seq<char>) -> Option<
    Seq<char>,
> {
    match cli_path {
        Some(p) => Some(p),
        None => env_get(vars, key),
    }
}

fn from_cli_or_env(cli_path: &Option<String>, env: &EnvSnapshot, key: &str) -> (r: Option<String>)
    ensures
        match r {
            Some(p) => path_from_cli_or_env(match cli_path { Some(c) => Some(c@), None => None }, env.vars@, key@) == Some(p@),
            None => path_from_cli_or_env(match cli_path { Some(c) => Some(c@), None => None }, env.vars@, key@) is None,
        },
{
    match cli_path {
        Some(p) => Some(p.clone()),
        None => match env.get_str(key) {
            Some(v) => Some(String::from_str(v)),
            None => None,
        },
    }
}

/// The pidfile path: `--pid-file` wins over `AUTOSSH_PIDFILE`.
pub fn pidfile_path_from_cli_or_env(cli_path: &Option<String>, env: &EnvSnapshot) -> (r: Option<String>)
    ensures
        match r {
            Some(p) => path_from_cli_or_env(match cli_path { Some(c) => Some(c@), None => None }, env.vars@, "AUTOSSH_PIDFILE"@) == Some(p@),
            None => path_from_cli_or_env(match cli_path { Some(c) => Some(c@), None => None }, env.vars@, "AUTOSSH_PIDFILE"@) is None,
        },
{
    from_cli_or_env(cli_path, env, "AUTOSSH_PIDFILE")
}

/// The logfile path: `--log-file` wins over `AUTOSSH_LOGFILE`.
pub fn logfile_path_from_cli_or_env(cli_path: &Option<String>, env: &EnvSnapshot) -> (r: Option<String>)
    ensures
        match r {
            Some(p) => path_from_cli_or_env(match cli_path { Some(c) => Some(c@), None => None }, env.vars@, "AUTOSSH_LOGFILE"@) == Some(p@),
            None => path_from_cli_or_env(match cli_path { Some(c) => Some(c@), None => None }, env.vars@, "AUTOSSH_LOGFILE"@) is None,
        },
{
    from_cli_or_env(cli_path, env, "AUTOSSH_LOGFILE")
}

/// The `-M` value in force: `AUTOSSH_PORT`, when set, overrides the value
/// given on the command line.
pub open spec fn monitor_value_in_force(cli_value: Option<Seq<char>>, vars: Seq<(String, String)>) -> Option<Seq<char>> {
    match env_get(vars, "AUTOSSH_PORT"@) {
        Some(p) => Some(p),
        None => cli_value,
    }
}

/// The `-M` value in force (see [`monitor_value_in_force`]), to be parsed
/// with [`parse_monitor_value`].
pub fn monitor_value_from_cli_or_env(cli_value: &Option<String>, env: &EnvSnapshot) -> (r: Option<String>)
    ensures
        match r {
            Some(v) => monitor_value_in_force(match cli_value { Some(c) => Some(c@), None => None }, env.vars@) == Some(v@),
            None => monitor_value_in_force(match cli_value { Some(c) => Some(c@), None => None }, env.vars@) is None,
        },
{
    match env.get_str("AUTOSSH_PORT") {
        Some(p) => Some(String::from_str(p)),
        None => match cli_value {
            Some(c) => Some(c.clone()),
            None => None,
        },
    }
}

/// Law: what a `-M` value means: none, or port `0` (with or without an
/// echo port), disables monitoring; a port `p > 0` monitors with a listener
/// pair; `p:e` monitors with the remote echo port `e`.
pub proof fn lemma_monitor_values(p: u16, e: u16)
    ensures
        monitor_value_spec(None) == Ok::<MonitorMode, Seq<char>>(MonitorMode::Disabled),
        monitor_value_spec(Some(decimal(0))) == Ok::<MonitorMode, Seq<char>>(MonitorMode::Disabled),
        monitor_value_spec(Some(decimal(0) + ":"@ + decimal(e as nat))) == Ok::<MonitorMode, Seq<char>>(
            MonitorMode::Disabled,
        ),
        p > 0 ==> monitor_value_spec(Some(decimal(p as nat))) == Ok::<MonitorMode, Seq<char>>(
            MonitorMode::Active { port: p, echo: None },
        ),
        p > 0 ==> monitor_value_spec(Some(decimal(p as nat) + ":"@ + decimal(e as nat))) == Ok::<MonitorMode, Seq<char>>(
            MonitorMode::Active { port: p, echo: Some(e) },
        ),
{
    reveal_strlit(":");
    lemma_decimal_reads_back(0);
    lemma_decimal_reads_back(p as nat);
    lemma_decimal_reads_back(e as nat);
    assert(parse_unsigned(decimal(0), 0xffff) == Some(0int));
    assert(parse_unsigned(decimal(p as nat), 0xffff) == Some(p as int));
    assert(parse_unsigned(decimal(e as nat), 0xffff) == Some(e as int));
    no_colon_in_decimal(0);
    no_colon_in_decimal(p as nat);
    for_pair(0, e as nat);
    for_pair(p as nat, e as nat);
}

proof fn no_colon_in_decimal(n: nat)
    ensures
        split_once_colon(decimal(n)) is None,
{
    lemma_decimal_reads_back(n);
    let d = decimal(n);
    assert forall|m: int| 0 <= m < d.len() implies d[m] != ':' by {
        assert(crate::text::is_digit(d[m]));
    }
    lemma_split_once_colon(d, d.len() as int);
}

proof fn for_pair(p: nat, e: nat)
    ensures
        split_once_colon(decimal(p) + ":"@ + decimal(e)) == Some((decimal(p), decimal(e))),
{
    reveal_strlit(":");
    lemma_decimal_reads_back(p);
    let a = decimal(p);
    let s = a + ":"@ + decimal(e);
    assert forall|m: int| 0 <= m < a.len() implies s[m] != ':' by {
        assert(s[m] == a[m]);
        assert(crate::text::is_digit(a[m]));
    }
    assert(s[a.len() as int] == ':');
    lemma_split_once_colon(s, a.len() as int);
    assert(s.take(a.len() as int) =~= a);
    assert(s.skip(a.len() as int + 1) =~= decimal(e));
}

/// Law: a `-M` value without `:` that holds anything but decimal digits
/// (after an optional leading `+`) is refused with a diagnostic quoting it.
pub proof fn lemma_monitor_value_rejects_non_digits(v: Seq<char>, k: int)
    requires
        forall|m: int| 0 <= m < v.len() ==> v[m] != ':',
        0 <= k < v.len(),
        !crate::text::is_digit(v[k]),
        !(k == 0 && v[0] == '+'),
    ensures
        monitor_value_spec(Some(v)) == Err::<MonitorMode, Seq<char>>("invalid -M port '"@ + v + "'"@),
{
    lemma_split_once_colon(v, v.len() as int);
    let d = if v.len() > 0 && v[0] == '+' { v.drop_first() } else { v };
    if v[0] == '+' {
        assert(d[k - 1] == v[k]);
    }
}

} // verus!
