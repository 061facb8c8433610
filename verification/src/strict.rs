//! Strict-mode (upstream-compatible) argv parser.
//!
//! Accepts the short flags `-M <port[:echo]>`, `-f`, `-V` and `-1`, rejects
//! every other flag with the upstream diagnostic, and passes the remaining
//! tokens to ssh.

use vstd::prelude::*;

use crate::text::{chars_eq, chars_of, has_prefix, push_char, slice_chars};
use crate::AutosshError;

verus! {

/// One command-line token.
///
/// `text` is the token itself, or its lossy Unicode rendering when the
/// token is not valid Unicode (`is_unicode == false`).
#[derive(Debug, Clone)]
pub struct ArgToken {
    /// The token, lossily converted when not valid Unicode.
    pub text: String,
    /// Whether the original token was valid Unicode.
    pub is_unicode: bool,
}

impl ArgToken {
    /// A token that is valid Unicode.
    pub fn unicode(text: String) -> (t: ArgToken)
        ensures
            t.text == text,
            t.is_unicode,
    {
        ArgToken { text, is_unicode: true }
    }
}

/// Result of a successful Strict-mode parse.
#[derive(Debug, Clone)]
pub struct StrictArgs {
    /// `-M <port[:echo]>` value when supplied.
    pub monitor: Option<String>,
    /// `-f` background flag.
    pub background: bool,
    /// `-V` version flag.
    pub version: bool,
    /// `-1` one-shot flag.
    pub one_shot: bool,
    /// Tokens passed verbatim to ssh.
    pub ssh_args: Vec<String>,
}

/// Mathematical view of [`StrictArgs`].
#[verifier::ext_equal]
pub struct StrictArgsView {
    /// `-M` value.
    pub monitor: Option<Seq<char>>,
    /// `-f`.
    pub background: bool,
    /// `-V`.
    pub version: bool,
    /// `-1`.
    pub one_shot: bool,
    /// ssh passthrough tokens.
    pub ssh_args: Seq<Seq<char>>,
}

impl View for StrictArgs {
    type V = StrictArgsView;

    open spec fn view(&self) -> StrictArgsView {
        StrictArgsView {
            monitor: match self.monitor {
                Some(m) => Some(m@),
                None => None,
            },
            background: self.background,
            version: self.version,
            one_shot: self.one_shot,
            ssh_args: self.ssh_args.deep_view(),
        }
    }
}

/// The view of a parse that has seen no token.
pub open spec fn empty_args() -> StrictArgsView {
    StrictArgsView { monitor: None, background: false, version: false, one_shot: false, ssh_args: Seq::empty() }
}

impl Default for StrictArgs {
    fn default() -> (a: Self)
        ensures
            a@ == empty_args(),
    {
        let ssh_args: Vec<String> = Vec::new();
        proof {
            assert(ssh_args.deep_view() =~= Seq::<Seq<char>>::empty());
        }
        StrictArgs { monitor: None, background: false, version: false, one_shot: false, ssh_args }
    }
}

/// Errors of the Strict-mode parser.
#[non_exhaustive]
#[derive(Debug)]
pub enum StrictError {
    /// A rejected short flag; the payload is the upstream stderr line.
    UnknownShort(String),
    /// A rejected long flag or subcommand; the payload is the upstream
    /// stderr line.
    UnknownLong(String),
    /// A flag value is missing (`-M` as the last token).
    MissingValue(char),
    /// Any other failure.
    Internal(String),
}

/// Mathematical view of a [`StrictError`].
pub enum StrictErrorView {
    /// A rejected short flag.
    UnknownShort(Seq<char>),
    /// A rejected long flag or subcommand.
    UnknownLong(Seq<char>),
    /// A missing flag value.
    MissingValue(char),
    /// Any other failure.
    Internal(Seq<char>),
}

impl View for StrictError {
    type V = StrictErrorView;

    open spec fn view(&self) -> StrictErrorView {
        match self {
            StrictError::UnknownShort(s) => StrictErrorView::UnknownShort(s@),
            StrictError::UnknownLong(s) => StrictErrorView::UnknownLong(s@),
            StrictError::MissingValue(c) => StrictErrorView::MissingValue(*c),
            StrictError::Internal(s) => StrictErrorView::Internal(s@),
        }
    }
}

/// The stderr line of a [`StrictError`].
pub open spec fn strict_error_message(e: StrictErrorView) -> Seq<char> {
    match e {
        StrictErrorView::UnknownShort(s) => s,
        StrictErrorView::UnknownLong(s) => s,
        StrictErrorView::MissingValue(c) => "autossh: option requires an argument -- '"@ + seq![c] + "'"@,
        StrictErrorView::Internal(s) => "strict parse failed: "@ + s,
    }
}

impl StrictError {
    /// The stderr line for this error.
    pub fn message(&self) -> (m: String)
        ensures
            m@ == strict_error_message(self@),
    {
        match self {
            StrictError::UnknownShort(s) => s.clone(),
            StrictError::UnknownLong(s) => s.clone(),
            StrictError::MissingValue(c) => {
                let mut m = String::from_str("autossh: option requires an argument -- '");
                push_char(&mut m, *c);
                m.append("'");
                proof {
                    assert(m@ =~= strict_error_message(self@));
                }
                m
            },
            StrictError::Internal(s) => {
                let mut m = String::from_str("strict parse failed: ");
                m.append(s.as_str());
                m
            },
        }
    }
}

/// The library-level error for a Strict parse failure.
pub open spec fn strict_error_as_autossh() -> AutosshError {
    AutosshError::Internal("strict parse error")
}

impl From<StrictError> for AutosshError {
    fn from(err: StrictError) -> (e: AutosshError)
        ensures
            e == strict_error_as_autossh(),
    {
        AutosshError::Internal("strict parse error")
    }
}

impl vstd::std_specs::convert::FromSpecImpl<StrictError> for AutosshError {
    open spec fn obeys_from_spec() -> bool {
        true
    }

    open spec fn from_spec(v: StrictError) -> AutosshError {
        strict_error_as_autossh()
    }
}

/// The upstream diagnostic for an unknown flag or token: long flags and
/// bare tokens are "unrecognized option", short flags are "invalid option"
/// naming their first character (`?` when there is none).
pub open spec fn unknown_flag_message(t: Seq<char>) -> Seq<char> {
    if has_prefix(t, "--"@) {
        "autossh: unrecognized option '"@ + t + "'"@
    } else if has_prefix(t, "-"@) {
        "autossh: invalid option -- '"@ + seq![if t.len() > 1 { t[1] } else { '?' }] + "'"@
    } else {
        "autossh: unrecognized option '"@ + t + "'"@
    }
}

/// Formats an unknown-flag stderr line the way upstream autossh does:
/// `autossh: unrecognized option '--name'` for a long flag or a bare token,
/// `autossh: invalid option -- 'c'` for a short flag.
pub fn format_unknown_flag(token: &str) -> (m: String)
    ensures
        m@ == unknown_flag_message(token@),
{
    let v = chars_of(token);
    proof {
        reveal_strlit("--");
        reveal_strlit("-");
    }
    if v.len() >= 2 && v[0] == '-' && v[1] == '-' {
        let mut m = String::from_str("autossh: unrecognized option '");
        m.append(token);
        m.append("'");
        proof {
            assert(token@.take(2) =~= "--"@);
        }
        m
    } else if v.len() >= 1 && v[0] == '-' {
        let first = if v.len() > 1 { v[1] } else { '?' };
        let mut m = String::from_str("autossh: invalid option -- '");
        push_char(&mut m, first);
        m.append("'");
        proof {
            assert(token@.take(1) =~= "-"@);
            if has_prefix(token@, "--"@) {
                assert(token@[1] == "--"@[1]);
            }
            assert(m@ =~= unknown_flag_message(token@));
        }
        m
    } else {
        let mut m = String::from_str("autossh: unrecognized option '");
        m.append(token);
        m.append("'");
        proof {
            if has_prefix(token@, "--"@) {
                assert(token@[0] == "--"@[0]);
            }
            if has_prefix(token@, "-"@) {
                assert(token@[0] == "-"@[0]);
            }
        }
        m
    }
}

/// The part of a long flag's name before the first `=`.
pub open spec fn long_name(rest: Seq<char>) -> Seq<char>
    decreases rest.len(),
{
    if rest.len() == 0 || rest[0] == '=' {
        Seq::empty()
    } else {
        seq![rest[0]] + long_name(rest.drop_first())
    }
}

/// `out` with `t` appended to the ssh passthrough tokens.
pub open spec fn pass_token(out: StrictArgsView, t: Seq<char>) -> StrictArgsView {
    StrictArgsView { ssh_args: out.ssh_args.push(t), ..out }
}

/// The Strict-mode parse of `argv[i..]`, continuing from the state
/// (`passthrough`, `out`), walking the tokens left to right:
/// - a non-Unicode token is passed to ssh;
/// - after `--` or the first bare token, everything is passed to ssh;
/// - `--strict` / `--no-strict` (also with `=value`) are skipped, any other
///   `--name` is rejected;
/// - `-1`, `-f`, `-V` set their flags, `-M` takes an inline value or the
///   next token, a lone `-` is passed to ssh, any other short flag is
///   rejected (only the first character after `-` is examined);
/// - the bare token `completions` is rejected.
pub open spec fn parse_from(argv: Seq<ArgToken>, i: int, passthrough: bool, out: StrictArgsView) -> Result<
    StrictArgsView,
    StrictErrorView,
>
    decreases argv.len() - i,
{
    if i < 0 || i >= argv.len() {
        Ok(out)
    } else {
        let a = argv[i];
        let t = a.text@;
        if !a.is_unicode || passthrough {
            parse_from(argv, i + 1, passthrough, pass_token(out, t))
        } else if t == "--"@ {
            parse_from(argv, i + 1, true, out)
        } else if has_prefix(t, "--"@) {
            let name = long_name(t.skip(2));
            if name == "strict"@ || name == "no-strict"@ {
                parse_from(argv, i + 1, false, out)
            } else {
                Err(StrictErrorView::UnknownLong(unknown_flag_message(t)))
            }
        } else if has_prefix(t, "-"@) {
            let rest = t.skip(1);
            if rest == "1"@ {
                parse_from(argv, i + 1, false, StrictArgsView { one_shot: true, ..out })
            } else if rest.len() == 0 {
                parse_from(argv, i + 1, false, pass_token(out, t))
            } else if rest[0] == 'M' {
                let inline = rest.skip(1);
                if inline.len() > 0 {
                    parse_from(argv, i + 1, false, StrictArgsView { monitor: Some(inline), ..out })
                } else if i + 1 < argv.len() {
                    parse_from(argv, i + 2, false, StrictArgsView { monitor: Some(argv[i + 1].text@), ..out })
                } else {
                    Err(StrictErrorView::MissingValue('M'))
                }
            } else if rest[0] == 'f' {
                parse_from(argv, i + 1, false, StrictArgsView { background: true, ..out })
            } else if rest[0] == 'V' {
                parse_from(argv, i + 1, false, StrictArgsView { version: true, ..out })
            } else {
                Err(StrictErrorView::UnknownShort(unknown_flag_message(t)))
            }
        } else if t == "completions"@ {
            Err(StrictErrorView::UnknownLong(unknown_flag_message(t)))
        } else {
            parse_from(argv, i + 1, true, pass_token(out, t))
        }
    }
}

/// The Strict-mode parse of a whole argv.
pub open spec fn parse_spec(argv: Seq<ArgToken>) -> Result<StrictArgsView, StrictErrorView> {
    parse_from(argv, 0, false, empty_args())
}


proof fn lemma_long_name(s: Seq<char>, k: int)
    requires
        0 <= k <= s.len(),
        forall|m: int| 0 <= m < k ==> s[m] != '=',
        k == s.len() || s[k] == '=',
    ensures
        long_name(s) =~= s.take(k),
    decreases s.len(),
{
    if s.len() > 0 && s[0] != '=' {
        lemma_long_name(s.drop_first(), k - 1);
        assert(s.take(k) =~= seq![s[0]] + s.drop_first().take(k - 1));
    }
}

/// Parses a Strict-mode argv (see [`parse_from`] for the rules).
pub fn parse_argv(argv: &Vec<ArgToken>) -> (r: Result<StrictArgs, StrictError>)
    ensures
        match r {
            Ok(a) => parse_spec(argv@) == Ok::<StrictArgsView, StrictErrorView>(a@),
            Err(e) => parse_spec(argv@) == Err::<StrictArgsView, StrictErrorView>(e@),
        },
{
    let mut out = StrictArgs::default();
    let mut i: usize = 0;
    let mut passthrough = false;
    let strict_name = chars_of("strict");
    let no_strict_name = chars_of("no-strict");
    proof {
        reveal_strlit("--");
        reveal_strlit("-");
        reveal_strlit("1");
    }
    while i < argv.len()
        invariant
            i <= argv@.len(),
            strict_name@ == "strict"@,
            no_strict_name@ == "no-strict"@,
            "--"@ == seq!['-', '-'],
            "-"@ == seq!['-'],
            "1"@ == seq!['1'],
            parse_spec(argv@) == parse_from(argv@, i as int, passthrough, out@),
        decreases argv.len() - i,
    {
        let a = &argv[i];
        let ghost prev = out@;
        let ghost t = a.text@;
        if !a.is_unicode || passthrough {
            out.ssh_args.push(a.text.clone());
            proof {
                assert(out@ =~= pass_token(prev, t));
            }
            i = i + 1;
            continue;
        }
        let v = chars_of(a.text.as_str());
        let n = v.len();
        if n == 2 && v[0] == '-' && v[1] == '-' {
            proof {
                assert(t =~= "--"@);
            }
            passthrough = true;
            i = i + 1;
            continue;
        }
        proof {
            assert(t != "--"@);
        }
        if n >= 2 && v[0] == '-' && v[1] == '-' {
            proof {
                assert(has_prefix(t, "--"@)) by {
                    assert(t.take(2) =~= "--"@);
                }
            }
            let mut j: usize = 2;
            while j < n && v[j] != '='
                invariant
                    2 <= j <= n,
                    n == v@.len(),
                    forall|m: int| 2 <= m < j ==> v@[m] != '=',
                decreases n - j,
            {
                j = j + 1;
            }
            let name = slice_chars(&v, 2, j);
            proof {
                lemma_long_name(t.skip(2), j - 2);
                assert(name@ =~= t.skip(2).take(j - 2));
            }
            if chars_eq(&name, &strict_name) || chars_eq(&name, &no_strict_name) {
                i = i + 1;
                continue;
            }
            return Err(StrictError::UnknownLong(format_unknown_flag(a.text.as_str())));
        }
        proof {
            if has_prefix(t, "--"@) {
                assert(t[0] == t.take(2)[0] && t[1] == t.take(2)[1]);
            }
        }
        if n >= 1 && v[0] == '-' {
            proof {
                assert(has_prefix(t, "-"@)) by {
                    assert(t.take(1) =~= "-"@);
                }
            }
            let ghost rest = t.skip(1);
            if n == 2 && v[1] == '1' {
                proof {
                    assert(rest =~= "1"@);
                }
                out.one_shot = true;
                i = i + 1;
                continue;
            }
            proof {
                assert(rest != "1"@) by {
                    if rest == "1"@ {
                        assert(rest.len() == 1 && rest[0] == '1');
                    }
                }
            }
            if n == 1 {
                out.ssh_args.push(a.text.clone());
                proof {
                    assert(rest.len() == 0);
                    assert(out@ =~= pass_token(prev, t));
                }
                i = i + 1;
                continue;
            }
            let first = v[1];
            proof {
                assert(rest[0] == first);
            }
            if first == 'M' {
                if n > 2 {
                    let inline = a.text.as_str().substring_char(2, n);
                    out.monitor = Some(String::from_str(inline));
                    proof {
                        assert(rest.skip(1) =~= t.subrange(2, n as int));
                        assert(out@ =~= (StrictArgsView { monitor: Some(rest.skip(1)), ..prev }));
                    }
                    i = i + 1;
                } else if i + 1 < argv.len() {
                    proof {
                        assert(rest.skip(1).len() == 0);
                    }
                    out.monitor = Some(argv[i + 1].text.clone());
                    proof {
                        assert(out@ =~= (StrictArgsView { monitor: Some(argv@[i + 1].text@), ..prev }));
                    }
                    i = i + 2;
                } else {
                    return Err(StrictError::MissingValue('M'));
                }
                continue;
            } else if first == 'f' {
                out.background = true;
            } else if first == 'V' {
                out.version = true;
            } else {
                return Err(StrictError::UnknownShort(format_unknown_flag(a.text.as_str())));
            }
            proof {
                assert(out@ =~= (StrictArgsView { background: out@.background, version: out@.version, ..prev }));
            }
            i = i + 1;
            continue;
        }
        proof {
            if has_prefix(t, "-"@) {
                assert(t[0] == t.take(1)[0]);
            }
        }
        if crate::text::str_eq(a.text.as_str(), "completions") {
            return Err(StrictError::UnknownLong(format_unknown_flag(a.text.as_str())));
        }
        out.ssh_args.push(a.text.clone());
        passthrough = true;
        proof {
            assert(out@ =~= pass_token(prev, t));
        }
        i = i + 1;
    }
    Ok(out)
}

/// The texts of the tokens `argv[i..]`.
pub open spec fn texts_from(argv: Seq<ArgToken>, i: int) -> Seq<Seq<char>> {
    argv.subrange(i, argv.len() as int).map_values(|a: ArgToken| a.text@)
}

/// Law: once the parse passes tokens through (after `--` or the first bare
/// token), every remaining token goes to ssh verbatim and in order, and
/// nothing else of the result changes.
pub proof fn lemma_passthrough_verbatim(argv: Seq<ArgToken>, i: int, out: StrictArgsView)
    requires
        0 <= i <= argv.len(),
    ensures
        parse_from(argv, i, true, out) == Ok::<StrictArgsView, StrictErrorView>(
            StrictArgsView { ssh_args: out.ssh_args + texts_from(argv, i), ..out },
        ),
    decreases argv.len() - i,
{
    if i < argv.len() {
        lemma_passthrough_verbatim(argv, i + 1, pass_token(out, argv[i].text@));
        assert(texts_from(argv, i) =~= seq![argv[i].text@] + texts_from(argv, i + 1));
        assert(out.ssh_args.push(argv[i].text@) + texts_from(argv, i + 1) =~= out.ssh_args + texts_from(argv, i));
    } else {
        assert(texts_from(argv, i) =~= Seq::<Seq<char>>::empty());
        assert(out.ssh_args + texts_from(argv, i) =~= out.ssh_args);
    }
}

/// Law: an argv that starts with `--` parses successfully, sets no flag,
/// and passes every token after the `--` to ssh verbatim, even tokens that
/// look like supervisor flags.
pub proof fn lemma_double_dash_passes_rest(argv: Seq<ArgToken>)
    requires
        argv.len() >= 1,
        argv[0].is_unicode,
        argv[0].text@ == "--"@,
    ensures
        parse_spec(argv) == Ok::<StrictArgsView, StrictErrorView>(
            StrictArgsView { ssh_args: texts_from(argv, 1), ..empty_args() },
        ),
{
    lemma_passthrough_verbatim(argv, 1, empty_args());
    assert(empty_args().ssh_args + texts_from(argv, 1) =~= texts_from(argv, 1));
}

/// `a` with the one-shot, background and version flags raised where the
/// arguments say so.
pub open spec fn raised(a: StrictArgsView, one_shot: bool, background: bool, version: bool) -> StrictArgsView {
    StrictArgsView {
        one_shot: a.one_shot || one_shot,
        background: a.background || background,
        version: a.version || version,
        ..a
    }
}

/// A parse result with the flags raised on success.
pub open spec fn raised_result(
    r: Result<StrictArgsView, StrictErrorView>,
    one_shot: bool,
    background: bool,
    version: bool,
) -> Result<StrictArgsView, StrictErrorView> {
    match r {
        Ok(a) => Ok(raised(a, one_shot, background, version)),
        Err(e) => Err(e),
    }
}

/// A parse result whose `-M` value is `m` on success when the parse set
/// none.
pub open spec fn monitor_default(r: Result<StrictArgsView, StrictErrorView>, m: Seq<char>) -> Result<
    StrictArgsView,
    StrictErrorView,
> {
    match r {
        Ok(a) => Ok(
            if a.monitor is None {
                StrictArgsView { monitor: Some(m), ..a }
            } else {
                a
            },
        ),
        Err(e) => Err(e),
    }
}

#[verifier::rlimit(60)]
#[verifier::spinoff_prover]
proof fn lemma_shift(a: ArgToken, rest: Seq<ArgToken>, i: int, p: bool, out: StrictArgsView)
    requires
        0 <= i <= rest.len(),
    ensures
        parse_from(seq![a] + rest, i + 1, p, out) == parse_from(rest, i, p, out),
    decreases rest.len() - i,
{
    let argv = seq![a] + rest;
    if i < rest.len() {
        assert(argv[i + 1] == rest[i]);
        if i + 1 < rest.len() {
            assert(argv[i + 2] == rest[i + 1]);
        }
        let t = rest[i].text@;
        lemma_shift(a, rest, i + 1, true, pass_token(out, t));
        lemma_shift(a, rest, i + 1, true, out);
        lemma_shift(a, rest, i + 1, false, out);
        lemma_shift(a, rest, i + 1, false, pass_token(out, t));
        lemma_shift(a, rest, i + 1, false, StrictArgsView { one_shot: true, ..out });
        lemma_shift(a, rest, i + 1, false, StrictArgsView { background: true, ..out });
        lemma_shift(a, rest, i + 1, false, StrictArgsView { version: true, ..out });
        lemma_shift(a, rest, i + 1, false, StrictArgsView { monitor: Some(t.skip(1).skip(1)), ..out });
        if i + 1 < rest.len() {
            lemma_shift(a, rest, i + 2, false, StrictArgsView { monitor: Some(rest[i + 1].text@), ..out });
        }
    }
}

#[verifier::rlimit(100)]
#[verifier::spinoff_prover]
proof fn lemma_raise(argv: Seq<ArgToken>, i: int, p: bool, out: StrictArgsView, o: bool, b: bool, v: bool)
    requires
        0 <= i,
    ensures
        parse_from(argv, i, p, raised(out, o, b, v)) == raised_result(parse_from(argv, i, p, out), o, b, v),
    decreases argv.len() - i,
{
    if i < argv.len() {
        let a = argv[i];
        let t = a.text@;
        if !a.is_unicode || p {
                lemma_raise(argv, i + 1, p, pass_token(out, t), o, b, v);
                assert(raised(pass_token(out, t), o, b, v) == pass_token(raised(out, o, b, v), t));
        } else if t == "--"@ {
                lemma_raise(argv, i + 1, true, out, o, b, v);
                assert(raised(out, o, b, v) == raised(out, o, b, v));
        } else if has_prefix(t, "--"@) {
                lemma_raise(argv, i + 1, false, out, o, b, v);
                assert(raised(out, o, b, v) == raised(out, o, b, v));
        } else if has_prefix(t, "-"@) {
            let rest = t.skip(1);
            if rest == "1"@ {
                lemma_raise(argv, i + 1, false, StrictArgsView { one_shot: true, ..out }, o, b, v);
                assert(raised(StrictArgsView { one_shot: true, ..out }, o, b, v) == StrictArgsView { one_shot: true, ..raised(out, o, b, v) });
            } else if rest.len() == 0 {
                lemma_raise(argv, i + 1, false, pass_token(out, t), o, b, v);
                assert(raised(pass_token(out, t), o, b, v) == pass_token(raised(out, o, b, v), t));
            } else if rest[0] == 'M' {
                let inline = rest.skip(1);
                if inline.len() > 0 {
                lemma_raise(argv, i + 1, false, StrictArgsView { monitor: Some(inline), ..out }, o, b, v);
                assert(raised(StrictArgsView { monitor: Some(inline), ..out }, o, b, v) == StrictArgsView { monitor: Some(inline), ..raised(out, o, b, v) });
                } else if i + 1 < argv.len() {
                lemma_raise(argv, i + 2, false, StrictArgsView { monitor: Some(argv[i + 1].text@), ..out }, o, b, v);
                assert(raised(StrictArgsView { monitor: Some(argv[i + 1].text@), ..out }, o, b, v) == StrictArgsView { monitor: Some(argv[i + 1].text@), ..raised(out, o, b, v) });
                }
            } else if rest[0] == 'f' {
                lemma_raise(argv, i + 1, false, StrictArgsView { background: true, ..out }, o, b, v);
                assert(raised(StrictArgsView { background: true, ..out }, o, b, v) == StrictArgsView { background: true, ..raised(out, o, b, v) });
            } else if rest[0] == 'V' {
                lemma_raise(argv, i + 1, false, StrictArgsView { version: true, ..out }, o, b, v);
                assert(raised(StrictArgsView { version: true, ..out }, o, b, v) == StrictArgsView { version: true, ..raised(out, o, b, v) });
            }
        } else if t == "completions"@ {
        } else {
                lemma_raise(argv, i + 1, true, pass_token(out, t), o, b, v);
                assert(raised(pass_token(out, t), o, b, v) == pass_token(raised(out, o, b, v), t));
        }
    }
}

#[verifier::rlimit(60)]
#[verifier::spinoff_prover]
proof fn lemma_monitor_stays(argv: Seq<ArgToken>, i: int, p: bool, out: StrictArgsView)
    requires
        0 <= i,
        out.monitor is Some,
    ensures
        parse_from(argv, i, p, out) is Ok ==> parse_from(argv, i, p, out)->Ok_0.monitor is Some,
    decreases argv.len() - i,
{
    if i < argv.len() {
        let a = argv[i];
        let t = a.text@;
        if !a.is_unicode || p {
                lemma_monitor_stays(argv, i + 1, p, pass_token(out, t));
        } else if t == "--"@ {
                lemma_monitor_stays(argv, i + 1, true, out);
        } else if has_prefix(t, "--"@) {
                lemma_monitor_stays(argv, i + 1, false, out);
        } else if has_prefix(t, "-"@) {
            let rest = t.skip(1);
            if rest == "1"@ {
                lemma_monitor_stays(argv, i + 1, false, StrictArgsView { one_shot: true, ..out });
            } else if rest.len() == 0 {
                lemma_monitor_stays(argv, i + 1, false, pass_token(out, t));
            } else if rest[0] == 'M' {
                let inline = rest.skip(1);
                if inline.len() > 0 {
                lemma_monitor_stays(argv, i + 1, false, StrictArgsView { monitor: Some(inline), ..out });
                } else if i + 1 < argv.len() {
                lemma_monitor_stays(argv, i + 2, false, StrictArgsView { monitor: Some(argv[i + 1].text@), ..out });
                }
            } else if rest[0] == 'f' {
                lemma_monitor_stays(argv, i + 1, false, StrictArgsView { background: true, ..out });
            } else if rest[0] == 'V' {
                lemma_monitor_stays(argv, i + 1, false, StrictArgsView { version: true, ..out });
            }
        } else if t == "completions"@ {
        } else {
                lemma_monitor_stays(argv, i + 1, true, pass_token(out, t));
        }
    }
}

#[verifier::rlimit(60)]
#[verifier::spinoff_prover]
proof fn lemma_monitor_default(argv: Seq<ArgToken>, i: int, p: bool, out: StrictArgsView, m: Seq<char>)
    requires
        0 <= i,
        out.monitor is None,
    ensures
        parse_from(argv, i, p, StrictArgsView { monitor: Some(m), ..out }) == monitor_default(
            parse_from(argv, i, p, out),
            m,
        ),
    decreases argv.len() - i,
{
    if i < argv.len() {
        let a = argv[i];
        let t = a.text@;
        if !a.is_unicode || p {
                lemma_monitor_default(argv, i + 1, p, pass_token(out, t), m);
                assert(pass_token(StrictArgsView { monitor: Some(m), ..out }, t) == StrictArgsView { monitor: Some(m), ..pass_token(out, t) });
        } else if t == "--"@ {
                lemma_monitor_default(argv, i + 1, true, out, m);
                assert(StrictArgsView { monitor: Some(m), ..out } == StrictArgsView { monitor: Some(m), ..out });
        } else if has_prefix(t, "--"@) {
                lemma_monitor_default(argv, i + 1, false, out, m);
                assert(StrictArgsView { monitor: Some(m), ..out } == StrictArgsView { monitor: Some(m), ..out });
        } else if has_prefix(t, "-"@) {
            let rest = t.skip(1);
            if rest == "1"@ {
                lemma_monitor_default(argv, i + 1, false, StrictArgsView { one_shot: true, ..out }, m);
                assert(StrictArgsView { one_shot: true, ..StrictArgsView { monitor: Some(m), ..out } } == StrictArgsView { monitor: Some(m), ..StrictArgsView { one_shot: true, ..out } });
            } else if rest.len() == 0 {
                lemma_monitor_default(argv, i + 1, false, pass_token(out, t), m);
                assert(pass_token(StrictArgsView { monitor: Some(m), ..out }, t) == StrictArgsView { monitor: Some(m), ..pass_token(out, t) });
            } else if rest[0] == 'M' {
                let inline = rest.skip(1);
                if inline.len() > 0 {
                lemma_monitor_stays(argv, i + 1, false, StrictArgsView { monitor: Some(inline), ..out });
                assert(StrictArgsView { monitor: Some(inline), ..StrictArgsView { monitor: Some(m), ..out } } == StrictArgsView { monitor: Some(inline), ..out });
                } else if i + 1 < argv.len() {
                lemma_monitor_stays(argv, i + 2, false, StrictArgsView { monitor: Some(argv[i + 1].text@), ..out });
                assert(StrictArgsView { monitor: Some(argv[i + 1].text@), ..StrictArgsView { monitor: Some(m), ..out } } == StrictArgsView { monitor: Some(argv[i + 1].text@), ..out });
                }
            } else if rest[0] == 'f' {
                lemma_monitor_default(argv, i + 1, false, StrictArgsView { background: true, ..out }, m);
                assert(StrictArgsView { background: true, ..StrictArgsView { monitor: Some(m), ..out } } == StrictArgsView { monitor: Some(m), ..StrictArgsView { background: true, ..out } });
            } else if rest[0] == 'V' {
                lemma_monitor_default(argv, i + 1, false, StrictArgsView { version: true, ..out }, m);
                assert(StrictArgsView { version: true, ..StrictArgsView { monitor: Some(m), ..out } } == StrictArgsView { monitor: Some(m), ..StrictArgsView { version: true, ..out } });
            }
        } else if t == "completions"@ {
        } else {
                lemma_monitor_default(argv, i + 1, true, pass_token(out, t), m);
                assert(pass_token(StrictArgsView { monitor: Some(m), ..out }, t) == StrictArgsView { monitor: Some(m), ..pass_token(out, t) });
        }
    }
}

/// Law: `-1`, `-f` and `-V` only raise their flag: the parse of such a
/// token followed by `rest` is the parse of `rest` with that flag set, so
/// the tokens after it are still parsed as flags (an `-M` value after `-1`
/// is not passed to ssh).
pub proof fn lemma_short_switch_only_sets_flag(t: ArgToken, rest: Seq<ArgToken>)
    requires
        t.is_unicode,
        t.text@ == "-1"@ || t.text@ == "-f"@ || t.text@ == "-V"@,
    ensures
        parse_spec(seq![t] + rest) == raised_result(
            parse_spec(rest),
            t.text@ == "-1"@,
            t.text@ == "-f"@,
            t.text@ == "-V"@,
        ),
{
    reveal_strlit("-1");
    reveal_strlit("-f");
    reveal_strlit("-V");
    reveal_strlit("--");
    reveal_strlit("-");
    reveal_strlit("1");
    let argv = seq![t] + rest;
    let tt = t.text@;
    assert(argv[0] == t);
    assert(tt.len() == 2 && tt[0] == '-' && tt[1] != '-');
    assert("--"@[1] == '-');
    assert(tt != "--"@);
    assert(!has_prefix(tt, "--"@)) by {
        assert(tt.take(2)[1] == tt[1]);
    }
    assert(has_prefix(tt, "-"@)) by {
        assert(tt.take(1) =~= "-"@);
    }
    let o = tt == "-1"@;
    let b = tt == "-f"@;
    let v = tt == "-V"@;
    assert(tt.skip(1) =~= seq![tt[1]]);
    if o {
        assert(tt.skip(1) =~= "1"@);
    } else {
        assert(tt.skip(1) != "1"@) by {
            assert("1"@[0] == '1');
            assert(tt.skip(1)[0] == tt[1]);
        }
    }
    let e = empty_args();
    assert(raised(e, o, b, v) == (if o {
        StrictArgsView { one_shot: true, ..e }
    } else if b {
        StrictArgsView { background: true, ..e }
    } else {
        StrictArgsView { version: true, ..e }
    }));
    lemma_shift(t, rest, 0, false, raised(e, o, b, v));
    lemma_raise(rest, 0, false, e, o, b, v);
}

/// Law: `-M <value>` only sets the monitor value: the parse of `-M`, a
/// value and `rest` is the parse of `rest` with that `-M` value, unless
/// `rest` gives a later one, which wins.
pub proof fn lemma_dash_m_only_sets_monitor(t: ArgToken, value: ArgToken, rest: Seq<ArgToken>)
    requires
        t.is_unicode,
        t.text@ == "-M"@,
    ensures
        parse_spec(seq![t, value] + rest) == monitor_default(parse_spec(rest), value.text@),
{
    reveal_strlit("-M");
    reveal_strlit("--");
    reveal_strlit("-");
    reveal_strlit("1");
    let argv = seq![t, value] + rest;
    let tt = t.text@;
    assert(argv[0] == t);
    assert(argv[1] == value);
    assert(tt.len() == 2 && tt[0] == '-' && tt[1] != '-');
    assert("--"@[1] == '-');
    assert(tt != "--"@);
    assert(!has_prefix(tt, "--"@)) by {
        assert(tt.take(2)[1] == tt[1]);
    }
    assert(has_prefix(tt, "-"@)) by {
        assert(tt.take(1) =~= "-"@);
    }
    assert(tt.skip(1) =~= seq!['M']);
    assert(tt.skip(1) != "1"@) by {
        assert("1"@[0] == '1');
        assert(tt.skip(1)[0] == tt[1]);
    }
    assert(tt.skip(1).skip(1).len() == 0);
    let e = empty_args();
    let m = StrictArgsView { monitor: Some(value.text@), ..e };
    assert(seq![t, value] + rest =~= seq![t] + (seq![value] + rest));
    lemma_shift(t, seq![value] + rest, 1, false, m);
    lemma_shift(value, rest, 0, false, m);
    lemma_monitor_default(rest, 0, false, e, value.text@);
}

/// Law: a short flag other than `-M`, `-f`, `-V` and `-1` is rejected with
/// upstream's diagnostic naming its first letter, whatever follows it.
pub proof fn lemma_unknown_short_rejected(t: ArgToken, rest: Seq<ArgToken>)
    requires
        t.is_unicode,
        t.text@.len() >= 2,
        t.text@[0] == '-',
        t.text@[1] != '-' && t.text@[1] != 'M' && t.text@[1] != 'f' && t.text@[1] != 'V',
        t.text@ != "-1"@,
    ensures
        parse_spec(seq![t] + rest) == Err::<StrictArgsView, StrictErrorView>(
            StrictErrorView::UnknownShort("autossh: invalid option -- '"@ + seq![t.text@[1]] + "'"@),
        ),
{
    reveal_strlit("--");
    reveal_strlit("-");
    reveal_strlit("1");
    let tt = t.text@;
    let argv = seq![t] + rest;
    assert(argv[0] == t);
    assert(tt != "--"@) by {
        if tt == "--"@ {
            assert(tt[1] == "--"@[1]);
        }
    }
    assert(!has_prefix(tt, "--"@)) by {
        assert(tt.take(2)[1] == tt[1]);
    }
    assert(has_prefix(tt, "-"@)) by {
        assert(tt.take(1) =~= "-"@);
    }
    assert(tt.skip(1)[0] == tt[1]);
    assert(tt.skip(1) != "1"@) by {
        if tt.skip(1) == "1"@ {
            assert(tt =~= "-1"@) by {
                reveal_strlit("-1");
                assert(tt.len() == 2);
            }
        }
    }
}

/// Law: a long flag other than `--strict` and `--no-strict` is rejected
/// with upstream's diagnostic quoting it, whatever follows it.
pub proof fn lemma_unknown_long_rejected(t: ArgToken, rest: Seq<ArgToken>)
    requires
        t.is_unicode,
        t.text@.len() > 2,
        t.text@[0] == '-' && t.text@[1] == '-',
        forall|i: int| 0 <= i < t.text@.len() ==> t.text@[i] != '=',
        t.text@ != "--strict"@,
        t.text@ != "--no-strict"@,
    ensures
        parse_spec(seq![t] + rest) == Err::<StrictArgsView, StrictErrorView>(
            StrictErrorView::UnknownLong("autossh: unrecognized option '"@ + t.text@ + "'"@),
        ),
{
    reveal_strlit("--");
    reveal_strlit("--strict");
    reveal_strlit("--no-strict");
    let tt = t.text@;
    let argv = seq![t] + rest;
    assert(argv[0] == t);
    assert(tt != "--"@);
    assert(has_prefix(tt, "--"@)) by {
        assert(tt.take(2) =~= "--"@);
    }
    let body = tt.skip(2);
    lemma_long_name(body, body.len() as int);
    assert(body.take(body.len() as int) =~= body);
    assert(body != "strict"@) by {
        reveal_strlit("strict");
        if body == "strict"@ {
            assert(tt =~= tt.take(2) + body);
            assert(tt.take(2) =~= "--"@);
            assert("--"@ + "strict"@ =~= "--strict"@);
        }
    }
    assert(body != "no-strict"@) by {
        reveal_strlit("no-strict");
        if body == "no-strict"@ {
            assert(tt =~= tt.take(2) + body);
            assert(tt.take(2) =~= "--"@);
            assert("--"@ + "no-strict"@ =~= "--no-strict"@);
        }
    }
}

/// Law: a bare token (one that does not start with `-`) other than
/// `completions` ends the flags: it and every later token go to ssh
/// verbatim, and no flag is set. The bare token `completions` is refused
/// with upstream's diagnostic.
pub proof fn lemma_bare_token(t: ArgToken, rest: Seq<ArgToken>)
    requires
        t.is_unicode,
        t.text@.len() == 0 || t.text@[0] != '-',
    ensures
        t.text@ == "completions"@ ==> parse_spec(seq![t] + rest) == Err::<StrictArgsView, StrictErrorView>(
            StrictErrorView::UnknownLong("autossh: unrecognized option 'completions'"@),
        ),
        t.text@ != "completions"@ ==> parse_spec(seq![t] + rest) == Ok::<StrictArgsView, StrictErrorView>(
            StrictArgsView {
                monitor: None,
                background: false,
                version: false,
                one_shot: false,
                ssh_args: seq![t.text@] + texts_from(rest, 0),
            },
        ),
{
    reveal_strlit("--");
    reveal_strlit("-");
    reveal_strlit("completions");
    let tt = t.text@;
    let argv = seq![t] + rest;
    assert(argv[0] == t);
    assert(tt != "--"@) by {
        if tt == "--"@ {
            assert(tt[0] == '-');
        }
    }
    assert(!has_prefix(tt, "--"@)) by {
        if has_prefix(tt, "--"@) {
            assert(tt.take(2)[0] == tt[0]);
        }
    }
    assert(!has_prefix(tt, "-"@)) by {
        if has_prefix(tt, "-"@) {
            assert(tt.take(1)[0] == tt[0]);
        }
    }
    if tt == "completions"@ {
        assert(!has_prefix(tt, "--"@));
        assert(unknown_flag_message(tt) =~= "autossh: unrecognized option '"@ + tt + "'"@);
        reveal_strlit("autossh: unrecognized option 'completions'");
        reveal_strlit("autossh: unrecognized option '");
        reveal_strlit("'");
        assert("autossh: unrecognized option '"@ + "completions"@ + "'"@ =~= "autossh: unrecognized option 'completions'"@);
    } else {
        let out = pass_token(empty_args(), tt);
        lemma_passthrough_verbatim(argv, 1, out);
        assert(texts_from(argv, 1) =~= texts_from(rest, 0));
        assert(out.ssh_args + texts_from(argv, 1) =~= seq![tt] + texts_from(rest, 0));
    }
}

} // verus!
