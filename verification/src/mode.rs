//! Compatibility-mode resolution.
//!
//! Precedence, high to low: the last of `--strict` / `--no-strict` on the
//! command line; `RUSTY_AUTOSSH_STRICT` set to `1`, `true` or `yes`
//! (case-insensitive, surrounding whitespace ignored); an `argv[0]` whose
//! file stem is `autossh`; otherwise Default.

use vstd::prelude::*;

use crate::clock::{env_get, EnvSnapshot};
use crate::strict::ArgToken;
use crate::text::{chars_eq, chars_of, slice_chars};
use crate::CompatibilityMode;

verus! {

/// The mode chosen by the last `--strict` / `--no-strict` token, if any.
pub open spec fn flag_decision(args: Seq<ArgToken>) -> Option<CompatibilityMode>
    decreases args.len(),
{
    if args.len() == 0 {
        None
    } else if args.last().text@ == "--strict"@ {
        Some(CompatibilityMode::Strict)
    } else if args.last().text@ == "--no-strict"@ {
        Some(CompatibilityMode::Default)
    } else {
        flag_decision(args.drop_last())
    }
}

/// Unicode `White_Space`, the set `char::is_whitespace` tests.
pub open spec fn is_white_space(c: char) -> bool {
    ('\u{9}' <= c && c <= '\u{d}') || c == ' ' || c == '\u{85}' || c == '\u{a0}' || c == '\u{1680}'
        || ('\u{2000}' <= c && c <= '\u{200a}') || c == '\u{2028}' || c == '\u{2029}' || c == '\u{202f}'
        || c == '\u{205f}' || c == '\u{3000}'
}

/// `s` without leading white space.
pub open spec fn trim_start(s: Seq<char>) -> Seq<char>
    decreases s.len(),
{
    if s.len() > 0 && is_white_space(s[0]) {
        trim_start(s.drop_first())
    } else {
        s
    }
}

/// `s` without trailing white space.
pub open spec fn trim_end(s: Seq<char>) -> Seq<char>
    decreases s.len(),
{
    if s.len() > 0 && is_white_space(s.last()) {
        trim_end(s.drop_last())
    } else {
        s
    }
}

/// ASCII lower-casing of one character.
pub open spec fn ascii_lower(c: char) -> char {
    if 'A' <= c && c <= 'Z' {
        ((c as u32) + 32) as char
    } else {
        c
    }
}

/// Whether a `RUSTY_AUTOSSH_STRICT` value switches Strict mode on.
pub open spec fn strict_env_value(v: Seq<char>) -> bool {
    let w = trim_end(trim_start(v)).map_values(|c: char| ascii_lower(c));
    w == "1"@ || w == "true"@ || w == "yes"@
}

/// Whether the environment switches Strict mode on.
pub open spec fn env_strict(vars: Seq<(String, String)>) -> bool {
    match env_get(vars, "RUSTY_AUTOSSH_STRICT"@) {
        Some(v) => strict_env_value(v),
        None => false,
    }
}

/// Whether `c` separates path components: `/`, and also `\\` on Windows.
pub open spec fn is_sep(c: char, windows: bool) -> bool {
    c == '/' || (windows && c == '\\')
}

/// The characters after the last separator of `s`.
pub open spec fn tail_piece(s: Seq<char>, windows: bool) -> Seq<char>
    decreases s.len(),
{
    if s.len() == 0 || is_sep(s.last(), windows) {
        Seq::empty()
    } else {
        tail_piece(s.drop_last(), windows).push(s.last())
    }
}

/// The last component of a path, skipping trailing separators and `.`
/// components; empty when there is none.
pub open spec fn last_component(s: Seq<char>, windows: bool) -> Seq<char>
    decreases s.len(),
{
    if s.len() == 0 {
        Seq::empty()
    } else if is_sep(s.last(), windows) || tail_piece(s, windows) == "."@ {
        last_component(s.drop_last(), windows)
    } else {
        tail_piece(s, windows)
    }
}

/// Whether `s` starts with a Windows drive prefix such as `C:`.
pub open spec fn has_drive(s: Seq<char>) -> bool {
    s.len() >= 2 && s[1] == ':' && (('a' <= s[0] && s[0] <= 'z') || ('A' <= s[0] && s[0] <= 'Z'))
}

/// `s` without its drive prefix on Windows.
pub open spec fn without_drive(s: Seq<char>, windows: bool) -> Seq<char> {
    if windows && has_drive(s) {
        s.skip(2)
    } else {
        s
    }
}

/// The file name of a path: its last component unless that is missing or
/// `..`; on Windows a drive prefix is not part of it.
pub open spec fn file_name(s: Seq<char>, windows: bool) -> Option<Seq<char>> {
    let c = last_component(without_drive(s, windows), windows);
    if c.len() == 0 || c == ".."@ {
        None
    } else {
        Some(c)
    }
}

/// The part of `s` before its last `.`, if it has one.
pub open spec fn before_last_dot(s: Seq<char>) -> Option<Seq<char>>
    decreases s.len(),
{
    if s.len() == 0 {
        None
    } else if s.last() == '.' {
        Some(s.drop_last())
    } else {
        before_last_dot(s.drop_last())
    }
}

/// The file stem of a path: the file name without its last extension; a
/// name whose only dot leads it (or that has none) is its own stem.
pub open spec fn file_stem(s: Seq<char>, windows: bool) -> Option<Seq<char>> {
    match file_name(s, windows) {
        Some(n) => match before_last_dot(n) {
            Some(b) => if b.len() > 0 {
                Some(b)
            } else {
                Some(n)
            },
            None => Some(n),
        },
        None => None,
    }
}

/// The compatibility mode of a command line; `windows` selects the
/// Windows path rules for `argv[0]`.
pub open spec fn resolve_spec(args: Seq<ArgToken>, vars: Seq<(String, String)>, argv0: Seq<char>, windows: bool) -> CompatibilityMode {
    match flag_decision(args) {
        Some(m) => m,
        None => if env_strict(vars) {
            CompatibilityMode::Strict
        } else if file_stem(argv0, windows) == Some("autossh"@) {
            CompatibilityMode::Strict
        } else {
            CompatibilityMode::Default
        },
    }
}

fn is_ws(c: char) -> (r: bool)
    ensures
        r == is_white_space(c),
{
    ('\u{9}' <= c && c <= '\u{d}') || c == ' ' || c == '\u{85}' || c == '\u{a0}' || c == '\u{1680}'
        || ('\u{2000}' <= c && c <= '\u{200a}') || c == '\u{2028}' || c == '\u{2029}' || c == '\u{202f}'
        || c == '\u{205f}' || c == '\u{3000}'
}

proof fn lemma_trim_start(s: Seq<char>, a: int)
    requires
        0 <= a <= s.len(),
        forall|m: int| 0 <= m < a ==> is_white_space(s[m]),
        a == s.len() || !is_white_space(s[a]),
    ensures
        trim_start(s) =~= s.skip(a),
    decreases s.len(),
{
    if s.len() > 0 && is_white_space(s[0]) {
        lemma_trim_start(s.drop_first(), a - 1);
        assert(s.drop_first().skip(a - 1) =~= s.skip(a));
    } else {
        assert(s.skip(0) =~= s);
    }
}

proof fn lemma_trim_end(s: Seq<char>, b: int)
    requires
        0 <= b <= s.len(),
        forall|m: int| b <= m < s.len() ==> is_white_space(s[m]),
        b == 0 || !is_white_space(s[b - 1]),
    ensures
        trim_end(s) =~= s.take(b),
    decreases s.len(),
{
    if s.len() > 0 && is_white_space(s.last()) {
        lemma_trim_end(s.drop_last(), b);
        assert(s.drop_last().take(b) =~= s.take(b));
    } else {
        assert(s.take(b) =~= s);
    }
}

/// Whether a `RUSTY_AUTOSSH_STRICT` value switches Strict mode on.
pub fn is_strict_value(value: &str) -> (r: bool)
    ensures
        r == strict_env_value(value@),
{
    let v = chars_of(value);
    let mut a: usize = 0;
    while a < v.len() && is_ws(v[a])
        invariant
            a <= v@.len(),
            forall|m: int| 0 <= m < a ==> is_white_space(v@[m]),
        decreases v.len() - a,
    {
        a = a + 1;
    }
    let mut b: usize = v.len();
    while b > a && is_ws(v[b - 1])
        invariant
            a <= b <= v@.len(),
            forall|m: int| b <= m < v@.len() ==> is_white_space(v@[m]),
        decreases b - a,
    {
        b = b - 1;
    }
    let mut w: Vec<char> = Vec::new();
    let mut m = a;
    while m < b
        invariant
            a <= m <= b <= v@.len(),
            w@ == v@.subrange(a as int, m as int).map_values(|c: char| ascii_lower(c)),
        decreases b - m,
    {
        let c = v[m];
        let l = if 'A' <= c && c <= 'Z' { ((c as u8) + 32) as char } else { c };
        w.push(l);
        m = m + 1;
        proof {
            assert(w@ =~= v@.subrange(a as int, m as int).map_values(|c: char| ascii_lower(c)));
        }
    }
    proof {
        lemma_trim_start(v@, a as int);
        let t = v@.skip(a as int);
        if b > a {
            assert(!is_white_space(t[b - a - 1]));
        } else {
            if t.len() > 0 {
                assert(!is_white_space(t[0]));
                assert(false);
            }
        }
        lemma_trim_end(t, b - a);
        assert(t.take(b - a) =~= v@.subrange(a as int, b as int));
    }
    chars_eq(&w, &chars_of("1")) || chars_eq(&w, &chars_of("true")) || chars_eq(&w, &chars_of("yes"))
}


proof fn lemma_tail_piece(s: Seq<char>, a: int, windows: bool)
    requires
        0 <= a <= s.len(),
        forall|m: int| a <= m < s.len() ==> !is_sep(s[m], windows),
        a == 0 || is_sep(s[a - 1], windows),
    ensures
        tail_piece(s, windows) =~= s.skip(a),
    decreases s.len(),
{
    if s.len() > 0 && !is_sep(s.last(), windows) {
        lemma_tail_piece(s.drop_last(), a, windows);
        assert(s.drop_last().skip(a).push(s.last()) =~= s.skip(a));
    }
}

proof fn lemma_before_last_dot(s: Seq<char>, k: int)
    requires
        -1 <= k < s.len(),
        forall|m: int| k < m < s.len() ==> s[m] != '.',
        k == -1 || s[k] == '.',
    ensures
        before_last_dot(s) == (if k == -1 { None } else { Some(s.take(k)) }),
    decreases s.len(),
{
    if s.len() > 0 && s.last() != '.' {
        lemma_before_last_dot(s.drop_last(), k);
        if k != -1 {
            assert(s.drop_last().take(k) =~= s.take(k));
        }
    } else if s.len() > 0 {
        assert(s.drop_last() =~= s.take(k));
    }
}

fn sep(c: char, windows: bool) -> (r: bool)
    ensures
        r == is_sep(c, windows),
{
    c == '/' || (windows && c == '\\')
}

/// Start of the characters after the last separator in `v[..end]`.
fn tail_start(v: &Vec<char>, end: usize, windows: bool) -> (a: usize)
    requires
        end <= v.len(),
    ensures
        a <= end,
        tail_piece(v@.take(end as int), windows) =~= v@.subrange(a as int, end as int),
{
    let mut a = end;
    while a > 0 && !sep(v[a - 1], windows)
        invariant
            a <= end <= v@.len(),
            forall|m: int| a <= m < end ==> !is_sep(v@[m], windows),
        decreases a,
    {
        a = a - 1;
    }
    proof {
        lemma_tail_piece(v@.take(end as int), a as int, windows);
        assert(v@.take(end as int).skip(a as int) =~= v@.subrange(a as int, end as int));
    }
    a
}

/// The file stem of the path `path` under the platform's path rules (see
/// [`file_stem`]).
pub fn path_file_stem(path: &str, windows: bool) -> (r: Option<Vec<char>>)
    ensures
        match r {
            Some(v) => file_stem(path@, windows) == Some(v@),
            None => file_stem(path@, windows) is None,
        },
{
    let all = chars_of(path);
    let drive = windows && all.len() >= 2 && all[1] == ':' && (('a' <= all[0] && all[0] <= 'z') || ('A' <= all[0]
        && all[0] <= 'Z'));
    let v = if drive {
        slice_chars(&all, 2, all.len())
    } else {
        all
    };
    let ghost p = without_drive(path@, windows);
    proof {
        if drive {
            assert(v@ =~= p);
        }
    }
    let mut end = v.len();
    proof {
        assert(v@.take(end as int) =~= v@);
    }
    let mut start: usize = 0;
    loop
        invariant_except_break
            end <= v@.len(),
            v@ == p,
            last_component(p, windows) == last_component(v@.take(end as int), windows),
        ensures
            start <= end <= v@.len(),
            v@ == p,
            last_component(p, windows) == v@.subrange(start as int, end as int),
        decreases end,
    {
        let ghost s = v@.take(end as int);
        if end == 0 {
            proof {
                assert(s.len() == 0);
                assert(v@.subrange(0, 0) =~= Seq::<char>::empty());
            }
            start = 0;
            break;
        }
        proof {
            assert(s.drop_last() =~= v@.take(end - 1));
            assert(s.last() == v@[end - 1]);
        }
        if sep(v[end - 1], windows) {
            end = end - 1;
            continue;
        }
        let a = tail_start(&v, end, windows);
        if end - a == 1 && v[a] == '.' {
            proof {
                reveal_strlit(".");
                assert(tail_piece(s, windows) =~= "."@);
            }
            end = end - 1;
            continue;
        }
        proof {
            reveal_strlit(".");
            if tail_piece(s, windows) == "."@ {
                assert(tail_piece(s, windows).len() == 1 && tail_piece(s, windows)[0] == '.');
                assert(v@.subrange(a as int, end as int)[0] == v@[a as int]);
            }
        }
        start = a;
        break;
    }
    let name = slice_chars(&v, start, end);
    proof {
        reveal_strlit("..");
    }
    if name.len() == 0 || (name.len() == 2 && name[0] == '.' && name[1] == '.') {
        proof {
            if name.len() == 2 {
                assert(name@ =~= ".."@);
            }
        }
        return None;
    }
    proof {
        if name@ == ".."@ {
            assert(name@[0] == ".."@[0] && name@[1] == ".."@[1]);
        }
        assert(file_name(path@, windows) == Some(name@));
    }
    let mut k: usize = name.len();
    while k > 0 && name[k - 1] != '.'
        invariant
            k <= name@.len(),
            forall|m: int| k <= m < name@.len() ==> name@[m] != '.',
        decreases k,
    {
        k = k - 1;
    }
    proof {
        lemma_before_last_dot(name@, k - 1);
    }
    if k > 1 {
        let b = slice_chars(&name, 0, k - 1);
        proof {
            assert(b@ =~= name@.take(k - 1));
        }
        Some(b)
    } else {
        Some(name)
    }
}

/// Resolves the compatibility mode of a command line: `args` are the
/// tokens after `argv[0]`, `argv0` is the (lossily converted) program name
/// and `windows` selects the Windows path rules for it.
pub fn resolve(args: &Vec<ArgToken>, env: &EnvSnapshot, argv0: &str, windows: bool) -> (m: CompatibilityMode)
    ensures
        m == resolve_spec(args@, env.vars@, argv0@, windows),
{
    let mut decision: Option<CompatibilityMode> = None;
    let mut i: usize = 0;
    while i < args.len()
        invariant
            i <= args@.len(),
            decision == flag_decision(args@.take(i as int)),
        decreases args.len() - i,
    {
        proof {
            assert(args@.take(i + 1).drop_last() =~= args@.take(i as int));
        }
        let t = args[i].text.as_str();
        if crate::text::str_eq(t, "--strict") {
            decision = Some(CompatibilityMode::Strict);
        } else if crate::text::str_eq(t, "--no-strict") {
            decision = Some(CompatibilityMode::Default);
        }
        i = i + 1;
    }
    proof {
        assert(args@.take(i as int) =~= args@);
    }
    if let Some(m) = decision {
        return m;
    }
    if let Some(v) = env.get_str("RUSTY_AUTOSSH_STRICT") {
        if is_strict_value(v) {
            return CompatibilityMode::Strict;
        }
    }
    match path_file_stem(argv0, windows) {
        Some(stem) => {
            if chars_eq(&stem, &chars_of("autossh")) {
                CompatibilityMode::Strict
            } else {
                CompatibilityMode::Default
            }
        },
        None => CompatibilityMode::Default,
    }
}

/// Law: when the command line holds `--strict` or `--no-strict`, the last
/// of them decides the mode, whatever the environment, `argv[0]` and the
/// platform say.
pub proof fn lemma_flag_overrides(
    args: Seq<ArgToken>,
    vars1: Seq<(String, String)>,
    argv0_1: Seq<char>,
    win1: bool,
    vars2: Seq<(String, String)>,
    argv0_2: Seq<char>,
    win2: bool,
)
    requires
        flag_decision(args) is Some,
    ensures
        resolve_spec(args, vars1, argv0_1, win1) == resolve_spec(args, vars2, argv0_2, win2),
        resolve_spec(args, vars1, argv0_1, win1) == flag_decision(args)->0,
{
}

/// Law: appending `--strict` makes the mode Strict and appending
/// `--no-strict` makes it Default, whatever came before.
pub proof fn lemma_last_flag_wins(
    args: Seq<ArgToken>,
    t: ArgToken,
    vars: Seq<(String, String)>,
    argv0: Seq<char>,
    windows: bool,
)
    ensures
        t.text@ == "--strict"@ ==> resolve_spec(args.push(t), vars, argv0, windows) == CompatibilityMode::Strict,
        t.text@ == "--no-strict"@ ==> resolve_spec(args.push(t), vars, argv0, windows) == CompatibilityMode::Default,
{
    reveal_strlit("--strict");
    reveal_strlit("--no-strict");
    assert("--strict"@.len() != "--no-strict"@.len());
    assert(args.push(t).last() == t);
}

/// Law: without `--strict` / `--no-strict`, the mode is Strict exactly when
/// `RUSTY_AUTOSSH_STRICT` switches it on or the file stem of `argv[0]` is
/// `autossh`; in particular a strict-enabling variable wins whatever
/// `argv[0]` is.
pub proof fn lemma_without_flags(args: Seq<ArgToken>, vars: Seq<(String, String)>, argv0: Seq<char>, windows: bool)
    requires
        flag_decision(args) is None,
    ensures
        (resolve_spec(args, vars, argv0, windows) == CompatibilityMode::Strict) <==> (env_strict(vars) || file_stem(
            argv0,
            windows,
        ) == Some("autossh"@)),
        resolve_spec(args, vars, argv0, windows) == CompatibilityMode::Strict || resolve_spec(args, vars, argv0, windows)
            == CompatibilityMode::Default,
{
}

/// Whether `w` spells the lower-case word `word`, each letter in either
/// case.
pub open spec fn spells(w: Seq<char>, word: Seq<char>) -> bool {
    &&& w.len() == word.len()
    &&& forall|i: int|
        0 <= i < w.len() ==> (#[trigger] w[i] == word[i] || ('a' <= word[i] && word[i] <= 'z' && (w[i] as u32) + 32
            == (word[i] as u32)))
}

/// Whether every character of `s` is white space.
pub open spec fn all_white(s: Seq<char>) -> bool {
    forall|i: int| 0 <= i < s.len() ==> is_white_space(#[trigger] s[i])
}

/// Whether `v` is `1`, `true` or `yes` in any letter case, with any white
/// space around it.
pub open spec fn names_true(v: Seq<char>) -> bool {
    exists|a: int, b: int|
        #![trigger v.subrange(a, b)]
        0 <= a <= b <= v.len() && all_white(v.take(a)) && all_white(v.skip(b)) && (spells(v.subrange(a, b), "1"@)
            || spells(v.subrange(a, b), "true"@) || spells(v.subrange(a, b), "yes"@))
}

proof fn leading_white(s: Seq<char>) -> (a: int)
    ensures
        0 <= a <= s.len(),
        forall|m: int| 0 <= m < a ==> is_white_space(s[m]),
        a == s.len() || !is_white_space(s[a]),
    decreases s.len(),
{
    if s.len() > 0 && is_white_space(s[0]) {
        let r = leading_white(s.drop_first());
        assert forall|m: int| 0 <= m < r + 1 implies is_white_space(s[m]) by {
            if m > 0 {
                assert(s[m] == s.drop_first()[m - 1]);
            }
        }
        r + 1
    } else {
        0
    }
}

proof fn trailing_white(s: Seq<char>) -> (b: int)
    ensures
        0 <= b <= s.len(),
        forall|m: int| b <= m < s.len() ==> is_white_space(s[m]),
        b == 0 || !is_white_space(s[b - 1]),
    decreases s.len(),
{
    if s.len() > 0 && is_white_space(s.last()) {
        let r = trailing_white(s.drop_last());
        assert forall|m: int| r <= m < s.len() implies is_white_space(s[m]) by {
            if m < s.len() - 1 {
                assert(s[m] == s.drop_last()[m]);
            }
        }
        r
    } else {
        s.len() as int
    }
}

proof fn lemma_lower_char(c: char, d: char)
    requires
        d == '1' || ('a' <= d && d <= 'z'),
    ensures
        ascii_lower(c) == d <==> (c == d || ('a' <= d && d <= 'z' && (c as u32) + 32 == (d as u32))),
{
    if 'A' <= c && c <= 'Z' {
        let x: u32 = ((c as u32) + 32) as u32;
        assert(65 <= (c as u32) <= 90);
        assert((x as char) as u32 == x);
    }
}

proof fn lemma_word_lower(w: Seq<char>, word: Seq<char>)
    requires
        forall|i: int| 0 <= i < word.len() ==> word[i] == '1' || ('a' <= #[trigger] word[i] && word[i] <= 'z'),
    ensures
        (w.map_values(|c: char| ascii_lower(c)) == word) <==> spells(w, word),
{
    let lw = w.map_values(|c: char| ascii_lower(c));
    if w.len() == word.len() {
        assert forall|i: int| 0 <= i < w.len() implies (#[trigger] lw[i] == word[i] <==> (w[i] == word[i] || ('a'
            <= word[i] && word[i] <= 'z' && (w[i] as u32) + 32 == (word[i] as u32)))) by {
            lemma_lower_char(w[i], word[i]);
        }
        if spells(w, word) {
            assert forall|i: int| 0 <= i < w.len() implies lw[i] == word[i] by {
                assert(w[i] == word[i] || ('a' <= word[i] && word[i] <= 'z' && (w[i] as u32) + 32 == (word[i] as u32)));
            }
            assert(lw =~= word);
        }
        if lw == word {
            assert forall|i: int| 0 <= i < w.len() implies (#[trigger] w[i] == word[i] || ('a' <= word[i] && word[i]
                <= 'z' && (w[i] as u32) + 32 == (word[i] as u32))) by {
                assert(lw[i] == word[i]);
            }
        }
    } else {
        assert(lw.len() != word.len());
    }
}

proof fn lemma_words()
    ensures
        forall|i: int| 0 <= i < "1"@.len() ==> #[trigger] "1"@[i] == '1' || ('a' <= "1"@[i] && "1"@[i] <= 'z'),
        forall|i: int| 0 <= i < "true"@.len() ==> #[trigger] "true"@[i] == '1' || ('a' <= "true"@[i] && "true"@[i] <= 'z'),
        forall|i: int| 0 <= i < "yes"@.len() ==> #[trigger] "yes"@[i] == '1' || ('a' <= "yes"@[i] && "yes"@[i] <= 'z'),
        "1"@.len() == 1,
        "true"@.len() == 4,
        "yes"@.len() == 3,
{
    reveal_strlit("1");
    reveal_strlit("true");
    reveal_strlit("yes");
}

/// A character that spells part of a word is never white space.
proof fn lemma_spelled_not_white(w: Seq<char>, word: Seq<char>, i: int)
    requires
        spells(w, word),
        0 <= i < w.len(),
        word[i] == '1' || ('a' <= word[i] && word[i] <= 'z'),
    ensures
        !is_white_space(w[i]),
{
    assert(w[i] == word[i] || ('a' <= word[i] && word[i] <= 'z' && (w[i] as u32) + 32 == (word[i] as u32)));
}

/// Law: a `RUSTY_AUTOSSH_STRICT` value switches Strict mode on exactly when
/// it is `1`, `true` or `yes`, in any letter case, with any white space
/// around it; any other value (`0`, `false`, `no`, `on`, ...) does not.
pub proof fn lemma_strict_value_words(v: Seq<char>)
    ensures
        strict_env_value(v) <==> names_true(v),
{
    lemma_words();
    let a0 = leading_white(v);
    lemma_trim_start(v, a0);
    let t = v.skip(a0);
    let c = trailing_white(t);
    assert forall|m: int| c <= m < t.len() implies is_white_space(t[m]) by {}
    lemma_trim_end(t, c);
    let w = t.take(c);
    assert(w =~= v.subrange(a0, a0 + c));
    assert(trim_end(trim_start(v)) == w);
    lemma_word_lower(w, "1"@);
    lemma_word_lower(w, "true"@);
    lemma_word_lower(w, "yes"@);
    if strict_env_value(v) {
        assert(all_white(v.take(a0)));
        assert forall|i: int| 0 <= i < v.skip(a0 + c).len() implies is_white_space(#[trigger] v.skip(a0 + c)[i]) by {
            assert(v.skip(a0 + c)[i] == t[c + i]);
        }
        assert(v.subrange(a0, a0 + c) == w);
    }
    if names_true(v) {
        let (a, b) = choose|a: int, b: int|
            #![trigger v.subrange(a, b)]
            0 <= a <= b <= v.len() && all_white(v.take(a)) && all_white(v.skip(b)) && (spells(v.subrange(a, b), "1"@)
                || spells(v.subrange(a, b), "true"@) || spells(v.subrange(a, b), "yes"@));
        let mid = v.subrange(a, b);
        let word = if spells(mid, "1"@) {
            "1"@
        } else if spells(mid, "true"@) {
            "true"@
        } else {
            "yes"@
        };
        assert(spells(mid, word));
        lemma_spelled_not_white(mid, word, 0);
        lemma_spelled_not_white(mid, word, mid.len() - 1);
        assert forall|m: int| 0 <= m < a implies is_white_space(v[m]) by {
            assert(v[m] == v.take(a)[m]);
        }
        assert(v[a] == mid[0]);
        lemma_trim_start(v, a);
        let ta = v.skip(a);
        assert forall|m: int| b - a <= m < ta.len() implies is_white_space(ta[m]) by {
            assert(ta[m] == v.skip(b)[m - (b - a)]);
        }
        assert(ta[b - a - 1] == mid[mid.len() - 1]);
        lemma_trim_end(ta, b - a);
        assert(ta.take(b - a) =~= mid);
        lemma_word_lower(mid, word);
    }
}

/// Law: with no `--strict` / `--no-strict` on the command line and an
/// `argv[0]` whose file stem is not `autossh`, the mode is Strict exactly
/// when `RUSTY_AUTOSSH_STRICT` is set to `1`, `true` or `yes` (any letter
/// case, white space around it ignored); `0`, `false`, `no` or any other
/// value leave it Default.
pub proof fn lemma_env_strict_exactly(args: Seq<ArgToken>, vars: Seq<(String, String)>, argv0: Seq<char>, windows: bool)
    requires
        flag_decision(args) is None,
        file_stem(argv0, windows) != Some("autossh"@),
    ensures
        (resolve_spec(args, vars, argv0, windows) == CompatibilityMode::Strict) <==> (env_get(
            vars,
            "RUSTY_AUTOSSH_STRICT"@,
        ) is Some && names_true(env_get(vars, "RUSTY_AUTOSSH_STRICT"@)->0)),
{
    match env_get(vars, "RUSTY_AUTOSSH_STRICT"@) {
        Some(v) => lemma_strict_value_words(v),
        None => {},
    }
}

} // verus!
