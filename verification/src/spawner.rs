//! ssh argv injection and ssh binary selection.

use vstd::prelude::*;

use crate::text::{decimal, push_decimal};
use crate::{AutosshError, MonitorMode};

verus! {

/// `port + 1`, saturating at the largest port.
pub open spec fn next_port(port: u16) -> int {
    if port < u16::MAX { port + 1 } else { port as int }
}

/// The forward specification `<port>:127.0.0.1:<target>`.
pub open spec fn forward_spec(port: int, target: int) -> Seq<char> {
    decimal(port as nat) + ":127.0.0.1:"@ + decimal(target as nat)
}

/// The ssh argv with the monitor-port forwards in front of the user's
/// arguments: none for `Disabled`; `-L p:127.0.0.1:p+1 -R p:127.0.0.1:p+1`
/// for a listener pair; `-L p:127.0.0.1:echo` for echo mode.
pub open spec fn spec_inject_monitor_forwards(mode: MonitorMode, args: Seq<Seq<char>>) -> Seq<Seq<char>> {
    match mode {
        MonitorMode::Disabled => args,
        MonitorMode::Active { port, echo: None } => {
            let pair = forward_spec(port as int, next_port(port));
            seq!["-L"@, pair, "-R"@, pair] + args
        },
        MonitorMode::Active { port, echo: Some(e) } => seq!["-L"@, forward_spec(port as int, e as int)] + args,
    }
}

fn forward(port: u16, target: u16) -> (r: String)
    ensures
        r@ == forward_spec(port as int, target as int),
{
    let mut s = String::new();
    push_decimal(&mut s, port as u64);
    s.append(":127.0.0.1:");
    push_decimal(&mut s, target as u64);
    proof {
        assert(s@ =~= forward_spec(port as int, target as int));
    }
    s
}

/// Appends clones of `items` to `out`.
pub fn extend_strings(out: &mut Vec<String>, items: &Vec<String>)
    ensures
        final(out).deep_view() == old(out).deep_view() + items.deep_view(),
{
    let ghost start = out.deep_view();
    let mut i: usize = 0;
    while i < items.len()
        invariant
            i <= items.len(),
            out.deep_view() == start + items.deep_view().take(i as int),
        decreases items.len() - i,
    {
        let s = items[i].clone();
        let ghost prev = out.deep_view();
        out.push(s);
        proof {
            assert(out.deep_view() =~= prev.push(items[i as int]@));
            assert(items.deep_view().take(i + 1) =~= items.deep_view().take(i as int).push(items[i as int]@));
            assert(out.deep_view() =~= start + items.deep_view().take(i + 1));
        }
        i = i + 1;
    }
    proof {
        assert(items.deep_view().take(i as int) =~= items.deep_view());
    }
}

/// Puts the monitor-port forward flags in front of the ssh argv: for a
/// listener pair `-L <port>:127.0.0.1:<port+1>` and `-R <port>:127.0.0.1:<port+1>`
/// (the port saturates at 65535), for echo mode `-L <port>:127.0.0.1:<echo>`
/// only, and nothing when monitoring is disabled. The user's arguments
/// follow in their original order.
pub fn inject_monitor_forwards(mode: &MonitorMode, ssh_args: &Vec<String>) -> (r: Vec<String>)
    ensures
        r.deep_view() == spec_inject_monitor_forwards(*mode, ssh_args.deep_view()),
{
    let mut out: Vec<String> = Vec::new();
    match *mode {
        MonitorMode::Disabled => {},
        MonitorMode::Active { port, echo: None } => {
            let target: u16 = if port < u16::MAX { port + 1 } else { port };
            let pair = forward(port, target);
            out.push(String::from_str("-L"));
            out.push(pair.clone());
            out.push(String::from_str("-R"));
            out.push(pair);
        },
        MonitorMode::Active { port, echo: Some(e) } => {
            out.push(String::from_str("-L"));
            out.push(forward(port, e));
        },
    }
    let ghost head = out.deep_view();
    extend_strings(&mut out, ssh_args);
    proof {
        match *mode {
            MonitorMode::Disabled => {
                assert(head =~= Seq::<Seq<char>>::empty());
            },
            MonitorMode::Active { port, echo: None } => {
                assert(head =~= seq!["-L"@, forward_spec(port as int, next_port(port)), "-R"@, forward_spec(port as int, next_port(port))]);
            },
            MonitorMode::Active { port, echo: Some(e) } => {
                assert(head =~= seq!["-L"@, forward_spec(port as int, e as int)]);
            },
        }
        assert(out.deep_view() =~= spec_inject_monitor_forwards(*mode, ssh_args.deep_view()));
    }
    out
}

/// The file names tried in each search-path directory, in order: `ssh.exe`
/// then `ssh` on Windows, `ssh` elsewhere.
pub open spec fn ssh_names(windows: bool) -> Seq<Seq<char>> {
    if windows {
        seq!["ssh.exe"@, "ssh"@]
    } else {
        seq!["ssh"@]
    }
}

/// The file names tried in each search-path directory (see [`ssh_names`]).
pub fn ssh_file_names(windows: bool) -> (r: Vec<String>)
    ensures
        r.deep_view() == ssh_names(windows),
{
    let mut r: Vec<String> = Vec::new();
    if windows {
        r.push(String::from_str("ssh.exe"));
    }
    r.push(String::from_str("ssh"));
    proof {
        assert(r.deep_view() =~= ssh_names(windows));
    }
    r
}

/// One search-path directory and its candidate ssh binaries: each
/// candidate is the directory joined with one of the [`ssh_file_names`], in
/// that order, with whether it is a regular file.
#[derive(Debug, Clone)]
pub struct PathProbe {
    /// The directory, as listed in the search path.
    pub dir: String,
    /// (joined path, is a regular file) for each candidate name.
    pub candidates: Vec<(String, bool)>,
}

/// The first candidate that is a regular file.
pub open spec fn first_file(cs: Seq<(String, bool)>) -> Option<Seq<char>>
    decreases cs.len(),
{
    if cs.len() == 0 {
        None
    } else if cs[0].1 {
        Some(cs[0].0@)
    } else {
        first_file(cs.drop_first())
    }
}

/// The ssh binary of the first probed directory that holds one.
pub open spec fn pick_ssh(ps: Seq<PathProbe>) -> Option<Seq<char>>
    decreases ps.len(),
{
    if ps.len() == 0 {
        None
    } else if first_file(ps[0].candidates@) is Some {
        first_file(ps[0].candidates@)
    } else {
        pick_ssh(ps.drop_first())
    }
}

/// The directories of a probe list, in order.
pub open spec fn probe_dirs(ps: Seq<PathProbe>) -> Seq<Seq<char>> {
    ps.map_values(|p: PathProbe| p.dir@)
}

/// The outcome of the ssh binary search: the path found, or the directories
/// walked.
pub open spec fn ssh_resolution(autossh_path: Option<Seq<char>>, probes: Option<Seq<PathProbe>>) -> Result<
    Seq<char>,
    Seq<Seq<char>>,
> {
    match autossh_path {
        Some(p) => Ok(p),
        None => match probes {
            None => Err(Seq::empty()),
            Some(ps) => match pick_ssh(ps) {
                Some(found) => Ok(found),
                None => Err(probe_dirs(ps)),
            },
        },
    }
}

/// What the host shows of the ssh binary: the `AUTOSSH_PATH` value, and the
/// probed directories of the search path when one is set.
#[derive(Debug, Clone)]
pub struct SshLookup {
    /// The `AUTOSSH_PATH` value, if set.
    pub autossh_path: Option<String>,
    /// The probed search-path directories, if a search path is set.
    pub path_probes: Option<Vec<PathProbe>>,
}

/// The outcome of the ssh binary search over a lookup (see
/// [`ssh_resolution`]).
pub open spec fn lookup_resolution(l: SshLookup) -> Result<Seq<char>, Seq<Seq<char>>> {
    ssh_resolution(
        match l.autossh_path { Some(p) => Some(p@), None => None },
        match l.path_probes { Some(ps) => Some(ps@), None => None },
    )
}

fn first_candidate(cs: &Vec<(String, bool)>) -> (r: Option<String>)
    ensures
        match r {
            Some(s) => first_file(cs@) == Some(s@),
            None => first_file(cs@) is None,
        },
{
    let mut i: usize = 0;
    proof {
        assert(cs@.skip(0) =~= cs@);
    }
    while i < cs.len()
        invariant
            i <= cs@.len(),
            first_file(cs@) == first_file(cs@.skip(i as int)),
        decreases cs.len() - i,
    {
        proof {
            assert(cs@.skip(i as int).drop_first() =~= cs@.skip(i + 1));
            assert(cs@.skip(i as int)[0] == cs@[i as int]);
        }
        if cs[i].1 {
            return Some(cs[i].0.clone());
        }
        i = i + 1;
    }
    proof {
        assert(cs@.skip(i as int) =~= Seq::<(String, bool)>::empty());
    }
    None
}

/// Resolves the ssh binary.
///
/// 1. An `AUTOSSH_PATH` value is used verbatim, without any check.
/// 2. Otherwise the search-path directories are walked left to right and the
///    first candidate that is a regular file wins.
/// 3. Otherwise the result is `SshNotFound`, listing the directories walked
///    (none when there is no search path at all).
pub fn resolve_ssh_path(
    autossh_path_env: Option<&str>,
    path_probes: Option<&Vec<PathProbe>>,
) -> (r: Result<String, AutosshError>)
    ensures
        match r {
            Ok(s) => ssh_resolution(
                match autossh_path_env { Some(p) => Some(p@), None => None },
                match path_probes { Some(ps) => Some(ps@), None => None },
            ) == Ok::<Seq<char>, Seq<Seq<char>>>(s@),
            Err(e) => e matches AutosshError::SshNotFound { searched } && ssh_resolution(
                match autossh_path_env { Some(p) => Some(p@), None => None },
                match path_probes { Some(ps) => Some(ps@), None => None },
            ) == Err::<Seq<char>, Seq<Seq<char>>>(searched.deep_view()),
        },
{
    if let Some(p) = autossh_path_env {
        return Ok(String::from_str(p));
    }
    let ps = match path_probes {
        Some(ps) => ps,
        None => {
            let searched: Vec<String> = Vec::new();
            proof {
                assert(searched.deep_view() =~= Seq::<Seq<char>>::empty());
            }
            return Err(AutosshError::SshNotFound { searched });
        },
    };
    let mut searched: Vec<String> = Vec::new();
    let mut i: usize = 0;
    proof {
        assert(ps@.skip(0) =~= ps@);
        assert(probe_dirs(ps@.take(0)) =~= Seq::<Seq<char>>::empty());
    }
    while i < ps.len()
        invariant
            i <= ps@.len(),
            autossh_path_env is None,
            path_probes == Some(ps),
            pick_ssh(ps@) == pick_ssh(ps@.skip(i as int)),
            searched.deep_view() == probe_dirs(ps@.take(i as int)),
        decreases ps.len() - i,
    {
        proof {
            assert(ps@.skip(i as int).drop_first() =~= ps@.skip(i + 1));
            assert(probe_dirs(ps@.take(i + 1)) =~= probe_dirs(ps@.take(i as int)).push(ps@[i as int].dir@));
            assert(ps@.skip(i as int)[0] == ps@[i as int]);
        }
        let ghost prev = searched.deep_view();
        searched.push(ps[i].dir.clone());
        proof {
            assert(searched.deep_view() =~= prev.push(ps@[i as int].dir@));
        }
        if let Some(found) = first_candidate(&ps[i].candidates) {
            return Ok(found);
        }
        i = i + 1;
    }
    proof {
        assert(ps@.take(i as int) =~= ps@);
        assert(ps@.skip(i as int) =~= Seq::<PathProbe>::empty());
    }
    Err(AutosshError::SshNotFound { searched })
}

proof fn lemma_first_file_at(cs: Seq<(String, bool)>, c: int)
    requires
        0 <= c < cs.len(),
        cs[c].1,
        forall|k: int| 0 <= k < c ==> !(#[trigger] cs[k]).1,
    ensures
        first_file(cs) == Some(cs[c].0@),
    decreases c,
{
    if c > 0 {
        assert forall|k: int| 0 <= k < c - 1 implies !(#[trigger] cs.drop_first()[k]).1 by {
            assert(cs.drop_first()[k] == cs[k + 1]);
        }
        lemma_first_file_at(cs.drop_first(), c - 1);
    }
}

proof fn lemma_no_file(cs: Seq<(String, bool)>)
    requires
        forall|k: int| 0 <= k < cs.len() ==> !(#[trigger] cs[k]).1,
    ensures
        first_file(cs) is None,
    decreases cs.len(),
{
    if cs.len() > 0 {
        assert forall|k: int| 0 <= k < cs.len() - 1 implies !(#[trigger] cs.drop_first()[k]).1 by {
            assert(cs.drop_first()[k] == cs[k + 1]);
        }
        lemma_no_file(cs.drop_first());
    }
}

proof fn lemma_pick_at(ps: Seq<PathProbe>, j: int, c: int)
    requires
        0 <= j < ps.len(),
        0 <= c < ps[j].candidates@.len(),
        ps[j].candidates@[c].1,
        forall|i: int, k: int|
            0 <= i < j && 0 <= k < ps[i].candidates@.len() ==> !(#[trigger] ps[i].candidates@[k]).1,
        forall|k: int| 0 <= k < c ==> !(#[trigger] ps[j].candidates@[k]).1,
    ensures
        pick_ssh(ps) == Some(ps[j].candidates@[c].0@),
    decreases j,
{
    if j == 0 {
        lemma_first_file_at(ps[0].candidates@, c);
    } else {
        assert forall|k: int| 0 <= k < ps[0].candidates@.len() implies !(#[trigger] ps[0].candidates@[k]).1 by {}
        lemma_no_file(ps[0].candidates@);
        let t = ps.drop_first();
        assert forall|i: int, k: int| 0 <= i < j - 1 && 0 <= k < t[i].candidates@.len() implies !(
        #[trigger] t[i].candidates@[k]).1 by {
            assert(t[i] == ps[i + 1]);
        }
        assert(t[j - 1] == ps[j]);
        lemma_pick_at(t, j - 1, c);
    }
}

proof fn lemma_pick_none(ps: Seq<PathProbe>)
    requires
        forall|i: int, k: int| 0 <= i < ps.len() && 0 <= k < ps[i].candidates@.len() ==> !(
        #[trigger] ps[i].candidates@[k]).1,
    ensures
        pick_ssh(ps) is None,
    decreases ps.len(),
{
    if ps.len() > 0 {
        assert forall|k: int| 0 <= k < ps[0].candidates@.len() implies !(#[trigger] ps[0].candidates@[k]).1 by {}
        lemma_no_file(ps[0].candidates@);
        let t = ps.drop_first();
        assert forall|i: int, k: int| 0 <= i < t.len() && 0 <= k < t[i].candidates@.len() implies !(
        #[trigger] t[i].candidates@[k]).1 by {
            assert(t[i] == ps[i + 1]);
        }
        lemma_pick_none(t);
    }
}

/// Law: how the ssh binary is found. `AUTOSSH_PATH` is used verbatim,
/// whatever the search path holds; otherwise the first candidate that is a
/// regular file, in directory order and within a directory in name order,
/// wins; when no candidate is a file the search fails listing every
/// directory walked, in order.
pub proof fn lemma_ssh_search(autossh: Seq<char>, ps: Seq<PathProbe>, j: int, c: int)
    ensures
        ssh_resolution(Some(autossh), Some(ps)) == Ok::<Seq<char>, Seq<Seq<char>>>(autossh),
        ssh_resolution(Some(autossh), None) == Ok::<Seq<char>, Seq<Seq<char>>>(autossh),
        ssh_resolution(None, None) == Err::<Seq<char>, Seq<Seq<char>>>(Seq::empty()),
        (0 <= j < ps.len() && 0 <= c < ps[j].candidates@.len() && ps[j].candidates@[c].1 && (forall|i: int, k: int|
            0 <= i < j && 0 <= k < ps[i].candidates@.len() ==> !(#[trigger] ps[i].candidates@[k]).1) && (forall|k: int|
            0 <= k < c ==> !(#[trigger] ps[j].candidates@[k]).1)) ==> ssh_resolution(None, Some(ps)) == Ok::<
            Seq<char>,
            Seq<Seq<char>>,
        >(ps[j].candidates@[c].0@),
        (forall|i: int, k: int|
            0 <= i < ps.len() && 0 <= k < ps[i].candidates@.len() ==> !(#[trigger] ps[i].candidates@[k]).1) ==> (
        ssh_resolution(None, Some(ps)) matches Err(dirs) && dirs.len() == ps.len() && forall|i: int|
            0 <= i < ps.len() ==> dirs[i] == (#[trigger] ps[i]).dir@),
{
    if 0 <= j < ps.len() && 0 <= c < ps[j].candidates@.len() && ps[j].candidates@[c].1 && (forall|i: int, k: int|
        0 <= i < j && 0 <= k < ps[i].candidates@.len() ==> !(#[trigger] ps[i].candidates@[k]).1) && (forall|k: int|
        0 <= k < c ==> !(#[trigger] ps[j].candidates@[k]).1) {
        lemma_pick_at(ps, j, c);
    }
    if forall|i: int, k: int|
        0 <= i < ps.len() && 0 <= k < ps[i].candidates@.len() ==> !(#[trigger] ps[i].candidates@[k]).1 {
        lemma_pick_none(ps);
    }
}

/// Law: what the injection puts in front of the user's arguments, which
/// always follow unchanged: nothing when monitoring is disabled; in pair
/// mode `-L f -R f` with the forward `f = port:127.0.0.1:port+1` (saturating
/// at 65535); in echo mode `-L port:127.0.0.1:echo` only.
pub proof fn lemma_injection_shape(mode: MonitorMode, args: Seq<Seq<char>>)
    ensures
        mode == MonitorMode::Disabled ==> spec_inject_monitor_forwards(mode, args) == args,
        mode matches MonitorMode::Active { port, echo: None } ==> {
            let r = spec_inject_monitor_forwards(mode, args);
            &&& r.len() == args.len() + 4
            &&& r[0] == "-L"@ && r[2] == "-R"@ && r[1] == r[3]
            &&& r[1] == decimal(port as nat) + ":127.0.0.1:"@ + decimal(
                (if port < 65535 { port + 1 } else { 65535 }) as nat,
            )
            &&& r.skip(4) == args
        },
        mode matches MonitorMode::Active { port, echo: Some(e) } ==> {
            let r = spec_inject_monitor_forwards(mode, args);
            &&& r.len() == args.len() + 2
            &&& r[0] == "-L"@
            &&& r[1] == decimal(port as nat) + ":127.0.0.1:"@ + decimal(e as nat)
            &&& r.skip(2) == args
        },
{
    let r = spec_inject_monitor_forwards(mode, args);
    match mode {
        MonitorMode::Active { port, echo: None } => {
            assert(r.skip(4) =~= args);
        },
        MonitorMode::Active { port, echo: Some(e) } => {
            assert(r.skip(2) =~= args);
        },
        _ => {},
    }
}

} // verus!
