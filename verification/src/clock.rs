//! Poll-clock configuration and the time spans it is made of.

use vstd::prelude::*;

use crate::text::{parse_i64, parse_signed64, parse_u64, parse_unsigned};

verus! {

/// Nanoseconds in one second.
pub const NANOS_PER_SEC: u64 = 1_000_000_000;

/// A non-negative span of time with nanosecond precision.
///
/// Its view is the total number of nanoseconds.
#[derive(Debug, Clone, Copy, PartialEq, Eq, Structural, Hash)]
pub struct Span {
    secs: u64,
    nanos: u32,
}

impl View for Span {
    type V = int;

    closed spec fn view(&self) -> int {
        self.secs * 1_000_000_000 + self.nanos
    }
}

impl Span {
    #[verifier::type_invariant]
    spec fn wf(self) -> bool {
        self.nanos < 1_000_000_000
    }

    /// The span of length zero.
    pub fn zero() -> (r: Span)
        ensures
            r@ == 0,
    {
        Span { secs: 0, nanos: 0 }
    }

    /// A span of `secs` whole seconds.
    pub fn from_secs(secs: u64) -> (r: Span)
        ensures
            r@ == secs * 1_000_000_000,
    {
        Span { secs, nanos: 0 }
    }

    /// A span of `millis` milliseconds.
    pub fn from_millis(millis: u64) -> (r: Span)
        ensures
            r@ == millis * 1_000_000,
    {
        let secs = millis / 1000;
        let rem = millis % 1000;
        let nanos: u32 = (rem * 1_000_000) as u32;
        Span { secs, nanos }
    }

    /// A span of `secs` seconds plus `nanos` nanoseconds.
    pub fn from_parts(secs: u64, nanos: u32) -> (r: Span)
        requires
            nanos < 1_000_000_000,
        ensures
            r@ == secs * 1_000_000_000 + nanos,
            r.secs() == secs,
            r.subsec_nanos() == nanos,
    {
        Span { secs, nanos }
    }

    /// Whole seconds of the span.
    pub closed spec fn secs(self) -> u64 {
        self.secs
    }

    /// Nanoseconds beyond the whole seconds.
    pub closed spec fn subsec_nanos(self) -> u32 {
        self.nanos
    }

    /// Whole seconds of the span.
    pub fn as_secs(&self) -> (r: u64)
        ensures
            r == self.secs(),
            r == self@ / 1_000_000_000,
    {
        proof {
            use_type_invariant(self);
        }
        self.secs
    }

    /// Nanoseconds beyond the whole seconds.
    pub fn nanos_part(&self) -> (r: u32)
        ensures
            r == self.subsec_nanos(),
            r == self@ % 1_000_000_000,
            r < 1_000_000_000,
    {
        proof {
            use_type_invariant(self);
        }
        self.nanos
    }

    /// Whether this span is at least as long as `other`.
    pub fn at_least(&self, other: &Span) -> (r: bool)
        ensures
            r == (self@ >= other@),
    {
        proof {
            use_type_invariant(self);
            use_type_invariant(other);
        }
        self.secs > other.secs || (self.secs == other.secs && self.nanos >= other.nanos)
    }
}


/// The view of an optional span.
pub open spec fn opt_span(o: Option<Span>) -> Option<int> {
    match o {
        Some(s) => Some(s@),
        None => None,
    }
}

/// Nanoseconds in `n` seconds.
pub open spec fn secs_ns(n: int) -> int {
    n * 1_000_000_000
}

/// Default poll interval (seconds) when `AUTOSSH_POLL` is unset.
pub const DEFAULT_POLL_SECS: u64 = 600;

/// Default gatetime (seconds) when `AUTOSSH_GATETIME` is unset.
pub const DEFAULT_GATE_TIME_SECS: u64 = 30;

/// Resolved poll-clock configuration.
///
/// - `poll`: heartbeat probe interval (default 600 s).
/// - `first_poll`: delay before the first probe (default `poll`).
/// - `gate_time`: minimum child lifetime before an exit stops counting as a
///   failed start (default 30 s; `-f` forces 0).
/// - `max_start`: `None` = unlimited retries, `Some(n)` = cap.
/// - `max_lifetime`: `None` = unlimited, `Some(d)` = total-runtime cap.
#[derive(Debug, Clone, Copy, PartialEq, Eq, Structural, Hash)]
pub struct PollClock {
    /// Heartbeat probe interval.
    pub poll: Span,
    /// Delay before the first probe.
    pub first_poll: Span,
    /// Minimum lifetime before a child exit stops counting as a failure.
    pub gate_time: Span,
    /// Consecutive-retry cap; `None` = unlimited.
    pub max_start: Option<u32>,
    /// Total-runtime cap; `None` = unlimited.
    pub max_lifetime: Option<Span>,
}

/// Mathematical view of a [`PollClock`], spans in nanoseconds.
pub struct PollClockView {
    /// Heartbeat probe interval.
    pub poll: int,
    /// Delay before the first probe.
    pub first_poll: int,
    /// Minimum lifetime before a child exit stops counting as a failure.
    pub gate_time: int,
    /// Consecutive-retry cap.
    pub max_start: Option<u32>,
    /// Total-runtime cap.
    pub max_lifetime: Option<int>,
}

impl View for PollClock {
    type V = PollClockView;

    open spec fn view(&self) -> PollClockView {
        PollClockView {
            poll: self.poll@,
            first_poll: self.first_poll@,
            gate_time: self.gate_time@,
            max_start: self.max_start,
            max_lifetime: opt_span(self.max_lifetime),
        }
    }
}

/// The upstream defaults: poll 600 s, first poll 600 s, gatetime 30 s, no
/// retry cap, no runtime cap.
pub open spec fn default_clock() -> PollClockView {
    PollClockView {
        poll: secs_ns(600),
        first_poll: secs_ns(600),
        gate_time: secs_ns(30),
        max_start: None,
        max_lifetime: None,
    }
}

impl Default for PollClock {
    fn default() -> (c: Self)
        ensures
            c@ == default_clock(),
    {
        let poll = Span::from_secs(DEFAULT_POLL_SECS);
        PollClock {
            poll,
            first_poll: poll,
            gate_time: Span::from_secs(DEFAULT_GATE_TIME_SECS),
            max_start: None,
            max_lifetime: None,
        }
    }
}

/// Snapshot of the environment variables that configure the supervisor.
///
/// Entries are (name, value) pairs of Unicode strings; when a name occurs
/// more than once the last entry counts, as with repeated map inserts.
#[derive(Debug, Clone)]
pub struct EnvSnapshot {
    /// Variables in insertion order.
    pub vars: Vec<(String, String)>,
}

/// The value bound to `key` in `vars`: that of the last entry named `key`.
pub open spec fn env_get(vars: Seq<(String, String)>, key: Seq<char>) -> Option<Seq<char>>
    decreases vars.len(),
{
    if vars.len() == 0 {
        None
    } else if vars.last().0@ == key {
        Some(vars.last().1@)
    } else {
        env_get(vars.drop_last(), key)
    }
}

/// The value of `key` read as a `u64`, when set and well formed.
pub open spec fn env_u64(vars: Seq<(String, String)>, key: Seq<char>) -> Option<int> {
    match env_get(vars, key) {
        Some(v) => parse_unsigned(v, u64::MAX as int),
        None => None,
    }
}

/// The value of `AUTOSSH_MAXSTART` as a retry cap: negative values (the
/// `-1` sentinel) mean unlimited; values above `u32::MAX` saturate.
pub open spec fn env_max_start(vars: Seq<(String, String)>) -> Option<u32> {
    match env_get(vars, "AUTOSSH_MAXSTART"@) {
        Some(v) => match parse_signed64(v) {
            Some(n) => if n < 0 {
                None
            } else if n > u32::MAX {
                Some(u32::MAX)
            } else {
                Some(n as u32)
            },
            None => None,
        },
        None => None,
    }
}

/// The clock resolved from the environment: each well-formed `AUTOSSH_*`
/// value replaces its default, malformed values are ignored.
pub open spec fn clock_from_env(vars: Seq<(String, String)>) -> PollClockView {
    let poll = match env_u64(vars, "AUTOSSH_POLL"@) {
        Some(n) => secs_ns(n),
        None => secs_ns(600),
    };
    PollClockView {
        poll,
        first_poll: match env_u64(vars, "AUTOSSH_FIRST_POLL"@) {
            Some(n) => secs_ns(n),
            None => poll,
        },
        gate_time: match env_u64(vars, "AUTOSSH_GATETIME"@) {
            Some(n) => secs_ns(n),
            None => secs_ns(30),
        },
        max_start: env_max_start(vars),
        max_lifetime: match env_u64(vars, "AUTOSSH_MAXLIFETIME"@) {
            Some(n) => if n == 0 {
                None
            } else {
                Some(secs_ns(n))
            },
            None => None,
        },
    }
}

impl EnvSnapshot {
    /// An empty snapshot.
    pub fn new() -> (e: EnvSnapshot)
        ensures
            e.vars@.len() == 0,
    {
        EnvSnapshot { vars: Vec::new() }
    }

    /// Binds `key` to `value`, replacing any earlier binding.
    pub fn insert(&mut self, key: String, value: String)
        ensures
            final(self).vars@ == old(self).vars@.push((key, value)),
            env_get(final(self).vars@, key@) == Some(value@),
    {
        self.vars.push((key, value));
        proof {
            assert(final(self).vars@.drop_last() =~= old(self).vars@);
        }
    }

    /// The value bound to `key`, if any.
    pub fn get_str(&self, key: &str) -> (r: Option<&str>)
        ensures
            match r {
                Some(v) => env_get(self.vars@, key@) == Some(v@),
                None => env_get(self.vars@, key@) is None,
            },
    {
        let mut found: Option<usize> = None;
        let mut i: usize = 0;
        while i < self.vars.len()
            invariant
                i <= self.vars@.len(),
                match found {
                    Some(j) => j < i && env_get(self.vars@.take(i as int), key@) == Some(self.vars@[j as int].1@),
                    None => env_get(self.vars@.take(i as int), key@) is None,
                },
            decreases self.vars.len() - i,
        {
            proof {
                assert(self.vars@.take(i + 1).drop_last() =~= self.vars@.take(i as int));
            }
            if crate::text::str_eq(self.vars[i].0.as_str(), key) {
                found = Some(i);
            }
            i = i + 1;
        }
        proof {
            assert(self.vars@.take(i as int) =~= self.vars@);
        }
        match found {
            Some(j) => Some(self.vars[j].1.as_str()),
            None => None,
        }
    }

    fn get_u64(&self, key: &str) -> (r: Option<u64>)
        ensures
            match r {
                Some(n) => env_u64(self.vars@, key@) == Some(n as int),
                None => env_u64(self.vars@, key@) is None,
            },
    {
        match self.get_str(key) {
            Some(v) => parse_u64(v),
            None => None,
        }
    }
}

impl PollClock {
    /// Resolves a clock from the environment: `AUTOSSH_POLL`,
    /// `AUTOSSH_FIRST_POLL` (default: the poll interval), `AUTOSSH_GATETIME`,
    /// `AUTOSSH_MAXSTART` (`-1` = unlimited) and `AUTOSSH_MAXLIFETIME`
    /// (`0` = unlimited). Malformed numbers fall back to the default.
    pub fn resolve_from_env(env: &EnvSnapshot) -> (c: PollClock)
        ensures
            c@ == clock_from_env(env.vars@),
    {
        let mut clock = PollClock::default();
        match env.get_u64("AUTOSSH_POLL") {
            Some(n) => {
                clock.poll = Span::from_secs(n);
                clock.first_poll = clock.poll;
            },
            None => {},
        }
        match env.get_u64("AUTOSSH_FIRST_POLL") {
            Some(n) => {
                clock.first_poll = Span::from_secs(n);
            },
            None => {},
        }
        match env.get_u64("AUTOSSH_GATETIME") {
            Some(n) => {
                clock.gate_time = Span::from_secs(n);
            },
            None => {},
        }
        match env.get_str("AUTOSSH_MAXSTART") {
            Some(v) => match parse_i64(v) {
                Some(n) => {
                    if n < 0 {
                        clock.max_start = None;
                    } else if n > 0xffff_ffff {
                        clock.max_start = Some(u32::MAX);
                    } else {
                        clock.max_start = Some(n as u32);
                    }
                },
                None => {},
            },
            None => {},
        }
        match env.get_u64("AUTOSSH_MAXLIFETIME") {
            Some(n) => {
                if n == 0 {
                    clock.max_lifetime = None;
                } else {
                    clock.max_lifetime = Some(Span::from_secs(n));
                }
            },
            None => {},
        }
        clock
    }
}


/// Command-line overrides for the poll clock.
///
/// `max_start: Some(None)` encodes the `-1` (unlimited) sentinel and
/// `max_lifetime: Some(None)` the `0` (unlimited) sentinel.
#[derive(Debug, Clone, Copy, PartialEq, Eq, Structural)]
pub struct ClockFlags {
    /// `--poll <secs>`.
    pub poll: Option<Span>,
    /// `--first-poll <secs>`.
    pub first_poll: Option<Span>,
    /// `--gate-time <secs>`.
    pub gate_time: Option<Span>,
    /// `--max-start <n>`.
    pub max_start: Option<Option<u32>>,
    /// `--max-lifetime <secs>`.
    pub max_lifetime: Option<Option<Span>>,
}

/// Mathematical view of [`ClockFlags`], spans in nanoseconds.
pub struct ClockFlagsView {
    /// `--poll`.
    pub poll: Option<int>,
    /// `--first-poll`.
    pub first_poll: Option<int>,
    /// `--gate-time`.
    pub gate_time: Option<int>,
    /// `--max-start`.
    pub max_start: Option<Option<u32>>,
    /// `--max-lifetime`.
    pub max_lifetime: Option<Option<int>>,
}

impl View for ClockFlags {
    type V = ClockFlagsView;

    open spec fn view(&self) -> ClockFlagsView {
        ClockFlagsView {
            poll: opt_span(self.poll),
            first_poll: opt_span(self.first_poll),
            gate_time: opt_span(self.gate_time),
            max_start: self.max_start,
            max_lifetime: match self.max_lifetime {
                Some(m) => Some(opt_span(m)),
                None => None,
            },
        }
    }
}

impl Default for ClockFlags {
    fn default() -> (f: Self)
        ensures
            f.poll is None,
            f.first_poll is None,
            f.gate_time is None,
            f.max_start is None,
            f.max_lifetime is None,
    {
        ClockFlags { poll: None, first_poll: None, gate_time: None, max_start: None, max_lifetime: None }
    }
}

/// `c` with every flag that is present taking its place; when `dash_f` is
/// set the gatetime is zero whatever the environment or flags say. When no
/// first-poll delay was given at all (`first_poll_set` tells whether the
/// environment gave one), it follows the resolved poll interval.
pub open spec fn apply_flags(c: PollClockView, f: ClockFlagsView, dash_f: bool, first_poll_set: bool) -> PollClockView {
    let poll = match f.poll {
        Some(d) => d,
        None => c.poll,
    };
    PollClockView {
        poll,
        first_poll: match f.first_poll {
            Some(d) => d,
            None => if first_poll_set {
                c.first_poll
            } else {
                poll
            },
        },
        gate_time: if dash_f {
            0
        } else {
            match f.gate_time {
                Some(d) => d,
                None => c.gate_time,
            }
        },
        max_start: match f.max_start {
            Some(m) => m,
            None => c.max_start,
        },
        max_lifetime: match f.max_lifetime {
            Some(m) => m,
            None => c.max_lifetime,
        },
    }
}

/// The clock resolved from the environment `vars`, the flags `f` and `-f`.
pub open spec fn resolved_clock(vars: Seq<(String, String)>, f: ClockFlagsView, dash_f: bool) -> PollClockView {
    apply_flags(clock_from_env(vars), f, dash_f, env_u64(vars, "AUTOSSH_FIRST_POLL"@) is Some)
}

impl PollClock {
    /// Resolves a clock from the environment, then lets each present flag
    /// override its field; with no first-poll delay given anywhere, the
    /// first poll follows the resolved poll interval; `dash_f` (`-f`) forces
    /// the gatetime to zero unconditionally.
    pub fn resolve_from_env_and_flags(env: &EnvSnapshot, flags: &ClockFlags, dash_f_supplied: bool) -> (c: PollClock)
        ensures
            c@ == resolved_clock(env.vars@, flags@, dash_f_supplied),
            dash_f_supplied ==> c.gate_time@ == 0,
    {
        let mut clock = PollClock::resolve_from_env(env);
        if let Some(d) = flags.poll {
            clock.poll = d;
        }
        if let Some(d) = flags.first_poll {
            clock.first_poll = d;
        } else if env.get_u64("AUTOSSH_FIRST_POLL").is_none() {
            clock.first_poll = clock.poll;
        }
        if let Some(d) = flags.gate_time {
            clock.gate_time = d;
        }
        if let Some(m) = flags.max_start {
            clock.max_start = m;
        }
        if let Some(m) = flags.max_lifetime {
            clock.max_lifetime = m;
        }
        if dash_f_supplied {
            clock.gate_time = Span::zero();
        }
        clock
    }
}

/// Law: a flag that is present decides its field, whatever the
/// environment holds.
pub proof fn lemma_flags_win_over_env(
    vars1: Seq<(String, String)>,
    vars2: Seq<(String, String)>,
    f: ClockFlagsView,
    dash_f: bool,
)
    ensures
        f.poll is Some ==> resolved_clock(vars1, f, dash_f).poll == resolved_clock(vars2, f, dash_f).poll,
        f.first_poll is Some ==> resolved_clock(vars1, f, dash_f).first_poll == resolved_clock(vars2, f, dash_f).first_poll,
        f.gate_time is Some ==> resolved_clock(vars1, f, dash_f).gate_time == resolved_clock(vars2, f, dash_f).gate_time,
        f.max_start is Some ==> resolved_clock(vars1, f, dash_f).max_start == resolved_clock(vars2, f, dash_f).max_start,
        f.max_lifetime is Some ==> resolved_clock(vars1, f, dash_f).max_lifetime == resolved_clock(
            vars2,
            f,
            dash_f,
        ).max_lifetime,
{
}

/// Law: `-f` makes the gatetime zero whatever the environment and the
/// flags say.
pub proof fn lemma_dash_f_zeroes_gate(vars: Seq<(String, String)>, f: ClockFlagsView)
    ensures
        resolved_clock(vars, f, true).gate_time == 0,
{
}

/// Law: when neither `--first-poll` nor `AUTOSSH_FIRST_POLL` gives a first
/// probe delay, it equals the resolved poll interval, whether that came
/// from `--poll`, `AUTOSSH_POLL` or the default.
pub proof fn lemma_first_poll_follows_poll(vars: Seq<(String, String)>, f: ClockFlagsView, dash_f: bool)
    requires
        env_u64(vars, "AUTOSSH_FIRST_POLL"@) is None,
        f.first_poll is None,
    ensures
        resolved_clock(vars, f, dash_f).first_poll == resolved_clock(vars, f, dash_f).poll,
        clock_from_env(vars).first_poll == clock_from_env(vars).poll,
{
}

/// Law: a negative `AUTOSSH_MAXSTART` (the `-1` sentinel) means no retry
/// cap.
pub proof fn lemma_negative_max_start_unlimited(vars: Seq<(String, String)>, v: Seq<char>, n: int)
    requires
        env_get(vars, "AUTOSSH_MAXSTART"@) == Some(v),
        crate::text::parse_signed64(v) == Some(n),
        n < 0,
    ensures
        clock_from_env(vars).max_start is None,
{
}

/// Law: a field whose flag is absent keeps the value the environment gave
/// it (the first-poll delay also needs `--poll` absent, since it follows the
/// poll interval when nothing sets it, and the gatetime needs `-f` absent).
pub proof fn lemma_absent_flags_keep_env(vars: Seq<(String, String)>, f: ClockFlagsView, dash_f: bool)
    ensures
        f.poll is None ==> resolved_clock(vars, f, dash_f).poll == clock_from_env(vars).poll,
        f.poll is None && f.first_poll is None ==> resolved_clock(vars, f, dash_f).first_poll == clock_from_env(
            vars,
        ).first_poll,
        f.gate_time is None && !dash_f ==> resolved_clock(vars, f, dash_f).gate_time == clock_from_env(vars).gate_time,
        f.max_start is None ==> resolved_clock(vars, f, dash_f).max_start == clock_from_env(vars).max_start,
        f.max_lifetime is None ==> resolved_clock(vars, f, dash_f).max_lifetime == clock_from_env(vars).max_lifetime,
{
}

/// Law: with no flag and no `-f`, the resolved clock is the environment's.
pub proof fn lemma_no_flags_is_env(vars: Seq<(String, String)>)
    ensures
        resolved_clock(
            vars,
            ClockFlagsView { poll: None, first_poll: None, gate_time: None, max_start: None, max_lifetime: None },
            false,
        ) == clock_from_env(vars),
{
}

/// Law: what each `AUTOSSH_*` variable gives, in nanoseconds: a well-formed
/// `AUTOSSH_POLL` / `AUTOSSH_GATETIME` of `n` seconds sets that interval
/// (600 s and 30 s otherwise); `AUTOSSH_FIRST_POLL` sets the first poll
/// (the poll interval otherwise); `AUTOSSH_MAXLIFETIME` of `n > 0` seconds
/// caps the runtime (`0` — the unlimited sentinel —, malformed or unset: no
/// cap); `AUTOSSH_MAXSTART`
/// of `n >= 0` caps the retries at `n` (saturating at `u32::MAX`; negative,
/// malformed or unset: no cap).
pub proof fn lemma_env_fields(vars: Seq<(String, String)>)
    ensures
        clock_from_env(vars).poll == match env_u64(vars, "AUTOSSH_POLL"@) {
            Some(n) => n * 1_000_000_000,
            None => 600_000_000_000,
        },
        clock_from_env(vars).first_poll == match env_u64(vars, "AUTOSSH_FIRST_POLL"@) {
            Some(n) => n * 1_000_000_000,
            None => clock_from_env(vars).poll,
        },
        clock_from_env(vars).gate_time == match env_u64(vars, "AUTOSSH_GATETIME"@) {
            Some(n) => n * 1_000_000_000,
            None => 30_000_000_000,
        },
        clock_from_env(vars).max_lifetime == match env_u64(vars, "AUTOSSH_MAXLIFETIME"@) {
            Some(n) => if n == 0 {
                None::<int>
            } else {
                Some(n * 1_000_000_000)
            },
            None => None::<int>,
        },
        match env_get(vars, "AUTOSSH_MAXSTART"@) {
            Some(v) => match crate::text::parse_signed64(v) {
                Some(n) => if n < 0 {
                    clock_from_env(vars).max_start is None
                } else if n <= 0xffff_ffff {
                    clock_from_env(vars).max_start == Some(n as u32)
                } else {
                    clock_from_env(vars).max_start == Some(u32::MAX)
                },
                None => clock_from_env(vars).max_start is None,
            },
            None => clock_from_env(vars).max_start is None,
        },
{
}

} // verus!
