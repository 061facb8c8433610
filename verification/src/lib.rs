//! Verified core of an autossh-style SSH connection supervisor.
//!
//! The library holds the decisions of the supervisor: argv parsing in both
//! compatibility modes, mode resolution, poll-clock resolution from the
//! environment and flags, the monitor-port heartbeat wire format, ssh argv
//! injection, ssh binary selection, and the respawn state machine. The
//! process, socket, signal and file work that drives it lives in the
//! accompanying application crate.

use vstd::prelude::*;

pub mod clock;
pub mod cli;
pub mod daemonizer;
pub mod error;
pub mod mode;
pub mod monitor;
pub mod pidfile;
pub mod spawner;
pub mod strict;
pub mod supervisor;
pub mod text;

pub use error::AutosshError;

use clock::{opt_span, PollClock, PollClockView, Span};
use monitor::{bound_mode_spec, bound_monitor_mode, MonitorPortPair};
use spawner::SshLookup;
use supervisor::{Phase, Supervisor};

verus! {

/// Signal-kind tag carried by a signal notification.
///
/// Abstracts over the Unix signals and the Windows console events so the
/// public surface is the same on every platform.
#[non_exhaustive]
#[derive(Debug, Clone, Copy, PartialEq, Eq, Structural, Hash)]
pub enum SignalKind {
    /// SIGTERM (Unix) / Ctrl+C (Windows).
    Terminate,
    /// SIGINT (Unix) / Ctrl+C (Windows).
    Interrupt,
    /// SIGUSR1 (Unix).
    UserDefined1,
    /// SIGHUP (Unix).
    Hangup,
    /// Ctrl+Break (Windows).
    CtrlBreak,
}

/// Monitor-port mode resolved from the `-M` flag.
///
/// - `Disabled` (`-M 0`): no TCP listeners; respawn ssh only on exit.
/// - `Active` (`-M <port>` or `-M <port>:<echo>`): a monitor-port listener
///   pair (or a single listener when `echo` is given) is probed every poll
///   interval.
#[non_exhaustive]
#[derive(Debug, Clone, Copy, PartialEq, Eq, Structural, Hash)]
pub enum MonitorMode {
    /// `-M 0`: no monitor-port listeners.
    Disabled,
    /// `-M <port>` (echo `None`) or `-M <port>:<echo>` (echo `Some`).
    Active {
        /// Local monitor port.
        port: u16,
        /// Optional remote echo port.
        echo: Option<u16>,
    },
}

impl Default for MonitorMode {
    fn default() -> (m: Self)
        ensures
            m == MonitorMode::Disabled,
    {
        MonitorMode::Disabled
    }
}

/// Compatibility mode: the Rust-native `Default` mode or the upstream
/// byte-compatible `Strict` mode.
#[non_exhaustive]
#[derive(Debug, Clone, Copy, PartialEq, Eq, Structural, Hash)]
pub enum CompatibilityMode {
    /// Long-form flags, structured diagnostics.
    Default,
    /// Upstream-compatible short flags and stderr.
    Strict,
}

impl Default for CompatibilityMode {
    fn default() -> (m: Self)
        ensures
            m == CompatibilityMode::Default,
    {
        CompatibilityMode::Default
    }
}


/// The view of an optional string.
pub open spec fn opt_str(o: Option<String>) -> Option<Seq<char>> {
    match o {
        Some(s) => Some(s@),
        None => None,
    }
}

fn clone_opt_string(o: &Option<String>) -> (r: Option<String>)
    ensures
        opt_str(r) == opt_str(*o),
{
    match o {
        Some(s) => Some(s.clone()),
        None => None,
    }
}

/// Mathematical view of an [`SshSupervisorBuilder`].
pub struct BuilderView<E> {
    /// Argv passed to ssh.
    pub ssh_args: Seq<Seq<char>>,
    /// Monitor mode.
    pub monitor_mode: MonitorMode,
    /// ssh binary override.
    pub ssh_path: Option<Seq<char>>,
    /// Poll interval override.
    pub poll: Option<int>,
    /// First-poll override.
    pub first_poll: Option<int>,
    /// Gate-time override.
    pub gate_time: Option<int>,
    /// Retry-cap override.
    pub max_start: Option<Option<u32>>,
    /// Runtime-cap override.
    pub max_lifetime: Option<Option<int>>,
    /// Event sink.
    pub event_sender: Option<E>,
    /// Heartbeat message suffix.
    pub message: Option<Seq<char>>,
    /// Compatibility mode.
    pub compatibility_mode: CompatibilityMode,
    /// One-shot flag.
    pub one_shot: bool,
    /// Pidfile path.
    pub pidfile_path: Option<Seq<char>>,
    /// Logfile path.
    pub logfile_path: Option<Seq<char>>,
}

/// Fluent builder of an [`SshSupervisor`].
///
/// `E` is the type of the event sink the driver publishes notifications
/// to. Unset values take the upstream defaults when built: poll 600 s,
/// first poll equal to poll, gatetime 30 s, no retry cap, no runtime cap.
#[derive(Debug)]
pub struct SshSupervisorBuilder<E> {
    ssh_args: Vec<String>,
    monitor_mode: MonitorMode,
    ssh_path: Option<String>,
    poll: Option<Span>,
    first_poll: Option<Span>,
    gate_time: Option<Span>,
    max_start: Option<Option<u32>>,
    max_lifetime: Option<Option<Span>>,
    event_sender: Option<E>,
    message: Option<String>,
    compatibility_mode: CompatibilityMode,
    one_shot: bool,
    pidfile_path: Option<String>,
    logfile_path: Option<String>,
}

impl<E> View for SshSupervisorBuilder<E> {
    type V = BuilderView<E>;

    closed spec fn view(&self) -> BuilderView<E> {
        BuilderView {
            ssh_args: self.ssh_args.deep_view(),
            monitor_mode: self.monitor_mode,
            ssh_path: opt_str(self.ssh_path),
            poll: opt_span(self.poll),
            first_poll: opt_span(self.first_poll),
            gate_time: opt_span(self.gate_time),
            max_start: self.max_start,
            max_lifetime: match self.max_lifetime {
                Some(m) => Some(opt_span(m)),
                None => None,
            },
            event_sender: self.event_sender,
            message: opt_str(self.message),
            compatibility_mode: self.compatibility_mode,
            one_shot: self.one_shot,
            pidfile_path: opt_str(self.pidfile_path),
            logfile_path: opt_str(self.logfile_path),
        }
    }
}

/// The view of a fresh builder: nothing set.
pub open spec fn fresh_builder<E>() -> BuilderView<E> {
    BuilderView {
        ssh_args: Seq::empty(),
        monitor_mode: MonitorMode::Disabled,
        ssh_path: None,
        poll: None,
        first_poll: None,
        gate_time: None,
        max_start: None,
        max_lifetime: None,
        event_sender: None,
        message: None,
        compatibility_mode: CompatibilityMode::Default,
        one_shot: false,
        pidfile_path: None,
        logfile_path: None,
    }
}

impl<E> SshSupervisorBuilder<E> {
    /// A builder with nothing set.
    pub fn new() -> (b: Self)
        ensures
            b@ == fresh_builder::<E>(),
    {
        let ssh_args: Vec<String> = Vec::new();
        let b = SshSupervisorBuilder {
            ssh_args,
            monitor_mode: MonitorMode::Disabled,
            ssh_path: None,
            poll: None,
            first_poll: None,
            gate_time: None,
            max_start: None,
            max_lifetime: None,
            event_sender: None,
            message: None,
            compatibility_mode: CompatibilityMode::Default,
            one_shot: false,
            pidfile_path: None,
            logfile_path: None,
        };
        proof {
            assert(b@.ssh_args =~= Seq::<Seq<char>>::empty());
        }
        b
    }

    /// Sets the argv passed verbatim to ssh.
    pub fn ssh_args(self, args: Vec<String>) -> (b: Self)
        ensures
            b@ == (BuilderView { ssh_args: args.deep_view(), ..self@ }),
    {
        SshSupervisorBuilder { ssh_args: args, ..self }
    }

    /// Sets the monitor mode.
    pub fn monitor_mode(self, mode: MonitorMode) -> (b: Self)
        ensures
            b@ == (BuilderView { monitor_mode: mode, ..self@ }),
    {
        SshSupervisorBuilder { monitor_mode: mode, ..self }
    }

    /// Overrides the ssh binary; unset, it is resolved from `AUTOSSH_PATH`
    /// and the search path.
    pub fn ssh_path(self, path: String) -> (b: Self)
        ensures
            b@ == (BuilderView { ssh_path: Some(path@), ..self@ }),
    {
        SshSupervisorBuilder { ssh_path: Some(path), ..self }
    }

    /// Overrides the poll interval.
    pub fn poll(self, poll: Span) -> (b: Self)
        ensures
            b@ == (BuilderView { poll: Some(poll@), ..self@ }),
    {
        SshSupervisorBuilder { poll: Some(poll), ..self }
    }

    /// Overrides the first-poll delay.
    pub fn first_poll(self, first_poll: Span) -> (b: Self)
        ensures
            b@ == (BuilderView { first_poll: Some(first_poll@), ..self@ }),
    {
        SshSupervisorBuilder { first_poll: Some(first_poll), ..self }
    }

    /// Overrides the gatetime.
    pub fn gate_time(self, gate_time: Span) -> (b: Self)
        ensures
            b@ == (BuilderView { gate_time: Some(gate_time@), ..self@ }),
    {
        SshSupervisorBuilder { gate_time: Some(gate_time), ..self }
    }

    /// Overrides the retry cap (`None` = unlimited).
    pub fn max_start(self, max_start: Option<u32>) -> (b: Self)
        ensures
            b@ == (BuilderView { max_start: Some(max_start), ..self@ }),
    {
        SshSupervisorBuilder { max_start: Some(max_start), ..self }
    }

    /// Overrides the runtime cap (`None` = unlimited).
    pub fn max_lifetime(self, max_lifetime: Option<Span>) -> (b: Self)
        ensures
            b@ == (BuilderView { max_lifetime: Some(opt_span(max_lifetime)), ..self@ }),
    {
        SshSupervisorBuilder { max_lifetime: Some(max_lifetime), ..self }
    }

    /// Attaches the event sink.
    pub fn event_sender(self, tx: E) -> (b: Self)
        ensures
            b@ == (BuilderView { event_sender: Some(tx), ..self@ }),
    {
        SshSupervisorBuilder { event_sender: Some(tx), ..self }
    }

    /// Sets the heartbeat message suffix.
    pub fn message(self, message: String) -> (b: Self)
        ensures
            b@ == (BuilderView { message: Some(message@), ..self@ }),
    {
        SshSupervisorBuilder { message: Some(message), ..self }
    }

    /// Sets the compatibility mode.
    pub fn compatibility_mode(self, mode: CompatibilityMode) -> (b: Self)
        ensures
            b@ == (BuilderView { compatibility_mode: mode, ..self@ }),
    {
        SshSupervisorBuilder { compatibility_mode: mode, ..self }
    }

    /// Sets one-shot mode (the first failure ends the run).
    pub fn one_shot(self, one_shot: bool) -> (b: Self)
        ensures
            b@ == (BuilderView { one_shot, ..self@ }),
    {
        SshSupervisorBuilder { one_shot, ..self }
    }

    /// Sets the pidfile path.
    pub fn pidfile_path(self, path: String) -> (b: Self)
        ensures
            b@ == (BuilderView { pidfile_path: Some(path@), ..self@ }),
    {
        SshSupervisorBuilder { pidfile_path: Some(path), ..self }
    }

    /// Sets the logfile path.
    pub fn logfile_path(self, path: String) -> (b: Self)
        ensures
            b@ == (BuilderView { logfile_path: Some(path@), ..self@ }),
    {
        SshSupervisorBuilder { logfile_path: Some(path), ..self }
    }

    /// Finalizes the builder; unset values take their defaults.
    ///
    /// Fails with `SshNotFound` when no ssh binary was set and `lookup`
    /// finds none (see [`spawner::resolve_ssh_path`]), and with the
    /// heartbeat error when monitoring is active and the message holds a
    /// newline.
    pub fn build(self, lookup: &SshLookup) -> (r: Result<SshSupervisor<E>, AutosshError>)
        ensures
            match ssh_choice(self@.ssh_path, *lookup) {
                Err(searched) => r matches Err(AutosshError::SshNotFound { searched: s }) && s.deep_view() == searched,
                Ok(path) => if message_rejected(self@) {
                    r matches Err(AutosshError::Internal(m)) && m == monitor::MESSAGE_NEWLINE
                } else {
                    r matches Ok(sup) && sup@ == built(self@, path)
                },
            },
    {
        let ssh_path = match self.ssh_path {
            Some(p) => p,
            None => {
                let autossh = match &lookup.autossh_path {
                    Some(p) => Some(p.as_str()),
                    None => None,
                };
                let probes = match &lookup.path_probes {
                    Some(ps) => Some(ps),
                    None => None,
                };
                spawner::resolve_ssh_path(autossh, probes)?
            },
        };
        if let MonitorMode::Active { .. } = self.monitor_mode {
            if let Some(m) = &self.message {
                if text::contains_newline(m.as_str()) {
                    return Err(AutosshError::Internal(monitor::MESSAGE_NEWLINE));
                }
            }
        }
        let poll = match self.poll {
            Some(p) => p,
            None => Span::from_secs(600),
        };
        let gate_time = match self.gate_time {
            Some(g) => g,
            None => Span::from_secs(30),
        };
        let max_start = match self.max_start {
            Some(m) => m,
            None => None,
        };
        let max_lifetime = match self.max_lifetime {
            Some(m) => m,
            None => None,
        };
        Ok(SshSupervisor {
            ssh_args: self.ssh_args,
            monitor_mode: self.monitor_mode,
            ssh_path,
            poll,
            first_poll: self.first_poll,
            gate_time,
            max_start,
            max_lifetime,
            event_sender: self.event_sender,
            message: self.message,
            compatibility_mode: self.compatibility_mode,
            one_shot: self.one_shot,
            pidfile_path: self.pidfile_path,
            logfile_path: self.logfile_path,
        })
    }
}

/// The ssh binary a build uses: the one set on the builder, else the result
/// of the lookup.
pub open spec fn ssh_choice(set: Option<Seq<char>>, lookup: SshLookup) -> Result<Seq<char>, Seq<Seq<char>>> {
    match set {
        Some(p) => Ok(p),
        None => spawner::lookup_resolution(lookup),
    }
}

/// Whether the heartbeat message is refused: monitoring is active and the
/// message holds a newline, which would corrupt the wire format.
pub open spec fn message_rejected<E>(b: BuilderView<E>) -> bool {
    &&& b.monitor_mode is Active
    &&& b.message is Some
    &&& b.message->0.contains('\n')
}

/// Mathematical view of an [`SshSupervisor`].
pub struct SupervisorConfigView<E> {
    /// Argv passed to ssh.
    pub ssh_args: Seq<Seq<char>>,
    /// Monitor mode.
    pub monitor_mode: MonitorMode,
    /// The resolved ssh binary.
    pub ssh_path: Seq<char>,
    /// Poll interval.
    pub poll: int,
    /// First-poll delay, when set.
    pub first_poll: Option<int>,
    /// Gate time.
    pub gate_time: int,
    /// Retry cap.
    pub max_start: Option<u32>,
    /// Runtime cap.
    pub max_lifetime: Option<int>,
    /// Event sink.
    pub event_sender: Option<E>,
    /// Heartbeat message suffix.
    pub message: Option<Seq<char>>,
    /// Compatibility mode.
    pub compatibility_mode: CompatibilityMode,
    /// One-shot flag.
    pub one_shot: bool,
    /// Pidfile path.
    pub pidfile_path: Option<Seq<char>>,
    /// Logfile path.
    pub logfile_path: Option<Seq<char>>,
}

/// The configuration a builder produces with the resolved ssh binary: poll
/// defaults to 600 s, gatetime to 30 s, the caps to unlimited.
pub open spec fn built<E>(b: BuilderView<E>, ssh_path: Seq<char>) -> SupervisorConfigView<E> {
    SupervisorConfigView {
        ssh_args: b.ssh_args,
        monitor_mode: b.monitor_mode,
        ssh_path,
        poll: match b.poll {
            Some(p) => p,
            None => clock::secs_ns(600),
        },
        first_poll: b.first_poll,
        gate_time: match b.gate_time {
            Some(g) => g,
            None => clock::secs_ns(30),
        },
        max_start: match b.max_start {
            Some(m) => m,
            None => None,
        },
        max_lifetime: match b.max_lifetime {
            Some(m) => m,
            None => None,
        },
        event_sender: b.event_sender,
        message: b.message,
        compatibility_mode: b.compatibility_mode,
        one_shot: b.one_shot,
        pidfile_path: b.pidfile_path,
        logfile_path: b.logfile_path,
    }
}

/// Configuration of one supervision run, built by
/// [`SshSupervisorBuilder::build`].
#[derive(Debug)]
pub struct SshSupervisor<E> {
    ssh_args: Vec<String>,
    monitor_mode: MonitorMode,
    ssh_path: String,
    poll: Span,
    first_poll: Option<Span>,
    gate_time: Span,
    max_start: Option<u32>,
    max_lifetime: Option<Span>,
    event_sender: Option<E>,
    message: Option<String>,
    compatibility_mode: CompatibilityMode,
    one_shot: bool,
    pidfile_path: Option<String>,
    logfile_path: Option<String>,
}

impl<E> View for SshSupervisor<E> {
    type V = SupervisorConfigView<E>;

    closed spec fn view(&self) -> SupervisorConfigView<E> {
        SupervisorConfigView {
            ssh_args: self.ssh_args.deep_view(),
            monitor_mode: self.monitor_mode,
            ssh_path: self.ssh_path@,
            poll: self.poll@,
            first_poll: opt_span(self.first_poll),
            gate_time: self.gate_time@,
            max_start: self.max_start,
            max_lifetime: opt_span(self.max_lifetime),
            event_sender: self.event_sender,
            message: opt_str(self.message),
            compatibility_mode: self.compatibility_mode,
            one_shot: self.one_shot,
            pidfile_path: opt_str(self.pidfile_path),
            logfile_path: opt_str(self.logfile_path),
        }
    }
}

/// The clock of a run: the first-poll delay defaults to the poll interval.
pub open spec fn run_clock<E>(c: SupervisorConfigView<E>) -> PollClockView {
    PollClockView {
        poll: c.poll,
        first_poll: match c.first_poll {
            Some(f) => f,
            None => c.poll,
        },
        gate_time: c.gate_time,
        max_start: c.max_start,
        max_lifetime: c.max_lifetime,
    }
}

impl<E> SshSupervisor<E> {
    /// The argv passed to ssh.
    pub fn ssh_args(&self) -> (r: &Vec<String>)
        ensures
            r.deep_view() == self@.ssh_args,
    {
        &self.ssh_args
    }

    /// The monitor mode.
    pub fn monitor_mode(&self) -> (r: MonitorMode)
        ensures
            r == self@.monitor_mode,
    {
        self.monitor_mode
    }

    /// The resolved ssh binary.
    pub fn ssh_path(&self) -> (r: String)
        ensures
            r@ == self@.ssh_path,
    {
        self.ssh_path.clone()
    }

    /// The heartbeat message suffix, if any.
    pub fn message(&self) -> (r: Option<String>)
        ensures
            opt_str(r) == self@.message,
    {
        clone_opt_string(&self.message)
    }

    /// The compatibility mode.
    pub fn compatibility_mode(&self) -> (r: CompatibilityMode)
        ensures
            r == self@.compatibility_mode,
    {
        self.compatibility_mode
    }

    /// The pidfile path, if any.
    pub fn pidfile_path(&self) -> (r: Option<String>)
        ensures
            opt_str(r) == self@.pidfile_path,
    {
        clone_opt_string(&self.pidfile_path)
    }

    /// The logfile path, if any.
    pub fn logfile_path(&self) -> (r: Option<String>)
        ensures
            opt_str(r) == self@.logfile_path,
    {
        clone_opt_string(&self.logfile_path)
    }

    /// The event sink, if any.
    pub fn event_sender(&self) -> (r: &Option<E>)
        ensures
            *r == self@.event_sender,
    {
        &self.event_sender
    }

    /// The clock of the run (see [`run_clock`]).
    pub fn clock(&self) -> (c: PollClock)
        ensures
            c@ == run_clock(self@),
    {
        PollClock {
            poll: self.poll,
            first_poll: match self.first_poll {
                Some(f) => f,
                None => self.poll,
            },
            gate_time: self.gate_time,
            max_start: self.max_start,
            max_lifetime: self.max_lifetime,
        }
    }

    /// The initial decision state of a run with, when monitoring, the bound
    /// ports: the monitor mode carries the actual input port, the retry
    /// counter is zero, no child is alive.
    pub fn initial_state(&self, ports: Option<MonitorPortPair>) -> (s: Supervisor)
        ensures
            s.clock@ == run_clock(self@),
            s.mode == self@.compatibility_mode,
            s.monitor_mode == bound_mode_spec(self@.monitor_mode, ports),
            s.ssh_path@ == self@.ssh_path,
            s.ssh_args.deep_view() == self@.ssh_args,
            s.retry_count == 0,
            s.one_shot == self@.one_shot,
            s.has_monitor == ports is Some,
            !s.has_child,
            s.phase == Phase::Ready,
    {
        let mut args: Vec<String> = Vec::new();
        spawner::extend_strings(&mut args, &self.ssh_args);
        proof {
            assert(args.deep_view() =~= self.ssh_args.deep_view());
        }
        Supervisor {
            clock: self.clock(),
            mode: self.compatibility_mode,
            monitor_mode: bound_monitor_mode(&self.monitor_mode, ports),
            ssh_path: self.ssh_path.clone(),
            ssh_args: args,
            retry_count: 0,
            one_shot: self.one_shot,
            has_monitor: ports.is_some(),
            has_child: false,
            phase: Phase::Ready,
        }
    }
}

} // verus!
