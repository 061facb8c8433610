//! The respawn state machine of the supervisor.
//!
//! [`Supervisor`] holds the decision state of one supervision run: the poll
//! clock, the consecutive-retry counter, whether a child is alive and which
//! step of the loop is in progress. The driver (which owns the child
//! process, the monitor listeners, the signal stream and the clock) reports
//! each outcome as a [`LoopEvent`]; [`Supervisor::step`] answers with the
//! notifications to publish, how to re-arm the probe timer, and the next
//! operation to perform.

use vstd::prelude::*;

use crate::clock::{PollClock, Span};
use crate::spawner::{inject_monitor_forwards, spec_inject_monitor_forwards};
use crate::{AutosshError, CompatibilityMode, MonitorMode, SignalKind};

verus! {

/// Decision taken after a child exit.
#[derive(Debug, Clone, Copy, PartialEq, Eq, Structural)]
pub enum RespawnDecision {
    /// Spawn a replacement after the gatetime back-off.
    Respawn,
    /// Terminate the supervisor.
    Exit(ExitReason),
}

/// Why the supervisor terminates.
#[derive(Debug, Clone, Copy, PartialEq, Eq, Structural)]
pub enum ExitReason {
    /// Clean exit.
    Clean,
    /// The retry cap was reached.
    MaxStartReached {
        /// Number of consecutive attempts.
        attempts: u32,
    },
    /// The total-runtime cap was reached.
    MaxLifetimeReached,
    /// One-shot mode and the child failed.
    OneShotFailed,
}

/// Which spawn is in progress.
#[derive(Debug, Clone, Copy, PartialEq, Eq, Structural)]
pub enum SpawnReason {
    /// The first child of the run.
    Initial,
    /// Replacement after the child exited.
    AfterExit,
    /// Replacement after a failed probe.
    AfterProbe,
    /// Replacement forced by SIGUSR1 / SIGHUP.
    AfterSignal,
}

/// Why the child is being terminated.
#[derive(Debug, Clone, Copy, PartialEq, Eq, Structural)]
pub enum TermReason {
    /// The total-runtime cap elapsed.
    Lifetime,
    /// A heartbeat probe failed.
    ProbeTimeout,
    /// SIGTERM, SIGINT or Ctrl+Break: terminate and exit.
    SignalExit,
    /// SIGUSR1 or SIGHUP: terminate and respawn.
    SignalRespawn,
}

/// Why the supervisor is sleeping before a respawn.
#[derive(Debug, Clone, Copy, PartialEq, Eq, Structural)]
pub enum SleepReason {
    /// Back-off after a child exit.
    AfterExit,
    /// Back-off after a failed probe.
    AfterProbe,
}

/// The step of the loop that is in progress.
#[derive(Debug, Clone, Copy, PartialEq, Eq, Structural)]
pub enum Phase {
    /// Nothing has happened yet.
    Ready,
    /// A spawn was requested.
    Spawning(SpawnReason),
    /// The elapsed runtime was requested.
    CheckingLifetime,
    /// Waiting for the child, the probe timer or a signal.
    Waiting,
    /// A child termination was requested.
    Terminating(TermReason),
    /// The gatetime back-off was requested.
    Sleeping(SleepReason),
    /// The run is over.
    Done,
}

/// A notification the driver publishes to the consumer's event channel.
///
/// The driver attaches the process id of the last spawned child to
/// `ChildSpawned` and the last observed exit status to `ChildExited`.
#[derive(Debug, Clone, Copy, PartialEq, Eq, Structural)]
pub enum Notice {
    /// A child was spawned.
    ChildSpawned,
    /// The child exited or was reaped.
    ChildExited,
    /// A replacement child was spawned.
    ChildRespawned,
    /// A heartbeat probe failed.
    ProbeTimeout,
    /// The retry cap was reached.
    MaxStartReached {
        /// Number of consecutive attempts.
        attempts: u32,
    },
    /// The total-runtime cap elapsed.
    MaxLifetimeReached,
    /// A signal was received.
    SignalReceived(SignalKind),
}

/// How the driver re-arms the heartbeat probe timer.
#[derive(Debug, Clone, Copy, PartialEq, Eq, Structural)]
pub enum ProbeTimer {
    /// Leave the deadline as it is.
    Keep,
    /// No probe deadline.
    Disarm,
    /// Probe once the span has elapsed from now.
    ArmIn(Span),
}

/// The next operation of the driver.
#[derive(Debug)]
pub enum Op {
    /// Spawn the ssh child; answer `Spawned` or `SpawnFailed`.
    Spawn,
    /// Measure the runtime so far; answer `Elapsed`.
    CheckLifetime,
    /// Wait for the child, the probe deadline or a signal; answer
    /// `ChildExited`, `WaitFailed`, `ProbeOk`, `ProbeFailed` or `Signal`.
    Wait,
    /// Terminate the child (SIGTERM, grace, SIGKILL); answer `Terminated` or
    /// `TerminateFailed`.
    Terminate,
    /// Sleep for the span; answer `Slept`.
    Sleep(Span),
    /// Stop with this result.
    Finish(Result<(), AutosshError>),
}

/// The answer of [`Supervisor::step`].
#[derive(Debug)]
pub struct Step {
    /// Notifications to publish, in order, before the operation.
    pub notices: Vec<Notice>,
    /// How to re-arm the probe timer.
    pub timer: ProbeTimer,
    /// The next operation.
    pub op: Op,
}

/// Mathematical view of a [`Step`].
pub struct StepView {
    /// Notifications to publish, in order.
    pub notices: Seq<Notice>,
    /// How to re-arm the probe timer.
    pub timer: ProbeTimer,
    /// The next operation.
    pub op: Op,
}

impl View for Step {
    type V = StepView;

    open spec fn view(&self) -> StepView {
        StepView { notices: self.notices@, timer: self.timer, op: self.op }
    }
}

/// An outcome reported by the driver.
#[derive(Debug)]
pub enum LoopEvent {
    /// Begin the run.
    Start,
    /// The requested spawn succeeded.
    Spawned,
    /// The requested spawn failed.
    SpawnFailed(std::io::Error),
    /// Runtime since the run started.
    Elapsed(Span),
    /// The child exited by itself.
    ChildExited {
        /// Whether the exit status was success.
        success: bool,
        /// How long the child lived.
        lifetime: Span,
    },
    /// Waiting on the child failed.
    WaitFailed(std::io::Error),
    /// The heartbeat probe round-trip succeeded.
    ProbeOk,
    /// The heartbeat probe timed out or failed.
    ProbeFailed,
    /// A signal arrived (a closed signal stream counts as `Terminate`).
    Signal(SignalKind),
    /// The requested termination finished.
    Terminated {
        /// Success flag of the reaped child's status, `None` when there was
        /// no child.
        status: Option<bool>,
        /// How long the terminated child lived.
        lifetime: Span,
    },
    /// The requested termination failed.
    TerminateFailed(std::io::Error),
    /// The requested sleep finished.
    Slept,
}

/// Decision state of one supervision run.
#[derive(Debug)]
pub struct Supervisor {
    /// Resolved poll clock.
    pub clock: PollClock,
    /// Active compatibility mode.
    pub mode: CompatibilityMode,
    /// Resolved monitor mode, used for argv injection.
    pub monitor_mode: MonitorMode,
    /// Resolved ssh binary path.
    pub ssh_path: String,
    /// Argv passed to ssh after the injected forwards.
    pub ssh_args: Vec<String>,
    /// Consecutive-retry counter.
    pub retry_count: u32,
    /// One-shot (`-1`): the first failure ends the run.
    pub one_shot: bool,
    /// Whether monitor-port listeners are bound.
    pub has_monitor: bool,
    /// Whether a child is alive.
    pub has_child: bool,
    /// Step in progress.
    pub phase: Phase,
}

/// The message of the error returned when the loop would wait without a
/// live child.
pub const NO_CHILD: &'static str = "supervisor entered select with no live child";

/// The message of the error returned for an event that does not answer the
/// requested operation.
pub const OUT_OF_STEP: &'static str = "supervisor received an event out of step";

/// Counter after a short-lived failure: one more, saturating.
pub open spec fn bumped(n: u32) -> u32 {
    if n < u32::MAX { (n + 1) as u32 } else { n }
}

/// The respawn decision after a child exit with the given success flag and
/// lifetime, together with the new retry counter.
pub open spec fn exit_decision(s: Supervisor, success: bool, lifetime: int) -> (u32, RespawnDecision) {
    if s.one_shot && !success {
        (s.retry_count, RespawnDecision::Exit(ExitReason::OneShotFailed))
    } else if success {
        match s.monitor_mode {
            MonitorMode::Disabled => (s.retry_count, RespawnDecision::Exit(ExitReason::Clean)),
            _ => (0, RespawnDecision::Respawn),
        }
    } else if lifetime >= s.clock.gate_time@ {
        (0, RespawnDecision::Respawn)
    } else {
        let n = bumped(s.retry_count);
        match s.clock.max_start {
            Some(cap) => if n >= cap {
                (n, RespawnDecision::Exit(ExitReason::MaxStartReached { attempts: n }))
            } else {
                (n, RespawnDecision::Respawn)
            },
            None => (n, RespawnDecision::Respawn),
        }
    }
}

/// The lifetime check: `Some(exit)` once the runtime reaches the cap.
pub open spec fn lifetime_decision(s: Supervisor, elapsed: int) -> Option<RespawnDecision> {
    match s.clock.max_lifetime {
        Some(m) => if elapsed >= m@ {
            Some(RespawnDecision::Exit(ExitReason::MaxLifetimeReached))
        } else {
            None
        },
        None => None,
    }
}

/// Probe timer after a (re)spawn: the first-poll delay when monitoring.
pub open spec fn timer_after_spawn(s: Supervisor) -> ProbeTimer {
    if s.has_monitor {
        ProbeTimer::ArmIn(s.clock.first_poll)
    } else {
        ProbeTimer::Disarm
    }
}

/// The notice for the end of the child being terminated: `ChildExited`
/// when one was alive, nothing otherwise.
pub open spec fn exit_notice(alive: bool) -> Seq<Notice> {
    if alive {
        seq![Notice::ChildExited]
    } else {
        Seq::empty()
    }
}

/// The step that stops the run with `res`.
pub open spec fn finish(s: Supervisor, notices: Seq<Notice>, res: Result<(), AutosshError>) -> (Supervisor, StepView) {
    (Supervisor { phase: Phase::Done, ..s }, StepView { notices, timer: ProbeTimer::Keep, op: Op::Finish(res) })
}

/// The step that follows a decision taken on a reaped child.
pub open spec fn after_exit(s: Supervisor, dec: RespawnDecision, from_probe: bool) -> (Supervisor, StepView) {
    let seen = seq![Notice::ChildExited];
    match dec {
        RespawnDecision::Respawn => (
            Supervisor {
                phase: Phase::Sleeping(if from_probe { SleepReason::AfterProbe } else { SleepReason::AfterExit }),
                ..s
            },
            StepView { notices: seen, timer: ProbeTimer::Keep, op: Op::Sleep(s.clock.gate_time) },
        ),
        RespawnDecision::Exit(ExitReason::MaxStartReached { attempts }) => finish(
            s,
            seen.push(Notice::MaxStartReached { attempts }),
            Err(AutosshError::MaxStartReached { attempts }),
        ),
        RespawnDecision::Exit(ExitReason::OneShotFailed) => finish(
            s,
            seen,
            Err(AutosshError::MaxStartReached { attempts: 1 }),
        ),
        RespawnDecision::Exit(_) => finish(s, seen, Ok(())),
    }
}

/// The transition function of the supervision loop.
pub open spec fn next(s: Supervisor, e: LoopEvent) -> (Supervisor, StepView) {
    let none = Seq::<Notice>::empty();
    match (s.phase, e) {
        (Phase::Ready, LoopEvent::Start) => (
            Supervisor { phase: Phase::Spawning(SpawnReason::Initial), ..s },
            StepView { notices: none, timer: ProbeTimer::Keep, op: Op::Spawn },
        ),
        (Phase::Spawning(r), LoopEvent::Spawned) => (
            Supervisor { phase: Phase::CheckingLifetime, has_child: true, ..s },
            StepView {
                notices: if r == SpawnReason::Initial {
                    seq![Notice::ChildSpawned]
                } else {
                    seq![Notice::ChildSpawned, Notice::ChildRespawned]
                },
                timer: if r == SpawnReason::AfterProbe {
                    ProbeTimer::ArmIn(s.clock.first_poll)
                } else {
                    timer_after_spawn(s)
                },
                op: Op::CheckLifetime,
            },
        ),
        (Phase::Spawning(_), LoopEvent::SpawnFailed(err)) => finish(s, none, Err(AutosshError::Io(err))),
        (Phase::CheckingLifetime, LoopEvent::Elapsed(d)) => if lifetime_decision(s, d@) is Some {
            (
                Supervisor { phase: Phase::Terminating(TermReason::Lifetime), ..s },
                StepView { notices: seq![Notice::MaxLifetimeReached], timer: ProbeTimer::Keep, op: Op::Terminate },
            )
        } else if !s.has_child {
            finish(s, none, Err(AutosshError::Internal(NO_CHILD)))
        } else {
            (
                Supervisor { phase: Phase::Waiting, ..s },
                StepView { notices: none, timer: ProbeTimer::Keep, op: Op::Wait },
            )
        },
        (Phase::Waiting, LoopEvent::ChildExited { success, lifetime }) => {
            let (n, dec) = exit_decision(s, success, lifetime@);
            after_exit(Supervisor { retry_count: n, has_child: false, ..s }, dec, false)
        },
        (Phase::Waiting, LoopEvent::WaitFailed(err)) => finish(s, none, Err(AutosshError::Io(err))),
        (Phase::Waiting, LoopEvent::ProbeOk) => (
            Supervisor { phase: Phase::CheckingLifetime, ..s },
            StepView { notices: none, timer: ProbeTimer::ArmIn(s.clock.poll), op: Op::CheckLifetime },
        ),
        (Phase::Waiting, LoopEvent::ProbeFailed) => (
            Supervisor { phase: Phase::Terminating(TermReason::ProbeTimeout), ..s },
            StepView { notices: seq![Notice::ProbeTimeout], timer: ProbeTimer::ArmIn(s.clock.poll), op: Op::Terminate },
        ),
        (Phase::Waiting, LoopEvent::Signal(k)) => (
            Supervisor {
                phase: Phase::Terminating(match k {
                    SignalKind::UserDefined1 | SignalKind::Hangup => TermReason::SignalRespawn,
                    _ => TermReason::SignalExit,
                }),
                retry_count: if k == SignalKind::Hangup { 0 } else { s.retry_count },
                ..s
            },
            StepView { notices: seq![Notice::SignalReceived(k)], timer: ProbeTimer::Keep, op: Op::Terminate },
        ),
        (Phase::Terminating(r), LoopEvent::Terminated { status, lifetime }) => {
            let t = Supervisor { has_child: false, ..s };
            let gone = exit_notice(s.has_child);
            match r {
                TermReason::SignalRespawn => (
                    Supervisor { phase: Phase::Spawning(SpawnReason::AfterSignal), ..t },
                    StepView { notices: gone, timer: ProbeTimer::Keep, op: Op::Spawn },
                ),
                TermReason::ProbeTimeout => match status {
                    None => (
                        Supervisor { phase: Phase::CheckingLifetime, ..t },
                        StepView { notices: gone, timer: ProbeTimer::Keep, op: Op::CheckLifetime },
                    ),
                    Some(_) => {
                        let (n, dec) = exit_decision(t, false, lifetime@);
                        after_exit(Supervisor { retry_count: n, ..t }, dec, true)
                    },
                },
                _ => finish(t, gone, Ok(())),
            }
        },
        (Phase::Terminating(r), LoopEvent::TerminateFailed(err)) => {
            let t = Supervisor { has_child: false, ..s };
            let gone = exit_notice(s.has_child);
            match r {
                TermReason::SignalRespawn => (
                    Supervisor { phase: Phase::Spawning(SpawnReason::AfterSignal), ..t },
                    StepView { notices: gone, timer: ProbeTimer::Keep, op: Op::Spawn },
                ),
                TermReason::ProbeTimeout => finish(t, gone, Err(AutosshError::Io(err))),
                _ => finish(t, gone, Ok(())),
            }
        },
        (Phase::Sleeping(r), LoopEvent::Slept) => (
            Supervisor {
                phase: Phase::Spawning(if r == SleepReason::AfterProbe { SpawnReason::AfterProbe } else { SpawnReason::AfterExit }),
                ..s
            },
            StepView { notices: none, timer: ProbeTimer::Keep, op: Op::Spawn },
        ),
        _ => finish(s, none, Err(AutosshError::Internal(OUT_OF_STEP))),
    }
}


fn exit_notices(alive: bool) -> (r: Vec<Notice>)
    ensures
        r@ == exit_notice(alive),
{
    let mut r: Vec<Notice> = Vec::new();
    if alive {
        r.push(Notice::ChildExited);
    }
    proof {
        assert(r@ =~= exit_notice(alive));
    }
    r
}

impl Supervisor {
    /// Computes the respawn decision after a child exit and updates the
    /// retry counter: a one-shot failure ends the run; a clean exit ends
    /// the run without monitoring and otherwise resets the counter and
    /// respawns; a failure after at least the gatetime resets the counter;
    /// a shorter-lived failure bumps it and ends the run once it reaches the
    /// retry cap.
    pub fn handle_child_exit(&mut self, success: bool, lifetime: Span) -> (r: RespawnDecision)
        ensures
            (final(self).retry_count, r) == exit_decision(*old(self), success, lifetime@),
            *final(self) == (Supervisor { retry_count: final(self).retry_count, ..*old(self) }),
            r == RespawnDecision::Respawn && !success && lifetime@ < old(self).gate_span() ==> (
                match old(self).clock.max_start {
                    Some(cap) => final(self).retry_count < cap,
                    None => true,
                }),
    {
        if self.one_shot && !success {
            return RespawnDecision::Exit(ExitReason::OneShotFailed);
        }
        if success {
            return match self.monitor_mode {
                MonitorMode::Disabled => RespawnDecision::Exit(ExitReason::Clean),
                _ => {
                    self.retry_count = 0;
                    RespawnDecision::Respawn
                },
            };
        }
        if lifetime.at_least(&self.clock.gate_time) {
            self.retry_count = 0;
        } else {
            self.retry_count = if self.retry_count < u32::MAX { self.retry_count + 1 } else { self.retry_count };
            match self.clock.max_start {
                Some(cap) => {
                    if self.retry_count >= cap {
                        return RespawnDecision::Exit(ExitReason::MaxStartReached { attempts: self.retry_count });
                    }
                },
                None => {},
            }
        }
        RespawnDecision::Respawn
    }

    /// The gatetime in nanoseconds.
    pub open spec fn gate_span(self) -> int {
        self.clock.gate_time@
    }

    /// The lifetime check: once the runtime `elapsed` reaches the
    /// total-runtime cap the run must end.
    pub fn check_lifetime(&self, elapsed: Span) -> (r: Option<RespawnDecision>)
        ensures
            r == lifetime_decision(*self, elapsed@),
    {
        match self.clock.max_lifetime {
            Some(m) => {
                if elapsed.at_least(&m) {
                    Some(RespawnDecision::Exit(ExitReason::MaxLifetimeReached))
                } else {
                    None
                }
            },
            None => None,
        }
    }

    /// The ssh argv of the next spawn: the monitor-port forwards followed by
    /// the user's arguments.
    pub fn spawn_args(&self) -> (r: Vec<String>)
        ensures
            r.deep_view() == spec_inject_monitor_forwards(self.monitor_mode, self.ssh_args.deep_view()),
    {
        inject_monitor_forwards(&self.monitor_mode, &self.ssh_args)
    }

    fn stop(&mut self, notices: Vec<Notice>, res: Result<(), AutosshError>) -> (r: Step)
        ensures
            (*final(self), r@) == finish(*old(self), notices@, res),
    {
        self.phase = Phase::Done;
        Step { notices, timer: ProbeTimer::Keep, op: Op::Finish(res) }
    }

    fn proceed(&mut self, phase: Phase, notices: Vec<Notice>, timer: ProbeTimer, op: Op) -> (r: Step)
        ensures
            *final(self) == (Supervisor { phase, ..*old(self) }),
            r@ == (StepView { notices: notices@, timer, op }),
    {
        self.phase = phase;
        Step { notices, timer, op }
    }

    fn decided(&mut self, dec: RespawnDecision, from_probe: bool) -> (r: Step)
        ensures
            (*final(self), r@) == after_exit(*old(self), dec, from_probe),
    {
        let mut seen: Vec<Notice> = Vec::new();
        seen.push(Notice::ChildExited);
        proof {
            assert(seen@ =~= seq![Notice::ChildExited]);
        }
        match dec {
            RespawnDecision::Respawn => {
                let why = if from_probe { SleepReason::AfterProbe } else { SleepReason::AfterExit };
                let gate = self.clock.gate_time;
                self.proceed(Phase::Sleeping(why), seen, ProbeTimer::Keep, Op::Sleep(gate))
            },
            RespawnDecision::Exit(ExitReason::MaxStartReached { attempts }) => {
                seen.push(Notice::MaxStartReached { attempts });
                self.stop(seen, Err(AutosshError::MaxStartReached { attempts }))
            },
            RespawnDecision::Exit(ExitReason::OneShotFailed) => {
                self.stop(seen, Err(AutosshError::MaxStartReached { attempts: 1 }))
            },
            RespawnDecision::Exit(_) => self.stop(seen, Ok(())),
        }
    }

    /// Advances the loop by one reported outcome.
    ///
    /// The run starts with `Start`, which asks for the first spawn. Each
    /// answer asks for exactly one operation, and the next event must report
    /// its outcome; an event that does not answer the requested operation
    /// ends the run with an internal error.
    pub fn step(&mut self, event: LoopEvent) -> (r: Step)
        ensures
            (*final(self), r@) == next(*old(self), event),
    {
        let none: Vec<Notice> = Vec::new();
        proof {
            assert(none@ =~= Seq::<Notice>::empty());
        }
        match (self.phase, event) {
            (Phase::Ready, LoopEvent::Start) => {
                self.proceed(Phase::Spawning(SpawnReason::Initial), none, ProbeTimer::Keep, Op::Spawn)
            },
            (Phase::Spawning(r), LoopEvent::Spawned) => {
                self.has_child = true;
                let mut notices: Vec<Notice> = Vec::new();
                notices.push(Notice::ChildSpawned);
                if r != SpawnReason::Initial {
                    notices.push(Notice::ChildRespawned);
                }
                proof {
                    if r == SpawnReason::Initial {
                        assert(notices@ =~= seq![Notice::ChildSpawned]);
                    } else {
                        assert(notices@ =~= seq![Notice::ChildSpawned, Notice::ChildRespawned]);
                    }
                }
                let timer = if r == SpawnReason::AfterProbe || self.has_monitor {
                    ProbeTimer::ArmIn(self.clock.first_poll)
                } else {
                    ProbeTimer::Disarm
                };
                self.proceed(Phase::CheckingLifetime, notices, timer, Op::CheckLifetime)
            },
            (Phase::Spawning(_), LoopEvent::SpawnFailed(err)) => self.stop(none, Err(AutosshError::Io(err))),
            (Phase::CheckingLifetime, LoopEvent::Elapsed(d)) => {
                if self.check_lifetime(d).is_some() {
                    let mut notices: Vec<Notice> = Vec::new();
                    notices.push(Notice::MaxLifetimeReached);
                    proof {
                        assert(notices@ =~= seq![Notice::MaxLifetimeReached]);
                    }
                    self.proceed(Phase::Terminating(TermReason::Lifetime), notices, ProbeTimer::Keep, Op::Terminate)
                } else if !self.has_child {
                    self.stop(none, Err(AutosshError::Internal(NO_CHILD)))
                } else {
                    self.proceed(Phase::Waiting, none, ProbeTimer::Keep, Op::Wait)
                }
            },
            (Phase::Waiting, LoopEvent::ChildExited { success, lifetime }) => {
                self.has_child = false;
                let dec = self.handle_child_exit(success, lifetime);
                self.decided(dec, false)
            },
            (Phase::Waiting, LoopEvent::WaitFailed(err)) => self.stop(none, Err(AutosshError::Io(err))),
            (Phase::Waiting, LoopEvent::ProbeOk) => {
                let poll = self.clock.poll;
                self.proceed(Phase::CheckingLifetime, none, ProbeTimer::ArmIn(poll), Op::CheckLifetime)
            },
            (Phase::Waiting, LoopEvent::ProbeFailed) => {
                let mut notices: Vec<Notice> = Vec::new();
                notices.push(Notice::ProbeTimeout);
                proof {
                    assert(notices@ =~= seq![Notice::ProbeTimeout]);
                }
                let poll = self.clock.poll;
                self.proceed(
                    Phase::Terminating(TermReason::ProbeTimeout),
                    notices,
                    ProbeTimer::ArmIn(poll),
                    Op::Terminate,
                )
            },
            (Phase::Waiting, LoopEvent::Signal(k)) => {
                let mut notices: Vec<Notice> = Vec::new();
                notices.push(Notice::SignalReceived(k));
                proof {
                    assert(notices@ =~= seq![Notice::SignalReceived(k)]);
                }
                let why = match k {
                    SignalKind::UserDefined1 | SignalKind::Hangup => TermReason::SignalRespawn,
                    _ => TermReason::SignalExit,
                };
                if k == SignalKind::Hangup {
                    self.retry_count = 0;
                }
                self.proceed(Phase::Terminating(why), notices, ProbeTimer::Keep, Op::Terminate)
            },
            (Phase::Terminating(r), LoopEvent::Terminated { status, lifetime }) => {
                let gone = exit_notices(self.has_child);
                self.has_child = false;
                match r {
                    TermReason::SignalRespawn => {
                        self.proceed(Phase::Spawning(SpawnReason::AfterSignal), gone, ProbeTimer::Keep, Op::Spawn)
                    },
                    TermReason::ProbeTimeout => match status {
                        None => self.proceed(Phase::CheckingLifetime, gone, ProbeTimer::Keep, Op::CheckLifetime),
                        Some(_) => {
                            let dec = self.handle_child_exit(false, lifetime);
                            self.decided(dec, true)
                        },
                    },
                    _ => self.stop(gone, Ok(())),
                }
            },
            (Phase::Terminating(r), LoopEvent::TerminateFailed(err)) => {
                let gone = exit_notices(self.has_child);
                self.has_child = false;
                match r {
                    TermReason::SignalRespawn => {
                        self.proceed(Phase::Spawning(SpawnReason::AfterSignal), gone, ProbeTimer::Keep, Op::Spawn)
                    },
                    TermReason::ProbeTimeout => self.stop(gone, Err(AutosshError::Io(err))),
                    _ => self.stop(gone, Ok(())),
                }
            },
            (Phase::Sleeping(r), LoopEvent::Slept) => {
                let why = if r == SleepReason::AfterProbe { SpawnReason::AfterProbe } else { SpawnReason::AfterExit };
                self.proceed(Phase::Spawning(why), none, ProbeTimer::Keep, Op::Spawn)
            },
            (_, _) => self.stop(none, Err(AutosshError::Internal(OUT_OF_STEP))),
        }
    }
}


/// Whether the child-liveness flag agrees with the step in progress: no
/// child before the first spawn, while a spawn is requested or during the
/// back-off; a child while waiting and while terminating after a failed
/// probe.
pub open spec fn consistent(s: Supervisor) -> bool {
    match s.phase {
        Phase::Ready => !s.has_child,
        Phase::Spawning(_) => !s.has_child,
        Phase::Sleeping(_) => !s.has_child,
        Phase::Waiting => s.has_child,
        Phase::Terminating(TermReason::ProbeTimeout) => s.has_child,
        _ => true,
    }
}

/// Whether a running supervisor is below its retry cap (a counter of zero
/// is always allowed, so that a cap of zero still permits the first
/// start).
pub open spec fn within_cap(s: Supervisor) -> bool {
    match s.clock.max_start {
        Some(cap) => s.phase != Phase::Done ==> (s.retry_count < cap || s.retry_count == 0),
        None => true,
    }
}

/// Law: every step keeps the child-liveness flag consistent with the loop.
pub proof fn lemma_step_keeps_consistent(s: Supervisor, e: LoopEvent)
    requires
        consistent(s),
    ensures
        consistent(next(s, e).0),
{
}

/// Law, on the child-liveness flag: a spawn is only requested when the
/// flag says no child is alive, and the loop only waits when it says one
/// is. (The notices published to consumers are covered by
/// [`lemma_run_alternates`].)
pub proof fn lemma_single_child(s: Supervisor, e: LoopEvent)
    requires
        consistent(s),
    ensures
        next(s, e).1.op is Spawn ==> !next(s, e).0.has_child,
        next(s, e).1.op is Wait ==> next(s, e).0.has_child,
{
}

/// Law: a running supervisor never stays at or above its retry cap: the
/// step that brings the counter to the cap ends the run.
pub proof fn lemma_step_keeps_within_cap(s: Supervisor, e: LoopEvent)
    requires
        within_cap(s),
    ensures
        within_cap(next(s, e).0),
{
}

/// Law: reaching the retry cap after a short-lived failure ends the run
/// with `MaxStartReached` carrying the counter.
pub proof fn lemma_cap_reached_ends_run(s: Supervisor, lifetime: Span, cap: u32)
    requires
        s.phase == Phase::Waiting,
        !s.one_shot,
        s.clock.max_start == Some(cap),
        lifetime@ < s.clock.gate_time@,
        bumped(s.retry_count) >= cap,
    ensures
        next(s, LoopEvent::ChildExited { success: false, lifetime }).1.op
            == Op::Finish(Err(AutosshError::MaxStartReached { attempts: bumped(s.retry_count) })),
        next(s, LoopEvent::ChildExited { success: false, lifetime }).1.notices
            == seq![Notice::ChildExited, Notice::MaxStartReached { attempts: bumped(s.retry_count) }],
        s.retry_count + 1 == cap ==> next(s, LoopEvent::ChildExited { success: false, lifetime }).1.op
            == Op::Finish(Err(AutosshError::MaxStartReached { attempts: cap })),
{
}

/// Law: a failure after at least the gatetime resets the retry counter
/// and schedules a respawn after the gatetime back-off.
pub proof fn lemma_long_lived_failure_resets(s: Supervisor, lifetime: Span)
    requires
        s.phase == Phase::Waiting,
        !s.one_shot,
        lifetime@ >= s.clock.gate_time@,
    ensures
        next(s, LoopEvent::ChildExited { success: false, lifetime }).0.retry_count == 0,
        next(s, LoopEvent::ChildExited { success: false, lifetime }).1.op == Op::Sleep(s.clock.gate_time),
{
}

/// Law: a failure before the gatetime bumps the retry counter by one
/// (saturating).
pub proof fn lemma_short_lived_failure_bumps(s: Supervisor, lifetime: Span)
    requires
        s.phase == Phase::Waiting,
        !s.one_shot,
        lifetime@ < s.clock.gate_time@,
    ensures
        next(s, LoopEvent::ChildExited { success: false, lifetime }).0.retry_count == bumped(s.retry_count),
        s.retry_count < u32::MAX ==> next(s, LoopEvent::ChildExited { success: false, lifetime }).0.retry_count
            == s.retry_count + 1,
        s.retry_count == u32::MAX ==> next(s, LoopEvent::ChildExited { success: false, lifetime }).0.retry_count
            == u32::MAX,
        (match s.clock.max_start {
            Some(cap) => s.retry_count + 1 < cap,
            None => true,
        }) ==> next(s, LoopEvent::ChildExited { success: false, lifetime }).1.op == Op::Sleep(s.clock.gate_time),
{
}

/// Law: a clean exit ends the run when monitoring is disabled, and
/// otherwise resets the counter and respawns after the back-off.
pub proof fn lemma_clean_exit(s: Supervisor, lifetime: Span)
    requires
        s.phase == Phase::Waiting,
    ensures
        s.monitor_mode == MonitorMode::Disabled ==> next(s, LoopEvent::ChildExited { success: true, lifetime }).1.op
            == Op::Finish(Ok(())),
        s.monitor_mode != MonitorMode::Disabled ==> next(
            s,
            LoopEvent::ChildExited { success: true, lifetime },
        ).0.retry_count == 0 && next(s, LoopEvent::ChildExited { success: true, lifetime }).1.op == Op::Sleep(
            s.clock.gate_time,
        ),
{
}

/// Law: in one-shot mode the first failure ends the run with an error,
/// whether the child exited by itself with a failure or was terminated
/// after a failed probe.
pub proof fn lemma_one_shot_failure_ends_run(s: Supervisor, lifetime: Span, success: bool)
    requires
        s.phase == Phase::Waiting,
        s.one_shot,
    ensures
        next(s, LoopEvent::ChildExited { success: false, lifetime }).1.op == Op::Finish(
            Err(AutosshError::MaxStartReached { attempts: 1 }),
        ),
        next(next(s, LoopEvent::ProbeFailed).0, LoopEvent::Terminated { status: Some(success), lifetime }).1.op
            == Op::Finish(Err(AutosshError::MaxStartReached { attempts: 1 })),
{
}

/// Law: every respawn waits for the gatetime first, except the forced
/// respawn of SIGUSR1 / SIGHUP; a spawn is requested only at the start,
/// after the back-off, or after a signal-forced termination.
pub proof fn lemma_spawn_origins(s: Supervisor, e: LoopEvent)
    ensures
        next(s, e).1.op is Spawn ==> (s.phase == Phase::Ready || s.phase is Sleeping || s.phase == Phase::Terminating(
            TermReason::SignalRespawn,
        )),
{
}

/// Law: SIGHUP resets the retry counter and forces a respawn; SIGUSR1
/// forces a respawn and leaves the counter unchanged.
pub proof fn lemma_respawn_signals(s: Supervisor, lifetime: Span, status: Option<bool>)
    requires
        s.phase == Phase::Waiting,
    ensures
        next(s, LoopEvent::Signal(SignalKind::Hangup)).0.retry_count == 0,
        next(s, LoopEvent::Signal(SignalKind::UserDefined1)).0.retry_count == s.retry_count,
        next(s, LoopEvent::Signal(SignalKind::Hangup)).1.op is Terminate,
        next(s, LoopEvent::Signal(SignalKind::UserDefined1)).1.op is Terminate,
        next(next(s, LoopEvent::Signal(SignalKind::Hangup)).0, LoopEvent::Terminated { status, lifetime }).1.op is Spawn,
        next(next(s, LoopEvent::Signal(SignalKind::UserDefined1)).0, LoopEvent::Terminated { status, lifetime }).1.op is Spawn,
        next(next(s, LoopEvent::Signal(SignalKind::UserDefined1)).0, LoopEvent::Terminated { status, lifetime }).0.retry_count
            == s.retry_count,
{
}

/// Law: SIGTERM, SIGINT and Ctrl+Break terminate the child and end the run
/// cleanly, even when the termination itself fails.
pub proof fn lemma_exit_signals_end_cleanly(s: Supervisor, k: SignalKind, lifetime: Span, status: Option<bool>, err: std::io::Error)
    requires
        s.phase == Phase::Waiting,
        k == SignalKind::Terminate || k == SignalKind::Interrupt || k == SignalKind::CtrlBreak,
    ensures
        next(s, LoopEvent::Signal(k)).1.op is Terminate,
        next(next(s, LoopEvent::Signal(k)).0, LoopEvent::Terminated { status, lifetime }).1.op == Op::Finish(Ok(())),
        next(next(s, LoopEvent::Signal(k)).0, LoopEvent::TerminateFailed(err)).1.op == Op::Finish(Ok(())),
{
}

/// Law: once the runtime cap is reached the run ends cleanly, whatever the
/// retry counter: the child is terminated, `MaxLifetimeReached` is
/// published, and the run finishes with success.
pub proof fn lemma_lifetime_cap_wins(s: Supervisor, elapsed: Span, m: Span, lifetime: Span, status: Option<bool>)
    requires
        s.phase == Phase::CheckingLifetime,
        s.clock.max_lifetime == Some(m),
        elapsed@ >= m@,
    ensures
        next(s, LoopEvent::Elapsed(elapsed)).1.notices == seq![Notice::MaxLifetimeReached],
        next(s, LoopEvent::Elapsed(elapsed)).1.op is Terminate,
        next(next(s, LoopEvent::Elapsed(elapsed)).0, LoopEvent::Terminated { status, lifetime }).1.op == Op::Finish(Ok(())),
{
}

/// Law: a failed probe is accounted as a failed exit: after the child is
/// terminated, the retry counter moves as for a non-zero exit with the
/// child's lifetime.
pub proof fn lemma_probe_failure_counts_as_failure(s: Supervisor, lifetime: Span, success: bool)
    requires
        s.phase == Phase::Waiting,
    ensures
        ({
            let t = next(s, LoopEvent::ProbeFailed).0;
            next(t, LoopEvent::Terminated { status: Some(success), lifetime }).0.retry_count
                == exit_decision(Supervisor { has_child: false, ..t }, false, lifetime@).0
        }),
        next(s, LoopEvent::ProbeFailed).1.notices == seq![Notice::ProbeTimeout],
{
}

/// One child lifetime from a requested spawn: the spawn succeeds, the
/// runtime check passes, and the child exits with a failure after
/// `lifetime`.
pub open spec fn short_failure_cycle(s: Supervisor, elapsed: Span, lifetime: Span) -> (Supervisor, StepView) {
    let spawned = next(s, LoopEvent::Spawned).0;
    let waiting = next(spawned, LoopEvent::Elapsed(elapsed)).0;
    next(waiting, LoopEvent::ChildExited { success: false, lifetime })
}

/// The state after `k` failed child lifetimes, the `i`-th with runtime
/// `elapsed[i]` at its check and lifetime `lifetimes[i]`, each followed by
/// its back-off.
pub open spec fn after_short_failures(s: Supervisor, k: nat, elapsed: Seq<Span>, lifetimes: Seq<Span>) -> Supervisor
    decreases k,
{
    if k == 0 {
        s
    } else {
        let before = after_short_failures(s, (k - 1) as nat, elapsed, lifetimes);
        next(short_failure_cycle(before, elapsed[k - 1], lifetimes[k - 1]).0, LoopEvent::Slept).0
    }
}

/// Whether the first `k` lifetimes are all shorter than the gatetime `gate`.
pub open spec fn all_short(lifetimes: Seq<Span>, k: nat, gate: int) -> bool {
    k <= lifetimes.len() && forall|i: int| 0 <= i < k ==> (#[trigger] lifetimes[i])@ < gate
}

proof fn lemma_short_failures_keep_spawning(s: Supervisor, k: nat, elapsed: Seq<Span>, lifetimes: Seq<Span>)
    requires
        s.phase is Spawning,
        !s.has_child,
        !s.one_shot,
        s.retry_count == 0,
        s.clock.max_lifetime is None,
        all_short(lifetimes, k, s.clock.gate_time@),
        match s.clock.max_start {
            Some(n) => k < n,
            None => true,
        },
    ensures
        ({
            let r = after_short_failures(s, k, elapsed, lifetimes);
            &&& r.phase is Spawning
            &&& !r.has_child
            &&& r.clock == s.clock
            &&& r.one_shot == s.one_shot
            &&& s.clock.max_start is Some ==> r.retry_count == k
        }),
    decreases k,
{
    if k > 0 {
        assert(all_short(lifetimes, (k - 1) as nat, s.clock.gate_time@));
        assert(lifetimes[k - 1]@ < s.clock.gate_time@);
        lemma_short_failures_keep_spawning(s, (k - 1) as nat, elapsed, lifetimes);
    }
}

/// Law: with a retry cap of `n` and every child failing before the
/// gatetime (each with its own lifetime and runtime), the run asks for
/// exactly `n` spawns: each of the first `n - 1` failures is followed by the
/// gatetime back-off and a new spawn, and the `n`-th ends the run with
/// `MaxStartReached { attempts: n }`.
pub proof fn lemma_short_failures_stop_after_cap(
    s: Supervisor,
    n: u32,
    elapsed: Seq<Span>,
    lifetimes: Seq<Span>,
)
    requires
        s.phase == Phase::Ready,
        !s.has_child,
        !s.one_shot,
        s.retry_count == 0,
        s.clock.max_lifetime is None,
        s.clock.max_start == Some(n),
        n >= 1,
        elapsed.len() >= n,
        all_short(lifetimes, n as nat, s.clock.gate_time@),
    ensures
        next(s, LoopEvent::Start).1.op is Spawn,
        forall|j: nat|
            j < n - 1 ==> {
                let c = #[trigger] short_failure_cycle(
                    after_short_failures(next(s, LoopEvent::Start).0, j, elapsed, lifetimes),
                    elapsed[j as int],
                    lifetimes[j as int],
                );
                &&& c.1.op == Op::Sleep(s.clock.gate_time)
                &&& next(c.0, LoopEvent::Slept).1.op is Spawn
            },
        ({
            let last = short_failure_cycle(
                after_short_failures(next(s, LoopEvent::Start).0, (n - 1) as nat, elapsed, lifetimes),
                elapsed[n - 1],
                lifetimes[n - 1],
            );
            &&& last.1.op == Op::Finish(Err(AutosshError::MaxStartReached { attempts: n }))
            &&& last.1.notices == seq![Notice::ChildExited, Notice::MaxStartReached { attempts: n }]
        }),
{
    let s1 = next(s, LoopEvent::Start).0;
    let gate = s.clock.gate_time@;
    assert forall|j: nat| j < n - 1 implies {
        let c = #[trigger] short_failure_cycle(after_short_failures(s1, j, elapsed, lifetimes), elapsed[j as int], lifetimes[j as int]);
        &&& c.1.op == Op::Sleep(s.clock.gate_time)
        &&& next(c.0, LoopEvent::Slept).1.op is Spawn
    } by {
        assert(all_short(lifetimes, j, gate));
        assert(lifetimes[j as int]@ < gate);
        lemma_short_failures_keep_spawning(s1, j, elapsed, lifetimes);
    }
    assert(all_short(lifetimes, (n - 1) as nat, gate));
    assert(lifetimes[n - 1]@ < gate);
    lemma_short_failures_keep_spawning(s1, (n - 1) as nat, elapsed, lifetimes);
}

/// Law: without a retry cap, a run whose children all fail before the
/// gatetime never ends: after any number `k` of failures (each with its own
/// lifetime and runtime) the next one is again followed by the back-off and
/// a new spawn.
pub proof fn lemma_short_failures_unlimited(s: Supervisor, k: nat, elapsed: Seq<Span>, lifetimes: Seq<Span>)
    requires
        s.phase == Phase::Ready,
        !s.has_child,
        !s.one_shot,
        s.retry_count == 0,
        s.clock.max_lifetime is None,
        s.clock.max_start is None,
        elapsed.len() > k,
        all_short(lifetimes, k + 1, s.clock.gate_time@),
    ensures
        ({
            let c = short_failure_cycle(
                after_short_failures(next(s, LoopEvent::Start).0, k, elapsed, lifetimes),
                elapsed[k as int],
                lifetimes[k as int],
            );
            &&& c.1.op == Op::Sleep(s.clock.gate_time)
            &&& next(c.0, LoopEvent::Slept).1.op is Spawn
        }),
{
    assert(all_short(lifetimes, k, s.clock.gate_time@));
    assert(lifetimes[k as int]@ < s.clock.gate_time@);
    lemma_short_failures_keep_spawning(next(s, LoopEvent::Start).0, k, elapsed, lifetimes);
}

/// Whether the child notices in `ns` alternate properly, starting with a
/// child alive (`alive`) or not and ending in state `end`: `ChildSpawned`
/// only when no child is alive, `ChildExited` only when one is; the other
/// notices do not matter.
pub open spec fn alternates(alive: bool, ns: Seq<Notice>, end: bool) -> bool
    decreases ns.len(),
{
    if ns.len() == 0 {
        alive == end
    } else if ns[0] == Notice::ChildSpawned {
        !alive && alternates(true, ns.drop_first(), end)
    } else if ns[0] == Notice::ChildExited {
        alive && alternates(false, ns.drop_first(), end)
    } else {
        alternates(alive, ns.drop_first(), end)
    }
}

proof fn lemma_alternates_concat(a: bool, x: Seq<Notice>, b: bool, y: Seq<Notice>, c: bool)
    requires
        alternates(a, x, b),
        alternates(b, y, c),
    ensures
        alternates(a, x + y, c),
    decreases x.len(),
{
    if x.len() > 0 {
        let a2 = if x[0] == Notice::ChildSpawned {
            true
        } else if x[0] == Notice::ChildExited {
            false
        } else {
            a
        };
        lemma_alternates_concat(a2, x.drop_first(), b, y, c);
        assert((x + y).drop_first() =~= x.drop_first() + y);
    } else {
        assert(x + y =~= y);
    }
}

/// Law: each step's notices keep `ChildSpawned` and `ChildExited` in
/// alternation with the child-liveness flag: a spawn is announced only when
/// no child is alive, and the end of every child that was alive is announced
/// (whether it exited, was terminated after a failed probe, or was replaced
/// on SIGUSR1 / SIGHUP) before any new spawn.
pub proof fn lemma_step_alternates(s: Supervisor, e: LoopEvent)
    requires
        consistent(s),
    ensures
        alternates(s.has_child, next(s, e).1.notices, next(s, e).0.has_child),
        consistent(next(s, e).0),
{
    reveal_with_fuel(alternates, 3);
}

/// The state and all notices after feeding `events` to the loop in order.
pub open spec fn run_events(s: Supervisor, events: Seq<LoopEvent>) -> (Supervisor, Seq<Notice>)
    decreases events.len(),
{
    if events.len() == 0 {
        (s, Seq::empty())
    } else {
        let (t, ns) = run_events(s, events.drop_last());
        let step = next(t, events.last());
        (step.0, ns + step.1.notices)
    }
}

/// Law: over any run from a fresh supervisor, whatever the events (child
/// exits, probe failures, signals, failures of the driver), the notices
/// announce `ChildSpawned` and `ChildExited` strictly alternately, starting
/// with `ChildSpawned`: at most one child is alive at a time, and the end of
/// the outgoing child is announced before its replacement's spawn.
pub proof fn lemma_run_alternates(s: Supervisor, events: Seq<LoopEvent>)
    requires
        s.phase == Phase::Ready,
        !s.has_child,
    ensures
        alternates(false, run_events(s, events).1, run_events(s, events).0.has_child),
        consistent(run_events(s, events).0),
    decreases events.len(),
{
    if events.len() > 0 {
        lemma_run_alternates(s, events.drop_last());
        let (t, ns) = run_events(s, events.drop_last());
        lemma_step_alternates(t, events.last());
        lemma_alternates_concat(false, ns, t.has_child, next(t, events.last()).1.notices, next(t, events.last()).0.has_child);
    }
}

/// Law: a spawn arms the heartbeat timer only when monitor listeners are
/// bound (or it replaces a child killed after a failed probe): without
/// them there is no probe deadline, so an unmonitored tunnel stays up until
/// ssh exits; with them the first probe comes after the first-poll delay.
pub proof fn lemma_spawn_timer(s: Supervisor, r: SpawnReason)
    requires
        s.phase == Phase::Spawning(r),
    ensures
        !s.has_monitor && r != SpawnReason::AfterProbe ==> next(s, LoopEvent::Spawned).1.timer == ProbeTimer::Disarm,
        s.has_monitor ==> next(s, LoopEvent::Spawned).1.timer == ProbeTimer::ArmIn(s.clock.first_poll),
        next(s, LoopEvent::Spawned).1.op is CheckLifetime,
        next(s, LoopEvent::Spawned).0.has_child,
{
}

/// Law: the only steps that set a probe deadline are spawns with monitor
/// listeners bound (or after a failed probe) and probe outcomes; a run
/// without listeners that never saw a probe outcome never arms the timer.
pub proof fn lemma_no_monitor_no_deadline(s: Supervisor, e: LoopEvent)
    requires
        !s.has_monitor,
        !(s.phase == Phase::Spawning(SpawnReason::AfterProbe)),
        !(e is ProbeOk),
        !(e is ProbeFailed),
    ensures
        !(next(s, e).1.timer is ArmIn),
{
}

/// Law: below the runtime cap (or with none), the runtime check lets a run
/// with a live child go on waiting, publishing nothing and leaving the
/// retry counter alone.
pub proof fn lemma_below_lifetime_cap_goes_on(s: Supervisor, elapsed: Span)
    requires
        s.phase == Phase::CheckingLifetime,
        s.has_child,
        match s.clock.max_lifetime {
            Some(m) => elapsed@ < m@,
            None => true,
        },
    ensures
        next(s, LoopEvent::Elapsed(elapsed)).1.op is Wait,
        next(s, LoopEvent::Elapsed(elapsed)).1.notices.len() == 0,
        next(s, LoopEvent::Elapsed(elapsed)).0.retry_count == s.retry_count,
{
}

} // verus!
