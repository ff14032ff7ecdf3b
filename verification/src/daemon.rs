//! The supervisor of the build-backend daemon, as a state machine over
//! protocol records.
//!
//! The machine owns every decision of the exchange: which records are
//! drained, when a hook may be sent, how `ERROR` and `FATAL` pair with their
//! `TRACEBACK`, and what each failure means. The surrounding process code
//! feeds it one line of child output at a time and performs the actions it
//! decides (spawn, write, wait), so every transition here is verified while
//! the I/O stays outside.
use vstd::prelude::*;

use crate::command::{render_command, spec_command_block, Pep517Backend};
use crate::protocol::{spec_parse_response, DaemonError, DaemonResponse, ErrV, HookErrorKind, RespV};

verus! {

/// Where the daemon stands.
///
/// `Starting` and `Awaiting` read records (draining informational ones);
/// `ErrorTrace` and `FatalTrace` hold the kind and message of an `ERROR` or
/// `FATAL` record whose paired `TRACEBACK` is still owed.
#[derive(Debug, Clone)]
pub enum DaemonPhase {
    NotStarted,
    Starting,
    Idle,
    Awaiting,
    ErrorTrace(HookErrorKind, String),
    FatalTrace(String, String),
    Closed,
    Crashed,
}

/// Mathematical model of a [`DaemonPhase`].
pub enum PhaseV {
    NotStarted,
    Starting,
    Idle,
    Awaiting,
    ErrorTrace(HookErrorKind, Seq<char>),
    FatalTrace(Seq<char>, Seq<char>),
    Closed,
    Crashed,
}

impl View for DaemonPhase {
    type V = PhaseV;

    open spec fn view(&self) -> PhaseV {
        match self {
            DaemonPhase::NotStarted => PhaseV::NotStarted,
            DaemonPhase::Starting => PhaseV::Starting,
            DaemonPhase::Idle => PhaseV::Idle,
            DaemonPhase::Awaiting => PhaseV::Awaiting,
            DaemonPhase::ErrorTrace(k, m) => PhaseV::ErrorTrace(*k, m@),
            DaemonPhase::FatalTrace(k, m) => PhaseV::FatalTrace(k@, m@),
            DaemonPhase::Closed => PhaseV::Closed,
            DaemonPhase::Crashed => PhaseV::Crashed,
        }
    }
}

/// What one consumed line of child output amounts to.
#[derive(Debug, Clone)]
pub enum DaemonStep {
    /// The record was informational or half of a pair; read another line.
    Continue,
    /// A `DEBUG` record: forward the message to the host's log, then read on.
    LogDebug(String),
    /// The `READY` record that completes startup.
    Ready,
    /// The `OK` payload of the hook in flight.
    Output(String),
}

/// Mathematical model of a [`DaemonStep`], with failures folded in.
pub enum StepV {
    Continue,
    LogDebug(Seq<char>),
    Ready,
    Output(Seq<char>),
    Failed(ErrV),
}

impl View for DaemonStep {
    type V = StepV;

    open spec fn view(&self) -> StepV {
        match self {
            DaemonStep::Continue => StepV::Continue,
            DaemonStep::LogDebug(m) => StepV::LogDebug(m@),
            DaemonStep::Ready => StepV::Ready,
            DaemonStep::Output(p) => StepV::Output(p@),
        }
    }
}

/// The phases in which the supervisor is reading child output.
pub open spec fn reading_phase(p: PhaseV) -> bool {
    ||| p is Starting
    ||| p is Awaiting
    ||| p is ErrorTrace
    ||| p is FatalTrace
}

/// A record the drain loop hands back to its caller rather than consuming
/// itself: everything except `DEBUG`, `EXPECT` and `FATAL`.
pub open spec fn spec_actionable(r: RespV) -> bool {
    !(r is Debug || r is Expect || r is Fatal)
}

/// One transition of the supervisor: the phase after consuming `line` and
/// what the consumed line amounted to.
///
/// End of input means the child died: the daemon is closed, mark and
/// phase alike, so that dropping it afterwards is no fault. A line that
/// does not parse surfaces its parse error and leaves the daemon reusable.
/// In `Starting`, the first actionable record must be `READY`. In
/// `Awaiting`, `STDOUT` and `STDERR` are advisory, `OK` ends the hook, and
/// `ERROR` begins its traceback pair; any other actionable record is
/// unexpected. A `FATAL` pair crashes the daemon; an `ERROR` pair surfaces a
/// hook error and returns to `Idle`. In the traceback phases, any record
/// other than `TRACEBACK` stands for a missing traceback.
pub open spec fn spec_step(p: PhaseV, line: Option<Seq<char>>) -> (PhaseV, StepV) {
    match line {
        None => (PhaseV::Closed, StepV::Failed(ErrV::Closed)),
        Some(l) => match spec_parse_response(l) {
            Err(e) => (PhaseV::Idle, StepV::Failed(e)),
            Ok(resp) => match p {
                PhaseV::Starting => match resp {
                    RespV::Debug(m) => (PhaseV::Starting, StepV::LogDebug(m)),
                    RespV::Expect(_) => (PhaseV::Starting, StepV::Continue),
                    RespV::Fatal(k, m) => (PhaseV::FatalTrace(k, m), StepV::Continue),
                    RespV::Ready => (PhaseV::Idle, StepV::Ready),
                    _ => (PhaseV::Idle, StepV::Failed(ErrV::NotReady)),
                },
                PhaseV::Awaiting => match resp {
                    RespV::Debug(m) => (PhaseV::Awaiting, StepV::LogDebug(m)),
                    RespV::Expect(_) => (PhaseV::Awaiting, StepV::Continue),
                    RespV::Fatal(k, m) => (PhaseV::FatalTrace(k, m), StepV::Continue),
                    RespV::Stdout(_) => (PhaseV::Awaiting, StepV::Continue),
                    RespV::Stderr(_) => (PhaseV::Awaiting, StepV::Continue),
                    RespV::Okay(res) => (PhaseV::Idle, StepV::Output(res)),
                    RespV::Error(k, m) => (PhaseV::ErrorTrace(k, m), StepV::Continue),
                    _ => (PhaseV::Idle, StepV::Failed(ErrV::UnexpectedResponse(resp))),
                },
                PhaseV::ErrorTrace(k, m) => match resp {
                    RespV::Traceback(t) => (
                        PhaseV::Idle,
                        StepV::Failed(ErrV::HookError { kind: k, message: m, traceback: t }),
                    ),
                    _ => (
                        PhaseV::Idle,
                        StepV::Failed(
                            ErrV::HookError { kind: k, message: m, traceback: Seq::empty() },
                        ),
                    ),
                },
                PhaseV::FatalTrace(k, m) => match resp {
                    RespV::Traceback(t) => (
                        PhaseV::Crashed,
                        StepV::Failed(ErrV::Crashed { kind: k, message: m, traceback: t }),
                    ),
                    _ => (
                        PhaseV::Crashed,
                        StepV::Failed(
                            ErrV::Crashed { kind: k, message: m, traceback: Seq::empty() },
                        ),
                    ),
                },
                _ => (p, StepV::Continue),
            },
        },
    }
}

/// What the process code must do to carry out a close.
#[derive(Debug, Eq, PartialEq, Clone, Copy, Structural)]
pub enum CloseAction {
    /// The child is alive: write the shutdown line, then wait for it to exit.
    SendShutdown,
    /// The child already exited: only collect its exit status.
    AwaitExit,
    /// The child was never started: there is no exit status to report.
    Nothing,
}

/// The daemon supervisor. It holds no process of its own: the caller spawns
/// the child, reads its lines and writes the blocks this machine produces.
#[derive(Debug)]
pub struct Pep517Daemon {
    pub phase: DaemonPhase,
    pub closed: bool,
}

impl Pep517Daemon {
    /// A fresh supervisor whose child is not yet started.
    pub fn new() -> (d: Pep517Daemon)
        ensures
            d.phase@ is NotStarted,
            !d.closed,
    {
        Pep517Daemon { phase: DaemonPhase::NotStarted, closed: false }
    }

    /// Decides whether beginning a hook must spawn a fresh child: an
    /// alive child of an idle daemon is reused; in every other state the
    /// previous child is gone or unusable and a fresh one is needed.
    pub fn needs_spawn(&self, child_alive: bool) -> (r: bool)
        requires
            !reading_phase(self.phase@),
        ensures
            r == !(child_alive && self.phase@ is Idle),
    {
        match self.phase {
            DaemonPhase::Idle => !child_alive,
            _ => true,
        }
    }

    /// Begins a hook: the caller has respawned the child when none was
    /// alive (`spawned`), and the machine turns to draining records until
    /// the child reports ready.
    pub fn begin_hook(&mut self, spawned: bool)
        requires
            !reading_phase(old(self).phase@),
            !(old(self).phase@ is Idle) ==> spawned,
        ensures
            final(self).phase@ is Starting,
            !final(self).closed,
    {
        self.phase = DaemonPhase::Starting;
        self.closed = false;
    }

    /// Consumes one line of child output (`None` at end of input) and takes
    /// the transition that [`spec_step`] prescribes; end of input also sets
    /// the closed mark, as an explicit close does.
    pub fn on_line(&mut self, line: Option<&str>) -> (r: Result<DaemonStep, DaemonError>)
        requires
            reading_phase(old(self).phase@),
        ensures
            ({
                let lv = match line {
                    Some(l) => Some(l@),
                    None => None::<Seq<char>>,
                };
                let (p2, sv) = spec_step(old(self).phase@, lv);
                &&& final(self).phase@ == p2
                &&& final(self).closed == (old(self).closed || lv is None)
                &&& match r {
                    Ok(step) => sv == step@,
                    Err(e) => sv == StepV::Failed(e@),
                }
            }),
    {
        let l = match line {
            Some(l) => l,
            None => {
                self.phase = DaemonPhase::Closed;
                self.closed = true;
                return Err(DaemonError::Closed);
            },
        };
        let resp = match DaemonResponse::try_from_str(l) {
            Ok(resp) => resp,
            Err(e) => {
                self.phase = DaemonPhase::Idle;
                return Err(e);
            },
        };
        match &self.phase {
            DaemonPhase::ErrorTrace(k, m) => {
                let kind = *k;
                let message = m.clone();
                self.phase = DaemonPhase::Idle;
                match resp {
                    DaemonResponse::Traceback(t) => Err(
                        DaemonError::HookError { kind, message, traceback: t },
                    ),
                    _ => Err(DaemonError::HookError { kind, message, traceback: String::new() }),
                }
            },
            DaemonPhase::FatalTrace(k, m) => {
                let kind = k.clone();
                let message = m.clone();
                self.phase = DaemonPhase::Crashed;
                match resp {
                    DaemonResponse::Traceback(t) => Err(
                        DaemonError::Crashed { kind, message, traceback: t },
                    ),
                    _ => Err(DaemonError::Crashed { kind, message, traceback: String::new() }),
                }
            },
            DaemonPhase::Starting => match resp {
                DaemonResponse::Debug(m) => Ok(DaemonStep::LogDebug(m)),
                DaemonResponse::Expect(_) => Ok(DaemonStep::Continue),
                DaemonResponse::Fatal(k, m) => {
                    self.phase = DaemonPhase::FatalTrace(k, m);
                    Ok(DaemonStep::Continue)
                },
                DaemonResponse::Ready => {
                    self.phase = DaemonPhase::Idle;
                    Ok(DaemonStep::Ready)
                },
                _ => {
                    self.phase = DaemonPhase::Idle;
                    Err(DaemonError::NotReady)
                },
            },
            DaemonPhase::Awaiting => match resp {
                DaemonResponse::Debug(m) => Ok(DaemonStep::LogDebug(m)),
                DaemonResponse::Expect(_) => Ok(DaemonStep::Continue),
                DaemonResponse::Fatal(k, m) => {
                    self.phase = DaemonPhase::FatalTrace(k, m);
                    Ok(DaemonStep::Continue)
                },
                DaemonResponse::Stdout(_) => Ok(DaemonStep::Continue),
                DaemonResponse::Stderr(_) => Ok(DaemonStep::Continue),
                DaemonResponse::Okay(res) => {
                    self.phase = DaemonPhase::Idle;
                    Ok(DaemonStep::Output(res))
                },
                DaemonResponse::Error(k, m) => {
                    self.phase = DaemonPhase::ErrorTrace(k, m);
                    Ok(DaemonStep::Continue)
                },
                other => {
                    self.phase = DaemonPhase::Idle;
                    Err(DaemonError::UnexpectedResponse(other))
                },
            },
            _ => vstd::pervasive::unreached(),
        }
    }

    /// Renders and commits the command for one hook: the daemon turns to
    /// awaiting the hook's outcome, and the returned block is what the
    /// caller must write to the child, verbatim.
    pub fn send_command(
        &mut self,
        backend: &Pep517Backend,
        hook_name: &str,
        args: &Vec<String>,
    ) -> (block: String)
        requires
            old(self).phase@ is Idle,
        ensures
            final(self).phase@ is Awaiting,
            final(self).closed == old(self).closed,
            block@ == spec_command_block(backend@, hook_name@, args.deep_view()),
    {
        self.phase = DaemonPhase::Awaiting;
        render_command(backend, hook_name, args)
    }

    /// Closes the daemon. The mark is set before anything else so that a
    /// failure while shutting the child down is still reported as that
    /// failure, not as a missing close. Closing a never-started daemon asks
    /// for nothing and carries no exit status.
    pub fn close(&mut self, started: bool, child_alive: bool) -> (act: CloseAction)
        ensures
            final(self).closed,
            final(self).phase@ is Closed,
            act == (if !started {
                CloseAction::Nothing
            } else if child_alive {
                CloseAction::SendShutdown
            } else {
                CloseAction::AwaitExit
            }),
    {
        self.closed = true;
        self.phase = DaemonPhase::Closed;
        if !started {
            CloseAction::Nothing
        } else if child_alive {
            CloseAction::SendShutdown
        } else {
            CloseAction::AwaitExit
        }
    }

    /// Whether `close` has run; a supervisor dropped without it is a
    /// programming error the process code must turn into a loud failure.
    pub fn is_closed(&self) -> (b: bool)
        ensures
            b == self.closed,
    {
        self.closed
    }

    /// The one-line shutdown command.
    pub fn shutdown_line() -> (r: &'static str)
        ensures
            r@ == "shutdown\n"@,
    {
        "shutdown\n"
    }
}

/// An idle daemon owes a `READY` before the next hook: draining in
/// `Starting`, the machine accepts `READY` as completion and refuses every
/// other actionable record with `NotReady`.
pub proof fn lemma_idle_demands_ready(l: Seq<char>)
    ensures
        spec_parse_response(l) == Ok::<RespV, ErrV>(RespV::Ready) ==> spec_step(
            PhaseV::Starting,
            Some(l),
        ) == (PhaseV::Idle, StepV::Ready),
        (spec_parse_response(l) matches Ok(r) && spec_actionable(r) && !(r is Ready))
            ==> spec_step(PhaseV::Starting, Some(l)).1 == StepV::Failed(ErrV::NotReady),
{
}

/// Each `ERROR` record pairs with exactly the next record: the machine
/// holds the message, consumes one more record as the traceback (blank when
/// the record is not a `TRACEBACK`), and surfaces the hook error with the
/// daemon back to `Idle`.
pub proof fn lemma_error_pairs_traceback(kind: HookErrorKind, msg: Seq<char>, l: Seq<char>)
    ensures
        spec_parse_response(l) matches Ok(RespV::Error(k, m)) ==> spec_step(
            PhaseV::Awaiting,
            Some(l),
        ) == (PhaseV::ErrorTrace(k, m), StepV::Continue),
        spec_parse_response(l) matches Ok(RespV::Traceback(t)) ==> spec_step(
            PhaseV::ErrorTrace(kind, msg),
            Some(l),
        ) == (
            PhaseV::Idle,
            StepV::Failed(ErrV::HookError { kind: kind, message: msg, traceback: t }),
        ),
        (spec_parse_response(l) matches Ok(r) && !(r is Traceback)) ==> spec_step(
            PhaseV::ErrorTrace(kind, msg),
            Some(l),
        ) == (
            PhaseV::Idle,
            StepV::Failed(ErrV::HookError { kind: kind, message: msg, traceback: Seq::empty() }),
        ),
{
}

/// Each `FATAL` record pairs with exactly the next record and crashes the
/// daemon, whatever that record turns out to be.
pub proof fn lemma_fatal_pairs_traceback(kind: Seq<char>, msg: Seq<char>, l: Seq<char>)
    ensures
        spec_parse_response(l) matches Ok(RespV::Fatal(k, m)) ==> spec_step(
            PhaseV::Awaiting,
            Some(l),
        ) == (PhaseV::FatalTrace(k, m), StepV::Continue),
        spec_parse_response(l) matches Ok(RespV::Traceback(t)) ==> spec_step(
            PhaseV::FatalTrace(kind, msg),
            Some(l),
        ) == (
            PhaseV::Crashed,
            StepV::Failed(ErrV::Crashed { kind: kind, message: msg, traceback: t }),
        ),
        (spec_parse_response(l) matches Ok(r) && !(r is Traceback)) ==> spec_step(
            PhaseV::FatalTrace(kind, msg),
            Some(l),
        ) == (
            PhaseV::Crashed,
            StepV::Failed(ErrV::Crashed { kind: kind, message: msg, traceback: Seq::empty() }),
        ),
{
}

} // verus!
