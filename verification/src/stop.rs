//! Stopping an instance, on request or because it reached a limit.
//!
//! A [`Stop`] asks for one action at a time and takes the answer. The instance
//! enters `stopped` only once its process is known to be gone and its spawn record
//! is cleared. A stop whose kill could not be confirmed leaves the process held, so
//! that a later stop, or the reaper, can settle it.
use crate::duration::Duration;
use crate::error::{
    registry_to_engine, registry_to_engine_spec, BackendErrorOf, EngineError, EngineErrorModel,
    EngineErrorOf, RegistryErrorOf,
};
use crate::event::{CauseModel, TransitionCause, TransitionCauseOf};
use crate::lifecycle::{next_state, next_state_spec, LifecycleCommand, LifecycleError, LifecycleState};
use crate::name::{name_fault, InstanceName};
use crate::start::LogFailureOf;
use crate::supervisor::{
    default_stop_window, with_unconfirmed, Supervisor, SupervisorModel, DEFAULT_STOP_WINDOW_SECS,
};
use crate::text::{dec, push_dec};
use vstd::prelude::*;

verus! {

/// What is said of a stop that an earlier attempt began and a later one settled.
pub const SETTLED_BY_RETRY: &'static str =
    "SIGKILL was sent by an earlier stop attempt; the process's death was confirmed on a later reconciliation (it may have been stuck in an OS-level I/O wait that has since cleared)";

/// What a [`Stop`] waits for.
#[derive(Clone, Copy, Debug, PartialEq, Eq, Structural)]
pub enum StopPhase {
    /// The stored row.
    Row,
    /// Whether a process that was killed before is gone by now.
    StuckPolled,
    /// The clearing of its record.
    StuckCleared,
    /// Its transition into `stopped`.
    StuckEntered,
    /// The log directory.
    LogDir,
    /// The transition into `stopping`.
    EnterStopping,
    /// The last of the usage.
    Drained,
    /// The end of the process.
    Stopped,
    /// The clearing of the record.
    Cleared,
    /// The transition into `stopped`.
    EnterStopped,
    /// The row as it now stands.
    Settled,
    /// Nothing; the stop has ended.
    Done,
}

/// A stop under way.
pub struct Stop {
    name: InstanceName,
    window: Duration,
    cause: TransitionCause,
    confirm_timeout_secs: u64,
    phase: StopPhase,
    prior: LifecycleState,
    forced: bool,
}

/// The model of a [`Stop`].
pub struct StopModel {
    /// The instance.
    pub name: Seq<char>,
    /// The time the process gets to go away.
    pub window: Duration,
    /// Why the instance is stopped.
    pub cause: CauseModel,
    /// How long the backend waits for a killed process, in seconds.
    pub confirm_timeout_secs: u64,
    /// What is waited for.
    pub phase: StopPhase,
    /// The state the instance was in.
    pub prior: LifecycleState,
    /// Whether the process had to be killed.
    pub forced: bool,
}

impl View for Stop {
    type V = StopModel;

    closed spec fn view(&self) -> StopModel {
        StopModel {
            name: self.name@,
            window: self.window,
            cause: self.cause@,
            confirm_timeout_secs: self.confirm_timeout_secs,
            phase: self.phase,
            prior: self.prior,
            forced: self.forced,
        }
    }
}

/// The answer to an action of a [`Stop`].
pub enum StopEventOf<S> {
    /// The state in the stored row.
    Row(Result<LifecycleState, RegistryErrorOf<S>>),
    /// Whether the process is gone.
    Polled(Result<bool, BackendErrorOf<S>>),
    /// Whether the spawn record could be cleared.
    Cleared(Result<(), RegistryErrorOf<S>>),
    /// Whether a transition could be made.
    Transitioned(Result<(), EngineErrorOf<S>>),
    /// Whether there is a log directory.
    LogDir(Result<(), LogFailureOf<S>>),
    /// The usage has been read to the end.
    Drained,
    /// Whether the process had to be killed, once it is gone.
    Stopped(Result<bool, BackendErrorOf<S>>),
}

/// The answer to an action of a [`Stop`].
pub type StopEvent = StopEventOf<String>;

/// The model of a [`StopEvent`].
pub type StopEventModel = StopEventOf<Seq<char>>;

impl View for StopEventOf<String> {
    type V = StopEventModel;

    open spec fn view(&self) -> StopEventModel {
        match self {
            StopEventOf::Row(r) => StopEventOf::Row(
                match r {
                    Ok(state) => Ok(*state),
                    Err(e) => Err(e@),
                },
            ),
            StopEventOf::Polled(r) => StopEventOf::Polled(
                match r {
                    Ok(exited) => Ok(*exited),
                    Err(e) => Err(e@),
                },
            ),
            StopEventOf::Cleared(r) => StopEventOf::Cleared(
                match r {
                    Ok(_) => Ok(()),
                    Err(e) => Err(e@),
                },
            ),
            StopEventOf::Transitioned(r) => StopEventOf::Transitioned(
                match r {
                    Ok(_) => Ok(()),
                    Err(e) => Err(e@),
                },
            ),
            StopEventOf::LogDir(r) => StopEventOf::LogDir(
                match r {
                    Ok(_) => Ok(()),
                    Err(e) => Err(e@),
                },
            ),
            StopEventOf::Drained => StopEventOf::Drained,
            StopEventOf::Stopped(r) => StopEventOf::Stopped(
                match r {
                    Ok(forced) => Ok(*forced),
                    Err(e) => Err(e@),
                },
            ),
        }
    }
}

/// What a [`Stop`] asks for.
pub enum StopActionOf<S> {
    /// Look the instance up.
    ReadRow,
    /// Look, once and without waiting, whether the process is gone.
    Poll,
    /// Clear the spawn record.
    ClearRecord,
    /// Record a change of state.
    Transition {
        /// The state left.
        prior: LifecycleState,
        /// The state entered.
        new: LifecycleState,
        /// Why.
        cause: TransitionCauseOf<S>,
    },
    /// Make the log directory.
    EnsureLogDir,
    /// Read the usage to the end of the output.
    Drain,
    /// Ask the process to go away, and kill it after the window.
    StopProcess {
        /// The window.
        window: Duration,
    },
    /// Nothing: the answer does not fit what was asked; the stop still waits.
    Misfit,
    /// Nothing more: the stop has ended, with the state in the row or an error.
    Finish(Result<LifecycleState, EngineErrorOf<S>>),
}

/// What a [`Stop`] asks for.
pub type StopAction = StopActionOf<String>;

/// The model of a [`StopAction`].
pub type StopActionModel = StopActionOf<Seq<char>>;

impl View for StopActionOf<String> {
    type V = StopActionModel;

    open spec fn view(&self) -> StopActionModel {
        match self {
            StopActionOf::ReadRow => StopActionOf::ReadRow,
            StopActionOf::Poll => StopActionOf::Poll,
            StopActionOf::ClearRecord => StopActionOf::ClearRecord,
            StopActionOf::Transition { prior, new, cause } => StopActionOf::Transition {
                prior: *prior,
                new: *new,
                cause: cause@,
            },
            StopActionOf::EnsureLogDir => StopActionOf::EnsureLogDir,
            StopActionOf::Drain => StopActionOf::Drain,
            StopActionOf::StopProcess { window } => StopActionOf::StopProcess { window: *window },
            StopActionOf::Misfit => StopActionOf::Misfit,
            StopActionOf::Finish(r) => StopActionOf::Finish(
                match r {
                    Ok(state) => Ok(*state),
                    Err(e) => Err(e@),
                },
            ),
        }
    }
}

/// The stop of `name` before anything has been asked: the window is the given one
/// or the default, and the cause the given one or the operator's command.
pub open spec fn stop_begin(
    name: Seq<char>,
    window: Option<Duration>,
    cause: Option<CauseModel>,
    confirm_timeout_secs: u64,
) -> StopModel {
    StopModel {
        name,
        window: match window {
            Some(w) => w,
            None => Duration { nanos: (DEFAULT_STOP_WINDOW_SECS * 1_000_000_000) as u128 },
        },
        cause: match cause {
            Some(c) => c,
            None => CauseModel::Command { command: LifecycleCommand::Stop.label() },
        },
        confirm_timeout_secs,
        phase: StopPhase::Row,
        prior: LifecycleState::Registered,
        forced: false,
    }
}

/// Whether an answer is one to what a stop waits for.
pub open spec fn stop_fits(run: StopModel, event: StopEventModel) -> bool {
    match run.phase {
        StopPhase::Row | StopPhase::Settled => event is Row,
        StopPhase::StuckPolled => event is Polled,
        StopPhase::StuckCleared | StopPhase::Cleared => event is Cleared,
        StopPhase::StuckEntered
        | StopPhase::EnterStopping
        | StopPhase::EnterStopped => event is Transitioned,
        StopPhase::LogDir => event is LogDir,
        StopPhase::Drained => event is Drained,
        StopPhase::Stopped => event is Stopped,
        StopPhase::Done => false,
    }
}

/// Whether `name` is held with a stop behind it that was not confirmed.
pub open spec fn is_stuck(supervisor: SupervisorModel, name: Seq<char>) -> bool {
    supervisor.running.contains_key(name) && supervisor.running[name].stop_unconfirmed
}

/// A stop that ends with `e`.
pub open spec fn stop_ends(run: StopModel, e: EngineErrorModel) -> (StopModel, StopActionModel) {
    (StopModel { phase: StopPhase::Done, ..run }, StopActionOf::Finish(Err(e)))
}

/// A stop that goes on to wait for `phase`, having asked for `action`.
pub open spec fn stop_asks(run: StopModel, phase: StopPhase, action: StopActionModel) -> (
    StopModel,
    StopActionModel,
) {
    (StopModel { phase, ..run }, action)
}

/// Why an instance whose process is gone enters `stopped`.
pub open spec fn stopped_cause(forced: bool, window: Duration) -> CauseModel {
    if forced {
        CauseModel::StopForced {
            detail: "graceful window ("@ + dec((window.nanos / 1_000_000_000) as nat)
                + "s) elapsed; escalated to a forced kill of the process group/job"@,
        }
    } else {
        CauseModel::StopGraceful
    }
}

/// What a stop does with an answer: the table of its steps.
#[verifier::opaque]
pub open spec fn stop_next(
    run: StopModel,
    event: StopEventModel,
    supervisor: SupervisorModel,
) -> (StopModel, StopActionModel) {
    let name = run.name;
    match (run.phase, event) {
        (StopPhase::Row, StopEventOf::Row(r)) => match r {
            Err(e) => stop_ends(run, registry_to_engine_spec(e)),
            Ok(state) => if state == LifecycleState::Stopping && is_stuck(supervisor, name) {
                stop_asks(run, StopPhase::StuckPolled, StopActionOf::Poll)
            } else {
                match next_state_spec(state, LifecycleCommand::Stop) {
                    Err(e) => stop_ends(run, EngineErrorOf::InvalidTransition(e)),
                    Ok(_) => stop_asks(
                        StopModel { prior: state, ..run },
                        StopPhase::LogDir,
                        StopActionOf::EnsureLogDir,
                    ),
                }
            },
        },
        (StopPhase::StuckPolled, StopEventOf::Polled(r)) => match r {
            Err(source) => stop_ends(run, EngineErrorOf::Backend { name, source }),
            Ok(false) => stop_ends(
                run,
                EngineErrorOf::StopUnconfirmed { name, timeout_secs: run.confirm_timeout_secs },
            ),
            Ok(true) => stop_asks(run, StopPhase::StuckCleared, StopActionOf::ClearRecord),
        },
        (StopPhase::StuckCleared, StopEventOf::Cleared(r)) => match r {
            Err(e) => stop_ends(run, registry_to_engine_spec(e)),
            Ok(_) => stop_asks(
                run,
                StopPhase::StuckEntered,
                StopActionOf::Transition {
                    prior: LifecycleState::Stopping,
                    new: LifecycleState::Stopped,
                    cause: CauseModel::StopForced { detail: SETTLED_BY_RETRY@ },
                },
            ),
        },
        (StopPhase::StuckEntered, StopEventOf::Transitioned(r)) => match r {
            Err(e) => stop_ends(run, e),
            Ok(_) => stop_asks(run, StopPhase::Settled, StopActionOf::ReadRow),
        },
        (StopPhase::LogDir, StopEventOf::LogDir(r)) => match r {
            Err(e) => stop_ends(
                run,
                EngineErrorOf::Log { name, path: e.path, detail: e.detail },
            ),
            Ok(_) => stop_asks(
                run,
                StopPhase::EnterStopping,
                StopActionOf::Transition {
                    prior: run.prior,
                    new: LifecycleState::Stopping,
                    cause: run.cause,
                },
            ),
        },
        (StopPhase::EnterStopping, StopEventOf::Transitioned(r)) => match r {
            Err(e) => stop_ends(run, e),
            Ok(_) => stop_asks(run, StopPhase::Drained, StopActionOf::Drain),
        },
        (StopPhase::Drained, StopEventOf::Drained) => if supervisor.running.contains_key(name) {
            stop_asks(run, StopPhase::Stopped, StopActionOf::StopProcess { window: run.window })
        } else {
            stop_asks(run, StopPhase::Cleared, StopActionOf::ClearRecord)
        },
        (StopPhase::Stopped, StopEventOf::Stopped(r)) => match r {
            Err(BackendErrorOf::StopUnconfirmed { timeout_secs }) => stop_ends(
                run,
                EngineErrorOf::StopUnconfirmed { name, timeout_secs },
            ),
            Err(source) => stop_ends(run, EngineErrorOf::Backend { name, source }),
            Ok(forced) => stop_asks(
                StopModel { forced, ..run },
                StopPhase::Cleared,
                StopActionOf::ClearRecord,
            ),
        },
        (StopPhase::Cleared, StopEventOf::Cleared(r)) => match r {
            Err(e) => stop_ends(run, registry_to_engine_spec(e)),
            Ok(_) => stop_asks(
                run,
                StopPhase::EnterStopped,
                StopActionOf::Transition {
                    prior: LifecycleState::Stopping,
                    new: LifecycleState::Stopped,
                    cause: stopped_cause(run.forced, run.window),
                },
            ),
        },
        (StopPhase::EnterStopped, StopEventOf::Transitioned(r)) => match r {
            Err(e) => stop_ends(run, e),
            Ok(_) => stop_asks(run, StopPhase::Settled, StopActionOf::ReadRow),
        },
        (StopPhase::Settled, StopEventOf::Row(r)) => match r {
            Err(e) => stop_ends(run, registry_to_engine_spec(e)),
            Ok(state) => (
                StopModel { phase: StopPhase::Done, ..run },
                StopActionOf::Finish(Ok(state)),
            ),
        },
        _ => (run, StopActionOf::Misfit),
    }
}

/// What a stop does to the supervised processes: one that is known to be gone is
/// let go of, one whose death was not confirmed is marked, and nothing else ever
/// changes.
pub open spec fn stop_effect(
    supervisor: SupervisorModel,
    run: StopModel,
    event: StopEventModel,
) -> SupervisorModel {
    match (run.phase, event) {
        (StopPhase::StuckPolled, StopEventOf::Polled(Ok(true))) => SupervisorModel {
            running: supervisor.running.remove(run.name),
            ..supervisor
        },
        (StopPhase::Stopped, StopEventOf::Stopped(Ok(_))) => SupervisorModel {
            running: supervisor.running.remove(run.name),
            ..supervisor
        },
        (
            StopPhase::Stopped,
            StopEventOf::Stopped(Err(BackendErrorOf::StopUnconfirmed { .. })),
        ) => SupervisorModel {
            running: with_unconfirmed(supervisor.running, run.name),
            ..supervisor
        },
        _ => supervisor,
    }
}

impl Stop {
    /// The instance that is stopped.
    pub fn name(&self) -> (r: &InstanceName)
        ensures
            r@ == self@.name,
    {
        &self.name
    }

    pub(crate) fn phase(&self) -> (r: StopPhase)
        ensures
            r == self@.phase,
    {
        self.phase
    }

    pub(crate) fn prior(&self) -> (r: LifecycleState)
        ensures
            r == self@.prior,
    {
        self.prior
    }

    fn begin(
        name: InstanceName,
        window: Option<Duration>,
        cause: Option<TransitionCause>,
        confirm_timeout_secs: u64,
    ) -> (r: Self)
        ensures
            r@ == stop_begin(name@, window, cause_option(cause), confirm_timeout_secs),
    {
        let window = match window {
            Some(w) => w,
            None => default_stop_window(),
        };
        let cause = match cause {
            Some(c) => c,
            None => TransitionCause::command(LifecycleCommand::Stop.as_str()),
        };
        Stop {
            name,
            window,
            cause,
            confirm_timeout_secs,
            phase: StopPhase::Row,
            prior: LifecycleState::Registered,
            forced: false,
        }
    }

    fn ends(&mut self, e: EngineError) -> (r: StopAction)
        ensures
            (final(self)@, r@) == stop_ends(old(self)@, e@),
    {
        self.phase = StopPhase::Done;
        StopActionOf::Finish(Err(e))
    }

    fn asks(&mut self, phase: StopPhase, action: StopAction) -> (r: StopAction)
        ensures
            (final(self)@, r@) == stop_asks(old(self)@, phase, action@),
    {
        self.phase = phase;
        action
    }
}

/// The model of an optional cause.
pub open spec fn cause_option(cause: Option<TransitionCause>) -> Option<CauseModel> {
    match cause {
        Some(c) => Some(c@),
        None => None,
    }
}

fn stopped_because(forced: bool, window: Duration) -> (r: TransitionCause)
    ensures
        r@ == stopped_cause(forced, window),
{
    if forced {
        let mut detail = "graceful window (".to_owned();
        push_dec(&mut detail, window.as_secs());
        detail.append("s) elapsed; escalated to a forced kill of the process group/job");
        TransitionCause::stop_forced(detail)
    } else {
        TransitionCauseOf::StopGraceful
    }
}

impl Supervisor {
    /// Begin to stop an instance on request. The name is checked; nothing else is
    /// done. The first action is [`StopActionOf::ReadRow`].
    pub fn stop(&self, name: &str, window: Option<Duration>, confirm_timeout_secs: u64) -> (r:
        Result<Stop, EngineError>)
        ensures
            match r {
                Ok(run) => name_fault(name@) is None && run@ == stop_begin(
                    name@,
                    window,
                    None,
                    confirm_timeout_secs,
                ),
                Err(e) => name_fault(name@) matches Some(reason) && e@
                    == (EngineErrorModel::InvalidName { name: name@, reason }),
            },
    {
        match InstanceName::new(name) {
            Ok(name) => Ok(Stop::begin(name, window, None, confirm_timeout_secs)),
            Err(reason) => Err(EngineErrorOf::InvalidName { name: name.to_owned(), reason }),
        }
    }

    /// Begin to stop an instance for a cause other than a request, with the
    /// default window.
    pub fn stop_with_cause(
        &self,
        name: &InstanceName,
        cause: TransitionCause,
        confirm_timeout_secs: u64,
    ) -> (r: Stop)
        ensures
            r@ == stop_begin(name@, None, Some(cause@), confirm_timeout_secs),
    {
        Stop::begin(name.clone(), None, Some(cause), confirm_timeout_secs)
    }

    /// Take the answer to what `run` asked for and say what to do next.
    #[verifier::rlimit(60)]
    pub fn stop_step(&mut self, run: &mut Stop, event: StopEvent) -> (r: StopAction)
        requires
            old(self).wf(),
        ensures
            final(self).wf(),
            (final(run)@, r@) == stop_next(old(run)@, event@, old(self)@),
            final(self)@ == stop_effect(old(self)@, old(run)@, event@),
    {
        proof {
            reveal(stop_next);
        }
        match (run.phase, event) {
            (StopPhase::Row, StopEventOf::Row(r)) => match r {
                Err(e) => run.ends(registry_to_engine(e)),
                Ok(state) => {
                    let stuck = match self.supervised(&run.name) {
                        Some(s) => s.stop_unconfirmed,
                        None => false,
                    };
                    if state == LifecycleState::Stopping && stuck {
                        run.asks(StopPhase::StuckPolled, StopActionOf::Poll)
                    } else {
                        match next_state(state, LifecycleCommand::Stop) {
                            Err(e) => run.ends(EngineErrorOf::InvalidTransition(e)),
                            Ok(_) => {
                                run.prior = state;
                                run.asks(StopPhase::LogDir, StopActionOf::EnsureLogDir)
                            },
                        }
                    }
                },
            },
            (StopPhase::StuckPolled, StopEventOf::Polled(r)) => match r {
                Err(source) => {
                    let name = run.name.to_text();
                    run.ends(EngineErrorOf::Backend { name, source })
                },
                Ok(false) => {
                    let name = run.name.to_text();
                    let timeout_secs = run.confirm_timeout_secs;
                    run.ends(EngineErrorOf::StopUnconfirmed { name, timeout_secs })
                },
                Ok(true) => {
                    self.release(&run.name);
                    run.asks(StopPhase::StuckCleared, StopActionOf::ClearRecord)
                },
            },
            (StopPhase::StuckCleared, StopEventOf::Cleared(r)) => match r {
                Err(e) => run.ends(registry_to_engine(e)),
                Ok(_) => run.asks(
                    StopPhase::StuckEntered,
                    StopActionOf::Transition {
                        prior: LifecycleState::Stopping,
                        new: LifecycleState::Stopped,
                        cause: TransitionCause::stop_forced(SETTLED_BY_RETRY.to_owned()),
                    },
                ),
            },
            (StopPhase::StuckEntered, StopEventOf::Transitioned(r)) => match r {
                Err(e) => run.ends(e),
                Ok(_) => run.asks(StopPhase::Settled, StopActionOf::ReadRow),
            },
            (StopPhase::LogDir, StopEventOf::LogDir(r)) => match r {
                Err(e) => {
                    let name = run.name.to_text();
                    run.ends(EngineErrorOf::Log { name, path: e.path, detail: e.detail })
                },
                Ok(_) => {
                    let prior = run.prior;
                    let cause = run.cause.duplicate();
                    run.asks(
                        StopPhase::EnterStopping,
                        StopActionOf::Transition { prior, new: LifecycleState::Stopping, cause },
                    )
                },
            },
            (StopPhase::EnterStopping, StopEventOf::Transitioned(r)) => match r {
                Err(e) => run.ends(e),
                Ok(_) => run.asks(StopPhase::Drained, StopActionOf::Drain),
            },
            (StopPhase::Drained, StopEventOf::Drained) => {
                if self.is_held(&run.name) {
                    let window = run.window;
                    run.asks(StopPhase::Stopped, StopActionOf::StopProcess { window })
                } else {
                    run.asks(StopPhase::Cleared, StopActionOf::ClearRecord)
                }
            },
            (StopPhase::Stopped, StopEventOf::Stopped(r)) => match r {
                Err(BackendErrorOf::StopUnconfirmed { timeout_secs }) => {
                    self.mark_stop_unconfirmed(&run.name);
                    let name = run.name.to_text();
                    run.ends(EngineErrorOf::StopUnconfirmed { name, timeout_secs })
                },
                Err(source) => {
                    let name = run.name.to_text();
                    run.ends(EngineErrorOf::Backend { name, source })
                },
                Ok(forced) => {
                    self.release(&run.name);
                    run.forced = forced;
                    run.asks(StopPhase::Cleared, StopActionOf::ClearRecord)
                },
            },
            (StopPhase::Cleared, StopEventOf::Cleared(r)) => match r {
                Err(e) => run.ends(registry_to_engine(e)),
                Ok(_) => {
                    let cause = stopped_because(run.forced, run.window);
                    run.asks(
                        StopPhase::EnterStopped,
                        StopActionOf::Transition {
                            prior: LifecycleState::Stopping,
                            new: LifecycleState::Stopped,
                            cause,
                        },
                    )
                },
            },
            (StopPhase::EnterStopped, StopEventOf::Transitioned(r)) => match r {
                Err(e) => run.ends(e),
                Ok(_) => run.asks(StopPhase::Settled, StopActionOf::ReadRow),
            },
            (StopPhase::Settled, StopEventOf::Row(r)) => match r {
                Err(e) => run.ends(registry_to_engine(e)),
                Ok(state) => {
                    run.phase = StopPhase::Done;
                    StopActionOf::Finish(Ok(state))
                },
            },
            _ => StopActionOf::Misfit,
        }
    }
}

/// The stop after its first `n` answers, where `held[i]` is what is supervised
/// when answer `i` comes.
pub open spec fn stop_at(
    run: StopModel,
    answers: Seq<StopEventModel>,
    held: Seq<SupervisorModel>,
    n: int,
) -> StopModel
    decreases n,
{
    if n <= 0 {
        run
    } else {
        stop_next(stop_at(run, answers, held, n - 1), answers[n - 1], held[n - 1]).0
    }
}

/// What the stop asks for upon its answer number `i`, counted from zero.
pub open spec fn stop_action_at(
    run: StopModel,
    answers: Seq<StopEventModel>,
    held: Seq<SupervisorModel>,
    i: int,
) -> StopActionModel {
    stop_next(stop_at(run, answers, held, i), answers[i], held[i]).1
}

/// Whether each answer is one to what the stop asked for.
pub open spec fn stop_answered(
    run: StopModel,
    answers: Seq<StopEventModel>,
    held: Seq<SupervisorModel>,
) -> bool {
    &&& held.len() == answers.len()
    &&& forall|i: int|
        0 <= i < answers.len() ==> stop_fits(stop_at(run, answers, held, i), #[trigger] answers[i])
}

/// Whether a phase comes before `stopping`.
pub open spec fn stop_checking(phase: StopPhase) -> bool {
    phase == StopPhase::Row || phase == StopPhase::LogDir
}

/// Whether a phase belongs to the settling of an earlier stop.
pub open spec fn stop_settling(phase: StopPhase) -> bool {
    phase == StopPhase::StuckPolled || phase == StopPhase::StuckCleared || phase
        == StopPhase::StuckEntered
}

/// Whether an action is the transition into a state.
pub open spec fn stop_enters(action: StopActionModel, state: LifecycleState) -> bool {
    action matches StopActionOf::Transition { new, .. } && new == state
}

/// What holds of every single step of a stop.
#[verifier::rlimit(60)]
proof fn lemma_stop_step(run: StopModel, event: StopEventModel, supervisor: SupervisorModel)
    requires
        stop_fits(run, event),
    ensures
        ({
            let (after, asked) = stop_next(run, event, supervisor);
            &&& after.name == run.name
            &&& stop_checking(after.phase) ==> stop_checking(run.phase) && asked is EnsureLogDir
            &&& after.phase == StopPhase::Cleared ==> asked is ClearRecord
            &&& after.phase == StopPhase::StuckCleared ==> asked is ClearRecord
            &&& stop_enters(asked, LifecycleState::Stopped) ==> (run.phase == StopPhase::Cleared
                || run.phase == StopPhase::StuckCleared) && (event matches StopEventOf::Cleared(
                Ok(_),
            ))
            &&& asked is ClearRecord ==> {
                ||| event == StopEventModel::Polled(Ok(true))
                ||| event matches StopEventOf::Stopped(Ok(_))
                ||| event is Drained && !supervisor.running.contains_key(run.name)
            }
            &&& asked is StopProcess ==> run.phase == StopPhase::Drained
            &&& after.phase == StopPhase::Drained ==> run.phase == StopPhase::EnterStopping
            &&& after.phase == StopPhase::EnterStopping ==> run.phase == StopPhase::LogDir
            &&& after.phase == StopPhase::LogDir ==> run.phase == StopPhase::Row
            &&& stop_settling(after.phase) ==> stop_settling(run.phase) || run.phase
                == StopPhase::Row
            &&& after.phase != StopPhase::Row
            &&& stop_settling(run.phase) ==> stop_settling(after.phase) || after.phase
                == StopPhase::Settled || after.phase == StopPhase::Done
            &&& run.phase == StopPhase::Settled ==> after.phase == StopPhase::Done
        }),
{
    reveal(stop_next);
}

proof fn lemma_stop_step_at(
    run: StopModel,
    answers: Seq<StopEventModel>,
    held: Seq<SupervisorModel>,
    i: int,
)
    requires
        stop_answered(run, answers, held),
        0 <= i < answers.len(),
    ensures
        stop_fits(stop_at(run, answers, held, i), answers[i]),
        (stop_at(run, answers, held, i + 1), stop_action_at(run, answers, held, i)) == stop_next(
            stop_at(run, answers, held, i),
            answers[i],
            held[i],
        ),
{
    assert(stop_fits(stop_at(run, answers, held, i), answers[i]));
}

/// The instance enters `stopped` only upon the answer that its spawn record is
/// cleared.
pub proof fn law_stopped_only_after_the_record_is_cleared(
    run: StopModel,
    answers: Seq<StopEventModel>,
    held: Seq<SupervisorModel>,
    i: int,
)
    requires
        run.phase == StopPhase::Row,
        stop_answered(run, answers, held),
        0 <= i < answers.len(),
        stop_enters(stop_action_at(run, answers, held, i), LifecycleState::Stopped),
    ensures
        i >= 1,
        answers[i] matches StopEventOf::Cleared(Ok(_)),
        stop_action_at(run, answers, held, i - 1) is ClearRecord,
{
    lemma_stop_step(stop_at(run, answers, held, i), answers[i], held[i]);
    assert(stop_at(run, answers, held, 0) == run);
    lemma_stop_step_at(run, answers, held, i - 1);
    lemma_stop_step(stop_at(run, answers, held, i - 1), answers[i - 1], held[i - 1]);
}

/// The spawn record is cleared only when the process is known to be gone: it was
/// seen to have exited, the backend stopped it, or none was held.
pub proof fn law_record_is_cleared_only_without_a_process(
    run: StopModel,
    answers: Seq<StopEventModel>,
    held: Seq<SupervisorModel>,
    i: int,
)
    requires
        stop_answered(run, answers, held),
        0 <= i < answers.len(),
        stop_action_at(run, answers, held, i) is ClearRecord,
    ensures
        answers[i] == StopEventModel::Polled(Ok(true)) || (answers[i] matches
            StopEventOf::Stopped(Ok(_))) || (answers[i] is Drained
            && !held[i].running.contains_key(stop_at(run, answers, held, i).name)),
{
    lemma_stop_step_at(run, answers, held, i);
    lemma_stop_step(stop_at(run, answers, held, i), answers[i], held[i]);
}

/// A stop that is refused while it is still asking changes nothing: up to and with
/// its end it has asked for no transition, signalled no process and cleared no
/// record.
pub proof fn law_refused_stop_changes_nothing(
    run: StopModel,
    answers: Seq<StopEventModel>,
    held: Seq<SupervisorModel>,
    i: int,
    j: int,
)
    requires
        run.phase == StopPhase::Row,
        stop_answered(run, answers, held),
        0 <= j <= i < answers.len(),
        stop_checking(stop_at(run, answers, held, i).phase),
        stop_action_at(run, answers, held, i) is Finish,
    ensures
        !(stop_action_at(run, answers, held, j) is Transition),
        !(stop_action_at(run, answers, held, j) is StopProcess),
        !(stop_action_at(run, answers, held, j) is ClearRecord),
{
    if j < i {
        lemma_stop_was_checking(run, answers, held, i, j + 1);
        lemma_stop_step_at(run, answers, held, j);
        lemma_stop_step(stop_at(run, answers, held, j), answers[j], held[j]);
    }
}

proof fn lemma_stop_was_checking(
    run: StopModel,
    answers: Seq<StopEventModel>,
    held: Seq<SupervisorModel>,
    i: int,
    j: int,
)
    requires
        stop_answered(run, answers, held),
        0 <= j <= i <= answers.len(),
        stop_checking(stop_at(run, answers, held, i).phase),
    ensures
        stop_checking(stop_at(run, answers, held, j).phase),
    decreases i - j,
{
    if j < i {
        lemma_stop_step_at(run, answers, held, i - 1);
        lemma_stop_step(stop_at(run, answers, held, i - 1), answers[i - 1], held[i - 1]);
        lemma_stop_was_checking(run, answers, held, i - 1, j);
    }
}

/// Retrying a stop that was not confirmed only looks: it never signals the process
/// again, however it ends.
pub proof fn law_retry_never_signals_again(
    run: StopModel,
    answers: Seq<StopEventModel>,
    held: Seq<SupervisorModel>,
    i: int,
)
    requires
        run.phase == StopPhase::Row,
        stop_answered(run, answers, held),
        0 <= i < answers.len(),
        answers[0] == StopEventModel::Row(Ok(LifecycleState::Stopping)),
        is_stuck(held[0], run.name),
    ensures
        stop_action_at(run, answers, held, 0) is Poll,
        !(stop_action_at(run, answers, held, i) is StopProcess),
        !stop_enters(stop_action_at(run, answers, held, i), LifecycleState::Stopping),
{
    assert(stop_at(run, answers, held, 0) == run);
    reveal(stop_next);
    lemma_stop_stays_settling(run, answers, held, i);
}

proof fn lemma_stop_stays_settling(
    run: StopModel,
    answers: Seq<StopEventModel>,
    held: Seq<SupervisorModel>,
    i: int,
)
    requires
        run.phase == StopPhase::Row,
        stop_answered(run, answers, held),
        0 <= i < answers.len(),
        answers[0] == StopEventModel::Row(Ok(LifecycleState::Stopping)),
        is_stuck(held[0], run.name),
    ensures
        stop_settling(stop_at(run, answers, held, i + 1).phase) || stop_at(
            run,
            answers,
            held,
            i + 1,
        ).phase == StopPhase::Settled || stop_at(run, answers, held, i + 1).phase
            == StopPhase::Done,
        i > 0 ==> stop_settling(stop_at(run, answers, held, i).phase) || stop_at(
            run,
            answers,
            held,
            i,
        ).phase == StopPhase::Settled,
    decreases i,
{
    assert(stop_at(run, answers, held, 0) == run);
    lemma_stop_step_at(run, answers, held, i);
    if i == 0 {
        reveal(stop_next);
    } else {
        lemma_stop_stays_settling(run, answers, held, i - 1);
        lemma_stop_step(stop_at(run, answers, held, i), answers[i], held[i]);
    }
}

/// A stop that fails at the process keeps the process held, so that a later
/// attempt can settle it; a kill that was not confirmed marks it for that.
pub proof fn law_failed_stop_keeps_the_process(
    supervisor: SupervisorModel,
    run: StopModel,
    e: crate::error::BackendErrorModel,
)
    requires
        run.phase == StopPhase::Stopped,
        supervisor.running.contains_key(run.name),
    ensures
        stop_effect(supervisor, run, StopEventModel::Stopped(Err(e))).running.contains_key(
            run.name,
        ),
        e is StopUnconfirmed ==> is_stuck(
            stop_effect(supervisor, run, StopEventModel::Stopped(Err(e))),
            run.name,
        ),
{
}

/// Stopping one instance leaves every other one as it is.
pub proof fn law_stop_leaves_the_others_alone(
    supervisor: SupervisorModel,
    run: StopModel,
    event: StopEventModel,
    other: Seq<char>,
)
    requires
        other != run.name,
    ensures
        stop_effect(supervisor, run, event).running.contains_key(other)
            == supervisor.running.contains_key(other),
        supervisor.running.contains_key(other) ==> stop_effect(
            supervisor,
            run,
            event,
        ).running[other] == supervisor.running[other],
{
}

/// What a stop does of an instance that is up: the change from the state in the row to `stopping`
/// is recorded with the cause given, or as the operator's command; the last of the usage is read;
/// a process that is held is asked to go away within the window given, or the default
/// one, and is let go of once it is gone, and no other is touched; then the spawn
/// record is cleared; and then the change to `stopped` is recorded, as forced, with the whole
/// seconds of that window, exactly where the process had to be killed. What is reported is the
/// state that the row says then.
#[verifier::spinoff_prover]
#[verifier::rlimit(60)]
pub proof fn law_a_stop_does_what_was_answered(
    name: Seq<char>,
    window: Option<Duration>,
    cause: Option<CauseModel>,
    confirm_timeout_secs: u64,
    state: LifecycleState,
    forced: bool,
    told: LifecycleState,
    held: SupervisorModel,
    later: SupervisorModel,
)
    requires
        state == LifecycleState::Running || state == LifecycleState::Paused,
    ensures
        ({
            let given = match window {
                Some(w) => w,
                None => Duration { nanos: (DEFAULT_STOP_WINDOW_SECS * 1_000_000_000) as u128 },
            };
            let done = StopEventModel::Transitioned(Ok(()));
            let cleared = StopEventModel::Cleared(Ok(()));
            let begun = stop_begin(name, window, cause, confirm_timeout_secs);
            let row = stop_next(begun, StopEventModel::Row(Ok(state)), held);
            let logged = stop_next(row.0, StopEventModel::LogDir(Ok(())), held);
            let stopping = stop_next(logged.0, done, held);
            let drained = stop_next(stopping.0, StopEventModel::Drained, held);
            let ended = stop_next(drained.0, StopEventModel::Stopped(Ok(forced)), held);
            let after = stop_effect(held, drained.0, StopEventModel::Stopped(Ok(forced)));
            let gone = if held.running.contains_key(name) {
                ended
            } else {
                drained
            };
            let killed = forced && held.running.contains_key(name);
            let clear = stop_next(gone.0, cleared, later);
            let stopped = stop_next(clear.0, done, later);
            &&& row.1 is EnsureLogDir
            &&& logged.1 == StopActionModel::Transition {
                prior: state,
                new: LifecycleState::Stopping,
                cause: match cause {
                    Some(c) => c,
                    None => CauseModel::Command { command: "stop"@ },
                },
            }
            &&& stopping.1 is Drain
            &&& held.running.contains_key(name) ==> {
                &&& drained.1 == StopActionModel::StopProcess { window: given }
                &&& after.running == held.running.remove(name)
                &&& after.backoff == held.backoff
            }
            &&& gone.1 is ClearRecord
            &&& clear.1 == StopActionModel::Transition {
                prior: LifecycleState::Stopping,
                new: LifecycleState::Stopped,
                cause: if killed {
                    CauseModel::StopForced {
                        detail: "graceful window ("@ + dec((given.nanos / 1_000_000_000) as nat)
                            + "s) elapsed; escalated to a forced kill of the process group/job"@,
                    }
                } else {
                    CauseModel::StopGraceful
                },
            }
            &&& stopped.1 is ReadRow
            &&& stop_next(stopped.0, StopEventModel::Row(Ok(told)), later).1
                == StopActionModel::Finish(Ok(told))
            &&& stop_effect(held, begun, StopEventModel::Row(Ok(state))) == held
            &&& stop_effect(held, row.0, StopEventModel::LogDir(Ok(()))) == held
            &&& stop_effect(held, logged.0, done) == held
            &&& stop_effect(held, stopping.0, StopEventModel::Drained) == held
            &&& stop_effect(later, gone.0, cleared) == later
            &&& stop_effect(later, clear.0, done) == later
        }),
{
    reveal(stop_next);
}

/// What a stop does of an instance whose earlier stop was not confirmed: it looks once whether the
/// process is gone by now. If it is, the process is let go of, the spawn record cleared and
/// the change to `stopped` recorded; if not, the stop says again that it is not confirmed, and the
/// process stays held.
#[verifier::spinoff_prover]
#[verifier::rlimit(60)]
pub proof fn law_a_later_stop_settles_an_unconfirmed_one(
    name: Seq<char>,
    window: Option<Duration>,
    cause: Option<CauseModel>,
    confirm_timeout_secs: u64,
    told: LifecycleState,
    held: SupervisorModel,
    later: SupervisorModel,
)
    requires
        held.running.contains_key(name),
        held.running[name].stop_unconfirmed,
    ensures
        ({
            let stopping = StopEventModel::Row(Ok(LifecycleState::Stopping));
            let begun = stop_begin(name, window, cause, confirm_timeout_secs);
            let row = stop_next(begun, stopping, held);
            let gone = stop_next(row.0, StopEventModel::Polled(Ok(true)), held);
            let after = stop_effect(held, row.0, StopEventModel::Polled(Ok(true)));
            let there = stop_next(row.0, StopEventModel::Polled(Ok(false)), held);
            let clear = stop_next(gone.0, StopEventModel::Cleared(Ok(())), later);
            let stopped = stop_next(clear.0, StopEventModel::Transitioned(Ok(())), later);
            &&& row.1 is Poll
            &&& there.1 == StopActionModel::Finish(
                Err(EngineErrorModel::StopUnconfirmed { name, timeout_secs: confirm_timeout_secs }),
            )
            &&& stop_effect(held, row.0, StopEventModel::Polled(Ok(false))) == held
            &&& gone.1 is ClearRecord
            &&& after.running == held.running.remove(name)
            &&& clear.1 == StopActionModel::Transition {
                prior: LifecycleState::Stopping,
                new: LifecycleState::Stopped,
                cause: CauseModel::StopForced { detail: SETTLED_BY_RETRY@ },
            }
            &&& stopped.1 is ReadRow
            &&& stop_next(stopped.0, StopEventModel::Row(Ok(told)), later).1
                == StopActionModel::Finish(Ok(told))
        }),
{
    reveal(stop_next);
}

/// A stop is refused in any state but `running` and `paused`, and but for a `stopping` whose kill
/// was not confirmed; the refusal names the state.
pub proof fn law_a_stop_is_refused_elsewhere(
    name: Seq<char>,
    window: Option<Duration>,
    cause: Option<CauseModel>,
    confirm_timeout_secs: u64,
    state: LifecycleState,
    held: SupervisorModel,
)
    requires
        state != LifecycleState::Running,
        state != LifecycleState::Paused,
        state == LifecycleState::Stopping ==> !(held.running.contains_key(name)
            && held.running[name].stop_unconfirmed),
    ensures
        stop_next(
            stop_begin(name, window, cause, confirm_timeout_secs),
            StopEventModel::Row(Ok(state)),
            held,
        ).1 == StopActionModel::Finish(
            Err(
                EngineErrorModel::InvalidTransition(
                    LifecycleError::InvalidTransition {
                        from: state,
                        command: LifecycleCommand::Stop,
                    },
                ),
            ),
        ),
{
    reveal(stop_next);
}

/// A stop ends with what fails, told of the instance, and nothing more is asked; where the kill
/// was not confirmed the process stays held, marked so, and where the backend failed
/// otherwise it stays held as it was.
#[verifier::spinoff_prover]
#[verifier::rlimit(60)]
pub proof fn law_a_stop_ends_with_what_fails(
    run: StopModel,
    held: SupervisorModel,
    registry: RegistryErrorOf<Seq<char>>,
    backend: BackendErrorOf<Seq<char>>,
    log: LogFailureOf<Seq<char>>,
    engine: EngineErrorModel,
    timeout_secs: u64,
)
    ensures
        ({
            let unread = StopActionModel::Finish(Err(registry_to_engine_spec(registry)));
            let backed = StopActionModel::Finish(
                Err(EngineErrorModel::Backend { name: run.name, source: backend }),
            );
            let step = |event: StopEventModel| stop_next(run, event, held).1;
            let unconfirmed = StopEventModel::Stopped(
                Err(BackendErrorOf::StopUnconfirmed { timeout_secs }),
            );
            let marked = stop_effect(held, run, unconfirmed);
            &&& run.phase == StopPhase::Row || run.phase == StopPhase::Settled ==> step(
                StopEventModel::Row(Err(registry)),
            ) == unread
            &&& run.phase == StopPhase::StuckCleared || run.phase == StopPhase::Cleared ==> step(
                StopEventModel::Cleared(Err(registry)),
            ) == unread
            &&& run.phase == StopPhase::StuckPolled ==> step(StopEventModel::Polled(Err(backend)))
                == backed && stop_effect(held, run, StopEventModel::Polled(Err(backend))) == held
            &&& run.phase == StopPhase::Stopped && !(backend is StopUnconfirmed) ==> step(
                StopEventModel::Stopped(Err(backend)),
            ) == backed && stop_effect(held, run, StopEventModel::Stopped(Err(backend))) == held
            &&& run.phase == StopPhase::Stopped ==> step(unconfirmed) == StopActionModel::Finish(
                Err(EngineErrorModel::StopUnconfirmed { name: run.name, timeout_secs }),
            )
            &&& run.phase == StopPhase::Stopped && held.running.contains_key(run.name) ==> {
                &&& marked.running.dom() == held.running.dom()
                &&& marked.running[run.name].stop_unconfirmed
                &&& marked.running[run.name].run_id == held.running[run.name].run_id
                &&& marked.running[run.name].metering_source
                    == held.running[run.name].metering_source
                &&& marked.running[run.name].usage_cursor == held.running[run.name].usage_cursor
                &&& marked.running[run.name].breached == held.running[run.name].breached
                &&& marked.running[run.name].observed == held.running[run.name].observed
                &&& forall|other: Seq<char>|
                    other != run.name && held.running.contains_key(other)
                        ==> #[trigger] marked.running[other] == held.running[other]
            }
            &&& run.phase == StopPhase::LogDir ==> step(StopEventModel::LogDir(Err(log)))
                == StopActionModel::Finish(
                Err(
                    EngineErrorModel::Log {
                        name: run.name,
                        path: log.path,
                        detail: log.detail,
                    },
                ),
            )
            &&& run.phase == StopPhase::EnterStopping || run.phase == StopPhase::StuckEntered
                || run.phase == StopPhase::EnterStopped ==> step(
                StopEventModel::Transitioned(Err(engine)),
            ) == StopActionModel::Finish(Err(engine))
        }),
{
    reveal(stop_next);
    let unconfirmed = StopEventModel::Stopped(
        Err(BackendErrorOf::StopUnconfirmed { timeout_secs }),
    );
    if run.phase == StopPhase::Stopped && held.running.contains_key(run.name) {
        assert(stop_effect(held, run, unconfirmed).running.dom() =~= held.running.dom());
    }
}

/// A stop takes the answer to what it asked for and no other: any other answer changes nothing, neither its own state nor what is held,
/// and after its end every answer is such a one.
#[verifier::spinoff_prover]
#[verifier::rlimit(60)]
pub proof fn law_a_stop_takes_only_its_answer(
    held: SupervisorModel,
    run: StopModel,
    event: StopEventModel,
    later: StopEventModel,
)
    ensures
        ({
            let step = stop_next(run, event, held);
            &&& step.1 is Misfit <==> !stop_fits(run, event)
            &&& !stop_fits(run, event) ==> step.0 == run
            &&& !stop_fits(run, event) ==> stop_effect(held, run, event) == held
            &&& step.1 is Finish ==> stop_next(step.0, later, held).1 is Misfit
        }),
{
    reveal(stop_next);
}

} // verus!
