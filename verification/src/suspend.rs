//! Pausing and resuming an instance.
//!
//! A [`Suspend`] asks for one action at a time and takes the answer. What it does
//! depends on how well the adapter supports pausing here: where it is guaranteed
//! the process is signalled, where it is best-effort the transition says so, and
//! where it is unsupported nothing happens at all.
use crate::capability::{Capability, OsId, SupportLevel};
use crate::error::{
    registry_to_engine, registry_to_engine_spec, BackendErrorOf, EngineError, EngineErrorModel,
    EngineErrorOf, RegistryErrorOf,
};
use crate::event::{CauseModel, TransitionCause, TransitionCauseOf};
use crate::lifecycle::{
    next_state, next_state_spec, LifecycleCommand, LifecycleError, LifecycleState,
};
use crate::name::{name_fault, InstanceName};
use crate::start::LogFailureOf;
use crate::stop::cause_option;
use crate::supervisor::{Supervisor, SupervisorModel};
use vstd::prelude::*;

verus! {

/// What a [`Suspend`] waits for.
#[derive(Clone, Copy, Debug, PartialEq, Eq, Structural)]
pub enum SuspendPhase {
    /// The stored row.
    Row,
    /// How well pausing is supported.
    Support,
    /// The log directory.
    LogDir,
    /// The signal to the process.
    Signalled,
    /// The transition.
    Entered,
    /// The row as it now stands.
    Settled,
    /// Nothing; it has ended.
    Done,
}

/// A pause or resume under way.
pub struct Suspend {
    name: InstanceName,
    resume: bool,
    cause: Option<TransitionCause>,
    os: OsId,
    phase: SuspendPhase,
    prior: LifecycleState,
    level: SupportLevel,
}

/// The model of a [`Suspend`].
pub struct SuspendModel {
    /// The instance.
    pub name: Seq<char>,
    /// Whether it is resumed rather than paused.
    pub resume: bool,
    /// Why, if for another reason than the operator's command.
    pub cause: Option<CauseModel>,
    /// The operating system.
    pub os: OsId,
    /// What is waited for.
    pub phase: SuspendPhase,
    /// The state the instance was in.
    pub prior: LifecycleState,
    /// How well pausing is supported.
    pub level: SupportLevel,
}

impl View for Suspend {
    type V = SuspendModel;

    closed spec fn view(&self) -> SuspendModel {
        SuspendModel {
            name: self.name@,
            resume: self.resume,
            cause: cause_option(self.cause),
            os: self.os,
            phase: self.phase,
            prior: self.prior,
            level: self.level,
        }
    }
}

/// The answer to an action of a [`Suspend`].
pub enum SuspendEventOf<S> {
    /// The state in the stored row.
    Row(Result<LifecycleState, RegistryErrorOf<S>>),
    /// How well pausing is supported.
    Support(Result<SupportLevel, RegistryErrorOf<S>>),
    /// Whether there is a log directory.
    LogDir(Result<(), LogFailureOf<S>>),
    /// Whether the process could be signalled.
    Signalled(Result<(), BackendErrorOf<S>>),
    /// Whether the transition could be made.
    Transitioned(Result<(), EngineErrorOf<S>>),
}

/// The answer to an action of a [`Suspend`].
pub type SuspendEvent = SuspendEventOf<String>;

/// The model of a [`SuspendEvent`].
pub type SuspendEventModel = SuspendEventOf<Seq<char>>;

impl View for SuspendEventOf<String> {
    type V = SuspendEventModel;

    open spec fn view(&self) -> SuspendEventModel {
        match self {
            SuspendEventOf::Row(r) => SuspendEventOf::Row(
                match r {
                    Ok(state) => Ok(*state),
                    Err(e) => Err(e@),
                },
            ),
            SuspendEventOf::Support(r) => SuspendEventOf::Support(
                match r {
                    Ok(level) => Ok(*level),
                    Err(e) => Err(e@),
                },
            ),
            SuspendEventOf::LogDir(r) => SuspendEventOf::LogDir(
                match r {
                    Ok(_) => Ok(()),
                    Err(e) => Err(e@),
                },
            ),
            SuspendEventOf::Signalled(r) => SuspendEventOf::Signalled(
                match r {
                    Ok(_) => Ok(()),
                    Err(e) => Err(e@),
                },
            ),
            SuspendEventOf::Transitioned(r) => SuspendEventOf::Transitioned(
                match r {
                    Ok(_) => Ok(()),
                    Err(e) => Err(e@),
                },
            ),
        }
    }
}

/// What a [`Suspend`] asks for.
pub enum SuspendActionOf<S> {
    /// Look the instance up.
    ReadRow,
    /// Look up how well a capability is supported here.
    ReadSupport(Capability),
    /// Make the log directory.
    EnsureLogDir,
    /// Suspend the process, or let it go on.
    Signal {
        /// Whether it goes on.
        resume: bool,
    },
    /// Record a change of state.
    Transition {
        /// The state left.
        prior: LifecycleState,
        /// The state entered.
        new: LifecycleState,
        /// Why.
        cause: TransitionCauseOf<S>,
    },
    /// Nothing: the answer does not fit what was asked.
    Misfit,
    /// Nothing more: it has ended, with the state in the row or an error.
    Finish(Result<LifecycleState, EngineErrorOf<S>>),
}

/// What a [`Suspend`] asks for.
pub type SuspendAction = SuspendActionOf<String>;

/// The model of a [`SuspendAction`].
pub type SuspendActionModel = SuspendActionOf<Seq<char>>;

impl View for SuspendActionOf<String> {
    type V = SuspendActionModel;

    open spec fn view(&self) -> SuspendActionModel {
        match self {
            SuspendActionOf::ReadRow => SuspendActionOf::ReadRow,
            SuspendActionOf::ReadSupport(c) => SuspendActionOf::ReadSupport(*c),
            SuspendActionOf::EnsureLogDir => SuspendActionOf::EnsureLogDir,
            SuspendActionOf::Signal { resume } => SuspendActionOf::Signal { resume: *resume },
            SuspendActionOf::Transition { prior, new, cause } => SuspendActionOf::Transition {
                prior: *prior,
                new: *new,
                cause: cause@,
            },
            SuspendActionOf::Misfit => SuspendActionOf::Misfit,
            SuspendActionOf::Finish(r) => SuspendActionOf::Finish(
                match r {
                    Ok(state) => Ok(*state),
                    Err(e) => Err(e@),
                },
            ),
        }
    }
}

/// The command behind a pause or resume.
pub open spec fn suspend_command(resume: bool) -> LifecycleCommand {
    if resume {
        LifecycleCommand::Resume
    } else {
        LifecycleCommand::Pause
    }
}

/// A pause or resume of `name` before anything has been asked.
pub open spec fn suspend_begin(
    name: Seq<char>,
    resume: bool,
    cause: Option<CauseModel>,
    os: OsId,
) -> SuspendModel {
    SuspendModel {
        name,
        resume,
        cause,
        os,
        phase: SuspendPhase::Row,
        prior: LifecycleState::Registered,
        level: SupportLevel::Unsupported,
    }
}

/// Whether an answer is one to what is waited for.
pub open spec fn suspend_fits(run: SuspendModel, event: SuspendEventModel) -> bool {
    match run.phase {
        SuspendPhase::Row | SuspendPhase::Settled => event is Row,
        SuspendPhase::Support => event is Support,
        SuspendPhase::LogDir => event is LogDir,
        SuspendPhase::Signalled => event is Signalled,
        SuspendPhase::Entered => event is Transitioned,
        SuspendPhase::Done => false,
    }
}

/// What is said of a pause or resume that nothing enforces.
pub open spec fn best_effort_text(name: Seq<char>, os: OsId) -> Seq<char> {
    Capability::Pause.label() + " is best-effort for '"@ + name + "' on "@ + os.label()
        + " (adapter-cooperative); the process may keep running"@
}

/// Why the instance changes state: the given cause, else the operator's command,
/// else, where nothing enforces it, that.
pub open spec fn suspend_cause(run: SuspendModel) -> CauseModel {
    match run.cause {
        Some(cause) => cause,
        None => if run.level == SupportLevel::BestEffort {
            if run.resume {
                CauseModel::ResumeBestEffort { detail: best_effort_text(run.name, run.os) }
            } else {
                CauseModel::PauseBestEffort { detail: best_effort_text(run.name, run.os) }
            }
        } else {
            CauseModel::Command { command: suspend_command(run.resume).label() }
        },
    }
}

/// The state a pause or resume leads to.
pub open spec fn suspend_target(resume: bool) -> LifecycleState {
    if resume {
        LifecycleState::Running
    } else {
        LifecycleState::Paused
    }
}

/// It ends with `e`.
pub open spec fn suspend_ends(run: SuspendModel, e: EngineErrorModel) -> (
    SuspendModel,
    SuspendActionModel,
) {
    (SuspendModel { phase: SuspendPhase::Done, ..run }, SuspendActionOf::Finish(Err(e)))
}

/// It goes on to wait for `phase`, having asked for `action`.
pub open spec fn suspend_asks(
    run: SuspendModel,
    phase: SuspendPhase,
    action: SuspendActionModel,
) -> (SuspendModel, SuspendActionModel) {
    (SuspendModel { phase, ..run }, action)
}

/// It asks for the transition.
pub open spec fn suspend_enters(run: SuspendModel) -> (SuspendModel, SuspendActionModel) {
    suspend_asks(
        run,
        SuspendPhase::Entered,
        SuspendActionOf::Transition {
            prior: run.prior,
            new: suspend_target(run.resume),
            cause: suspend_cause(run),
        },
    )
}

/// What a pause or resume does with an answer: the table of its steps.
#[verifier::opaque]
pub open spec fn suspend_next(
    run: SuspendModel,
    event: SuspendEventModel,
    supervisor: SupervisorModel,
) -> (SuspendModel, SuspendActionModel) {
    let name = run.name;
    match (run.phase, event) {
        (SuspendPhase::Row, SuspendEventOf::Row(r)) => match r {
            Err(e) => suspend_ends(run, registry_to_engine_spec(e)),
            Ok(state) => match next_state_spec(state, suspend_command(run.resume)) {
                Err(e) => suspend_ends(run, EngineErrorOf::InvalidTransition(e)),
                Ok(_) => suspend_asks(
                    SuspendModel { prior: state, ..run },
                    SuspendPhase::Support,
                    SuspendActionOf::ReadSupport(Capability::Pause),
                ),
            },
        },
        (SuspendPhase::Support, SuspendEventOf::Support(r)) => match r {
            Err(e) => suspend_ends(run, registry_to_engine_spec(e)),
            Ok(SupportLevel::Unsupported) => suspend_ends(
                run,
                EngineErrorOf::CapabilityUnsupported {
                    name,
                    capability: Capability::Pause.label(),
                    os: run.os.label(),
                    level: SupportLevel::Unsupported.label(),
                },
            ),
            Ok(level) => suspend_asks(
                SuspendModel { level, ..run },
                SuspendPhase::LogDir,
                SuspendActionOf::EnsureLogDir,
            ),
        },
        (SuspendPhase::LogDir, SuspendEventOf::LogDir(r)) => match r {
            Err(e) => suspend_ends(
                run,
                EngineErrorOf::Log { name, path: e.path, detail: e.detail },
            ),
            Ok(_) => if run.level == SupportLevel::Guaranteed && supervisor.running.contains_key(
                name,
            ) {
                suspend_asks(
                    run,
                    SuspendPhase::Signalled,
                    SuspendActionOf::Signal { resume: run.resume },
                )
            } else {
                suspend_enters(run)
            },
        },
        (SuspendPhase::Signalled, SuspendEventOf::Signalled(r)) => match r {
            Err(source) => suspend_ends(run, EngineErrorOf::Backend { name, source }),
            Ok(_) => suspend_enters(run),
        },
        (SuspendPhase::Entered, SuspendEventOf::Transitioned(r)) => match r {
            Err(e) => suspend_ends(run, e),
            Ok(_) => suspend_asks(run, SuspendPhase::Settled, SuspendActionOf::ReadRow),
        },
        (SuspendPhase::Settled, SuspendEventOf::Row(r)) => match r {
            Err(e) => suspend_ends(run, registry_to_engine_spec(e)),
            Ok(state) => (
                SuspendModel { phase: SuspendPhase::Done, ..run },
                SuspendActionOf::Finish(Ok(state)),
            ),
        },
        _ => (run, SuspendActionOf::Misfit),
    }
}

impl Suspend {
    /// The instance that is paused or resumed.
    pub fn name(&self) -> (r: &InstanceName)
        ensures
            r@ == self@.name,
    {
        &self.name
    }

    fn begin(name: InstanceName, resume: bool, cause: Option<TransitionCause>, os: OsId) -> (r:
        Self)
        ensures
            r@ == suspend_begin(name@, resume, cause_option(cause), os),
    {
        Suspend {
            name,
            resume,
            cause,
            os,
            phase: SuspendPhase::Row,
            prior: LifecycleState::Registered,
            level: SupportLevel::Unsupported,
        }
    }

    fn ends(&mut self, e: EngineError) -> (r: SuspendAction)
        ensures
            (final(self)@, r@) == suspend_ends(old(self)@, e@),
    {
        self.phase = SuspendPhase::Done;
        SuspendActionOf::Finish(Err(e))
    }

    fn asks(&mut self, phase: SuspendPhase, action: SuspendAction) -> (r: SuspendAction)
        ensures
            (final(self)@, r@) == suspend_asks(old(self)@, phase, action@),
    {
        self.phase = phase;
        action
    }

    fn command(&self) -> (r: LifecycleCommand)
        ensures
            r == suspend_command(self@.resume),
    {
        if self.resume {
            LifecycleCommand::Resume
        } else {
            LifecycleCommand::Pause
        }
    }

    fn because(&self) -> (r: TransitionCause)
        ensures
            r@ == suspend_cause(self@),
    {
        match &self.cause {
            Some(cause) => cause.duplicate(),
            None => {
                if self.level == SupportLevel::BestEffort {
                    let mut detail = Capability::Pause.as_str().to_owned();
                    detail.append(" is best-effort for '");
                    detail.append(self.name.as_str());
                    detail.append("' on ");
                    detail.append(self.os.as_str());
                    detail.append(" (adapter-cooperative); the process may keep running");
                    if self.resume {
                        TransitionCause::resume_best_effort(detail)
                    } else {
                        TransitionCause::pause_best_effort(detail)
                    }
                } else {
                    TransitionCause::command(self.command().as_str())
                }
            },
        }
    }

    fn enters(&mut self) -> (r: SuspendAction)
        ensures
            (final(self)@, r@) == suspend_enters(old(self)@),
    {
        let cause = self.because();
        let prior = self.prior;
        let new = if self.resume {
            LifecycleState::Running
        } else {
            LifecycleState::Paused
        };
        self.asks(SuspendPhase::Entered, SuspendActionOf::Transition { prior, new, cause })
    }
}

impl Supervisor {
    /// Begin to pause an instance on request. The name is checked; nothing else is
    /// done. The first action is [`SuspendActionOf::ReadRow`].
    pub fn pause(&self, name: &str, os: OsId) -> (r: Result<Suspend, EngineError>)
        ensures
            match r {
                Ok(run) => name_fault(name@) is None && run@ == suspend_begin(
                    name@,
                    false,
                    None,
                    os,
                ),
                Err(e) => name_fault(name@) matches Some(reason) && e@
                    == (EngineErrorModel::InvalidName { name: name@, reason }),
            },
    {
        match InstanceName::new(name) {
            Ok(name) => Ok(Suspend::begin(name, false, None, os)),
            Err(reason) => Err(EngineErrorOf::InvalidName { name: name.to_owned(), reason }),
        }
    }

    /// Begin to pause an instance for a cause other than a request.
    pub fn pause_with_cause(&self, name: &InstanceName, cause: TransitionCause, os: OsId) -> (r:
        Suspend)
        ensures
            r@ == suspend_begin(name@, false, Some(cause@), os),
    {
        Suspend::begin(name.clone(), false, Some(cause), os)
    }

    /// Begin to resume an instance on request. The name is checked; nothing else is
    /// done. The first action is [`SuspendActionOf::ReadRow`].
    pub fn resume(&self, name: &str, os: OsId) -> (r: Result<Suspend, EngineError>)
        ensures
            match r {
                Ok(run) => name_fault(name@) is None && run@ == suspend_begin(
                    name@,
                    true,
                    None,
                    os,
                ),
                Err(e) => name_fault(name@) matches Some(reason) && e@
                    == (EngineErrorModel::InvalidName { name: name@, reason }),
            },
    {
        match InstanceName::new(name) {
            Ok(name) => Ok(Suspend::begin(name, true, None, os)),
            Err(reason) => Err(EngineErrorOf::InvalidName { name: name.to_owned(), reason }),
        }
    }

    /// Take the answer to what `run` asked for and say what to do next. What is
    /// supervised does not change.
    #[verifier::rlimit(40)]
    pub fn suspend_step(&self, run: &mut Suspend, event: SuspendEvent) -> (r: SuspendAction)
        requires
            self.wf(),
        ensures
            (final(run)@, r@) == suspend_next(old(run)@, event@, self@),
    {
        proof {
            reveal(suspend_next);
        }
        match (run.phase, event) {
            (SuspendPhase::Row, SuspendEventOf::Row(r)) => match r {
                Err(e) => run.ends(registry_to_engine(e)),
                Ok(state) => match next_state(state, run.command()) {
                    Err(e) => run.ends(EngineErrorOf::InvalidTransition(e)),
                    Ok(_) => {
                        run.prior = state;
                        run.asks(
                            SuspendPhase::Support,
                            SuspendActionOf::ReadSupport(Capability::Pause),
                        )
                    },
                },
            },
            (SuspendPhase::Support, SuspendEventOf::Support(r)) => match r {
                Err(e) => run.ends(registry_to_engine(e)),
                Ok(SupportLevel::Unsupported) => {
                    let failure = EngineErrorOf::CapabilityUnsupported {
                        name: run.name.to_text(),
                        capability: Capability::Pause.as_str().to_owned(),
                        os: run.os.as_str().to_owned(),
                        level: SupportLevel::Unsupported.as_str().to_owned(),
                    };
                    run.ends(failure)
                },
                Ok(level) => {
                    run.level = level;
                    run.asks(SuspendPhase::LogDir, SuspendActionOf::EnsureLogDir)
                },
            },
            (SuspendPhase::LogDir, SuspendEventOf::LogDir(r)) => match r {
                Err(e) => {
                    let name = run.name.to_text();
                    run.ends(EngineErrorOf::Log { name, path: e.path, detail: e.detail })
                },
                Ok(_) => {
                    if run.level == SupportLevel::Guaranteed && self.is_held(&run.name) {
                        let resume = run.resume;
                        run.asks(SuspendPhase::Signalled, SuspendActionOf::Signal { resume })
                    } else {
                        run.enters()
                    }
                },
            },
            (SuspendPhase::Signalled, SuspendEventOf::Signalled(r)) => match r {
                Err(source) => {
                    let name = run.name.to_text();
                    run.ends(EngineErrorOf::Backend { name, source })
                },
                Ok(_) => run.enters(),
            },
            (SuspendPhase::Entered, SuspendEventOf::Transitioned(r)) => match r {
                Err(e) => run.ends(e),
                Ok(_) => run.asks(SuspendPhase::Settled, SuspendActionOf::ReadRow),
            },
            (SuspendPhase::Settled, SuspendEventOf::Row(r)) => match r {
                Err(e) => run.ends(registry_to_engine(e)),
                Ok(state) => {
                    run.phase = SuspendPhase::Done;
                    SuspendActionOf::Finish(Ok(state))
                },
            },
            _ => SuspendActionOf::Misfit,
        }
    }
}

/// The pause or resume after its first `n` answers, where `held[i]` is what is
/// supervised when answer `i` comes.
pub open spec fn suspend_at(
    run: SuspendModel,
    answers: Seq<SuspendEventModel>,
    held: Seq<SupervisorModel>,
    n: int,
) -> SuspendModel
    decreases n,
{
    if n <= 0 {
        run
    } else {
        suspend_next(suspend_at(run, answers, held, n - 1), answers[n - 1], held[n - 1]).0
    }
}

/// What is asked for upon answer number `i`, counted from zero.
pub open spec fn suspend_action_at(
    run: SuspendModel,
    answers: Seq<SuspendEventModel>,
    held: Seq<SupervisorModel>,
    i: int,
) -> SuspendActionModel {
    suspend_next(suspend_at(run, answers, held, i), answers[i], held[i]).1
}

/// Whether each answer is one to what was asked for.
pub open spec fn suspend_answered(
    run: SuspendModel,
    answers: Seq<SuspendEventModel>,
    held: Seq<SupervisorModel>,
) -> bool {
    &&& held.len() == answers.len()
    &&& forall|i: int|
        0 <= i < answers.len() ==> suspend_fits(
            suspend_at(run, answers, held, i),
            #[trigger] answers[i],
        )
}

/// Whether a phase comes before anything is done.
pub open spec fn suspend_checking(phase: SuspendPhase) -> bool {
    phase == SuspendPhase::Row || phase == SuspendPhase::Support || phase == SuspendPhase::LogDir
}

proof fn lemma_suspend_step(
    run: SuspendModel,
    event: SuspendEventModel,
    supervisor: SupervisorModel,
)
    requires
        suspend_fits(run, event),
    ensures
        ({
            let (after, asked) = suspend_next(run, event, supervisor);
            &&& after.resume == run.resume
            &&& suspend_checking(after.phase) ==> suspend_checking(run.phase) && !(asked is
                Transition) && !(asked is Signal)
            &&& asked matches SuspendActionOf::Transition { prior, new, .. } ==> {
                &&& prior == run.prior
                &&& new == suspend_target(run.resume)
                &&& {
                    ||| event matches SuspendEventOf::Signalled(Ok(_))
                    ||| run.phase == SuspendPhase::LogDir && run.level != SupportLevel::Guaranteed
                    ||| run.phase == SuspendPhase::LogDir && !supervisor.running.contains_key(
                        run.name,
                    )
                }
            }
            &&& asked is Signal ==> run.phase == SuspendPhase::LogDir && run.level
                == SupportLevel::Guaranteed
        }),
{
    reveal(suspend_next);
}

proof fn lemma_suspend_step_at(
    run: SuspendModel,
    answers: Seq<SuspendEventModel>,
    held: Seq<SupervisorModel>,
    i: int,
)
    requires
        suspend_answered(run, answers, held),
        0 <= i < answers.len(),
    ensures
        suspend_fits(suspend_at(run, answers, held, i), answers[i]),
        (
        suspend_at(run, answers, held, i + 1),
        suspend_action_at(run, answers, held, i),
        ) == suspend_next(suspend_at(run, answers, held, i), answers[i], held[i]),
{
    assert(suspend_fits(suspend_at(run, answers, held, i), answers[i]));
}

proof fn lemma_suspend_was_checking(
    run: SuspendModel,
    answers: Seq<SuspendEventModel>,
    held: Seq<SupervisorModel>,
    i: int,
    j: int,
)
    requires
        suspend_answered(run, answers, held),
        0 <= j <= i <= answers.len(),
        suspend_checking(suspend_at(run, answers, held, i).phase),
    ensures
        suspend_checking(suspend_at(run, answers, held, j).phase),
    decreases i - j,
{
    if j < i {
        lemma_suspend_step_at(run, answers, held, i - 1);
        lemma_suspend_step(suspend_at(run, answers, held, i - 1), answers[i - 1], held[i - 1]);
        lemma_suspend_was_checking(run, answers, held, i - 1, j);
    }
}

/// A pause or resume that is refused while it is still asking changes nothing: up
/// to and with its end it has signalled no process and asked for no transition.
/// That covers an unsupported capability and an invalid command.
pub proof fn law_refused_suspend_changes_nothing(
    run: SuspendModel,
    answers: Seq<SuspendEventModel>,
    held: Seq<SupervisorModel>,
    i: int,
    j: int,
)
    requires
        suspend_answered(run, answers, held),
        0 <= j <= i < answers.len(),
        suspend_checking(suspend_at(run, answers, held, i).phase),
        suspend_action_at(run, answers, held, i) is Finish,
    ensures
        !(suspend_action_at(run, answers, held, j) is Transition),
        !(suspend_action_at(run, answers, held, j) is Signal),
{
    if j < i {
        lemma_suspend_was_checking(run, answers, held, i, j + 1);
        lemma_suspend_step_at(run, answers, held, j);
        lemma_suspend_step(suspend_at(run, answers, held, j), answers[j], held[j]);
    }
}

/// Where pausing is guaranteed and the process is held, the state changes only
/// upon the answer that the process was signalled.
pub proof fn law_guaranteed_suspend_signals_first(
    run: SuspendModel,
    answers: Seq<SuspendEventModel>,
    held: Seq<SupervisorModel>,
    i: int,
)
    requires
        suspend_answered(run, answers, held),
        0 <= i < answers.len(),
        suspend_action_at(run, answers, held, i) is Transition,
        suspend_at(run, answers, held, i).level == SupportLevel::Guaranteed,
        held[i].running.contains_key(suspend_at(run, answers, held, i).name),
    ensures
        answers[i] matches SuspendEventOf::Signalled(Ok(_)),
{
    lemma_suspend_step_at(run, answers, held, i);
    lemma_suspend_step(suspend_at(run, answers, held, i), answers[i], held[i]);
}

/// Where pausing is only best-effort, no process is ever signalled.
pub proof fn law_best_effort_never_signals(
    run: SuspendModel,
    answers: Seq<SuspendEventModel>,
    held: Seq<SupervisorModel>,
    i: int,
)
    requires
        suspend_answered(run, answers, held),
        0 <= i < answers.len(),
        suspend_at(run, answers, held, i).level == SupportLevel::BestEffort,
    ensures
        !(suspend_action_at(run, answers, held, i) is Signal),
{
    lemma_suspend_step_at(run, answers, held, i);
    lemma_suspend_step(suspend_at(run, answers, held, i), answers[i], held[i]);
}

/// The only transition a pause asks for leads to `paused`, and a resume to
/// `running`.
pub proof fn law_suspend_leads_where_it_says(
    run: SuspendModel,
    answers: Seq<SuspendEventModel>,
    held: Seq<SupervisorModel>,
    i: int,
)
    requires
        suspend_answered(run, answers, held),
        0 <= i < answers.len(),
    ensures
        suspend_action_at(run, answers, held, i) matches SuspendActionOf::Transition { new, .. }
            ==> new == suspend_target(run.resume),
{
    lemma_suspend_step_at(run, answers, held, i);
    lemma_suspend_step(suspend_at(run, answers, held, i), answers[i], held[i]);
    lemma_suspend_direction(run, answers, held, i);
}

proof fn lemma_suspend_direction(
    run: SuspendModel,
    answers: Seq<SuspendEventModel>,
    held: Seq<SupervisorModel>,
    n: int,
)
    requires
        suspend_answered(run, answers, held),
        0 <= n <= answers.len(),
    ensures
        suspend_at(run, answers, held, n).resume == run.resume,
    decreases n,
{
    if n > 0 {
        lemma_suspend_direction(run, answers, held, n - 1);
        lemma_suspend_step_at(run, answers, held, n - 1);
        lemma_suspend_step(suspend_at(run, answers, held, n - 1), answers[n - 1], held[n - 1]);
    }
}

/// What a pause or resume does, from its beginning, whatever its cause: it is refused where the
/// instance is not running (or, for a resume, not paused), and where pausing is unsupported. Where
/// pausing is guaranteed and the process is held, the process is signalled, in the direction of
/// the request, and the state changes upon that; elsewhere the state changes at once. The
/// change is from the state that was read to `paused`, or back to `running`, for the
/// cause that was given, or else for the command, or for what best-effort support makes of it.
#[verifier::rlimit(60)]
#[verifier::spinoff_prover]
pub proof fn law_a_suspend_does_what_was_answered(
    name: Seq<char>,
    resume: bool,
    cause: Option<CauseModel>,
    os: OsId,
    state: LifecycleState,
    level: SupportLevel,
    settled: LifecycleState,
    held: SupervisorModel,
)
    ensures
        ({
            let begun = suspend_begin(name, resume, cause, os);
            let found = suspend_next(begun, SuspendEventModel::Row(Ok(state)), held);
            let told = suspend_next(found.0, SuspendEventModel::Support(Ok(level)), held);
            let ready = suspend_next(told.0, SuspendEventModel::LogDir(Ok(())), held);
            let signalled = suspend_next(ready.0, SuspendEventModel::Signalled(Ok(())), held);
            let signals = level == SupportLevel::Guaranteed && held.running.contains_key(name);
            let entering = if signals {
                signalled
            } else {
                ready
            };
            let entered = suspend_next(
                entering.0,
                SuspendEventModel::Transitioned(Ok(())),
                held,
            );
            let ended = suspend_next(entered.0, SuspendEventModel::Row(Ok(settled)), held);
            let wanted = if resume {
                LifecycleState::Paused
            } else {
                LifecycleState::Running
            };
            let detail = "pause"@ + " is best-effort for '"@ + name + "' on "@ + os.label()
                + " (adapter-cooperative); the process may keep running"@;
            &&& state != wanted ==> found.1 == SuspendActionModel::Finish(
                Err(
                    EngineErrorModel::InvalidTransition(
                        LifecycleError::InvalidTransition {
                            from: state,
                            command: if resume {
                                LifecycleCommand::Resume
                            } else {
                                LifecycleCommand::Pause
                            },
                        },
                    ),
                ),
            )
            &&& state == wanted ==> {
                &&& found.1 == SuspendActionModel::ReadSupport(Capability::Pause)
                &&& level == SupportLevel::Unsupported ==> told.1 == SuspendActionModel::Finish(
                    Err(
                        EngineErrorModel::CapabilityUnsupported {
                            name,
                            capability: "pause"@,
                            os: os.label(),
                            level: "unsupported"@,
                        },
                    ),
                )
                &&& level != SupportLevel::Unsupported ==> {
                    &&& told.1 is EnsureLogDir
                    &&& signals ==> ready.1 == SuspendActionModel::Signal { resume }
                    &&& entering.1 == SuspendActionModel::Transition {
                        prior: wanted,
                        new: if resume {
                            LifecycleState::Running
                        } else {
                            LifecycleState::Paused
                        },
                        cause: match cause {
                            Some(given) => given,
                            None => if level == SupportLevel::Guaranteed {
                                CauseModel::Command {
                                    command: if resume {
                                        "resume"@
                                    } else {
                                        "pause"@
                                    },
                                }
                            } else if resume {
                                CauseModel::ResumeBestEffort { detail }
                            } else {
                                CauseModel::PauseBestEffort { detail }
                            },
                        },
                    }
                    &&& entered.1 is ReadRow
                    &&& ended.1 == SuspendActionModel::Finish(Ok(settled))
                }
            }
        }),
{
    reveal(suspend_next);
}

/// A pause or resume ends with the first thing that fails, and says what failed: a row or a
/// support level that could not be read, a log directory that could not be made, a signal that
/// could not be sent, a transition that could not be made.
#[verifier::rlimit(40)]
#[verifier::spinoff_prover]
pub proof fn law_a_suspend_ends_with_what_fails(
    name: Seq<char>,
    resume: bool,
    cause: Option<CauseModel>,
    os: OsId,
    level: SupportLevel,
    held: SupervisorModel,
    unread: RegistryErrorOf<Seq<char>>,
    unlogged: LogFailureOf<Seq<char>>,
    unsignalled: BackendErrorOf<Seq<char>>,
    unmade: EngineErrorModel,
)
    requires
        level != SupportLevel::Unsupported,
    ensures
        ({
            let wanted = if resume {
                LifecycleState::Paused
            } else {
                LifecycleState::Running
            };
            let begun = suspend_begin(name, resume, cause, os);
            let found = suspend_next(begun, SuspendEventModel::Row(Ok(wanted)), held);
            let told = suspend_next(found.0, SuspendEventModel::Support(Ok(level)), held);
            let ready = suspend_next(told.0, SuspendEventModel::LogDir(Ok(())), held);
            let signalled = suspend_next(ready.0, SuspendEventModel::Signalled(Ok(())), held);
            let signals = level == SupportLevel::Guaranteed && held.running.contains_key(name);
            let entering = if signals {
                signalled
            } else {
                ready
            };
            &&& suspend_next(begun, SuspendEventModel::Row(Err(unread)), held).1
                == SuspendActionModel::Finish(Err(registry_to_engine_spec(unread)))
            &&& suspend_next(found.0, SuspendEventModel::Support(Err(unread)), held).1
                == SuspendActionModel::Finish(Err(registry_to_engine_spec(unread)))
            &&& suspend_next(told.0, SuspendEventModel::LogDir(Err(unlogged)), held).1
                == SuspendActionModel::Finish(
                Err(
                    EngineErrorModel::Log { name, path: unlogged.path, detail: unlogged.detail },
                ),
            )
            &&& signals ==> suspend_next(
                ready.0,
                SuspendEventModel::Signalled(Err(unsignalled)),
                held,
            ).1 == SuspendActionModel::Finish(
                Err(EngineErrorModel::Backend { name, source: unsignalled }),
            )
            &&& suspend_next(entering.0, SuspendEventModel::Transitioned(Err(unmade)), held).1
                == SuspendActionModel::Finish(Err(unmade))
        }),
{
    reveal(suspend_next);
}

/// Where a run is after some answers, by those answers alone.
proof fn lemma_suspend_follows_the_answers(
    name: Seq<char>,
    resume: bool,
    cause: Option<CauseModel>,
    os: OsId,
    answers: Seq<SuspendEventModel>,
    held: Seq<SupervisorModel>,
    n: int,
)
    requires
        suspend_answered(suspend_begin(name, resume, cause, os), answers, held),
        0 <= n <= answers.len(),
    ensures
        ({
            let run = suspend_at(suspend_begin(name, resume, cause, os), answers, held, n);
            &&& run.name == name
            &&& run.resume == resume
            &&& match run.phase {
                SuspendPhase::Row => n == 0,
                SuspendPhase::Support => n == 1,
                SuspendPhase::LogDir => n == 2 && answers[1] == SuspendEventModel::Support(
                    Ok(run.level),
                ),
                SuspendPhase::Signalled => n == 3 && answers[1] == SuspendEventModel::Support(
                    Ok(run.level),
                ) && suspend_action_at(
                    suspend_begin(name, resume, cause, os),
                    answers,
                    held,
                    2,
                ) == SuspendActionModel::Signal { resume },
                _ => n > 0,
            }
        }),
    decreases n,
{
    reveal(suspend_next);
    if n > 0 {
        let run = suspend_begin(name, resume, cause, os);
        lemma_suspend_follows_the_answers(name, resume, cause, os, answers, held, n - 1);
        lemma_suspend_step_at(run, answers, held, n - 1);
    }
}

/// Where a pause or resume was answered that pausing is guaranteed, and the process is held, every
/// change of state it asks for comes upon the answer that the process was signalled, to a
/// signal in the direction of the request, whatever the cause.
pub proof fn law_an_answered_guarantee_is_kept(
    name: Seq<char>,
    resume: bool,
    cause: Option<CauseModel>,
    os: OsId,
    answers: Seq<SuspendEventModel>,
    held: Seq<SupervisorModel>,
    i: int,
)
    requires
        suspend_answered(suspend_begin(name, resume, cause, os), answers, held),
        0 <= i < answers.len(),
        suspend_action_at(suspend_begin(name, resume, cause, os), answers, held, i) is Transition,
        answers[1] == SuspendEventModel::Support(Ok(SupportLevel::Guaranteed)),
        held[i].running.contains_key(name),
    ensures
        answers[i] matches SuspendEventOf::Signalled(Ok(_)),
        i == 3,
        suspend_action_at(suspend_begin(name, resume, cause, os), answers, held, i - 1)
            == (SuspendActionModel::Signal { resume }),
{
    reveal(suspend_next);
    lemma_suspend_follows_the_answers(name, resume, cause, os, answers, held, i);
    lemma_suspend_step_at(suspend_begin(name, resume, cause, os), answers, held, i);
}

/// Where a pause or resume was answered that pausing is best-effort, no process is signalled.
pub proof fn law_an_answered_best_effort_signals_nothing(
    name: Seq<char>,
    resume: bool,
    cause: Option<CauseModel>,
    os: OsId,
    answers: Seq<SuspendEventModel>,
    held: Seq<SupervisorModel>,
    i: int,
)
    requires
        suspend_answered(suspend_begin(name, resume, cause, os), answers, held),
        0 <= i < answers.len(),
        suspend_action_at(suspend_begin(name, resume, cause, os), answers, held, i) is Signal,
    ensures
        answers[1] == SuspendEventModel::Support(Ok(SupportLevel::Guaranteed)),
        held[i].running.contains_key(name),
{
    reveal(suspend_next);
    lemma_suspend_follows_the_answers(name, resume, cause, os, answers, held, i);
    lemma_suspend_step_at(suspend_begin(name, resume, cause, os), answers, held, i);
}

/// A pause or resume takes the answer to what it asked for and no other: any other answer changes nothing,
/// and after its end every answer is such a one.
#[verifier::spinoff_prover]
#[verifier::rlimit(60)]
pub proof fn law_a_suspend_takes_only_its_answer(
    held: SupervisorModel,
    run: SuspendModel,
    event: SuspendEventModel,
    later: SuspendEventModel,
)
    ensures
        ({
            let step = suspend_next(run, event, held);
            &&& step.1 is Misfit <==> !suspend_fits(run, event)
            &&& !suspend_fits(run, event) ==> step.0 == run
            &&& step.1 is Finish ==> suspend_next(step.0, later, held).1 is Misfit
        }),
{
    reveal(suspend_next);
}

} // verus!
