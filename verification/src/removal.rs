//! Removing an instance that may have a process behind it.
//!
//! A [`Removal`] stops the instance first, where it has to be stopped, and then removes it.
//! It asks for one action at a time and takes the answer. What it asks for on behalf of the
//! stop or of the removal proper is carried out as a stop or a removal on its own would
//! have it. Where the process cannot be stopped nothing is removed, and an instance that
//! had already been said to be stopping is said to be what it was again.
use crate::error::{
    stop_error_to_registry, stop_error_to_registry_spec, EngineErrorModel, EngineErrorOf,
    RegistryError, RegistryErrorModel, RegistryErrorOf, StoreErrorOf,
};
use crate::event::{CauseModel, TransitionCause, TransitionCauseOf};
use crate::lifecycle::LifecycleState;
use crate::name::{name_fault, InstanceName};
use crate::registry::Registry;
use crate::remove::{
    remove_next, Remove, RemoveActionModel, RemoveActionOf, RemoveDisposition, RemoveEventModel,
    RemoveEventOf, RemoveModel, RemovePhase,
};
use crate::stop::{
    stop_begin, stop_effect, stop_next, Stop, StopActionModel, StopActionOf, StopEventModel,
    StopEventOf, StopModel, StopPhase,
};
use crate::supervisor::{Supervisor, SupervisorModel};
use std::path::PathBuf;
use vstd::prelude::*;

verus! {

/// The command that a removal is.
pub const REMOVE_COMMAND: &'static str = "remove";

/// Whether an instance is to be stopped before it is removed: where a process stands or may
/// stand behind it and the removal will go through.
pub open spec fn stops_first(state: Option<LifecycleState>, held: bool, force: bool) -> bool {
    match state {
        Some(state) => (state.live() || held) && (force || state != LifecycleState::Running),
        None => false,
    }
}

/// Whether an instance is to be stopped before it is removed. `state` is its stored state,
/// if it has one, and `held` whether its process is supervised.
pub fn stop_before_removal(state: Option<LifecycleState>, held: bool, force: bool) -> (r: bool)
    ensures
        r == stops_first(state, held, force),
{
    match state {
        Some(state) => (state.is_live() || held) && (force || state.is_removable_without_force()),
        None => false,
    }
}

/// What a [`Removal`] is at.
#[derive(Clone, Copy, Debug, PartialEq, Eq, Structural)]
pub enum RemovalPhase {
    /// The stored row.
    Row,
    /// The stop.
    Stopping,
    /// The taking back of a stop that failed.
    PuttingBack,
    /// The removal proper.
    Removing,
    /// Nothing; it has ended.
    Done,
}

/// A removal under way.
pub struct Removal {
    phase: RemovalPhase,
    stop: Stop,
    remove: Remove,
    failure: Option<RegistryError>,
}

/// The model of a [`Removal`].
pub struct RemovalModel {
    /// What it is at.
    pub phase: RemovalPhase,
    /// The stop, begun or not.
    pub stop: StopModel,
    /// The removal proper, begun or not.
    pub remove: RemoveModel,
    /// Why the instance could not be stopped, while that is taken back.
    pub failure: Option<RegistryErrorModel>,
}

impl View for Removal {
    type V = RemovalModel;

    closed spec fn view(&self) -> RemovalModel {
        RemovalModel {
            phase: self.phase,
            stop: self.stop@,
            remove: self.remove@,
            failure: match self.failure {
                Some(e) => Some(e@),
                None => None,
            },
        }
    }
}

/// The answer to an action of a [`Removal`].
pub enum RemovalEventOf<S> {
    /// The state in the stored row, if there is one.
    Row(Result<Option<LifecycleState>, StoreErrorOf<S>>),
    /// The answer to what the stop asked for.
    Stop(StopEventOf<S>),
    /// The instance has been put back, as far as that worked.
    PutBack,
    /// The answer to what the removal proper asked for.
    Remove(RemoveEventOf<S>),
}

/// The answer to an action of a [`Removal`].
pub type RemovalEvent = RemovalEventOf<String>;

/// The model of a [`RemovalEvent`].
pub type RemovalEventModel = RemovalEventOf<Seq<char>>;

impl View for RemovalEventOf<String> {
    type V = RemovalEventModel;

    open spec fn view(&self) -> RemovalEventModel {
        match self {
            RemovalEventOf::Row(r) => RemovalEventOf::Row(
                match r {
                    Ok(found) => Ok(*found),
                    Err(e) => Err(e@),
                },
            ),
            RemovalEventOf::Stop(event) => RemovalEventOf::Stop(event@),
            RemovalEventOf::PutBack => RemovalEventOf::PutBack,
            RemovalEventOf::Remove(event) => RemovalEventOf::Remove(event@),
        }
    }
}

/// What a [`Removal`] asks for.
pub enum RemovalActionOf<S> {
    /// Look the instance up.
    FindRow,
    /// What the stop asks for.
    Stop(StopActionOf<S>),
    /// Record a change of state: the instance is again what it was before the stop.
    PutBack {
        /// The state left.
        prior: LifecycleState,
        /// The state entered.
        new: LifecycleState,
        /// Why.
        cause: TransitionCauseOf<S>,
    },
    /// What the removal proper asks for.
    Remove(RemoveActionOf<S>),
    /// Nothing: the answer does not fit what was asked.
    Misfit,
    /// Nothing more: it has ended.
    Finish(Result<(), RegistryErrorOf<S>>),
}

/// What a [`Removal`] asks for.
pub type RemovalAction = RemovalActionOf<String>;

/// The model of a [`RemovalAction`].
pub type RemovalActionModel = RemovalActionOf<Seq<char>>;

impl View for RemovalActionOf<String> {
    type V = RemovalActionModel;

    open spec fn view(&self) -> RemovalActionModel {
        match self {
            RemovalActionOf::FindRow => RemovalActionOf::FindRow,
            RemovalActionOf::Stop(action) => RemovalActionOf::Stop(action@),
            RemovalActionOf::PutBack { prior, new, cause } => RemovalActionOf::PutBack {
                prior: *prior,
                new: *new,
                cause: cause@,
            },
            RemovalActionOf::Remove(action) => RemovalActionOf::Remove(action@),
            RemovalActionOf::Misfit => RemovalActionOf::Misfit,
            RemovalActionOf::Finish(r) => RemovalActionOf::Finish(
                match r {
                    Ok(_) => Ok(()),
                    Err(e) => Err(e@),
                },
            ),
        }
    }
}

/// A removal of `name` before anything has been asked.
pub open spec fn removal_begin(
    name: Seq<char>,
    disposition: RemoveDisposition,
    force: bool,
    confirm_timeout_secs: u64,
) -> RemovalModel {
    RemovalModel {
        phase: RemovalPhase::Row,
        stop: stop_begin(name, None, None, confirm_timeout_secs),
        remove: RemoveModel { name, disposition, force, phase: RemovePhase::Row },
        failure: None,
    }
}

/// Whether a stop that fails has to be taken back: the instance may have been said to be
/// stopping, and its process has not been killed. A kill that was not confirmed is settled by
/// a later stop and leaves the instance stopping.
pub open spec fn takes_back(phase: StopPhase, e: EngineErrorModel) -> bool {
    (phase == StopPhase::EnterStopping || phase == StopPhase::Stopped) && !(e is StopUnconfirmed)
}

/// What follows from what the removal proper asks for.
pub open spec fn removal_removes(
    run: RemovalModel,
    step: (RemoveModel, RemoveActionModel),
) -> (RemovalModel, RemovalActionModel) {
    match step.1 {
        RemoveActionOf::Finish(outcome) => (
            RemovalModel { phase: RemovalPhase::Done, remove: step.0, ..run },
            RemovalActionOf::Finish(outcome),
        ),
        RemoveActionOf::Misfit => (run, RemovalActionOf::Misfit),
        action => (
            RemovalModel { phase: RemovalPhase::Removing, remove: step.0, ..run },
            RemovalActionOf::Remove(action),
        ),
    }
}

/// What follows from what the stop asks for.
pub open spec fn removal_stops(run: RemovalModel, step: (StopModel, StopActionModel)) -> (
    RemovalModel,
    RemovalActionModel,
) {
    match step.1 {
        StopActionOf::Finish(Ok(_)) => (
            RemovalModel { phase: RemovalPhase::Removing, stop: step.0, ..run },
            RemovalActionOf::Remove(RemoveActionOf::FindRow),
        ),
        StopActionOf::Finish(Err(e)) => if takes_back(run.stop.phase, e) {
            (
                RemovalModel {
                    phase: RemovalPhase::PuttingBack,
                    stop: step.0,
                    failure: Some(stop_error_to_registry_spec(e)),
                    ..run
                },
                RemovalActionOf::PutBack {
                    prior: LifecycleState::Stopping,
                    new: run.stop.prior,
                    cause: CauseModel::Command { command: REMOVE_COMMAND@ },
                },
            )
        } else {
            (
                RemovalModel { phase: RemovalPhase::Done, stop: step.0, ..run },
                RemovalActionOf::Finish(Err(stop_error_to_registry_spec(e))),
            )
        },
        StopActionOf::Misfit => (run, RemovalActionOf::Misfit),
        action => (RemovalModel { stop: step.0, ..run }, RemovalActionOf::Stop(action)),
    }
}

/// The state in a row, if one was found.
pub open spec fn row_state(
    found: Result<Option<LifecycleState>, StoreErrorOf<Seq<char>>>,
) -> Option<LifecycleState> {
    match found {
        Ok(state) => state,
        Err(_) => None,
    }
}

/// What a removal does with an answer: the table of its steps.
pub open spec fn removal_next(
    base: PathBuf,
    run: RemovalModel,
    event: RemovalEventModel,
    supervisor: SupervisorModel,
) -> (RemovalModel, RemovalActionModel) {
    match (run.phase, event) {
        (RemovalPhase::Row, RemovalEventOf::Row(found)) => if stops_first(
            row_state(found),
            supervisor.running.contains_key(run.remove.name),
            run.remove.force,
        ) {
            (
                RemovalModel { phase: RemovalPhase::Stopping, ..run },
                RemovalActionOf::Stop(StopActionOf::ReadRow),
            )
        } else {
            removal_removes(run, remove_next(base, run.remove, RemoveEventOf::Row(found)))
        },
        (RemovalPhase::Stopping, RemovalEventOf::Stop(event)) => removal_stops(
            run,
            stop_next(run.stop, event, supervisor),
        ),
        (RemovalPhase::PuttingBack, RemovalEventOf::PutBack) => (
            RemovalModel { phase: RemovalPhase::Done, failure: None, ..run },
            RemovalActionOf::Finish(
                match run.failure {
                    Some(e) => Err(e),
                    None => Ok(()),
                },
            ),
        ),
        (RemovalPhase::Removing, RemovalEventOf::Remove(event)) => removal_removes(
            run,
            remove_next(base, run.remove, event),
        ),
        _ => (run, RemovalActionOf::Misfit),
    }
}

/// What a removal does to the supervised processes: what its stop does.
pub open spec fn removal_effect(
    supervisor: SupervisorModel,
    run: RemovalModel,
    event: RemovalEventModel,
) -> SupervisorModel {
    match (run.phase, event) {
        (RemovalPhase::Stopping, RemovalEventOf::Stop(event)) => stop_effect(
            supervisor,
            run.stop,
            event,
        ),
        _ => supervisor,
    }
}

impl Removal {
    /// The instance.
    pub fn name(&self) -> (r: &InstanceName)
        ensures
            r@ == self@.remove.name,
    {
        self.remove.name()
    }

    fn removes(&mut self, registry: &Registry, event: crate::remove::RemoveEvent) -> (r:
        RemovalAction)
        ensures
            (final(self)@, r@) == removal_removes(
                old(self)@,
                remove_next(registry.base(), old(self)@.remove, event@),
            ),
    {
        let ghost before = self.remove@;
        match registry.remove_step(&mut self.remove, event) {
            RemoveActionOf::Finish(outcome) => {
                self.phase = RemovalPhase::Done;
                RemovalActionOf::Finish(outcome)
            },
            RemoveActionOf::Misfit => {
                proof {
                    lemma_remove_misfit_keeps(registry.base(), before, event@);
                }
                RemovalActionOf::Misfit
            },
            action => {
                self.phase = RemovalPhase::Removing;
                RemovalActionOf::Remove(action)
            },
        }
    }
}

proof fn lemma_remove_misfit_keeps(base: PathBuf, run: RemoveModel, event: RemoveEventModel)
    ensures
        remove_next(base, run, event).1 is Misfit ==> remove_next(base, run, event).0 == run,
{
}

proof fn lemma_stop_misfit_keeps(run: StopModel, event: StopEventModel, supervisor: SupervisorModel)
    ensures
        stop_next(run, event, supervisor).1 is Misfit ==> stop_next(run, event, supervisor).0
            == run,
{
    reveal(stop_next);
}

impl Supervisor {
    /// Begin to remove an instance, which is stopped before where it has to be. The name is
    /// checked; nothing else is done. The first action is [`RemovalActionOf::FindRow`].
    pub fn remove(
        &self,
        registry: &Registry,
        name: &str,
        disposition: RemoveDisposition,
        force: bool,
        confirm_timeout_secs: u64,
    ) -> (r: Result<Removal, RegistryError>)
        ensures
            match r {
                Ok(run) => name_fault(name@) is None && run@ == removal_begin(
                    name@,
                    disposition,
                    force,
                    confirm_timeout_secs,
                ),
                Err(e) => name_fault(name@) matches Some(reason) && e@
                    == (RegistryErrorModel::InvalidName { name: name@, reason }),
            },
    {
        let remove = match registry.remove(name, disposition, force) {
            Ok(remove) => remove,
            Err(e) => {
                return Err(e);
            },
        };
        match self.stop(name, None, confirm_timeout_secs) {
            Ok(stop) => Ok(
                Removal { phase: RemovalPhase::Row, stop, remove, failure: None },
            ),
            Err(e) => Err(stop_error_to_registry(e)),
        }
    }

    /// Take the answer to what `run` asked for and say what to do next.
    pub fn removal_step(&mut self, registry: &Registry, run: &mut Removal, event: RemovalEvent) -> (
        r: RemovalAction)
        requires
            old(self).wf(),
        ensures
            final(self).wf(),
            (final(run)@, r@) == removal_next(registry.base(), old(run)@, event@, old(self)@),
            final(self)@ == removal_effect(old(self)@, old(run)@, event@),
    {
        match (run.phase, event) {
            (RemovalPhase::Row, RemovalEventOf::Row(found)) => {
                let state = match &found {
                    Ok(state) => *state,
                    Err(_) => None,
                };
                let held = self.is_held(run.name());
                if stop_before_removal(state, held, run.remove.force()) {
                    run.phase = RemovalPhase::Stopping;
                    RemovalActionOf::Stop(StopActionOf::ReadRow)
                } else {
                    run.removes(registry, RemoveEventOf::Row(found))
                }
            },
            (RemovalPhase::Stopping, RemovalEventOf::Stop(event)) => self.removal_stops(run, event),
            (RemovalPhase::PuttingBack, RemovalEventOf::PutBack) => {
                run.phase = RemovalPhase::Done;
                match run.failure.take() {
                    Some(e) => RemovalActionOf::Finish(Err(e)),
                    None => RemovalActionOf::Finish(Ok(())),
                }
            },
            (RemovalPhase::Removing, RemovalEventOf::Remove(event)) => run.removes(registry, event),
            _ => RemovalActionOf::Misfit,
        }
    }

    fn removal_stops(&mut self, run: &mut Removal, event: crate::stop::StopEvent) -> (r:
        RemovalAction)
        requires
            old(self).wf(),
            old(run)@.phase == RemovalPhase::Stopping,
        ensures
            final(self).wf(),
            (final(run)@, r@) == removal_stops(
                old(run)@,
                stop_next(old(run)@.stop, event@, old(self)@),
            ),
            final(self)@ == stop_effect(old(self)@, old(run)@.stop, event@),
    {
        let ghost before = run.stop@;
        let ghost held = self@;
        let phase = run.stop.phase();
        let prior = run.stop.prior();
        match self.stop_step(&mut run.stop, event) {
            StopActionOf::Finish(Ok(_)) => {
                run.phase = RemovalPhase::Removing;
                RemovalActionOf::Remove(RemoveActionOf::FindRow)
            },
            StopActionOf::Finish(Err(e)) => {
                let unconfirmed = matches!(e, EngineErrorOf::StopUnconfirmed { .. });
                let failure = stop_error_to_registry(e);
                if (phase == StopPhase::EnterStopping || phase == StopPhase::Stopped)
                    && !unconfirmed {
                    run.phase = RemovalPhase::PuttingBack;
                    run.failure = Some(failure);
                    RemovalActionOf::PutBack {
                        prior: LifecycleState::Stopping,
                        new: prior,
                        cause: TransitionCause::command(REMOVE_COMMAND),
                    }
                } else {
                    run.phase = RemovalPhase::Done;
                    RemovalActionOf::Finish(Err(failure))
                }
            },
            StopActionOf::Misfit => {
                proof {
                    lemma_stop_misfit_keeps(before, event@, held);
                }
                RemovalActionOf::Misfit
            },
            action => RemovalActionOf::Stop(action),
        }
    }
}

/// The removal and the supervised processes after its first `n` answers.
pub open spec fn removal_at(
    base: PathBuf,
    run: RemovalModel,
    supervisor: SupervisorModel,
    answers: Seq<RemovalEventModel>,
    n: int,
) -> (RemovalModel, SupervisorModel)
    decreases n,
{
    if n <= 0 {
        (run, supervisor)
    } else {
        let (before, held) = removal_at(base, run, supervisor, answers, n - 1);
        (
            removal_next(base, before, answers[n - 1], held).0,
            removal_effect(held, before, answers[n - 1]),
        )
    }
}

/// What the removal asks for upon its answer number `i`, counted from zero.
pub open spec fn removal_action_at(
    base: PathBuf,
    run: RemovalModel,
    supervisor: SupervisorModel,
    answers: Seq<RemovalEventModel>,
    i: int,
) -> RemovalActionModel {
    let (before, held) = removal_at(base, run, supervisor, answers, i);
    removal_next(base, before, answers[i], held).1
}

/// Whether a stop in a phase knows that no process is left.
spec fn stop_is_through(phase: StopPhase) -> bool {
    phase == StopPhase::StuckCleared || phase == StopPhase::StuckEntered || phase
        == StopPhase::Cleared || phase == StopPhase::EnterStopped || phase == StopPhase::Settled
}

/// What holds of a removal between its steps: it is of one instance, and once it goes beyond
/// the process none is held.
spec fn removal_is_safe(run: RemovalModel, supervisor: SupervisorModel) -> bool {
    &&& run.stop.name == run.remove.name
    &&& run.phase == RemovalPhase::Row ==> run.remove.phase == RemovePhase::Row && run.stop.phase
        == StopPhase::Row
    &&& run.phase == RemovalPhase::Stopping && stop_is_through(run.stop.phase)
        ==> !supervisor.running.contains_key(run.remove.name)
    &&& run.phase == RemovalPhase::Removing ==> !supervisor.running.contains_key(run.remove.name)
}

#[verifier::rlimit(60)]
proof fn lemma_stop_lets_go(run: StopModel, event: StopEventModel, supervisor: SupervisorModel)
    requires
        stop_is_through(run.phase) ==> !supervisor.running.contains_key(run.name),
    ensures
        ({
            let (after, asked) = stop_next(run, event, supervisor);
            let held = stop_effect(supervisor, run, event);
            &&& after.name == run.name
            &&& (stop_is_through(after.phase) || (asked matches StopActionOf::Finish(Ok(_))))
                ==> !held.running.contains_key(run.name)
        }),
{
    reveal(stop_next);
}

proof fn lemma_removal_stays_safe(
    base: PathBuf,
    run: RemovalModel,
    event: RemovalEventModel,
    supervisor: SupervisorModel,
)
    requires
        removal_is_safe(run, supervisor),
    ensures
        ({
            let (after, asked) = removal_next(base, run, event, supervisor);
            let held = removal_effect(supervisor, run, event);
            &&& removal_is_safe(after, held)
            &&& after.remove.name == run.remove.name
            &&& asked == RemovalActionModel::Remove(RemoveActionOf::DeleteRow)
                ==> !held.running.contains_key(run.remove.name)
        }),
{
    if run.phase == RemovalPhase::Stopping {
        if let RemovalEventOf::Stop(event) = event {
            lemma_stop_lets_go(run.stop, event, supervisor);
        }
    }
}

proof fn lemma_removal_is_safe_at(
    base: PathBuf,
    run: RemovalModel,
    supervisor: SupervisorModel,
    answers: Seq<RemovalEventModel>,
    n: int,
)
    requires
        removal_is_safe(run, supervisor),
        0 <= n <= answers.len(),
    ensures
        removal_is_safe(
            removal_at(base, run, supervisor, answers, n).0,
            removal_at(base, run, supervisor, answers, n).1,
        ),
        removal_at(base, run, supervisor, answers, n).0.remove.name == run.remove.name,
    decreases n,
{
    if n > 0 {
        lemma_removal_is_safe_at(base, run, supervisor, answers, n - 1);
        let (before, held) = removal_at(base, run, supervisor, answers, n - 1);
        lemma_removal_stays_safe(base, before, answers[n - 1], held);
    }
}

/// No process outlives its row: whatever a removal is answered, forced or not and in whatever
/// state the instance is, its row is deleted only when no process of it is held.
pub proof fn law_no_process_outlives_its_row(
    base: PathBuf,
    name: Seq<char>,
    disposition: RemoveDisposition,
    force: bool,
    confirm_timeout_secs: u64,
    supervisor: SupervisorModel,
    answers: Seq<RemovalEventModel>,
    i: int,
)
    requires
        0 <= i < answers.len(),
        removal_action_at(
            base,
            removal_begin(name, disposition, force, confirm_timeout_secs),
            supervisor,
            answers,
            i,
        ) == RemovalActionModel::Remove(RemoveActionOf::DeleteRow),
    ensures
        !removal_at(
            base,
            removal_begin(name, disposition, force, confirm_timeout_secs),
            supervisor,
            answers,
            i + 1,
        ).1.running.contains_key(name),
{
    let run = removal_begin(name, disposition, force, confirm_timeout_secs);
    lemma_removal_is_safe_at(base, run, supervisor, answers, i);
    let (before, held) = removal_at(base, run, supervisor, answers, i);
    lemma_removal_stays_safe(base, before, answers[i], held);
}

/// A removal that is refused stops nothing: a running instance that is removed without force
/// is told so at once.
pub proof fn law_a_refused_removal_stops_nothing(
    base: PathBuf,
    name: Seq<char>,
    disposition: RemoveDisposition,
    confirm_timeout_secs: u64,
    supervisor: SupervisorModel,
)
    ensures
        removal_next(
            base,
            removal_begin(name, disposition, false, confirm_timeout_secs),
            RemovalEventOf::Row(Ok(Some(LifecycleState::Running))),
            supervisor,
        ).1 == RemovalActionModel::Finish(Err(RegistryErrorModel::RunningRequiresForce { name })),
{
}

/// A process that cannot be stopped keeps its instance as it was: where the backend fails to
/// stop it, the state that the stop had found is put back, the process stays held, and the
/// removal ends with the failure, having removed nothing.
pub proof fn law_a_failed_teardown_is_taken_back(
    base: PathBuf,
    run: RemovalModel,
    e: crate::error::BackendErrorModel,
    supervisor: SupervisorModel,
)
    requires
        run.phase == RemovalPhase::Stopping,
        run.stop.phase == StopPhase::Stopped,
        !(e is StopUnconfirmed),
    ensures
        ({
            let event = RemovalEventModel::Stop(StopEventOf::Stopped(Err(e)));
            let first = removal_next(base, run, event, supervisor);
            let second = removal_next(
                base,
                first.0,
                RemovalEventOf::PutBack,
                removal_effect(supervisor, run, event),
            );
            &&& first.1 == RemovalActionModel::PutBack {
                prior: LifecycleState::Stopping,
                new: run.stop.prior,
                cause: CauseModel::Command { command: REMOVE_COMMAND@ },
            }
            &&& removal_effect(supervisor, run, event) == supervisor
            &&& second.1 == RemovalActionModel::Finish(
                Err(
                    stop_error_to_registry_spec(
                        EngineErrorModel::Backend { name: run.stop.name, source: e },
                    ),
                ),
            )
        }),
{
    reveal(stop_next);
}

/// Whether a stop in a phase has found the state of its instance and may have changed it.
spec fn stop_has_found(phase: StopPhase) -> bool {
    phase == StopPhase::LogDir || phase == StopPhase::EnterStopping || phase == StopPhase::Drained
        || phase == StopPhase::Stopped
}

proof fn lemma_stop_keeps_what_it_found(
    run: StopModel,
    event: StopEventModel,
    supervisor: SupervisorModel,
)
    requires
        stop_has_found(stop_next(run, event, supervisor).0.phase),
    ensures
        (stop_has_found(run.phase) && stop_next(run, event, supervisor).0.prior == run.prior)
            || event == StopEventModel::Row(Ok(stop_next(run, event, supervisor).0.prior)),
{
    reveal(stop_next);
}

proof fn lemma_found_at(
    base: PathBuf,
    run: RemovalModel,
    supervisor: SupervisorModel,
    answers: Seq<RemovalEventModel>,
    n: int,
) -> (j: int)
    requires
        !stop_has_found(run.stop.phase),
        0 <= n <= answers.len(),
        stop_has_found(removal_at(base, run, supervisor, answers, n).0.stop.phase),
    ensures
        0 <= j < n,
        answers[j] == RemovalEventModel::Stop(
            StopEventOf::Row(Ok(removal_at(base, run, supervisor, answers, n).0.stop.prior)),
        ),
    decreases n,
{
    let (before, held) = removal_at(base, run, supervisor, answers, n - 1);
    if before.phase == RemovalPhase::Stopping {
        if let RemovalEventOf::Stop(event) = answers[n - 1] {
            if stop_has_found(stop_next(before.stop, event, held).0.phase) {
                lemma_stop_keeps_what_it_found(before.stop, event, held);
            }
        }
    }
    let after = removal_at(base, run, supervisor, answers, n).0;
    if stop_has_found(before.stop.phase) && after.stop.prior == before.stop.prior {
        lemma_found_at(base, run, supervisor, answers, n - 1)
    } else {
        n - 1
    }
}

/// The state that is put back is the one that the stop had found in the row.
pub proof fn law_what_is_put_back_is_what_was_found(
    base: PathBuf,
    name: Seq<char>,
    disposition: RemoveDisposition,
    force: bool,
    confirm_timeout_secs: u64,
    supervisor: SupervisorModel,
    answers: Seq<RemovalEventModel>,
    i: int,
    state: LifecycleState,
)
    requires
        0 <= i < answers.len(),
        removal_action_at(
            base,
            removal_begin(name, disposition, force, confirm_timeout_secs),
            supervisor,
            answers,
            i,
        ) matches RemovalActionOf::PutBack { new, .. } && new == state,
    ensures
        exists|j: int|
            0 <= j < i && #[trigger] answers[j] == RemovalEventModel::Stop(
                StopEventOf::Row(Ok(state)),
            ),
{
    let run = removal_begin(name, disposition, force, confirm_timeout_secs);
    let before = removal_at(base, run, supervisor, answers, i).0;
    let j = lemma_found_at(base, run, supervisor, answers, i);
}

/// A kill that was not confirmed ends the removal: nothing is removed, the instance stays
/// stopping and its process held, for a later stop to settle.
pub proof fn law_an_unconfirmed_kill_ends_the_removal(
    base: PathBuf,
    run: RemovalModel,
    timeout_secs: u64,
    supervisor: SupervisorModel,
)
    requires
        run.phase == RemovalPhase::Stopping,
        run.stop.phase == StopPhase::Stopped,
        supervisor.running.contains_key(run.stop.name),
    ensures
        ({
            let event = RemovalEventModel::Stop(
                StopEventOf::Stopped(
                    Err(crate::error::BackendErrorModel::StopUnconfirmed { timeout_secs }),
                ),
            );
            &&& removal_next(base, run, event, supervisor).1 == RemovalActionModel::Finish(
                Err(
                    stop_error_to_registry_spec(
                        EngineErrorModel::StopUnconfirmed { name: run.stop.name, timeout_secs },
                    ),
                ),
            )
            &&& removal_effect(supervisor, run, event).running.contains_key(run.stop.name)
        }),
{
    reveal(stop_next);
}

/// What a removal begins with: an instance that is running or paused, or whose process is held, is
/// stopped first, by a stop as the operator's command with the default window, unless it is
/// running and the removal is not forced; any other is removed at once, with the disposition and
/// the force that were asked for.
#[verifier::spinoff_prover]
pub proof fn law_a_removal_stops_what_is_up(
    base: PathBuf,
    name: Seq<char>,
    disposition: RemoveDisposition,
    force: bool,
    confirm_timeout_secs: u64,
    found: Result<Option<LifecycleState>, StoreErrorOf<Seq<char>>>,
    held: SupervisorModel,
)
    ensures
        ({
            let begun = removal_begin(name, disposition, force, confirm_timeout_secs);
            let first = removal_next(base, begun, RemovalEventModel::Row(found), held);
            let plain = RemoveModel { name, disposition, force, phase: RemovePhase::Row };
            let up = found == Ok::<_, StoreErrorOf<Seq<char>>>(Some(LifecycleState::Running))
                || found == Ok::<_, StoreErrorOf<Seq<char>>>(Some(LifecycleState::Paused));
            let there = found matches Ok(Some(_));
            let refused = found == Ok::<_, StoreErrorOf<Seq<char>>>(Some(LifecycleState::Running))
                && !force;
            let stops = there && (up || held.running.contains_key(name)) && !refused;
            let removed = remove_next(base, plain, RemoveEventModel::Row(found));
            &&& stops ==> {
                &&& first.1 == RemovalActionModel::Stop(StopActionOf::ReadRow)
                &&& first.0.phase == RemovalPhase::Stopping
                &&& first.0.stop == stop_begin(name, None, None, confirm_timeout_secs)
                &&& first.0.remove == plain
            }
            &&& !stops ==> match removed.1 {
                RemoveActionOf::Finish(outcome) => first.1 == RemovalActionModel::Finish(outcome),
                asked => first.1 == RemovalActionModel::Remove(asked) && first.0.phase
                    == RemovalPhase::Removing && first.0.remove == removed.0,
            }
            &&& removal_effect(held, begun, RemovalEventModel::Row(found)) == held
        }),
{
}

/// How a removal stops its instance: as a stop of its own does, step by step, to the held
/// processes too. Once that has ended well the instance is looked up again, to be removed as was
/// asked for. Where it ends in a failure, nothing is removed and that failure is told; and where
/// the instance may by then say `stopping`, but the kill is not what is in doubt, it
/// is put back from `stopping` to the state that was found before.
#[verifier::spinoff_prover]
pub proof fn law_a_removal_stops_as_a_stop_does(
    base: PathBuf,
    run: RemovalModel,
    event: StopEventModel,
    held: SupervisorModel,
)
    requires
        run.phase == RemovalPhase::Stopping,
        !(stop_next(run.stop, event, held).1 is Misfit),
    ensures
        ({
            let stop = stop_next(run.stop, event, held);
            let step = removal_next(base, run, RemovalEventModel::Stop(event), held);
            let told = removal_next(base, step.0, RemovalEventModel::PutBack, held);
            &&& removal_effect(held, run, RemovalEventModel::Stop(event)) == stop_effect(
                held,
                run.stop,
                event,
            )
            &&& step.0.remove == run.remove
            &&& match stop.1 {
                StopActionOf::Finish(Ok(_)) => step.1 == RemovalActionModel::Remove(
                    RemoveActionOf::FindRow,
                ) && step.0.phase == RemovalPhase::Removing,
                StopActionOf::Finish(Err(e)) => if (run.stop.phase == StopPhase::EnterStopping
                    || run.stop.phase == StopPhase::Stopped) && !(e is StopUnconfirmed) {
                    &&& step.1 == RemovalActionModel::PutBack {
                        prior: LifecycleState::Stopping,
                        new: run.stop.prior,
                        cause: CauseModel::Command { command: "remove"@ },
                    }
                    &&& told.1 == RemovalActionModel::Finish(Err(stop_error_to_registry_spec(e)))
                } else {
                    step.1 == RemovalActionModel::Finish(Err(stop_error_to_registry_spec(e)))
                },
                asked => step.1 == RemovalActionModel::Stop(asked) && step.0.stop == stop.0
                    && step.0.phase == RemovalPhase::Stopping,
            }
        }),
{
}

/// How a removal removes its instance once nothing is to be stopped any more: as the removal
/// proper does, step by step, and without touching the held processes.
pub proof fn law_a_removal_removes_as_a_remove_does(
    base: PathBuf,
    run: RemovalModel,
    event: RemoveEventModel,
    held: SupervisorModel,
)
    requires
        run.phase == RemovalPhase::Removing,
        !(remove_next(base, run.remove, event).1 is Misfit),
    ensures
        ({
            let remove = remove_next(base, run.remove, event);
            let step = removal_next(base, run, RemovalEventModel::Remove(event), held);
            &&& removal_effect(held, run, RemovalEventModel::Remove(event)) == held
            &&& match remove.1 {
                RemoveActionOf::Finish(outcome) => step.1 == RemovalActionModel::Finish(outcome),
                asked => step.1 == RemovalActionModel::Remove(asked) && step.0.remove == remove.0
                    && step.0.phase == RemovalPhase::Removing,
            }
        }),
{
}

} // verus!
