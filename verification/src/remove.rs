//! Removing an instance.
//!
//! A [`Remove`] asks for one action at a time and takes the answer. The row goes first;
//! the home goes after it, and only where that was asked for.
use crate::error::{RegistryError, RegistryErrorModel, RegistryErrorOf, StoreErrorOf};
use crate::lifecycle::LifecycleState;
use crate::name::{name_fault, InstanceName};
use crate::paths::{home_path, path_text, text_of_path};
use crate::registry::Registry;
use std::path::PathBuf;
use vstd::prelude::*;

verus! {

/// What becomes of the home of a removed instance.
#[derive(Clone, Copy, Debug, PartialEq, Eq, Structural)]
pub enum RemoveDisposition {
    /// It stays.
    Retain,
    /// It is deleted.
    Delete,
}

/// What a [`Remove`] waits for.
#[derive(Clone, Copy, Debug, PartialEq, Eq, Structural)]
pub enum RemovePhase {
    /// The stored row.
    Row,
    /// The deletion of the row.
    Delete,
    /// The deletion of the home.
    Home,
    /// Nothing; it has ended.
    Done,
}

/// A removal on its way.
pub struct Remove {
    name: InstanceName,
    disposition: RemoveDisposition,
    force: bool,
    phase: RemovePhase,
}

/// The model of a [`Remove`].
pub struct RemoveModel {
    /// The instance.
    pub name: Seq<char>,
    /// What becomes of its home.
    pub disposition: RemoveDisposition,
    /// Whether it is removed in any state.
    pub force: bool,
    /// What is waited for.
    pub phase: RemovePhase,
}

impl View for Remove {
    type V = RemoveModel;

    closed spec fn view(&self) -> RemoveModel {
        RemoveModel {
            name: self.name@,
            disposition: self.disposition,
            force: self.force,
            phase: self.phase,
        }
    }
}

/// The answer to an action of a [`Remove`].
pub enum RemoveEventOf<S> {
    /// The state in the stored row, if there is one.
    Row(Result<Option<LifecycleState>, StoreErrorOf<S>>),
    /// Whether the row was deleted.
    Deleted(Result<(), StoreErrorOf<S>>),
    /// The home was deleted.
    HomeDeleted,
    /// There was no home.
    HomeMissing,
    /// The home could not be deleted, and why.
    HomeStays(S),
}

/// The answer to an action of a [`Remove`].
pub type RemoveEvent = RemoveEventOf<String>;

/// The model of a [`RemoveEvent`].
pub type RemoveEventModel = RemoveEventOf<Seq<char>>;

impl View for RemoveEventOf<String> {
    type V = RemoveEventModel;

    open spec fn view(&self) -> RemoveEventModel {
        match self {
            RemoveEventOf::Row(r) => RemoveEventOf::Row(
                match r {
                    Ok(found) => Ok(*found),
                    Err(e) => Err(e@),
                },
            ),
            RemoveEventOf::Deleted(r) => RemoveEventOf::Deleted(
                match r {
                    Ok(_) => Ok(()),
                    Err(e) => Err(e@),
                },
            ),
            RemoveEventOf::HomeDeleted => RemoveEventOf::HomeDeleted,
            RemoveEventOf::HomeMissing => RemoveEventOf::HomeMissing,
            RemoveEventOf::HomeStays(why) => RemoveEventOf::HomeStays(why@),
        }
    }
}

/// What a [`Remove`] asks for.
pub enum RemoveActionOf<S> {
    /// Look the instance up.
    FindRow,
    /// Delete the row.
    DeleteRow,
    /// Delete the home and everything in it.
    DeleteHome(PathBuf),
    /// Nothing: the answer does not fit what was asked.
    Misfit,
    /// Nothing more: it has ended.
    Finish(Result<(), RegistryErrorOf<S>>),
}

/// What a [`Remove`] asks for.
pub type RemoveAction = RemoveActionOf<String>;

/// The model of a [`RemoveAction`].
pub type RemoveActionModel = RemoveActionOf<Seq<char>>;

impl View for RemoveActionOf<String> {
    type V = RemoveActionModel;

    open spec fn view(&self) -> RemoveActionModel {
        match self {
            RemoveActionOf::FindRow => RemoveActionOf::FindRow,
            RemoveActionOf::DeleteRow => RemoveActionOf::DeleteRow,
            RemoveActionOf::DeleteHome(path) => RemoveActionOf::DeleteHome(*path),
            RemoveActionOf::Misfit => RemoveActionOf::Misfit,
            RemoveActionOf::Finish(r) => RemoveActionOf::Finish(
                match r {
                    Ok(_) => Ok(()),
                    Err(e) => Err(e@),
                },
            ),
        }
    }
}

/// It ends.
pub open spec fn remove_ends(run: RemoveModel, outcome: Result<(), RegistryErrorModel>) -> (
    RemoveModel,
    RemoveActionModel,
) {
    (RemoveModel { phase: RemovePhase::Done, ..run }, RemoveActionOf::Finish(outcome))
}

/// What is done with an answer: the table of the steps.
pub open spec fn remove_next(base: PathBuf, run: RemoveModel, event: RemoveEventModel) -> (
    RemoveModel,
    RemoveActionModel,
) {
    let name = run.name;
    let home = home_path(base, name);
    match (run.phase, event) {
        (RemovePhase::Row, RemoveEventOf::Row(r)) => match r {
            Err(e) => remove_ends(run, Err(RegistryErrorOf::Store(e))),
            Ok(None) => remove_ends(run, Err(RegistryErrorOf::NotFound { name })),
            Ok(Some(state)) => if !run.force && state == LifecycleState::Running {
                remove_ends(run, Err(RegistryErrorOf::RunningRequiresForce { name }))
            } else {
                (RemoveModel { phase: RemovePhase::Delete, ..run }, RemoveActionOf::DeleteRow)
            },
        },
        (RemovePhase::Delete, RemoveEventOf::Deleted(r)) => match r {
            Err(e) => remove_ends(run, Err(RegistryErrorOf::Store(e))),
            Ok(_) => if run.disposition == RemoveDisposition::Delete {
                (RemoveModel { phase: RemovePhase::Home, ..run }, RemoveActionOf::DeleteHome(home))
            } else {
                remove_ends(run, Ok(()))
            },
        },
        (RemovePhase::Home, RemoveEventOf::HomeDeleted) => remove_ends(run, Ok(())),
        (RemovePhase::Home, RemoveEventOf::HomeMissing) => remove_ends(run, Ok(())),
        (RemovePhase::Home, RemoveEventOf::HomeStays(detail)) => remove_ends(
            run,
            Err(RegistryErrorOf::RemoveLeftoverHome { name, path: path_text(home), detail }),
        ),
        _ => (run, RemoveActionOf::Misfit),
    }
}

impl Remove {
    /// The instance.
    pub fn name(&self) -> (r: &InstanceName)
        ensures
            r@ == self@.name,
    {
        &self.name
    }

    pub(crate) fn force(&self) -> (r: bool)
        ensures
            r == self@.force,
    {
        self.force
    }

    fn ends(&mut self, outcome: Result<(), RegistryError>) -> (r: RemoveAction)
        ensures
            (final(self)@, r@) == remove_ends(
                old(self)@,
                match outcome {
                    Ok(_) => Ok(()),
                    Err(e) => Err(e@),
                },
            ),
    {
        self.phase = RemovePhase::Done;
        RemoveActionOf::Finish(outcome)
    }
}

impl Registry {
    /// Begin to remove an instance. The name is checked; nothing else is done. The first
    /// action is [`RemoveActionOf::FindRow`].
    pub fn remove(&self, name: &str, disposition: RemoveDisposition, force: bool) -> (r: Result<
        Remove,
        RegistryError,
    >)
        ensures
            match r {
                Ok(run) => name_fault(name@) is None && run@ == (RemoveModel {
                    name: name@,
                    disposition,
                    force,
                    phase: RemovePhase::Row,
                }),
                Err(e) => name_fault(name@) matches Some(reason) && e@
                    == (RegistryErrorModel::InvalidName { name: name@, reason }),
            },
    {
        match InstanceName::new(name) {
            Ok(name) => Ok(Remove { name, disposition, force, phase: RemovePhase::Row }),
            Err(reason) => Err(RegistryErrorOf::InvalidName { name: name.to_owned(), reason }),
        }
    }

    /// Take the answer to what `run` asked for and say what to do next.
    pub fn remove_step(&self, run: &mut Remove, event: RemoveEvent) -> (r: RemoveAction)
        ensures
            (final(run)@, r@) == remove_next(self.base(), old(run)@, event@),
    {
        match (run.phase, event) {
            (RemovePhase::Row, RemoveEventOf::Row(r)) => match r {
                Err(e) => run.ends(Err(RegistryErrorOf::Store(e))),
                Ok(None) => {
                    let name = run.name.to_text();
                    run.ends(Err(RegistryErrorOf::NotFound { name }))
                },
                Ok(Some(state)) => {
                    if !run.force && !state.is_removable_without_force() {
                        let name = run.name.to_text();
                        run.ends(Err(RegistryErrorOf::RunningRequiresForce { name }))
                    } else {
                        run.phase = RemovePhase::Delete;
                        RemoveActionOf::DeleteRow
                    }
                },
            },
            (RemovePhase::Delete, RemoveEventOf::Deleted(r)) => match r {
                Err(e) => run.ends(Err(RegistryErrorOf::Store(e))),
                Ok(_) => {
                    if run.disposition == RemoveDisposition::Delete {
                        run.phase = RemovePhase::Home;
                        RemoveActionOf::DeleteHome(self.agent_home(&run.name))
                    } else {
                        run.ends(Ok(()))
                    }
                },
            },
            (RemovePhase::Home, RemoveEventOf::HomeDeleted) => run.ends(Ok(())),
            (RemovePhase::Home, RemoveEventOf::HomeMissing) => run.ends(Ok(())),
            (RemovePhase::Home, RemoveEventOf::HomeStays(detail)) => {
                let name = run.name.to_text();
                let path = text_of_path(&self.agent_home(&run.name));
                run.ends(Err(RegistryErrorOf::RemoveLeftoverHome { name, path, detail }))
            },
            _ => RemoveActionOf::Misfit,
        }
    }
}

/// A row is deleted only where the removal is forced or the stored state allows it.
pub proof fn law_running_instances_are_removed_only_by_force(
    base: PathBuf,
    run: RemoveModel,
    event: RemoveEventModel,
)
    requires
        remove_next(base, run, event).1 is DeleteRow,
    ensures
        run.phase == RemovePhase::Row,
        event matches RemoveEventOf::Row(Ok(Some(state))) && (run.force
            || state != LifecycleState::Running),
{
}

/// A home is deleted only after its row is gone, only where that was asked for, and it is
/// the home of the instance that is removed.
pub proof fn law_a_home_goes_only_after_its_row(
    base: PathBuf,
    run: RemoveModel,
    event: RemoveEventModel,
    path: PathBuf,
)
    requires
        remove_next(base, run, event).1 == RemoveActionModel::DeleteHome(path),
    ensures
        run.phase == RemovePhase::Delete,
        event matches RemoveEventOf::Deleted(Ok(_)),
        run.disposition == RemoveDisposition::Delete,
        path == home_path(base, run.name),
{
}

/// Once the row is gone, the removal succeeds unless a home that was to go is still there.
pub proof fn law_a_missing_home_is_no_failure(
    base: PathBuf,
    run: RemoveModel,
    event: RemoveEventModel,
)
    requires
        run.phase == RemovePhase::Home,
        event is HomeDeleted || event is HomeMissing || event is HomeStays,
    ensures
        remove_next(base, run, event).1 is Finish,
        remove_next(base, run, event).1 == RemoveActionModel::Finish(Ok(())) <==> !(event is
            HomeStays),
{
}

/// What a removal does: the row of an instance that is not running, or of any with force, is
/// deleted; then its home where that was asked for, and nothing else where it was not. A running
/// instance is refused without force, one that is not there is not found, and a store that fails
/// or a home that stays is told of.
#[verifier::spinoff_prover]
pub proof fn law_a_removal_does_what_was_answered(
    base: PathBuf,
    name: Seq<char>,
    disposition: RemoveDisposition,
    force: bool,
    state: LifecycleState,
    store: StoreErrorOf<Seq<char>>,
    why: Seq<char>,
)
    ensures
        ({
            let begun = RemoveModel { name, disposition, force, phase: RemovePhase::Row };
            let found = remove_next(base, begun, RemoveEventModel::Row(Ok(Some(state))));
            let deleted = remove_next(base, found.0, RemoveEventModel::Deleted(Ok(())));
            let refused = state == LifecycleState::Running && !force;
            let fails = RemoveActionModel::Finish(Err(RegistryErrorOf::Store(store)));
            &&& remove_next(base, begun, RemoveEventModel::Row(Err(store))).1 == fails
            &&& remove_next(base, begun, RemoveEventModel::Row(Ok(None))).1
                == RemoveActionModel::Finish(Err(RegistryErrorOf::NotFound { name }))
            &&& refused ==> found.1 == RemoveActionModel::Finish(
                Err(RegistryErrorOf::RunningRequiresForce { name }),
            )
            &&& !refused ==> {
                &&& found.1 is DeleteRow
                &&& remove_next(base, found.0, RemoveEventModel::Deleted(Err(store))).1 == fails
                &&& match disposition {
                    RemoveDisposition::Delete => {
                        &&& deleted.1 == RemoveActionModel::DeleteHome(home_path(base, name))
                        &&& remove_next(base, deleted.0, RemoveEventModel::HomeDeleted).1
                            == RemoveActionModel::Finish(Ok(()))
                        &&& remove_next(base, deleted.0, RemoveEventModel::HomeMissing).1
                            == RemoveActionModel::Finish(Ok(()))
                        &&& remove_next(base, deleted.0, RemoveEventModel::HomeStays(why)).1
                            == RemoveActionModel::Finish(
                            Err(
                                RegistryErrorOf::RemoveLeftoverHome {
                                    name,
                                    path: path_text(home_path(base, name)),
                                    detail: why,
                                },
                            ),
                        )
                    },
                    _ => deleted.1 == RemoveActionModel::Finish(Ok(())),
                }
            }
        }),
{
}

/// A removal takes the answer to what it asked for and no other: any other answer changes nothing,
/// and after its end every answer is such a one.
pub proof fn law_a_removal_takes_only_its_answer(
    base: PathBuf,
    run: RemoveModel,
    event: RemoveEventModel,
    later: RemoveEventModel,
)
    ensures
        ({
            let step = remove_next(base, run, event);
            let fits = match run.phase {
                RemovePhase::Row => event is Row,
                RemovePhase::Delete => event is Deleted,
                RemovePhase::Home => event is HomeDeleted || event is HomeMissing || event is
                    HomeStays,
                RemovePhase::Done => false,
            };
            &&& step.1 is Misfit <==> !fits
            &&& !fits ==> step.0 == run
            &&& step.1 is Finish ==> remove_next(base, step.0, later).1 is Misfit
        }),
{
}

} // verus!
