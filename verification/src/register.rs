//! Registering an instance.
//!
//! A [`Register`] asks for one action at a time and takes the answer. It stores the row
//! first and makes the home after; where the home cannot be made, the row is taken back,
//! so that a name is either registered with its home or not at all.
use crate::error::{RegistryError, RegistryErrorModel, RegistryErrorOf, StoreError, StoreErrorModel, StoreErrorOf};
use crate::instance::{
    AdapterRef, AdapterSnapshot, AdapterSnapshotModel, AgentInstance, AgentInstanceModel,
};
use crate::lifecycle::LifecycleState;
use crate::name::{name_fault, InstanceName};
use crate::paths::{
    home_path, joined, path_text, text_of_path, ADAPTER_SNAPSHOT_FILE, INSTANCE_CONFIG_FILE,
};
use crate::registry::Registry;
use std::path::PathBuf;
use vstd::prelude::*;

verus! {

/// What a [`Register`] waits for.
enum RegisterPhase {
    Adapter,
    Row { instance: AgentInstance, adapter: AdapterSnapshot },
    Home { instance: AgentInstance, adapter: AdapterSnapshot },
    Config { instance: AgentInstance, adapter: AdapterSnapshot },
    Snapshot { instance: AgentInstance },
    Rollback { failure: RegistryError },
    Clear { outcome: RegistryError },
    Done,
}

/// What a [`Register`] waits for, with what it has to remember until then.
pub enum RegisterPhaseModel {
    /// The adapter.
    Adapter,
    /// The storing of the row.
    Row {
        /// The row.
        instance: AgentInstanceModel,
        /// The adapter.
        adapter: AdapterSnapshotModel,
    },
    /// The making of the home.
    Home {
        /// The row.
        instance: AgentInstanceModel,
        /// The adapter.
        adapter: AdapterSnapshotModel,
    },
    /// The writing of the config.
    Config {
        /// The row.
        instance: AgentInstanceModel,
        /// The adapter.
        adapter: AdapterSnapshotModel,
    },
    /// The writing of the adapter's snapshot.
    Snapshot {
        /// The row.
        instance: AgentInstanceModel,
    },
    /// The taking back of the row.
    Rollback {
        /// Why it is taken back.
        failure: RegistryErrorModel,
    },
    /// The removal of what there is of the home.
    Clear {
        /// What it will end with.
        outcome: RegistryErrorModel,
    },
    /// Nothing; it has ended.
    Done,
}

impl View for RegisterPhase {
    type V = RegisterPhaseModel;

    closed spec fn view(&self) -> RegisterPhaseModel {
        match self {
            RegisterPhase::Adapter => RegisterPhaseModel::Adapter,
            RegisterPhase::Row { instance, adapter } => RegisterPhaseModel::Row {
                instance: instance@,
                adapter: adapter@,
            },
            RegisterPhase::Home { instance, adapter } => RegisterPhaseModel::Home {
                instance: instance@,
                adapter: adapter@,
            },
            RegisterPhase::Config { instance, adapter } => RegisterPhaseModel::Config {
                instance: instance@,
                adapter: adapter@,
            },
            RegisterPhase::Snapshot { instance } => RegisterPhaseModel::Snapshot {
                instance: instance@,
            },
            RegisterPhase::Rollback { failure } => RegisterPhaseModel::Rollback {
                failure: failure@,
            },
            RegisterPhase::Clear { outcome } => RegisterPhaseModel::Clear { outcome: outcome@ },
            RegisterPhase::Done => RegisterPhaseModel::Done,
        }
    }
}

/// A registration on its way.
pub struct Register {
    name: InstanceName,
    phase: RegisterPhase,
}

/// The model of a [`Register`].
pub struct RegisterModel {
    /// The instance.
    pub name: Seq<char>,
    /// What is waited for.
    pub phase: RegisterPhaseModel,
}

impl View for Register {
    type V = RegisterModel;

    closed spec fn view(&self) -> RegisterModel {
        RegisterModel { name: self.name@, phase: self.phase@ }
    }
}

/// The answer to an action of a [`Register`].
pub enum RegisterEvent {
    /// The adapter, and the time of day.
    Adapter(Result<(AdapterSnapshot, String), RegistryError>),
    /// Whether the row was stored.
    Row(Result<(), StoreError>),
    /// Whether the home was made, or how that failed.
    Home(Result<(), String>),
    /// Whether the config was written, or how that failed.
    Config(Result<(), String>),
    /// Whether the adapter's snapshot was written, or how that failed.
    Snapshot(Result<(), String>),
    /// Whether the row was taken back.
    RolledBack(Result<(), StoreError>),
    /// What there was of the home has been removed as far as that went.
    Cleared,
}

/// The model of a [`RegisterEvent`].
pub enum RegisterEventModel {
    /// The adapter, and the time of day.
    Adapter(Result<(AdapterSnapshotModel, Seq<char>), RegistryErrorModel>),
    /// Whether the row was stored.
    Row(Result<(), StoreErrorModel>),
    /// Whether the home was made.
    Home(Result<(), Seq<char>>),
    /// Whether the config was written.
    Config(Result<(), Seq<char>>),
    /// Whether the adapter's snapshot was written.
    Snapshot(Result<(), Seq<char>>),
    /// Whether the row was taken back.
    RolledBack(Result<(), StoreErrorModel>),
    /// The home has been removed as far as that went.
    Cleared,
}

/// An outcome with its failure as text.
pub open spec fn text_result(r: Result<(), String>) -> Result<(), Seq<char>> {
    match r {
        Ok(_) => Ok(()),
        Err(e) => Err(e@),
    }
}

/// An outcome of the store.
pub open spec fn store_outcome(r: Result<(), StoreError>) -> Result<(), StoreErrorModel> {
    match r {
        Ok(_) => Ok(()),
        Err(e) => Err(e@),
    }
}

impl View for RegisterEvent {
    type V = RegisterEventModel;

    open spec fn view(&self) -> RegisterEventModel {
        match self {
            RegisterEvent::Adapter(r) => RegisterEventModel::Adapter(
                match r {
                    Ok((adapter, now)) => Ok((adapter@, now@)),
                    Err(e) => Err(e@),
                },
            ),
            RegisterEvent::Row(r) => RegisterEventModel::Row(store_outcome(*r)),
            RegisterEvent::Home(r) => RegisterEventModel::Home(text_result(*r)),
            RegisterEvent::Config(r) => RegisterEventModel::Config(text_result(*r)),
            RegisterEvent::Snapshot(r) => RegisterEventModel::Snapshot(text_result(*r)),
            RegisterEvent::RolledBack(r) => RegisterEventModel::RolledBack(store_outcome(*r)),
            RegisterEvent::Cleared => RegisterEventModel::Cleared,
        }
    }
}

/// What a [`Register`] asks for.
pub enum RegisterAction {
    /// Resolve the adapter and read the time of day.
    ResolveAdapter(AdapterRef),
    /// Store the row, which must be new.
    StoreRow(AgentInstance),
    /// Make the home, with all directories above it.
    MakeHome(PathBuf),
    /// Write the config.
    WriteConfig {
        /// Where to.
        path: PathBuf,
        /// What.
        body: String,
    },
    /// Write the adapter's snapshot.
    WriteSnapshot {
        /// Where to.
        path: PathBuf,
        /// What.
        snapshot: AdapterSnapshot,
    },
    /// Take the row back.
    DeleteRow,
    /// Remove what there is of the home.
    ClearHome(PathBuf),
    /// Nothing: the answer does not fit what was asked.
    Misfit,
    /// Nothing more: it has ended.
    Finish(Result<AgentInstance, RegistryError>),
}

/// The model of a [`RegisterAction`].
pub enum RegisterActionModel {
    /// Resolve the adapter and read the time of day.
    ResolveAdapter(AdapterRef),
    /// Store the row, which must be new.
    StoreRow(AgentInstanceModel),
    /// Make the home.
    MakeHome(PathBuf),
    /// Write the config.
    WriteConfig {
        /// Where to.
        path: PathBuf,
        /// What.
        body: Seq<char>,
    },
    /// Write the adapter's snapshot.
    WriteSnapshot {
        /// Where to.
        path: PathBuf,
        /// What.
        snapshot: AdapterSnapshotModel,
    },
    /// Take the row back.
    DeleteRow,
    /// Remove what there is of the home.
    ClearHome(PathBuf),
    /// Nothing: the answer does not fit what was asked.
    Misfit,
    /// Nothing more: it has ended.
    Finish(Result<AgentInstanceModel, RegistryErrorModel>),
}

impl View for RegisterAction {
    type V = RegisterActionModel;

    open spec fn view(&self) -> RegisterActionModel {
        match self {
            RegisterAction::ResolveAdapter(reference) => RegisterActionModel::ResolveAdapter(
                *reference,
            ),
            RegisterAction::StoreRow(instance) => RegisterActionModel::StoreRow(instance@),
            RegisterAction::MakeHome(path) => RegisterActionModel::MakeHome(*path),
            RegisterAction::WriteConfig { path, body } => RegisterActionModel::WriteConfig {
                path: *path,
                body: body@,
            },
            RegisterAction::WriteSnapshot { path, snapshot } => {
                RegisterActionModel::WriteSnapshot { path: *path, snapshot: snapshot@ }
            },
            RegisterAction::DeleteRow => RegisterActionModel::DeleteRow,
            RegisterAction::ClearHome(path) => RegisterActionModel::ClearHome(*path),
            RegisterAction::Misfit => RegisterActionModel::Misfit,
            RegisterAction::Finish(r) => RegisterActionModel::Finish(
                match r {
                    Ok(instance) => Ok(instance@),
                    Err(e) => Err(e@),
                },
            ),
        }
    }
}

/// The config that a new home is given: it says whose home it is.
pub open spec fn seed_config(name: Seq<char>) -> Seq<char> {
    "# Ktesio Agent Instance config (instance layer).\n# Managed by the engine; edit with care.\nname = \""@
        + name + "\"\n"@
}

/// The row of a new instance.
pub open spec fn new_row(
    base: PathBuf,
    name: Seq<char>,
    kind: Seq<char>,
    now: Seq<char>,
) -> AgentInstanceModel {
    AgentInstanceModel {
        name,
        kind,
        state: LifecycleState::Registered,
        agent_home: path_text(home_path(base, name)),
        created_at: now,
        updated_at: now,
    }
}

/// Something about a path in the home failed, so the row is taken back.
pub open spec fn register_undoes(run: RegisterModel, path: PathBuf, source: Seq<char>) -> (
    RegisterModel,
    RegisterActionModel,
) {
    (
        RegisterModel {
            phase: RegisterPhaseModel::Rollback {
                failure: RegistryErrorOf::Io { name: run.name, path: path_text(path), source },
            },
            ..run
        },
        RegisterActionModel::DeleteRow,
    )
}

/// It ends.
pub open spec fn register_ends(
    run: RegisterModel,
    outcome: Result<AgentInstanceModel, RegistryErrorModel>,
) -> (RegisterModel, RegisterActionModel) {
    (
        RegisterModel { phase: RegisterPhaseModel::Done, ..run },
        RegisterActionModel::Finish(outcome),
    )
}

/// What is done with an answer: the table of the steps.
pub open spec fn register_next(base: PathBuf, run: RegisterModel, event: RegisterEventModel) -> (
    RegisterModel,
    RegisterActionModel,
) {
    let name = run.name;
    let home = home_path(base, name);
    let config = joined(home, INSTANCE_CONFIG_FILE@);
    let snapshot_path = joined(home, ADAPTER_SNAPSHOT_FILE@);
    match (run.phase, event) {
        (RegisterPhaseModel::Adapter, RegisterEventModel::Adapter(r)) => match r {
            Err(e) => register_ends(run, Err(e)),
            Ok((adapter, now)) => {
                let instance = new_row(base, name, adapter.kind, now);
                (
                    RegisterModel { phase: RegisterPhaseModel::Row { instance, adapter }, ..run },
                    RegisterActionModel::StoreRow(instance),
                )
            },
        },
        (RegisterPhaseModel::Row { instance, adapter }, RegisterEventModel::Row(r)) => match r {
            Err(StoreErrorOf::DuplicateName { name }) => register_ends(
                run,
                Err(RegistryErrorOf::DuplicateName { name }),
            ),
            Err(e) => register_ends(run, Err(RegistryErrorOf::Store(e))),
            Ok(_) => (
                RegisterModel { phase: RegisterPhaseModel::Home { instance, adapter }, ..run },
                RegisterActionModel::MakeHome(home),
            ),
        },
        (RegisterPhaseModel::Home { instance, adapter }, RegisterEventModel::Home(r)) => match r {
            Err(e) => register_undoes(run, home, e),
            Ok(_) => (
                RegisterModel { phase: RegisterPhaseModel::Config { instance, adapter }, ..run },
                RegisterActionModel::WriteConfig { path: config, body: seed_config(name) },
            ),
        },
        (RegisterPhaseModel::Config { instance, adapter }, RegisterEventModel::Config(r)) => {
            match r {
                Err(e) => register_undoes(run, config, e),
                Ok(_) => (
                    RegisterModel { phase: RegisterPhaseModel::Snapshot { instance }, ..run },
                    RegisterActionModel::WriteSnapshot { path: snapshot_path, snapshot: adapter },
                ),
            }
        },
        (RegisterPhaseModel::Snapshot { instance }, RegisterEventModel::Snapshot(r)) => match r {
            Err(e) => register_undoes(run, snapshot_path, e),
            Ok(_) => register_ends(run, Ok(instance)),
        },
        (RegisterPhaseModel::Rollback { failure }, RegisterEventModel::RolledBack(r)) => {
            let outcome = match r {
                Ok(_) => failure,
                Err(e) => RegistryErrorOf::RegisterOrphanRow {
                    name,
                    home_error: failure.text(),
                    rollback_error: e.text(),
                },
            };
            (
                RegisterModel { phase: RegisterPhaseModel::Clear { outcome }, ..run },
                RegisterActionModel::ClearHome(home),
            )
        },
        (RegisterPhaseModel::Clear { outcome }, RegisterEventModel::Cleared) => register_ends(
            run,
            Err(outcome),
        ),
        _ => (run, RegisterActionModel::Misfit),
    }
}

fn seed_config_text(name: &InstanceName) -> (r: String)
    ensures
        r@ == seed_config(name@),
{
    let mut out =
        "# Ktesio Agent Instance config (instance layer).\n# Managed by the engine; edit with care.\nname = \"".to_owned();
    out.append(name.as_str());
    out.append("\"\n");
    out
}

impl Register {
    /// The instance.
    pub fn name(&self) -> (r: &InstanceName)
        ensures
            r@ == self@.name,
    {
        &self.name
    }

    fn undoes(self, path: PathBuf, source: String) -> (r: (Register, RegisterAction))
        ensures
            (r.0@, r.1@) == register_undoes(self@, path, source@),
    {
        let failure = RegistryErrorOf::Io {
            name: self.name.to_text(),
            path: text_of_path(&path),
            source,
        };
        (
            Register { name: self.name, phase: RegisterPhase::Rollback { failure } },
            RegisterAction::DeleteRow,
        )
    }

    fn ends(self, outcome: Result<AgentInstance, RegistryError>) -> (r: (Register, RegisterAction))
        ensures
            (r.0@, r.1@) == register_ends(
                self@,
                match outcome {
                    Ok(instance) => Ok(instance@),
                    Err(e) => Err(e@),
                },
            ),
    {
        (
            Register { name: self.name, phase: RegisterPhase::Done },
            RegisterAction::Finish(outcome),
        )
    }
}

impl Registry {
    /// Begin to register an instance of a built-in kind. The name is checked; nothing else
    /// is done.
    pub fn register(&self, name: &str, kind: &str) -> (r: Result<
        (Register, RegisterAction),
        RegistryError,
    >)
        ensures
            match r {
                Ok((run, asked)) => {
                    &&& name_fault(name@) is None
                    &&& run@ == (RegisterModel { name: name@, phase: RegisterPhaseModel::Adapter })
                    &&& asked matches RegisterAction::ResolveAdapter(AdapterRef::Native(text))
                    &&& text@ == kind@
                },
                Err(e) => name_fault(name@) matches Some(reason) && e@
                    == (RegistryErrorModel::InvalidName { name: name@, reason }),
            },
    {
        self.register_with_adapter(name, AdapterRef::Native(kind.to_owned()))
    }

    /// Begin to register an instance. The name is checked; nothing else is done.
    pub fn register_with_adapter(&self, name: &str, reference: AdapterRef) -> (r: Result<
        (Register, RegisterAction),
        RegistryError,
    >)
        ensures
            match r {
                Ok((run, asked)) => {
                    &&& name_fault(name@) is None
                    &&& run@ == (RegisterModel { name: name@, phase: RegisterPhaseModel::Adapter })
                    &&& asked == RegisterAction::ResolveAdapter(reference)
                },
                Err(e) => name_fault(name@) matches Some(reason) && e@
                    == (RegistryErrorModel::InvalidName { name: name@, reason }),
            },
    {
        match InstanceName::new(name) {
            Ok(name) => Ok(
                (
                    Register { name, phase: RegisterPhase::Adapter },
                    RegisterAction::ResolveAdapter(reference),
                ),
            ),
            Err(reason) => Err(RegistryErrorOf::InvalidName { name: name.to_owned(), reason }),
        }
    }

    /// Take the answer to what `run` asked for and say what to do next.
    #[verifier::rlimit(60)]
    pub fn register_step(&self, run: Register, event: RegisterEvent) -> (r: (
        Register,
        RegisterAction,
    ))
        ensures
            (r.0@, r.1@) == register_next(self.base(), run@, event@),
    {
        let Register { name, phase } = run;
        match (phase, event) {
            (RegisterPhase::Adapter, RegisterEvent::Adapter(r)) => match r {
                Err(e) => Register { name, phase: RegisterPhase::Done }.ends(Err(e)),
                Ok((adapter, now)) => {
                    let home = self.agent_home(&name);
                    let instance = AgentInstance {
                        name: name.clone(),
                        kind: adapter.kind.clone(),
                        state: LifecycleState::Registered,
                        agent_home: text_of_path(&home),
                        created_at: now.clone(),
                        updated_at: now,
                    };
                    let row = instance.clone();
                    (
                        Register { name, phase: RegisterPhase::Row { instance, adapter } },
                        RegisterAction::StoreRow(row),
                    )
                },
            },
            (RegisterPhase::Row { instance, adapter }, RegisterEvent::Row(r)) => match r {
                Err(StoreErrorOf::DuplicateName { name: taken }) => Register {
                    name,
                    phase: RegisterPhase::Done,
                }.ends(Err(RegistryErrorOf::DuplicateName { name: taken })),
                Err(e) => Register { name, phase: RegisterPhase::Done }.ends(
                    Err(RegistryErrorOf::Store(e)),
                ),
                Ok(_) => {
                    let home = self.agent_home(&name);
                    (
                        Register { name, phase: RegisterPhase::Home { instance, adapter } },
                        RegisterAction::MakeHome(home),
                    )
                },
            },
            (RegisterPhase::Home { instance, adapter }, RegisterEvent::Home(r)) => match r {
                Err(e) => {
                    let home = self.agent_home(&name);
                    Register { name, phase: RegisterPhase::Done }.undoes(home, e)
                },
                Ok(_) => {
                    let path = self.paths().instance_config(&name);
                    let body = seed_config_text(&name);
                    (
                        Register { name, phase: RegisterPhase::Config { instance, adapter } },
                        RegisterAction::WriteConfig { path, body },
                    )
                },
            },
            (RegisterPhase::Config { instance, adapter }, RegisterEvent::Config(r)) => match r {
                Err(e) => {
                    let path = self.paths().instance_config(&name);
                    Register { name, phase: RegisterPhase::Done }.undoes(path, e)
                },
                Ok(_) => {
                    let path = self.adapter_snapshot_path(&name);
                    (
                        Register { name, phase: RegisterPhase::Snapshot { instance } },
                        RegisterAction::WriteSnapshot { path, snapshot: adapter },
                    )
                },
            },
            (RegisterPhase::Snapshot { instance }, RegisterEvent::Snapshot(r)) => match r {
                Err(e) => {
                    let path = self.adapter_snapshot_path(&name);
                    Register { name, phase: RegisterPhase::Done }.undoes(path, e)
                },
                Ok(_) => Register { name, phase: RegisterPhase::Done }.ends(Ok(instance)),
            },
            (RegisterPhase::Rollback { failure }, RegisterEvent::RolledBack(r)) => {
                let outcome = match r {
                    Ok(_) => failure,
                    Err(e) => RegistryErrorOf::RegisterOrphanRow {
                        name: name.to_text(),
                        home_error: failure.message(),
                        rollback_error: e.message(),
                    },
                };
                let home = self.agent_home(&name);
                (
                    Register { name, phase: RegisterPhase::Clear { outcome } },
                    RegisterAction::ClearHome(home),
                )
            },
            (RegisterPhase::Clear { outcome }, RegisterEvent::Cleared) => Register {
                name,
                phase: RegisterPhase::Done,
            }.ends(Err(outcome)),
            (phase, _) => (Register { name, phase }, RegisterAction::Misfit),
        }
    }
}

/// Whether an answer is one to what is waited for.
pub open spec fn register_fits(run: RegisterModel, event: RegisterEventModel) -> bool {
    match run.phase {
        RegisterPhaseModel::Adapter => event is Adapter,
        RegisterPhaseModel::Row { .. } => event is Row,
        RegisterPhaseModel::Home { .. } => event is Home,
        RegisterPhaseModel::Config { .. } => event is Config,
        RegisterPhaseModel::Snapshot { .. } => event is Snapshot,
        RegisterPhaseModel::Rollback { .. } => event is RolledBack,
        RegisterPhaseModel::Clear { .. } => event is Cleared,
        RegisterPhaseModel::Done => false,
    }
}

/// Where a registration is after some answers.
pub open spec fn register_at(
    base: PathBuf,
    name: Seq<char>,
    answers: Seq<RegisterEventModel>,
    n: int,
) -> RegisterModel
    decreases n,
{
    if n <= 0 {
        RegisterModel { name, phase: RegisterPhaseModel::Adapter }
    } else {
        register_next(base, register_at(base, name, answers, n - 1), answers[n - 1]).0
    }
}

/// What a registration asks for on an answer.
pub open spec fn register_action_at(
    base: PathBuf,
    name: Seq<char>,
    answers: Seq<RegisterEventModel>,
    i: int,
) -> RegisterActionModel {
    register_next(base, register_at(base, name, answers, i), answers[i]).1
}

/// Whether every answer is one to what was asked.
pub open spec fn register_answered(
    base: PathBuf,
    name: Seq<char>,
    answers: Seq<RegisterEventModel>,
) -> bool {
    forall|i: int|
        0 <= i < answers.len() ==> register_fits(
            register_at(base, name, answers, i),
            #[trigger] answers[i],
        )
}

/// Whether the row is in the store after some answers.
pub open spec fn row_is_stored(answers: Seq<RegisterEventModel>, n: int) -> bool
    decreases n,
{
    if n <= 0 {
        false
    } else {
        match answers[n - 1] {
            RegisterEventModel::Row(Ok(_)) => true,
            RegisterEventModel::RolledBack(Ok(_)) => false,
            _ => row_is_stored(answers, n - 1),
        }
    }
}

/// Whether the first answers of a registration, as far as there are that many, say that all went
/// well.
pub open spec fn all_went_well(answers: Seq<RegisterEventModel>, n: int) -> bool {
    &&& n >= 1 ==> (answers[0] matches RegisterEventModel::Adapter(Ok(_)))
    &&& n >= 2 ==> (answers[1] matches RegisterEventModel::Row(Ok(_)))
    &&& n >= 3 ==> (answers[2] matches RegisterEventModel::Home(Ok(_)))
    &&& n >= 4 ==> (answers[3] matches RegisterEventModel::Config(Ok(_)))
    &&& n >= 5 ==> (answers[4] matches RegisterEventModel::Snapshot(Ok(_)))
}

pub(crate) proof fn lemma_register_phase(
    base: PathBuf,
    name: Seq<char>,
    answers: Seq<RegisterEventModel>,
    n: int,
)
    requires
        register_answered(base, name, answers),
        0 <= n <= answers.len(),
    ensures
        ({
            let run = register_at(base, name, answers, n);
            let stored = row_is_stored(answers, n);
            &&& run.name == name
            &&& match run.phase {
                RegisterPhaseModel::Adapter => n == 0 && !stored,
                RegisterPhaseModel::Row { instance, adapter } => {
                    &&& n == 1 && !stored && all_went_well(answers, 1)
                    &&& answers[0] matches RegisterEventModel::Adapter(Ok((given, now)))
                    &&& given == adapter && instance == new_row(base, name, adapter.kind, now)
                },
                RegisterPhaseModel::Home { instance, adapter } => {
                    &&& n == 2 && stored && all_went_well(answers, 2)
                    &&& answers[0] matches RegisterEventModel::Adapter(Ok((given, now)))
                    &&& given == adapter && instance == new_row(base, name, adapter.kind, now)
                },
                RegisterPhaseModel::Config { instance, adapter } => {
                    &&& n == 3 && stored && all_went_well(answers, 3)
                    &&& answers[0] matches RegisterEventModel::Adapter(Ok((given, now)))
                    &&& given == adapter && instance == new_row(base, name, adapter.kind, now)
                },
                RegisterPhaseModel::Snapshot { instance } => {
                    &&& n == 4 && stored && all_went_well(answers, 4)
                    &&& answers[0] matches RegisterEventModel::Adapter(Ok((given, now)))
                    &&& instance == new_row(base, name, given.kind, now)
                },
                RegisterPhaseModel::Rollback { failure } => n >= 3 && stored && failure is Io,
                RegisterPhaseModel::Clear { outcome } => {
                    &&& n >= 4
                    &&& answers[n - 1] is RolledBack
                    &&& stored == (answers[n - 1] matches RegisterEventModel::RolledBack(Err(_)))
                    &&& stored == (outcome is RegisterOrphanRow)
                },
                RegisterPhaseModel::Done => n >= 1,
            }
        }),
    decreases n,
{
    if n > 0 {
        lemma_register_phase(base, name, answers, n - 1);
        assert(register_fits(register_at(base, name, answers, n - 1), answers[n - 1]));
    }
}

/// A registration that fails leaves no row behind, unless taking the row back is what
/// failed: then, and only then, it says so.
pub proof fn law_a_failed_registration_leaves_no_row(
    base: PathBuf,
    name: Seq<char>,
    answers: Seq<RegisterEventModel>,
    i: int,
    e: RegistryErrorModel,
)
    requires
        register_answered(base, name, answers),
        0 <= i < answers.len(),
        register_action_at(base, name, answers, i) == RegisterActionModel::Finish(Err(e)),
    ensures
        row_is_stored(answers, i + 1) ==> e is RegisterOrphanRow,
        i > 0 ==> (row_is_stored(answers, i + 1) <==> e is RegisterOrphanRow),
        row_is_stored(answers, i + 1) ==> answers[i - 1] matches RegisterEventModel::RolledBack(
            Err(_),
        ),
{
    lemma_register_phase(base, name, answers, i);
    assert(register_fits(register_at(base, name, answers, i), answers[i]));
}

/// A registration that succeeds has stored the row it hands out, made the home, and
/// written the config and the adapter's snapshot, each after the one before went well.
pub proof fn law_a_registration_is_complete(
    base: PathBuf,
    name: Seq<char>,
    answers: Seq<RegisterEventModel>,
    i: int,
    instance: AgentInstanceModel,
)
    requires
        register_answered(base, name, answers),
        0 <= i < answers.len(),
        register_action_at(base, name, answers, i) == RegisterActionModel::Finish(Ok(instance)),
    ensures
        i == 4,
        answers[0] matches RegisterEventModel::Adapter(Ok((adapter, now))) && instance == new_row(
            base,
            name,
            adapter.kind,
            now,
        ),
        register_action_at(base, name, answers, 0) == RegisterActionModel::StoreRow(instance),
        answers[1] matches RegisterEventModel::Row(Ok(_)),
        answers[2] matches RegisterEventModel::Home(Ok(_)),
        answers[3] matches RegisterEventModel::Config(Ok(_)),
        answers[4] matches RegisterEventModel::Snapshot(Ok(_)),
        row_is_stored(answers, 5),
{
    lemma_register_phase(base, name, answers, i);
    assert(register_fits(register_at(base, name, answers, i), answers[i]));
    lemma_register_phase(base, name, answers, 0);
    lemma_register_phase(base, name, answers, 1);
    assert(register_at(base, name, answers, 0) == (RegisterModel {
        name,
        phase: RegisterPhaseModel::Adapter,
    }));
    assert(row_is_stored(answers, i));
}

/// No file is touched before the row is stored: a name that is taken, or an adapter that
/// does not resolve, leaves every home as it is.
pub proof fn law_homes_are_touched_only_after_the_row(
    base: PathBuf,
    name: Seq<char>,
    answers: Seq<RegisterEventModel>,
    i: int,
)
    requires
        register_answered(base, name, answers),
        0 <= i < answers.len(),
        ({
            let asked = register_action_at(base, name, answers, i);
            asked is MakeHome || asked is WriteConfig || asked is WriteSnapshot || asked is ClearHome
        }),
    ensures
        i >= 1,
        answers[1] matches RegisterEventModel::Row(Ok(_)),
        register_action_at(base, name, answers, i) matches RegisterActionModel::MakeHome(path)
            ==> path == home_path(base, name),
        register_action_at(base, name, answers, i) matches RegisterActionModel::ClearHome(path)
            ==> path == home_path(base, name),
{
    lemma_register_phase(base, name, answers, i);
    assert(register_fits(register_at(base, name, answers, i), answers[i]));
    lemma_register_reached_the_row(base, name, answers, i);
}

proof fn lemma_register_reached_the_row(
    base: PathBuf,
    name: Seq<char>,
    answers: Seq<RegisterEventModel>,
    n: int,
)
    requires
        register_answered(base, name, answers),
        0 <= n <= answers.len(),
    ensures
        ({
            let phase = register_at(base, name, answers, n).phase;
            n >= 2 && !(phase is Done) ==> answers[1] matches RegisterEventModel::Row(Ok(_))
        }),
    decreases n,
{
    if n > 0 {
        lemma_register_phase(base, name, answers, n - 1);
        lemma_register_reached_the_row(base, name, answers, n - 1);
        assert(register_fits(register_at(base, name, answers, n - 1), answers[n - 1]));
    }
}

/// What a registration does with an adapter that resolves: it stores a row with the kind of the
/// adapter, the state `registered`, the home of the name below the base, and the time
/// it was given, as the time of registration and of the last change; it makes that home, writes
/// the config that names the instance and the snapshot of that adapter into it, and ends with that
/// row.
#[verifier::spinoff_prover]
pub proof fn law_a_registration_does_what_was_answered(
    base: PathBuf,
    name: Seq<char>,
    adapter: AdapterSnapshotModel,
    now: Seq<char>,
)
    ensures
        ({
            let home = home_path(base, name);
            let row = AgentInstanceModel {
                name,
                kind: adapter.kind,
                state: LifecycleState::Registered,
                agent_home: path_text(home),
                created_at: now,
                updated_at: now,
            };
            let begun = RegisterModel { name, phase: RegisterPhaseModel::Adapter };
            let resolved = register_next(
                base,
                begun,
                RegisterEventModel::Adapter(Ok((adapter, now))),
            );
            let stored = register_next(base, resolved.0, RegisterEventModel::Row(Ok(())));
            let made = register_next(base, stored.0, RegisterEventModel::Home(Ok(())));
            let written = register_next(base, made.0, RegisterEventModel::Config(Ok(())));
            let kept = register_next(base, written.0, RegisterEventModel::Snapshot(Ok(())));
            &&& resolved.1 == RegisterActionModel::StoreRow(row)
            &&& stored.1 == RegisterActionModel::MakeHome(home)
            &&& made.1 == RegisterActionModel::WriteConfig {
                path: joined(home, INSTANCE_CONFIG_FILE@),
                body: "# Ktesio Agent Instance config (instance layer).\n# Managed by the engine; edit with care.\nname = \""@
                    + name + "\"\n"@,
            }
            &&& written.1 == RegisterActionModel::WriteSnapshot {
                path: joined(home, ADAPTER_SNAPSHOT_FILE@),
                snapshot: adapter,
            }
            &&& kept.1 == RegisterActionModel::Finish(Ok(row))
        }),
{
}

/// How a registration fails: an adapter that does not resolve and a row that cannot be stored end
/// it at once, with the failure, a name that is taken being told as such. A home, a config
/// or a snapshot that cannot be made has the row taken back and the home cleared, and the
/// registration ends with that failure, told of that path; where the row could not be taken
/// back, it says so with both failures.
#[verifier::spinoff_prover]
#[verifier::rlimit(60)]
pub proof fn law_a_registration_ends_with_what_fails(
    base: PathBuf,
    name: Seq<char>,
    adapter: AdapterSnapshotModel,
    now: Seq<char>,
    unresolved: RegistryErrorModel,
    store: StoreErrorModel,
    taken: Seq<char>,
    source: Seq<char>,
    at: int,
)
    requires
        0 <= at < 3,
        !(store is DuplicateName),
    ensures
        ({
            let home = home_path(base, name);
            let begun = RegisterModel { name, phase: RegisterPhaseModel::Adapter };
            let resolved = register_next(
                base,
                begun,
                RegisterEventModel::Adapter(Ok((adapter, now))),
            );
            let stored = register_next(base, resolved.0, RegisterEventModel::Row(Ok(())));
            let made = register_next(base, stored.0, RegisterEventModel::Home(Ok(())));
            let written = register_next(base, made.0, RegisterEventModel::Config(Ok(())));
            let failed = if at == 0 {
                register_next(base, stored.0, RegisterEventModel::Home(Err(source)))
            } else if at == 1 {
                register_next(base, made.0, RegisterEventModel::Config(Err(source)))
            } else {
                register_next(base, written.0, RegisterEventModel::Snapshot(Err(source)))
            };
            let path = if at == 0 {
                home
            } else if at == 1 {
                joined(home, INSTANCE_CONFIG_FILE@)
            } else {
                joined(home, ADAPTER_SNAPSHOT_FILE@)
            };
            let why = RegistryErrorModel::Io { name, path: path_text(path), source };
            let back = register_next(base, failed.0, RegisterEventModel::RolledBack(Ok(())));
            let stuck = register_next(base, failed.0, RegisterEventModel::RolledBack(Err(store)));
            &&& register_next(base, begun, RegisterEventModel::Adapter(Err(unresolved))).1
                == RegisterActionModel::Finish(Err(unresolved))
            &&& register_next(
                base,
                resolved.0,
                RegisterEventModel::Row(Err(StoreErrorOf::DuplicateName { name: taken })),
            ).1 == RegisterActionModel::Finish(
                Err(RegistryErrorModel::DuplicateName { name: taken }),
            )
            &&& register_next(base, resolved.0, RegisterEventModel::Row(Err(store))).1
                == RegisterActionModel::Finish(Err(RegistryErrorModel::Store(store)))
            &&& failed.1 is DeleteRow
            &&& back.1 == RegisterActionModel::ClearHome(home)
            &&& register_next(base, back.0, RegisterEventModel::Cleared).1
                == RegisterActionModel::Finish(Err(why))
            &&& stuck.1 == RegisterActionModel::ClearHome(home)
            &&& register_next(base, stuck.0, RegisterEventModel::Cleared).1
                == RegisterActionModel::Finish(
                Err(
                    RegistryErrorModel::RegisterOrphanRow {
                        name,
                        home_error: why.text(),
                        rollback_error: store.text(),
                    },
                ),
            )
        }),
{
}

/// A registration takes the answer to what it asked for and no other: any other answer changes nothing,
/// and after its end every answer is such a one.
#[verifier::spinoff_prover]
#[verifier::rlimit(60)]
pub proof fn law_a_registration_takes_only_its_answer(
    base: PathBuf,
    run: RegisterModel,
    event: RegisterEventModel,
    later: RegisterEventModel,
)
    ensures
        ({
            let step = register_next(base, run, event);
            &&& step.1 is Misfit <==> !register_fits(run, event)
            &&& !register_fits(run, event) ==> step.0 == run
            &&& step.1 is Finish ==> register_next(base, step.0, later).1 is Misfit
        }),
{
}

} // verus!
