//! Starting an instance, by hand or after a crash.
//!
//! A [`Start`] asks for one action at a time and takes the answer. Everything
//! that can refuse the start is asked before the instance enters `starting`; the
//! spawn record is committed before it enters `running`.
use crate::capability::{Capability, SupportLevel};
use crate::duration::Duration;
use crate::error::{
    config_apply_to_engine, config_to_engine, launch_to_engine, registry_to_engine,
    registry_to_engine_spec, secret_to_engine, snapshot_to_engine, snapshot_to_engine_spec,
    BackendError, BackendErrorOf, ConfigApplyErrorOf, ConfigErrorOf, EngineError, EngineErrorModel,
    EngineErrorOf, LaunchResolveErrorOf, RegistryErrorOf, SecretErrorOf,
};
use crate::event::{BreachDimension, BreachScope, CauseModel, TransitionCause, TransitionCauseOf};
use crate::lifecycle::{LifecycleCommand, LifecycleError, LifecycleState};
use crate::name::{name_fault, InstanceName};
use crate::restart::RestartPolicy;
use crate::supervisor::{
    start_gate, start_gate_spec, Supervised, SupervisedModel, Supervisor, SupervisorModel,
    ENGINE_OBSERVED,
};
use crate::text::{dec_signed, push_dec_signed, same_text};
use crate::usage::{run_id_text, RunId};
use vstd::prelude::*;

verus! {

/// The unified-config key of the upstream URL that observed traffic goes to.
pub const METERING_UPSTREAM_BASE_URL_KEY: &'static str = "metering.upstream_base_url";

/// What a [`Start`] waits for.
#[derive(Clone, Copy, Debug, PartialEq, Eq, Structural)]
pub enum StartPhase {
    /// The stored row.
    Row,
    /// Whether a launch was kept at registration.
    LaunchFacts,
    /// The launch, made out anew.
    Launch,
    /// The metering source.
    Source,
    /// How well input is supported.
    Support,
    /// The effective configuration.
    Config,
    /// The config mapping of the adapter.
    Mapping,
    /// The metering listener.
    Listener,
    /// The configuration with the listener's address in it.
    Overridden,
    /// The secrets of the configuration.
    Secrets,
    /// The configuration handed to the launch.
    Applied,
    /// The written config snapshot.
    Snapshot,
    /// The restart policy.
    Policy,
    /// The log directory.
    LogDir,
    /// The length of the output log.
    LogLength,
    /// The transition into `starting`.
    EnterStarting,
    /// The process.
    Spawned,
    /// The end of the startup window.
    Startup,
    /// The committed spawn record.
    Recorded,
    /// The end of the process that could not be recorded.
    Killed,
    /// The transition into `failed`.
    EnterFailed,
    /// The transition into `running`.
    EnterRunning,
    /// A time and a nonce for the run.
    Minted,
    /// The row as it now stands.
    Settled,
    /// Nothing; the start has ended.
    Done,
}

/// A start under way.
pub struct Start {
    name: InstanceName,
    restart: Option<(u32, Duration)>,
    phase: StartPhase,
    prior: LifecycleState,
    source: String,
    upstream: Option<String>,
    pipe_stdin: bool,
    observed: bool,
    policy: RestartPolicy,
    cursor: u64,
    failure: String,
}

/// The model of a [`Start`].
pub struct StartModel {
    /// The instance.
    pub name: Seq<char>,
    /// Which restart in a row this is and how long the engine waited for it; none
    /// for a start by hand.
    pub restart: Option<(u32, Duration)>,
    /// What is waited for.
    pub phase: StartPhase,
    /// The state the instance was in.
    pub prior: LifecycleState,
    /// The metering source.
    pub source: Seq<char>,
    /// The configured upstream URL.
    pub upstream: Option<Seq<char>>,
    /// Whether the process gets an input pipe.
    pub pipe_stdin: bool,
    /// Whether its traffic is observed.
    pub observed: bool,
    /// The restart policy.
    pub policy: RestartPolicy,
    /// The length of the output log before the process writes to it.
    pub cursor: u64,
    /// Why the launch failed, once it has.
    pub failure: Seq<char>,
}

impl View for Start {
    type V = StartModel;

    closed spec fn view(&self) -> StartModel {
        StartModel {
            name: self.name@,
            restart: self.restart,
            phase: self.phase,
            prior: self.prior,
            source: self.source@,
            upstream: match self.upstream {
                Some(url) => Some(url@),
                None => None,
            },
            pipe_stdin: self.pipe_stdin,
            observed: self.observed,
            policy: self.policy,
            cursor: self.cursor,
            failure: self.failure@,
        }
    }
}

/// A log directory that could not be made.
#[derive(Clone, Debug, PartialEq, Eq)]
pub struct LogFailureOf<S> {
    /// Its path.
    pub path: S,
    /// Why.
    pub detail: S,
}

/// A log directory that could not be made.
pub type LogFailure = LogFailureOf<String>;

/// The model of a [`LogFailure`].
pub type LogFailureModel = LogFailureOf<Seq<char>>;

impl View for LogFailureOf<String> {
    type V = LogFailureModel;

    open spec fn view(&self) -> LogFailureModel {
        LogFailureOf { path: self.path@, detail: self.detail@ }
    }
}

/// The answer to an action of a [`Start`].
pub enum StartEventOf<S> {
    /// The state in the stored row.
    Row(Result<LifecycleState, RegistryErrorOf<S>>),
    /// Whether a launch was kept at registration.
    LaunchFacts(Result<bool, RegistryErrorOf<S>>),
    /// Whether a launch could be made out.
    Launch(Result<(), LaunchResolveErrorOf<S>>),
    /// The metering source.
    Source(Result<S, RegistryErrorOf<S>>),
    /// How well input is supported.
    Support(Result<SupportLevel, RegistryErrorOf<S>>),
    /// The upstream URL in the effective configuration.
    Config(Result<Option<S>, ConfigErrorOf<S>>),
    /// Whether the config mapping could be made out.
    Mapping(Result<(), LaunchResolveErrorOf<S>>),
    /// The address of the metering listener, or why there is none.
    Listener(Result<S, S>),
    /// Whether the configuration could be read with that address in it.
    Overridden(Result<(), ConfigErrorOf<S>>),
    /// Whether the secrets could be resolved.
    Secrets(Result<(), SecretErrorOf<S>>),
    /// Whether the configuration could be handed to the launch.
    Applied(Result<(), ConfigApplyErrorOf<S>>),
    /// Whether the config snapshot could be written.
    Snapshot(Result<(), RegistryErrorOf<S>>),
    /// The restart policy.
    Policy(Result<RestartPolicy, RegistryErrorOf<S>>),
    /// Whether there is a log directory.
    LogDir(Result<(), LogFailureOf<S>>),
    /// The length of the output log.
    LogLength(u64),
    /// Whether a transition could be made.
    Transitioned(Result<(), EngineErrorOf<S>>),
    /// Whether the process could be spawned.
    Spawned(Result<(), BackendErrorOf<S>>),
    /// The exit code, if the process ended within the startup window.
    Startup(Option<Option<i32>>),
    /// Whether the spawn record could be committed.
    Recorded(Result<(), RegistryErrorOf<S>>),
    /// The process is gone.
    Killed,
    /// A time and a nonce.
    Minted {
        /// Nanoseconds since the epoch.
        nanos: u128,
        /// A number handed out once.
        nonce: u64,
    },
}

/// The answer to an action of a [`Start`].
pub type StartEvent = StartEventOf<String>;

/// The model of a [`StartEvent`].
pub type StartEventModel = StartEventOf<Seq<char>>;

impl View for StartEventOf<String> {
    type V = StartEventModel;

    open spec fn view(&self) -> StartEventModel {
        match self {
            StartEventOf::Row(r) => StartEventOf::Row(
                match r {
                    Ok(state) => Ok(*state),
                    Err(e) => Err(e@),
                },
            ),
            StartEventOf::LaunchFacts(r) => StartEventOf::LaunchFacts(
                match r {
                    Ok(kept) => Ok(*kept),
                    Err(e) => Err(e@),
                },
            ),
            StartEventOf::Launch(r) => StartEventOf::Launch(
                match r {
                    Ok(_) => Ok(()),
                    Err(e) => Err(e@),
                },
            ),
            StartEventOf::Source(r) => StartEventOf::Source(
                match r {
                    Ok(source) => Ok(source@),
                    Err(e) => Err(e@),
                },
            ),
            StartEventOf::Support(r) => StartEventOf::Support(
                match r {
                    Ok(level) => Ok(*level),
                    Err(e) => Err(e@),
                },
            ),
            StartEventOf::Config(r) => StartEventOf::Config(
                match r {
                    Ok(Some(url)) => Ok(Some(url@)),
                    Ok(None) => Ok(None),
                    Err(e) => Err(e@),
                },
            ),
            StartEventOf::Mapping(r) => StartEventOf::Mapping(
                match r {
                    Ok(_) => Ok(()),
                    Err(e) => Err(e@),
                },
            ),
            StartEventOf::Listener(r) => StartEventOf::Listener(
                match r {
                    Ok(url) => Ok(url@),
                    Err(e) => Err(e@),
                },
            ),
            StartEventOf::Overridden(r) => StartEventOf::Overridden(
                match r {
                    Ok(_) => Ok(()),
                    Err(e) => Err(e@),
                },
            ),
            StartEventOf::Secrets(r) => StartEventOf::Secrets(
                match r {
                    Ok(_) => Ok(()),
                    Err(e) => Err(e@),
                },
            ),
            StartEventOf::Applied(r) => StartEventOf::Applied(
                match r {
                    Ok(_) => Ok(()),
                    Err(e) => Err(e@),
                },
            ),
            StartEventOf::Snapshot(r) => StartEventOf::Snapshot(
                match r {
                    Ok(_) => Ok(()),
                    Err(e) => Err(e@),
                },
            ),
            StartEventOf::Policy(r) => StartEventOf::Policy(
                match r {
                    Ok(policy) => Ok(*policy),
                    Err(e) => Err(e@),
                },
            ),
            StartEventOf::LogDir(r) => StartEventOf::LogDir(
                match r {
                    Ok(_) => Ok(()),
                    Err(e) => Err(e@),
                },
            ),
            StartEventOf::LogLength(n) => StartEventOf::LogLength(*n),
            StartEventOf::Transitioned(r) => StartEventOf::Transitioned(
                match r {
                    Ok(_) => Ok(()),
                    Err(e) => Err(e@),
                },
            ),
            StartEventOf::Spawned(r) => StartEventOf::Spawned(
                match r {
                    Ok(_) => Ok(()),
                    Err(e) => Err(e@),
                },
            ),
            StartEventOf::Startup(exit) => StartEventOf::Startup(*exit),
            StartEventOf::Recorded(r) => StartEventOf::Recorded(
                match r {
                    Ok(_) => Ok(()),
                    Err(e) => Err(e@),
                },
            ),
            StartEventOf::Killed => StartEventOf::Killed,
            StartEventOf::Minted { nanos, nonce } => StartEventOf::Minted {
                nanos: *nanos,
                nonce: *nonce,
            },
        }
    }
}

/// Which of the two configurations of a start is meant.
#[derive(Clone, Copy, Debug, PartialEq, Eq, Structural)]
pub enum ConfigChoice {
    /// The effective one.
    Plain,
    /// The effective one with the listener's address in it.
    WithListener,
}

/// What a [`Start`] asks for.
pub enum StartActionOf<S> {
    /// Look the instance up.
    ReadRow,
    /// Look up whether a launch was kept at registration.
    ReadLaunchFacts,
    /// Make out the launch from the adapter.
    ResolveLaunch,
    /// Look up the metering source.
    ReadSource,
    /// Look up how well a capability is supported here.
    ReadSupport(Capability),
    /// Resolve the effective configuration.
    ReadConfig,
    /// Make out the config mapping of the adapter.
    ReadMapping,
    /// Start a metering listener that forwards to an upstream URL.
    StartListener {
        /// The URL.
        upstream: S,
    },
    /// Resolve the effective configuration with the listener's address in it.
    ReadConfigWith {
        /// The address.
        base_url: S,
    },
    /// Resolve the secrets of a configuration.
    ResolveSecrets(ConfigChoice),
    /// Hand a configuration to the launch.
    ApplyMapping(ConfigChoice),
    /// Write the snapshot of a configuration.
    WriteSnapshot(ConfigChoice),
    /// Look up the restart policy.
    ReadPolicy,
    /// Make the log directory.
    EnsureLogDir,
    /// Measure the output log.
    MeasureLog,
    /// Record a change of state.
    Transition {
        /// The state left.
        prior: LifecycleState,
        /// The state entered.
        new: LifecycleState,
        /// Why.
        cause: TransitionCauseOf<S>,
    },
    /// Spawn the process.
    Spawn {
        /// Whether it gets an input pipe.
        pipe_stdin: bool,
    },
    /// Watch the process through the startup window.
    WatchStartup,
    /// Commit the spawn record.
    WriteRecord {
        /// The restart policy in it.
        policy: RestartPolicy,
        /// The restart count in it.
        restart_count: u32,
    },
    /// End the spawned process.
    Kill,
    /// Give a time and a nonce.
    Mint,
    /// Nothing: the answer does not fit what was asked; the start still waits.
    Misfit,
    /// Nothing more: the start has ended, with the state in the row or an error.
    Finish(Result<LifecycleState, EngineErrorOf<S>>),
}

/// What a [`Start`] asks for.
pub type StartAction = StartActionOf<String>;

/// The model of a [`StartAction`].
pub type StartActionModel = StartActionOf<Seq<char>>;

impl View for StartActionOf<String> {
    type V = StartActionModel;

    open spec fn view(&self) -> StartActionModel {
        match self {
            StartActionOf::ReadRow => StartActionOf::ReadRow,
            StartActionOf::ReadLaunchFacts => StartActionOf::ReadLaunchFacts,
            StartActionOf::ResolveLaunch => StartActionOf::ResolveLaunch,
            StartActionOf::ReadSource => StartActionOf::ReadSource,
            StartActionOf::ReadSupport(c) => StartActionOf::ReadSupport(*c),
            StartActionOf::ReadConfig => StartActionOf::ReadConfig,
            StartActionOf::ReadMapping => StartActionOf::ReadMapping,
            StartActionOf::StartListener { upstream } => StartActionOf::StartListener {
                upstream: upstream@,
            },
            StartActionOf::ReadConfigWith { base_url } => StartActionOf::ReadConfigWith {
                base_url: base_url@,
            },
            StartActionOf::ResolveSecrets(choice) => StartActionOf::ResolveSecrets(*choice),
            StartActionOf::ApplyMapping(choice) => StartActionOf::ApplyMapping(*choice),
            StartActionOf::WriteSnapshot(choice) => StartActionOf::WriteSnapshot(*choice),
            StartActionOf::ReadPolicy => StartActionOf::ReadPolicy,
            StartActionOf::EnsureLogDir => StartActionOf::EnsureLogDir,
            StartActionOf::MeasureLog => StartActionOf::MeasureLog,
            StartActionOf::Transition { prior, new, cause } => StartActionOf::Transition {
                prior: *prior,
                new: *new,
                cause: cause@,
            },
            StartActionOf::Spawn { pipe_stdin } => StartActionOf::Spawn { pipe_stdin: *pipe_stdin },
            StartActionOf::WatchStartup => StartActionOf::WatchStartup,
            StartActionOf::WriteRecord { policy, restart_count } => StartActionOf::WriteRecord {
                policy: *policy,
                restart_count: *restart_count,
            },
            StartActionOf::Kill => StartActionOf::Kill,
            StartActionOf::Mint => StartActionOf::Mint,
            StartActionOf::Misfit => StartActionOf::Misfit,
            StartActionOf::Finish(r) => StartActionOf::Finish(
                match r {
                    Ok(state) => Ok(*state),
                    Err(e) => Err(e@),
                },
            ),
        }
    }
}

/// The start of `name` before anything has been asked.
pub open spec fn start_begin(name: Seq<char>, restart: Option<(u32, Duration)>) -> StartModel {
    StartModel {
        name,
        restart,
        phase: StartPhase::Row,
        prior: LifecycleState::Registered,
        source: ""@,
        upstream: None,
        pipe_stdin: false,
        observed: false,
        policy: RestartPolicy::fallback(),
        cursor: 0,
        failure: ""@,
    }
}

/// Whether an answer is one to what a start waits for.
pub open spec fn start_fits(run: StartModel, event: StartEventModel) -> bool {
    match run.phase {
        StartPhase::Row | StartPhase::Settled => event is Row,
        StartPhase::LaunchFacts => event is LaunchFacts,
        StartPhase::Launch => event is Launch,
        StartPhase::Source => event is Source,
        StartPhase::Support => event is Support,
        StartPhase::Config => event is Config,
        StartPhase::Mapping => event is Mapping,
        StartPhase::Listener => event is Listener,
        StartPhase::Overridden => event is Overridden,
        StartPhase::Secrets => event is Secrets,
        StartPhase::Applied => event is Applied,
        StartPhase::Snapshot => event is Snapshot,
        StartPhase::Policy => event is Policy,
        StartPhase::LogDir => event is LogDir,
        StartPhase::LogLength => event is LogLength,
        StartPhase::EnterStarting | StartPhase::EnterFailed | StartPhase::EnterRunning => event is
            Transitioned,
        StartPhase::Spawned => event is Spawned,
        StartPhase::Startup => event is Startup,
        StartPhase::Recorded => event is Recorded,
        StartPhase::Killed => event is Killed,
        StartPhase::Minted => event is Minted,
        StartPhase::Done => false,
    }
}

/// A start that ends with `e`.
pub open spec fn start_ends(run: StartModel, e: EngineErrorModel) -> (StartModel, StartActionModel) {
    (StartModel { phase: StartPhase::Done, ..run }, StartActionOf::Finish(Err(e)))
}

/// A start that goes on to wait for `phase`, having asked for `action`.
pub open spec fn start_asks(
    run: StartModel,
    phase: StartPhase,
    action: StartActionModel,
) -> (StartModel, StartActionModel) {
    (StartModel { phase, ..run }, action)
}

/// A launch that failed: the instance goes from `starting` to `failed`.
pub open spec fn start_launch_fails(run: StartModel, detail: Seq<char>) -> (
    StartModel,
    StartActionModel,
) {
    (
        StartModel { phase: StartPhase::EnterFailed, failure: detail, ..run },
        StartActionOf::Transition {
            prior: LifecycleState::Starting,
            new: LifecycleState::Failed,
            cause: CauseModel::LaunchError { detail },
        },
    )
}

/// What is said of a process that ended within the startup window.
pub open spec fn startup_exit_text(code: Option<i32>) -> Seq<char> {
    match code {
        Some(c) => "exited immediately during startup with code "@ + dec_signed(c as int),
        None => "exited immediately during startup"@,
    }
}

/// The restart count of the spawn record: that of the restart, and none for a
/// start by hand.
pub open spec fn start_restart_count(restart: Option<(u32, Duration)>) -> u32 {
    match restart {
        Some((attempt, _)) => attempt,
        None => 0,
    }
}

/// Why the instance enters `running`.
pub open spec fn ready_cause(restart: Option<(u32, Duration)>) -> CauseModel {
    match restart {
        Some((attempt, waited)) => CauseModel::Restarted {
            count: attempt,
            waited_ms: (waited.nanos / 1_000_000) as u64,
        },
        None => CauseModel::AdapterReady,
    }
}

/// Whether and where observed traffic is forwarded: nothing is where the source
/// is another, and it is refused where no upstream is configured or the engine has
/// no runtime, in that order.
pub open spec fn observed_upstream(
    name: Seq<char>,
    source: Seq<char>,
    upstream: Option<Seq<char>>,
    has_runtime: bool,
) -> Result<Option<Seq<char>>, EngineErrorModel> {
    if source != ENGINE_OBSERVED@ {
        Ok(None)
    } else {
        match upstream {
            None => Err(
                EngineErrorModel::ObservedMetering {
                    name,
                    detail: "no upstream provider URL configured; set `"@
                        + METERING_UPSTREAM_BASE_URL_KEY@
                        + "` to the agent's real OpenAI-compatible endpoint"@,
                },
            ),
            Some(url) => if has_runtime {
                Ok(Some(url))
            } else {
                Err(
                    EngineErrorModel::ObservedMetering {
                        name,
                        detail:
                            "the engine has no runtime handle to run the loopback listener (engine-observed metering requires the async engine)"@,
                    },
                )
            },
        }
    }
}

/// The configuration that the process is launched with: the one with the listener's address
/// where its traffic is observed.
pub open spec fn launch_config(run: StartModel) -> ConfigChoice {
    if run.observed {
        ConfigChoice::WithListener
    } else {
        ConfigChoice::Plain
    }
}

/// What a start does with an answer: the table of its steps.
#[verifier::opaque]
pub open spec fn start_next(run: StartModel, event: StartEventModel, has_runtime: bool) -> (
    StartModel,
    StartActionModel,
) {
    let name = run.name;
    match (run.phase, event) {
        (StartPhase::Row, StartEventOf::Row(r)) => match r {
            Err(e) => start_ends(run, registry_to_engine_spec(e)),
            Ok(state) => match start_gate_spec(state, run.restart is Some) {
                Err(e) => start_ends(run, EngineErrorOf::InvalidTransition(e)),
                Ok(_) => start_asks(
                    StartModel { prior: state, ..run },
                    StartPhase::LaunchFacts,
                    StartActionOf::ReadLaunchFacts,
                ),
            },
        },
        (StartPhase::LaunchFacts, StartEventOf::LaunchFacts(r)) => match r {
            Err(e) => start_ends(run, registry_to_engine_spec(e)),
            Ok(true) => start_asks(run, StartPhase::Source, StartActionOf::ReadSource),
            Ok(false) => start_asks(run, StartPhase::Launch, StartActionOf::ResolveLaunch),
        },
        (StartPhase::Launch, StartEventOf::Launch(r)) => match r {
            Err(e) => start_ends(run, EngineErrorOf::AdapterUnresolved { name, detail: e.text() }),
            Ok(_) => start_asks(run, StartPhase::Source, StartActionOf::ReadSource),
        },
        (StartPhase::Source, StartEventOf::Source(r)) => match r {
            Err(e) => start_ends(run, registry_to_engine_spec(e)),
            Ok(source) => start_asks(
                StartModel { source, ..run },
                StartPhase::Support,
                StartActionOf::ReadSupport(Capability::Interaction),
            ),
        },
        (StartPhase::Support, StartEventOf::Support(r)) => match r {
            Err(e) => start_ends(run, registry_to_engine_spec(e)),
            Ok(level) => start_asks(
                StartModel { pipe_stdin: level != SupportLevel::Unsupported, ..run },
                StartPhase::Config,
                StartActionOf::ReadConfig,
            ),
        },
        (StartPhase::Config, StartEventOf::Config(r)) => match r {
            Err(e) => start_ends(run, EngineErrorOf::AdapterUnresolved { name, detail: e.text() }),
            Ok(upstream) => start_asks(
                StartModel { upstream, ..run },
                StartPhase::Mapping,
                StartActionOf::ReadMapping,
            ),
        },
        (StartPhase::Mapping, StartEventOf::Mapping(r)) => match r {
            Err(e) => start_ends(run, EngineErrorOf::AdapterUnresolved { name, detail: e.text() }),
            Ok(_) => match observed_upstream(name, run.source, run.upstream, has_runtime) {
                Err(e) => start_ends(run, e),
                Ok(None) => start_asks(
                    run,
                    StartPhase::Secrets,
                    StartActionOf::ResolveSecrets(launch_config(run)),
                ),
                Ok(Some(upstream)) => start_asks(
                    run,
                    StartPhase::Listener,
                    StartActionOf::StartListener { upstream },
                ),
            },
        },
        (StartPhase::Listener, StartEventOf::Listener(r)) => match r {
            Err(detail) => start_ends(run, EngineErrorOf::ObservedMetering { name, detail }),
            Ok(base_url) => start_asks(
                StartModel { observed: true, ..run },
                StartPhase::Overridden,
                StartActionOf::ReadConfigWith { base_url },
            ),
        },
        (StartPhase::Overridden, StartEventOf::Overridden(r)) => match r {
            Err(e) => start_ends(run, EngineErrorOf::AdapterUnresolved { name, detail: e.text() }),
            Ok(_) => start_asks(
                    run,
                    StartPhase::Secrets,
                    StartActionOf::ResolveSecrets(launch_config(run)),
                ),
        },
        (StartPhase::Secrets, StartEventOf::Secrets(r)) => match r {
            Err(e) => start_ends(run, EngineErrorOf::Secret { name, detail: e.text() }),
            Ok(_) => start_asks(
                run,
                StartPhase::Applied,
                StartActionOf::ApplyMapping(launch_config(run)),
            ),
        },
        (StartPhase::Applied, StartEventOf::Applied(r)) => match r {
            Err(e) => start_ends(run, EngineErrorOf::AdapterUnresolved { name, detail: e.text() }),
            Ok(_) => start_asks(
                run,
                StartPhase::Snapshot,
                StartActionOf::WriteSnapshot(ConfigChoice::Plain),
            ),
        },
        (StartPhase::Snapshot, StartEventOf::Snapshot(r)) => match r {
            Err(e) => start_ends(run, snapshot_to_engine_spec(e)),
            Ok(_) => start_asks(run, StartPhase::Policy, StartActionOf::ReadPolicy),
        },
        (StartPhase::Policy, StartEventOf::Policy(r)) => match r {
            Err(e) => start_ends(run, registry_to_engine_spec(e)),
            Ok(policy) => start_asks(
                StartModel { policy, ..run },
                StartPhase::LogDir,
                StartActionOf::EnsureLogDir,
            ),
        },
        (StartPhase::LogDir, StartEventOf::LogDir(r)) => match r {
            Err(e) => start_ends(
                run,
                EngineErrorOf::Log { name, path: e.path, detail: e.detail },
            ),
            Ok(_) => start_asks(run, StartPhase::LogLength, StartActionOf::MeasureLog),
        },
        (StartPhase::LogLength, StartEventOf::LogLength(cursor)) => start_asks(
            StartModel { cursor, ..run },
            StartPhase::EnterStarting,
            StartActionOf::Transition {
                prior: run.prior,
                new: LifecycleState::Starting,
                cause: CauseModel::Command { command: LifecycleCommand::Start.label() },
            },
        ),
        (StartPhase::EnterStarting, StartEventOf::Transitioned(r)) => match r {
            Err(e) => start_ends(run, e),
            Ok(_) => start_asks(
                run,
                StartPhase::Spawned,
                StartActionOf::Spawn { pipe_stdin: run.pipe_stdin },
            ),
        },
        (StartPhase::Spawned, StartEventOf::Spawned(r)) => match r {
            Err(e) => start_launch_fails(run, e.text()),
            Ok(_) => start_asks(run, StartPhase::Startup, StartActionOf::WatchStartup),
        },
        (StartPhase::Startup, StartEventOf::Startup(exit)) => match exit {
            Some(code) => start_launch_fails(run, startup_exit_text(code)),
            None => start_asks(
                run,
                StartPhase::Recorded,
                StartActionOf::WriteRecord {
                    policy: run.policy,
                    restart_count: start_restart_count(run.restart),
                },
            ),
        },
        (StartPhase::Recorded, StartEventOf::Recorded(r)) => match r {
            Err(e) => start_asks(
                StartModel {
                    failure: "could not commit the write-ahead spawn record: "@ + e.text(),
                    ..run
                },
                StartPhase::Killed,
                StartActionOf::Kill,
            ),
            Ok(_) => start_asks(
                run,
                StartPhase::EnterRunning,
                StartActionOf::Transition {
                    prior: LifecycleState::Starting,
                    new: LifecycleState::Running,
                    cause: ready_cause(run.restart),
                },
            ),
        },
        (StartPhase::Killed, StartEventOf::Killed) => start_launch_fails(run, run.failure),
        (StartPhase::EnterFailed, StartEventOf::Transitioned(r)) => match r {
            Err(e) => start_ends(run, e),
            Ok(_) => start_ends(run, EngineErrorOf::LaunchFailed { name, detail: run.failure }),
        },
        (StartPhase::EnterRunning, StartEventOf::Transitioned(r)) => match r {
            Err(e) => start_ends(run, e),
            Ok(_) => start_asks(run, StartPhase::Minted, StartActionOf::Mint),
        },
        (StartPhase::Minted, StartEventOf::Minted { .. }) => start_asks(
            run,
            StartPhase::Settled,
            StartActionOf::ReadRow,
        ),
        (StartPhase::Settled, StartEventOf::Row(r)) => match r {
            Err(e) => start_ends(run, registry_to_engine_spec(e)),
            Ok(state) => (
                StartModel { phase: StartPhase::Done, ..run },
                StartActionOf::Finish(Ok(state)),
            ),
        },
        _ => (run, StartActionOf::Misfit),
    }
}

/// What a start does to the supervised processes: the process is held once the
/// run has its identity, and nothing else ever changes.
pub open spec fn start_effect(
    supervisor: SupervisorModel,
    run: StartModel,
    event: StartEventModel,
) -> SupervisorModel {
    match (run.phase, event) {
        (StartPhase::Minted, StartEventOf::Minted { nanos, nonce }) => SupervisorModel {
            running: supervisor.running.insert(
                run.name,
                SupervisedModel::fresh(
                    run_id_text(nanos as nat, nonce as nat),
                    run.source,
                    run.cursor,
                    run.observed,
                ),
            ),
            ..supervisor
        },
        _ => supervisor,
    }
}

impl Start {
    /// The instance that is started.
    pub fn name(&self) -> (r: &InstanceName)
        ensures
            r@ == self@.name,
    {
        &self.name
    }

    fn begin(name: InstanceName, restart: Option<(u32, Duration)>) -> (r: Self)
        ensures
            r@ == start_begin(name@, restart),
    {
        Start {
            name,
            restart,
            phase: StartPhase::Row,
            prior: LifecycleState::Registered,
            source: "".to_owned(),
            upstream: None,
            pipe_stdin: false,
            observed: false,
            policy: RestartPolicy::OnFailure,
            cursor: 0,
            failure: "".to_owned(),
        }
    }

    fn ends(&mut self, e: EngineError) -> (r: StartAction)
        ensures
            (final(self)@, r@) == start_ends(old(self)@, e@),
    {
        self.phase = StartPhase::Done;
        StartActionOf::Finish(Err(e))
    }

    fn asks(&mut self, phase: StartPhase, action: StartAction) -> (r: StartAction)
        ensures
            (final(self)@, r@) == start_asks(old(self)@, phase, action@),
    {
        self.phase = phase;
        action
    }

    fn launch_choice(&self) -> (r: ConfigChoice)
        ensures
            r == launch_config(self@),
    {
        if self.observed {
            ConfigChoice::WithListener
        } else {
            ConfigChoice::Plain
        }
    }

    fn launch_fails(&mut self, detail: String) -> (r: StartAction)
        ensures
            (final(self)@, r@) == start_launch_fails(old(self)@, detail@),
    {
        self.failure = detail.clone();
        self.phase = StartPhase::EnterFailed;
        StartActionOf::Transition {
            prior: LifecycleState::Starting,
            new: LifecycleState::Failed,
            cause: TransitionCause::launch_error(detail),
        }
    }
}

/// How long a fresh process is watched, in milliseconds.
pub const READINESS_WINDOW_MILLIS: u64 = 300;

/// How long the watch sleeps between two looks, in milliseconds.
pub const READINESS_POLL_MILLIS: u64 = 10;

/// The exit that a look at a process shows, if it shows one. A look that fails shows none:
/// the next one will tell.
pub fn exit_shown(looked: Result<Option<Option<i32>>, BackendError>) -> (r: Option<Option<i32>>)
    ensures
        r == match looked {
            Ok(shown) => shown,
            Err(_) => None,
        },
{
    match looked {
        Ok(shown) => shown,
        Err(_) => None,
    }
}

/// What comes of a look at a fresh process.
#[derive(Clone, Copy, Debug, PartialEq, Eq, Structural)]
pub enum StartupWatch {
    /// The watch is over, with the exit code of the process if it ended.
    Over(Option<Option<i32>>),
    /// The process is to be looked at again, after this long.
    Again(Duration),
}

/// What comes of a look at a fresh process that has been watched for some time: an exit
/// ends the watch whenever it is seen, and the window ends it without one.
pub fn watch_startup(looked: Result<Option<Option<i32>>, BackendError>, watched: Duration) -> (r:
    StartupWatch)
    ensures
        match looked {
            Ok(Some(code)) => r == StartupWatch::Over(Some(code)),
            _ => if watched.nanos >= READINESS_WINDOW_MILLIS * 1_000_000 {
                r == StartupWatch::Over(None)
            } else {
                r matches StartupWatch::Again(nap) && nap.nanos == READINESS_POLL_MILLIS
                    * 1_000_000
            },
        },
{
    match exit_shown(looked) {
        Some(code) => StartupWatch::Over(Some(code)),
        None => if watched.nanos >= READINESS_WINDOW_MILLIS as u128 * 1_000_000 {
            StartupWatch::Over(None)
        } else {
            StartupWatch::Again(Duration::from_millis(READINESS_POLL_MILLIS))
        },
    }
}

/// Whether and where observed traffic is to be forwarded, or why it cannot be.
pub fn plan_observed_listener(
    name: &InstanceName,
    metering_source: &str,
    upstream: Option<&str>,
    has_runtime: bool,
) -> (r: Result<Option<String>, EngineError>)
    ensures
        match r {
            Ok(Some(url)) => observed_upstream(
                name@,
                metering_source@,
                str_option(upstream),
                has_runtime,
            ) == Ok::<Option<Seq<char>>, EngineErrorModel>(Some(url@)),
            Ok(None) => observed_upstream(
                name@,
                metering_source@,
                str_option(upstream),
                has_runtime,
            ) == Ok::<Option<Seq<char>>, EngineErrorModel>(None),
            Err(e) => observed_upstream(
                name@,
                metering_source@,
                str_option(upstream),
                has_runtime,
            ) == Err::<Option<Seq<char>>, EngineErrorModel>(e@),
        },
{
    if !same_text(metering_source, ENGINE_OBSERVED) {
        return Ok(None);
    }
    match upstream {
        None => {
            let mut detail = "no upstream provider URL configured; set `".to_owned();
            detail.append(METERING_UPSTREAM_BASE_URL_KEY);
            detail.append("` to the agent's real OpenAI-compatible endpoint");
            Err(EngineErrorOf::ObservedMetering { name: name.to_text(), detail })
        },
        Some(url) => {
            if has_runtime {
                Ok(Some(url.to_owned()))
            } else {
                Err(
                    EngineErrorOf::ObservedMetering {
                        name: name.to_text(),
                        detail:
                            "the engine has no runtime handle to run the loopback listener (engine-observed metering requires the async engine)".to_owned(),
                    },
                )
            }
        },
    }
}

/// The model of an optional text.
pub open spec fn str_option(text: Option<&str>) -> Option<Seq<char>> {
    match text {
        Some(t) => Some(t@),
        None => None,
    }
}

spec fn gather_phase(phase: StartPhase) -> bool {
    match phase {
        StartPhase::Row
        | StartPhase::LaunchFacts
        | StartPhase::Launch
        | StartPhase::Source
        | StartPhase::Support
        | StartPhase::Config
        | StartPhase::Mapping
        | StartPhase::Listener
        | StartPhase::Overridden => true,
        _ => false,
    }
}

spec fn prepare_phase(phase: StartPhase) -> bool {
    match phase {
        StartPhase::Secrets
        | StartPhase::Applied
        | StartPhase::Snapshot
        | StartPhase::Policy
        | StartPhase::LogDir
        | StartPhase::LogLength => true,
        _ => false,
    }
}

spec fn launch_phase(phase: StartPhase) -> bool {
    !gather_phase(phase) && !prepare_phase(phase) && phase != StartPhase::Minted
}

fn startup_exit_detail(code: Option<i32>) -> (r: String)
    ensures
        r@ == startup_exit_text(code),
{
    match code {
        Some(c) => {
            let mut detail = "exited immediately during startup with code ".to_owned();
            push_dec_signed(&mut detail, c);
            detail
        },
        None => "exited immediately during startup".to_owned(),
    }
}

impl Supervisor {
    /// Begin to start an instance by hand. The name is checked; nothing else is
    /// done. The first action is [`StartActionOf::ReadRow`].
    pub fn start(&self, name: &str) -> (r: Result<Start, EngineError>)
        ensures
            match r {
                Ok(run) => name_fault(name@) is None && run@ == start_begin(name@, None),
                Err(e) => name_fault(name@) matches Some(reason) && e@
                    == (EngineErrorModel::InvalidName { name: name@, reason }),
            },
    {
        match InstanceName::new(name) {
            Ok(name) => Ok(Start::begin(name, None)),
            Err(reason) => Err(EngineErrorOf::InvalidName { name: name.to_owned(), reason }),
        }
    }

    /// Begin to start a crashed instance again, as restart number `attempt` after
    /// waiting for `waited`. It goes the way of every start.
    pub fn restart(&self, name: &str, attempt: u32, waited: Duration) -> (r: Result<
        Start,
        EngineError,
    >)
        ensures
            match r {
                Ok(run) => name_fault(name@) is None && run@ == start_begin(
                    name@,
                    Some((attempt, waited)),
                ),
                Err(e) => name_fault(name@) matches Some(reason) && e@
                    == (EngineErrorModel::InvalidName { name: name@, reason }),
            },
    {
        match InstanceName::new(name) {
            Ok(name) => Ok(Start::begin(name, Some((attempt, waited)))),
            Err(reason) => Err(EngineErrorOf::InvalidName { name: name.to_owned(), reason }),
        }
    }

    /// Take the answer to what `run` asked for and say what to do next.
    pub fn start_step(&mut self, run: &mut Start, event: StartEvent) -> (r: StartAction)
        requires
            old(self).wf(),
        ensures
            final(self).wf(),
            (final(run)@, r@) == start_next(old(run)@, event@, old(self)@.has_runtime),
            final(self)@ == start_effect(old(self)@, old(run)@, event@),
    {
        proof {
            reveal(start_next);
        }
        match run.phase {
            StartPhase::Row
            | StartPhase::LaunchFacts
            | StartPhase::Launch
            | StartPhase::Source
            | StartPhase::Support
            | StartPhase::Config
            | StartPhase::Mapping
            | StartPhase::Listener
            | StartPhase::Overridden => self.gather(run, event),
            StartPhase::Secrets
            | StartPhase::Applied
            | StartPhase::Snapshot
            | StartPhase::Policy
            | StartPhase::LogDir
            | StartPhase::LogLength => self.prepare(run, event),
            StartPhase::Minted => match event {
                StartEventOf::Minted { nanos, nonce } => {
                    let supervised = Supervised::fresh(
                        RunId::mint(nanos, nonce),
                        run.source.clone(),
                        run.cursor,
                        run.observed,
                    );
                    self.hold(&run.name, supervised);
                    run.asks(StartPhase::Settled, StartActionOf::ReadRow)
                },
                _ => StartActionOf::Misfit,
            },
            _ => self.launch(run, event),
        }
    }

    /// The steps up to the configuration the launch gets.
    #[verifier::rlimit(40)]
    fn gather(&self, run: &mut Start, event: StartEvent) -> (r: StartAction)
        requires
            gather_phase(old(run)@.phase),
        ensures
            (final(run)@, r@) == start_next(old(run)@, event@, self@.has_runtime),
    {
        proof {
            reveal(start_next);
        }
        match (run.phase, event) {
            (StartPhase::Row, StartEventOf::Row(r)) => match r {
                Err(e) => run.ends(registry_to_engine(e)),
                Ok(state) => match start_gate(state, run.restart.is_some()) {
                    Err(e) => run.ends(EngineErrorOf::InvalidTransition(e)),
                    Ok(_) => {
                        run.prior = state;
                        run.asks(StartPhase::LaunchFacts, StartActionOf::ReadLaunchFacts)
                    },
                },
            },
            (StartPhase::LaunchFacts, StartEventOf::LaunchFacts(r)) => match r {
                Err(e) => run.ends(registry_to_engine(e)),
                Ok(true) => run.asks(StartPhase::Source, StartActionOf::ReadSource),
                Ok(false) => run.asks(StartPhase::Launch, StartActionOf::ResolveLaunch),
            },
            (StartPhase::Launch, StartEventOf::Launch(r)) => match r {
                Err(e) => {
                    let failure = launch_to_engine(&run.name, e);
                    run.ends(failure)
                },
                Ok(_) => run.asks(StartPhase::Source, StartActionOf::ReadSource),
            },
            (StartPhase::Source, StartEventOf::Source(r)) => match r {
                Err(e) => run.ends(registry_to_engine(e)),
                Ok(source) => {
                    run.source = source;
                    run.asks(
                        StartPhase::Support,
                        StartActionOf::ReadSupport(Capability::Interaction),
                    )
                },
            },
            (StartPhase::Support, StartEventOf::Support(r)) => match r {
                Err(e) => run.ends(registry_to_engine(e)),
                Ok(level) => {
                    run.pipe_stdin = level != SupportLevel::Unsupported;
                    run.asks(StartPhase::Config, StartActionOf::ReadConfig)
                },
            },
            (StartPhase::Config, StartEventOf::Config(r)) => match r {
                Err(e) => {
                    let failure = config_to_engine(&run.name, e);
                    run.ends(failure)
                },
                Ok(upstream) => {
                    run.upstream = upstream;
                    run.asks(StartPhase::Mapping, StartActionOf::ReadMapping)
                },
            },
            (StartPhase::Mapping, StartEventOf::Mapping(r)) => match r {
                Err(e) => {
                    let failure = launch_to_engine(&run.name, e);
                    run.ends(failure)
                },
                Ok(_) => {
                    let upstream: Option<&str> = match &run.upstream {
                        Some(url) => Some(url.as_str()),
                        None => None,
                    };
                    let planned = plan_observed_listener(
                        &run.name,
                        run.source.as_str(),
                        upstream,
                        self.has_runtime(),
                    );
                    match planned {
                        Err(e) => run.ends(e),
                        Ok(None) => {
                            let choice = run.launch_choice();
                            run.asks(StartPhase::Secrets, StartActionOf::ResolveSecrets(choice))
                        },
                        Ok(Some(upstream)) => run.asks(
                            StartPhase::Listener,
                            StartActionOf::StartListener { upstream },
                        ),
                    }
                },
            },
            (StartPhase::Listener, StartEventOf::Listener(r)) => match r {
                Err(detail) => {
                    let name = run.name.to_text();
                    run.ends(EngineErrorOf::ObservedMetering { name, detail })
                },
                Ok(base_url) => {
                    run.observed = true;
                    run.asks(StartPhase::Overridden, StartActionOf::ReadConfigWith { base_url })
                },
            },
            (StartPhase::Overridden, StartEventOf::Overridden(r)) => match r {
                Err(e) => {
                    let failure = config_to_engine(&run.name, e);
                    run.ends(failure)
                },
                Ok(_) => {
                    let choice = run.launch_choice();
                    run.asks(StartPhase::Secrets, StartActionOf::ResolveSecrets(choice))
                },
            },
            _ => StartActionOf::Misfit,
        }
    }

    /// The steps from the configuration to the brink of `starting`.
    #[verifier::rlimit(40)]
    fn prepare(&self, run: &mut Start, event: StartEvent) -> (r: StartAction)
        requires
            prepare_phase(old(run)@.phase),
        ensures
            (final(run)@, r@) == start_next(old(run)@, event@, self@.has_runtime),
    {
        proof {
            reveal(start_next);
        }
        match (run.phase, event) {
            (StartPhase::Secrets, StartEventOf::Secrets(r)) => match r {
                Err(e) => {
                    let failure = secret_to_engine(&run.name, e);
                    run.ends(failure)
                },
                Ok(_) => {
                    let choice = run.launch_choice();
                    run.asks(StartPhase::Applied, StartActionOf::ApplyMapping(choice))
                },
            },
            (StartPhase::Applied, StartEventOf::Applied(r)) => match r {
                Err(e) => {
                    let failure = config_apply_to_engine(&run.name, e);
                    run.ends(failure)
                },
                Ok(_) => run.asks(
                    StartPhase::Snapshot,
                    StartActionOf::WriteSnapshot(ConfigChoice::Plain),
                ),
            },
            (StartPhase::Snapshot, StartEventOf::Snapshot(r)) => match r {
                Err(e) => run.ends(snapshot_to_engine(e)),
                Ok(_) => run.asks(StartPhase::Policy, StartActionOf::ReadPolicy),
            },
            (StartPhase::Policy, StartEventOf::Policy(r)) => match r {
                Err(e) => run.ends(registry_to_engine(e)),
                Ok(policy) => {
                    run.policy = policy;
                    run.asks(StartPhase::LogDir, StartActionOf::EnsureLogDir)
                },
            },
            (StartPhase::LogDir, StartEventOf::LogDir(r)) => match r {
                Err(e) => {
                    let name = run.name.to_text();
                    run.ends(EngineErrorOf::Log { name, path: e.path, detail: e.detail })
                },
                Ok(_) => run.asks(StartPhase::LogLength, StartActionOf::MeasureLog),
            },
            (StartPhase::LogLength, StartEventOf::LogLength(cursor)) => {
                run.cursor = cursor;
                let prior = run.prior;
                run.asks(
                    StartPhase::EnterStarting,
                    StartActionOf::Transition {
                        prior,
                        new: LifecycleState::Starting,
                        cause: TransitionCause::command(LifecycleCommand::Start.as_str()),
                    },
                )
            },
            _ => StartActionOf::Misfit,
        }
    }

    /// The steps from `starting` on.
    #[verifier::rlimit(40)]
    fn launch(&self, run: &mut Start, event: StartEvent) -> (r: StartAction)
        requires
            launch_phase(old(run)@.phase),
        ensures
            (final(run)@, r@) == start_next(old(run)@, event@, self@.has_runtime),
    {
        proof {
            reveal(start_next);
        }
        match (run.phase, event) {
            (StartPhase::EnterStarting, StartEventOf::Transitioned(r)) => match r {
                Err(e) => run.ends(e),
                Ok(_) => {
                    let pipe_stdin = run.pipe_stdin;
                    run.asks(StartPhase::Spawned, StartActionOf::Spawn { pipe_stdin })
                },
            },
            (StartPhase::Spawned, StartEventOf::Spawned(r)) => match r {
                Err(e) => run.launch_fails(e.message()),
                Ok(_) => run.asks(StartPhase::Startup, StartActionOf::WatchStartup),
            },
            (StartPhase::Startup, StartEventOf::Startup(exit)) => match exit {
                Some(code) => run.launch_fails(startup_exit_detail(code)),
                None => {
                    let restart_count: u32 = match run.restart {
                        Some((attempt, _)) => attempt,
                        None => 0,
                    };
                    let policy = run.policy;
                    run.asks(
                        StartPhase::Recorded,
                        StartActionOf::WriteRecord { policy, restart_count },
                    )
                },
            },
            (StartPhase::Recorded, StartEventOf::Recorded(r)) => match r {
                Err(e) => {
                    let mut failure = "could not commit the write-ahead spawn record: ".to_owned();
                    failure.append(e.message().as_str());
                    run.failure = failure;
                    run.asks(StartPhase::Killed, StartActionOf::Kill)
                },
                Ok(_) => {
                    let cause = match run.restart {
                        Some((attempt, waited)) => TransitionCause::restarted(
                            attempt,
                            waited.as_millis_u64(),
                        ),
                        None => TransitionCauseOf::AdapterReady,
                    };
                    run.asks(
                        StartPhase::EnterRunning,
                        StartActionOf::Transition {
                            prior: LifecycleState::Starting,
                            new: LifecycleState::Running,
                            cause,
                        },
                    )
                },
            },
            (StartPhase::Killed, StartEventOf::Killed) => {
                let detail = run.failure.clone();
                run.launch_fails(detail)
            },
            (StartPhase::EnterFailed, StartEventOf::Transitioned(r)) => match r {
                Err(e) => run.ends(e),
                Ok(_) => {
                    let name = run.name.to_text();
                    let detail = run.failure.clone();
                    run.ends(EngineErrorOf::LaunchFailed { name, detail })
                },
            },
            (StartPhase::EnterRunning, StartEventOf::Transitioned(r)) => match r {
                Err(e) => run.ends(e),
                Ok(_) => run.asks(StartPhase::Minted, StartActionOf::Mint),
            },
            (StartPhase::Settled, StartEventOf::Row(r)) => match r {
                Err(e) => run.ends(registry_to_engine(e)),
                Ok(state) => {
                    run.phase = StartPhase::Done;
                    StartActionOf::Finish(Ok(state))
                },
            },
            _ => StartActionOf::Misfit,
        }
    }
}

/// Whether a phase comes before `starting`.
pub open spec fn start_checking(phase: StartPhase) -> bool {
    match phase {
        StartPhase::Row
        | StartPhase::LaunchFacts
        | StartPhase::Launch
        | StartPhase::Source
        | StartPhase::Support
        | StartPhase::Config
        | StartPhase::Mapping
        | StartPhase::Listener
        | StartPhase::Overridden
        | StartPhase::Secrets
        | StartPhase::Applied
        | StartPhase::Snapshot
        | StartPhase::Policy
        | StartPhase::LogDir
        | StartPhase::LogLength => true,
        _ => false,
    }
}

/// Whether an action is the transition into a state.
pub open spec fn start_enters(action: StartActionModel, state: LifecycleState) -> bool {
    action matches StartActionOf::Transition { new, .. } && new == state
}

/// The start after its first `n` answers.
pub open spec fn start_at(
    run: StartModel,
    answers: Seq<StartEventModel>,
    has_runtime: bool,
    n: int,
) -> StartModel
    decreases n,
{
    if n <= 0 {
        run
    } else {
        start_next(start_at(run, answers, has_runtime, n - 1), answers[n - 1], has_runtime).0
    }
}

/// What the start asks for upon its answer number `i`, counted from zero.
pub open spec fn start_action_at(
    run: StartModel,
    answers: Seq<StartEventModel>,
    has_runtime: bool,
    i: int,
) -> StartActionModel {
    start_next(start_at(run, answers, has_runtime, i), answers[i], has_runtime).1
}

/// Whether each answer is one to what the start asked for.
pub open spec fn start_answered(
    run: StartModel,
    answers: Seq<StartEventModel>,
    has_runtime: bool,
) -> bool {
    forall|i: int|
        0 <= i < answers.len() ==> start_fits(
            start_at(run, answers, has_runtime, i),
            #[trigger] answers[i],
        )
}

/// What holds of every single step of a start.
#[verifier::rlimit(60)]
proof fn lemma_start_step(run: StartModel, event: StartEventModel, has_runtime: bool)
    requires
        start_fits(run, event),
    ensures
        ({
            let (after, asked) = start_next(run, event, has_runtime);
            &&& after.name == run.name
            &&& after.restart == run.restart
            &&& after.phase == StartPhase::EnterStarting ==> asked
                == (StartActionModel::Transition {
                prior: after.prior,
                new: LifecycleState::Starting,
                cause: CauseModel::Command { command: LifecycleCommand::Start.label() },
            })
            &&& after.phase == StartPhase::Recorded ==> asked == (StartActionModel::WriteRecord {
                policy: after.policy,
                restart_count: start_restart_count(run.restart),
            })
            &&& after.phase == StartPhase::EnterFailed ==> asked == launch_failure_transition(
                after.failure,
            )
            &&& after.phase == StartPhase::EnterRunning ==> asked
                == (StartActionModel::Transition {
                prior: LifecycleState::Starting,
                new: LifecycleState::Running,
                cause: ready_cause(run.restart),
            })
            &&& after.phase == StartPhase::Minted ==> asked is Mint && run.phase
                == StartPhase::EnterRunning && (event matches StartEventOf::Transitioned(Ok(_)))
            &&& after.phase == StartPhase::Settled ==> run.phase == StartPhase::Minted
        }),
{
    reveal(start_next);
}

/// What holds of every single step of a start, seen from what it asks for.
#[verifier::rlimit(60)]
proof fn lemma_start_asked(run: StartModel, event: StartEventModel, has_runtime: bool)
    requires
        start_fits(run, event),
    ensures
        ({
            let (after, asked) = start_next(run, event, has_runtime);
            &&& start_checking(after.phase) ==> start_checking(run.phase) && !(asked is Transition)
                && !(asked is Spawn) && !(asked is WriteRecord)
            &&& start_enters(asked, LifecycleState::Running) ==> run.phase == StartPhase::Recorded
                && (event matches StartEventOf::Recorded(Ok(_)))
            &&& asked is Spawn ==> run.phase == StartPhase::EnterStarting && (
            event matches StartEventOf::Transitioned(Ok(_)))
            &&& asked matches StartActionOf::Finish(Ok(_)) ==> run.phase == StartPhase::Settled
            &&& asked matches StartActionOf::Finish(Err(e)) ==> {
                ||| start_checking(run.phase)
                ||| event matches StartEventOf::Transitioned(Err(_))
                ||| event matches StartEventOf::Row(Err(_))
                ||| run.phase == StartPhase::EnterFailed && e == EngineErrorModel::LaunchFailed {
                    name: run.name,
                    detail: run.failure,
                }
            }
        }),
{
    reveal(start_next);
}

proof fn lemma_start_constants(
    run: StartModel,
    answers: Seq<StartEventModel>,
    has_runtime: bool,
    n: int,
)
    requires
        start_answered(run, answers, has_runtime),
        0 <= n <= answers.len(),
    ensures
        start_at(run, answers, has_runtime, n).name == run.name,
        start_at(run, answers, has_runtime, n).restart == run.restart,
    decreases n,
{
    if n > 0 {
        lemma_start_constants(run, answers, has_runtime, n - 1);
        lemma_start_step(
            start_at(run, answers, has_runtime, n - 1),
            answers[n - 1],
            has_runtime,
        );
    }
}

/// The step that led to the start as it is after `n` answers.
proof fn lemma_start_step_back(
    run: StartModel,
    answers: Seq<StartEventModel>,
    has_runtime: bool,
    n: int,
)
    requires
        start_answered(run, answers, has_runtime),
        0 < n <= answers.len(),
    ensures
        start_fits(start_at(run, answers, has_runtime, n - 1), answers[n - 1]),
        (
        start_at(run, answers, has_runtime, n),
        start_action_at(run, answers, has_runtime, n - 1),
        ) == start_next(
            start_at(run, answers, has_runtime, n - 1),
            answers[n - 1],
            has_runtime,
        ),
{
    lemma_start_step(start_at(run, answers, has_runtime, n - 1), answers[n - 1], has_runtime);
}

/// The record comes first: the instance enters `running` only upon the answer
/// that its spawn record is committed, with the restart count of this start in it
/// (none for a start by hand).
pub proof fn law_running_only_after_the_record(
    name: Seq<char>,
    restart: Option<(u32, Duration)>,
    answers: Seq<StartEventModel>,
    has_runtime: bool,
    i: int,
)
    requires
        start_answered(start_begin(name, restart), answers, has_runtime),
        0 <= i < answers.len(),
        start_enters(
            start_action_at(start_begin(name, restart), answers, has_runtime, i),
            LifecycleState::Running,
        ),
    ensures
        i >= 1,
        answers[i] matches StartEventOf::Recorded(Ok(_)),
        start_action_at(start_begin(name, restart), answers, has_runtime, i - 1) matches
            StartActionOf::WriteRecord { restart_count, .. } && restart_count
            == start_restart_count(restart),
{
    let run = start_begin(name, restart);
    let now = start_at(run, answers, has_runtime, i);
    lemma_start_asked(now, answers[i], has_runtime);
    assert(start_at(run, answers, has_runtime, 0) == run);
    lemma_start_step_back(run, answers, has_runtime, i);
    lemma_start_step(
        start_at(run, answers, has_runtime, i - 1),
        answers[i - 1],
        has_runtime,
    );
    lemma_start_constants(run, answers, has_runtime, i - 1);
}

/// A process is spawned only upon the answer that the instance has entered
/// `starting`.
pub proof fn law_spawn_only_after_starting(
    name: Seq<char>,
    restart: Option<(u32, Duration)>,
    answers: Seq<StartEventModel>,
    has_runtime: bool,
    i: int,
)
    requires
        start_answered(start_begin(name, restart), answers, has_runtime),
        0 <= i < answers.len(),
        start_action_at(start_begin(name, restart), answers, has_runtime, i) is Spawn,
    ensures
        i >= 1,
        answers[i] matches StartEventOf::Transitioned(Ok(_)),
        start_enters(
            start_action_at(start_begin(name, restart), answers, has_runtime, i - 1),
            LifecycleState::Starting,
        ),
{
    let run = start_begin(name, restart);
    lemma_start_asked(start_at(run, answers, has_runtime, i), answers[i], has_runtime);
    assert(start_at(run, answers, has_runtime, 0) == run);
    lemma_start_step_back(run, answers, has_runtime, i);
    lemma_start_step(
        start_at(run, answers, has_runtime, i - 1),
        answers[i - 1],
        has_runtime,
    );
}

/// The process is launched with the listener's address where its traffic is observed, and the
/// secrets resolved for it are those of the same configuration; the snapshot never holds that
/// address.
pub proof fn law_the_snapshot_is_of_the_plain_config(
    run: StartModel,
    event: StartEventModel,
    has_runtime: bool,
)
    ensures
        ({
            let (after, asked) = start_next(run, event, has_runtime);
            &&& (asked matches StartActionModel::WriteSnapshot(choice) ==> choice
                == ConfigChoice::Plain)
            &&& (asked matches StartActionModel::ResolveSecrets(choice) ==> choice
                == launch_config(after))
            &&& (asked matches StartActionModel::ApplyMapping(choice) ==> choice == launch_config(
                after,
            ))
        }),
{
    reveal(start_next);
}

/// A restart of an instance that is not failed any more does nothing: it ends at once, and
/// with the state that stood in its way.
pub proof fn law_a_late_restart_is_no_restart(
    name: Seq<char>,
    attempt: u32,
    waited: Duration,
    state: LifecycleState,
    has_runtime: bool,
)
    requires
        state != LifecycleState::Failed,
    ensures
        start_next(
            start_begin(name, Some((attempt, waited))),
            StartEventModel::Row(Ok(state)),
            has_runtime,
        ).1 == StartActionModel::Finish(
            Err(
                EngineErrorModel::InvalidTransition(
                    LifecycleError::InvalidTransition {
                        from: state,
                        command: LifecycleCommand::Start,
                    },
                ),
            ),
        ),
{
    reveal(start_next);
}

/// A start that is refused while it is still asking changes nothing: up to and
/// with its end it has asked for no transition, no process and no record.
pub proof fn law_refused_start_changes_nothing(
    name: Seq<char>,
    restart: Option<(u32, Duration)>,
    answers: Seq<StartEventModel>,
    has_runtime: bool,
    i: int,
    j: int,
)
    requires
        start_answered(start_begin(name, restart), answers, has_runtime),
        0 <= j <= i < answers.len(),
        start_checking(
            start_at(start_begin(name, restart), answers, has_runtime, i).phase,
        ),
        start_action_at(start_begin(name, restart), answers, has_runtime, i) is Finish,
    ensures
        !(start_action_at(start_begin(name, restart), answers, has_runtime, j) is Transition),
        !(start_action_at(start_begin(name, restart), answers, has_runtime, j) is Spawn),
        !(start_action_at(start_begin(name, restart), answers, has_runtime, j) is WriteRecord),
{
    let run = start_begin(name, restart);
    lemma_start_was_checking(run, answers, has_runtime, i, j);
    lemma_start_asked(start_at(run, answers, has_runtime, j), answers[j], has_runtime);
    if j < i {
        lemma_start_was_checking(run, answers, has_runtime, i, j + 1);
        lemma_start_step_back(run, answers, has_runtime, j + 1);
    }
}

proof fn lemma_start_was_checking(
    run: StartModel,
    answers: Seq<StartEventModel>,
    has_runtime: bool,
    i: int,
    j: int,
)
    requires
        start_answered(run, answers, has_runtime),
        0 <= j <= i <= answers.len(),
        start_checking(start_at(run, answers, has_runtime, i).phase),
    ensures
        start_checking(start_at(run, answers, has_runtime, j).phase),
    decreases i - j,
{
    if j < i {
        lemma_start_step_back(run, answers, has_runtime, i);
        lemma_start_asked(
            start_at(run, answers, has_runtime, i - 1),
            answers[i - 1],
            has_runtime,
        );
        lemma_start_was_checking(run, answers, has_runtime, i - 1, j);
    }
}

/// A launch that fails lands in `failed` with its reason: a start that ends with
/// an error after it entered `starting` ends because a transition could not be
/// recorded, because the row could not be read back, or with the launch failure
/// that the transition from `starting` to `failed` has just recorded.
pub proof fn law_failed_launch_lands_in_failed(
    name: Seq<char>,
    restart: Option<(u32, Duration)>,
    answers: Seq<StartEventModel>,
    has_runtime: bool,
    i: int,
    e: EngineErrorModel,
)
    requires
        start_answered(start_begin(name, restart), answers, has_runtime),
        0 <= i < answers.len(),
        !start_checking(
            start_at(start_begin(name, restart), answers, has_runtime, i).phase,
        ),
        start_action_at(start_begin(name, restart), answers, has_runtime, i)
            == StartActionModel::Finish(Err(e)),
    ensures
        answers[i] matches StartEventOf::Transitioned(Err(_)) || answers[i] matches
            StartEventOf::Row(Err(_)) || exists|detail: Seq<char>|
            {
                &&& e == EngineErrorModel::LaunchFailed { name, detail }
                &&& i >= 1
                &&& #[trigger] start_action_at(
                    start_begin(name, restart),
                    answers,
                    has_runtime,
                    i - 1,
                ) == launch_failure_transition(detail)
            },
{
    let run = start_begin(name, restart);
    let now = start_at(run, answers, has_runtime, i);
    lemma_start_asked(now, answers[i], has_runtime);
    lemma_start_constants(run, answers, has_runtime, i);
    assert(start_at(run, answers, has_runtime, 0) == run);
    if now.phase == StartPhase::EnterFailed {
        lemma_start_step_back(run, answers, has_runtime, i);
        lemma_start_step(
            start_at(run, answers, has_runtime, i - 1),
            answers[i - 1],
            has_runtime,
        );
        assert(start_action_at(run, answers, has_runtime, i - 1) == launch_failure_transition(
            now.failure,
        ));
    }
}

/// The transition that records a failed launch.
pub open spec fn launch_failure_transition(detail: Seq<char>) -> StartActionModel {
    StartActionOf::Transition {
        prior: LifecycleState::Starting,
        new: LifecycleState::Failed,
        cause: CauseModel::LaunchError { detail },
    }
}

/// A start that ends well has entered `running` from `starting`, and its process
/// got its run identity right after that.
pub proof fn law_successful_start_is_running(
    name: Seq<char>,
    restart: Option<(u32, Duration)>,
    answers: Seq<StartEventModel>,
    has_runtime: bool,
    i: int,
)
    requires
        start_answered(start_begin(name, restart), answers, has_runtime),
        0 <= i < answers.len(),
        start_action_at(start_begin(name, restart), answers, has_runtime, i) matches
            StartActionOf::Finish(Ok(_)),
    ensures
        i >= 3,
        start_action_at(start_begin(name, restart), answers, has_runtime, i - 2) is Mint,
        answers[i - 2] matches StartEventOf::Transitioned(Ok(_)),
        start_action_at(start_begin(name, restart), answers, has_runtime, i - 3)
            == (StartActionModel::Transition {
            prior: LifecycleState::Starting,
            new: LifecycleState::Running,
            cause: ready_cause(restart),
        }),
{
    let run = start_begin(name, restart);
    assert(start_at(run, answers, has_runtime, 0) == run);
    lemma_start_asked(start_at(run, answers, has_runtime, i), answers[i], has_runtime);
    lemma_start_step_back(run, answers, has_runtime, i);
    lemma_start_step(start_at(run, answers, has_runtime, i - 1), answers[i - 1], has_runtime);
    lemma_start_step_back(run, answers, has_runtime, i - 1);
    lemma_start_step(start_at(run, answers, has_runtime, i - 2), answers[i - 2], has_runtime);
    lemma_start_step_back(run, answers, has_runtime, i - 2);
    lemma_start_step(start_at(run, answers, has_runtime, i - 3), answers[i - 3], has_runtime);
    lemma_start_constants(run, answers, has_runtime, i - 3);
}

/// Whether the output log has been measured.
spec fn start_measured(phase: StartPhase) -> bool {
    match phase {
        StartPhase::EnterStarting => true,
        StartPhase::Spawned => true,
        StartPhase::Startup => true,
        StartPhase::Recorded => true,
        StartPhase::EnterRunning => true,
        StartPhase::Minted => true,
        _ => false,
    }
}

/// What holds of every single step of a start, seen from where its run will read.
#[verifier::rlimit(60)]
proof fn lemma_start_measures(run: StartModel, event: StartEventModel, has_runtime: bool)
    requires
        start_fits(run, event),
        start_measured(start_next(run, event, has_runtime).0.phase),
    ensures
        ({
            let after = start_next(run, event, has_runtime).0;
            if start_measured(run.phase) {
                after.cursor == run.cursor
            } else {
                run.phase == StartPhase::LogLength && event == StartEventModel::LogLength(
                    after.cursor,
                )
            }
        }),
{
    reveal(start_next);
}

proof fn lemma_start_measured_at(
    run: StartModel,
    answers: Seq<StartEventModel>,
    has_runtime: bool,
    n: int,
) -> (j: int)
    requires
        start_answered(run, answers, has_runtime),
        0 < n <= answers.len(),
        !start_measured(run.phase),
        start_measured(start_at(run, answers, has_runtime, n).phase),
    ensures
        0 <= j < n,
        answers[j] == StartEventModel::LogLength(start_at(run, answers, has_runtime, n).cursor),
        start_at(run, answers, has_runtime, j).phase == StartPhase::LogLength,
    decreases n,
{
    lemma_start_step_back(run, answers, has_runtime, n);
    lemma_start_measures(start_at(run, answers, has_runtime, n - 1), answers[n - 1], has_runtime);
    assert(start_at(run, answers, has_runtime, 0) == run);
    if start_measured(start_at(run, answers, has_runtime, n - 1).phase) {
        lemma_start_measured_at(run, answers, has_runtime, n - 1)
    } else {
        n - 1
    }
}

/// A run reads only its own output: where a start comes to hold its process, the run is to
/// read from where the output log ended when it was measured, and no process had been asked
/// for by then.
pub proof fn law_a_run_reads_only_its_own_output(
    supervisor: SupervisorModel,
    name: Seq<char>,
    restart: Option<(u32, Duration)>,
    answers: Seq<StartEventModel>,
    has_runtime: bool,
    i: int,
)
    requires
        start_answered(start_begin(name, restart), answers, has_runtime),
        0 <= i < answers.len(),
        start_at(start_begin(name, restart), answers, has_runtime, i).phase == StartPhase::Minted,
    ensures
        exists|j: int|
            {
                &&& 0 <= j < i
                &&& #[trigger] answers[j] == StartEventModel::LogLength(
                    start_effect(
                        supervisor,
                        start_at(start_begin(name, restart), answers, has_runtime, i),
                        answers[i],
                    ).running[name].usage_cursor,
                )
                &&& forall|k: int|
                    0 <= k <= j ==> !(#[trigger] start_action_at(
                        start_begin(name, restart),
                        answers,
                        has_runtime,
                        k,
                    ) is Spawn)
            },
{
    let run = start_begin(name, restart);
    assert(start_at(run, answers, has_runtime, 0) == run);
    let j = lemma_start_measured_at(run, answers, has_runtime, i);
    lemma_start_constants(run, answers, has_runtime, i);
    assert forall|k: int| 0 <= k <= j implies !(#[trigger] start_action_at(
        run,
        answers,
        has_runtime,
        k,
    ) is Spawn) by {
        lemma_start_was_checking(run, answers, has_runtime, j, k);
        lemma_start_asked(start_at(run, answers, has_runtime, k), answers[k], has_runtime);
    }
    assert(answers[j] == StartEventModel::LogLength(
        start_at(run, answers, has_runtime, i).cursor,
    ));
}

/// Whether it has been asked how well input is supported, and the process not yet spawned.
spec fn start_supported(phase: StartPhase) -> bool {
    match phase {
        StartPhase::Config => true,
        StartPhase::Mapping => true,
        StartPhase::Listener => true,
        StartPhase::Overridden => true,
        StartPhase::Secrets => true,
        StartPhase::Applied => true,
        StartPhase::Snapshot => true,
        StartPhase::Policy => true,
        StartPhase::LogDir => true,
        StartPhase::LogLength => true,
        StartPhase::EnterStarting => true,
        _ => false,
    }
}

/// What holds of every single step of a start, seen from whether its process gets an input pipe.
#[verifier::rlimit(60)]
proof fn lemma_start_supports(run: StartModel, event: StartEventModel, has_runtime: bool)
    requires
        start_fits(run, event),
    ensures
        ({
            let (after, asked) = start_next(run, event, has_runtime);
            &&& start_supported(after.phase) ==> {
                ||| start_supported(run.phase) && after.pipe_stdin == run.pipe_stdin
                ||| run.phase == StartPhase::Support && (event matches StartEventOf::Support(
                    Ok(level),
                ) && (after.pipe_stdin <==> level == SupportLevel::Guaranteed || level
                    == SupportLevel::BestEffort))
            }
            &&& asked is Spawn ==> run.phase == StartPhase::EnterStarting && asked
                == (StartActionModel::Spawn { pipe_stdin: run.pipe_stdin })
            &&& after.phase == StartPhase::Support ==> asked == StartActionModel::ReadSupport(
                Capability::Interaction,
            )
        }),
{
    reveal(start_next);
}

proof fn lemma_start_supported_at(
    run: StartModel,
    answers: Seq<StartEventModel>,
    has_runtime: bool,
    n: int,
) -> (j: int)
    requires
        start_answered(run, answers, has_runtime),
        0 <= n <= answers.len(),
        run.phase == StartPhase::Row,
        start_supported(start_at(run, answers, has_runtime, n).phase),
    ensures
        0 < j < n,
        start_action_at(run, answers, has_runtime, j - 1) == StartActionModel::ReadSupport(
            Capability::Interaction,
        ),
        answers[j] matches StartEventOf::Support(Ok(level)) && (start_at(
            run,
            answers,
            has_runtime,
            n,
        ).pipe_stdin <==> level == SupportLevel::Guaranteed || level == SupportLevel::BestEffort),
    decreases n,
{
    assert(start_at(run, answers, has_runtime, 0) == run);
    lemma_start_step_back(run, answers, has_runtime, n);
    lemma_start_supports(start_at(run, answers, has_runtime, n - 1), answers[n - 1], has_runtime);
    if start_supported(start_at(run, answers, has_runtime, n - 1).phase) {
        lemma_start_supported_at(run, answers, has_runtime, n - 1)
    } else {
        lemma_start_step_back(run, answers, has_runtime, n - 1);
        lemma_start_supports(
            start_at(run, answers, has_runtime, n - 2),
            answers[n - 2],
            has_runtime,
        );
        n - 1
    }
}

/// A process gets an input pipe where input is supported, and not where it is not: in every start
/// from its beginning, what is asked of the spawn is what was answered when the start
/// looked up how well the interaction is supported.
pub proof fn law_the_input_pipe_follows_the_support(
    name: Seq<char>,
    restart: Option<(u32, Duration)>,
    answers: Seq<StartEventModel>,
    has_runtime: bool,
    i: int,
    pipe_stdin: bool,
)
    requires
        start_answered(start_begin(name, restart), answers, has_runtime),
        0 <= i < answers.len(),
        start_action_at(start_begin(name, restart), answers, has_runtime, i)
            == (StartActionModel::Spawn { pipe_stdin }),
    ensures
        exists|j: int|
            {
                &&& 0 < j < i
                &&& start_action_at(start_begin(name, restart), answers, has_runtime, j - 1)
                    == StartActionModel::ReadSupport(Capability::Interaction)
                &&& (#[trigger] answers[j] matches StartEventOf::Support(Ok(level)) && (pipe_stdin
                    <==> level == SupportLevel::Guaranteed || level == SupportLevel::BestEffort))
            },
{
    let run = start_begin(name, restart);
    lemma_start_supports(start_at(run, answers, has_runtime, i), answers[i], has_runtime);
    let j = lemma_start_supported_at(run, answers, has_runtime, i);
    assert(answers[j] is Support);
}

/// A start that has been answered all it looks up of an instance: its row, its launch, its
/// metering source, its support for input and its configuration.
pub open spec fn start_gathered(
    name: Seq<char>,
    restart: Option<(u32, Duration)>,
    has_runtime: bool,
    state: LifecycleState,
    kept: bool,
    source: Seq<char>,
    level: SupportLevel,
    upstream: Option<Seq<char>>,
) -> StartModel {
    let row = start_next(
        start_begin(name, restart),
        StartEventModel::Row(Ok(state)),
        has_runtime,
    ).0;
    let facts = start_next(row, StartEventModel::LaunchFacts(Ok(kept)), has_runtime).0;
    let launch = if kept {
        facts
    } else {
        start_next(facts, StartEventModel::Launch(Ok(())), has_runtime).0
    };
    let metered = start_next(launch, StartEventModel::Source(Ok(source)), has_runtime).0;
    let supported = start_next(metered, StartEventModel::Support(Ok(level)), has_runtime).0;
    start_next(supported, StartEventModel::Config(Ok(upstream)), has_runtime).0
}

/// Whether an instance in a state may be started: by hand where it is registered, stopped or
/// failed, and after a crash only where it is failed.
pub open spec fn start_may_begin(state: LifecycleState, restart: Option<(u32, Duration)>) -> bool {
    state == LifecycleState::Failed || restart is None && (state == LifecycleState::Registered
        || state == LifecycleState::Stopped)
}

#[verifier::spinoff_prover]
#[verifier::rlimit(60)]
proof fn lemma_start_gathered(
    name: Seq<char>,
    restart: Option<(u32, Duration)>,
    has_runtime: bool,
    state: LifecycleState,
    kept: bool,
    source: Seq<char>,
    level: SupportLevel,
    upstream: Option<Seq<char>>,
)
    requires
        start_may_begin(state, restart),
    ensures
        start_gathered(name, restart, has_runtime, state, kept, source, level, upstream)
            == (StartModel {
            phase: StartPhase::Mapping,
            prior: state,
            source,
            upstream,
            pipe_stdin: level == SupportLevel::Guaranteed || level == SupportLevel::BestEffort,
            ..start_begin(name, restart)
        }),
{
    reveal(start_next);
}

/// What a start looks up first, and in what order; an instance in a state that it may not be
/// started from is refused before anything else is looked up.
#[verifier::spinoff_prover]
#[verifier::rlimit(60)]
pub proof fn law_a_start_looks_up_what_it_needs(
    name: Seq<char>,
    restart: Option<(u32, Duration)>,
    has_runtime: bool,
    state: LifecycleState,
    kept: bool,
    source: Seq<char>,
    level: SupportLevel,
    upstream: Option<Seq<char>>,
)
    ensures
        ({
            let begun = start_begin(name, restart);
            let row = start_next(begun, StartEventModel::Row(Ok(state)), has_runtime);
            let facts = start_next(row.0, StartEventModel::LaunchFacts(Ok(kept)), has_runtime);
            let made = start_next(facts.0, StartEventModel::Launch(Ok(())), has_runtime);
            let launch = if kept {
                facts
            } else {
                made
            };
            let metered = start_next(launch.0, StartEventModel::Source(Ok(source)), has_runtime);
            let supported = start_next(
                metered.0,
                StartEventModel::Support(Ok(level)),
                has_runtime,
            );
            let configured = start_next(
                supported.0,
                StartEventModel::Config(Ok(upstream)),
                has_runtime,
            );
            let may = state == LifecycleState::Failed || restart is None && (state
                == LifecycleState::Registered || state == LifecycleState::Stopped);
            &&& !may ==> row.1 == StartActionModel::Finish(
                Err(
                    EngineErrorModel::InvalidTransition(
                        LifecycleError::InvalidTransition {
                            from: state,
                            command: LifecycleCommand::Start,
                        },
                    ),
                ),
            )
            &&& may ==> {
                &&& row.1 is ReadLaunchFacts
                &&& !kept ==> facts.1 is ResolveLaunch
                &&& launch.1 is ReadSource
                &&& metered.1 == StartActionModel::ReadSupport(Capability::Interaction)
                &&& supported.1 is ReadConfig
                &&& configured.1 is ReadMapping
            }
        }),
{
    reveal(start_next);
}

/// A start that has all it needs to enter `starting`: what it looked up, the secrets, the launch,
/// the snapshot, the policy and the log directory, and a listener at `address` where its
/// traffic is observed.
pub open spec fn start_prepared(
    gathered: StartModel,
    has_runtime: bool,
    address: Option<Seq<char>>,
    policy: RestartPolicy,
) -> StartModel {
    let mapped = start_next(gathered, StartEventModel::Mapping(Ok(())), has_runtime).0;
    let wired = match address {
        Some(url) => start_next(
            start_next(mapped, StartEventModel::Listener(Ok(url)), has_runtime).0,
            StartEventModel::Overridden(Ok(())),
            has_runtime,
        ).0,
        None => mapped,
    };
    let secret = start_next(wired, StartEventModel::Secrets(Ok(())), has_runtime).0;
    let applied = start_next(secret, StartEventModel::Applied(Ok(())), has_runtime).0;
    let snapshot = start_next(applied, StartEventModel::Snapshot(Ok(())), has_runtime).0;
    let ruled = start_next(snapshot, StartEventModel::Policy(Ok(policy)), has_runtime).0;
    start_next(ruled, StartEventModel::LogDir(Ok(())), has_runtime).0
}

#[verifier::spinoff_prover]
#[verifier::rlimit(60)]
proof fn lemma_start_prepared(
    gathered: StartModel,
    has_runtime: bool,
    address: Option<Seq<char>>,
    policy: RestartPolicy,
)
    requires
        gathered.phase == StartPhase::Mapping,
        !gathered.observed,
        address is Some <==> gathered.source == ENGINE_OBSERVED@,
        address is Some ==> has_runtime && gathered.upstream is Some,
    ensures
        start_prepared(gathered, has_runtime, address, policy) == (StartModel {
            phase: StartPhase::LogLength,
            observed: address is Some,
            policy,
            ..gathered
        }),
{
    reveal(start_next);
}

/// How a start prepares the launch. Where the metering source is the engine's own observation, a
/// listener is started that forwards to the configured upstream, the configuration is
/// resolved again with its address, and that configuration is launched; it is refused without an
/// upstream or a runtime. Otherwise the plain configuration is launched, and no
/// listener started. The snapshot is of the plain configuration either way.
#[verifier::spinoff_prover]
#[verifier::rlimit(60)]
pub proof fn law_a_start_prepares_its_launch(
    name: Seq<char>,
    restart: Option<(u32, Duration)>,
    has_runtime: bool,
    state: LifecycleState,
    kept: bool,
    source: Seq<char>,
    level: SupportLevel,
    upstream: Option<Seq<char>>,
    address: Seq<char>,
    policy: RestartPolicy,
)
    requires
        start_may_begin(state, restart),
    ensures
        ({
            let run = start_gathered(
                name,
                restart,
                has_runtime,
                state,
                kept,
                source,
                level,
                upstream,
            );
            let observed = source == "engine-observed"@;
            let mapped = start_next(run, StartEventModel::Mapping(Ok(())), has_runtime);
            let listening = start_next(
                mapped.0,
                StartEventModel::Listener(Ok(address)),
                has_runtime,
            );
            let overridden = start_next(
                listening.0,
                StartEventModel::Overridden(Ok(())),
                has_runtime,
            );
            let wired = if observed {
                overridden
            } else {
                mapped
            };
            let choice = if observed {
                ConfigChoice::WithListener
            } else {
                ConfigChoice::Plain
            };
            let secret = start_next(wired.0, StartEventModel::Secrets(Ok(())), has_runtime);
            let applied = start_next(secret.0, StartEventModel::Applied(Ok(())), has_runtime);
            let snapshot = start_next(applied.0, StartEventModel::Snapshot(Ok(())), has_runtime);
            let ruled = start_next(snapshot.0, StartEventModel::Policy(Ok(policy)), has_runtime);
            let logged = start_next(ruled.0, StartEventModel::LogDir(Ok(())), has_runtime);
            &&& observed && upstream is None ==> mapped.1 == StartActionModel::Finish(
                Err(
                    EngineErrorModel::ObservedMetering {
                        name,
                        detail: "no upstream provider URL configured; set `"@
                            + METERING_UPSTREAM_BASE_URL_KEY@
                            + "` to the agent's real OpenAI-compatible endpoint"@,
                    },
                ),
            )
            &&& observed && upstream is Some && !has_runtime ==> mapped.1
                == StartActionModel::Finish(
                Err(
                    EngineErrorModel::ObservedMetering {
                        name,
                        detail:
                            "the engine has no runtime handle to run the loopback listener (engine-observed metering requires the async engine)"@,
                    },
                ),
            )
            &&& observed && upstream is Some && has_runtime ==> {
                &&& mapped.1 == StartActionModel::StartListener { upstream: upstream->0 }
                &&& listening.1 == StartActionModel::ReadConfigWith { base_url: address }
            }
            &&& !observed || upstream is Some && has_runtime ==> {
                &&& wired.1 == StartActionModel::ResolveSecrets(choice)
                &&& secret.1 == StartActionModel::ApplyMapping(choice)
                &&& applied.1 == StartActionModel::WriteSnapshot(ConfigChoice::Plain)
                &&& snapshot.1 is ReadPolicy
                &&& ruled.1 is EnsureLogDir
                &&& logged.1 is MeasureLog
            }
        }),
{
    lemma_start_gathered(name, restart, has_runtime, state, kept, source, level, upstream);
    reveal(start_next);
}

/// How a start that is prepared goes on: the change from the state in the row to `starting` is
/// recorded, the process spawned, with an input pipe where input is supported, and
/// watched; the spawn record is committed with the policy that was read and the number of the
/// restart; the change to `running` is recorded; and the process is then held, with the run
/// identity made of the time and the nonce given, the metering source that was read, and its
/// usage to be read from the measured length on. No other process is touched. What
/// is reported is the state that the row says then.
#[verifier::spinoff_prover]
#[verifier::rlimit(60)]
pub proof fn law_a_prepared_start_runs(
    name: Seq<char>,
    restart: Option<(u32, Duration)>,
    has_runtime: bool,
    state: LifecycleState,
    kept: bool,
    source: Seq<char>,
    level: SupportLevel,
    upstream: Option<Seq<char>>,
    address: Option<Seq<char>>,
    policy: RestartPolicy,
    length: u64,
    nanos: u128,
    nonce: u64,
    told: LifecycleState,
    held: SupervisorModel,
)
    requires
        start_may_begin(state, restart),
        address is Some <==> source == "engine-observed"@,
        address is Some ==> has_runtime && upstream is Some,
    ensures
        ({
            let run = start_prepared(
                start_gathered(name, restart, has_runtime, state, kept, source, level, upstream),
                has_runtime,
                address,
                policy,
            );
            let done = StartEventModel::Transitioned(Ok(()));
            let mint = StartEventModel::Minted { nanos, nonce };
            let measured = start_next(run, StartEventModel::LogLength(length), has_runtime);
            let starting = start_next(measured.0, done, has_runtime);
            let spawned = start_next(starting.0, StartEventModel::Spawned(Ok(())), has_runtime);
            let up = start_next(spawned.0, StartEventModel::Startup(None), has_runtime);
            let recorded = start_next(up.0, StartEventModel::Recorded(Ok(())), has_runtime);
            let running = start_next(recorded.0, done, has_runtime);
            let minted = start_next(running.0, mint, has_runtime);
            let after = start_effect(held, running.0, mint);
            &&& measured.1 == StartActionModel::Transition {
                prior: state,
                new: LifecycleState::Starting,
                cause: CauseModel::Command { command: "start"@ },
            }
            &&& starting.1 == StartActionModel::Spawn {
                pipe_stdin: level == SupportLevel::Guaranteed || level == SupportLevel::BestEffort,
            }
            &&& spawned.1 is WatchStartup
            &&& up.1 == StartActionModel::WriteRecord {
                policy,
                restart_count: match restart {
                    Some((attempt, _)) => attempt,
                    None => 0,
                },
            }
            &&& recorded.1 == StartActionModel::Transition {
                prior: LifecycleState::Starting,
                new: LifecycleState::Running,
                cause: match restart {
                    Some((attempt, waited)) => CauseModel::Restarted {
                        count: attempt,
                        waited_ms: (waited.nanos / 1_000_000) as u64,
                    },
                    None => CauseModel::AdapterReady,
                },
            }
            &&& running.1 is Mint
            &&& minted.1 is ReadRow
            &&& start_next(minted.0, StartEventModel::Row(Ok(told)), has_runtime).1
                == StartActionModel::Finish(Ok(told))
            &&& start_effect(held, run, StartEventModel::LogLength(length)) == held
            &&& start_effect(held, measured.0, done) == held
            &&& start_effect(held, starting.0, StartEventModel::Spawned(Ok(()))) == held
            &&& start_effect(held, spawned.0, StartEventModel::Startup(None)) == held
            &&& start_effect(held, up.0, StartEventModel::Recorded(Ok(()))) == held
            &&& start_effect(held, recorded.0, done) == held
            &&& after.running.dom() == held.running.dom().insert(name)
            &&& after.running[name].run_id == run_id_text(nanos as nat, nonce as nat)
            &&& after.running[name].metering_source == source
            &&& after.running[name].usage_cursor == length
            &&& after.running[name].breached == Set::<(BreachDimension, BreachScope)>::empty()
            &&& after.running[name].observed == (address is Some)
            &&& !after.running[name].stop_unconfirmed
            &&& forall|other: Seq<char>|
                other != name && held.running.contains_key(other)
                    ==> #[trigger] after.running[other] == held.running[other]
            &&& after.backoff == held.backoff
        }),
{
    let gathered = start_gathered(
        name,
        restart,
        has_runtime,
        state,
        kept,
        source,
        level,
        upstream,
    );
    lemma_start_gathered(name, restart, has_runtime, state, kept, source, level, upstream);
    lemma_start_prepared(gathered, has_runtime, address, policy);
    reveal(start_next);
    let run = start_prepared(gathered, has_runtime, address, policy);
    let measured = start_next(run, StartEventModel::LogLength(length), has_runtime);
    let starting = start_next(
        measured.0,
        StartEventModel::Transitioned(Ok(())),
        has_runtime,
    );
    let spawned = start_next(starting.0, StartEventModel::Spawned(Ok(())), has_runtime);
    let up = start_next(spawned.0, StartEventModel::Startup(None), has_runtime);
    let recorded = start_next(up.0, StartEventModel::Recorded(Ok(())), has_runtime);
    let running = start_next(recorded.0, StartEventModel::Transitioned(Ok(())), has_runtime);
    let after = start_effect(held, running.0, StartEventModel::Minted { nanos, nonce });
    assert(after.running.dom() =~= held.running.dom().insert(name));
}

/// How a launch fails once the instance is `starting`: where the process cannot be spawned, or
/// ends while it is watched, or its spawn record cannot be committed, the change from
/// `starting` to `failed` is recorded with the reason, and the start ends with that reason. A
/// process without a record is ended first. Nothing is held.
#[verifier::spinoff_prover]
#[verifier::rlimit(60)]
pub proof fn law_a_launch_fails_with_its_reason(
    name: Seq<char>,
    restart: Option<(u32, Duration)>,
    has_runtime: bool,
    state: LifecycleState,
    kept: bool,
    source: Seq<char>,
    level: SupportLevel,
    upstream: Option<Seq<char>>,
    address: Option<Seq<char>>,
    policy: RestartPolicy,
    length: u64,
    unspawned: BackendErrorOf<Seq<char>>,
    code: Option<i32>,
    uncommitted: RegistryErrorOf<Seq<char>>,
)
    requires
        start_may_begin(state, restart),
        address is Some <==> source == "engine-observed"@,
        address is Some ==> has_runtime && upstream is Some,
    ensures
        ({
            let run = start_prepared(
                start_gathered(name, restart, has_runtime, state, kept, source, level, upstream),
                has_runtime,
                address,
                policy,
            );
            let done = StartEventModel::Transitioned(Ok(()));
            let measured = start_next(run, StartEventModel::LogLength(length), has_runtime);
            let starting = start_next(measured.0, done, has_runtime);
            let spawned = start_next(starting.0, StartEventModel::Spawned(Ok(())), has_runtime);
            let up = start_next(spawned.0, StartEventModel::Startup(None), has_runtime);
            let unborn = start_next(
                starting.0,
                StartEventModel::Spawned(Err(unspawned)),
                has_runtime,
            );
            let ended = start_next(spawned.0, StartEventModel::Startup(Some(code)), has_runtime);
            let unwritten = start_next(
                up.0,
                StartEventModel::Recorded(Err(uncommitted)),
                has_runtime,
            );
            let killed = start_next(unwritten.0, StartEventModel::Killed, has_runtime);
            let at_startup = match code {
                Some(c) => "exited immediately during startup with code "@ + dec_signed(c as int),
                None => "exited immediately during startup"@,
            };
            let without_record = "could not commit the write-ahead spawn record: "@
                + uncommitted.text();
            &&& unborn.1 == StartActionModel::Transition {
                prior: LifecycleState::Starting,
                new: LifecycleState::Failed,
                cause: CauseModel::LaunchError { detail: unspawned.text() },
            }
            &&& start_next(unborn.0, done, has_runtime).1 == StartActionModel::Finish(
                Err(EngineErrorModel::LaunchFailed { name, detail: unspawned.text() }),
            )
            &&& ended.1 == StartActionModel::Transition {
                prior: LifecycleState::Starting,
                new: LifecycleState::Failed,
                cause: CauseModel::LaunchError { detail: at_startup },
            }
            &&& start_next(ended.0, done, has_runtime).1 == StartActionModel::Finish(
                Err(EngineErrorModel::LaunchFailed { name, detail: at_startup }),
            )
            &&& unwritten.1 is Kill
            &&& killed.1 == StartActionModel::Transition {
                prior: LifecycleState::Starting,
                new: LifecycleState::Failed,
                cause: CauseModel::LaunchError { detail: without_record },
            }
            &&& start_next(killed.0, done, has_runtime).1 == StartActionModel::Finish(
                Err(EngineErrorModel::LaunchFailed { name, detail: without_record }),
            )
        }),
{
    let gathered = start_gathered(
        name,
        restart,
        has_runtime,
        state,
        kept,
        source,
        level,
        upstream,
    );
    lemma_start_gathered(name, restart, has_runtime, state, kept, source, level, upstream);
    lemma_start_prepared(gathered, has_runtime, address, policy);
    reveal(start_next);
}

/// A start ends with what fails: whatever it asked for, a failure in the answer ends it with
/// that failure, told of the instance, and nothing more is asked.
#[verifier::spinoff_prover]
#[verifier::rlimit(60)]
pub proof fn law_a_start_ends_with_what_fails(
    run: StartModel,
    has_runtime: bool,
    registry: RegistryErrorOf<Seq<char>>,
    launch: LaunchResolveErrorOf<Seq<char>>,
    config: ConfigErrorOf<Seq<char>>,
    secret: SecretErrorOf<Seq<char>>,
    apply: ConfigApplyErrorOf<Seq<char>>,
    log: LogFailureModel,
    listener: Seq<char>,
    engine: EngineErrorModel,
)
    ensures
        ({
            let unresolved = |detail: Seq<char>|
                StartActionModel::Finish(
                    Err(EngineErrorModel::AdapterUnresolved { name: run.name, detail }),
                );
            let unread = StartActionModel::Finish(Err(registry_to_engine_spec(registry)));
            let step = |event: StartEventModel| start_next(run, event, has_runtime).1;
            &&& run.phase == StartPhase::Row || run.phase == StartPhase::Settled ==> step(
                StartEventModel::Row(Err(registry)),
            ) == unread
            &&& run.phase == StartPhase::LaunchFacts ==> step(
                StartEventModel::LaunchFacts(Err(registry)),
            ) == unread
            &&& run.phase == StartPhase::Launch ==> step(StartEventModel::Launch(Err(launch)))
                == unresolved(launch.text())
            &&& run.phase == StartPhase::Source ==> step(StartEventModel::Source(Err(registry)))
                == unread
            &&& run.phase == StartPhase::Support ==> step(StartEventModel::Support(Err(registry)))
                == unread
            &&& run.phase == StartPhase::Config ==> step(StartEventModel::Config(Err(config)))
                == unresolved(config.text())
            &&& run.phase == StartPhase::Mapping ==> step(StartEventModel::Mapping(Err(launch)))
                == unresolved(launch.text())
            &&& run.phase == StartPhase::Listener ==> step(
                StartEventModel::Listener(Err(listener)),
            ) == StartActionModel::Finish(
                Err(EngineErrorModel::ObservedMetering { name: run.name, detail: listener }),
            )
            &&& run.phase == StartPhase::Overridden ==> step(
                StartEventModel::Overridden(Err(config)),
            ) == unresolved(config.text())
            &&& run.phase == StartPhase::Secrets ==> step(StartEventModel::Secrets(Err(secret)))
                == StartActionModel::Finish(
                Err(EngineErrorModel::Secret { name: run.name, detail: secret.text() }),
            )
            &&& run.phase == StartPhase::Applied ==> step(StartEventModel::Applied(Err(apply)))
                == unresolved(apply.text())
            &&& run.phase == StartPhase::Snapshot ==> step(
                StartEventModel::Snapshot(Err(registry)),
            ) == StartActionModel::Finish(Err(snapshot_to_engine_spec(registry)))
            &&& run.phase == StartPhase::Policy ==> step(StartEventModel::Policy(Err(registry)))
                == unread
            &&& run.phase == StartPhase::LogDir ==> step(StartEventModel::LogDir(Err(log)))
                == StartActionModel::Finish(
                Err(
                    EngineErrorModel::Log {
                        name: run.name,
                        path: log.path,
                        detail: log.detail,
                    },
                ),
            )
            &&& run.phase == StartPhase::EnterStarting || run.phase == StartPhase::EnterFailed
                || run.phase == StartPhase::EnterRunning ==> step(
                StartEventModel::Transitioned(Err(engine)),
            ) == StartActionModel::Finish(Err(engine))
        }),
{
    reveal(start_next);
}

/// A start takes the answer to what it asked for and no other: any other answer changes nothing, neither its own state nor what is held,
/// and after its end every answer is such a one.
#[verifier::spinoff_prover]
#[verifier::rlimit(60)]
pub proof fn law_a_start_takes_only_its_answer(
    held: SupervisorModel,
    has_runtime: bool,
    run: StartModel,
    event: StartEventModel,
    later: StartEventModel,
)
    ensures
        ({
            let step = start_next(run, event, has_runtime);
            &&& step.1 is Misfit <==> !start_fits(run, event)
            &&& !start_fits(run, event) ==> step.0 == run
            &&& !start_fits(run, event) ==> start_effect(held, run, event) == held
            &&& step.1 is Finish ==> start_next(step.0, later, has_runtime).1 is Misfit
        }),
{
    reveal(start_next);
}

} // verus!
