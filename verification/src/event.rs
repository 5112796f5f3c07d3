//! The records the engine keeps and publishes: transitions, budget breaches and
//! log lines.
//!
//! Types that hold text are generic in the text: with `String` they are the
//! values that run, with `Seq<char>` the mathematical values that contracts
//! speak of.
use crate::lifecycle::LifecycleState;
use crate::text::{dec, push_dec};
use crate::usage::UsageUpdateEvent;
use vstd::prelude::*;

verus! {

/// The version of the transition payload.
pub const EVENT_SCHEMA_VERSION: u32 = 1;

/// The version of the budget-breach payload.
pub const BUDGET_SCHEMA_VERSION: u32 = 1;

/// The version of the log-line payload.
pub const LOG_SCHEMA_VERSION: u32 = 1;

/// An amount of money in millionths of a dollar.
#[derive(Clone, Copy, Debug, PartialEq, Eq, Structural)]
pub struct Micros(pub i64);

/// How sure a cost figure is.
#[derive(Clone, Copy, Debug, PartialEq, Eq, Structural)]
pub enum EstimateLabel {
    /// Derived from a configured rate.
    Estimated,
}

/// Over what a limit counts.
#[derive(Clone, Copy, Debug, PartialEq, Eq, Hash, Structural)]
pub enum BreachScope {
    /// The current run.
    PerRun,
    /// All runs.
    Cumulative,
}

impl BreachScope {
    /// The stable label.
    pub open spec fn label(self) -> Seq<char> {
        match self {
            BreachScope::PerRun => "per-run"@,
            BreachScope::Cumulative => "cumulative"@,
        }
    }

    /// The stable label.
    pub fn as_str(&self) -> (r: &'static str)
        ensures
            r@ == self.label(),
    {
        match self {
            BreachScope::PerRun => "per-run",
            BreachScope::Cumulative => "cumulative",
        }
    }
}

/// What a limit counts.
#[derive(Clone, Copy, Debug, PartialEq, Eq, Hash, Structural)]
pub enum BreachDimension {
    /// Tokens.
    Tokens,
    /// Dollars.
    Dollars,
}

impl BreachDimension {
    /// The stable label.
    pub open spec fn label(self) -> Seq<char> {
        match self {
            BreachDimension::Tokens => "tokens"@,
            BreachDimension::Dollars => "dollars"@,
        }
    }

    /// The stable label.
    pub fn as_str(&self) -> (r: &'static str)
        ensures
            r@ == self.label(),
    {
        match self {
            BreachDimension::Tokens => "tokens",
            BreachDimension::Dollars => "dollars",
        }
    }
}

/// What is done about a breach.
#[derive(Clone, Copy, Debug, PartialEq, Eq, Structural)]
pub enum BreachAction {
    /// Record it.
    Warn,
    /// Record it and pause the agent.
    Pause,
    /// Record it and stop the agent.
    Stop,
}

/// Why an instance changed state.
#[derive(Clone, Debug, PartialEq, Eq)]
pub enum TransitionCauseOf<S> {
    /// An operator asked for it.
    Command {
        /// The label of the command.
        command: S,
    },
    /// The launched process came up.
    AdapterReady,
    /// The launch failed.
    LaunchError {
        /// How.
        detail: S,
    },
    /// The process went away when asked to.
    StopGraceful,
    /// The process had to be killed.
    StopForced {
        /// Why.
        detail: S,
    },
    /// A pause that nothing enforces.
    PauseBestEffort {
        /// In what way.
        detail: S,
    },
    /// A resume that nothing enforces.
    ResumeBestEffort {
        /// In what way.
        detail: S,
    },
    /// The process died on its own.
    Crashed {
        /// How.
        detail: S,
    },
    /// The instance was started again after a crash.
    Restarted {
        /// Which restart in a row this is.
        count: u32,
        /// How long the engine waited before it.
        waited_ms: u64,
    },
    /// A limit was reached.
    BudgetExceeded {
        /// Over what the limit counts.
        scope: BreachScope,
        /// What it counts.
        dimension: BreachDimension,
        /// The limit, in tokens or millionths of a dollar.
        limit: i128,
        /// The count that reached it.
        observed: i128,
        /// How sure a dollar count is.
        label: Option<EstimateLabel>,
    },
}

/// Why an instance changed state.
pub type TransitionCause = TransitionCauseOf<String>;

/// The model of a cause.
pub type CauseModel = TransitionCauseOf<Seq<char>>;

impl View for TransitionCauseOf<String> {
    type V = CauseModel;

    open spec fn view(&self) -> CauseModel {
        match self {
            TransitionCauseOf::Command { command } => TransitionCauseOf::Command {
                command: command@,
            },
            TransitionCauseOf::AdapterReady => TransitionCauseOf::AdapterReady,
            TransitionCauseOf::LaunchError { detail } => TransitionCauseOf::LaunchError {
                detail: detail@,
            },
            TransitionCauseOf::StopGraceful => TransitionCauseOf::StopGraceful,
            TransitionCauseOf::StopForced { detail } => TransitionCauseOf::StopForced {
                detail: detail@,
            },
            TransitionCauseOf::PauseBestEffort { detail } => TransitionCauseOf::PauseBestEffort {
                detail: detail@,
            },
            TransitionCauseOf::ResumeBestEffort { detail } => TransitionCauseOf::ResumeBestEffort {
                detail: detail@,
            },
            TransitionCauseOf::Crashed { detail } => TransitionCauseOf::Crashed { detail: detail@ },
            TransitionCauseOf::Restarted { count, waited_ms } => TransitionCauseOf::Restarted {
                count: *count,
                waited_ms: *waited_ms,
            },
            TransitionCauseOf::BudgetExceeded { scope, dimension, limit, observed, label } =>
            TransitionCauseOf::BudgetExceeded {
                scope: *scope,
                dimension: *dimension,
                limit: *limit,
                observed: *observed,
                label: *label,
            },
        }
    }
}

impl TransitionCauseOf<String> {
    /// The cause of an operator command.
    pub fn command(command: &str) -> (r: Self)
        ensures
            r@ == (CauseModel::Command { command: command@ }),
    {
        TransitionCauseOf::Command { command: command.to_owned() }
    }

    /// The cause of a failed launch.
    pub fn launch_error(detail: String) -> (r: Self)
        ensures
            r@ == (CauseModel::LaunchError { detail: detail@ }),
    {
        TransitionCauseOf::LaunchError { detail }
    }

    /// The cause of a forced stop.
    pub fn stop_forced(detail: String) -> (r: Self)
        ensures
            r@ == (CauseModel::StopForced { detail: detail@ }),
    {
        TransitionCauseOf::StopForced { detail }
    }

    /// The cause of a best-effort pause.
    pub fn pause_best_effort(detail: String) -> (r: Self)
        ensures
            r@ == (CauseModel::PauseBestEffort { detail: detail@ }),
    {
        TransitionCauseOf::PauseBestEffort { detail }
    }

    /// The cause of a best-effort resume.
    pub fn resume_best_effort(detail: String) -> (r: Self)
        ensures
            r@ == (CauseModel::ResumeBestEffort { detail: detail@ }),
    {
        TransitionCauseOf::ResumeBestEffort { detail }
    }

    /// The cause of a crash.
    pub fn crashed(detail: String) -> (r: Self)
        ensures
            r@ == (CauseModel::Crashed { detail: detail@ }),
    {
        TransitionCauseOf::Crashed { detail }
    }

    /// The cause of a restart.
    pub fn restarted(count: u32, waited_ms: u64) -> (r: Self)
        ensures
            r@ == (CauseModel::Restarted { count, waited_ms }),
    {
        TransitionCauseOf::Restarted { count, waited_ms }
    }

    /// The cause of a token-budget breach.
    pub fn budget_exceeded(scope: BreachScope, limit: u64, observed: u64) -> (r: Self)
        ensures
            r@ == token_cause(scope, limit, observed),
    {
        TransitionCauseOf::BudgetExceeded {
            scope,
            dimension: BreachDimension::Tokens,
            limit: limit as i128,
            observed: observed as i128,
            label: None,
        }
    }

    /// The cause of a cost-cap breach.
    pub fn cost_cap_exceeded(
        scope: BreachScope,
        limit: Micros,
        observed: Micros,
        label: EstimateLabel,
    ) -> (r: Self)
        ensures
            r@ == cost_cause(scope, limit, observed, label),
    {
        TransitionCauseOf::BudgetExceeded {
            scope,
            dimension: BreachDimension::Dollars,
            limit: limit.0 as i128,
            observed: observed.0 as i128,
            label: Some(label),
        }
    }

    /// A copy of the cause.
    pub fn duplicate(&self) -> (r: Self)
        ensures
            r == *self,
    {
        match self {
            TransitionCauseOf::Command { command } => TransitionCauseOf::Command {
                command: command.clone(),
            },
            TransitionCauseOf::AdapterReady => TransitionCauseOf::AdapterReady,
            TransitionCauseOf::LaunchError { detail } => TransitionCauseOf::LaunchError {
                detail: detail.clone(),
            },
            TransitionCauseOf::StopGraceful => TransitionCauseOf::StopGraceful,
            TransitionCauseOf::StopForced { detail } => TransitionCauseOf::StopForced {
                detail: detail.clone(),
            },
            TransitionCauseOf::PauseBestEffort { detail } => TransitionCauseOf::PauseBestEffort {
                detail: detail.clone(),
            },
            TransitionCauseOf::ResumeBestEffort { detail } => TransitionCauseOf::ResumeBestEffort {
                detail: detail.clone(),
            },
            TransitionCauseOf::Crashed { detail } => TransitionCauseOf::Crashed {
                detail: detail.clone(),
            },
            TransitionCauseOf::Restarted { count, waited_ms } => TransitionCauseOf::Restarted {
                count: *count,
                waited_ms: *waited_ms,
            },
            TransitionCauseOf::BudgetExceeded { scope, dimension, limit, observed, label } =>
            TransitionCauseOf::BudgetExceeded {
                scope: *scope,
                dimension: *dimension,
                limit: *limit,
                observed: *observed,
                label: *label,
            },
        }
    }
}

/// The cause of a token-budget breach.
pub open spec fn token_cause(scope: BreachScope, limit: u64, observed: u64) -> CauseModel {
    TransitionCauseOf::BudgetExceeded {
        scope,
        dimension: BreachDimension::Tokens,
        limit: limit as i128,
        observed: observed as i128,
        label: None,
    }
}

/// The cause of a cost-cap breach.
pub open spec fn cost_cause(
    scope: BreachScope,
    limit: Micros,
    observed: Micros,
    label: EstimateLabel,
) -> CauseModel {
    TransitionCauseOf::BudgetExceeded {
        scope,
        dimension: BreachDimension::Dollars,
        limit: limit.0 as i128,
        observed: observed.0 as i128,
        label: Some(label),
    }
}

/// One recorded change of state.
#[derive(Debug, PartialEq, Eq)]
pub struct TransitionEvent {
    /// The version of this payload.
    pub schema_version: u32,
    /// The instance that changed.
    pub instance: String,
    /// The state it left.
    pub prior_state: LifecycleState,
    /// The state it entered.
    pub new_state: LifecycleState,
    /// Why.
    pub cause: TransitionCause,
    /// When.
    pub at: String,
}

impl TransitionEvent {
    /// The event of a change, in the current version.
    pub fn new(
        instance: String,
        prior_state: LifecycleState,
        new_state: LifecycleState,
        cause: TransitionCause,
        at: String,
    ) -> (r: Self)
        ensures
            r == (TransitionEvent {
                schema_version: EVENT_SCHEMA_VERSION,
                instance,
                prior_state,
                new_state,
                cause,
                at,
            }),
    {
        TransitionEvent {
            schema_version: EVENT_SCHEMA_VERSION,
            instance,
            prior_state,
            new_state,
            cause,
            at,
        }
    }
}

impl Clone for TransitionEvent {
    fn clone(&self) -> (r: Self)
        ensures
            r == *self,
    {
        TransitionEvent {
            schema_version: self.schema_version,
            instance: self.instance.clone(),
            prior_state: self.prior_state,
            new_state: self.new_state,
            cause: self.cause.duplicate(),
            at: self.at.clone(),
        }
    }
}

/// One recorded budget breach.
#[derive(Debug, PartialEq, Eq)]
pub struct BudgetBreachEvent {
    /// The version of this payload.
    pub schema_version: u32,
    /// The instance that reached the limit.
    pub instance: String,
    /// The run it was in.
    pub run_id: String,
    /// Over what the limit counts.
    pub scope: BreachScope,
    /// What it counts.
    pub dimension: BreachDimension,
    /// The limit, in tokens or millionths of a dollar.
    pub limit: i128,
    /// The count that reached it.
    pub observed: i128,
    /// How sure a dollar count is.
    pub label: Option<EstimateLabel>,
    /// What was done about it.
    pub action: BreachAction,
    /// Which source metered the usage.
    pub metering_source: String,
    /// When.
    pub at: String,
}

impl BudgetBreachEvent {
    /// The event of a token-budget breach.
    pub fn new(
        instance: &str,
        run_id: &str,
        scope: BreachScope,
        limit: u64,
        observed: u64,
        action: BreachAction,
        metering_source: &str,
        at: String,
    ) -> (r: Self)
        ensures
            r.schema_version == BUDGET_SCHEMA_VERSION,
            r.instance@ == instance@,
            r.run_id@ == run_id@,
            r.scope == scope,
            r.dimension == BreachDimension::Tokens,
            r.limit == limit,
            r.observed == observed,
            r.label is None,
            r.action == action,
            r.metering_source@ == metering_source@,
            r.at == at,
    {
        BudgetBreachEvent {
            schema_version: BUDGET_SCHEMA_VERSION,
            instance: instance.to_owned(),
            run_id: run_id.to_owned(),
            scope,
            dimension: BreachDimension::Tokens,
            limit: limit as i128,
            observed: observed as i128,
            label: None,
            action,
            metering_source: metering_source.to_owned(),
            at,
        }
    }

    /// The event of a cost-cap breach.
    pub fn new_cost(
        instance: &str,
        run_id: &str,
        scope: BreachScope,
        limit: Micros,
        observed: Micros,
        label: EstimateLabel,
        action: BreachAction,
        metering_source: &str,
        at: String,
    ) -> (r: Self)
        ensures
            r.schema_version == BUDGET_SCHEMA_VERSION,
            r.instance@ == instance@,
            r.run_id@ == run_id@,
            r.scope == scope,
            r.dimension == BreachDimension::Dollars,
            r.limit == limit.0,
            r.observed == observed.0,
            r.label == Some(label),
            r.action == action,
            r.metering_source@ == metering_source@,
            r.at == at,
    {
        BudgetBreachEvent {
            schema_version: BUDGET_SCHEMA_VERSION,
            instance: instance.to_owned(),
            run_id: run_id.to_owned(),
            scope,
            dimension: BreachDimension::Dollars,
            limit: limit.0 as i128,
            observed: observed.0 as i128,
            label: Some(label),
            action,
            metering_source: metering_source.to_owned(),
            at,
        }
    }
}

impl Clone for BudgetBreachEvent {
    fn clone(&self) -> (r: Self)
        ensures
            r == *self,
    {
        BudgetBreachEvent {
            schema_version: self.schema_version,
            instance: self.instance.clone(),
            run_id: self.run_id.clone(),
            scope: self.scope,
            dimension: self.dimension,
            limit: self.limit,
            observed: self.observed,
            label: self.label,
            action: self.action,
            metering_source: self.metering_source.clone(),
            at: self.at.clone(),
        }
    }
}

/// A committed event, as the bus and the backfill deliver it.
#[derive(Debug, PartialEq, Eq)]
pub enum EngineEvent {
    /// A change of state.
    Transition(TransitionEvent),
    /// A budget breach.
    BudgetBreach(BudgetBreachEvent),
    /// A usage report.
    UsageUpdate(UsageUpdateEvent),
}

/// Where a log line came from.
#[derive(Clone, Copy, Debug, PartialEq, Eq, Structural)]
pub enum LogStream {
    /// The agent's standard output.
    AgentOut,
    /// The agent's standard error.
    AgentErr,
    /// The engine.
    Engine,
}

/// One attributed line of an instance's output log.
#[derive(Clone, Debug, PartialEq, Eq)]
pub struct LogLine {
    /// The version of this payload.
    pub schema_version: u32,
    /// The instance.
    pub instance: String,
    /// Where the line came from.
    pub stream: LogStream,
    /// The line.
    pub text: String,
    /// When it was written.
    pub at: String,
}

impl LogLine {
    /// A line in the current version.
    pub fn new(instance: String, stream: LogStream, text: String, at: String) -> (r: Self)
        ensures
            r == (LogLine { schema_version: LOG_SCHEMA_VERSION, instance, stream, text, at }),
    {
        LogLine { schema_version: LOG_SCHEMA_VERSION, instance, stream, text, at }
    }
}

/// What a cause adds to the text of an engine line, in brackets.
pub open spec fn cause_suffix_text(cause: CauseModel) -> Seq<char> {
    match cause {
        TransitionCauseOf::Command { command } => " ("@ + command + ")"@,
        TransitionCauseOf::AdapterReady => ""@,
        TransitionCauseOf::LaunchError { detail } => " (launch error: "@ + detail + ")"@,
        TransitionCauseOf::StopGraceful => ""@,
        TransitionCauseOf::StopForced { detail } => " (forced: "@ + detail + ")"@,
        TransitionCauseOf::PauseBestEffort { detail } => " (best-effort: "@ + detail + ")"@,
        TransitionCauseOf::ResumeBestEffort { detail } => " (best-effort: "@ + detail + ")"@,
        TransitionCauseOf::Crashed { detail } => " (crashed: "@ + detail + ")"@,
        TransitionCauseOf::Restarted { count, waited_ms } => " (restart #"@ + dec(count as nat)
            + ", waited "@ + dec(waited_ms as nat) + "ms)"@,
        TransitionCauseOf::BudgetExceeded { scope, dimension, .. } => " (breach: "@ + scope.label()
            + " "@ + dimension.label() + ")"@,
    }
}

fn bracketed(lead: &str, detail: &str) -> (r: String)
    ensures
        r@ == lead@ + detail@ + ")"@,
{
    let mut out = lead.to_owned();
    out.append(detail);
    out.append(")");
    out
}

/// What a cause adds to the text of an engine line, in brackets; nothing for a
/// cause that needs no words.
pub fn cause_suffix(cause: &TransitionCause) -> (r: String)
    ensures
        r@ == cause_suffix_text(cause@),
{
    match cause {
        TransitionCauseOf::Command { command } => bracketed(" (", command.as_str()),
        TransitionCauseOf::AdapterReady => "".to_owned(),
        TransitionCauseOf::LaunchError { detail } => bracketed(" (launch error: ", detail.as_str()),
        TransitionCauseOf::StopGraceful => "".to_owned(),
        TransitionCauseOf::StopForced { detail } => bracketed(" (forced: ", detail.as_str()),
        TransitionCauseOf::PauseBestEffort { detail } => bracketed(
            " (best-effort: ",
            detail.as_str(),
        ),
        TransitionCauseOf::ResumeBestEffort { detail } => bracketed(
            " (best-effort: ",
            detail.as_str(),
        ),
        TransitionCauseOf::Crashed { detail } => bracketed(" (crashed: ", detail.as_str()),
        TransitionCauseOf::Restarted { count, waited_ms } => {
            let mut out = " (restart #".to_owned();
            push_dec(&mut out, *count as u128);
            out.append(", waited ");
            push_dec(&mut out, *waited_ms as u128);
            out.append("ms)");
            out
        },
        TransitionCauseOf::BudgetExceeded { scope, dimension, .. } => {
            let mut out = " (breach: ".to_owned();
            out.append(scope.as_str());
            out.append(" ");
            out.append(dimension.as_str());
            out.append(")");
            out
        },
    }
}

/// The text of the engine line for a transition.
pub open spec fn transition_line(
    prior: LifecycleState,
    new: LifecycleState,
    cause: CauseModel,
) -> Seq<char> {
    "engine: "@ + prior.label() + " -> "@ + new.label() + cause_suffix_text(cause)
}

/// The text of the engine line for a transition.
pub fn engine_transition_line_text(event: &TransitionEvent) -> (r: String)
    ensures
        r@ == transition_line(event.prior_state, event.new_state, event.cause@),
{
    let mut out = "engine: ".to_owned();
    out.append(event.prior_state.as_str());
    out.append(" -> ");
    out.append(event.new_state.as_str());
    out.append(cause_suffix(&event.cause).as_str());
    out
}

/// What a line in the log of an instance says of a transition: the state left and the state
/// entered, in this order, and of the cause what there is to tell, the detail it has whole.
pub proof fn law_a_transition_line_tells_its_cause(
    prior: LifecycleState,
    new: LifecycleState,
    detail: Seq<char>,
    count: u32,
    waited_ms: u64,
    limit: i128,
    observed: i128,
    label: Option<EstimateLabel>,
)
    ensures
        ({
            let states = "engine: "@ + prior.label() + " -> "@ + new.label();
            let line = |cause: CauseModel| transition_line(prior, new, cause);
            &&& line(CauseModel::AdapterReady) == states
            &&& line(CauseModel::StopGraceful) == states
            &&& line(CauseModel::Command { command: detail }) == states + (" ("@ + detail + ")"@)
            &&& line(CauseModel::LaunchError { detail }) == states + (" (launch error: "@ + detail
                + ")"@)
            &&& line(CauseModel::StopForced { detail }) == states + (" (forced: "@ + detail + ")"@)
            &&& line(CauseModel::PauseBestEffort { detail }) == states + (" (best-effort: "@
                + detail + ")"@)
            &&& line(CauseModel::ResumeBestEffort { detail }) == states + (" (best-effort: "@
                + detail + ")"@)
            &&& line(CauseModel::Crashed { detail }) == states + (" (crashed: "@ + detail + ")"@)
            &&& line(CauseModel::Restarted { count, waited_ms }) == states + (" (restart #"@ + dec(
                count as nat,
            ) + ", waited "@ + dec(waited_ms as nat) + "ms)"@)
            &&& line(
                CauseModel::BudgetExceeded {
                    scope: BreachScope::PerRun,
                    dimension: BreachDimension::Tokens,
                    limit,
                    observed,
                    label,
                },
            ) == states + (" (breach: "@ + "per-run"@ + " "@ + "tokens"@ + ")"@)
            &&& line(
                CauseModel::BudgetExceeded {
                    scope: BreachScope::Cumulative,
                    dimension: BreachDimension::Dollars,
                    limit,
                    observed,
                    label,
                },
            ) == states + (" (breach: "@ + "cumulative"@ + " "@ + "dollars"@ + ")"@)
        }),
{
    let states = "engine: "@ + prior.label() + " -> "@ + new.label();
    reveal_strlit("");
    assert(states + ""@ =~= states);
}

} // verus!
