//! What the engine tells of its instances.
use crate::budget::{CostCap, TokenBudget};
use crate::error::{
    registry_to_engine, registry_to_engine_spec, ConfigError, ConfigErrorModel, ConfigErrorOf,
    EngineError, EngineErrorModel, EngineErrorOf, RegistryError, RegistryErrorModel,
    RegistryErrorOf, StoreError,
};
use crate::event::{
    BreachAction, CauseModel, EstimateLabel, Micros, TransitionCause, TransitionCauseOf,
    TransitionEvent,
};
use crate::instance::AgentInstance;
use crate::lifecycle::LifecycleState;
use crate::logs::unknown_instance;
use crate::name::{name_fault, InstanceName};
use crate::registry::found_model;
use crate::restart::RestartPolicy;
use crate::supervisor::Supervisor;
use crate::usage::{saturating_sum, UsageTotals};
use vstd::prelude::*;

verus! {

/// What is told where it is not known where usage counts come from.
pub const UNKNOWN_METERING_SOURCE: &'static str = "unknown";

/// What is recorded of the restarts of an instance.
pub struct RestartRecord {
    /// Its policy.
    pub policy: RestartPolicy,
    /// How often it has been restarted in a row.
    pub count: u32,
    /// Why it last failed.
    pub last_known_cause: Option<String>,
}

/// The model of a [`RestartRecord`].
pub struct RestartRecordModel {
    /// Its policy.
    pub policy: RestartPolicy,
    /// How often it has been restarted in a row.
    pub count: u32,
    /// Why it last failed.
    pub last_known_cause: Option<Seq<char>>,
}

impl View for RestartRecord {
    type V = RestartRecordModel;

    open spec fn view(&self) -> RestartRecordModel {
        RestartRecordModel {
            policy: self.policy,
            count: self.count,
            last_known_cause: optional_text(self.last_known_cause),
        }
    }
}

/// An optional text.
pub open spec fn optional_text(text: Option<String>) -> Option<Seq<char>> {
    match text {
        Some(text) => Some(text@),
        None => None,
    }
}

/// The status of an instance.
#[derive(Debug)]
pub struct InstanceStatus {
    /// Its row.
    pub instance: AgentInstance,
    /// Its restart policy.
    pub restart_policy: RestartPolicy,
    /// How often it has been restarted in a row.
    pub restart_count: u32,
    /// Why it failed, where it did.
    pub failed_cause: Option<String>,
}

/// What the cause of a failure says, if it is one.
pub open spec fn failure_detail(cause: CauseModel) -> Option<Seq<char>> {
    match cause {
        TransitionCauseOf::LaunchError { detail } => Some(detail),
        TransitionCauseOf::Crashed { detail } => Some(detail),
        _ => None,
    }
}

/// What the cause of a failure says, if it is one.
pub fn failed_cause_detail(cause: &TransitionCause) -> (r: Option<String>)
    ensures
        optional_text(r) == failure_detail(cause@),
{
    match cause {
        TransitionCauseOf::LaunchError { detail } => Some(detail.clone()),
        TransitionCauseOf::Crashed { detail } => Some(detail.clone()),
        _ => None,
    }
}

/// What the last failure among some transitions says of its cause.
pub open spec fn last_failure(events: Seq<TransitionEvent>) -> Option<Seq<char>>
    decreases events.len(),
{
    if events.len() == 0 {
        None
    } else if events.last().new_state == LifecycleState::Failed {
        failure_detail(events.last().cause@)
    } else {
        last_failure(events.drop_last())
    }
}

fn last_failure_detail(events: &Vec<TransitionEvent>) -> (r: Option<String>)
    ensures
        optional_text(r) == last_failure(events@),
{
    let mut i: usize = events.len();
    assert(events@.take(i as int) =~= events@);
    while i > 0
        invariant
            i <= events@.len(),
            last_failure(events@) == last_failure(events@.take(i as int)),
        decreases i,
    {
        i = i - 1;
        proof {
            let before = events@.take(i + 1);
            assert(before.last() == events@[i as int]);
            assert(before.drop_last() =~= events@.take(i as int));
        }
        if events[i].new_state == LifecycleState::Failed {
            return failed_cause_detail(&events[i].cause);
        }
    }
    None
}

/// The transitions that were read; none where they could not be.
pub open spec fn events_read(events: Result<Vec<TransitionEvent>, EngineError>) -> Seq<
    TransitionEvent,
> {
    match events {
        Ok(events) => events@,
        Err(_) => Seq::empty(),
    }
}

/// Why an instance failed: what is recorded; else, where its state is that it failed,
/// what its log says of the last failure.
pub open spec fn failed_cause_of(
    record: Option<RestartRecordModel>,
    state: LifecycleState,
    events: Seq<TransitionEvent>,
) -> Option<Seq<char>> {
    match record {
        Some(RestartRecordModel { last_known_cause: Some(cause), .. }) => Some(cause),
        _ => if state == LifecycleState::Failed {
            last_failure(events)
        } else {
            None
        },
    }
}

/// The model of an optional record.
pub open spec fn record_model(record: Option<RestartRecord>) -> Option<RestartRecordModel> {
    match record {
        Some(record) => Some(record@),
        None => None,
    }
}

/// The restart policy of an instance.
pub open spec fn policy_of(record: Option<RestartRecordModel>) -> RestartPolicy {
    match record {
        Some(record) => record.policy,
        None => RestartPolicy::fallback(),
    }
}

/// How often an instance has been restarted in a row.
pub open spec fn count_of(record: Option<RestartRecordModel>) -> u32 {
    match record {
        Some(record) => record.count,
        None => 0,
    }
}

fn failed_cause(
    record: Option<RestartRecord>,
    state: LifecycleState,
    events: Result<Vec<TransitionEvent>, EngineError>,
) -> (r: Option<String>)
    ensures
        optional_text(r) == failed_cause_of(record_model(record), state, events_read(events)),
{
    if let Some(record) = record {
        if let Some(cause) = record.last_known_cause {
            return Some(cause);
        }
    }
    if state != LifecycleState::Failed {
        return None;
    }
    match events {
        Ok(events) => last_failure_detail(&events),
        Err(_) => None,
    }
}

fn policy_and_count(record: &Option<RestartRecord>) -> (r: (RestartPolicy, u32))
    ensures
        r.0 == policy_of(record_model(*record)),
        r.1 == count_of(record_model(*record)),
{
    match record {
        Some(record) => (record.policy, record.count),
        None => (RestartPolicy::default(), 0),
    }
}

/// The status of an instance. `found`, `record` and `events` are what the store and the
/// instance's log hold for the name; where one of them is a failure, or the text is no
/// name, those after it are not looked at. A log that cannot be read gives no cause.
pub fn instance_status(
    name: &str,
    found: Result<Option<AgentInstance>, StoreError>,
    record: Result<Option<RestartRecord>, StoreError>,
    events: Result<Vec<TransitionEvent>, EngineError>,
) -> (r: Result<InstanceStatus, EngineError>)
    ensures
        match unknown_instance(name@, found_model(found)) {
            Some(failure) => r matches Err(e) && e@ == failure,
            None => match record {
                Err(e) => r == Err::<InstanceStatus, EngineError>(EngineErrorOf::Store(e)),
                Ok(record) => {
                    &&& r matches Ok(status)
                    &&& found == Ok::<Option<AgentInstance>, StoreError>(Some(status.instance))
                    &&& status.restart_policy == policy_of(record_model(record))
                    &&& status.restart_count == count_of(record_model(record))
                    &&& optional_text(status.failed_cause) == failed_cause_of(
                        record_model(record),
                        status.instance.state,
                        events_read(events),
                    )
                },
            },
        },
{
    let instance = match InstanceName::new(name) {
        Err(reason) => {
            return Err(EngineErrorOf::InvalidName { name: name.to_owned(), reason });
        },
        Ok(_) => match found {
            Ok(Some(instance)) => instance,
            Ok(None) => {
                return Err(EngineErrorOf::NotFound { name: name.to_owned() });
            },
            Err(e) => {
                return Err(EngineErrorOf::Store(e));
            },
        },
    };
    let record = match record {
        Ok(record) => record,
        Err(e) => {
            return Err(EngineErrorOf::Store(e));
        },
    };
    let (restart_policy, restart_count) = policy_and_count(&record);
    let failed_cause = failed_cause(record, instance.state, events);
    Ok(InstanceStatus { instance, restart_policy, restart_count, failed_cause })
}

/// What the usage of an instance costs.
#[derive(Clone, Copy, Debug, PartialEq, Eq, Structural)]
pub struct DollarUsage {
    /// Over all runs.
    pub cumulative: Micros,
    /// In the current run.
    pub current_run: Micros,
    /// How sure it is.
    pub label: EstimateLabel,
}

/// The usage of an instance.
#[derive(Clone, Copy, Debug, PartialEq, Eq, Structural)]
pub struct UsageView {
    /// Over all runs.
    pub cumulative: UsageTotals,
    /// In the current run.
    pub current_run: UsageTotals,
    /// What it costs, where there is a rate.
    pub dollars: Option<DollarUsage>,
}

impl UsageView {
    /// Usage that has no price.
    pub fn new(cumulative: UsageTotals, current_run: UsageTotals) -> (r: Self)
        ensures
            r == (UsageView { cumulative, current_run, dollars: None }),
    {
        UsageView { cumulative, current_run, dollars: None }
    }

    /// The usage with a price.
    pub fn with_dollars(self, cumulative: Micros, current_run: Micros, label: EstimateLabel) -> (r:
        Self)
        ensures
            r == (UsageView {
                cumulative: self.cumulative,
                current_run: self.current_run,
                dollars: Some(DollarUsage { cumulative, current_run, label }),
            }),
    {
        UsageView {
            cumulative: self.cumulative,
            current_run: self.current_run,
            dollars: Some(DollarUsage { cumulative, current_run, label }),
        }
    }
}

/// The limits that are configured for an instance.
#[derive(Clone, Copy, Debug, PartialEq, Eq, Structural)]
pub struct FleetLimits {
    /// The token ceilings.
    pub budget: TokenBudget,
    /// What is done when a token ceiling is reached.
    pub action: BreachAction,
    /// Whether there is a rate to count dollars by.
    pub rated: bool,
    /// The dollar ceilings.
    pub cap: CostCap,
}

/// What a view of the budget of an instance is made of.
#[derive(Clone, Copy, Debug, PartialEq, Eq, Structural)]
pub struct BudgetFigures {
    /// The limits.
    pub limits: FleetLimits,
    /// Tokens in the current run.
    pub current_run_tokens: u64,
    /// Tokens over all runs.
    pub cumulative_tokens: u64,
    /// Dollars in the current run.
    pub current_run_cost: Micros,
    /// Dollars over all runs.
    pub cumulative_cost: Micros,
    /// How sure the dollars are.
    pub label: EstimateLabel,
}

/// What was read about an instance of the fleet. What could not be read is not there.
pub struct FleetReads {
    /// What is recorded of its restarts.
    pub record: Option<RestartRecord>,
    /// Its transitions.
    pub events: Result<Vec<TransitionEvent>, EngineError>,
    /// Its usage over all runs.
    pub cumulative: Option<UsageTotals>,
    /// Its usage in the current run.
    pub current_run: Option<UsageTotals>,
    /// Its limits.
    pub limits: Option<FleetLimits>,
    /// Its cost over all runs.
    pub cumulative_cost: Option<Micros>,
    /// Its cost in the current run.
    pub current_run_cost: Option<Micros>,
    /// Where its usage counts come from.
    pub metering_source: Option<String>,
}

/// An instance of the fleet. `B` is the view of its budget.
#[derive(Debug)]
pub struct FleetEntry<B> {
    /// Its name.
    pub name: InstanceName,
    /// The kind of its adapter.
    pub kind: String,
    /// Its lifecycle state.
    pub state: LifecycleState,
    /// How often it has been restarted in a row.
    pub restart_count: u32,
    /// Its restart policy.
    pub restart_policy: RestartPolicy,
    /// Why it failed, where it did.
    pub failed_cause: Option<String>,
    /// Its budget, where it has one.
    pub budget: Option<B>,
    /// Its usage.
    pub usage: UsageView,
    /// Where its usage counts come from.
    pub metering_source: String,
    /// Its home, as text.
    pub agent_home: String,
}

/// Totals that were read, or none.
pub open spec fn totals_or_none(totals: Option<UsageTotals>) -> UsageTotals {
    match totals {
        Some(totals) => totals,
        None => UsageTotals::none(),
    }
}

/// An amount that was read, or none.
pub open spec fn amount_or_none(amount: Option<Micros>) -> Micros {
    match amount {
        Some(amount) => amount,
        None => Micros(0),
    }
}

/// The usage of an instance: the totals, those of the current run only where there is
/// one, and the cost only where there is a rate.
pub open spec fn usage_view(reads: FleetReads, has_run: bool) -> UsageView {
    UsageView {
        cumulative: totals_or_none(reads.cumulative),
        current_run: if has_run {
            totals_or_none(reads.current_run)
        } else {
            UsageTotals::none()
        },
        dollars: match reads.limits {
            Some(limits) if limits.rated => Some(
                DollarUsage {
                    cumulative: amount_or_none(reads.cumulative_cost),
                    current_run: if has_run {
                        amount_or_none(reads.current_run_cost)
                    } else {
                        Micros(0)
                    },
                    label: EstimateLabel::Estimated,
                },
            ),
            _ => None,
        },
    }
}

/// What a view of the budget of an instance is made of, where its limits are known.
pub open spec fn budget_figures(limits: Option<FleetLimits>, usage: UsageView) -> Option<
    BudgetFigures,
> {
    match limits {
        None => None,
        Some(limits) => Some(
            BudgetFigures {
                limits,
                current_run_tokens: saturating_sum(
                    usage.current_run.input_tokens,
                    usage.current_run.output_tokens,
                ) as u64,
                cumulative_tokens: saturating_sum(
                    usage.cumulative.input_tokens,
                    usage.cumulative.output_tokens,
                ) as u64,
                current_run_cost: match usage.dollars {
                    Some(dollars) => dollars.current_run,
                    None => Micros(0),
                },
                cumulative_cost: match usage.dollars {
                    Some(dollars) => dollars.cumulative,
                    None => Micros(0),
                },
                label: EstimateLabel::Estimated,
            },
        ),
    }
}

fn or_no_amount(amount: Option<Micros>) -> (r: Micros)
    ensures
        r == amount_or_none(amount),
{
    match amount {
        Some(amount) => amount,
        None => Micros(0),
    }
}

fn or_no_totals(totals: Option<UsageTotals>) -> (r: UsageTotals)
    ensures
        r == totals_or_none(totals),
{
    match totals {
        Some(totals) => totals,
        None => UsageTotals::zero(),
    }
}

impl Supervisor {
    /// What is told of the usage of an instance, and what a view of its budget is made of.
    pub fn fleet_usage(&self, name: &InstanceName, reads: &FleetReads) -> (r: (
        UsageView,
        Option<BudgetFigures>,
    ))
        requires
            self.wf(),
        ensures
            r.0 == usage_view(*reads, self@.running.contains_key(name@)),
            r.1 == budget_figures(reads.limits, r.0),
    {
        let has_run = self.is_held(name);
        let cumulative = or_no_totals(reads.cumulative);
        let current_run = if has_run {
            or_no_totals(reads.current_run)
        } else {
            UsageTotals::zero()
        };
        let base = UsageView::new(cumulative, current_run);
        let limits = match reads.limits {
            Some(limits) => limits,
            None => {
                return (base, None);
            },
        };
        let cumulative_tokens: u64 = cumulative.total_tokens();
        let current_run_tokens: u64 = current_run.total_tokens();
        if !limits.rated {
            let figures = BudgetFigures {
                limits,
                current_run_tokens,
                cumulative_tokens,
                current_run_cost: Micros(0),
                cumulative_cost: Micros(0),
                label: EstimateLabel::Estimated,
            };
            return (base, Some(figures));
        }
        let cumulative_cost = or_no_amount(reads.cumulative_cost);
        let current_run_cost = if has_run {
            or_no_amount(reads.current_run_cost)
        } else {
            Micros(0)
        };
        let usage = base.with_dollars(cumulative_cost, current_run_cost, EstimateLabel::Estimated);
        let figures = BudgetFigures {
            limits,
            current_run_tokens,
            cumulative_tokens,
            current_run_cost,
            cumulative_cost,
            label: EstimateLabel::Estimated,
        };
        (usage, Some(figures))
    }

    /// What is told of an instance of the fleet. What could not be read is told as
    /// nothing, and fails nothing. `budget` is the view of its budget, if it has one.
    pub fn fleet_entry_for<B>(
        &self,
        instance: AgentInstance,
        reads: FleetReads,
        budget: Option<B>,
    ) -> (r: FleetEntry<B>)
        requires
            self.wf(),
        ensures
            r.name == instance.name,
            r.kind == instance.kind,
            r.state == instance.state,
            r.agent_home == instance.agent_home,
            r.restart_policy == policy_of(record_model(reads.record)),
            r.restart_count == count_of(record_model(reads.record)),
            optional_text(r.failed_cause) == failed_cause_of(
                record_model(reads.record),
                instance.state,
                events_read(reads.events),
            ),
            r.usage == usage_view(reads, self@.running.contains_key(instance.name@)),
            r.budget == match reads.limits {
                Some(_) => budget,
                None => None,
            },
            r.metering_source@ == match reads.metering_source {
                Some(source) => source@,
                None => UNKNOWN_METERING_SOURCE@,
            },
    {
        let (usage, figures) = self.fleet_usage(&instance.name, &reads);
        let (restart_policy, restart_count) = policy_and_count(&reads.record);
        let failed_cause = failed_cause(reads.record, instance.state, reads.events);
        let metering_source = match reads.metering_source {
            Some(source) => source,
            None => UNKNOWN_METERING_SOURCE.to_owned(),
        };
        let budget = match figures {
            Some(_) => budget,
            None => None,
        };
        FleetEntry {
            name: instance.name,
            kind: instance.kind,
            state: instance.state,
            restart_count,
            restart_policy,
            failed_cause,
            budget,
            usage,
            metering_source,
            agent_home: instance.agent_home,
        }
    }
}

/// The name of an instance whose config is asked for.
pub fn config_instance(name: &str) -> (r: Result<InstanceName, ConfigError>)
    ensures
        match r {
            Ok(instance) => instance@ == name@ && name_fault(name@) is None,
            Err(e) => name_fault(name@) matches Some(reason) && e@
                == (ConfigErrorModel::InvalidName { name: name@, reason: reason.text() }),
        },
{
    match InstanceName::new(name) {
        Ok(instance) => Ok(instance),
        Err(reason) => Err(
            ConfigErrorOf::InvalidName {
                name: name.to_owned(),
                reason: reason.message().to_owned(),
            },
        ),
    }
}

/// The name of an instance that something is to be done with.
pub fn engine_instance(name: &str) -> (r: Result<InstanceName, EngineError>)
    ensures
        match r {
            Ok(instance) => instance@ == name@ && name_fault(name@) is None,
            Err(e) => name_fault(name@) matches Some(reason) && e@
                == (EngineErrorModel::InvalidName { name: name@, reason }),
        },
{
    match InstanceName::new(name) {
        Ok(instance) => Ok(instance),
        Err(reason) => Err(EngineErrorOf::InvalidName { name: name.to_owned(), reason }),
    }
}

/// An answer of the registry as an answer of the engine.
pub fn engine_result<T>(answer: Result<T, RegistryError>) -> (r: Result<T, EngineError>)
    ensures
        match answer {
            Ok(value) => r == Ok::<T, EngineError>(value),
            Err(e) => r matches Err(failure) && failure@ == registry_to_engine_spec(e@),
        },
{
    match answer {
        Ok(value) => Ok(value),
        Err(e) => Err(registry_to_engine(e)),
    }
}

/// What opening the engine fails with where its runtime cannot be started.
pub fn runtime_failure(source: String) -> (r: RegistryError)
    ensures
        r@ == (RegistryErrorModel::Io {
            name: "<engine-runtime>"@,
            path: "<tokio-runtime>"@,
            source: source@,
        }),
{
    RegistryErrorOf::Io {
        name: "<engine-runtime>".to_owned(),
        path: "<tokio-runtime>".to_owned(),
        source,
    }
}

/// Without a rate there is no dollar figure, not even zero.
pub proof fn law_no_rate_no_dollars(reads: FleetReads, has_run: bool)
    ensures
        usage_view(reads, has_run).dollars is Some <==> (reads.limits matches Some(limits)
            && limits.rated),
{
}

/// An instance that did not fail is told no cause but a recorded one, and one that did is
/// told the recorded cause before any other.
pub proof fn law_the_recorded_cause_comes_first(
    record: Option<RestartRecordModel>,
    state: LifecycleState,
    events: Seq<TransitionEvent>,
)
    ensures
        record is None && state != LifecycleState::Failed ==> failed_cause_of(
            record,
            state,
            events,
        ) is None,
        record is Some && record->0.last_known_cause is Some ==> failed_cause_of(
            record,
            state,
            events,
        ) == record->0.last_known_cause,
{
}

/// The cause that a log tells is that of its last failure: what comes before that and what comes
/// after does not matter, and a log without a failure tells none. A failure that was a launch
/// error or a crash tells its detail.
pub proof fn law_the_last_failure_is_told(events: Seq<TransitionEvent>, i: int)
    requires
        0 <= i < events.len(),
        events[i].new_state == LifecycleState::Failed,
        forall|j: int|
            i < j < events.len() ==> (#[trigger] events[j]).new_state != LifecycleState::Failed,
    ensures
        last_failure(events) == match events[i].cause@ {
            TransitionCauseOf::LaunchError { detail } => Some(detail),
            TransitionCauseOf::Crashed { detail } => Some(detail),
            _ => None,
        },
    decreases events.len(),
{
    if i < events.len() - 1 {
        assert(events[events.len() - 1].new_state != LifecycleState::Failed);
        assert(events.drop_last()[i] == events[i]);
        assert forall|j: int| i < j < events.drop_last().len() implies (
        #[trigger] events.drop_last()[j]).new_state != LifecycleState::Failed by {
            assert(events.drop_last()[j] == events[j]);
        }
        law_the_last_failure_is_told(events.drop_last(), i);
    }
}

/// A log without a failure tells no cause.
pub proof fn law_no_failure_no_cause(events: Seq<TransitionEvent>)
    requires
        forall|j: int|
            0 <= j < events.len() ==> (#[trigger] events[j]).new_state != LifecycleState::Failed,
    ensures
        last_failure(events) is None,
    decreases events.len(),
{
    if events.len() > 0 {
        assert(events[events.len() - 1].new_state != LifecycleState::Failed);
        assert forall|j: int| 0 <= j < events.drop_last().len() implies (
        #[trigger] events.drop_last()[j]).new_state != LifecycleState::Failed by {
            assert(events.drop_last()[j] == events[j]);
        }
        law_no_failure_no_cause(events.drop_last());
    }
}

/// Where no cause is recorded, an instance that failed is told what its log says of the last
/// failure, and any other instance is told none.
pub proof fn law_the_log_is_asked_where_nothing_is_recorded(
    record: Option<RestartRecordModel>,
    state: LifecycleState,
    events: Seq<TransitionEvent>,
)
    requires
        record matches Some(kept) ==> kept.last_known_cause is None,
    ensures
        state == LifecycleState::Failed ==> failed_cause_of(record, state, events)
            == last_failure(events),
        state != LifecycleState::Failed ==> failed_cause_of(record, state, events) is None,
{
}

/// What is told of the restarts is what is recorded; an instance without a record has not been
/// restarted and would be.
pub proof fn law_restarts_are_told_as_recorded(record: Option<RestartRecordModel>)
    ensures
        record matches Some(kept) ==> policy_of(record) == kept.policy && count_of(record)
            == kept.count,
        record is None ==> policy_of(record) == RestartPolicy::OnFailure && count_of(record) == 0,
{
}

/// Usage is told as it was read: the totals over all runs, and those of the current run exactly
/// where there is one; what could not be read is told as nothing. The cost goes the same
/// way where there is a rate, as an estimate.
pub proof fn law_usage_is_told_as_read(reads: FleetReads, has_run: bool)
    ensures
        ({
            let told = usage_view(reads, has_run);
            &&& reads.cumulative is Some ==> told.cumulative == reads.cumulative->0
            &&& reads.cumulative is None ==> told.cumulative.input_tokens == 0
                && told.cumulative.output_tokens == 0
            &&& has_run && reads.current_run is Some ==> told.current_run == reads.current_run->0
            &&& !has_run || reads.current_run is None ==> told.current_run.input_tokens == 0
                && told.current_run.output_tokens == 0
            &&& told.dollars matches Some(dollars) ==> {
                &&& dollars.label == EstimateLabel::Estimated
                &&& reads.cumulative_cost is Some ==> dollars.cumulative
                    == reads.cumulative_cost->0
                &&& reads.cumulative_cost is None ==> dollars.cumulative.0 == 0
                &&& has_run && reads.current_run_cost is Some ==> dollars.current_run
                    == reads.current_run_cost->0
                &&& !has_run || reads.current_run_cost is None ==> dollars.current_run.0 == 0
            }
        }),
{
}

/// The figures of a budget are there exactly where the limits are, and go with the usage told:
/// its tokens, in and out together, of the current run and over all runs, and its
/// cost, if any.
pub proof fn law_budget_figures_go_with_the_usage(limits: Option<FleetLimits>, usage: UsageView)
    ensures
        budget_figures(limits, usage) is Some <==> limits is Some,
        budget_figures(limits, usage) matches Some(figures) ==> {
            &&& Some(figures.limits) == limits
            &&& usage.current_run.input_tokens + usage.current_run.output_tokens <= u64::MAX
                ==> figures.current_run_tokens == usage.current_run.input_tokens
                + usage.current_run.output_tokens
            &&& usage.current_run.input_tokens + usage.current_run.output_tokens > u64::MAX
                ==> figures.current_run_tokens == u64::MAX
            &&& usage.cumulative.input_tokens + usage.cumulative.output_tokens <= u64::MAX
                ==> figures.cumulative_tokens == usage.cumulative.input_tokens
                + usage.cumulative.output_tokens
            &&& usage.cumulative.input_tokens + usage.cumulative.output_tokens > u64::MAX
                ==> figures.cumulative_tokens == u64::MAX
            &&& usage.dollars matches Some(dollars) ==> figures.current_run_cost
                == dollars.current_run && figures.cumulative_cost == dollars.cumulative
            &&& usage.dollars is None ==> figures.current_run_cost.0 == 0
                && figures.cumulative_cost.0 == 0
            &&& figures.label == EstimateLabel::Estimated
        },
{
}

} // verus!
