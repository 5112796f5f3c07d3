//! Acting on limits that usage has reached.
//!
//! An [`Enforce`] follows one committed usage event. It asks for one action at a
//! time and takes the answer. Tokens come before dollars, and a limit counts once per
//! run. Every breach is on record before any is acted on: acting on one may end the run
//! that the other is in.
use crate::error::RegistryError;
use crate::event::{
    cost_cause, token_cause, BreachAction, BreachDimension, BreachScope, BudgetBreachEvent,
    CauseModel, EstimateLabel, Micros, TransitionCause, TransitionCauseOf,
};
use crate::name::InstanceName;
use crate::supervisor::{breach_is_news, with_breach, Supervisor, SupervisorModel};
use crate::usage::{RecordOutcome, RunId, UsageEvent, UsageUpdateEvent};
use vstd::prelude::*;

verus! {

/// Token ceilings.
#[derive(Clone, Copy, Debug, PartialEq, Eq, Structural)]
pub struct TokenBudget {
    /// For each run.
    pub per_run: Option<u64>,
    /// For all runs.
    pub cumulative: Option<u64>,
}

impl TokenBudget {
    /// Whether there is any ceiling.
    pub open spec fn set(self) -> bool {
        self.per_run is Some || self.cumulative is Some
    }

    /// Whether there is any ceiling.
    pub fn is_set(&self) -> (r: bool)
        ensures
            r == self.set(),
    {
        self.per_run.is_some() || self.cumulative.is_some()
    }
}

/// Dollar ceilings.
#[derive(Clone, Copy, Debug, PartialEq, Eq, Structural)]
pub struct CostCap {
    /// For each run.
    pub per_run: Option<Micros>,
    /// For all runs.
    pub cumulative: Option<Micros>,
}

impl CostCap {
    /// Whether there is any ceiling.
    pub open spec fn set(self) -> bool {
        self.per_run is Some || self.cumulative is Some
    }

    /// Whether there is any ceiling.
    pub fn is_set(&self) -> (r: bool)
        ensures
            r == self.set(),
    {
        self.per_run.is_some() || self.cumulative.is_some()
    }
}

/// What the configuration says about limits.
#[derive(Clone, Copy, Debug, PartialEq, Eq, Structural)]
pub struct Limits {
    /// The token ceilings.
    pub budget: TokenBudget,
    /// What is done when one is reached.
    pub token_action: BreachAction,
    /// Whether there is a rate to count dollars by.
    pub rated: bool,
    /// The dollar ceilings.
    pub cap: CostCap,
    /// What is done when one is reached.
    pub cost_action: BreachAction,
}

/// Whether the totals of an instance reach a limit.
#[derive(Clone, Copy, Debug, PartialEq, Eq, Structural)]
pub enum BreachDecision {
    /// They do not.
    WithinBudget,
    /// They do.
    Breached {
        /// Over what the limit counts.
        scope: BreachScope,
        /// What is to be done.
        action: BreachAction,
        /// The limit, in tokens or millionths of a dollar.
        limit: u64,
        /// The total that reached it.
        observed: u64,
    },
}

/// A breach that is to be recorded.
#[derive(Clone, Copy, Debug, PartialEq, Eq, Structural)]
pub struct Breach {
    /// What the limit counts.
    pub dimension: BreachDimension,
    /// Over what it counts.
    pub scope: BreachScope,
    /// What is to be done.
    pub action: BreachAction,
    /// The limit, in tokens or millionths of a dollar.
    pub limit: u64,
    /// The total that reached it.
    pub observed: u64,
}

/// The 64 bits of a dollar count as a signed amount.
pub open spec fn micros_of(count: u64) -> Micros {
    Micros(count as i64)
}

/// Why an instance is paused or stopped over a breach.
pub open spec fn breach_cause(breach: Breach) -> CauseModel {
    match breach.dimension {
        BreachDimension::Tokens => token_cause(breach.scope, breach.limit, breach.observed),
        BreachDimension::Dollars => cost_cause(
            breach.scope,
            micros_of(breach.limit),
            micros_of(breach.observed),
            EstimateLabel::Estimated,
        ),
    }
}

impl Breach {
    /// Why an instance is paused or stopped over this breach.
    pub fn cause(&self) -> (r: TransitionCause)
        ensures
            r@ == breach_cause(*self),
    {
        match self.dimension {
            BreachDimension::Tokens => TransitionCause::budget_exceeded(
                self.scope,
                self.limit,
                self.observed,
            ),
            BreachDimension::Dollars => TransitionCause::cost_cap_exceeded(
                self.scope,
                Micros(self.limit as i64),
                Micros(self.observed as i64),
                EstimateLabel::Estimated,
            ),
        }
    }

    /// The event that records this breach.
    pub fn event(&self, name: &InstanceName, run_id: &RunId, metering_source: &str, at: String) -> (
        r: BudgetBreachEvent)
        ensures
            r.instance@ == name@,
            r.run_id@ == run_id@,
            r.metering_source@ == metering_source@,
            r.at == at,
            r.dimension == self.dimension,
            r.scope == self.scope,
            r.action == self.action,
            breach_cause(*self) == (CauseModel::BudgetExceeded {
                scope: r.scope,
                dimension: r.dimension,
                limit: r.limit,
                observed: r.observed,
                label: r.label,
            }),
    {
        match self.dimension {
            BreachDimension::Tokens => BudgetBreachEvent::new(
                name.as_str(),
                run_id.as_str(),
                self.scope,
                self.limit,
                self.observed,
                self.action,
                metering_source,
                at,
            ),
            BreachDimension::Dollars => BudgetBreachEvent::new_cost(
                name.as_str(),
                run_id.as_str(),
                self.scope,
                Micros(self.limit as i64),
                Micros(self.observed as i64),
                EstimateLabel::Estimated,
                self.action,
                metering_source,
                at,
            ),
        }
    }
}

/// What an [`Enforce`] waits for.
#[derive(Clone, Copy, Debug, PartialEq, Eq, Structural)]
pub enum EnforcePhase {
    /// The limits.
    Limits,
    /// Whether the tokens reach one.
    Tokens,
    /// The record of the token breach.
    TokensRecorded,
    /// Whether the dollars reach one.
    Dollars,
    /// The record of the dollar breach.
    DollarsRecorded,
    /// The pause or stop over a breach.
    Enforced,
    /// Nothing; it has ended.
    Done,
}

/// An enforcement under way.
pub struct Enforce {
    name: InstanceName,
    phase: EnforcePhase,
    limits: Limits,
    tokens: Option<Breach>,
    dollars: Option<Breach>,
}

/// The model of an [`Enforce`].
pub struct EnforceModel {
    /// The instance.
    pub name: Seq<char>,
    /// What is waited for.
    pub phase: EnforcePhase,
    /// The limits.
    pub limits: Limits,
    /// The token breach that is on record and still to be acted on.
    pub tokens: Option<Breach>,
    /// The dollar breach that is on record and still to be acted on.
    pub dollars: Option<Breach>,
}

impl View for Enforce {
    type V = EnforceModel;

    closed spec fn view(&self) -> EnforceModel {
        EnforceModel {
            name: self.name@,
            phase: self.phase,
            limits: self.limits,
            tokens: self.tokens,
            dollars: self.dollars,
        }
    }
}

/// The answer to an action of an [`Enforce`].
#[derive(Clone, Copy, Debug, PartialEq, Eq, Structural)]
pub enum EnforceEvent {
    /// The limits, if the configuration could be read.
    Limits(Option<Limits>),
    /// Whether the committed totals reach a limit.
    Evaluated(BreachDecision),
    /// The breach has been recorded, as far as that worked.
    Recorded,
    /// The pause or stop has been made, as far as that worked.
    Enforced,
}

/// What an [`Enforce`] asks for.
pub enum EnforceActionOf<S> {
    /// Resolve the limits.
    ReadLimits,
    /// Hold the committed token totals against the ceilings.
    EvaluateTokens(Limits),
    /// Hold the committed costs against the ceilings.
    EvaluateDollars(Limits),
    /// Record a breach.
    Record(Breach),
    /// Pause the instance.
    Pause(TransitionCauseOf<S>),
    /// Stop the instance.
    Stop(TransitionCauseOf<S>),
    /// Nothing: the answer does not fit what was asked.
    Misfit,
    /// Nothing more.
    Finish,
}

/// What an [`Enforce`] asks for.
pub type EnforceAction = EnforceActionOf<String>;

/// The model of an [`EnforceAction`].
pub type EnforceActionModel = EnforceActionOf<Seq<char>>;

impl View for EnforceActionOf<String> {
    type V = EnforceActionModel;

    open spec fn view(&self) -> EnforceActionModel {
        match self {
            EnforceActionOf::ReadLimits => EnforceActionOf::ReadLimits,
            EnforceActionOf::EvaluateTokens(limits) => EnforceActionOf::EvaluateTokens(*limits),
            EnforceActionOf::EvaluateDollars(limits) => EnforceActionOf::EvaluateDollars(*limits),
            EnforceActionOf::Record(breach) => EnforceActionOf::Record(*breach),
            EnforceActionOf::Pause(cause) => EnforceActionOf::Pause(cause@),
            EnforceActionOf::Stop(cause) => EnforceActionOf::Stop(cause@),
            EnforceActionOf::Misfit => EnforceActionOf::Misfit,
            EnforceActionOf::Finish => EnforceActionOf::Finish,
        }
    }
}

/// Whether dollars are held against a ceiling: only where there is one and a rate
/// to count by.
pub open spec fn dollars_armed(limits: Limits) -> bool {
    limits.rated && limits.cap.set()
}

/// Nothing more is to be done.
pub open spec fn enforce_ends(run: EnforceModel) -> (EnforceModel, EnforceActionModel) {
    (EnforceModel { phase: EnforcePhase::Done, ..run }, EnforceActionOf::Finish)
}

/// What acting on a breach asks for, if anything.
pub open spec fn breach_asks(breach: Breach) -> Option<EnforceActionModel> {
    match breach.action {
        BreachAction::Warn => None,
        BreachAction::Pause => Some(EnforceActionOf::Pause(breach_cause(breach))),
        BreachAction::Stop => Some(EnforceActionOf::Stop(breach_cause(breach))),
    }
}

/// What acting on a breach asks for, if there is one and it asks for anything.
pub open spec fn pending_asks(breach: Option<Breach>) -> Option<EnforceActionModel> {
    match breach {
        Some(breach) => breach_asks(breach),
        None => None,
    }
}

/// The breaches on record are acted on, that of the tokens first. Where the instance is not
/// supervised any more there is nothing to act on.
pub open spec fn enforce_act(run: EnforceModel, supervisor: SupervisorModel) -> (
    EnforceModel,
    EnforceActionModel,
) {
    let held = supervisor.running.contains_key(run.name);
    match (pending_asks(run.tokens), pending_asks(run.dollars)) {
        (Some(action), _) if held => (
            EnforceModel { phase: EnforcePhase::Enforced, tokens: None, ..run },
            action,
        ),
        (None, Some(action)) if held => (
            EnforceModel { phase: EnforcePhase::Enforced, dollars: None, ..run },
            action,
        ),
        _ => enforce_ends(run),
    }
}

/// What comes after the tokens.
pub open spec fn enforce_dollars(run: EnforceModel, supervisor: SupervisorModel) -> (
    EnforceModel,
    EnforceActionModel,
) {
    if dollars_armed(run.limits) {
        (
            EnforceModel { phase: EnforcePhase::Dollars, ..run },
            EnforceActionOf::EvaluateDollars(run.limits),
        )
    } else {
        enforce_act(run, supervisor)
    }
}

/// The breach that a decision amounts to.
pub open spec fn breach_of(dimension: BreachDimension, decision: BreachDecision) -> Option<
    Breach,
> {
    match decision {
        BreachDecision::WithinBudget => None,
        BreachDecision::Breached { scope, action, limit, observed } => Some(
            Breach { dimension, scope, action, limit, observed },
        ),
    }
}

/// The breach that a decision amounts to, where it is news.
pub open spec fn news_of(
    run: EnforceModel,
    dimension: BreachDimension,
    decision: BreachDecision,
    supervisor: SupervisorModel,
) -> Option<Breach> {
    match breach_of(dimension, decision) {
        Some(breach) if breach_is_news(supervisor.running, run.name, dimension, breach.scope) => {
            Some(breach)
        },
        _ => None,
    }
}

/// What an enforcement does with an answer: the table of its steps.
pub open spec fn enforce_next(
    run: EnforceModel,
    event: EnforceEvent,
    supervisor: SupervisorModel,
) -> (EnforceModel, EnforceActionModel) {
    match (run.phase, event) {
        (EnforcePhase::Limits, EnforceEvent::Limits(None)) => enforce_ends(run),
        (EnforcePhase::Limits, EnforceEvent::Limits(Some(limits))) => if limits.budget.set() {
            (
                EnforceModel { phase: EnforcePhase::Tokens, limits, ..run },
                EnforceActionOf::EvaluateTokens(limits),
            )
        } else {
            enforce_dollars(EnforceModel { limits, ..run }, supervisor)
        },
        (EnforcePhase::Tokens, EnforceEvent::Evaluated(decision)) => match news_of(
            run,
            BreachDimension::Tokens,
            decision,
            supervisor,
        ) {
            None => enforce_dollars(run, supervisor),
            Some(breach) => (
                EnforceModel {
                    phase: EnforcePhase::TokensRecorded,
                    tokens: Some(breach),
                    ..run
                },
                EnforceActionOf::Record(breach),
            ),
        },
        (EnforcePhase::TokensRecorded, EnforceEvent::Recorded) => enforce_dollars(run, supervisor),
        (EnforcePhase::Dollars, EnforceEvent::Evaluated(decision)) => match news_of(
            run,
            BreachDimension::Dollars,
            decision,
            supervisor,
        ) {
            None => enforce_act(run, supervisor),
            Some(breach) => (
                EnforceModel {
                    phase: EnforcePhase::DollarsRecorded,
                    dollars: Some(breach),
                    ..run
                },
                EnforceActionOf::Record(breach),
            ),
        },
        (EnforcePhase::DollarsRecorded, EnforceEvent::Recorded) => enforce_act(run, supervisor),
        (EnforcePhase::Enforced, EnforceEvent::Enforced) => enforce_act(run, supervisor),
        _ => (run, EnforceActionOf::Misfit),
    }
}

/// What noting a decision does to the supervised processes.
pub open spec fn noted(
    supervisor: SupervisorModel,
    name: Seq<char>,
    dimension: BreachDimension,
    decision: BreachDecision,
) -> SupervisorModel {
    match breach_of(dimension, decision) {
        None => supervisor,
        Some(breach) => SupervisorModel {
            running: with_breach(supervisor.running, name, dimension, breach.scope),
            ..supervisor
        },
    }
}

/// What an enforcement does to the supervised processes: a limit that is reached is
/// noted for the run.
pub open spec fn enforce_effect(
    supervisor: SupervisorModel,
    run: EnforceModel,
    event: EnforceEvent,
) -> SupervisorModel {
    match (run.phase, event) {
        (EnforcePhase::Tokens, EnforceEvent::Evaluated(decision)) => noted(
            supervisor,
            run.name,
            BreachDimension::Tokens,
            decision,
        ),
        (EnforcePhase::Dollars, EnforceEvent::Evaluated(decision)) => noted(
            supervisor,
            run.name,
            BreachDimension::Dollars,
            decision,
        ),
        _ => supervisor,
    }
}

impl Enforce {
    /// The instance.
    pub fn name(&self) -> (r: &InstanceName)
        ensures
            r@ == self@.name,
    {
        &self.name
    }

    fn ends(&mut self) -> (r: EnforceAction)
        ensures
            (final(self)@, r@) == enforce_ends(old(self)@),
    {
        self.phase = EnforcePhase::Done;
        EnforceActionOf::Finish
    }

    fn act(&mut self, supervisor: &Supervisor) -> (r: EnforceAction)
        requires
            supervisor.wf(),
        ensures
            (final(self)@, r@) == enforce_act(old(self)@, supervisor@),
    {
        if !supervisor.is_held(&self.name) {
            return self.ends();
        }
        if let Some(breach) = self.tokens {
            if let Some(action) = breach.asks() {
                self.phase = EnforcePhase::Enforced;
                self.tokens = None;
                return action;
            }
        }
        if let Some(breach) = self.dollars {
            if let Some(action) = breach.asks() {
                self.phase = EnforcePhase::Enforced;
                self.dollars = None;
                return action;
            }
        }
        self.ends()
    }

    fn after_tokens(&mut self, supervisor: &Supervisor) -> (r: EnforceAction)
        requires
            supervisor.wf(),
        ensures
            (final(self)@, r@) == enforce_dollars(old(self)@, supervisor@),
    {
        if self.limits.rated && self.limits.cap.is_set() {
            self.phase = EnforcePhase::Dollars;
            EnforceActionOf::EvaluateDollars(self.limits)
        } else {
            self.act(supervisor)
        }
    }
}

impl Breach {
    fn asks(&self) -> (r: Option<EnforceAction>)
        ensures
            match r {
                Some(action) => breach_asks(*self) == Some(action@),
                None => breach_asks(*self) is None,
            },
    {
        match self.action {
            BreachAction::Warn => None,
            BreachAction::Pause => Some(EnforceActionOf::Pause(self.cause())),
            BreachAction::Stop => Some(EnforceActionOf::Stop(self.cause())),
        }
    }
}

/// No limit at all.
pub open spec fn no_limits() -> Limits {
    Limits {
        budget: TokenBudget { per_run: None, cumulative: None },
        token_action: BreachAction::Warn,
        rated: false,
        cap: CostCap { per_run: None, cumulative: None },
        cost_action: BreachAction::Warn,
    }
}

impl Supervisor {
    /// Begin to hold an instance against its limits after a usage event was
    /// committed. The first action is [`EnforceActionOf::ReadLimits`].
    pub fn enforce_budget(&self, name: &InstanceName) -> (r: Enforce)
        ensures
            r@ == (EnforceModel {
                name: name@,
                phase: EnforcePhase::Limits,
                limits: no_limits(),
                tokens: None,
                dollars: None,
            }),
    {
        Enforce {
            name: name.clone(),
            phase: EnforcePhase::Limits,
            limits: Limits {
                budget: TokenBudget { per_run: None, cumulative: None },
                token_action: BreachAction::Warn,
                rated: false,
                cap: CostCap { per_run: None, cumulative: None },
                cost_action: BreachAction::Warn,
            },
            tokens: None,
            dollars: None,
        }
    }

    /// Take the answer to what `run` asked for and say what to do next.
    pub fn enforce_step(&mut self, run: &mut Enforce, event: EnforceEvent) -> (r: EnforceAction)
        requires
            old(self).wf(),
        ensures
            final(self).wf(),
            (final(run)@, r@) == enforce_next(old(run)@, event, old(self)@),
            final(self)@ == enforce_effect(old(self)@, old(run)@, event),
    {
        match (run.phase, event) {
            (EnforcePhase::Limits, EnforceEvent::Limits(None)) => run.ends(),
            (EnforcePhase::Limits, EnforceEvent::Limits(Some(limits))) => {
                run.limits = limits;
                if limits.budget.is_set() {
                    run.phase = EnforcePhase::Tokens;
                    EnforceActionOf::EvaluateTokens(limits)
                } else {
                    run.after_tokens(self)
                }
            },
            (EnforcePhase::Tokens, EnforceEvent::Evaluated(decision)) => match self.apply_breach(
                run,
                BreachDimension::Tokens,
                decision,
            ) {
                None => run.after_tokens(self),
                Some(breach) => {
                    run.tokens = Some(breach);
                    run.phase = EnforcePhase::TokensRecorded;
                    EnforceActionOf::Record(breach)
                },
            },
            (EnforcePhase::TokensRecorded, EnforceEvent::Recorded) => run.after_tokens(self),
            (EnforcePhase::Dollars, EnforceEvent::Evaluated(decision)) => match self.apply_breach(
                run,
                BreachDimension::Dollars,
                decision,
            ) {
                None => run.act(self),
                Some(breach) => {
                    run.dollars = Some(breach);
                    run.phase = EnforcePhase::DollarsRecorded;
                    EnforceActionOf::Record(breach)
                },
            },
            (EnforcePhase::DollarsRecorded, EnforceEvent::Recorded) => run.act(self),
            (EnforcePhase::Enforced, EnforceEvent::Enforced) => run.act(self),
            _ => EnforceActionOf::Misfit,
        }
    }

    /// Note a decision and give the breach that it amounts to, where it is news.
    fn apply_breach(
        &mut self,
        run: &Enforce,
        dimension: BreachDimension,
        decision: BreachDecision,
    ) -> (r: Option<Breach>)
        requires
            old(self).wf(),
        ensures
            final(self).wf(),
            r == news_of(run@, dimension, decision, old(self)@),
            final(self)@ == noted(old(self)@, run@.name, dimension, decision),
            final(self)@.running.contains_key(run@.name) == old(self)@.running.contains_key(
                run@.name,
            ),
    {
        match decision {
            BreachDecision::WithinBudget => None,
            BreachDecision::Breached { scope, action, limit, observed } => {
                if self.latch_breach(&run.name, dimension, scope) {
                    Some(Breach { dimension, scope, action, limit, observed })
                } else {
                    None
                }
            },
        }
    }
}

/// A breach is acted on only after it was recorded, and as it says: what is asked for is what
/// a breach on record asks for, and a breach comes to be on record by no other step than the
/// one that asks for its record.
pub proof fn law_breach_is_recorded_before_it_is_acted_on(
    run: EnforceModel,
    event: EnforceEvent,
    supervisor: SupervisorModel,
)
    ensures
        ({
            let (after, asked) = enforce_next(run, event, supervisor);
            &&& asked is Pause || asked is Stop ==> pending_asks(run.tokens) == Some(asked)
                || pending_asks(run.dollars) == Some(asked)
            &&& after.tokens is Some && after.tokens != run.tokens ==> asked
                == EnforceActionModel::Record(after.tokens->0)
            &&& after.dollars is Some && after.dollars != run.dollars ==> asked
                == EnforceActionModel::Record(after.dollars->0)
        }),
{
}

/// Nothing is recorded any more once a breach is acted on.
pub proof fn law_acting_comes_last(
    run: EnforceModel,
    event: EnforceEvent,
    supervisor: SupervisorModel,
)
    ensures
        ({
            let (after, asked) = enforce_next(run, event, supervisor);
            &&& asked is Pause || asked is Stop ==> after.phase == EnforcePhase::Enforced
            &&& run.phase == EnforcePhase::Enforced ==> !(asked is Record) && (after.phase
                == EnforcePhase::Enforced || after.phase == EnforcePhase::Done)
        }),
{
}

/// Both limits can be reached by one event, and then both breaches are on record before
/// either is acted on: where the tokens and the dollars reach limits that are news, the two
/// records are asked for first, and then what the token breach asks for.
pub proof fn law_both_breaches_are_recorded_before_any_is_acted_on(
    run: EnforceModel,
    tokens: BreachDecision,
    dollars: BreachDecision,
    supervisor: SupervisorModel,
)
    requires
        run.phase == EnforcePhase::Tokens,
        dollars_armed(run.limits),
        news_of(run, BreachDimension::Tokens, tokens, supervisor) is Some,
        news_of(run, BreachDimension::Dollars, dollars, supervisor) is Some,
    ensures
        ({
            let token_breach = breach_of(BreachDimension::Tokens, tokens)->0;
            let dollar_breach = breach_of(BreachDimension::Dollars, dollars)->0;
            let first = enforce_next(run, EnforceEvent::Evaluated(tokens), supervisor);
            let noted_once = enforce_effect(supervisor, run, EnforceEvent::Evaluated(tokens));
            let second = enforce_next(first.0, EnforceEvent::Recorded, noted_once);
            let third = enforce_next(second.0, EnforceEvent::Evaluated(dollars), noted_once);
            let noted_twice = enforce_effect(
                noted_once,
                second.0,
                EnforceEvent::Evaluated(dollars),
            );
            let fourth = enforce_next(third.0, EnforceEvent::Recorded, noted_twice);
            &&& first.1 == EnforceActionModel::Record(token_breach)
            &&& second.1 is EvaluateDollars
            &&& third.1 == EnforceActionModel::Record(dollar_breach)
            &&& fourth.1 == match (breach_asks(token_breach), breach_asks(dollar_breach)) {
                (Some(action), _) => action,
                (None, Some(action)) => action,
                (None, None) => EnforceActionModel::Finish,
            }
        }),
{
}

/// A breach is recorded at most once per limit and run: it is recorded only while it
/// is news, and recording makes it none.
pub proof fn law_breach_is_recorded_once(
    run: EnforceModel,
    event: EnforceEvent,
    supervisor: SupervisorModel,
    breach: Breach,
)
    requires
        enforce_next(run, event, supervisor).1 == EnforceActionModel::Record(breach),
    ensures
        breach_is_news(supervisor.running, run.name, breach.dimension, breach.scope),
        !breach_is_news(
            enforce_effect(supervisor, run, event).running,
            run.name,
            breach.dimension,
            breach.scope,
        ),
{
}

/// Without limits nothing is evaluated, recorded or done; a dollar ceiling without
/// a rate is no limit.
pub proof fn law_no_limit_no_action(run: EnforceModel, limits: Limits, supervisor: SupervisorModel)
    requires
        run.phase == EnforcePhase::Limits,
        run.tokens is None,
        run.dollars is None,
        !limits.budget.set(),
        !limits.rated || !limits.cap.set(),
    ensures
        enforce_next(run, EnforceEvent::Limits(Some(limits)), supervisor).1 is Finish,
{
}

/// A warning changes nothing but the record: it asks for nothing.
pub proof fn law_warning_only_records(run: EnforceModel, supervisor: SupervisorModel)
    requires
        run.tokens matches Some(breach) ==> breach.action == BreachAction::Warn,
        run.dollars matches Some(breach) ==> breach.action == BreachAction::Warn,
    ensures
        enforce_act(run, supervisor).1 is Finish,
{
}

/// Usage as a metering source reports it.
#[derive(Clone, Copy, Debug, PartialEq, Eq, Structural)]
pub struct ParsedUsage {
    /// The number of the report within its run.
    pub sequence: u64,
    /// Tokens sent.
    pub input_tokens: u64,
    /// Tokens received.
    pub output_tokens: u64,
}

/// The ledger event for a report.
pub fn assemble_usage_event(
    parsed: &ParsedUsage,
    instance: &str,
    run_id: RunId,
    metering_source: &str,
    occurred_at: String,
) -> (r: UsageEvent)
    ensures
        r.instance@ == instance@,
        r.run_id == run_id,
        r.input_tokens == parsed.input_tokens,
        r.output_tokens == parsed.output_tokens,
        r.metering_source@ == metering_source@,
        r.sequence == parsed.sequence,
        r.occurred_at == occurred_at,
{
    UsageEvent {
        instance: instance.to_owned(),
        run_id,
        input_tokens: parsed.input_tokens,
        output_tokens: parsed.output_tokens,
        metering_source: metering_source.to_owned(),
        sequence: parsed.sequence,
        occurred_at,
    }
}

/// What follows from handing an event to the ledger: a new row is published and
/// held against the limits; a replay, or a row that was not committed, is neither.
pub fn ingest_usage(event: UsageEvent, recorded: Result<RecordOutcome, RegistryError>) -> (r: Option<
    UsageUpdateEvent,
>)
    ensures
        r is Some <==> (recorded matches Ok(outcome) && outcome == RecordOutcome::Inserted),
        r matches Some(update) ==> update.event == event && update.schema_version
            == crate::usage::USAGE_SCHEMA_VERSION,
{
    match recorded {
        Ok(RecordOutcome::Inserted) => Some(UsageUpdateEvent::new(event)),
        Ok(RecordOutcome::DuplicateReplay) => None,
        Err(_) => None,
    }
}

/// Every ceiling is held against, each by itself: tokens wherever there is a token ceiling of
/// either scope, and dollars wherever there is a dollar ceiling of either scope and a rate,
/// whether or not there is a token ceiling, whatever became of the tokens, and before
/// anything is done over a breach.
pub proof fn law_every_ceiling_is_held_against(
    run: EnforceModel,
    limits: Limits,
    decision: BreachDecision,
    at_first: SupervisorModel,
    at_second: SupervisorModel,
    at_third: SupervisorModel,
)
    requires
        run.phase == EnforcePhase::Limits,
    ensures
        ({
            let tokens = limits.budget.per_run is Some || limits.budget.cumulative is Some;
            let dollars = limits.rated && (limits.cap.per_run is Some || limits.cap.cumulative is
                Some);
            let first = enforce_next(run, EnforceEvent::Limits(Some(limits)), at_first);
            let second = enforce_next(first.0, EnforceEvent::Evaluated(decision), at_second);
            let third = enforce_next(second.0, EnforceEvent::Recorded, at_third);
            &&& tokens ==> first.1 == EnforceActionModel::EvaluateTokens(limits)
            &&& !tokens && dollars ==> first.1 == EnforceActionModel::EvaluateDollars(limits)
            &&& tokens && dollars ==> {
                ||| second.1 == EnforceActionModel::EvaluateDollars(limits)
                ||| second.1 is Record && third.1 == EnforceActionModel::EvaluateDollars(limits)
            }
            &&& !dollars ==> !(first.1 is EvaluateDollars) && !(second.1 is EvaluateDollars)
                && !(third.1 is EvaluateDollars)
            &&& !tokens ==> !(first.1 is EvaluateTokens)
        }),
{
}

/// Token ceilings alone: totals that reach one that was not reached before in this run are put on
/// record with the limit and the total, noted for the run and for no other, and then the
/// instance is let be, paused or stopped as the decision says, because of that breach;
/// nothing follows that. Totals within the budget, a limit that was reached before, and an
/// instance that is not supervised lead to nothing.
#[verifier::spinoff_prover]
pub proof fn law_a_token_breach_is_answered(
    name: Seq<char>,
    limits: Limits,
    scope: BreachScope,
    action: BreachAction,
    limit: u64,
    observed: u64,
    held: SupervisorModel,
    later: SupervisorModel,
)
    requires
        limits.budget.per_run is Some || limits.budget.cumulative is Some,
        !limits.rated || limits.cap.per_run is None && limits.cap.cumulative is None,
    ensures
        ({
            let begun = EnforceModel {
                name,
                phase: EnforcePhase::Limits,
                limits: no_limits(),
                tokens: None,
                dollars: None,
            };
            let asked = enforce_next(begun, EnforceEvent::Limits(Some(limits)), held);
            let within = EnforceEvent::Evaluated(BreachDecision::WithinBudget);
            let reached = EnforceEvent::Evaluated(
                BreachDecision::Breached { scope, action, limit, observed },
            );
            let told = enforce_next(asked.0, reached, held);
            let noted = enforce_effect(held, asked.0, reached);
            let acted = enforce_next(told.0, EnforceEvent::Recorded, noted);
            let ended = enforce_next(acted.0, EnforceEvent::Enforced, later);
            let cause = CauseModel::BudgetExceeded {
                scope,
                dimension: BreachDimension::Tokens,
                limit: limit as i128,
                observed: observed as i128,
                label: None,
            };
            let news = held.running.contains_key(name) && !held.running[name].breached.contains(
                (BreachDimension::Tokens, scope),
            );
            &&& enforce_effect(held, begun, EnforceEvent::Limits(Some(limits))) == held
            &&& enforce_next(asked.0, within, held).1 is Finish
            &&& enforce_effect(held, asked.0, within) == held
            &&& !news ==> told.1 is Finish
            &&& news ==> {
                &&& told.1 == EnforceActionModel::Record(
                    Breach { dimension: BreachDimension::Tokens, scope, action, limit, observed },
                )
                &&& noted.running[name].breached == held.running[name].breached.insert(
                    (BreachDimension::Tokens, scope),
                )
                &&& noted.running.dom() == held.running.dom()
                &&& forall|other: Seq<char>|
                    other != name && held.running.contains_key(other)
                        ==> #[trigger] noted.running[other] == held.running[other]
                &&& acted.1 == match action {
                    BreachAction::Warn => EnforceActionModel::Finish,
                    BreachAction::Pause => EnforceActionModel::Pause(cause),
                    BreachAction::Stop => EnforceActionModel::Stop(cause),
                }
                &&& action != BreachAction::Warn ==> ended.1 is Finish
                &&& enforce_next(told.0, EnforceEvent::Recorded, later).1 is Finish
                    || later.running.contains_key(name)
            }
        }),
{
    let begun = EnforceModel {
        name,
        phase: EnforcePhase::Limits,
        limits: no_limits(),
        tokens: None,
        dollars: None,
    };
    let asked = enforce_next(begun, EnforceEvent::Limits(Some(limits)), held);
    let reached = EnforceEvent::Evaluated(
        BreachDecision::Breached { scope, action, limit, observed },
    );
    let noted = enforce_effect(held, asked.0, reached);
    if held.running.contains_key(name) {
        assert(noted.running.dom() =~= held.running.dom());
    }
}

/// Dollar ceilings alone, with a rate: as with tokens, the breach being one of dollars, estimated.
#[verifier::spinoff_prover]
pub proof fn law_a_dollar_breach_is_answered(
    name: Seq<char>,
    limits: Limits,
    scope: BreachScope,
    action: BreachAction,
    limit: u64,
    observed: u64,
    held: SupervisorModel,
    later: SupervisorModel,
)
    requires
        limits.budget.per_run is None && limits.budget.cumulative is None,
        limits.rated,
        limits.cap.per_run is Some || limits.cap.cumulative is Some,
    ensures
        ({
            let begun = EnforceModel {
                name,
                phase: EnforcePhase::Limits,
                limits: no_limits(),
                tokens: None,
                dollars: None,
            };
            let asked = enforce_next(begun, EnforceEvent::Limits(Some(limits)), held);
            let within = EnforceEvent::Evaluated(BreachDecision::WithinBudget);
            let reached = EnforceEvent::Evaluated(
                BreachDecision::Breached { scope, action, limit, observed },
            );
            let told = enforce_next(asked.0, reached, held);
            let noted = enforce_effect(held, asked.0, reached);
            let acted = enforce_next(told.0, EnforceEvent::Recorded, noted);
            let ended = enforce_next(acted.0, EnforceEvent::Enforced, later);
            let cause = CauseModel::BudgetExceeded {
                scope,
                dimension: BreachDimension::Dollars,
                limit: (limit as i64) as i128,
                observed: (observed as i64) as i128,
                label: Some(EstimateLabel::Estimated),
            };
            let news = held.running.contains_key(name) && !held.running[name].breached.contains(
                (BreachDimension::Dollars, scope),
            );
            &&& asked.1 == EnforceActionModel::EvaluateDollars(limits)
            &&& enforce_next(asked.0, within, held).1 is Finish
            &&& enforce_effect(held, asked.0, within) == held
            &&& !news ==> told.1 is Finish
            &&& news ==> {
                &&& told.1 == EnforceActionModel::Record(
                    Breach { dimension: BreachDimension::Dollars, scope, action, limit, observed },
                )
                &&& noted.running[name].breached == held.running[name].breached.insert(
                    (BreachDimension::Dollars, scope),
                )
                &&& noted.running.dom() == held.running.dom()
                &&& forall|other: Seq<char>|
                    other != name && held.running.contains_key(other)
                        ==> #[trigger] noted.running[other] == held.running[other]
                &&& acted.1 == match action {
                    BreachAction::Warn => EnforceActionModel::Finish,
                    BreachAction::Pause => EnforceActionModel::Pause(cause),
                    BreachAction::Stop => EnforceActionModel::Stop(cause),
                }
                &&& action != BreachAction::Warn ==> ended.1 is Finish
                &&& enforce_next(told.0, EnforceEvent::Recorded, later).1 is Finish
                    || later.running.contains_key(name)
            }
        }),
{
    let begun = EnforceModel {
        name,
        phase: EnforcePhase::Limits,
        limits: no_limits(),
        tokens: None,
        dollars: None,
    };
    let asked = enforce_next(begun, EnforceEvent::Limits(Some(limits)), held);
    let reached = EnforceEvent::Evaluated(
        BreachDecision::Breached { scope, action, limit, observed },
    );
    let noted = enforce_effect(held, asked.0, reached);
    if held.running.contains_key(name) {
        assert(noted.running.dom() =~= held.running.dom());
    }
}

/// Both ceilings: each total is held against its own, each breach that is news is recorded, and
/// then what the token breach asks for is done and then, while the instance is still
/// supervised, what the dollar breach asks for.
#[verifier::rlimit(60)]
#[verifier::spinoff_prover]
pub proof fn law_both_breaches_are_answered(
    name: Seq<char>,
    limits: Limits,
    tokens: Breach,
    dollars: Breach,
    held: SupervisorModel,
    later: SupervisorModel,
)
    requires
        limits.budget.per_run is Some || limits.budget.cumulative is Some,
        limits.rated,
        limits.cap.per_run is Some || limits.cap.cumulative is Some,
        tokens.dimension == BreachDimension::Tokens,
        dollars.dimension == BreachDimension::Dollars,
        held.running.contains_key(name),
        !held.running[name].breached.contains((BreachDimension::Tokens, tokens.scope)),
        !held.running[name].breached.contains((BreachDimension::Dollars, dollars.scope)),
    ensures
        ({
            let begun = EnforceModel {
                name,
                phase: EnforcePhase::Limits,
                limits: no_limits(),
                tokens: None,
                dollars: None,
            };
            let tokens_reached = EnforceEvent::Evaluated(
                BreachDecision::Breached {
                    scope: tokens.scope,
                    action: tokens.action,
                    limit: tokens.limit,
                    observed: tokens.observed,
                },
            );
            let dollars_reached = EnforceEvent::Evaluated(
                BreachDecision::Breached {
                    scope: dollars.scope,
                    action: dollars.action,
                    limit: dollars.limit,
                    observed: dollars.observed,
                },
            );
            let first = enforce_next(begun, EnforceEvent::Limits(Some(limits)), held);
            let second = enforce_next(first.0, tokens_reached, held);
            let once = enforce_effect(held, first.0, tokens_reached);
            let third = enforce_next(second.0, EnforceEvent::Recorded, once);
            let fourth = enforce_next(third.0, dollars_reached, once);
            let twice = enforce_effect(once, third.0, dollars_reached);
            let fifth = enforce_next(fourth.0, EnforceEvent::Recorded, twice);
            let sixth = enforce_next(fifth.0, EnforceEvent::Enforced, later);
            let seventh = enforce_next(sixth.0, EnforceEvent::Enforced, later);
            let over_tokens = CauseModel::BudgetExceeded {
                scope: tokens.scope,
                dimension: BreachDimension::Tokens,
                limit: tokens.limit as i128,
                observed: tokens.observed as i128,
                label: None,
            };
            let over_dollars = CauseModel::BudgetExceeded {
                scope: dollars.scope,
                dimension: BreachDimension::Dollars,
                limit: (dollars.limit as i64) as i128,
                observed: (dollars.observed as i64) as i128,
                label: Some(EstimateLabel::Estimated),
            };
            let for_dollars = match dollars.action {
                BreachAction::Warn => EnforceActionModel::Finish,
                BreachAction::Pause => EnforceActionModel::Pause(over_dollars),
                BreachAction::Stop => EnforceActionModel::Stop(over_dollars),
            };
            &&& first.1 == EnforceActionModel::EvaluateTokens(limits)
            &&& second.1 == EnforceActionModel::Record(tokens)
            &&& third.1 == EnforceActionModel::EvaluateDollars(limits)
            &&& fourth.1 == EnforceActionModel::Record(dollars)
            &&& twice.running[name].breached.contains((BreachDimension::Tokens, tokens.scope))
            &&& twice.running[name].breached.contains((BreachDimension::Dollars, dollars.scope))
            &&& match tokens.action {
                BreachAction::Warn => fifth.1 == for_dollars,
                BreachAction::Pause => fifth.1 == EnforceActionModel::Pause(over_tokens),
                BreachAction::Stop => fifth.1 == EnforceActionModel::Stop(over_tokens),
            }
            &&& tokens.action != BreachAction::Warn ==> {
                &&& later.running.contains_key(name) ==> sixth.1 == for_dollars
                &&& !later.running.contains_key(name) ==> sixth.1 is Finish
                &&& later.running.contains_key(name) && dollars.action != BreachAction::Warn
                    ==> seventh.1 is Finish
            }
            // Where only the one is news, only the one is recorded and answered.
            &&& ({
                let within = EnforceEvent::Evaluated(BreachDecision::WithinBudget);
                let quiet = enforce_next(first.0, within, held);
                let alone = enforce_next(quiet.0, dollars_reached, held);
                let noted = enforce_effect(held, quiet.0, dollars_reached);
                let other = enforce_next(third.0, within, once);
                &&& quiet.1 == EnforceActionModel::EvaluateDollars(limits)
                &&& alone.1 == EnforceActionModel::Record(dollars)
                &&& enforce_next(alone.0, EnforceEvent::Recorded, noted).1 == for_dollars
                &&& other.1 == match tokens.action {
                    BreachAction::Warn => EnforceActionModel::Finish,
                    BreachAction::Pause => EnforceActionModel::Pause(over_tokens),
                    BreachAction::Stop => EnforceActionModel::Stop(over_tokens),
                }
            })
        }),
{
}

/// Without a configuration that can be read nothing is held against anything.
pub proof fn law_an_unreadable_configuration_sets_no_limit(
    run: EnforceModel,
    supervisor: SupervisorModel,
)
    requires
        run.phase == EnforcePhase::Limits,
    ensures
        enforce_next(run, EnforceEvent::Limits(None), supervisor).1 is Finish,
        enforce_effect(supervisor, run, EnforceEvent::Limits(None)) == supervisor,
{
}

/// An enforcement takes the answer to what it asked for and no other: any other answer changes nothing, neither its own state nor what is held,
/// and after its end every answer is such a one.
pub proof fn law_an_enforcement_takes_only_its_answer(
    held: SupervisorModel,
    run: EnforceModel,
    event: EnforceEvent,
    later: EnforceEvent,
)
    ensures
        ({
            let step = enforce_next(run, event, held);
            let fits = match run.phase {
                EnforcePhase::Limits => event is Limits,
                EnforcePhase::Tokens | EnforcePhase::Dollars => event is Evaluated,
                EnforcePhase::TokensRecorded | EnforcePhase::DollarsRecorded => event is Recorded,
                EnforcePhase::Enforced => event is Enforced,
                EnforcePhase::Done => false,
            };
            &&& step.1 is Misfit <==> !fits
            &&& !fits ==> step.0 == run
            &&& !fits ==> enforce_effect(held, run, event) == held
            &&& step.1 is Finish ==> enforce_next(step.0, later, held).1 is Misfit
        }),
{
}

/// What acting comes to while an instance is held: what the token breach asks for, if it is news and
/// asks for anything, and else what the dollar breach asks for.
pub open spec fn acts_on(
    tokens: Option<Breach>,
    dollars: Option<Breach>,
    held: bool,
) -> EnforceActionModel {
    let over_tokens = |breach: Breach|
        CauseModel::BudgetExceeded {
            scope: breach.scope,
            dimension: BreachDimension::Tokens,
            limit: breach.limit as i128,
            observed: breach.observed as i128,
            label: None,
        };
    let over_dollars = |breach: Breach|
        CauseModel::BudgetExceeded {
            scope: breach.scope,
            dimension: BreachDimension::Dollars,
            limit: (breach.limit as i64) as i128,
            observed: (breach.observed as i64) as i128,
            label: Some(EstimateLabel::Estimated),
        };
    if !held {
        EnforceActionOf::Finish
    } else if tokens is Some && tokens->0.action == BreachAction::Pause {
        EnforceActionOf::Pause(over_tokens(tokens->0))
    } else if tokens is Some && tokens->0.action == BreachAction::Stop {
        EnforceActionOf::Stop(over_tokens(tokens->0))
    } else if dollars is Some && dollars->0.action == BreachAction::Pause {
        EnforceActionOf::Pause(over_dollars(dollars->0))
    } else if dollars is Some && dollars->0.action == BreachAction::Stop {
        EnforceActionOf::Stop(over_dollars(dollars->0))
    } else {
        EnforceActionOf::Finish
    }
}

/// Whatever both totals come to, and whatever was noted before: a breach is recorded exactly where it
/// is news, the dollars are held against their ceiling after the tokens in any case, what is news
/// is acted on, the tokens first, by whatever is still held at that time, and a breach that is no
/// news takes nothing away from the other.
#[verifier::rlimit(100)]
#[verifier::spinoff_prover]
pub proof fn law_each_breach_is_answered_for_itself(
    name: Seq<char>,
    limits: Limits,
    token_decision: BreachDecision,
    dollar_decision: BreachDecision,
    held: SupervisorModel,
    between: SupervisorModel,
    now: SupervisorModel,
    later: SupervisorModel,
)
    requires
        limits.budget.per_run is Some || limits.budget.cumulative is Some,
        limits.rated,
        limits.cap.per_run is Some || limits.cap.cumulative is Some,
    ensures
        ({
            let begun = EnforceModel {
                name,
                phase: EnforcePhase::Limits,
                limits: no_limits(),
                tokens: None,
                dollars: None,
            };
            let news = |dimension: BreachDimension, decision: BreachDecision, s: SupervisorModel|
                match decision {
                    BreachDecision::Breached { scope, action, limit, observed } => if
                    s.running.contains_key(name) && !s.running[name].breached.contains(
                        (dimension, scope),
                    ) {
                        Some(Breach { dimension, scope, action, limit, observed })
                    } else {
                        None
                    },
                    BreachDecision::WithinBudget => None,
                };
            let tokens = news(BreachDimension::Tokens, token_decision, held);
            let dollars = news(BreachDimension::Dollars, dollar_decision, between);
            let first = enforce_next(begun, EnforceEvent::Limits(Some(limits)), held);
            let second = enforce_next(first.0, EnforceEvent::Evaluated(token_decision), held);
            let third = if tokens is Some {
                enforce_next(second.0, EnforceEvent::Recorded, between)
            } else {
                second
            };
            let fourth = enforce_next(third.0, EnforceEvent::Evaluated(dollar_decision), between);
            let fifth = if dollars is Some {
                enforce_next(fourth.0, EnforceEvent::Recorded, now)
            } else {
                fourth
            };
            let at_hand = if dollars is Some {
                now
            } else {
                between
            };
            let sixth = enforce_next(fifth.0, EnforceEvent::Enforced, later);
            &&& first.1 == EnforceActionModel::EvaluateTokens(limits)
            &&& tokens is Some ==> second.1 == EnforceActionModel::Record(tokens->0)
            &&& third.1 == EnforceActionModel::EvaluateDollars(limits)
            &&& dollars is Some ==> fourth.1 == EnforceActionModel::Record(dollars->0)
            &&& fifth.1 == acts_on(tokens, dollars, at_hand.running.contains_key(name))
            &&& !(fifth.1 is Finish) ==> sixth.1 == acts_on(
                None,
                if acts_on(tokens, None, true) is Finish {
                    None
                } else {
                    dollars
                },
                later.running.contains_key(name),
            )
        }),
{
}

} // verus!
