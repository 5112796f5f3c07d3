//! Noticing that supervised processes have ended, and deciding on restarts.
//!
//! A [`Poll`] goes through the supervised instances once. It asks for one action
//! at a time and takes the answer. An exit counts as a crash only where the
//! instance was meant to be up.
use crate::duration::Duration;
use crate::event::{CauseModel, TransitionCause, TransitionCauseOf};
use crate::lifecycle::LifecycleState;
use crate::name::InstanceName;
use crate::restart::{
    delay_nanos, is_crash_loop, BackoffSchedule, RestartPolicy, MAX_CONSECUTIVE_FAILURES,
};
use crate::stop::is_stuck;
use crate::supervisor::{Supervisor, SupervisorModel};
use crate::text::{dec, dec_signed, push_dec, push_dec_signed};
use vstd::prelude::*;

verus! {

/// What is said of a stop that an earlier attempt began and a poll settled.
pub const SETTLED_BY_POLL: &'static str =
    "SIGKILL was sent by an earlier stop attempt; the crash-detection reaper confirmed the process's death on a later poll (it may have been stuck in an OS-level I/O wait that has since cleared)";

/// A restart to be made after a delay.
#[derive(Debug, PartialEq, Eq)]
pub struct RestartPlan {
    /// The instance.
    pub name: InstanceName,
    /// Which restart in a row it is.
    pub attempt: u32,
    /// How long to wait before it.
    pub delay: Duration,
}

/// The model of a [`RestartPlan`].
pub struct RestartPlanModel {
    /// The instance.
    pub name: Seq<char>,
    /// Which restart in a row it is.
    pub attempt: u32,
    /// How long to wait before it.
    pub delay: Duration,
}

impl View for RestartPlan {
    type V = RestartPlanModel;

    open spec fn view(&self) -> RestartPlanModel {
        RestartPlanModel { name: self.name@, attempt: self.attempt, delay: self.delay }
    }
}

impl Clone for RestartPlan {
    fn clone(&self) -> (r: Self)
        ensures
            r == *self,
    {
        RestartPlan { name: self.name.clone(), attempt: self.attempt, delay: self.delay }
    }
}

/// What a spawn record says about restarts.
#[derive(Clone, Copy, Debug, PartialEq, Eq, Structural)]
pub struct SpawnFacts {
    /// The policy.
    pub policy: RestartPolicy,
    /// The restarts in a row so far.
    pub restart_count: u32,
}

/// What is to be written into the spawn record after a crash.
#[derive(Clone, Debug, PartialEq, Eq)]
pub enum BookingOf<S> {
    /// The process is gone for good: drop its record and keep only the policy.
    Settle {
        /// The policy.
        policy: RestartPolicy,
    },
    /// A restart is due: count it and note why.
    Count {
        /// The restarts in a row with this one.
        restart_count: u32,
        /// Why.
        cause: S,
    },
}

/// What is to be written into the spawn record after a crash.
pub type Booking = BookingOf<String>;

/// The model of a [`Booking`].
pub type BookingModel = BookingOf<Seq<char>>;

impl View for BookingOf<String> {
    type V = BookingModel;

    open spec fn view(&self) -> BookingModel {
        match self {
            BookingOf::Settle { policy } => BookingOf::Settle { policy: *policy },
            BookingOf::Count { restart_count, cause } => BookingOf::Count {
                restart_count: *restart_count,
                cause: cause@,
            },
        }
    }
}

/// What follows from a crash.
pub struct RestartDecision {
    /// What is recorded as the cause of the failure.
    pub crash_cause: String,
    /// What is written into the spawn record.
    pub booking: Booking,
    /// The restart, if one is due.
    pub plan: Option<RestartPlan>,
}

/// The model of a [`RestartDecision`].
pub struct RestartDecisionModel {
    /// What is recorded as the cause of the failure.
    pub crash_cause: Seq<char>,
    /// What is written into the spawn record.
    pub booking: BookingModel,
    /// The restart, if one is due.
    pub plan: Option<RestartPlanModel>,
}

impl View for RestartDecision {
    type V = RestartDecisionModel;

    open spec fn view(&self) -> RestartDecisionModel {
        RestartDecisionModel {
            crash_cause: self.crash_cause@,
            booking: self.booking@,
            plan: match self.plan {
                Some(plan) => Some(plan@),
                None => None,
            },
        }
    }
}

/// The policy and the restarts so far in a record, if there is one.
pub open spec fn facts_or_fallback(record: Option<SpawnFacts>) -> SpawnFacts {
    match record {
        Some(facts) => facts,
        None => SpawnFacts { policy: RestartPolicy::fallback(), restart_count: 0 },
    }
}

/// One more than a count, held at the largest number.
pub open spec fn one_more(count: u32) -> u32 {
    if count == u32::MAX {
        u32::MAX
    } else {
        (count + 1) as u32
    }
}

/// What follows from a crash: no restart where the policy is against it or the
/// failures make a crash loop, and else the next restart after its backoff.
pub open spec fn restart_decision(
    name: Seq<char>,
    record: Option<SpawnFacts>,
    detail: Seq<char>,
    backoff: BackoffSchedule,
) -> RestartDecisionModel {
    let facts = facts_or_fallback(record);
    let next = one_more(facts.restart_count);
    if facts.policy == RestartPolicy::Never {
        RestartDecisionModel {
            crash_cause: detail + "; restart policy is 'never' — not restarting"@,
            booking: BookingOf::Settle { policy: facts.policy },
            plan: None,
        }
    } else if next >= MAX_CONSECUTIVE_FAILURES {
        RestartDecisionModel {
            crash_cause: detail + "; crash-loop: "@ + dec(MAX_CONSECUTIVE_FAILURES as nat)
                + " consecutive failures reached — not restarting, inspect the agent and start it manually"@,
            booking: BookingOf::Settle { policy: facts.policy },
            plan: None,
        }
    } else {
        RestartDecisionModel {
            crash_cause: detail,
            booking: BookingOf::Count { restart_count: next, cause: detail },
            plan: Some(
                RestartPlanModel {
                    name,
                    attempt: next,
                    delay: Duration { nanos: delay_nanos(backoff, next) as u128 },
                },
            ),
        }
    }
}

/// Decide what follows from a crash.
pub fn plan_restart(
    name: &InstanceName,
    record: Option<SpawnFacts>,
    crash_detail: &str,
    backoff: &BackoffSchedule,
) -> (r: RestartDecision)
    ensures
        r@ == restart_decision(name@, record, crash_detail@, *backoff),
{
    let facts = match record {
        Some(facts) => facts,
        None => SpawnFacts { policy: RestartPolicy::OnFailure, restart_count: 0 },
    };
    if !facts.policy.restarts_on_crash() {
        let mut crash_cause = crash_detail.to_owned();
        crash_cause.append("; restart policy is 'never' — not restarting");
        return RestartDecision {
            crash_cause,
            booking: BookingOf::Settle { policy: facts.policy },
            plan: None,
        };
    }
    let next: u32 = facts.restart_count.saturating_add(1);
    if is_crash_loop(next) {
        let mut crash_cause = crash_detail.to_owned();
        crash_cause.append("; crash-loop: ");
        push_dec(&mut crash_cause, MAX_CONSECUTIVE_FAILURES as u128);
        crash_cause.append(
            " consecutive failures reached — not restarting, inspect the agent and start it manually",
        );
        return RestartDecision {
            crash_cause,
            booking: BookingOf::Settle { policy: facts.policy },
            plan: None,
        };
    }
    let delay = backoff.delay_for(next);
    proof {
        assert(delay.nanos == delay_nanos(*backoff, next));
    }
    RestartDecision {
        crash_cause: crash_detail.to_owned(),
        booking: BookingOf::Count { restart_count: next, cause: crash_detail.to_owned() },
        plan: Some(RestartPlan { name: name.clone(), attempt: next, delay }),
    }
}

/// A planned restart is one more than the restarts so far, comes before the crash
/// loop, waits for its backoff, and is counted in the record.
pub proof fn law_planned_restarts_are_counted_and_bounded(
    name: Seq<char>,
    record: Option<SpawnFacts>,
    detail: Seq<char>,
    backoff: BackoffSchedule,
)
    ensures
        ({
            let decision = restart_decision(name, record, detail, backoff);
            decision.plan matches Some(plan) ==> {
                &&& plan.name == name
                &&& plan.attempt == facts_or_fallback(record).restart_count + 1
                &&& 1 <= plan.attempt < MAX_CONSECUTIVE_FAILURES
                &&& plan.delay.nanos == delay_nanos(backoff, plan.attempt)
                &&& decision.booking == BookingModel::Count {
                    restart_count: plan.attempt,
                    cause: detail,
                }
            }
        }),
{
    if restart_decision(name, record, detail, backoff).plan is Some {
        let next = one_more(facts_or_fallback(record).restart_count);
        crate::restart::law_delay_never_exceeds_the_cap(backoff, next);
    }
}

/// An instance that crashes again and again is restarted until the failure that
/// makes the crash loop and no further: with `count` restarts behind it, another is
/// planned exactly while fewer than the bound less one have been made.
pub proof fn law_crash_loop_ends_the_restarts(
    name: Seq<char>,
    count: u32,
    detail: Seq<char>,
    backoff: BackoffSchedule,
)
    ensures
        restart_decision(
            name,
            Some(SpawnFacts { policy: RestartPolicy::OnFailure, restart_count: count }),
            detail,
            backoff,
        ).plan is Some <==> count < MAX_CONSECUTIVE_FAILURES - 1,
{
}

/// An instance whose policy is `never` is never restarted.
pub proof fn law_never_means_never(
    name: Seq<char>,
    count: u32,
    detail: Seq<char>,
    backoff: BackoffSchedule,
)
    ensures
        restart_decision(
            name,
            Some(SpawnFacts { policy: RestartPolicy::Never, restart_count: count }),
            detail,
            backoff,
        ).plan is None,
{
}

/// Where no restart is due, the record of the dead process is dropped and the
/// policy kept.
pub proof fn law_terminal_crash_keeps_the_policy(
    name: Seq<char>,
    record: Option<SpawnFacts>,
    detail: Seq<char>,
    backoff: BackoffSchedule,
)
    ensures
        restart_decision(name, record, detail, backoff).plan is None ==> restart_decision(
            name,
            record,
            detail,
            backoff,
        ).booking == (BookingModel::Settle { policy: facts_or_fallback(record).policy }),
{
}

/// What a [`Poll`] waits for.
#[derive(Clone, Copy, Debug, PartialEq, Eq, Structural)]
pub enum PollPhase {
    /// The usage of every instance.
    Ingested,
    /// Whether the process is gone.
    Polled,
    /// The last of its usage.
    Drained,
    /// The stored row.
    Row,
    /// The clearing of the record of a stopped process.
    Cleared,
    /// Its transition into `stopped`.
    Settled,
    /// The spawn record of a crashed process.
    Record,
    /// The change to that record.
    Booked,
    /// The log directory.
    LogDir,
    /// The transition into `failed`.
    Failed,
    /// The settling of the record of a process that is gone for good.
    Closed,
    /// Nothing; the poll has ended.
    Done,
}

/// A poll under way.
pub struct Poll {
    left: Vec<InstanceName>,
    plans: Vec<RestartPlan>,
    name: Option<InstanceName>,
    phase: PollPhase,
    code: Option<i32>,
    state: LifecycleState,
    crash_cause: String,
    plan: Option<RestartPlan>,
    settles: Option<RestartPolicy>,
}

/// The model of a [`Poll`].
pub struct PollModel {
    /// The instances still to be looked at; the last comes next.
    pub left: Seq<Seq<char>>,
    /// The restarts decided on so far.
    pub plans: Seq<RestartPlanModel>,
    /// The instance that is looked at.
    pub name: Option<Seq<char>>,
    /// What is waited for.
    pub phase: PollPhase,
    /// The exit code of its process.
    pub code: Option<i32>,
    /// The state it was in.
    pub state: LifecycleState,
    /// Why it failed.
    pub crash_cause: Seq<char>,
    /// Its restart, if one is due.
    pub plan: Option<RestartPlanModel>,
    /// The policy to keep once its failure is on record, if it is gone for good.
    pub settles: Option<RestartPolicy>,
}

/// The models of some names.
pub open spec fn name_texts(names: Seq<InstanceName>) -> Seq<Seq<char>> {
    names.map(|i: int, name: InstanceName| name@)
}

/// The models of some plans.
pub open spec fn plan_models(plans: Seq<RestartPlan>) -> Seq<RestartPlanModel> {
    plans.map(|i: int, plan: RestartPlan| plan@)
}

impl View for Poll {
    type V = PollModel;

    closed spec fn view(&self) -> PollModel {
        PollModel {
            left: name_texts(self.left@),
            plans: plan_models(self.plans@),
            name: match self.name {
                Some(name) => Some(name@),
                None => None,
            },
            phase: self.phase,
            code: self.code,
            state: self.state,
            crash_cause: self.crash_cause@,
            plan: match self.plan {
                Some(plan) => Some(plan@),
                None => None,
            },
            settles: self.settles,
        }
    }
}

/// The answer to an action of a [`Poll`].
#[derive(Clone, Copy, Debug, PartialEq, Eq, Structural)]
pub enum PollEvent {
    /// The usage of every instance has been ingested, as far as there was any.
    Ingested,
    /// The exit code, if the process is gone; a poll that failed counts as alive.
    Polled(Option<Option<i32>>),
    /// The usage has been read to the end.
    Drained,
    /// The state in the stored row, if it could be read.
    Row(Option<LifecycleState>),
    /// Whether the spawn record could be cleared.
    Cleared(bool),
    /// The spawn record, if there is one and it could be read.
    Record(Option<SpawnFacts>),
    /// The record has been changed, as far as that worked.
    Booked,
    /// The log directory has been made, as far as that worked.
    LogDir,
    /// Whether the transition could be made.
    Transitioned(bool),
}

/// What a [`Poll`] asks for, on the instance it is looking at.
pub enum PollActionOf<S> {
    /// Ingest the usage of every supervised instance: what its output reports, then what
    /// was observed.
    Ingest,
    /// Look whether the process is gone.
    Poll,
    /// Read the usage to the end of the output.
    Drain,
    /// Look the instance up.
    ReadRow,
    /// Clear the spawn record.
    ClearRecord,
    /// Look up the spawn record.
    ReadRecord,
    /// Change the spawn record.
    Book(BookingOf<S>),
    /// Make the log directory.
    EnsureLogDir,
    /// Record a change of state.
    Transition {
        /// The state left.
        prior: LifecycleState,
        /// The state entered.
        new: LifecycleState,
        /// Why.
        cause: TransitionCauseOf<S>,
    },
    /// Nothing: the answer does not fit what was asked.
    Misfit,
    /// Nothing more: every instance has been looked at.
    Finish,
}

/// What a [`Poll`] asks for.
pub type PollAction = PollActionOf<String>;

/// The model of a [`PollAction`].
pub type PollActionModel = PollActionOf<Seq<char>>;

impl View for PollActionOf<String> {
    type V = PollActionModel;

    open spec fn view(&self) -> PollActionModel {
        match self {
            PollActionOf::Ingest => PollActionOf::Ingest,
            PollActionOf::Poll => PollActionOf::Poll,
            PollActionOf::Drain => PollActionOf::Drain,
            PollActionOf::ReadRow => PollActionOf::ReadRow,
            PollActionOf::ClearRecord => PollActionOf::ClearRecord,
            PollActionOf::ReadRecord => PollActionOf::ReadRecord,
            PollActionOf::Book(booking) => PollActionOf::Book(booking@),
            PollActionOf::EnsureLogDir => PollActionOf::EnsureLogDir,
            PollActionOf::Transition { prior, new, cause } => PollActionOf::Transition {
                prior: *prior,
                new: *new,
                cause: cause@,
            },
            PollActionOf::Misfit => PollActionOf::Misfit,
            PollActionOf::Finish => PollActionOf::Finish,
        }
    }
}

/// What is said of a process that ended on its own.
pub open spec fn exit_text(code: Option<i32>) -> Seq<char> {
    match code {
        Some(c) => "process exited unexpectedly with code "@ + dec_signed(c as int),
        None => "process exited unexpectedly (terminated by signal)"@,
    }
}

/// The poll goes on to the next instance that is still supervised, or ends.
pub open spec fn poll_seek(run: PollModel, supervisor: SupervisorModel) -> (
    PollModel,
    PollActionModel,
)
    decreases run.left.len(),
{
    if run.left.len() == 0 {
        (PollModel { phase: PollPhase::Done, name: None, ..run }, PollActionOf::Finish)
    } else if supervisor.running.contains_key(run.left.last()) {
        (
            PollModel {
                left: run.left.drop_last(),
                name: Some(run.left.last()),
                phase: PollPhase::Polled,
                ..run
            },
            PollActionOf::Poll,
        )
    } else {
        poll_seek(PollModel { left: run.left.drop_last(), ..run }, supervisor)
    }
}

/// What a poll does to the supervised processes: one that is gone is let go of, as
/// soon as its row has been asked for.
pub open spec fn poll_effect(
    supervisor: SupervisorModel,
    run: PollModel,
    event: PollEvent,
) -> SupervisorModel {
    match (run.phase, event, run.name) {
        (PollPhase::Row, PollEvent::Row(_), Some(name)) => SupervisorModel {
            running: supervisor.running.remove(name),
            ..supervisor
        },
        _ => supervisor,
    }
}

/// The policy that a booking keeps of a process that is gone for good.
pub open spec fn settled_policy(booking: BookingModel) -> Option<RestartPolicy> {
    match booking {
        BookingOf::Settle { policy } => Some(policy),
        BookingOf::Count { .. } => None,
    }
}

/// A poll that knows whether the failure is on record: the restart is planned where it is.
pub open spec fn poll_planned(run: PollModel, ok: bool) -> PollModel {
    PollModel {
        plans: if ok && run.plan is Some {
            run.plans.push(run.plan->0)
        } else {
            run.plans
        },
        plan: None,
        settles: None,
        ..run
    }
}

/// What a poll does with an answer: the table of its steps.
pub open spec fn poll_next(run: PollModel, event: PollEvent, supervisor: SupervisorModel) -> (
    PollModel,
    PollActionModel,
) {
    let after = poll_effect(supervisor, run, event);
    match run.name {
        None => (run, PollActionOf::Misfit),
        Some(name) => match (run.phase, event) {
            (PollPhase::Polled, PollEvent::Polled(None)) => poll_seek(run, after),
            (PollPhase::Polled, PollEvent::Polled(Some(code))) => (
                PollModel { phase: PollPhase::Drained, code, ..run },
                PollActionOf::Drain,
            ),
            (PollPhase::Drained, PollEvent::Drained) => (
                PollModel { phase: PollPhase::Row, ..run },
                PollActionOf::ReadRow,
            ),
            (PollPhase::Row, PollEvent::Row(None)) => poll_seek(run, after),
            (PollPhase::Row, PollEvent::Row(Some(state))) => if state.live() {
                (PollModel { phase: PollPhase::Record, state, ..run }, PollActionOf::ReadRecord)
            } else if state == LifecycleState::Stopping && is_stuck(supervisor, name) {
                (PollModel { phase: PollPhase::Cleared, ..run }, PollActionOf::ClearRecord)
            } else {
                poll_seek(run, after)
            },
            (PollPhase::Cleared, PollEvent::Cleared(true)) => (
                PollModel { phase: PollPhase::Settled, ..run },
                PollActionOf::Transition {
                    prior: LifecycleState::Stopping,
                    new: LifecycleState::Stopped,
                    cause: CauseModel::StopForced { detail: SETTLED_BY_POLL@ },
                },
            ),
            (PollPhase::Cleared, PollEvent::Cleared(false)) => poll_seek(run, after),
            (PollPhase::Settled, PollEvent::Transitioned(_)) => poll_seek(run, after),
            (PollPhase::Record, PollEvent::Record(record)) => {
                let decision = restart_decision(
                    name,
                    record,
                    exit_text(run.code),
                    supervisor.backoff,
                );
                let run = PollModel {
                    crash_cause: decision.crash_cause,
                    plan: decision.plan,
                    settles: settled_policy(decision.booking),
                    ..run
                };
                match decision.booking {
                    BookingOf::Count { .. } => (
                        PollModel { phase: PollPhase::Booked, ..run },
                        PollActionOf::Book(decision.booking),
                    ),
                    BookingOf::Settle { .. } => (
                        PollModel { phase: PollPhase::LogDir, ..run },
                        PollActionOf::EnsureLogDir,
                    ),
                }
            },
            (PollPhase::Booked, PollEvent::Booked) => (
                PollModel { phase: PollPhase::LogDir, ..run },
                PollActionOf::EnsureLogDir,
            ),
            (PollPhase::LogDir, PollEvent::LogDir) => (
                PollModel { phase: PollPhase::Failed, ..run },
                PollActionOf::Transition {
                    prior: run.state,
                    new: LifecycleState::Failed,
                    cause: CauseModel::Crashed { detail: run.crash_cause },
                },
            ),
            (PollPhase::Failed, PollEvent::Transitioned(ok)) => {
                let done = poll_planned(run, ok);
                match run.settles {
                    Some(policy) if ok => (
                        PollModel { phase: PollPhase::Closed, ..done },
                        PollActionOf::Book(BookingOf::Settle { policy }),
                    ),
                    _ => poll_seek(done, after),
                }
            },
            (PollPhase::Closed, PollEvent::Booked) => poll_seek(run, after),
            _ => (run, PollActionOf::Misfit),
        },
    }
}

fn exit_detail(code: Option<i32>) -> (r: String)
    ensures
        r@ == exit_text(code),
{
    match code {
        Some(c) => {
            let mut detail = "process exited unexpectedly with code ".to_owned();
            push_dec_signed(&mut detail, c);
            detail
        },
        None => "process exited unexpectedly (terminated by signal)".to_owned(),
    }
}

impl Poll {
    /// The instance that is looked at.
    pub fn name(&self) -> (r: Option<&InstanceName>)
        ensures
            match r {
                Some(name) => self@.name == Some(name@),
                None => self@.name is None,
            },
    {
        match &self.name {
            Some(name) => Some(name),
            None => None,
        }
    }

    /// The restarts decided on.
    pub fn into_plans(self) -> (r: Vec<RestartPlan>)
        ensures
            plan_models(r@) == self@.plans,
    {
        self.plans
    }

    fn seek(&mut self, supervisor: &Supervisor) -> (r: PollAction)
        requires
            supervisor.wf(),
        ensures
            (final(self)@, r@) == poll_seek(old(self)@, supervisor@),
    {
        let ghost begun = self@;
        loop
            invariant
                supervisor.wf(),
                begun == old(self)@,
                poll_seek(self@, supervisor@) == poll_seek(begun, supervisor@),
            decreases self.left@.len(),
        {
            let ghost before = self@;
            let ghost names = self.left@;
            match self.left.pop() {
                None => {
                    self.name = None;
                    self.phase = PollPhase::Done;
                    assert(name_texts(self.left@) =~= before.left);
                    return PollActionOf::Finish;
                },
                Some(name) => {
                    assert(name_texts(self.left@) =~= before.left.drop_last());
                    assert(before.left.last() == name@);
                    if supervisor.is_held(&name) {
                        self.name = Some(name);
                        self.phase = PollPhase::Polled;
                        return PollActionOf::Poll;
                    }
                },
            }
        }
    }
}

impl Supervisor {
    /// Begin to look at every supervised process once, and say what to do first: what has
    /// been used comes before what has crashed.
    pub fn poll_once(&self) -> (r: (Poll, PollAction))
        ensures
            r.0@ == poll_begin(),
            r.1@ == PollActionModel::Ingest,
    {
        let run = Poll {
            left: Vec::new(),
            plans: Vec::new(),
            name: None,
            phase: PollPhase::Ingested,
            code: None,
            state: LifecycleState::Failed,
            crash_cause: "".to_owned(),
            plan: None,
            settles: None,
        };
        assert(name_texts(run.left@) =~= Seq::empty());
        assert(plan_models(run.plans@) =~= Seq::empty());
        (run, PollActionOf::Ingest)
    }

    /// Take down who is supervised now and go on to the first of them.
    fn poll_first(&self, run: &mut Poll) -> (r: PollAction)
        requires
            self.wf(),
        ensures
            poll_starts(old(run)@, self@, final(run)@, r@),
    {
        let ghost before = run@;
        run.left = self.names();
        let ghost texts = name_texts(run.left@);
        proof {
            assert(run@ == PollModel { left: texts, ..before });
            assert forall|name: Seq<char>| self@.running.contains_key(name) <==> #[trigger]
                texts.contains(name) by {
                if self@.running.contains_key(name) {
                    let i = choose|i: int| 0 <= i < run.left@.len() && #[trigger] run.left@[i]@ == name;
                    assert(texts[i] == name);
                }
                if texts.contains(name) {
                    let i = choose|i: int| 0 <= i < texts.len() && texts[i] == name;
                    assert(run.left@[i]@ == name);
                }
            }
            assert(texts.no_duplicates()) by {
                assert forall|i: int, j: int|
                    0 <= i < texts.len() && 0 <= j < texts.len() && i != j implies texts[i]
                    != texts[j] by {
                    assert(run.left@[i]@ == texts[i]);
                    assert(run.left@[j]@ == texts[j]);
                }
            }
            assert(lists_supervised(texts, self@));
        }
        run.seek(self)
    }

    /// Take the answer to what `run` asked for and say what to do next.
    #[verifier::rlimit(40)]
    pub fn poll_step(&mut self, run: &mut Poll, event: PollEvent) -> (r: PollAction)
        requires
            old(self).wf(),
        ensures
            final(self).wf(),
            if old(run)@.phase == PollPhase::Ingested && event == PollEvent::Ingested {
                poll_starts(old(run)@, old(self)@, final(run)@, r@)
            } else {
                (final(run)@, r@) == poll_next(old(run)@, event, old(self)@)
            },
            final(self)@ == poll_effect(old(self)@, old(run)@, event),
    {
        if run.phase == PollPhase::Ingested && event == PollEvent::Ingested {
            return self.poll_first(run);
        }
        let name = match &run.name {
            None => {
                return PollActionOf::Misfit;
            },
            Some(name) => name.clone(),
        };
        match (run.phase, event) {
            (PollPhase::Polled, PollEvent::Polled(None)) => run.seek(self),
            (PollPhase::Polled, PollEvent::Polled(Some(code))) => {
                run.code = code;
                run.phase = PollPhase::Drained;
                PollActionOf::Drain
            },
            (PollPhase::Drained, PollEvent::Drained) => {
                run.phase = PollPhase::Row;
                PollActionOf::ReadRow
            },
            (PollPhase::Row, PollEvent::Row(None)) => {
                self.release(&name);
                run.seek(self)
            },
            (PollPhase::Row, PollEvent::Row(Some(state))) => {
                let stuck = match self.supervised(&name) {
                    Some(s) => s.stop_unconfirmed,
                    None => false,
                };
                self.release(&name);
                if state.is_live() {
                    run.state = state;
                    run.phase = PollPhase::Record;
                    PollActionOf::ReadRecord
                } else if state == LifecycleState::Stopping && stuck {
                    run.phase = PollPhase::Cleared;
                    PollActionOf::ClearRecord
                } else {
                    run.seek(self)
                }
            },
            (PollPhase::Cleared, PollEvent::Cleared(true)) => {
                run.phase = PollPhase::Settled;
                PollActionOf::Transition {
                    prior: LifecycleState::Stopping,
                    new: LifecycleState::Stopped,
                    cause: TransitionCause::stop_forced(SETTLED_BY_POLL.to_owned()),
                }
            },
            (PollPhase::Cleared, PollEvent::Cleared(false)) => run.seek(self),
            (PollPhase::Settled, PollEvent::Transitioned(_)) => run.seek(self),
            (PollPhase::Record, PollEvent::Record(record)) => {
                let detail = exit_detail(run.code);
                let decision = plan_restart(&name, record, detail.as_str(), &self.backoff());
                run.crash_cause = decision.crash_cause;
                run.plan = decision.plan;
                match decision.booking {
                    BookingOf::Count { restart_count, cause } => {
                        run.settles = None;
                        run.phase = PollPhase::Booked;
                        PollActionOf::Book(BookingOf::Count { restart_count, cause })
                    },
                    BookingOf::Settle { policy } => {
                        run.settles = Some(policy);
                        run.phase = PollPhase::LogDir;
                        PollActionOf::EnsureLogDir
                    },
                }
            },
            (PollPhase::Booked, PollEvent::Booked) => {
                run.phase = PollPhase::LogDir;
                PollActionOf::EnsureLogDir
            },
            (PollPhase::LogDir, PollEvent::LogDir) => {
                run.phase = PollPhase::Failed;
                PollActionOf::Transition {
                    prior: run.state,
                    new: LifecycleState::Failed,
                    cause: TransitionCause::crashed(run.crash_cause.clone()),
                }
            },
            (PollPhase::Failed, PollEvent::Transitioned(ok)) => {
                let ghost before = run.plans@;
                let planned = run.plan.take();
                let settles = run.settles;
                run.settles = None;
                if ok {
                    if let Some(plan) = planned {
                        run.plans.push(plan);
                        assert(plan_models(run.plans@) =~= plan_models(before).push(plan@));
                    }
                }
                match settles {
                    Some(policy) if ok => {
                        run.phase = PollPhase::Closed;
                        PollActionOf::Book(BookingOf::Settle { policy })
                    },
                    _ => run.seek(self),
                }
            },
            (PollPhase::Closed, PollEvent::Booked) => run.seek(self),
            _ => PollActionOf::Misfit,
        }
    }
}

/// A poll at its beginning.
pub open spec fn poll_begin() -> PollModel {
    PollModel {
        left: Seq::empty(),
        plans: Seq::empty(),
        name: None,
        phase: PollPhase::Ingested,
        code: None,
        state: LifecycleState::Failed,
        crash_cause: ""@,
        plan: None,
        settles: None,
    }
}

/// Whether a list names every supervised instance, each once, and no other.
pub open spec fn lists_supervised(names: Seq<Seq<char>>, supervisor: SupervisorModel) -> bool {
    &&& forall|name: Seq<char>|
        supervisor.running.contains_key(name) <==> #[trigger] names.contains(name)
    &&& names.no_duplicates()
}

/// How a poll goes on once the usage has been ingested: it takes down who is supervised
/// then, in some order, and turns to the first.
pub open spec fn poll_starts(
    run: PollModel,
    supervisor: SupervisorModel,
    after: PollModel,
    action: PollActionModel,
) -> bool {
    exists|left: Seq<Seq<char>>| #[trigger]
        lists_supervised(left, supervisor) && (after, action) == poll_seek(
            PollModel { left, ..run },
            supervisor,
        )
}

/// An exit is a crash only where the instance was meant to be up: the step that
/// goes on to the spawn record, and so to `failed`, is taken only upon a row that
/// says `running` or `paused`. An exit during a requested stop is none.
pub proof fn law_only_a_live_instance_crashes(
    run: PollModel,
    event: PollEvent,
    supervisor: SupervisorModel,
)
    ensures
        poll_next(run, event, supervisor).1 is ReadRecord ==> (event matches PollEvent::Row(
            Some(state),
        ) && state.live()),
        poll_next(run, event, supervisor).1 is Book ==> run.phase == PollPhase::Record || run.phase
            == PollPhase::Failed,
        poll_next(run, event, supervisor).1 matches PollActionOf::Transition { prior, new, .. }
            ==> new == LifecycleState::Failed && prior == run.state && run.phase
            == PollPhase::LogDir || new == LifecycleState::Stopped && prior
            == LifecycleState::Stopping && run.phase == PollPhase::Cleared,
{
    lemma_seek_asks_to_poll(run, poll_effect(supervisor, run, event));
    lemma_seek_asks_to_poll(poll_planned(run, true), poll_effect(supervisor, run, event));
    lemma_seek_asks_to_poll(poll_planned(run, false), poll_effect(supervisor, run, event));
}

proof fn lemma_seek_asks_to_poll(run: PollModel, supervisor: SupervisorModel)
    ensures
        poll_seek(run, supervisor).1 is Poll || poll_seek(run, supervisor).1 is Finish,
        poll_seek(run, supervisor).0.plans == run.plans,
        poll_seek(run, supervisor).0.phase == PollPhase::Polled || poll_seek(
            run,
            supervisor,
        ).0.phase == PollPhase::Done,
    decreases run.left.len(),
{
    if run.left.len() > 0 && !supervisor.running.contains_key(run.left.last()) {
        lemma_seek_asks_to_poll(PollModel { left: run.left.drop_last(), ..run }, supervisor);
    }
}

/// A restart is planned only once the failure is on record: plans are added by no
/// other step than the one that learns that the transition into `failed` was made,
/// and then at most the one decided on.
pub proof fn law_restart_is_planned_only_after_failed(
    run: PollModel,
    event: PollEvent,
    supervisor: SupervisorModel,
)
    ensures
        poll_next(run, event, supervisor).0.plans == run.plans || (run.phase == PollPhase::Failed
            && event == PollEvent::Transitioned(true) && run.plan is Some && poll_next(
            run,
            event,
            supervisor,
        ).0.plans == run.plans.push(run.plan->0)),
{
    lemma_seek_asks_to_poll(run, poll_effect(supervisor, run, event));
    lemma_seek_asks_to_poll(poll_planned(run, true), poll_effect(supervisor, run, event));
    lemma_seek_asks_to_poll(poll_planned(run, false), poll_effect(supervisor, run, event));
}

/// The record of a process that is gone for good is settled only once the failure is on record,
/// and then it is; where the failure could not be recorded the record stays as it was, for
/// a later session to reconcile.
pub proof fn law_a_record_is_settled_only_after_failed(
    run: PollModel,
    event: PollEvent,
    supervisor: SupervisorModel,
)
    ensures
        (poll_next(run, event, supervisor).1 matches PollActionOf::Book(booking)
            && booking is Settle) ==> run.phase == PollPhase::Failed && event
            == PollEvent::Transitioned(true),
        run.name is Some && run.phase == PollPhase::Failed && event == PollEvent::Transitioned(true)
            ==> (run.settles matches Some(policy) ==> poll_next(run, event, supervisor).1
            == PollActionModel::Book(BookingModel::Settle { policy })),
        run.phase == PollPhase::Failed && event == PollEvent::Transitioned(false) ==> !(poll_next(
            run,
            event,
            supervisor,
        ).1 is Book),
{
    lemma_seek_asks_to_poll(run, poll_effect(supervisor, run, event));
    lemma_seek_asks_to_poll(poll_planned(run, true), poll_effect(supervisor, run, event));
    lemma_seek_asks_to_poll(poll_planned(run, false), poll_effect(supervisor, run, event));
}

/// A stop that was not confirmed is settled by the poll that sees the process gone:
/// the row that says `stopping` leads to the clearing of the record, and only a
/// cleared record to `stopped`.
pub proof fn law_poll_settles_an_unconfirmed_stop(
    run: PollModel,
    name: Seq<char>,
    supervisor: SupervisorModel,
)
    requires
        run.name == Some(name),
        run.phase == PollPhase::Row,
        is_stuck(supervisor, name),
    ensures
        poll_next(run, PollEvent::Row(Some(LifecycleState::Stopping)), supervisor).1 is ClearRecord,
        poll_next(run, PollEvent::Row(Some(LifecycleState::Stopping)), supervisor).0.phase
            == PollPhase::Cleared,
        !poll_effect(
            supervisor,
            run,
            PollEvent::Row(Some(LifecycleState::Stopping)),
        ).running.contains_key(name),
{
}

/// A poll that goes on passes over no process: an instance that is still to be looked at and
/// still supervised is the next, or is still to be looked at.
pub proof fn law_a_poll_passes_over_no_process(
    run: PollModel,
    supervisor: SupervisorModel,
    name: Seq<char>,
)
    requires
        run.left.contains(name),
        supervisor.running.contains_key(name),
    ensures
        poll_seek(run, supervisor).1 is Poll,
        poll_seek(run, supervisor).0.phase == PollPhase::Polled,
        poll_seek(run, supervisor).0.name == Some(name) || poll_seek(
            run,
            supervisor,
        ).0.left.contains(name),
    decreases run.left.len(),
{
    let i = choose|i: int| 0 <= i < run.left.len() && run.left[i] == name;
    if i < run.left.len() - 1 {
        assert(run.left.drop_last()[i] == name);
        assert(run.left.drop_last().contains(name));
        if !supervisor.running.contains_key(run.left.last()) {
            law_a_poll_passes_over_no_process(
                PollModel { left: run.left.drop_last(), ..run },
                supervisor,
                name,
            );
        }
    }
}

/// Every process that is supervised once the usage has been ingested is looked at: it is the
/// first, or is still to be looked at.
pub proof fn law_a_poll_begins_with_every_process(
    run: PollModel,
    supervisor: SupervisorModel,
    after: PollModel,
    action: PollActionModel,
    name: Seq<char>,
)
    requires
        poll_starts(run, supervisor, after, action),
        supervisor.running.contains_key(name),
    ensures
        action is Poll,
        after.phase == PollPhase::Polled,
        after.name == Some(name) || after.left.contains(name),
{
    let left = choose|left: Seq<Seq<char>>| #[trigger]
        lists_supervised(left, supervisor) && (after, action) == poll_seek(
            PollModel { left, ..run },
            supervisor,
        );
    assert(left.contains(name));
    law_a_poll_passes_over_no_process(PollModel { left, ..run }, supervisor, name);
}

/// What holds of a poll that is done with an instance: it turns to one of those that are left
/// and still supervised, or ends where there is none; none of them is lost, and the
/// restarts decided on are `plans`.
pub open spec fn poll_goes_on(
    step: (PollModel, PollActionModel),
    left: Seq<Seq<char>>,
    plans: Seq<RestartPlanModel>,
    held: SupervisorModel,
) -> bool {
    &&& step.0.plans == plans
    &&& step.1 is Poll || step.1 is Finish
    &&& step.1 is Poll ==> {
        &&& step.0.phase == PollPhase::Polled
        &&& step.0.name is Some
        &&& left.contains(step.0.name->0)
        &&& held.running.contains_key(step.0.name->0)
        &&& step.0.left.len() < left.len()
    }
    &&& forall|other: Seq<char>|
        left.contains(other) && #[trigger] held.running.contains_key(other) ==> step.1 is Poll && (
        step.0.name == Some(other) || step.0.left.contains(other))
}

proof fn lemma_seek_goes_on(run: PollModel, supervisor: SupervisorModel)
    ensures
        poll_goes_on(poll_seek(run, supervisor), run.left, run.plans, supervisor),
    decreases run.left.len(),
{
    let left = run.left;
    let step = poll_seek(run, supervisor);
    if left.len() > 0 {
        assert(left.contains(left.last())) by {
            assert(left[left.len() - 1] == left.last());
        }
        if !supervisor.running.contains_key(left.last()) {
            let shorter = PollModel { left: left.drop_last(), ..run };
            lemma_seek_goes_on(shorter, supervisor);
            assert forall|other: Seq<char>| shorter.left.contains(other) implies left.contains(
                other,
            ) by {
                let i = choose|i: int|
                    0 <= i < shorter.left.len() && shorter.left[i] == other;
                assert(left[i] == other);
            }
        }
    }
    assert forall|other: Seq<char>|
        left.contains(other) && #[trigger] supervisor.running.contains_key(other) implies step.1
        is Poll && (step.0.name == Some(other) || step.0.left.contains(other)) by {
        law_a_poll_passes_over_no_process(run, supervisor, other);
    }
}

/// The exit of an instance that was meant to be up is a crash, whatever the exit code, and also
/// without one: its last usage is read, its row and its spawn record are looked up, it
/// is let go of, and the change from the state in the row to `failed` is recorded with
/// the exit as its cause. Where the policy is to restart and this is not yet the last failure in
/// a row, the restart is counted before that, and planned after it, once, with the backoff for
/// its number; where the failure could not be recorded, none is planned.
#[verifier::rlimit(60)]
#[verifier::spinoff_prover]
pub proof fn law_every_crash_is_answered(
    run: PollModel,
    name: Seq<char>,
    code: Option<i32>,
    state: LifecycleState,
    record: Option<SpawnFacts>,
    held: SupervisorModel,
    later: SupervisorModel,
)
    requires
        run.name == Some(name),
        run.phase == PollPhase::Polled,
        state == LifecycleState::Running || state == LifecycleState::Paused,
        record matches Some(facts) ==> facts.policy == RestartPolicy::OnFailure
            && facts.restart_count < MAX_CONSECUTIVE_FAILURES - 1,
    ensures
        ({
            let detail = match code {
                Some(c) => "process exited unexpectedly with code "@ + dec_signed(c as int),
                None => "process exited unexpectedly (terminated by signal)"@,
            };
            let so_far: u32 = match record {
                Some(facts) => facts.restart_count,
                None => 0,
            };
            let gone = poll_next(run, PollEvent::Polled(Some(code)), held);
            let drained = poll_next(gone.0, PollEvent::Drained, held);
            let found = poll_next(drained.0, PollEvent::Row(Some(state)), held);
            let released = poll_effect(held, drained.0, PollEvent::Row(Some(state)));
            let known = poll_next(found.0, PollEvent::Record(record), released);
            let booked = poll_next(known.0, PollEvent::Booked, released);
            let ready = poll_next(booked.0, PollEvent::LogDir, released);
            let failed = poll_next(ready.0, PollEvent::Transitioned(true), later);
            let instead = poll_next(ready.0, PollEvent::Transitioned(false), later);
            &&& gone.1 is Drain
            &&& drained.1 is ReadRow
            &&& found.1 is ReadRecord
            &&& poll_effect(held, run, PollEvent::Polled(Some(code))) == held
            &&& poll_effect(held, gone.0, PollEvent::Drained) == held
            &&& released.running == held.running.remove(name)
            &&& released.backoff == held.backoff
            &&& known.1 == PollActionModel::Book(
                BookingModel::Count { restart_count: (so_far + 1) as u32, cause: detail },
            )
            &&& booked.1 is EnsureLogDir
            &&& ready.1 == PollActionModel::Transition {
                prior: state,
                new: LifecycleState::Failed,
                cause: CauseModel::Crashed { detail },
            }
            &&& poll_goes_on(
                failed,
                run.left,
                run.plans.push(
                    RestartPlanModel {
                        name,
                        attempt: (so_far + 1) as u32,
                        delay: Duration {
                            nanos: delay_nanos(held.backoff, (so_far + 1) as u32) as u128,
                        },
                    },
                ),
                later,
            )
            &&& poll_goes_on(instead, run.left, run.plans, later)
            &&& poll_effect(released, found.0, PollEvent::Record(record)) == released
            &&& poll_effect(released, known.0, PollEvent::Booked) == released
            &&& poll_effect(released, booked.0, PollEvent::LogDir) == released
            &&& poll_effect(later, ready.0, PollEvent::Transitioned(true)) == later
            &&& poll_effect(later, ready.0, PollEvent::Transitioned(false)) == later
        }),
{
    let gone = poll_next(run, PollEvent::Polled(Some(code)), held);
    let drained = poll_next(gone.0, PollEvent::Drained, held);
    let found = poll_next(drained.0, PollEvent::Row(Some(state)), held);
    let released = poll_effect(held, drained.0, PollEvent::Row(Some(state)));
    let known = poll_next(found.0, PollEvent::Record(record), released);
    let booked = poll_next(known.0, PollEvent::Booked, released);
    let ready = poll_next(booked.0, PollEvent::LogDir, released);
    lemma_seek_goes_on(poll_planned(ready.0, true), later);
    lemma_seek_goes_on(poll_planned(ready.0, false), later);
}

/// A crash after which there is no restart: the change to `failed` is recorded with the exit and
/// the reason for not restarting, be it the policy or the failures in a row, and
/// only then is the spawn record settled, with the policy kept; no restart is planned. Where
/// the failure could not be recorded the spawn record is not touched.
#[verifier::rlimit(60)]
#[verifier::spinoff_prover]
pub proof fn law_every_final_crash_is_answered(
    run: PollModel,
    name: Seq<char>,
    code: Option<i32>,
    state: LifecycleState,
    facts: SpawnFacts,
    held: SupervisorModel,
    later: SupervisorModel,
)
    requires
        run.name == Some(name),
        run.phase == PollPhase::Polled,
        state == LifecycleState::Running || state == LifecycleState::Paused,
        facts.policy == RestartPolicy::Never || facts.restart_count >= MAX_CONSECUTIVE_FAILURES - 1,
    ensures
        ({
            let detail = match code {
                Some(c) => "process exited unexpectedly with code "@ + dec_signed(c as int),
                None => "process exited unexpectedly (terminated by signal)"@,
            };
            let why = match facts.policy {
                RestartPolicy::Never => detail + "; restart policy is 'never' — not restarting"@,
                RestartPolicy::OnFailure => detail + "; crash-loop: "@ + dec(
                    MAX_CONSECUTIVE_FAILURES as nat,
                )
                    + " consecutive failures reached — not restarting, inspect the agent and start it manually"@,
            };
            let gone = poll_next(run, PollEvent::Polled(Some(code)), held);
            let drained = poll_next(gone.0, PollEvent::Drained, held);
            let found = poll_next(drained.0, PollEvent::Row(Some(state)), held);
            let released = poll_effect(held, drained.0, PollEvent::Row(Some(state)));
            let known = poll_next(found.0, PollEvent::Record(Some(facts)), released);
            let ready = poll_next(known.0, PollEvent::LogDir, released);
            let failed = poll_next(ready.0, PollEvent::Transitioned(true), released);
            let settled = poll_next(failed.0, PollEvent::Booked, later);
            let instead = poll_next(ready.0, PollEvent::Transitioned(false), later);
            &&& gone.1 is Drain
            &&& drained.1 is ReadRow
            &&& found.1 is ReadRecord
            &&& released.running == held.running.remove(name)
            &&& known.1 is EnsureLogDir
            &&& ready.1 == PollActionModel::Transition {
                prior: state,
                new: LifecycleState::Failed,
                cause: CauseModel::Crashed { detail: why },
            }
            &&& failed.1 == PollActionModel::Book(BookingModel::Settle { policy: facts.policy })
            &&& poll_goes_on(settled, run.left, run.plans, later)
            &&& poll_goes_on(instead, run.left, run.plans, later)
            &&& poll_effect(released, found.0, PollEvent::Record(Some(facts))) == released
            &&& poll_effect(released, known.0, PollEvent::LogDir) == released
            &&& poll_effect(released, ready.0, PollEvent::Transitioned(true)) == released
            &&& poll_effect(later, failed.0, PollEvent::Booked) == later
        }),
{
    let gone = poll_next(run, PollEvent::Polled(Some(code)), held);
    let drained = poll_next(gone.0, PollEvent::Drained, held);
    let found = poll_next(drained.0, PollEvent::Row(Some(state)), held);
    let released = poll_effect(held, drained.0, PollEvent::Row(Some(state)));
    let known = poll_next(found.0, PollEvent::Record(Some(facts)), released);
    let ready = poll_next(known.0, PollEvent::LogDir, released);
    let failed = poll_next(ready.0, PollEvent::Transitioned(true), released);
    lemma_seek_goes_on(failed.0, later);
    lemma_seek_goes_on(poll_planned(ready.0, false), later);
}

/// A process that is still there stays supervised, and nothing is recorded of it. One that is
/// gone is let go of in any case, and where its instance was not meant to be up nothing is
/// recorded, except for a stop that had not been confirmed: its spawn record is
/// cleared, and once that is done the change from `stopping` to `stopped` is recorded.
#[verifier::spinoff_prover]
pub proof fn law_other_exits_are_no_crashes(
    run: PollModel,
    name: Seq<char>,
    code: Option<i32>,
    row: Option<LifecycleState>,
    made: bool,
    held: SupervisorModel,
    later: SupervisorModel,
)
    requires
        run.name == Some(name),
        run.phase == PollPhase::Polled,
        row != Some(LifecycleState::Running),
        row != Some(LifecycleState::Paused),
    ensures
        ({
            let alive = poll_next(run, PollEvent::Polled(None), held);
            let gone = poll_next(run, PollEvent::Polled(Some(code)), held);
            let drained = poll_next(gone.0, PollEvent::Drained, held);
            let found = poll_next(drained.0, PollEvent::Row(row), held);
            let released = poll_effect(held, drained.0, PollEvent::Row(row));
            let cleared = poll_next(found.0, PollEvent::Cleared(true), released);
            let kept = poll_next(found.0, PollEvent::Cleared(false), released);
            let stuck = held.running.contains_key(name) && held.running[name].stop_unconfirmed;
            &&& poll_goes_on(alive, run.left, run.plans, held)
            &&& poll_effect(held, run, PollEvent::Polled(None)) == held
            &&& gone.1 is Drain
            &&& drained.1 is ReadRow
            &&& released.running == held.running.remove(name)
            &&& !(row == Some(LifecycleState::Stopping) && stuck) ==> poll_goes_on(
                found,
                run.left,
                run.plans,
                released,
            )
            &&& row == Some(LifecycleState::Stopping) && stuck ==> {
                &&& found.1 is ClearRecord
                &&& cleared.1 == PollActionModel::Transition {
                    prior: LifecycleState::Stopping,
                    new: LifecycleState::Stopped,
                    cause: CauseModel::StopForced { detail: SETTLED_BY_POLL@ },
                }
                &&& poll_goes_on(
                    poll_next(cleared.0, PollEvent::Transitioned(made), later),
                    run.left,
                    run.plans,
                    later,
                )
                &&& poll_goes_on(kept, run.left, run.plans, released)
            }
        }),
{
    let gone = poll_next(run, PollEvent::Polled(Some(code)), held);
    let drained = poll_next(gone.0, PollEvent::Drained, held);
    let found = poll_next(drained.0, PollEvent::Row(row), held);
    let released = poll_effect(held, drained.0, PollEvent::Row(row));
    let cleared = poll_next(found.0, PollEvent::Cleared(true), released);
    lemma_seek_goes_on(run, held);
    lemma_seek_goes_on(drained.0, released);
    lemma_seek_goes_on(found.0, released);
    lemma_seek_goes_on(cleared.0, later);
}

/// A poll that looks at an instance takes the answer to what it asked for and no other: any other
/// answer changes nothing, neither its own state nor what is held, and after its end every answer
/// is such a one.
pub proof fn law_a_poll_takes_only_its_answer(
    held: SupervisorModel,
    run: PollModel,
    event: PollEvent,
    later: PollEvent,
)
    requires
        run.name is Some,
    ensures
        ({
            let step = poll_next(run, event, held);
            let fits = match run.phase {
                PollPhase::Polled => event is Polled,
                PollPhase::Drained => event is Drained,
                PollPhase::Row => event is Row,
                PollPhase::Cleared => event is Cleared,
                PollPhase::Settled | PollPhase::Failed => event is Transitioned,
                PollPhase::Record => event is Record,
                PollPhase::Booked | PollPhase::Closed => event is Booked,
                PollPhase::LogDir => event is LogDir,
                PollPhase::Ingested | PollPhase::Done => false,
            };
            &&& step.1 is Misfit <==> !fits
            &&& !fits ==> step.0 == run && poll_effect(held, run, event) == held
            &&& step.1 is Finish ==> poll_next(step.0, later, held).1 is Misfit
        }),
{
    let after = poll_effect(held, run, event);
    lemma_seek_asks_to_poll(run, after);
    lemma_seek_asks_to_poll(poll_planned(run, true), after);
    lemma_seek_asks_to_poll(poll_planned(run, false), after);
    lemma_seek_ends(run, after);
    lemma_seek_ends(poll_planned(run, true), after);
    lemma_seek_ends(poll_planned(run, false), after);
}

proof fn lemma_seek_ends(run: PollModel, supervisor: SupervisorModel)
    ensures
        poll_seek(run, supervisor).1 is Finish ==> poll_seek(run, supervisor).0.name is None
            && poll_seek(run, supervisor).0.phase == PollPhase::Done,
    decreases run.left.len(),
{
    if run.left.len() > 0 && !supervisor.running.contains_key(run.left.last()) {
        lemma_seek_ends(PollModel { left: run.left.drop_last(), ..run }, supervisor);
    }
}

} // verus!
