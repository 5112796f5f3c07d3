//! Taking processes of an earlier engine back under supervision.
//!
//! An [`Adopt`] goes through the spawn records that an earlier engine left. It asks
//! for one action at a time and takes the answer. A process that is still there is
//! held again; the record of one that is not is cleared, after the instance has been
//! marked as failed where it was meant to be up. A record without a process only
//! keeps a policy and is left alone.
use crate::event::{BreachDimension, BreachScope, CauseModel, TransitionCause, TransitionCauseOf};
use crate::lifecycle::LifecycleState;
use crate::name::InstanceName;
use crate::supervisor::{
    Supervised, SupervisedModel, Supervisor, SupervisorModel, SELF_REPORTED,
};
use crate::text::{dec, push_dec};
use crate::usage::{run_id_text, RunId};
use vstd::prelude::*;

verus! {

/// What is said where a record holds no cause.
pub const NO_PRIOR_CAUSE: &'static str = "no prior cause recorded";

/// What a spawn record says about its process.
#[derive(Debug, PartialEq, Eq)]
pub struct OrphanRecord {
    /// The instance.
    pub name: InstanceName,
    /// The process; zero where the record only keeps a policy.
    pub pid: u32,
    /// The last cause noted in it.
    pub last_known_cause: Option<String>,
}

/// The model of an [`OrphanRecord`].
pub struct OrphanModel {
    /// The instance.
    pub name: Seq<char>,
    /// The process; zero where the record only keeps a policy.
    pub pid: u32,
    /// The last cause noted in it.
    pub last_known_cause: Option<Seq<char>>,
}

impl View for OrphanRecord {
    type V = OrphanModel;

    open spec fn view(&self) -> OrphanModel {
        OrphanModel {
            name: self.name@,
            pid: self.pid,
            last_known_cause: match self.last_known_cause {
                Some(cause) => Some(cause@),
                None => None,
            },
        }
    }
}

/// The models of some records.
pub open spec fn orphan_models(records: Seq<OrphanRecord>) -> Seq<OrphanModel> {
    records.map(|i: int, record: OrphanRecord| record@)
}

/// What an [`Adopt`] waits for.
#[derive(Clone, Copy, Debug, PartialEq, Eq, Structural)]
pub enum AdoptPhase {
    /// Whether the process is still there.
    Adopted,
    /// A time and a nonce for its run.
    Minted,
    /// The length of its output log.
    LogLength,
    /// Its metering source.
    Source,
    /// The stored row of a process that is gone.
    Row,
    /// The log directory.
    LogDir,
    /// The transition into `failed`.
    Failed,
    /// The clearing of the record.
    Cleared,
    /// Nothing; every record has been looked at.
    Done,
}

/// An adoption under way.
pub struct Adopt {
    records: Vec<OrphanRecord>,
    at: usize,
    adopted: usize,
    phase: AdoptPhase,
    run_id: RunId,
    cursor: u64,
    state: LifecycleState,
}

/// The model of an [`Adopt`].
pub struct AdoptModel {
    /// The records.
    pub records: Seq<OrphanModel>,
    /// The record that is looked at.
    pub at: int,
    /// How many processes are held again.
    pub adopted: int,
    /// What is waited for.
    pub phase: AdoptPhase,
    /// The run of the process.
    pub run_id: Seq<char>,
    /// The length of its output log.
    pub cursor: u64,
    /// The state the instance was in.
    pub state: LifecycleState,
}

impl View for Adopt {
    type V = AdoptModel;

    closed spec fn view(&self) -> AdoptModel {
        AdoptModel {
            records: orphan_models(self.records@),
            at: self.at as int,
            adopted: self.adopted as int,
            phase: self.phase,
            run_id: self.run_id@,
            cursor: self.cursor,
            state: self.state,
        }
    }
}

/// The answer to an action of an [`Adopt`].
pub enum AdoptEventOf<S> {
    /// Whether the process is still there; one that cannot be told counts as gone.
    Adopted(bool),
    /// A time and a nonce.
    Minted {
        /// Nanoseconds since the epoch.
        nanos: u128,
        /// A number handed out once.
        nonce: u64,
    },
    /// The length of the output log.
    LogLength(u64),
    /// The metering source, if it could be read.
    Source(Option<S>),
    /// The state in the stored row, if it could be read.
    Row(Option<LifecycleState>),
    /// The log directory has been made, as far as that worked.
    LogDir,
    /// Whether the transition could be made.
    Transitioned(bool),
    /// The record has been cleared, as far as that worked.
    Cleared,
}

/// The answer to an action of an [`Adopt`].
pub type AdoptEvent = AdoptEventOf<String>;

/// The model of an [`AdoptEvent`].
pub type AdoptEventModel = AdoptEventOf<Seq<char>>;

impl View for AdoptEventOf<String> {
    type V = AdoptEventModel;

    open spec fn view(&self) -> AdoptEventModel {
        match self {
            AdoptEventOf::Adopted(b) => AdoptEventOf::Adopted(*b),
            AdoptEventOf::Minted { nanos, nonce } => AdoptEventOf::Minted {
                nanos: *nanos,
                nonce: *nonce,
            },
            AdoptEventOf::LogLength(n) => AdoptEventOf::LogLength(*n),
            AdoptEventOf::Source(source) => AdoptEventOf::Source(
                match source {
                    Some(s) => Some(s@),
                    None => None,
                },
            ),
            AdoptEventOf::Row(state) => AdoptEventOf::Row(*state),
            AdoptEventOf::LogDir => AdoptEventOf::LogDir,
            AdoptEventOf::Transitioned(made) => AdoptEventOf::Transitioned(*made),
            AdoptEventOf::Cleared => AdoptEventOf::Cleared,
        }
    }
}

/// What an [`Adopt`] asks for, on the record it is looking at.
pub enum AdoptActionOf<S> {
    /// Take the process over, if it is still there.
    Adopt,
    /// Give a time and a nonce.
    Mint,
    /// Measure the output log.
    MeasureLog,
    /// Look up the metering source.
    ReadSource,
    /// Look the instance up.
    ReadRow,
    /// Make the log directory.
    EnsureLogDir,
    /// Record a change of state.
    Transition {
        /// The state left.
        prior: LifecycleState,
        /// The state entered.
        new: LifecycleState,
        /// Why.
        cause: TransitionCauseOf<S>,
    },
    /// Clear the spawn record.
    ClearRecord,
    /// Nothing: the answer does not fit what was asked.
    Misfit,
    /// Nothing more: every record has been looked at.
    Finish,
}

/// What an [`Adopt`] asks for.
pub type AdoptAction = AdoptActionOf<String>;

/// The model of an [`AdoptAction`].
pub type AdoptActionModel = AdoptActionOf<Seq<char>>;

impl View for AdoptActionOf<String> {
    type V = AdoptActionModel;

    open spec fn view(&self) -> AdoptActionModel {
        match self {
            AdoptActionOf::Adopt => AdoptActionOf::Adopt,
            AdoptActionOf::Mint => AdoptActionOf::Mint,
            AdoptActionOf::MeasureLog => AdoptActionOf::MeasureLog,
            AdoptActionOf::ReadSource => AdoptActionOf::ReadSource,
            AdoptActionOf::ReadRow => AdoptActionOf::ReadRow,
            AdoptActionOf::EnsureLogDir => AdoptActionOf::EnsureLogDir,
            AdoptActionOf::Transition { prior, new, cause } => AdoptActionOf::Transition {
                prior: *prior,
                new: *new,
                cause: cause@,
            },
            AdoptActionOf::ClearRecord => AdoptActionOf::ClearRecord,
            AdoptActionOf::Misfit => AdoptActionOf::Misfit,
            AdoptActionOf::Finish => AdoptActionOf::Finish,
        }
    }
}

/// What is said of a process that is not found any more.
pub open spec fn orphan_text(record: OrphanModel) -> Seq<char> {
    "orphan not found on engine restart (process pid "@ + dec(record.pid as nat)
        + " is gone or was reused); last known: "@ + match record.last_known_cause {
        Some(cause) => cause,
        None => NO_PRIOR_CAUSE@,
    }
}

/// The adoption goes on to the next record that has a process, or ends.
pub open spec fn adopt_seek(run: AdoptModel) -> (AdoptModel, AdoptActionModel)
    decreases run.records.len() - run.at,
{
    if run.at < 0 || run.at >= run.records.len() {
        (AdoptModel { phase: AdoptPhase::Done, ..run }, AdoptActionOf::Finish)
    } else if run.records[run.at].pid != 0 {
        (AdoptModel { phase: AdoptPhase::Adopted, ..run }, AdoptActionOf::Adopt)
    } else {
        adopt_seek(AdoptModel { at: run.at + 1, ..run })
    }
}

/// What an adoption does with an answer: the table of its steps.
pub open spec fn adopt_next(run: AdoptModel, event: AdoptEventModel) -> (
    AdoptModel,
    AdoptActionModel,
) {
    match (run.phase, event) {
        (AdoptPhase::Adopted, AdoptEventOf::Adopted(true)) => (
            AdoptModel { phase: AdoptPhase::Minted, ..run },
            AdoptActionOf::Mint,
        ),
        (AdoptPhase::Minted, AdoptEventOf::Minted { nanos, nonce }) => (
            AdoptModel {
                phase: AdoptPhase::LogLength,
                run_id: run_id_text(nanos as nat, nonce as nat),
                ..run
            },
            AdoptActionOf::MeasureLog,
        ),
        (AdoptPhase::LogLength, AdoptEventOf::LogLength(cursor)) => (
            AdoptModel { phase: AdoptPhase::Source, cursor, ..run },
            AdoptActionOf::ReadSource,
        ),
        (AdoptPhase::Source, AdoptEventOf::Source(_)) => adopt_seek(
            AdoptModel { at: run.at + 1, adopted: run.adopted + 1, ..run },
        ),
        (AdoptPhase::Adopted, AdoptEventOf::Adopted(false)) => (
            AdoptModel { phase: AdoptPhase::Row, ..run },
            AdoptActionOf::ReadRow,
        ),
        (AdoptPhase::Row, AdoptEventOf::Row(Some(state))) if state.live() => (
            AdoptModel { phase: AdoptPhase::LogDir, state, ..run },
            AdoptActionOf::EnsureLogDir,
        ),
        (AdoptPhase::Row, AdoptEventOf::Row(_)) => (
            AdoptModel { phase: AdoptPhase::Cleared, ..run },
            AdoptActionOf::ClearRecord,
        ),
        (AdoptPhase::LogDir, AdoptEventOf::LogDir) => (
            AdoptModel { phase: AdoptPhase::Failed, ..run },
            AdoptActionOf::Transition {
                prior: run.state,
                new: LifecycleState::Failed,
                cause: CauseModel::Crashed { detail: orphan_text(run.records[run.at]) },
            },
        ),
        (AdoptPhase::Failed, AdoptEventOf::Transitioned(true)) => (
            AdoptModel { phase: AdoptPhase::Cleared, ..run },
            AdoptActionOf::ClearRecord,
        ),
        (AdoptPhase::Failed, AdoptEventOf::Transitioned(false)) => adopt_seek(
            AdoptModel { at: run.at + 1, ..run },
        ),
        (AdoptPhase::Cleared, AdoptEventOf::Cleared) => adopt_seek(
            AdoptModel { at: run.at + 1, ..run },
        ),
        _ => (run, AdoptActionOf::Misfit),
    }
}

/// What an adoption does to the supervised processes: one that is still there is
/// held from the end of its present output on, without an observed listener.
pub open spec fn adopt_effect(
    supervisor: SupervisorModel,
    run: AdoptModel,
    event: AdoptEventModel,
) -> SupervisorModel {
    match (run.phase, event) {
        (AdoptPhase::Source, AdoptEventOf::Source(source)) => SupervisorModel {
            running: supervisor.running.insert(
                run.records[run.at].name,
                SupervisedModel::fresh(
                    run.run_id,
                    match source {
                        Some(s) => s,
                        None => SELF_REPORTED@,
                    },
                    run.cursor,
                    false,
                ),
            ),
            ..supervisor
        },
        _ => supervisor,
    }
}

/// The adoption of some records before the first is looked at.
pub open spec fn adopt_begin(records: Seq<OrphanModel>) -> AdoptModel {
    AdoptModel {
        records,
        at: 0,
        adopted: 0,
        phase: AdoptPhase::Done,
        run_id: ""@,
        cursor: 0,
        state: LifecycleState::Failed,
    }
}

impl Adopt {
    /// The record that is looked at exists while anything is waited for, and no
    /// more processes are held than records were looked at.
    pub closed spec fn wf(&self) -> bool {
        &&& self.at <= self.records@.len()
        &&& self.phase != AdoptPhase::Done ==> self.at < self.records@.len()
        &&& self.adopted <= self.at
    }

    /// The record that is looked at.
    pub fn record(&self) -> (r: Option<&OrphanRecord>)
        ensures
            match r {
                Some(record) => 0 <= self@.at < self@.records.len() && self@.records[self@.at]
                    == record@,
                None => self@.at >= self@.records.len(),
            },
    {
        if self.at < self.records.len() {
            Some(&self.records[self.at])
        } else {
            None
        }
    }

    /// How many processes are held again.
    pub fn adopted(&self) -> (r: usize)
        ensures
            r == self@.adopted,
    {
        self.adopted
    }

    fn seek(&mut self) -> (r: AdoptAction)
        requires
            old(self).at <= old(self).records@.len(),
            old(self).adopted <= old(self).at,
        ensures
            final(self).wf(),
            (final(self)@, r@) == adopt_seek(old(self)@),
    {
        while self.at < self.records.len() && self.records[self.at].pid == 0
            invariant
                self.at <= self.records@.len(),
                self.adopted <= self.at,
                adopt_seek(self@) == adopt_seek(old(self)@),
            decreases self.records@.len() - self.at,
        {
            self.at = self.at + 1;
        }
        if self.at < self.records.len() {
            self.phase = AdoptPhase::Adopted;
            AdoptActionOf::Adopt
        } else {
            self.phase = AdoptPhase::Done;
            AdoptActionOf::Finish
        }
    }
}

fn orphan_detail(record: &OrphanRecord) -> (r: String)
    ensures
        r@ == orphan_text(record@),
{
    let mut detail = "orphan not found on engine restart (process pid ".to_owned();
    push_dec(&mut detail, record.pid as u128);
    detail.append(" is gone or was reused); last known: ");
    match &record.last_known_cause {
        Some(cause) => {
            detail.append(cause.as_str());
        },
        None => {
            detail.append(NO_PRIOR_CAUSE);
        },
    }
    detail
}

impl Supervisor {
    /// Begin to go through the records that an earlier engine left, and say what to
    /// do first. Records that could not be read are none.
    pub fn adopt_orphans(&self, records: Option<Vec<OrphanRecord>>) -> (r: (Adopt, AdoptAction))
        ensures
            r.0.wf(),
            (r.0@, r.1@) == adopt_seek(
                adopt_begin(
                    match records {
                        Some(records) => orphan_models(records@),
                        None => Seq::empty(),
                    },
                ),
            ),
    {
        let listed = match records {
            Some(records) => records,
            None => Vec::new(),
        };
        let mut run = Adopt {
            records: listed,
            at: 0,
            adopted: 0,
            phase: AdoptPhase::Done,
            run_id: RunId::from_wire("".to_owned()),
            cursor: 0,
            state: LifecycleState::Failed,
        };
        assert(run@.records =~= adopt_begin(
            match records {
                Some(records) => orphan_models(records@),
                None => Seq::empty(),
            },
        ).records);
        let action = run.seek();
        (run, action)
    }

    /// Take the answer to what `run` asked for and say what to do next.
    pub fn adopt_step(&mut self, run: &mut Adopt, event: AdoptEvent) -> (r: AdoptAction)
        requires
            old(self).wf(),
            old(run).wf(),
        ensures
            final(self).wf(),
            final(run).wf(),
            (final(run)@, r@) == adopt_next(old(run)@, event@),
            final(self)@ == adopt_effect(old(self)@, old(run)@, event@),
    {
        let total: usize = run.records.len();
        assert(run.at <= total);
        match (run.phase, event) {
            (AdoptPhase::Adopted, AdoptEventOf::Adopted(true)) => {
                run.phase = AdoptPhase::Minted;
                AdoptActionOf::Mint
            },
            (AdoptPhase::Minted, AdoptEventOf::Minted { nanos, nonce }) => {
                run.run_id = RunId::mint(nanos, nonce);
                run.phase = AdoptPhase::LogLength;
                AdoptActionOf::MeasureLog
            },
            (AdoptPhase::LogLength, AdoptEventOf::LogLength(cursor)) => {
                run.cursor = cursor;
                run.phase = AdoptPhase::Source;
                AdoptActionOf::ReadSource
            },
            (AdoptPhase::Source, AdoptEventOf::Source(source)) => {
                let source = match source {
                    Some(s) => s,
                    None => SELF_REPORTED.to_owned(),
                };
                let supervised = Supervised::fresh(
                    run.run_id.clone(),
                    source,
                    run.cursor,
                    false,
                );
                self.hold(&run.records[run.at].name, supervised);
                run.at = run.at + 1;
                run.adopted = run.adopted + 1;
                run.seek()
            },
            (AdoptPhase::Adopted, AdoptEventOf::Adopted(false)) => {
                run.phase = AdoptPhase::Row;
                AdoptActionOf::ReadRow
            },
            (AdoptPhase::Row, AdoptEventOf::Row(row)) => {
                match row {
                    Some(state) if state.is_live() => {
                        run.state = state;
                        run.phase = AdoptPhase::LogDir;
                        AdoptActionOf::EnsureLogDir
                    },
                    _ => {
                        run.phase = AdoptPhase::Cleared;
                        AdoptActionOf::ClearRecord
                    },
                }
            },
            (AdoptPhase::LogDir, AdoptEventOf::LogDir) => {
                let detail = orphan_detail(&run.records[run.at]);
                run.phase = AdoptPhase::Failed;
                AdoptActionOf::Transition {
                    prior: run.state,
                    new: LifecycleState::Failed,
                    cause: TransitionCause::crashed(detail),
                }
            },
            (AdoptPhase::Failed, AdoptEventOf::Transitioned(made)) => {
                if made {
                    run.phase = AdoptPhase::Cleared;
                    AdoptActionOf::ClearRecord
                } else {
                    run.at = run.at + 1;
                    run.seek()
                }
            },
            (AdoptPhase::Cleared, AdoptEventOf::Cleared) => {
                run.at = run.at + 1;
                run.seek()
            },
            _ => AdoptActionOf::Misfit,
        }
    }
}

/// A record that only keeps a policy is left alone: nothing is ever asked about it.
pub proof fn law_policy_records_are_left_alone(run: AdoptModel)
    ensures
        adopt_seek(run).1 is Adopt || adopt_seek(run).1 is Finish,
        adopt_seek(run).1 is Adopt ==> 0 <= adopt_seek(run).0.at < run.records.len()
            && run.records[adopt_seek(run).0.at].pid != 0 && adopt_seek(run).0.phase
            == AdoptPhase::Adopted && adopt_seek(run).0.records == run.records,
    decreases run.records.len() - run.at,
{
    if 0 <= run.at < run.records.len() && run.records[run.at].pid == 0 {
        law_policy_records_are_left_alone(AdoptModel { at: run.at + 1, ..run });
    }
}

/// No phantom survives: where the process is gone and the instance was meant to be
/// up, the instance goes to `failed` before its record is cleared, and where it cannot, the
/// record is left for the next time; where it was not, the record is cleared at once.
pub proof fn law_gone_process_is_reconciled(run: AdoptModel, row: Option<LifecycleState>)
    requires
        run.phase == AdoptPhase::Row,
    ensures
        ({
            let step = adopt_next(run, AdoptEventModel::Row(row));
            let live = row matches Some(state) && state.live();
            &&& !live ==> step.1 is ClearRecord
            &&& live ==> {
                let second = adopt_next(step.0, AdoptEventModel::LogDir);
                let third = adopt_next(second.0, AdoptEventModel::Transitioned(true));
                let instead = adopt_next(second.0, AdoptEventModel::Transitioned(false));
                &&& step.1 is EnsureLogDir
                &&& second.1 matches AdoptActionOf::Transition { prior, new, .. } && Some(prior)
                    == row && new == LifecycleState::Failed
                &&& third.1 is ClearRecord
                &&& instead.1 is Adopt || instead.1 is Finish
                &&& instead == adopt_seek(AdoptModel { at: run.at + 1, ..second.0 })
            }
        }),
{
    if row is Some {
        law_policy_records_are_left_alone(
            AdoptModel { at: run.at + 1, phase: AdoptPhase::Failed, state: row->0, ..run },
        );
    }
}

/// A record is cleared only where its row is gone, or is not one of an instance that is
/// meant to be up, or has been made to say `failed`.
pub proof fn law_a_record_is_cleared_only_after_its_row_is_right(
    run: AdoptModel,
    event: AdoptEventModel,
)
    ensures
        adopt_next(run, event).1 is ClearRecord ==> event == AdoptEventModel::Transitioned(true)
            || (event matches AdoptEventOf::Row(row) && !(row matches Some(state) && state.live())),
{
    law_policy_records_are_left_alone(AdoptModel { at: run.at + 1, ..run });
    law_policy_records_are_left_alone(
        AdoptModel { at: run.at + 1, adopted: run.adopted + 1, ..run },
    );
}

/// A process is counted as adopted exactly when it is taken under supervision.
pub proof fn law_adopted_counts_the_held(
    run: AdoptModel,
    event: AdoptEventModel,
    supervisor: SupervisorModel,
)
    ensures
        adopt_next(run, event).0.adopted == run.adopted + 1 || adopt_effect(
            supervisor,
            run,
            event,
        ) == supervisor,
        adopt_next(run, event).0.adopted == run.adopted || adopt_effect(
            supervisor,
            run,
            event,
        ).running.contains_key(run.records[run.at].name),
{
    lemma_seek_keeps_the_count(AdoptModel { at: run.at + 1, adopted: run.adopted + 1, ..run });
    lemma_seek_keeps_the_count(AdoptModel { at: run.at + 1, ..run });
}

proof fn lemma_seek_keeps_the_count(run: AdoptModel)
    ensures
        adopt_seek(run).0.adopted == run.adopted,
    decreases run.records.len() - run.at,
{
    if 0 <= run.at < run.records.len() && run.records[run.at].pid == 0 {
        lemma_seek_keeps_the_count(AdoptModel { at: run.at + 1, ..run });
    }
}

/// What holds of an adoption that is done with a record: the next record that has a process, and
/// no later one, is looked at, or there is none left; `adopted` processes are held again.
pub open spec fn adopt_goes_on(
    step: (AdoptModel, AdoptActionModel),
    records: Seq<OrphanModel>,
    from: int,
    adopted: int,
) -> bool {
    &&& step.0.records == records
    &&& step.0.adopted == adopted
    &&& step.1 is Adopt || step.1 is Finish
    &&& step.1 is Adopt ==> {
        &&& step.0.phase == AdoptPhase::Adopted
        &&& from <= step.0.at < records.len()
        &&& records[step.0.at].pid != 0
        &&& forall|i: int| from <= i < step.0.at ==> (#[trigger] records[i]).pid == 0
    }
    &&& step.1 is Finish ==> {
        &&& step.0.phase == AdoptPhase::Done
        &&& forall|i: int| from <= i < records.len() ==> (#[trigger] records[i]).pid == 0
    }
}

proof fn lemma_adopt_seek_goes_on(run: AdoptModel)
    requires
        0 <= run.at,
    ensures
        adopt_goes_on(adopt_seek(run), run.records, run.at, run.adopted),
    decreases run.records.len() - run.at,
{
    if run.at < run.records.len() && run.records[run.at].pid == 0 {
        lemma_adopt_seek_goes_on(AdoptModel { at: run.at + 1, ..run });
    }
}

/// An adoption begins with the first record that has a process, and has adopted none.
pub proof fn law_an_adoption_begins_with_the_first_process(records: Seq<OrphanModel>)
    ensures
        adopt_goes_on(adopt_seek(adopt_begin(records)), records, 0, 0),
{
    lemma_adopt_seek_goes_on(adopt_begin(records));
}

/// A process that is still there is held again under the name in its record: with the run
/// identity made of the time and the nonce that were given for it, with the metering source that
/// was found for it, or as one that reports itself where none could be read, and from the end of
/// its output, as it was measured, on. It is counted once, no other process is touched,
/// and the next record follows.
#[verifier::spinoff_prover]
pub proof fn law_a_live_orphan_is_held_again(
    run: AdoptModel,
    nanos: u128,
    nonce: u64,
    length: u64,
    source: Option<Seq<char>>,
    held: SupervisorModel,
)
    requires
        run.phase == AdoptPhase::Adopted,
        0 <= run.at < run.records.len(),
    ensures
        ({
            let there = adopt_next(run, AdoptEventModel::Adopted(true));
            let minted = adopt_next(there.0, AdoptEventModel::Minted { nanos, nonce });
            let measured = adopt_next(minted.0, AdoptEventModel::LogLength(length));
            let done = adopt_next(measured.0, AdoptEventModel::Source(source));
            let after = adopt_effect(held, measured.0, AdoptEventModel::Source(source));
            let name = run.records[run.at].name;
            &&& there.1 is Mint
            &&& minted.1 is MeasureLog
            &&& measured.1 is ReadSource
            &&& adopt_effect(held, run, AdoptEventModel::Adopted(true)) == held
            &&& adopt_effect(held, there.0, AdoptEventModel::Minted { nanos, nonce }) == held
            &&& adopt_effect(held, minted.0, AdoptEventModel::LogLength(length)) == held
            &&& after.running.dom() == held.running.dom().insert(name)
            &&& after.running[name].run_id == run_id_text(nanos as nat, nonce as nat)
            &&& after.running[name].metering_source == match source {
                Some(found) => found,
                None => "self-reported"@,
            }
            &&& after.running[name].usage_cursor == length
            &&& after.running[name].breached == Set::<(BreachDimension, BreachScope)>::empty()
            &&& !after.running[name].observed
            &&& !after.running[name].stop_unconfirmed
            &&& forall|other: Seq<char>|
                other != name && held.running.contains_key(other)
                    ==> #[trigger] after.running[other] == held.running[other]
            &&& after.backoff == held.backoff
            &&& adopt_goes_on(done, run.records, run.at + 1, run.adopted + 1)
        }),
{
    let there = adopt_next(run, AdoptEventModel::Adopted(true));
    let minted = adopt_next(there.0, AdoptEventModel::Minted { nanos, nonce });
    let measured = adopt_next(minted.0, AdoptEventModel::LogLength(length));
    lemma_adopt_seek_goes_on(
        AdoptModel { at: run.at + 1, adopted: run.adopted + 1, ..measured.0 },
    );
    let after = adopt_effect(held, measured.0, AdoptEventModel::Source(source));
    assert(after.running.dom() =~= held.running.dom().insert(run.records[run.at].name));
}

/// A process that is gone is never held, and its record is not passed over: where the row says
/// `running` or `paused` the change from that state to `failed` is recorded, with the process
/// and the last known cause in the record as the reason, and only once that is done
/// is the record cleared; with any other row, or none, the record is cleared at once.
#[verifier::spinoff_prover]
pub proof fn law_a_gone_orphan_is_reconciled(
    run: AdoptModel,
    row: Option<LifecycleState>,
    held: SupervisorModel,
)
    requires
        run.phase == AdoptPhase::Adopted,
        0 <= run.at < run.records.len(),
    ensures
        ({
            let record = run.records[run.at];
            let gone = adopt_next(run, AdoptEventModel::Adopted(false));
            let found = adopt_next(gone.0, AdoptEventModel::Row(row));
            let ready = adopt_next(found.0, AdoptEventModel::LogDir);
            let failed = adopt_next(ready.0, AdoptEventModel::Transitioned(true));
            let instead = adopt_next(ready.0, AdoptEventModel::Transitioned(false));
            let last_known = match record.last_known_cause {
                Some(cause) => cause,
                None => "no prior cause recorded"@,
            };
            let up = row == Some(LifecycleState::Running) || row == Some(LifecycleState::Paused);
            &&& gone.1 is ReadRow
            &&& up ==> {
                &&& found.1 is EnsureLogDir
                &&& ready.1 == AdoptActionModel::Transition {
                    prior: row->0,
                    new: LifecycleState::Failed,
                    cause: CauseModel::Crashed {
                        detail: "orphan not found on engine restart (process pid "@ + dec(
                            record.pid as nat,
                        ) + " is gone or was reused); last known: "@ + last_known,
                    },
                }
                &&& failed.1 is ClearRecord
                &&& adopt_goes_on(
                    adopt_next(failed.0, AdoptEventModel::Cleared),
                    run.records,
                    run.at + 1,
                    run.adopted,
                )
                &&& adopt_goes_on(instead, run.records, run.at + 1, run.adopted)
            }
            &&& !up ==> {
                &&& found.1 is ClearRecord
                &&& adopt_goes_on(
                    adopt_next(found.0, AdoptEventModel::Cleared),
                    run.records,
                    run.at + 1,
                    run.adopted,
                )
            }
            &&& adopt_effect(held, run, AdoptEventModel::Adopted(false)) == held
            &&& adopt_effect(held, gone.0, AdoptEventModel::Row(row)) == held
            &&& adopt_effect(held, found.0, AdoptEventModel::LogDir) == held
            &&& adopt_effect(held, ready.0, AdoptEventModel::Transitioned(true)) == held
            &&& adopt_effect(held, ready.0, AdoptEventModel::Transitioned(false)) == held
            &&& adopt_effect(held, failed.0, AdoptEventModel::Cleared) == held
            &&& adopt_effect(held, found.0, AdoptEventModel::Cleared) == held
        }),
{
    let gone = adopt_next(run, AdoptEventModel::Adopted(false));
    let found = adopt_next(gone.0, AdoptEventModel::Row(row));
    let ready = adopt_next(found.0, AdoptEventModel::LogDir);
    let failed = adopt_next(ready.0, AdoptEventModel::Transitioned(true));
    lemma_adopt_seek_goes_on(AdoptModel { at: run.at + 1, ..failed.0 });
    lemma_adopt_seek_goes_on(AdoptModel { at: run.at + 1, ..ready.0 });
    lemma_adopt_seek_goes_on(AdoptModel { at: run.at + 1, ..found.0 });
}

/// Whether an answer is one to what an adoption waits for.
pub open spec fn adopt_fits(run: AdoptModel, event: AdoptEventModel) -> bool {
    match run.phase {
        AdoptPhase::Adopted => event is Adopted,
        AdoptPhase::Minted => event is Minted,
        AdoptPhase::LogLength => event is LogLength,
        AdoptPhase::Source => event is Source,
        AdoptPhase::Row => event is Row,
        AdoptPhase::LogDir => event is LogDir,
        AdoptPhase::Failed => event is Transitioned,
        AdoptPhase::Cleared => event is Cleared,
        AdoptPhase::Done => false,
    }
}

/// The adoption of some records after its first `n` answers.
pub open spec fn adopt_at(
    records: Seq<OrphanModel>,
    answers: Seq<AdoptEventModel>,
    n: int,
) -> AdoptModel
    decreases n,
{
    if n <= 0 {
        adopt_seek(adopt_begin(records)).0
    } else {
        adopt_next(adopt_at(records, answers, n - 1), answers[n - 1]).0
    }
}

/// What the adoption asks for upon its answer number `i`, counted from zero.
pub open spec fn adopt_action_at(
    records: Seq<OrphanModel>,
    answers: Seq<AdoptEventModel>,
    i: int,
) -> AdoptActionModel {
    adopt_next(adopt_at(records, answers, i), answers[i]).1
}

/// Whether each answer is one to what the adoption asked for.
pub open spec fn adopt_answered(
    records: Seq<OrphanModel>,
    answers: Seq<AdoptEventModel>,
) -> bool {
    forall|i: int|
        0 <= i < answers.len() ==> adopt_fits(
            adopt_at(records, answers, i),
            #[trigger] answers[i],
        )
}

proof fn lemma_adopt_is_in_the_records(
    records: Seq<OrphanModel>,
    answers: Seq<AdoptEventModel>,
    n: int,
)
    requires
        adopt_answered(records, answers),
        0 <= n <= answers.len(),
    ensures
        adopt_at(records, answers, n).records == records,
        adopt_at(records, answers, n).at >= 0,
        adopt_at(records, answers, n).phase != AdoptPhase::Done ==> adopt_at(
            records,
            answers,
            n,
        ).at < records.len() && records[adopt_at(records, answers, n).at].pid != 0,
    decreases n,
{
    let run = adopt_at(records, answers, n);
    if n <= 0 {
        lemma_adopt_seek_goes_on(adopt_begin(records));
        lemma_adopt_seek_stays(adopt_begin(records));
    } else {
        lemma_adopt_is_in_the_records(records, answers, n - 1);
        let before = adopt_at(records, answers, n - 1);
        assert(adopt_fits(before, answers[n - 1]));
        let next = AdoptModel { at: before.at + 1, ..before };
        let counted = AdoptModel { at: before.at + 1, adopted: before.adopted + 1, ..before };
        lemma_adopt_seek_goes_on(next);
        lemma_adopt_seek_goes_on(counted);
        lemma_adopt_seek_stays(next);
        lemma_adopt_seek_stays(counted);
    }
}

proof fn lemma_adopt_seek_stays(run: AdoptModel)
    requires
        0 <= run.at,
    ensures
        adopt_seek(run).0.at >= 0,
    decreases run.records.len() - run.at,
{
    if run.at < run.records.len() && run.records[run.at].pid == 0 {
        lemma_adopt_seek_stays(AdoptModel { at: run.at + 1, ..run });
    }
}

/// The step that led to a phase in the midst of a record.
proof fn lemma_adopt_step_back(
    records: Seq<OrphanModel>,
    answers: Seq<AdoptEventModel>,
    n: int,
)
    requires
        adopt_answered(records, answers),
        0 <= n <= answers.len(),
        adopt_at(records, answers, n).phase == AdoptPhase::Source || adopt_at(
            records,
            answers,
            n,
        ).phase == AdoptPhase::LogLength || adopt_at(records, answers, n).phase
            == AdoptPhase::Minted,
    ensures
        n > 0,
        adopt_at(records, answers, n) == adopt_next(
            adopt_at(records, answers, n - 1),
            answers[n - 1],
        ).0,
        adopt_at(records, answers, n).at == adopt_at(records, answers, n - 1).at,
        adopt_fits(adopt_at(records, answers, n - 1), answers[n - 1]),
        ({
            let before = adopt_at(records, answers, n - 1).phase;
            match adopt_at(records, answers, n).phase {
                AdoptPhase::Source => before == AdoptPhase::LogLength,
                AdoptPhase::LogLength => before == AdoptPhase::Minted,
                _ => before == AdoptPhase::Adopted && answers[n - 1] == AdoptEventModel::Adopted(
                    true,
                ),
            }
        }),
{
    lemma_adopt_seek_goes_on(adopt_begin(records));
    if n > 0 {
        lemma_adopt_is_in_the_records(records, answers, n - 1);
        let before = adopt_at(records, answers, n - 1);
        assert(adopt_fits(before, answers[n - 1]));
        lemma_adopt_seek_goes_on(AdoptModel { at: before.at + 1, ..before });
        lemma_adopt_seek_goes_on(
            AdoptModel { at: before.at + 1, adopted: before.adopted + 1, ..before },
        );
    }
}

/// In every adoption from its beginning, a process is taken under supervision only where it was
/// answered to be there, and it is held with what was answered for that same record: its run
/// identity is made of the time and the nonce given for it, its usage is read from the length on
/// that its output log was measured to have, and its metering source is the one found for
/// it.
#[verifier::spinoff_prover]
pub proof fn law_an_orphan_is_held_with_what_was_answered(
    records: Seq<OrphanModel>,
    answers: Seq<AdoptEventModel>,
    held: SupervisorModel,
    i: int,
)
    requires
        adopt_answered(records, answers),
        0 <= i < answers.len(),
        adopt_effect(held, adopt_at(records, answers, i), answers[i]) != held,
    ensures
        i >= 3,
        0 <= adopt_at(records, answers, i).at < records.len(),
        adopt_at(records, answers, i - 1).at == adopt_at(records, answers, i).at,
        adopt_at(records, answers, i - 2).at == adopt_at(records, answers, i).at,
        adopt_at(records, answers, i - 3).at == adopt_at(records, answers, i).at,
        answers[i - 3] == AdoptEventModel::Adopted(true),
        adopt_action_at(records, answers, i - 3) is Mint,
        adopt_action_at(records, answers, i - 2) is MeasureLog,
        adopt_action_at(records, answers, i - 1) is ReadSource,
        ({
            let record = records[adopt_at(records, answers, i).at];
            let after = adopt_effect(held, adopt_at(records, answers, i), answers[i]);
            &&& record.pid != 0
            &&& after.running.contains_key(record.name)
            &&& answers[i - 2] matches AdoptEventOf::Minted { nanos, nonce }
                && after.running[record.name].run_id == run_id_text(nanos as nat, nonce as nat)
            &&& answers[i - 1] == AdoptEventModel::LogLength(
                after.running[record.name].usage_cursor,
            )
            &&& answers[i] matches AdoptEventOf::Source(source)
                && after.running[record.name].metering_source == match source {
                Some(found) => found,
                None => "self-reported"@,
            }
        }),
{
    assert(adopt_fits(adopt_at(records, answers, i), answers[i]));
    lemma_adopt_is_in_the_records(records, answers, i);
    lemma_adopt_step_back(records, answers, i);
    lemma_adopt_step_back(records, answers, i - 1);
    lemma_adopt_step_back(records, answers, i - 2);
}

/// An adoption takes the answer to what it asked for and no other: any other answer changes
/// nothing, neither its own state nor what is held, and after its end every answer is such a one.
pub proof fn law_an_adoption_takes_only_its_answer(
    held: SupervisorModel,
    run: AdoptModel,
    event: AdoptEventModel,
    later: AdoptEventModel,
)
    requires
        run.at >= 0,
    ensures
        ({
            let step = adopt_next(run, event);
            &&& step.1 is Misfit <==> !adopt_fits(run, event)
            &&& !adopt_fits(run, event) ==> step.0 == run && adopt_effect(held, run, event) == held
            &&& step.1 is Finish ==> adopt_next(step.0, later).1 is Misfit
        }),
{
    lemma_adopt_seek_goes_on(AdoptModel { at: run.at + 1, ..run });
    lemma_adopt_seek_goes_on(AdoptModel { at: run.at + 1, adopted: run.adopted + 1, ..run });
}

} // verus!
