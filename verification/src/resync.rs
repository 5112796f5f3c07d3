//! Backfilling committed events for a subscriber that missed some.
//!
//! A cursor counts the records of each family that a subscriber has seen. A backfill
//! delivers the rest, family by family, and the cursor to go on from.
use crate::error::{
    registry_to_engine, registry_to_engine_spec, EngineError, EngineErrorModel, EngineErrorOf,
    RegistryError,
};
use crate::event::{BudgetBreachEvent, EngineEvent, TransitionEvent};
use crate::name::InstanceName;
use crate::text::{dec, push_dec};
use crate::usage::{UsageEvent, UsageUpdateEvent, USAGE_SCHEMA_VERSION};
use vstd::prelude::*;

verus! {

/// How many records of each family a subscriber has seen.
#[derive(Clone, Copy, Debug, PartialEq, Eq, Structural)]
pub struct ResyncCursor {
    /// Transitions.
    pub transitions: u64,
    /// Budget breaches.
    pub breaches: u64,
    /// Usage reports.
    pub usage: u64,
}

impl ResyncCursor {
    /// The cursor of a subscriber that has seen nothing.
    pub open spec fn nothing() -> ResyncCursor {
        ResyncCursor { transitions: 0, breaches: 0, usage: 0 }
    }

    /// The cursor of a subscriber that has seen nothing.
    pub fn start() -> (r: Self)
        ensures
            r == Self::nothing(),
    {
        ResyncCursor { transitions: 0, breaches: 0, usage: 0 }
    }
}

impl Default for ResyncCursor {
    fn default() -> (r: Self)
        ensures
            r == ResyncCursor::nothing(),
    {
        ResyncCursor::start()
    }
}

/// A backfill.
#[derive(Debug, PartialEq, Eq)]
pub struct ResyncBatch {
    /// The events, family by family and each family in the order of its records.
    pub events: Vec<EngineEvent>,
    /// Where the next backfill goes on.
    pub cursor: ResyncCursor,
    /// Whether a torn last line of a log was skipped.
    pub torn_tail_skipped: bool,
}

/// The records of a family that come after a cursor.
pub open spec fn pending<T>(records: Seq<T>, after: u64) -> Seq<T> {
    if after >= records.len() {
        Seq::empty()
    } else {
        records.subrange(after as int, records.len() as int)
    }
}

/// Transitions as events.
pub open spec fn transition_events(records: Seq<TransitionEvent>) -> Seq<EngineEvent> {
    records.map(|i: int, e: TransitionEvent| EngineEvent::Transition(e))
}

/// Budget breaches as events.
pub open spec fn breach_events(records: Seq<BudgetBreachEvent>) -> Seq<EngineEvent> {
    records.map(|i: int, e: BudgetBreachEvent| EngineEvent::BudgetBreach(e))
}

/// Usage reports as events, in the current version of the payload.
pub open spec fn usage_events(records: Seq<UsageEvent>) -> Seq<EngineEvent> {
    records.map(
        |i: int, e: UsageEvent|
            EngineEvent::UsageUpdate(
                UsageUpdateEvent { schema_version: USAGE_SCHEMA_VERSION, event: e },
            ),
    )
}

/// The events that come after a cursor, family by family.
pub open spec fn backlog(
    transitions: Seq<TransitionEvent>,
    breaches: Seq<BudgetBreachEvent>,
    usage: Seq<UsageEvent>,
    after: ResyncCursor,
) -> Seq<EngineEvent> {
    transition_events(pending(transitions, after.transitions)) + breach_events(
        pending(breaches, after.breaches),
    ) + usage_events(pending(usage, after.usage))
}

/// Whether a cursor counts exactly these records.
pub open spec fn counts(
    cursor: ResyncCursor,
    transitions: Seq<TransitionEvent>,
    breaches: Seq<BudgetBreachEvent>,
    usage: Seq<UsageEvent>,
) -> bool {
    &&& cursor.transitions == transitions.len()
    &&& cursor.breaches == breaches.len()
    &&& cursor.usage == usage.len()
}

fn first_pending(after: u64, len: usize) -> (r: usize)
    ensures
        r == if after >= len {
            len as int
        } else {
            after as int
        },
{
    if after >= len as u64 {
        len
    } else {
        after as usize
    }
}

/// The backfill of these records for a subscriber at `after`.
pub fn assemble(
    transitions: &[TransitionEvent],
    breaches: &[BudgetBreachEvent],
    usage: &[UsageEvent],
    after: &ResyncCursor,
) -> (r: ResyncBatch)
    ensures
        r.events@ == backlog(transitions@, breaches@, usage@, *after),
        counts(r.cursor, transitions@, breaches@, usage@),
        !r.torn_tail_skipped,
{
    let mut events: Vec<EngineEvent> = Vec::new();
    let ghost first = transition_events(pending(transitions@, after.transitions));
    let ghost second = breach_events(pending(breaches@, after.breaches));
    let ghost third = usage_events(pending(usage@, after.usage));
    let begin: usize = first_pending(after.transitions, transitions.len());
    let mut i: usize = begin;
    while i < transitions.len()
        invariant
            begin <= i <= transitions@.len(),
            begin == if after.transitions >= transitions@.len() {
                transitions@.len() as int
            } else {
                after.transitions as int
            },
            first == transition_events(pending(transitions@, after.transitions)),
            events@ == first.take(i - begin),
        decreases transitions@.len() - i,
    {
        events.push(EngineEvent::Transition(transitions[i].clone()));
        assert(first[i - begin] == events@.last());
        i = i + 1;
        assert(events@ =~= first.take(i - begin));
    }
    assert(events@ =~= first);
    let begin: usize = first_pending(after.breaches, breaches.len());
    let mut i: usize = begin;
    while i < breaches.len()
        invariant
            begin <= i <= breaches@.len(),
            begin == if after.breaches >= breaches@.len() {
                breaches@.len() as int
            } else {
                after.breaches as int
            },
            second == breach_events(pending(breaches@, after.breaches)),
            events@ == first + second.take(i - begin),
        decreases breaches@.len() - i,
    {
        events.push(EngineEvent::BudgetBreach(breaches[i].clone()));
        assert(second[i - begin] == events@.last());
        i = i + 1;
        assert(events@ =~= first + second.take(i - begin));
    }
    assert(events@ =~= first + second);
    let begin: usize = first_pending(after.usage, usage.len());
    let mut i: usize = begin;
    while i < usage.len()
        invariant
            begin <= i <= usage@.len(),
            begin == if after.usage >= usage@.len() {
                usage@.len() as int
            } else {
                after.usage as int
            },
            third == usage_events(pending(usage@, after.usage)),
            events@ == first + second + third.take(i - begin),
        decreases usage@.len() - i,
    {
        events.push(EngineEvent::UsageUpdate(UsageUpdateEvent::new(usage[i].clone())));
        assert(third[i - begin] == events@.last());
        i = i + 1;
        assert(events@ =~= first + second + third.take(i - begin));
    }
    assert(events@ =~= first + second + third);
    ResyncBatch {
        events,
        cursor: ResyncCursor {
            transitions: transitions.len() as u64,
            breaches: breaches.len() as u64,
            usage: usage.len() as u64,
        },
        torn_tail_skipped: false,
    }
}

/// What is said of a cursor that counts more records than there are.
pub open spec fn truncated_text(family: Seq<char>, cursor: u64, committed: int) -> Seq<char> {
    "the resync cursor's "@ + family + " position ("@ + dec(cursor as nat)
        + ") is past this family's committed count ("@ + dec(committed as nat)
        + ") — the record was truncated or rotated away; resyncing would re-deliver or silently skip records, so this fails instead. Reset the cursor to ResyncCursor::START deliberately if a from-zero backfill is intended"@
}

/// What is wrong with a cursor, if it counts more records of a family than there are.
pub open spec fn truncation(
    name: Seq<char>,
    path: Seq<char>,
    family: Seq<char>,
    cursor: u64,
    committed: int,
) -> Option<EngineErrorModel> {
    if cursor > committed {
        Some(
            EngineErrorModel::Log {
                name,
                path,
                detail: truncated_text(family, cursor, committed),
            },
        )
    } else {
        None
    }
}

/// Refuse a cursor that counts more records of a family than there are.
pub fn reject_truncated_family(
    name: &InstanceName,
    path: &str,
    family: &str,
    cursor: u64,
    committed: usize,
) -> (r: Result<(), EngineError>)
    ensures
        match r {
            Ok(_) => truncation(name@, path@, family@, cursor, committed as int) is None,
            Err(e) => truncation(name@, path@, family@, cursor, committed as int) == Some(e@),
        },
{
    if cursor > committed as u64 {
        let mut detail = "the resync cursor's ".to_owned();
        detail.append(family);
        detail.append(" position (");
        push_dec(&mut detail, cursor as u128);
        detail.append(") is past this family's committed count (");
        push_dec(&mut detail, committed as u128);
        detail.append(
            ") — the record was truncated or rotated away; resyncing would re-deliver or silently skip records, so this fails instead. Reset the cursor to ResyncCursor::START deliberately if a from-zero backfill is intended",
        );
        return Err(EngineErrorOf::Log { name: name.to_text(), path: path.to_owned(), detail });
    }
    Ok(())
}

/// What reading one log of an instance gave.
pub struct FamilyRead<T> {
    /// Where the log is.
    pub path: String,
    /// Its records and whether a torn last line was skipped, or why it cannot be
    /// read.
    pub records: Result<(Vec<T>, bool), String>,
}

/// What reading the ledger gave.
pub struct LedgerRead {
    /// Where the ledger is.
    pub path: String,
    /// The rows of the instance, or why they cannot be read.
    pub rows: Result<Vec<UsageEvent>, RegistryError>,
}

/// The backfill of what was read for a subscriber at `after`: the first thing that is
/// wrong, in the order transitions, breaches, ledger, and then the cursors in the same
/// order; and else everything that comes after the cursor.
pub fn read_committed(
    name: &InstanceName,
    after: &ResyncCursor,
    transitions: FamilyRead<TransitionEvent>,
    breaches: FamilyRead<BudgetBreachEvent>,
    ledger: LedgerRead,
) -> (r: Result<ResyncBatch, EngineError>)
    ensures
        transitions.records matches Err(detail) ==> (r matches Err(e) && e@
            == (EngineErrorModel::Log {
            name: name@,
            path: transitions.path@,
            detail: detail@,
        })),
        transitions.records is Ok ==> (breaches.records matches Err(detail) ==> (r matches Err(e)
            && e@ == (EngineErrorModel::Log {
            name: name@,
            path: breaches.path@,
            detail: detail@,
        }))),
        transitions.records is Ok && breaches.records is Ok ==> (ledger.rows matches Err(err) ==> (r
            matches Err(e) && e@ == registry_to_engine_spec(err@))),
        transitions.records is Ok && breaches.records is Ok && ledger.rows is Ok ==> {
            let t = transitions.records->Ok_0;
            let b = breaches.records->Ok_0;
            let u = ledger.rows->Ok_0;
            let first = truncation(
                name@,
                transitions.path@,
                "transition"@,
                after.transitions,
                t.0@.len() as int,
            );
            let second = truncation(
                name@,
                breaches.path@,
                "breach"@,
                after.breaches,
                b.0@.len() as int,
            );
            let third = truncation(
                name@,
                ledger.path@,
                "usage-ledger"@,
                after.usage,
                u@.len() as int,
            );
            match r {
                Err(e) => Some(e@) == (if first is Some {
                    first
                } else if second is Some {
                    second
                } else {
                    third
                }),
                Ok(batch) => {
                    &&& first is None && second is None && third is None
                    &&& batch.events@ == backlog(t.0@, b.0@, u@, *after)
                    &&& counts(batch.cursor, t.0@, b.0@, u@)
                    &&& batch.torn_tail_skipped == (t.1 || b.1)
                },
            }
        },
{
    let (transition_records, transitions_torn) = match transitions.records {
        Ok(read) => read,
        Err(detail) => {
            return Err(
                EngineErrorOf::Log { name: name.to_text(), path: transitions.path, detail },
            );
        },
    };
    let (breach_records, breaches_torn) = match breaches.records {
        Ok(read) => read,
        Err(detail) => {
            return Err(EngineErrorOf::Log { name: name.to_text(), path: breaches.path, detail });
        },
    };
    let usage = match ledger.rows {
        Ok(rows) => rows,
        Err(e) => {
            return Err(registry_to_engine(e));
        },
    };
    match reject_truncated_family(
        name,
        transitions.path.as_str(),
        "transition",
        after.transitions,
        transition_records.len(),
    ) {
        Ok(_) => {},
        Err(e) => {
            return Err(e);
        },
    }
    match reject_truncated_family(
        name,
        breaches.path.as_str(),
        "breach",
        after.breaches,
        breach_records.len(),
    ) {
        Ok(_) => {},
        Err(e) => {
            return Err(e);
        },
    }
    match reject_truncated_family(
        name,
        ledger.path.as_str(),
        "usage-ledger",
        after.usage,
        usage.len(),
    ) {
        Ok(_) => {},
        Err(e) => {
            return Err(e);
        },
    }
    let mut batch = assemble(
        transition_records.as_slice(),
        breach_records.as_slice(),
        usage.as_slice(),
        after,
    );
    batch.torn_tail_skipped = transitions_torn || breaches_torn;
    Ok(batch)
}

/// A subscriber that goes on from the cursor of a backfill is delivered nothing it has
/// seen: where nothing was committed since, the next backfill is empty.
pub proof fn law_resync_never_redelivers(
    transitions: Seq<TransitionEvent>,
    breaches: Seq<BudgetBreachEvent>,
    usage: Seq<UsageEvent>,
    cursor: ResyncCursor,
)
    requires
        counts(cursor, transitions, breaches, usage),
    ensures
        backlog(transitions, breaches, usage, cursor).len() == 0,
{
}

/// A subscriber that has seen nothing is delivered everything, family by family.
pub proof fn law_first_resync_delivers_everything(
    transitions: Seq<TransitionEvent>,
    breaches: Seq<BudgetBreachEvent>,
    usage: Seq<UsageEvent>,
)
    ensures
        backlog(transitions, breaches, usage, ResyncCursor::nothing()) == transition_events(
            transitions,
        ) + breach_events(breaches) + usage_events(usage),
{
    assert(pending(transitions, 0) =~= transitions);
    assert(pending(breaches, 0) =~= breaches);
    assert(pending(usage, 0) =~= usage);
}

/// Nothing is delivered twice and nothing is lost while a family grows: what one
/// backfill delivers of it, and the next one from the first one's cursor, is what a
/// single backfill would have delivered.
pub proof fn law_resyncs_add_up<T>(records: Seq<T>, grown: Seq<T>, after: u64)
    requires
        after <= records.len() <= grown.len() <= u64::MAX,
        records == grown.subrange(0, records.len() as int),
    ensures
        pending(records, after) + pending(grown, records.len() as u64) == pending(grown, after),
{
    assert(pending(records, after) + pending(grown, records.len() as u64) =~= pending(
        grown,
        after,
    ));
}

/// A backfill delivers, of each family, the records after the cursor, each once and as it is, in
/// their order: first the transitions, then the breaches, then the usage reports.
pub proof fn law_a_backfill_delivers_each_record(
    transitions: Seq<TransitionEvent>,
    breaches: Seq<BudgetBreachEvent>,
    usage: Seq<UsageEvent>,
    after: ResyncCursor,
    i: int,
)
    requires
        after.transitions <= transitions.len(),
        after.breaches <= breaches.len(),
        after.usage <= usage.len(),
    ensures
        ({
            let events = backlog(transitions, breaches, usage, after);
            let t = transitions.len() - after.transitions;
            let b = breaches.len() - after.breaches;
            let u = usage.len() - after.usage;
            &&& events.len() == t + b + u
            &&& 0 <= i < t ==> events[i] == EngineEvent::Transition(
                transitions[after.transitions + i],
            )
            &&& t <= i < t + b ==> events[i] == EngineEvent::BudgetBreach(
                breaches[after.breaches + i - t],
            )
            &&& t + b <= i < t + b + u ==> events[i] == EngineEvent::UsageUpdate(
                UsageUpdateEvent {
                    schema_version: USAGE_SCHEMA_VERSION,
                    event: usage[after.usage + i - t - b],
                },
            )
        }),
{
}

/// A cursor is refused exactly where it counts more records of a family than there are; one that
/// counts them all is not.
pub proof fn law_only_a_cursor_past_the_end_is_refused(
    name: Seq<char>,
    path: Seq<char>,
    family: Seq<char>,
    cursor: u64,
    committed: int,
)
    ensures
        truncation(name, path, family, cursor, committed) is Some <==> cursor > committed,
        truncation(name, path, family, cursor, committed) matches Some(e) ==> (e matches
            EngineErrorOf::Log { name: told, path: whose, .. } && told == name && whose == path),
{
}

} // verus!
