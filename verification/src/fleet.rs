//! The fleet over a sequence of calls: what registrations and removals leave in the store, and
//! so what is listed.
//!
//! The store keeps one row per name and lists its rows by name. Everything else that is said
//! here of the rows follows from what the runs ask of the store.
use crate::effective::{lemma_text_order, text_before};
use crate::error::RegistryErrorOf;
use crate::instance::AgentInstanceModel;
use crate::register::{
    law_a_failed_registration_leaves_no_row, law_a_registration_is_complete, lemma_register_phase,
    new_row, register_action_at, register_answered, register_at, register_fits, row_is_stored,
    RegisterActionModel, RegisterEventModel, RegisterPhaseModel,
};
use crate::remove::{
    remove_next, RemoveActionModel, RemoveDisposition, RemoveEventModel, RemoveModel, RemovePhase,
};
use std::path::PathBuf;
use vstd::prelude::*;

verus! {

/// The rows of the store, by name.
pub type Rows = Map<Seq<char>, AgentInstanceModel>;

/// Whether every row stands under its own name.
pub open spec fn rows_by_name(rows: Rows) -> bool {
    forall|name: Seq<char>| #[trigger] rows.contains_key(name) ==> rows[name].name == name
}

/// Whether a list is that of the store's rows: every row once, by name.
pub open spec fn lists(rows: Rows, listed: Seq<AgentInstanceModel>) -> bool {
    &&& forall|i: int, j: int|
        0 <= i < j < listed.len() ==> text_before(
            (#[trigger] listed[i]).name,
            (#[trigger] listed[j]).name,
        )
    &&& forall|instance: AgentInstanceModel| #[trigger]
        listed.contains(instance) <==> rows.contains_key(instance.name) && rows[instance.name]
            == instance
}

/// A call that has ended, with the answers it was given.
pub enum CallModel {
    /// A registration, with any kind of adapter.
    Register {
        /// The instance.
        name: Seq<char>,
        /// The answers.
        answers: Seq<RegisterEventModel>,
    },
    /// A removal.
    Remove {
        /// The instance.
        name: Seq<char>,
        /// What becomes of its home.
        disposition: RemoveDisposition,
        /// Whether it is removed in any state.
        force: bool,
        /// The answers.
        answers: Seq<RemoveEventModel>,
    },
    /// The setting of a key of an instance's config, which asks nothing of the store but to
    /// look a row up.
    SetConfig,
}

/// A removal at its beginning.
pub open spec fn remove_begin(name: Seq<char>, disposition: RemoveDisposition, force: bool) -> RemoveModel {
    RemoveModel { name, disposition, force, phase: RemovePhase::Row }
}

/// A removal after some answers.
pub open spec fn remove_at(
    base: PathBuf,
    run: RemoveModel,
    answers: Seq<RemoveEventModel>,
    n: int,
) -> RemoveModel
    decreases n,
{
    if n <= 0 {
        run
    } else {
        remove_next(base, remove_at(base, run, answers, n - 1), answers[n - 1]).0
    }
}

/// What a removal asks for on an answer.
pub open spec fn remove_action_at(
    base: PathBuf,
    run: RemoveModel,
    answers: Seq<RemoveEventModel>,
    i: int,
) -> RemoveActionModel {
    remove_next(base, remove_at(base, run, answers, i), answers[i]).1
}

/// Whether every answer is one to what the removal asked for.
pub open spec fn remove_answered(
    base: PathBuf,
    run: RemoveModel,
    answers: Seq<RemoveEventModel>,
) -> bool {
    forall|i: int|
        0 <= i < answers.len() ==> !(remove_next(
            base,
            remove_at(base, run, answers, i),
            #[trigger] answers[i],
        ).1 is Misfit)
}

/// The rows after some answers to a registration: the row that was handed to the store is
/// there once the store took it, and gone once the store took it back.
pub open spec fn register_rows(
    base: PathBuf,
    rows: Rows,
    name: Seq<char>,
    answers: Seq<RegisterEventModel>,
    n: int,
) -> Rows
    decreases n,
{
    if n <= 0 {
        rows
    } else {
        let before = register_rows(base, rows, name, answers, n - 1);
        match (register_at(base, name, answers, n - 1).phase, answers[n - 1]) {
            (RegisterPhaseModel::Row { instance, .. }, RegisterEventModel::Row(Ok(_))) => {
                before.insert(instance.name, instance)
            },
            (RegisterPhaseModel::Rollback { .. }, RegisterEventModel::RolledBack(Ok(_))) => {
                before.remove(name)
            },
            _ => before,
        }
    }
}

/// The rows after some answers to a removal: the row is gone once the store deleted it.
pub open spec fn remove_rows(
    base: PathBuf,
    rows: Rows,
    run: RemoveModel,
    answers: Seq<RemoveEventModel>,
    n: int,
) -> Rows
    decreases n,
{
    if n <= 0 {
        rows
    } else {
        let before = remove_rows(base, rows, run, answers, n - 1);
        match (remove_at(base, run, answers, n - 1).phase, answers[n - 1]) {
            (RemovePhase::Delete, RemoveEventModel::Deleted(Ok(_))) => before.remove(run.name),
            _ => before,
        }
    }
}

/// The rows after a call.
pub open spec fn call_rows(base: PathBuf, rows: Rows, call: CallModel) -> Rows {
    match call {
        CallModel::Register { name, answers } => register_rows(
            base,
            rows,
            name,
            answers,
            answers.len() as int,
        ),
        CallModel::Remove { name, disposition, force, answers } => remove_rows(
            base,
            rows,
            remove_begin(name, disposition, force),
            answers,
            answers.len() as int,
        ),
        CallModel::SetConfig => rows,
    }
}

/// The rows after the first `n` of some calls.
pub open spec fn rows_at(base: PathBuf, rows: Rows, calls: Seq<CallModel>, n: int) -> Rows
    decreases n,
{
    if n <= 0 {
        rows
    } else {
        call_rows(base, rows_at(base, rows, calls, n - 1), calls[n - 1])
    }
}

/// Whether a call went to its end over a store with some rows: it was answered what it asked,
/// and the store took a new row only under a name that it had no row for.
pub open spec fn call_ran(base: PathBuf, rows: Rows, call: CallModel) -> bool {
    match call {
        CallModel::Register { name, answers } => {
            &&& answers.len() > 0
            &&& register_answered(base, name, answers)
            &&& register_action_at(base, name, answers, answers.len() - 1) is Finish
            &&& rows.contains_key(name) ==> forall|i: int|
                0 <= i < answers.len() ==> !((#[trigger] answers[i]) matches RegisterEventModel::Row(
                    Ok(_),
                ))
        },
        CallModel::Remove { name, disposition, force, answers } => {
            let run = remove_begin(name, disposition, force);
            &&& answers.len() > 0
            &&& remove_answered(base, run, answers)
            &&& remove_action_at(base, run, answers, answers.len() - 1) is Finish
        },
        CallModel::SetConfig => true,
    }
}

/// Whether some calls went to their ends, one after the other.
pub open spec fn calls_ran(base: PathBuf, rows: Rows, calls: Seq<CallModel>) -> bool {
    forall|i: int|
        0 <= i < calls.len() ==> call_ran(base, rows_at(base, rows, calls, i), #[trigger] calls[i])
}

/// The instance that a call added to the fleet: that of a registration that succeeded, and that
/// of one that failed and says that its row could not be taken back.
#[verifier::opaque]
pub open spec fn added_by(base: PathBuf, call: CallModel) -> Option<AgentInstanceModel> {
    match call {
        CallModel::Register { name, answers } => match register_action_at(
            base,
            name,
            answers,
            answers.len() - 1,
        ) {
            RegisterActionModel::Finish(Ok(instance)) => Some(instance),
            RegisterActionModel::Finish(
                Err(RegistryErrorOf::RegisterOrphanRow { .. }),
            ) if answers.len() > 1 => match answers[0] {
                RegisterEventModel::Adapter(Ok((adapter, now))) => Some(
                    new_row(base, name, adapter.kind, now),
                ),
                _ => None,
            },
            _ => None,
        },
        _ => None,
    }
}

/// The name that a call took out of the fleet: that of a removal that succeeded, and that of
/// one that failed and says that only the home is left.
#[verifier::opaque]
pub open spec fn removed_by(base: PathBuf, call: CallModel) -> Option<Seq<char>> {
    match call {
        CallModel::Remove { name, disposition, force, answers } => match remove_action_at(
            base,
            remove_begin(name, disposition, force),
            answers,
            answers.len() - 1,
        ) {
            RemoveActionModel::Finish(Ok(_)) => Some(name),
            RemoveActionModel::Finish(Err(RegistryErrorOf::RemoveLeftoverHome { .. })) => Some(name),
            _ => None,
        },
        _ => None,
    }
}

/// The rows after a call, by its outcome.
pub open spec fn outcome_rows(base: PathBuf, rows: Rows, call: CallModel) -> Rows {
    match (added_by(base, call), removed_by(base, call)) {
        (Some(instance), _) => rows.insert(instance.name, instance),
        (None, Some(name)) => rows.remove(name),
        (None, None) => rows,
    }
}

proof fn lemma_register_rows(
    base: PathBuf,
    rows: Rows,
    name: Seq<char>,
    answers: Seq<RegisterEventModel>,
    n: int,
)
    requires
        register_answered(base, name, answers),
        0 <= n <= answers.len(),
        rows.contains_key(name) ==> forall|i: int|
            0 <= i < answers.len() ==> !((#[trigger] answers[i]) matches RegisterEventModel::Row(
                Ok(_),
            )),
    ensures
        row_is_stored(answers, n) ==> !rows.contains_key(name) && (
        answers[0] matches RegisterEventModel::Adapter(Ok((adapter, now))) && register_rows(
            base,
            rows,
            name,
            answers,
            n,
        ) == rows.insert(name, new_row(base, name, adapter.kind, now))),
        !row_is_stored(answers, n) ==> register_rows(base, rows, name, answers, n) == rows,
    decreases n,
{
    if n > 0 {
        lemma_register_rows(base, rows, name, answers, n - 1);
        lemma_register_phase(base, name, answers, n - 1);
        let run = register_at(base, name, answers, n - 1);
        let event = answers[n - 1];
        assert(register_fits(run, event));
        if run.phase is Rollback && (event matches RegisterEventModel::RolledBack(Ok(_))) {
            assert(rows.insert(name, register_rows(base, rows, name, answers, n - 1)[name]).remove(
                name,
            ) =~= rows);
            assert(register_rows(base, rows, name, answers, n) =~= rows);
        }
    }
}

proof fn lemma_remove_rows(
    base: PathBuf,
    rows: Rows,
    run: RemoveModel,
    answers: Seq<RemoveEventModel>,
    n: int,
)
    requires
        run.phase == RemovePhase::Row,
        remove_answered(base, run, answers),
        0 <= n <= answers.len(),
    ensures
        ({
            let now = remove_at(base, run, answers, n);
            let left = remove_rows(base, rows, run, answers, n);
            &&& now.name == run.name
            &&& match now.phase {
                RemovePhase::Row => n == 0 && left == rows,
                RemovePhase::Delete => left == rows,
                RemovePhase::Home => left == rows.remove(run.name),
                RemovePhase::Done => {
                    &&& n > 0
                    &&& match remove_action_at(base, run, answers, n - 1) {
                        RemoveActionModel::Finish(Ok(_)) => left == rows.remove(run.name),
                        RemoveActionModel::Finish(
                            Err(RegistryErrorOf::RemoveLeftoverHome { .. }),
                        ) => left == rows.remove(run.name),
                        RemoveActionModel::Finish(Err(_)) => left == rows,
                        _ => false,
                    }
                },
            }
        }),
    decreases n,
{
    if n > 0 {
        lemma_remove_rows(base, rows, run, answers, n - 1);
        let event = answers[n - 1];
        assert(!(remove_next(base, remove_at(base, run, answers, n - 1), event).1 is Misfit));
        assert(remove_action_at(base, run, answers, n - 1) == remove_next(
            base,
            remove_at(base, run, answers, n - 1),
            event,
        ).1);
    }
}

/// What a call does to the rows is told by its outcome: a registration that succeeds adds its
/// row under a name that had none, one that fails adds nothing unless it says so, a removal
/// takes one row away or none, and setting a key changes no row.
pub proof fn law_the_outcome_tells_the_rows(base: PathBuf, rows: Rows, call: CallModel)
    requires
        call_ran(base, rows, call),
    ensures
        call_rows(base, rows, call) == outcome_rows(base, rows, call),
        added_by(base, call) matches Some(instance) ==> !rows.contains_key(instance.name)
            && removed_by(base, call) is None,
{
    reveal(added_by);
    reveal(removed_by);
    match call {
        CallModel::Register { name, answers } => {
            let n = answers.len() as int;
            lemma_register_rows(base, rows, name, answers, n);
            match register_action_at(base, name, answers, n - 1) {
                RegisterActionModel::Finish(Ok(instance)) => {
                    law_a_registration_is_complete(base, name, answers, n - 1, instance);
                    assert(row_is_stored(answers, n));
                },
                RegisterActionModel::Finish(Err(e)) => {
                    law_a_failed_registration_leaves_no_row(base, name, answers, n - 1, e);
                    assert(n == 1 ==> !row_is_stored(answers, n)) by {
                        assert(row_is_stored(answers, 0) == false);
                        lemma_register_phase(base, name, answers, 0);
                        assert(register_fits(register_at(base, name, answers, 0), answers[0]));
                    }
                },
                _ => {},
            }
        },
        CallModel::Remove { name, disposition, force, answers } => {
            let run = remove_begin(name, disposition, force);
            let n = answers.len() as int;
            lemma_remove_rows(base, rows, run, answers, n);
            lemma_remove_rows(base, rows, run, answers, n - 1);
            assert(remove_at(base, run, answers, n).phase == RemovePhase::Done);
        },
        CallModel::SetConfig => {},
    }
}

/// Whether an instance is in the fleet after the first `n` of some calls: a call added it, or it
/// was there before them all, and no call since took its name out.
pub open spec fn in_fleet(
    base: PathBuf,
    rows: Rows,
    calls: Seq<CallModel>,
    n: int,
    instance: AgentInstanceModel,
) -> bool {
    ||| exists|i: int|
        0 <= i < n && added_by(base, #[trigger] calls[i]) == Some(instance) && stays(
            base,
            calls,
            i + 1,
            n,
            instance.name,
        )
    ||| rows.contains_key(instance.name) && rows[instance.name] == instance && stays(
        base,
        calls,
        0,
        n,
        instance.name,
    )
}

/// Whether none of the calls from one on and before another took a name out.
pub open spec fn stays(
    base: PathBuf,
    calls: Seq<CallModel>,
    from: int,
    to: int,
    name: Seq<char>,
) -> bool {
    forall|j: int| from <= j < to ==> removed_by(base, #[trigger] calls[j]) != Some(name)
}

proof fn lemma_fleet_step(
    base: PathBuf,
    rows: Rows,
    calls: Seq<CallModel>,
    n: int,
    instance: AgentInstanceModel,
)
    requires
        0 < n <= calls.len(),
    ensures
        in_fleet(base, rows, calls, n, instance) <==> added_by(base, calls[n - 1]) == Some(instance)
            || (in_fleet(base, rows, calls, n - 1, instance) && removed_by(base, calls[n - 1])
            != Some(instance.name)),
{
    let m = n - 1;
    let name = instance.name;
    assert forall|from: int| 0 <= from <= m implies (#[trigger] stays(base, calls, from, n, name)
        <==> stays(base, calls, from, m, name) && removed_by(base, calls[m]) != Some(name)) by {
        if stays(base, calls, from, n, name) {
            assert(removed_by(base, calls[m]) != Some(name));
        }
    }
    if in_fleet(base, rows, calls, n, instance) && added_by(base, calls[m]) != Some(instance) {
        if !(rows.contains_key(name) && rows[name] == instance && stays(base, calls, 0, n, name)) {
            let i = choose|i: int|
                0 <= i < n && added_by(base, #[trigger] calls[i]) == Some(instance) && stays(
                    base,
                    calls,
                    i + 1,
                    n,
                    name,
                );
            assert(i < m);
            assert(stays(base, calls, i + 1, m, name));
        }
    }
    if in_fleet(base, rows, calls, m, instance) && removed_by(base, calls[m]) != Some(name) {
        if !(rows.contains_key(name) && rows[name] == instance && stays(base, calls, 0, m, name)) {
            let i = choose|i: int|
                0 <= i < m && added_by(base, #[trigger] calls[i]) == Some(instance) && stays(
                    base,
                    calls,
                    i + 1,
                    m,
                    name,
                );
            assert(stays(base, calls, i + 1, n, name));
        } else {
            assert(stays(base, calls, 0, n, name));
        }
    }
    if added_by(base, calls[m]) == Some(instance) {
        assert(stays(base, calls, m + 1, n, name));
    }
}

proof fn lemma_fleet(
    base: PathBuf,
    rows: Rows,
    calls: Seq<CallModel>,
    n: int,
    instance: AgentInstanceModel,
)
    requires
        rows_by_name(rows),
        calls_ran(base, rows, calls),
        0 <= n <= calls.len(),
    ensures
        rows_by_name(rows_at(base, rows, calls, n)),
        in_fleet(base, rows, calls, n, instance) <==> rows_at(base, rows, calls, n).contains_key(
            instance.name,
        ) && rows_at(base, rows, calls, n)[instance.name] == instance,
    decreases n,
{
    if n > 0 {
        let before = rows_at(base, rows, calls, n - 1);
        let call = calls[n - 1];
        lemma_fleet(base, rows, calls, n - 1, instance);
        lemma_fleet_step(base, rows, calls, n, instance);
        assert(call_ran(base, before, call));
        law_the_outcome_tells_the_rows(base, before, call);
        assert(rows_at(base, rows, calls, n) == outcome_rows(base, before, call));
    } else {
        assert(stays(base, calls, 0, 0, instance.name));
    }
}

/// Over any sequence of registrations, removals and settings of keys, what is listed is in the
/// order of names, each name once, and is exactly what was registered and not removed since.
pub proof fn law_the_list_is_the_fleet(
    base: PathBuf,
    rows: Rows,
    calls: Seq<CallModel>,
    listed: Seq<AgentInstanceModel>,
)
    requires
        rows_by_name(rows),
        calls_ran(base, rows, calls),
        lists(rows_at(base, rows, calls, calls.len() as int), listed),
    ensures
        forall|i: int, j: int|
            0 <= i < j < listed.len() ==> text_before(
                (#[trigger] listed[i]).name,
                (#[trigger] listed[j]).name,
            ) && listed[i].name != listed[j].name,
        forall|instance: AgentInstanceModel| #[trigger]
            listed.contains(instance) <==> in_fleet(
                base,
                rows,
                calls,
                calls.len() as int,
                instance,
            ),
{
    assert forall|i: int, j: int| 0 <= i < j < listed.len() implies text_before(
        (#[trigger] listed[i]).name,
        (#[trigger] listed[j]).name,
    ) && listed[i].name != listed[j].name by {
        lemma_text_order(listed[i].name, listed[j].name);
    }
    assert forall|instance: AgentInstanceModel| #[trigger]
        listed.contains(instance) <==> in_fleet(
        base,
        rows,
        calls,
        calls.len() as int,
        instance,
    ) by {
        lemma_fleet(base, rows, calls, calls.len() as int, instance);
    }
}

/// The rows fix the list: where nothing was called in between, a later list is the same.
pub proof fn law_the_rows_fix_the_list(
    rows: Rows,
    listed: Seq<AgentInstanceModel>,
    again: Seq<AgentInstanceModel>,
)
    requires
        lists(rows, listed),
        lists(rows, again),
    ensures
        listed == again,
    decreases listed.len(),
{
    if listed.len() == 0 {
        if again.len() > 0 {
            assert(again.contains(again[0]));
            assert(listed.contains(again[0]));
        }
        assert(listed =~= again);
    } else {
        let last = listed.last();
        assert(listed.contains(last));
        assert(again.contains(last));
        let end = again.last();
        assert(again.contains(end));
        assert(listed.contains(end));
        let i = choose|i: int| 0 <= i < listed.len() && listed[i] == end;
        let j = choose|j: int| 0 <= j < again.len() && again[j] == last;
        lemma_text_order(last.name, end.name);
        if i < listed.len() - 1 {
            assert(text_before(listed[i].name, listed[listed.len() - 1].name));
        }
        if j < again.len() - 1 {
            assert(text_before(again[j].name, again[again.len() - 1].name));
        }
        assert(last == end);
        lemma_lists_without_the_last(rows, listed);
        lemma_lists_without_the_last(rows, again);
        law_the_rows_fix_the_list(rows.remove(last.name), listed.drop_last(), again.drop_last());
        assert(listed =~= listed.drop_last().push(last));
        assert(again =~= again.drop_last().push(last));
    }
}

proof fn lemma_lists_without_the_last(rows: Rows, listed: Seq<AgentInstanceModel>)
    requires
        lists(rows, listed),
        listed.len() > 0,
    ensures
        lists(rows.remove(listed.last().name), listed.drop_last()),
{
    let last = listed.last();
    let shorter = listed.drop_last();
    let fewer = rows.remove(last.name);
    assert forall|i: int, j: int| 0 <= i < j < shorter.len() implies text_before(
        (#[trigger] shorter[i]).name,
        (#[trigger] shorter[j]).name,
    ) by {
        assert(text_before(listed[i].name, listed[j].name));
    }
    assert forall|instance: AgentInstanceModel| #[trigger]
        shorter.contains(instance) <==> fewer.contains_key(instance.name) && fewer[instance.name]
        == instance by {
        if shorter.contains(instance) {
            let i = choose|i: int| 0 <= i < shorter.len() && shorter[i] == instance;
            assert(listed[i] == instance);
            assert(listed.contains(instance));
            assert(text_before(listed[i].name, listed[listed.len() - 1].name));
            lemma_text_order(instance.name, last.name);
        }
        if fewer.contains_key(instance.name) && fewer[instance.name] == instance {
            assert(listed.contains(instance));
            let i = choose|i: int| 0 <= i < listed.len() && listed[i] == instance;
            if i == listed.len() - 1 {
                assert(instance.name == last.name);
            }
            assert(shorter[i] == instance);
        }
    }
}

} // verus!
