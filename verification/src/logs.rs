//! The logs of an instance: what is written to them, and what is read out of them.
//!
//! Reading a file and parsing a line are the caller's; it hands the outcome back here.
use crate::drain::{consumed, next_cursor, plan_follow, DrainMode, FollowPlan};
use crate::error::{
    registry_to_engine, registry_to_engine_spec, EngineError, EngineErrorModel, EngineErrorOf,
    RegistryError, StoreError, StoreErrorModel,
};
use crate::event::{
    engine_transition_line_text, transition_line, BudgetBreachEvent, LogLine, LogStream,
    TransitionCause, TransitionEvent, EVENT_SCHEMA_VERSION, LOG_SCHEMA_VERSION,
};
use crate::instance::{AgentInstance, AgentInstanceModel};
use crate::jsonl::{
    line_models, lines_of, log_lines, numbered, numbered_models, read_json_lines, strict_read,
    NumberedLine, ParsedLine,
};
use crate::lifecycle::LifecycleState;
use crate::name::{name_fault, InstanceName};
use crate::paths::{
    home_path, joined, path_text, text_of_path, BREACH_LOG_FILE, INSTANCE_LOG_FILE, LOGS_DIR,
};
use crate::registry::{found_model, Registry};
use crate::supervisor::Supervisor;
use std::path::PathBuf;
use vstd::prelude::*;
use vstd::slice::slice_subrange;
use vstd::utf8::{decode_utf8, valid_utf8};

verus! {

/// What the instance log is called in failures.
pub const INSTANCE_LOG: &'static str = "instance-log";

/// What the breach log is called in failures.
pub const BREACH_LOG: &'static str = "breach-log";

/// What the output log is called in failures.
pub const OUTPUT_LOG: &'static str = "output-log";

/// What some bytes read as text, what is no UTF-8 in them replaced.
pub uninterp spec fn utf8_text(bytes: Seq<u8>) -> Seq<char>;

/// `String::from_utf8_lossy`. Claimed: the text depends on the bytes alone, and bytes that are
/// UTF-8 give the characters they encode.
#[verifier::external_body]
fn text_of_bytes(bytes: &[u8]) -> (r: String)
    ensures
        r@ == utf8_text(bytes@),
        valid_utf8(bytes@) ==> r@ == decode_utf8(bytes@),
{
    String::from_utf8_lossy(bytes).into_owned()
}

/// The text of a part of a log.
pub fn block_text(bytes: &[u8], start: usize, end: usize) -> (r: String)
    requires
        start <= end <= bytes@.len(),
    ensures
        r@ == utf8_text(bytes@.subrange(start as int, end as int)),
        valid_utf8(bytes@.subrange(start as int, end as int)) ==> r@ == decode_utf8(
            bytes@.subrange(start as int, end as int),
        ),
{
    text_of_bytes(slice_subrange(bytes, start, end))
}

/// What reading a log gave.
pub enum LogRead<T> {
    /// There is no such file.
    Missing,
    /// It could not be read, and why.
    Failed(String),
    /// Its lines.
    Lines(Vec<ParsedLine<T>>),
}

/// The records of a log, in their order: none where there is no such file, and a failure
/// where it cannot be read or a line does not parse.
pub open spec fn log_records<T>(what: Seq<char>, read: LogRead<T>) -> Result<Seq<T>, Seq<char>> {
    match read {
        LogRead::Missing => Ok(Seq::empty()),
        LogRead::Failed(why) => Err(why@),
        LogRead::Lines(lines) => strict_read(what, line_models(lines@)),
    }
}

fn read_log<T>(what: &str, read: LogRead<T>) -> (r: Result<Vec<T>, String>)
    ensures
        match r {
            Ok(records) => log_records(what@, read) == Ok::<Seq<T>, Seq<char>>(records@),
            Err(why) => log_records(what@, read) == Err::<Seq<T>, Seq<char>>(why@),
        },
{
    match read {
        LogRead::Missing => {
            let none: Vec<T> = Vec::new();
            assert(none@ =~= Seq::empty());
            Ok(none)
        },
        LogRead::Failed(why) => Err(why),
        LogRead::Lines(lines) => read_json_lines(what, lines),
    }
}

/// A change of state that is to be logged.
pub struct TransitionEntry {
    /// The log.
    pub path: PathBuf,
    /// The change.
    pub event: TransitionEvent,
}

/// The log of an instance's transitions.
pub open spec fn instance_log(base: PathBuf, name: Seq<char>) -> PathBuf {
    joined(joined(home_path(base, name), LOGS_DIR@), INSTANCE_LOG_FILE@)
}

/// The log of an instance's budget breaches.
pub open spec fn breach_log(base: PathBuf, name: Seq<char>) -> PathBuf {
    joined(joined(home_path(base, name), LOGS_DIR@), BREACH_LOG_FILE@)
}

/// The failure of one of an instance's logs.
pub open spec fn log_failure(name: Seq<char>, path: Seq<char>, detail: Seq<char>) -> EngineErrorModel {
    EngineErrorOf::Log { name, path, detail }
}

/// What is wrong with asking for something of an instance, if anything.
pub open spec fn unknown_instance(
    name: Seq<char>,
    found: Result<Option<AgentInstanceModel>, StoreErrorModel>,
) -> Option<EngineErrorModel> {
    match name_fault(name) {
        Some(reason) => Some(EngineErrorOf::InvalidName { name, reason }),
        None => match found {
            Ok(Some(_)) => None,
            Ok(None) => Some(EngineErrorOf::NotFound { name }),
            Err(e) => Some(EngineErrorOf::Store(e)),
        },
    }
}

/// The name of an instance that has to be registered. `found` is what the store holds for
/// the name; where the text is no name, it is not looked at.
pub fn known_instance(name: &str, found: Result<Option<AgentInstance>, StoreError>) -> (r: Result<
    InstanceName,
    EngineError,
>)
    ensures
        match r {
            Ok(instance) => instance@ == name@ && unknown_instance(name@, found_model(found))
                is None,
            Err(e) => unknown_instance(name@, found_model(found)) == Some(e@),
        },
{
    match InstanceName::new(name) {
        Err(reason) => Err(EngineErrorOf::InvalidName { name: name.to_owned(), reason }),
        Ok(instance) => match found {
            Ok(Some(_)) => Ok(instance),
            Ok(None) => Err(EngineErrorOf::NotFound { name: name.to_owned() }),
            Err(e) => Err(EngineErrorOf::Store(e)),
        },
    }
}

impl Registry {
    /// Whether the logs of an instance can be written, now that their directory was to be
    /// made.
    pub fn ensure_log_dir(&self, name: &InstanceName, made: Result<(), String>) -> (r: Result<
        (),
        EngineError,
    >)
        ensures
            match made {
                Ok(_) => r is Ok,
                Err(why) => r matches Err(e) && e@ == log_failure(
                    name@,
                    path_text(joined(home_path(self.base(), name@), LOGS_DIR@)),
                    why@,
                ),
            },
    {
        match made {
            Ok(_) => Ok(()),
            Err(detail) => Err(
                EngineErrorOf::Log {
                    name: name.to_text(),
                    path: text_of_path(&self.instance_log_dir(name)),
                    detail,
                },
            ),
        }
    }

    /// What is to be logged of a change of state, now that the new state was to be stored.
    /// A change that was not stored is not logged.
    pub fn transition_stored(
        &self,
        name: &InstanceName,
        prior: LifecycleState,
        new: LifecycleState,
        cause: TransitionCause,
        stored: Result<(), RegistryError>,
        at: String,
    ) -> (r: Result<TransitionEntry, EngineError>)
        ensures
            match stored {
                Ok(_) => {
                    &&& r matches Ok(entry)
                    &&& entry.path == instance_log(self.base(), name@)
                    &&& entry.event.schema_version == EVENT_SCHEMA_VERSION
                    &&& entry.event.instance@ == name@
                    &&& entry.event.prior_state == prior
                    &&& entry.event.new_state == new
                    &&& entry.event.cause == cause
                    &&& entry.event.at == at
                },
                Err(e) => r matches Err(failure) && failure@ == registry_to_engine_spec(e@),
            },
    {
        match stored {
            Ok(_) => Ok(
                TransitionEntry {
                    path: self.instance_log_path(name),
                    event: TransitionEvent::new(name.to_text(), prior, new, cause, at),
                },
            ),
            Err(e) => Err(registry_to_engine(e)),
        }
    }

    /// What a change of state is announced as, now that it was to be logged: the change,
    /// and the line that goes into the output of the instance where that is captured. A
    /// change that was not logged is not announced.
    pub fn transition_logged(
        &self,
        name: &InstanceName,
        event: TransitionEvent,
        appended: Result<(), String>,
        captured: bool,
    ) -> (r: Result<(TransitionEvent, Option<LogLine>), EngineError>)
        ensures
            match appended {
                Ok(_) => {
                    &&& r matches Ok((announced, line))
                    &&& announced == event
                    &&& match line {
                        Some(line) => {
                            &&& captured
                            &&& line.schema_version == LOG_SCHEMA_VERSION
                            &&& line.instance@ == name@
                            &&& line.stream == LogStream::Engine
                            &&& line.text@ == transition_line(
                                event.prior_state,
                                event.new_state,
                                event.cause@,
                            )
                            &&& line.at@ == event.at@
                        },
                        None => !captured,
                    }
                },
                Err(why) => r matches Err(e) && e@ == log_failure(
                    name@,
                    path_text(instance_log(self.base(), name@)),
                    why@,
                ),
            },
    {
        match appended {
            Ok(_) => {
                if captured {
                    let text = engine_transition_line_text(&event);
                    let at = event.at.clone();
                    let line = LogLine::new(name.to_text(), LogStream::Engine, text, at);
                    Ok((event, Some(line)))
                } else {
                    Ok((event, None))
                }
            },
            Err(detail) => Err(
                EngineErrorOf::Log {
                    name: name.to_text(),
                    path: text_of_path(&self.instance_log_path(name)),
                    detail,
                },
            ),
        }
    }
}

/// What is said where the directory of the breach log cannot be made.
pub open spec fn breach_dir_note(parent: Seq<char>, why: Seq<char>) -> Seq<char> {
    "could not create the breach-log directory "@ + parent + ": "@ + why
        + " — the breach record may be lost"@
}

/// What is said where a breach cannot be written down.
pub open spec fn breach_lost_note(path: Seq<char>, why: Seq<char>) -> Seq<char> {
    "could not record the budget breach event to "@ + path + ": "@ + why
        + " — the mandated breach record was NOT written"@
}

/// What is said of the writing down of a breach: a note for each part of it that failed.
pub fn persist_breach_event(
    parent: &str,
    made: Result<(), String>,
    path: &str,
    appended: Result<(), String>,
) -> (r: Vec<String>)
    ensures
        ({
            let first = match made {
                Ok(_) => Seq::<Seq<char>>::empty(),
                Err(why) => seq![breach_dir_note(parent@, why@)],
            };
            let second = match appended {
                Ok(_) => Seq::<Seq<char>>::empty(),
                Err(why) => seq![breach_lost_note(path@, why@)],
            };
            crate::dotted::text_models(r@) == first + second
        }),
{
    let mut notes: Vec<String> = Vec::new();
    if let Err(why) = &made {
        let mut note = "could not create the breach-log directory ".to_owned();
        note.append(parent);
        note.append(": ");
        note.append(why.as_str());
        note.append(" — the breach record may be lost");
        notes.push(note);
    }
    if let Err(why) = &appended {
        let mut note = "could not record the budget breach event to ".to_owned();
        note.append(path);
        note.append(": ");
        note.append(why.as_str());
        note.append(" — the mandated breach record was NOT written");
        notes.push(note);
    }
    proof {
        let first = match made {
            Ok(_) => Seq::<Seq<char>>::empty(),
            Err(why) => seq![breach_dir_note(parent@, why@)],
        };
        let second = match appended {
            Ok(_) => Seq::<Seq<char>>::empty(),
            Err(why) => seq![breach_lost_note(path@, why@)],
        };
        assert(crate::dotted::text_models(notes@) =~= first + second);
    }
    notes
}

/// The numbers of the older files of a log that is kept in some number of files, oldest first:
/// the current file has none, and the higher the number the older the file.
pub open spec fn older_numbers(generations: nat) -> Seq<int> {
    Seq::new(
        if generations == 0 {
            0
        } else {
            (generations - 1) as nat
        },
        |i: int| generations - 1 - i,
    )
}

/// The numbers of the older files of a log that is kept in some number of files, oldest first.
pub fn older_generations(generations: u32) -> (r: Vec<u32>)
    ensures
        r@.map(|i: int, number: u32| number as int) == older_numbers(generations as nat),
{
    let mut numbers: Vec<u32> = Vec::new();
    let mut next: u32 = generations;
    while next > 1
        invariant
            next <= generations,
            generations > 0 ==> next > 0,
            numbers@.len() == generations - next,
            forall|i: int| 0 <= i < numbers@.len() ==> #[trigger] numbers@[i] == generations - 1 - i,
        decreases next,
    {
        next = next - 1;
        numbers.push(next);
    }
    assert(numbers@.map(|i: int, number: u32| number as int) =~= older_numbers(generations as nat));
    numbers
}

/// One file of a log that is kept in several.
pub struct LogGeneration {
    /// Its path, as text.
    pub path: String,
    /// What reading it gave.
    pub read: LogRead<LogLine>,
}

/// The lines of some files of a log, oldest file first, or the first failure.
pub open spec fn generation_lines(name: Seq<char>, files: Seq<LogGeneration>) -> Result<
    Seq<LogLine>,
    EngineErrorModel,
>
    decreases files.len(),
{
    if files.len() == 0 {
        Ok(Seq::empty())
    } else {
        match generation_lines(name, files.drop_last()) {
            Err(e) => Err(e),
            Ok(before) => match log_records(OUTPUT_LOG@, files.last().read) {
                Ok(lines) => Ok(before + lines),
                Err(why) => Err(log_failure(name, files.last().path@, why)),
            },
        }
    }
}

proof fn lemma_generation_failure_stays(name: Seq<char>, files: Seq<LogGeneration>, n: int)
    requires
        0 <= n <= files.len(),
        generation_lines(name, files.take(n)) is Err,
    ensures
        generation_lines(name, files) == generation_lines(name, files.take(n)),
    decreases files.len() - n,
{
    if n < files.len() {
        assert(files.take(n + 1).drop_last() =~= files.take(n));
        lemma_generation_failure_stays(name, files, n + 1);
    } else {
        assert(files.take(n) =~= files);
    }
}

/// A part of a followed log that reading gave.
pub enum FollowRead {
    /// There is no such file.
    Missing,
    /// It could not be read, and why.
    Failed(String),
    /// Its new lines, and where reading goes on.
    Lines {
        /// The lines.
        lines: Vec<ParsedLine<LogLine>>,
        /// Where reading goes on.
        new_cursor: u64,
    },
}

/// The new lines of a followed log, and where reading goes on: the complete lines after
/// the cursor, and nothing where the log is shorter than that.
pub fn follow_lines(bytes: &[u8], cursor: u64) -> (r: (Vec<NumberedLine>, u64))
    ensures
        ({
            let part = consumed(bytes@, cursor as int, DrainMode::MidRun);
            numbered_models(r.0@) == if part.len() == 0 {
                Seq::empty()
            } else {
                numbered(lines_of(utf8_text(part)))
            }
        }),
        ({
            let part = consumed(bytes@, cursor as int, DrainMode::MidRun);
            part.len() > 0 && valid_utf8(part) ==> numbered_models(r.0@) == numbered(
                lines_of(decode_utf8(part)),
            )
        }),
        r.1 == next_cursor(bytes@, cursor as int, DrainMode::MidRun),
{
    let none: Vec<NumberedLine> = Vec::new();
    assert(numbered_models(none@) =~= Seq::empty());
    match plan_follow(bytes, cursor) {
        FollowPlan::Shrunk { new_cursor } => (none, new_cursor),
        FollowPlan::Consume { range, new_cursor } => {
            if range.start < range.end {
                let text = block_text(bytes, range.start, range.end);
                (log_lines(text.as_str()), new_cursor)
            } else {
                proof {
                    crate::drain::lemma_complete_len(
                        bytes@.subrange(cursor as int, bytes@.len() as int),
                    );
                }
                (none, new_cursor)
            }
        },
    }
}

impl Supervisor {
    /// The transitions that an instance's log holds.
    pub fn read_events(registry: &Registry, name: &str, read: LogRead<TransitionEvent>) -> (r:
        Result<Vec<TransitionEvent>, EngineError>)
        ensures
            match name_fault(name@) {
                Some(reason) => r matches Err(e) && e@ == (EngineErrorModel::InvalidName {
                    name: name@,
                    reason,
                }),
                None => match log_records(INSTANCE_LOG@, read) {
                    Ok(events) => r matches Ok(got) && got@ == events,
                    Err(why) => r matches Err(e) && e@ == log_failure(
                        name@,
                        path_text(instance_log(registry.base(), name@)),
                        why,
                    ),
                },
            },
    {
        match InstanceName::new(name) {
            Err(reason) => Err(EngineErrorOf::InvalidName { name: name.to_owned(), reason }),
            Ok(instance) => match read_log(INSTANCE_LOG, read) {
                Ok(events) => Ok(events),
                Err(detail) => Err(
                    EngineErrorOf::Log {
                        name: name.to_owned(),
                        path: text_of_path(&registry.instance_log_path(&instance)),
                        detail,
                    },
                ),
            },
        }
    }

    /// The budget breaches that an instance's log holds.
    pub fn read_breach_events(
        registry: &Registry,
        name: &str,
        read: LogRead<BudgetBreachEvent>,
    ) -> (r: Result<Vec<BudgetBreachEvent>, EngineError>)
        ensures
            match name_fault(name@) {
                Some(reason) => r matches Err(e) && e@ == (EngineErrorModel::InvalidName {
                    name: name@,
                    reason,
                }),
                None => match log_records(BREACH_LOG@, read) {
                    Ok(events) => r matches Ok(got) && got@ == events,
                    Err(why) => r matches Err(e) && e@ == log_failure(
                        name@,
                        path_text(breach_log(registry.base(), name@)),
                        why,
                    ),
                },
            },
    {
        match InstanceName::new(name) {
            Err(reason) => Err(EngineErrorOf::InvalidName { name: name.to_owned(), reason }),
            Ok(instance) => match read_log(BREACH_LOG, read) {
                Ok(events) => Ok(events),
                Err(detail) => Err(
                    EngineErrorOf::Log {
                        name: name.to_owned(),
                        path: text_of_path(&registry.instance_breach_log_path(&instance)),
                        detail,
                    },
                ),
            },
        }
    }

    /// The whole output of an instance: the lines of the older files of its log, oldest
    /// file first, then those of the current one; and where following it goes on, which
    /// is the length of the current file in bytes.
    pub fn read_agent_log(
        name: &str,
        found: Result<Option<AgentInstance>, StoreError>,
        older: Vec<LogGeneration>,
        current: LogGeneration,
        current_bytes: u64,
    ) -> (r: Result<(Vec<LogLine>, u64), EngineError>)
        ensures
            match unknown_instance(name@, found_model(found)) {
                Some(failure) => r matches Err(e) && e@ == failure,
                None => match generation_lines(name@, older@.push(current)) {
                    Ok(lines) => r matches Ok((got, cursor)) && got@ == lines && cursor
                        == current_bytes,
                    Err(failure) => r matches Err(e) && e@ == failure,
                },
            },
    {
        if let Err(e) = known_instance(name, found) {
            return Err(e);
        }
        let mut files = older;
        files.push(current);
        let ghost all = files@;
        let mut lines: Vec<LogLine> = Vec::new();
        proof {
            assert(all.take(0) =~= Seq::empty());
            assert(lines@ =~= Seq::empty());
        }
        for file in it: files
            invariant
                it.seq() == all,
                all == older@.push(current),
                unknown_instance(name@, found_model(found)) is None,
                generation_lines(name@, all.take(it.index())) == Ok::<
                    Seq<LogLine>,
                    EngineErrorModel,
                >(lines@),
        {
            let ghost after = all.take(it.index() + 1);
            assert(file == all[it.index()]);
            assert(after.drop_last() =~= all.take(it.index()));
            assert(after.last() == file);
            match read_log(OUTPUT_LOG, file.read) {
                Ok(more) => {
                    let mut more = more;
                    lines.append(&mut more);
                },
                Err(detail) => {
                    let e = EngineErrorOf::Log {
                        name: name.to_owned(),
                        path: file.path,
                        detail,
                    };
                    proof {
                        lemma_generation_failure_stays(name@, all, it.index() + 1);
                    }
                    return Err(e);
                },
            }
        }
        assert(all.take(all.len() as int) =~= all);
        Ok((lines, current_bytes))
    }

    /// What is new in the output of an instance since it was last read.
    pub fn read_agent_log_since(
        name: &str,
        found: Result<Option<AgentInstance>, StoreError>,
        path: &str,
        read: FollowRead,
    ) -> (r: Result<(Vec<LogLine>, u64), EngineError>)
        ensures
            match unknown_instance(name@, found_model(found)) {
                Some(failure) => r matches Err(e) && e@ == failure,
                None => match read {
                    FollowRead::Missing => r matches Ok((got, cursor)) && got@.len() == 0 && cursor
                        == 0,
                    FollowRead::Failed(why) => r matches Err(e) && e@ == log_failure(
                        name@,
                        path@,
                        why@,
                    ),
                    FollowRead::Lines { lines, new_cursor } => match strict_read(
                        OUTPUT_LOG@,
                        line_models(lines@),
                    ) {
                        Ok(records) => r matches Ok((got, cursor)) && got@ == records && cursor
                            == new_cursor,
                        Err(why) => r matches Err(e) && e@ == log_failure(name@, path@, why),
                    },
                },
            },
    {
        if let Err(e) = known_instance(name, found) {
            return Err(e);
        }
        match read {
            FollowRead::Missing => Ok((Vec::new(), 0)),
            FollowRead::Failed(detail) => Err(
                EngineErrorOf::Log { name: name.to_owned(), path: path.to_owned(), detail },
            ),
            FollowRead::Lines { lines, new_cursor } => match read_json_lines(OUTPUT_LOG, lines) {
                Ok(records) => Ok((records, new_cursor)),
                Err(detail) => Err(
                    EngineErrorOf::Log { name: name.to_owned(), path: path.to_owned(), detail },
                ),
            },
        }
    }
}

/// A missing file is an empty log: following it from anywhere gives nothing and starts over.
pub proof fn law_a_missing_log_is_an_empty_one(cursor: int)
    requires
        cursor >= 0,
    ensures
        consumed(Seq::<u8>::empty(), cursor, DrainMode::MidRun).len() == 0,
        next_cursor(Seq::<u8>::empty(), cursor, DrainMode::MidRun) == 0,
{
    if cursor == 0 {
        assert(Seq::<u8>::empty().subrange(0, 0) =~= Seq::empty());
    }
}

/// The output of an instance comes in the order it was written: what an older file holds
/// comes before what a newer one holds, and nothing is left out.
pub proof fn law_output_comes_oldest_first(
    name: Seq<char>,
    older: Seq<LogGeneration>,
    newer: Seq<LogGeneration>,
)
    requires
        generation_lines(name, older + newer) is Ok,
    ensures
        generation_lines(name, older) is Ok,
        generation_lines(name, newer) is Ok,
        generation_lines(name, older + newer)->Ok_0 == generation_lines(name, older)->Ok_0
            + generation_lines(name, newer)->Ok_0,
    decreases newer.len(),
{
    let all = older + newer;
    if newer.len() == 0 {
        assert(all =~= older);
        assert(generation_lines(name, older)->Ok_0 + Seq::<LogLine>::empty()
            =~= generation_lines(name, older)->Ok_0);
    } else {
        assert(all.drop_last() =~= older + newer.drop_last());
        assert(all.last() == newer.last());
        law_output_comes_oldest_first(name, older, newer.drop_last());
        let last = log_records(OUTPUT_LOG@, newer.last().read)->Ok_0;
        assert(generation_lines(name, all)->Ok_0 =~= generation_lines(name, older)->Ok_0 + (
        generation_lines(name, newer.drop_last())->Ok_0 + last));
    }
}

/// The older files of an output log are numbered from one on, the oldest having the highest number,
/// one less than there are files; they are read from the oldest to the newest.
pub proof fn law_older_files_come_oldest_first(generations: nat)
    ensures
        generations <= 1 ==> older_numbers(generations).len() == 0,
        generations >= 1 ==> older_numbers(generations).len() == generations - 1,
        generations >= 2 ==> older_numbers(generations)[0] == generations - 1
            && older_numbers(generations).last() == 1,
        forall|i: int|
            0 <= i && i + 1 < older_numbers(generations).len() ==> #[trigger] older_numbers(
                generations,
            )[i + 1] == older_numbers(generations)[i] - 1,
{
}

/// The first file of an output log that cannot be read fails the reading, and is the one that is
/// named; what comes after it does not matter.
pub proof fn law_the_first_unreadable_file_is_told(
    name: Seq<char>,
    files: Seq<LogGeneration>,
    bad: int,
    why: Seq<char>,
)
    requires
        0 <= bad < files.len(),
        forall|i: int|
            0 <= i < bad ==> log_records(OUTPUT_LOG@, (#[trigger] files[i]).read) is Ok,
        log_records(OUTPUT_LOG@, files[bad].read) == Err::<Seq<LogLine>, Seq<char>>(why),
    ensures
        generation_lines(name, files) == Err::<Seq<LogLine>, EngineErrorModel>(
            EngineErrorOf::Log { name, path: files[bad].path@, detail: why },
        ),
    decreases files.len(),
{
    if bad < files.len() - 1 {
        assert(files.drop_last()[bad] == files[bad]);
        assert forall|i: int| 0 <= i < bad implies log_records(
            OUTPUT_LOG@,
            (#[trigger] files.drop_last()[i]).read,
        ) is Ok by {
            assert(files.drop_last()[i] == files[i]);
        }
        law_the_first_unreadable_file_is_told(name, files.drop_last(), bad, why);
    } else {
        lemma_readable_files_are_read(name, files.drop_last());
    }
}

proof fn lemma_readable_files_are_read(name: Seq<char>, files: Seq<LogGeneration>)
    requires
        forall|i: int|
            0 <= i < files.len() ==> log_records(OUTPUT_LOG@, (#[trigger] files[i]).read) is Ok,
    ensures
        generation_lines(name, files) is Ok,
    decreases files.len(),
{
    if files.len() > 0 {
        assert(log_records(OUTPUT_LOG@, files[files.len() - 1].read) is Ok);
        assert forall|i: int| 0 <= i < files.drop_last().len() implies log_records(
            OUTPUT_LOG@,
            (#[trigger] files.drop_last()[i]).read,
        ) is Ok by {
            assert(files.drop_last()[i] == files[i]);
        }
        lemma_readable_files_are_read(name, files.drop_last());
    }
}

/// An output log all of whose files can be read is read, and one file alone gives its own lines.
pub proof fn law_readable_output_is_read(name: Seq<char>, files: Seq<LogGeneration>)
    requires
        forall|i: int|
            0 <= i < files.len() ==> log_records(OUTPUT_LOG@, (#[trigger] files[i]).read) is Ok,
    ensures
        generation_lines(name, files) is Ok,
        files.len() == 0 ==> generation_lines(name, files)->Ok_0.len() == 0,
        files.len() == 1 ==> generation_lines(name, files)->Ok_0 == log_records(
            OUTPUT_LOG@,
            files[0].read,
        )->Ok_0,
{
    lemma_readable_files_are_read(name, files);
    if files.len() == 1 {
        assert(files.drop_last() =~= Seq::empty());
        assert(generation_lines(name, files.drop_last()) == Ok::<Seq<LogLine>, EngineErrorModel>(
            Seq::empty(),
        ));
        let lines = log_records(OUTPUT_LOG@, files[0].read)->Ok_0;
        assert(Seq::<LogLine>::empty() + lines =~= lines);
    }
}

/// A log that is not there has no records, and one that cannot be read tells why.
pub proof fn law_a_log_is_read_as_it_is<T>(what: Seq<char>, why: String)
    ensures
        log_records::<T>(what, LogRead::Missing) == Ok::<Seq<T>, Seq<char>>(Seq::empty()),
        log_records::<T>(what, LogRead::Failed(why)) == Err::<Seq<T>, Seq<char>>(why@),
{
}

/// An instance is known exactly where its name is one and its row is there; what is wrong is told,
/// the name before the row.
pub proof fn law_an_instance_is_known_by_its_row(
    name: Seq<char>,
    found: Result<Option<AgentInstanceModel>, StoreErrorModel>,
)
    ensures
        unknown_instance(name, found) is None <==> name_fault(name) is None && (found matches Ok(
            Some(_),
        )),
        name_fault(name) matches Some(reason) ==> unknown_instance(name, found) == Some(
            EngineErrorModel::InvalidName { name, reason },
        ),
        name_fault(name) is None && (found matches Ok(None)) ==> unknown_instance(name, found)
            == Some(EngineErrorModel::NotFound { name }),
        name_fault(name) is None ==> (found matches Err(e) ==> unknown_instance(name, found)
            == Some(EngineErrorModel::Store(e))),
{
}

} // verus!
