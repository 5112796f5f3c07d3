//! Backfills.
use ktesio_engine::error::{EngineError, RegistryError, StoreError};
use ktesio_engine::event::{
    BreachAction, BreachScope, BudgetBreachEvent, EngineEvent, TransitionCause, TransitionEvent,
};
use ktesio_engine::jsonl::{
    log_lines, log_text, read_json_lines, read_json_lines_tolerant, LogEnd, ParsedLine, NO_TEXT,
};
use ktesio_engine::lifecycle::LifecycleState;
use ktesio_engine::name::InstanceName;
use ktesio_engine::resync::{
    assemble, read_committed, reject_truncated_family, FamilyRead, LedgerRead, ResyncBatch,
    ResyncCursor,
};
use ktesio_engine::usage::{RunId, UsageEvent, UsageUpdateEvent};

fn transition(seq: usize) -> TransitionEvent {
    TransitionEvent::new(
        "probe".to_string(),
        LifecycleState::Running,
        LifecycleState::Stopped,
        TransitionCause::StopGraceful,
        format!("2026-09-10T00:00:{seq:02}Z"),
    )
}

fn breach(seq: u64) -> BudgetBreachEvent {
    BudgetBreachEvent::new(
        "probe",
        "run-1",
        BreachScope::Cumulative,
        90,
        90 + seq,
        BreachAction::Pause,
        "self-reported",
        format!("2026-09-10T00:00:{seq:02}Z"),
    )
}

fn usage(seq: u64) -> UsageEvent {
    UsageEvent {
        instance: "probe".to_string(),
        run_id: RunId::from_wire("run-1".to_string()),
        input_tokens: 10,
        output_tokens: 20,
        metering_source: "self-reported".to_string(),
        sequence: seq,
        occurred_at: format!("2026-09-10T00:00:{seq:02}Z"),
    }
}

#[test]
fn assemble_wraps_every_family_family_major_and_advances_the_cursor() {
    let transitions: Vec<_> = (0..2).map(transition).collect();
    let breaches: Vec<_> = (0..2).map(breach).collect();
    let usages: Vec<_> = (0..2).map(usage).collect();

    let batch = assemble(&transitions, &breaches, &usages, &ResyncCursor::start());
    assert_eq!(batch.events.len(), 6, "every record converts");
    assert_eq!(batch.events[0], EngineEvent::Transition(transition(0)));
    assert_eq!(batch.events[1], EngineEvent::Transition(transition(1)));
    assert_eq!(batch.events[2], EngineEvent::BudgetBreach(breach(0)));
    assert_eq!(batch.events[3], EngineEvent::BudgetBreach(breach(1)));
    assert_eq!(
        batch.events[4],
        EngineEvent::UsageUpdate(UsageUpdateEvent::new(usage(0)))
    );
    assert_eq!(
        batch.events[5],
        EngineEvent::UsageUpdate(UsageUpdateEvent::new(usage(1)))
    );
    assert_eq!(
        batch.cursor,
        ResyncCursor { transitions: 2, breaches: 2, usage: 2 }
    );
}

#[test]
fn assemble_skips_the_cursor_prefix_per_family() {
    let transitions: Vec<_> = (0..3).map(transition).collect();
    let breaches: Vec<_> = (0..1).map(breach).collect();
    let usages: Vec<_> = (0..2).map(usage).collect();
    let after = ResyncCursor { transitions: 2, breaches: 0, usage: 1 };

    let batch = assemble(&transitions, &breaches, &usages, &after);
    assert_eq!(
        batch.events,
        vec![
            EngineEvent::Transition(transition(2)),
            EngineEvent::BudgetBreach(breach(0)),
            EngineEvent::UsageUpdate(UsageUpdateEvent::new(usage(1))),
        ]
    );
    assert_eq!(batch.cursor.usage, 2);
}

#[test]
fn assemble_clamps_a_cursor_past_the_family_end() {
    let transitions: Vec<_> = (0..1).map(transition).collect();
    let after = ResyncCursor { transitions: 99, breaches: 99, usage: 99 };

    let batch = assemble(&transitions, &[], &[], &after);
    assert!(batch.events.is_empty(), "everything is already consumed");
    assert_eq!(
        batch.cursor,
        ResyncCursor { transitions: 1, breaches: 0, usage: 0 }
    );
}

#[test]
fn assemble_of_nothing_is_an_empty_batch_at_zero() {
    let batch = assemble(&[], &[], &[], &ResyncCursor::start());
    assert_eq!(
        batch,
        ResyncBatch {
            events: Vec::new(),
            cursor: ResyncCursor::start(),
            torn_tail_skipped: false,
        }
    );
}

#[test]
fn two_backfills_deliver_what_one_would() {
    let all: Vec<_> = (0..5).map(transition).collect();
    let first = assemble(&all[..3], &[], &[], &ResyncCursor::default());
    let second = assemble(&all, &[], &[], &first.cursor);
    let whole = assemble(&all, &[], &[], &ResyncCursor::start());
    let mut joined = first.events;
    joined.extend(second.events);
    assert_eq!(joined, whole.events);
    assert_eq!(second.cursor, whole.cursor);
}

/// The lines of a log, each read by `record`.
fn parsed<T>(text: &str, record: fn(&str) -> Result<T, String>) -> Vec<ParsedLine<T>> {
    log_lines(text)
        .into_iter()
        .map(|line| ParsedLine { number: line.number, record: record(&line.text), text: line.text })
        .collect()
}

fn number(text: &str) -> Result<u64, String> {
    text.parse::<u64>().map_err(|e| e.to_string())
}

fn transition_line(seq: usize) -> String {
    format!(
        "{{\"schema_version\":1,\"instance\":\"probe\",\"prior_state\":\"running\",\
         \"new_state\":\"stopped\",\"cause\":{{\"kind\":\"stop_graceful\"}},\
         \"at\":\"2026-09-10T00:00:{seq:02}Z\"}}"
    )
}

fn breach_line(seq: u64) -> String {
    format!("{{\"instance\":\"probe\",\"run_id\":\"run-1\",\"observed\":{}}}", 90 + seq)
}

fn as_transition(text: &str) -> Result<TransitionEvent, String> {
    let value: serde_json::Value = serde_json::from_str(text).map_err(|e| e.to_string())?;
    let at = value["at"].as_str().ok_or("missing field `at`")?;
    let mut event = transition(0);
    event.at = at.to_string();
    Ok(event)
}

fn as_breach(text: &str) -> Result<BudgetBreachEvent, String> {
    let value: serde_json::Value = serde_json::from_str(text).map_err(|e| e.to_string())?;
    let observed = value["observed"].as_u64().ok_or("missing field `observed`")?;
    Ok(breach(observed - 90))
}

fn read_bytes_tolerant(bytes: &[u8]) -> Result<(Vec<TransitionEvent>, bool), String> {
    let log = log_text(bytes)?;
    let lines = parsed(&log.text, as_transition);
    read_json_lines_tolerant("instance-log", lines, log.end)
}

fn read_events_tolerant(text: &str) -> Result<(Vec<TransitionEvent>, bool), String> {
    read_bytes_tolerant(text.as_bytes())
}

#[test]
fn a_log_torn_inside_a_character_reads_as_torn() {
    let good = transition_line(0);
    let mut bytes = format!("{good}\n{{\"detail\":\"exit ").into_bytes();
    bytes.extend_from_slice(b"\xE2\x80");
    assert_eq!(read_bytes_tolerant(&bytes), Ok((vec![transition(0)], true)));
    assert_eq!(read_bytes_tolerant(b"\xE2\x80"), Ok((Vec::new(), true)));
    assert_eq!(log_text(&bytes).unwrap().end, LogEnd::Cut);
    assert_eq!(log_text(&bytes).unwrap().text, format!("{good}\n"));

    bytes.push(b'\n');
    assert_eq!(read_bytes_tolerant(&bytes), Err(NO_TEXT.to_string()), "the line has ended");

    let mut bytes = format!("{good}\n{{\"not\":\"a transition\"}}\n").into_bytes();
    bytes.push(0xE2);
    let err = read_bytes_tolerant(&bytes).unwrap_err();
    assert!(err.contains("corrupt instance-log line 2"), "{err}");
}

#[test]
fn a_log_is_read_as_the_text_it_is() {
    let log = log_text("caf\u{e9}\n".as_bytes()).unwrap();
    assert_eq!((log.text.as_str(), log.end), ("caf\u{e9}\n", LogEnd::Newline));
    let log = log_text("caf\u{e9}".as_bytes()).unwrap();
    assert_eq!((log.text.as_str(), log.end), ("caf\u{e9}", LogEnd::Open));
    assert_eq!(log_text(b"").unwrap().end, LogEnd::Open);
}

#[test]
fn a_strict_read_refuses_a_torn_line() {
    let err = read_json_lines("instance-log", parsed("1\n{\"half", number)).unwrap_err();
    assert!(err.starts_with("corrupt instance-log line 2: "), "{err}");
    assert_eq!(read_json_lines("instance-log", parsed("1\r\n\n2", number)), Ok(vec![1, 2]));
}

#[test]
fn resync_reads_survive_a_torn_trailing_line_and_surface_the_skip() {
    let good = transition_line(0);
    let (events, torn) = read_events_tolerant(&format!("{good}\n{{\"schema_version\":1,\"inst"))
        .expect("torn tail tolerated");
    assert_eq!(events, vec![transition(0)]);
    assert!(torn, "the skipped torn tail is surfaced, never silent");

    let good_breach = breach_line(0);
    let text = format!("{good_breach}\n");
    let (breaches, torn) = read_json_lines_tolerant(
        "breach-log",
        parsed(&text, as_breach),
        log_text(text.as_bytes()).unwrap().end,
    )
    .expect("complete log parses");
    assert_eq!(breaches, vec![breach(0)]);
    assert!(!torn, "a complete log sets no flag");
}

#[test]
fn resync_reads_still_reject_a_malformed_interior_line() {
    let good = transition_line(0);
    let err = read_events_tolerant(&format!("{{\"not\":\"a transition\"}}\n{good}\n")).unwrap_err();
    assert!(err.contains("corrupt instance-log line 1"), "{err}");
}

#[test]
fn an_interior_error_reports_the_physical_line_number_despite_blank_lines() {
    let good = transition_line(0);
    let err = read_events_tolerant(&format!("{good}\n\n{{\"x\":1}}\n{good}\n")).unwrap_err();
    assert!(
        err.contains("corrupt instance-log line 3"),
        "the physical line number is reported (3, not the filtered index 2): {err}"
    );
}

#[test]
fn a_newline_terminated_unparseable_trailing_line_is_an_error_not_a_skip() {
    let good = transition_line(0);
    let torn = transition_line(1);
    let err = read_events_tolerant(&format!("{good}\n{{\"schema_version\":1,\"inst{torn}\n"))
        .unwrap_err();
    assert!(
        err.contains("newline-terminated"),
        "the fused/corrupt trailing line is surfaced, never silently dropped: {err}"
    );
    assert!(err.contains("line 2"), "{err}");
}

#[test]
fn a_valid_json_wrong_shape_trailing_line_is_the_wrong_file_not_a_tear() {
    let good = transition_line(0);
    let err = read_events_tolerant(&format!("{good}\n{{\"nope\":1}}\n")).unwrap_err();
    assert!(
        err.contains("valid JSON but not a instance-log record"),
        "a wrong-shape trailing line names the wrong-file error: {err}"
    );

    let err = read_events_tolerant(&format!("{good}\n{{\"nope\":1}}")).unwrap_err();
    assert!(err.contains("valid JSON but not a instance-log record"), "{err}");
}

#[test]
fn resync_reads_treat_an_absent_log_as_empty() {
    let (events, torn) = read_events_tolerant("").expect("absent file is empty");
    assert!(events.is_empty());
    assert!(!torn);
}

fn family<T>(path: &str, records: Vec<T>) -> FamilyRead<T> {
    FamilyRead { path: path.to_string(), records: Ok((records, false)) }
}

fn ledger(rows: Vec<UsageEvent>) -> LedgerRead {
    LedgerRead { path: "state.db".to_string(), rows: Ok(rows) }
}

#[test]
fn a_cursor_past_a_family_committed_count_is_an_error_naming_family_and_counts() {
    let name = InstanceName::new("probe").expect("a valid probe name");
    let good = transition_line(0);
    let read = |after: ResyncCursor| {
        let (records, torn) = read_events_tolerant(&format!("{good}\n")).unwrap();
        read_committed(
            &name,
            &after,
            FamilyRead { path: "instance.log".to_string(), records: Ok((records, torn)) },
            family("breaches.log", Vec::new()),
            ledger(Vec::new()),
        )
    };

    let err = read(ResyncCursor { transitions: 5, breaches: 0, usage: 0 })
        .expect_err("a transition cursor past the committed count fails");
    assert!(
        matches!(&err, EngineError::Log { detail, .. }
            if detail.contains("transition") && detail.contains("(5)") && detail.contains("(1)")),
        "the error names the family and BOTH counts: {err:?}"
    );

    let err = read(ResyncCursor { transitions: 0, breaches: 0, usage: 2 })
        .expect_err("a usage cursor past the committed count fails");
    assert!(
        matches!(&err, EngineError::Log { detail, .. }
            if detail.contains("usage-ledger") && detail.contains("(2)") && detail.contains("(0)")),
        "the usage family is named with both counts: {err:?}"
    );

    let batch = read(ResyncCursor { transitions: 1, breaches: 0, usage: 0 })
        .expect("a cursor AT the committed count is caught up");
    assert!(batch.events.is_empty());
    assert!(!batch.torn_tail_skipped);
}

#[test]
fn a_cursor_past_the_breaches_names_them() {
    let name = InstanceName::new("probe").unwrap();
    let after = ResyncCursor { transitions: 0, breaches: 5, usage: 0 };
    let err = read_committed(
        &name,
        &after,
        family("instance.log", vec![transition(0)]),
        family("breaches.log", vec![breach(0), breach(1)]),
        ledger(vec![]),
    )
    .unwrap_err();
    match err {
        EngineError::Log { name, path, detail } => {
            assert_eq!(name, "probe");
            assert_eq!(path, "breaches.log");
            assert!(detail.contains("breach"), "{detail}");
            assert!(detail.contains("(5)") && detail.contains("(2)"), "{detail}");
        }
        other => panic!("expected Log, got {other:?}"),
    }
    assert!(reject_truncated_family(&name, "p", "usage", 2, 2).is_ok());
    assert!(reject_truncated_family(&name, "p", "usage", 3, 2).is_err());
}

#[test]
fn a_committed_read_delivers_and_says_what_was_torn() {
    let name = InstanceName::new("probe").unwrap();
    let batch = read_committed(
        &name,
        &ResyncCursor::start(),
        FamilyRead { path: "instance.log".into(), records: Ok((vec![transition(0)], true)) },
        family("breaches.log", vec![]),
        ledger(vec![usage(1)]),
    )
    .unwrap();
    assert_eq!(batch.events.len(), 2);
    assert!(batch.torn_tail_skipped);
    assert_eq!(batch.cursor, ResyncCursor { transitions: 1, breaches: 0, usage: 1 });
}

#[test]
fn a_committed_read_fails_on_the_first_source_that_fails() {
    let name = InstanceName::new("probe").unwrap();
    let err = read_committed(
        &name,
        &ResyncCursor::start(),
        FamilyRead::<TransitionEvent> { path: "instance.log".into(), records: Err("bad".into()) },
        FamilyRead::<BudgetBreachEvent> { path: "breaches.log".into(), records: Err("worse".into()) },
        ledger(vec![]),
    )
    .unwrap_err();
    assert_eq!(
        err,
        EngineError::Log { name: "probe".into(), path: "instance.log".into(), detail: "bad".into() }
    );
    let err = read_committed(
        &name,
        &ResyncCursor::start(),
        family("instance.log", vec![]),
        family("breaches.log", vec![]),
        LedgerRead {
            path: "state.db".into(),
            rows: Err(RegistryError::Store(StoreError::Backend("locked".into()))),
        },
    )
    .unwrap_err();
    assert_eq!(err, EngineError::Store(StoreError::Backend("locked".into())));
}
