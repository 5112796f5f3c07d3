//! What is written to the logs of an instance and read out of them.
use ktesio_engine::error::{EngineError, RegistryError, StoreError};
use ktesio_engine::event::{LogLine, LogStream, TransitionCause, TransitionEvent};
use ktesio_engine::instance::AgentInstance;
use ktesio_engine::jsonl::{log_lines, ParsedLine};
use ktesio_engine::lifecycle::LifecycleState;
use ktesio_engine::logs::{
    block_text, follow_lines, older_generations, persist_breach_event, FollowRead, LogGeneration,
    LogRead,
};
use ktesio_engine::name::InstanceName;
use ktesio_engine::registry::Registry;
use ktesio_engine::supervisor::Supervisor;
use std::path::PathBuf;

fn registry() -> Registry {
    Registry::open(Some(PathBuf::from("/state")), None, None).ok().unwrap()
}

fn name(text: &str) -> InstanceName {
    InstanceName::new(text).unwrap()
}

fn row(text: &str) -> Result<Option<AgentInstance>, StoreError> {
    Ok(Some(AgentInstance {
        name: name(text),
        kind: "mock".to_string(),
        state: LifecycleState::Registered,
        agent_home: "/state/agents/x".to_string(),
        created_at: "t".to_string(),
        updated_at: "t".to_string(),
    }))
}

fn log_line(stream: LogStream, text: &str) -> LogLine {
    LogLine::new("svc".to_string(), stream, text.to_string(), "2026-07-15T00:00:00Z".to_string())
}

/// A log whose lines are the texts of output lines; a text with a brace does not parse.
fn lines(text: &str) -> Vec<ParsedLine<LogLine>> {
    log_lines(text)
        .into_iter()
        .map(|line| ParsedLine {
            number: line.number,
            record: if line.text.contains('{') {
                Err("expected value".to_string())
            } else {
                Ok(log_line(LogStream::AgentOut, &line.text))
            },
            text: line.text,
        })
        .collect()
}

fn generation(path: &str, text: &str) -> LogGeneration {
    LogGeneration { path: path.to_string(), read: LogRead::Lines(lines(text)) }
}

fn event(new: LifecycleState) -> TransitionEvent {
    TransitionEvent::new(
        "demo".to_string(),
        LifecycleState::Registered,
        new,
        TransitionCause::command("start"),
        "2026-07-04T00:00:00Z".to_string(),
    )
}

fn event_line(number: usize, new: LifecycleState) -> ParsedLine<TransitionEvent> {
    ParsedLine { number, text: "{}".to_string(), record: Ok(event(new)) }
}

#[test]
fn read_events_from_missing_file_is_empty() {
    let events = Supervisor::read_events(&registry(), "demo", LogRead::Missing).unwrap();
    assert!(events.is_empty());
}

#[test]
fn append_then_read_round_trips_events() {
    let read = LogRead::Lines(vec![
        event_line(1, LifecycleState::Starting),
        event_line(2, LifecycleState::Running),
    ]);
    let back = Supervisor::read_events(&registry(), "demo", read).unwrap();
    assert_eq!(back, vec![event(LifecycleState::Starting), event(LifecycleState::Running)]);
}

#[test]
fn read_events_rejects_a_corrupt_line() {
    let read = LogRead::Lines(vec![ParsedLine {
        number: 1,
        text: "{ not valid json".to_string(),
        record: Err("key must be a string".to_string()),
    }]);
    match Supervisor::read_events(&registry(), "demo", read).unwrap_err() {
        EngineError::Log { name, path, detail } => {
            assert_eq!(name, "demo");
            assert!(path.ends_with("logs/instance.log"), "{path}");
            assert!(detail.contains("corrupt instance-log line 1"), "{detail}");
        }
        other => panic!("expected Log, got {other:?}"),
    }
    assert!(matches!(
        Supervisor::read_events(&registry(), "Bad Name", LogRead::Missing),
        Err(EngineError::InvalidName { .. })
    ));
}

#[test]
fn read_events_skips_blank_lines() {
    let numbers: Vec<usize> = log_lines("\n{}\n\n  \t\n{}").iter().map(|l| l.number).collect();
    assert_eq!(numbers, vec![2, 5]);
}

#[test]
fn breach_logs_are_read_like_the_others() {
    assert!(Supervisor::read_breach_events(&registry(), "demo", LogRead::Missing)
        .unwrap()
        .is_empty());
    let err = Supervisor::read_breach_events(
        &registry(),
        "demo",
        LogRead::Failed("denied".to_string()),
    )
    .unwrap_err();
    assert!(matches!(err, EngineError::Log { path, detail, .. }
        if path.ends_with("logs/breaches.log") && detail == "denied"));
}

#[test]
fn record_breach_surfaces_a_write_failure_instead_of_swallowing_it() {
    let notes = persist_breach_event(
        "/state/logs",
        Err("not a directory".to_string()),
        "/state/logs/breaches.log",
        Err("no such file".to_string()),
    );
    assert_eq!(notes.len(), 2);
    assert!(notes[0].contains("/state/logs") && notes[0].contains("not a directory"), "{}", notes[0]);
    assert!(notes[1].contains("NOT written") && notes[1].contains("no such file"), "{}", notes[1]);
    assert!(persist_breach_event("p", Ok(()), "f", Ok(())).is_empty());
    assert_eq!(persist_breach_event("p", Ok(()), "f", Err("x".to_string())).len(), 1);
}

#[test]
fn read_agent_log_on_an_unregistered_name_is_not_found() {
    let err = Supervisor::read_agent_log("ghost", Ok(None), vec![], generation("c", ""), 0)
        .unwrap_err();
    assert!(matches!(err, EngineError::NotFound { .. }), "{err:?}");
}

#[test]
fn read_agent_log_on_an_invalid_name_is_invalid_name() {
    let err = Supervisor::read_agent_log("Not Valid!", Ok(None), vec![], generation("c", ""), 0)
        .unwrap_err();
    assert!(matches!(err, EngineError::InvalidName { .. }), "{err:?}");
}

#[test]
fn read_agent_log_on_a_registered_but_never_started_instance_is_empty_not_an_error() {
    let missing = |path: &str| LogGeneration { path: path.to_string(), read: LogRead::Missing };
    let (lines, cursor) = Supervisor::read_agent_log(
        "neverstarted",
        row("neverstarted"),
        vec![missing("o.2"), missing("o.1")],
        missing("o"),
        0,
    )
    .unwrap();
    assert!(lines.is_empty());
    assert_eq!(cursor, 0, "no file yet → the cursor starts at 0");
}

#[test]
fn read_agent_log_concatenates_generations_oldest_to_newest() {
    let current = "newest\n";
    let (lines, cursor) = Supervisor::read_agent_log(
        "gens",
        row("gens"),
        vec![generation("o.2", "oldest\n"), generation("o.1", "middle\n")],
        generation("o", current),
        current.len() as u64,
    )
    .unwrap();
    let texts: Vec<&str> = lines.iter().map(|l| l.text.as_str()).collect();
    assert_eq!(texts, vec!["oldest", "middle", "newest"]);
    assert_eq!(
        cursor,
        current.len() as u64,
        "cursor must be the CURRENT generation's byte length only"
    );
}

#[test]
fn older_files_are_read_from_the_highest_number_down() {
    assert_eq!(older_generations(3), vec![2, 1]);
    assert_eq!(older_generations(5), vec![4, 3, 2, 1]);
    assert!(older_generations(1).is_empty());
    assert!(older_generations(0).is_empty());
}

#[test]
fn read_agent_log_names_the_file_that_fails_first() {
    let err = Supervisor::read_agent_log(
        "gens",
        row("gens"),
        vec![generation("o.2", "fine\n"), generation("o.1", "ok\n{torn\n")],
        LogGeneration { path: "o".to_string(), read: LogRead::Failed("denied".to_string()) },
        0,
    )
    .unwrap_err();
    assert_eq!(
        err,
        EngineError::Log {
            name: "gens".to_string(),
            path: "o.1".to_string(),
            detail: "corrupt output-log line 2: expected value".to_string(),
        }
    );
}

/// Read what is new in a log of bytes.
fn since(bytes: &[u8], cursor: u64) -> (Vec<LogLine>, u64) {
    let (new, new_cursor) = follow_lines(bytes, cursor);
    let parsed = new
        .into_iter()
        .map(|line| ParsedLine {
            number: line.number,
            record: Ok(log_line(LogStream::AgentOut, &line.text)),
            text: line.text,
        })
        .collect();
    Supervisor::read_agent_log_since(
        "since",
        row("since"),
        "o",
        FollowRead::Lines { lines: parsed, new_cursor },
    )
    .unwrap()
}

#[test]
fn read_agent_log_since_happy_path_reads_only_the_new_tail() {
    let (first, cursor1) = since(b"one\n", 0);
    assert_eq!(first, vec![log_line(LogStream::AgentOut, "one")]);
    assert!(cursor1 > 0);

    let (none, cursor_same) = since(b"one\n", cursor1);
    assert!(none.is_empty());
    assert_eq!(cursor_same, cursor1);

    let (second, cursor2) = since(b"one\ntwo\npart", cursor1);
    assert_eq!(second, vec![log_line(LogStream::AgentOut, "two")]);
    assert_eq!(cursor2, 8);
}

#[test]
fn read_agent_log_since_detects_a_rotation_shrink_and_snaps_the_cursor() {
    let (_, cursor) = since(b"before-rotation\n", 0);
    let (lines, next_cursor) = since(b"after\n", cursor);
    assert!(lines.is_empty(), "nothing delivered on the shrink pass");
    assert!(next_cursor < cursor);
    assert_eq!(next_cursor, 6);
}

#[test]
fn read_agent_log_since_on_an_unregistered_name_is_not_found() {
    let err = Supervisor::read_agent_log_since("ghost", Ok(None), "o", FollowRead::Missing)
        .unwrap_err();
    assert!(matches!(err, EngineError::NotFound { .. }), "{err:?}");
}

#[test]
fn read_agent_log_since_on_an_invalid_name_is_invalid_name() {
    let err = Supervisor::read_agent_log_since("Not Valid!", Ok(None), "o", FollowRead::Missing)
        .unwrap_err();
    assert!(matches!(err, EngineError::InvalidName { .. }), "{err:?}");
}

#[test]
fn read_agent_log_since_on_a_registered_but_never_started_instance_is_empty() {
    let (lines, cursor) = Supervisor::read_agent_log_since(
        "neverstarted2",
        row("neverstarted2"),
        "o",
        FollowRead::Missing,
    )
    .unwrap();
    assert!(lines.is_empty());
    assert_eq!(cursor, 0);
    let err = Supervisor::read_agent_log_since(
        "x",
        row("x"),
        "o",
        FollowRead::Failed("denied".to_string()),
    )
    .unwrap_err();
    assert!(matches!(err, EngineError::Log { path, .. } if path == "o"));
    let err = Supervisor::read_agent_log_since(
        "x",
        Err(StoreError::Backend("locked".to_string())),
        "o",
        FollowRead::Missing,
    )
    .unwrap_err();
    assert!(matches!(err, EngineError::Store(_)));
}

#[test]
fn bytes_that_are_no_text_are_replaced() {
    assert_eq!(block_text(b"xa\xffby", 1, 4), "a\u{fffd}b");
    assert_eq!(block_text(b"abc", 1, 1), "");
}

#[test]
fn a_transition_is_logged_only_once_stored_and_announced_only_once_logged() {
    let registry = registry();
    let demo = name("demo");
    let stored = |stored: Result<(), RegistryError>| {
        registry.transition_stored(
            &demo,
            LifecycleState::Starting,
            LifecycleState::Running,
            TransitionCause::AdapterReady,
            stored,
            "now".to_string(),
        )
    };
    assert!(matches!(
        stored(Err(RegistryError::NotFound { name: "demo".to_string() })),
        Err(EngineError::NotFound { .. })
    ));
    let entry = stored(Ok(())).ok().unwrap();
    assert_eq!(entry.path, PathBuf::from("/state/agents/demo/logs/instance.log"));
    assert_eq!(entry.event.new_state, LifecycleState::Running);

    let (event, line) =
        registry.transition_logged(&demo, entry.event.clone(), Ok(()), true).unwrap();
    assert_eq!(event, entry.event);
    let line = line.unwrap();
    assert_eq!(line.stream, LogStream::Engine);
    assert_eq!(line.text, "engine: starting -> running");
    assert_eq!(line.at, "now");
    assert_eq!(registry.transition_logged(&demo, entry.event.clone(), Ok(()), false).unwrap().1, None);
    assert!(matches!(
        registry.transition_logged(&demo, entry.event, Err("full".to_string()), true),
        Err(EngineError::Log { path, detail, .. })
            if path.ends_with("instance.log") && detail == "full"
    ));
    assert!(registry.ensure_log_dir(&demo, Ok(())).is_ok());
    assert!(matches!(
        registry.ensure_log_dir(&demo, Err("denied".to_string())),
        Err(EngineError::Log { path, .. }) if path == "/state/agents/demo/logs"
    ));
}
