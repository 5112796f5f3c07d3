//! How far a log is read.
use ktesio_engine::drain::{plan_drain, plan_follow, DrainMode, DrainPlan, FollowPlan};

#[test]
fn plan_drain_midrun_stops_at_the_last_newline() {
    let bytes = b"a\nb\nhalf-written";
    let plan = plan_drain(bytes, 0, DrainMode::MidRun);
    assert_eq!(plan, DrainPlan::Consume { range: 0..4, new_cursor: 4 });
}

#[test]
fn plan_drain_midrun_with_no_newline_yet_consumes_nothing() {
    assert_eq!(plan_drain(b"no newline yet", 0, DrainMode::MidRun), DrainPlan::Nothing);
}

#[test]
fn plan_drain_terminal_consumes_a_newline_less_final_line() {
    let bytes = b"a\nKTESIO_USAGE {\"sequence\":0,\"input_tokens\":10,\"output_tokens\":20}";
    let plan = plan_drain(bytes, 0, DrainMode::Terminal);
    assert_eq!(
        plan,
        DrainPlan::Consume { range: 0..bytes.len(), new_cursor: bytes.len() as u64 }
    );
}

#[test]
fn plan_drain_terminal_from_a_cursor_consumes_only_the_new_tail() {
    let bytes = b"old\nnew-tail-no-nl";
    let plan = plan_drain(bytes, 4, DrainMode::Terminal);
    assert_eq!(
        plan,
        DrainPlan::Consume { range: 4..bytes.len(), new_cursor: bytes.len() as u64 }
    );
}

#[test]
fn plan_drain_shrink_snaps_the_cursor_and_ingests_nothing() {
    let bytes = b"short";
    assert_eq!(
        plan_drain(bytes, 100, DrainMode::MidRun),
        DrainPlan::Shrunk { new_cursor: 5 }
    );
    assert_eq!(
        plan_drain(bytes, 100, DrainMode::Terminal),
        DrainPlan::Shrunk { new_cursor: 5 },
        "the shrink guard applies on the terminal path too"
    );
}

#[test]
fn plan_drain_at_end_of_log_consumes_nothing() {
    let bytes = b"a\nb\n";
    assert_eq!(plan_drain(bytes, 4, DrainMode::MidRun), DrainPlan::Nothing);
    assert_eq!(plan_drain(bytes, 4, DrainMode::Terminal), DrainPlan::Nothing);
}

#[test]
fn plan_follow_consumes_only_complete_lines_leaving_a_partial_tail() {
    let bytes = b"a\nb\nhalf-written";
    assert_eq!(plan_follow(bytes, 0), FollowPlan::Consume { range: 0..4, new_cursor: 4 });
}

#[test]
fn plan_follow_with_no_newline_yet_consumes_nothing() {
    assert_eq!(
        plan_follow(b"no newline yet", 0),
        FollowPlan::Consume { range: 0..0, new_cursor: 0 }
    );
}

#[test]
fn plan_follow_from_a_cursor_consumes_only_the_new_tail() {
    let bytes = b"old\nnew-tail\n";
    assert_eq!(
        plan_follow(bytes, 4),
        FollowPlan::Consume { range: 4..bytes.len(), new_cursor: bytes.len() as u64 }
    );
}

#[test]
fn plan_follow_shrink_snaps_the_cursor_and_delivers_nothing() {
    let bytes = b"short";
    assert_eq!(plan_follow(bytes, 100), FollowPlan::Shrunk { new_cursor: 5 });
}

#[test]
fn plan_follow_at_end_of_log_consumes_nothing() {
    let bytes = b"a\nb\n";
    assert_eq!(plan_follow(bytes, 4), FollowPlan::Consume { range: 4..4, new_cursor: 4 });
}

#[test]
fn successive_reads_cover_the_log_once() {
    let log = b"one\ntwo\nthree\nfour";
    let mut cursor = 0u64;
    let mut seen: Vec<u8> = Vec::new();
    for end in [2usize, 5, 8, 13, 15, log.len()] {
        if let DrainPlan::Consume { range, new_cursor } =
            plan_drain(&log[..end], cursor, DrainMode::MidRun)
        {
            seen.extend_from_slice(&log[range]);
            cursor = new_cursor;
        }
    }
    assert_eq!(seen, b"one\ntwo\nthree\n");
    match plan_drain(log, cursor, DrainMode::Terminal) {
        DrainPlan::Consume { range, .. } => seen.extend_from_slice(&log[range]),
        other => panic!("the last line is read at the end: {other:?}"),
    }
    assert_eq!(seen, log);
}
