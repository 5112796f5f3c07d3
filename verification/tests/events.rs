//! Events and their texts.
use ktesio_engine::event::{
    cause_suffix, engine_transition_line_text, BreachScope, EstimateLabel, Micros,
    TransitionCause, TransitionEvent, EVENT_SCHEMA_VERSION,
};
use ktesio_engine::lifecycle::LifecycleState;

#[test]
fn cause_suffix_and_engine_transition_line_text_cover_every_transition_cause() {
    let cases: Vec<(TransitionCause, &str)> = vec![
        (TransitionCause::command("start"), " (start)"),
        (TransitionCause::AdapterReady, ""),
        (TransitionCause::launch_error("boom".into()), " (launch error: boom)"),
        (TransitionCause::StopGraceful, ""),
        (TransitionCause::stop_forced("escalated".into()), " (forced: escalated)"),
        (TransitionCause::pause_best_effort("windows".into()), " (best-effort: windows)"),
        (TransitionCause::resume_best_effort("windows".into()), " (best-effort: windows)"),
        (TransitionCause::crashed("exit code 1".into()), " (crashed: exit code 1)"),
        (TransitionCause::restarted(2, 500), " (restart #2, waited 500ms)"),
        (
            TransitionCause::budget_exceeded(BreachScope::PerRun, 1000, 1200),
            " (breach: per-run tokens)",
        ),
        (
            TransitionCause::cost_cap_exceeded(
                BreachScope::Cumulative,
                Micros(5_000_000),
                Micros(5_250_000),
                EstimateLabel::Estimated,
            ),
            " (breach: cumulative dollars)",
        ),
    ];
    for (cause, want_suffix) in cases {
        assert_eq!(cause_suffix(&cause), want_suffix, "{cause:?}");
    }

    let event = TransitionEvent::new(
        "svc".into(),
        LifecycleState::Running,
        LifecycleState::Paused,
        TransitionCause::pause_best_effort("windows".into()),
        "2026-07-15T00:00:00Z".into(),
    );
    assert_eq!(
        engine_transition_line_text(&event),
        "engine: running -> paused (best-effort: windows)"
    );
}

#[test]
fn a_transition_event_carries_its_version() {
    let event = TransitionEvent::new(
        "svc".into(),
        LifecycleState::Starting,
        LifecycleState::Running,
        TransitionCause::AdapterReady,
        "2026-07-15T00:00:00Z".into(),
    );
    assert_eq!(event.schema_version, EVENT_SCHEMA_VERSION);
    assert_eq!(engine_transition_line_text(&event), "engine: starting -> running");
    assert_eq!(event.clone(), event);
}
