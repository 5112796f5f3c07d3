//! What the engine tells of its instances.
use ktesio_engine::budget::{CostCap, TokenBudget};
use ktesio_engine::engine::{
    engine_instance, engine_result, failed_cause_detail, instance_status, runtime_failure,
    DollarUsage, FleetLimits, FleetReads, RestartRecord,
};
use ktesio_engine::error::{EngineError, RegistryError, StoreError};
use ktesio_engine::event::{BreachAction, EstimateLabel, Micros, TransitionCause, TransitionEvent};
use ktesio_engine::instance::AgentInstance;
use ktesio_engine::lifecycle::LifecycleState;
use ktesio_engine::name::InstanceName;
use ktesio_engine::restart::RestartPolicy;
use ktesio_engine::supervisor::{Supervised, Supervisor};
use ktesio_engine::usage::{RunId, UsageTotals};

fn instance(state: LifecycleState) -> AgentInstance {
    AgentInstance {
        name: InstanceName::new("svc").unwrap(),
        kind: "mock".to_string(),
        state,
        agent_home: "/state/agents/svc".to_string(),
        created_at: "t".to_string(),
        updated_at: "t".to_string(),
    }
}

fn event(new: LifecycleState, cause: TransitionCause) -> TransitionEvent {
    TransitionEvent::new("svc".into(), LifecycleState::Running, new, cause, "t".into())
}

fn crash_log() -> Vec<TransitionEvent> {
    vec![
        event(LifecycleState::Failed, TransitionCause::crashed("first".into())),
        event(LifecycleState::Failed, TransitionCause::launch_error("second".into())),
        event(LifecycleState::Starting, TransitionCause::command("start")),
    ]
}

fn record(cause: Option<&str>) -> RestartRecord {
    RestartRecord {
        policy: RestartPolicy::Never,
        count: 3,
        last_known_cause: cause.map(|c| c.to_string()),
    }
}

#[test]
fn the_status_of_a_fresh_instance_is_the_defaults() {
    let status =
        instance_status("svc", Ok(Some(instance(LifecycleState::Registered))), Ok(None), Ok(vec![]))
            .unwrap();
    assert_eq!(status.restart_policy, RestartPolicy::OnFailure);
    assert_eq!(status.restart_count, 0);
    assert_eq!(status.failed_cause, None);
    assert_eq!(status.instance.kind, "mock");
}

#[test]
fn the_recorded_cause_comes_before_the_log() {
    let failed = || Ok(Some(instance(LifecycleState::Failed)));
    let status =
        instance_status("svc", failed(), Ok(Some(record(Some("recorded")))), Ok(crash_log())).unwrap();
    assert_eq!(status.failed_cause.as_deref(), Some("recorded"));
    assert_eq!(status.restart_count, 3);
    assert_eq!(status.restart_policy, RestartPolicy::Never);
    let status = instance_status("svc", failed(), Ok(Some(record(None))), Ok(crash_log())).unwrap();
    assert_eq!(status.failed_cause.as_deref(), Some("second"), "the last failure in the log");
    let unreadable = EngineError::Log { name: "svc".into(), path: "p".into(), detail: "d".into() };
    let status = instance_status("svc", failed(), Ok(None), Err(unreadable)).unwrap();
    assert_eq!(status.failed_cause, None);
    let running = Ok(Some(instance(LifecycleState::Running)));
    let status = instance_status("svc", running, Ok(None), Ok(crash_log())).unwrap();
    assert_eq!(status.failed_cause, None, "only a failed instance is told a cause of its log");
}

#[test]
fn the_status_of_what_is_not_there_is_an_error() {
    let status = |name: &str, found: Result<Option<AgentInstance>, StoreError>| {
        instance_status(name, found, Ok(None), Ok(vec![])).unwrap_err()
    };
    assert!(matches!(status("Bad Name", Ok(None)), EngineError::InvalidName { .. }));
    assert!(matches!(status("svc", Ok(None)), EngineError::NotFound { name } if name == "svc"));
    assert!(matches!(status("svc", Err(StoreError::Backend("x".into()))), EngineError::Store(_)));
    let err = instance_status(
        "svc",
        Ok(Some(instance(LifecycleState::Stopped))),
        Err(StoreError::Backend("x".into())),
        Ok(vec![]),
    )
    .unwrap_err();
    assert!(matches!(err, EngineError::Store(_)));
}

#[test]
fn only_failures_have_a_detail() {
    assert_eq!(failed_cause_detail(&TransitionCause::crashed("c".into())).as_deref(), Some("c"));
    assert_eq!(failed_cause_detail(&TransitionCause::launch_error("l".into())).as_deref(), Some("l"));
    assert_eq!(failed_cause_detail(&TransitionCause::AdapterReady), None);
    assert_eq!(failed_cause_detail(&TransitionCause::stop_forced("s".into())), None);
}

fn limits(rated: bool) -> FleetLimits {
    FleetLimits {
        budget: TokenBudget { per_run: Some(100), cumulative: None },
        action: BreachAction::Warn,
        rated,
        cap: CostCap { per_run: None, cumulative: None },
    }
}

fn reads(limits: Option<FleetLimits>) -> FleetReads {
    FleetReads {
        record: None,
        events: Ok(vec![]),
        cumulative: Some(UsageTotals { input_tokens: 100, output_tokens: 50 }),
        current_run: Some(UsageTotals { input_tokens: 10, output_tokens: 5 }),
        limits,
        cumulative_cost: Some(Micros(2_000_000)),
        current_run_cost: Some(Micros(500_000)),
        metering_source: Some("self-reported".into()),
    }
}

fn supervising() -> Supervisor {
    let mut sup = Supervisor::new();
    sup.hold(
        &InstanceName::new("svc").unwrap(),
        Supervised {
            run_id: RunId::from_wire("run-1-1".into()),
            metering_source: "self-reported".into(),
            usage_cursor: 0,
            breached: vec![],
            observed: false,
            stop_unconfirmed: false,
        },
    );
    sup
}

#[test]
fn the_fleet_shows_dollars_only_with_a_rate() {
    let sup = supervising();
    let svc = InstanceName::new("svc").unwrap();
    let (usage, figures) = sup.fleet_usage(&svc, &reads(Some(limits(true))));
    assert_eq!(
        usage.dollars,
        Some(DollarUsage {
            cumulative: Micros(2_000_000),
            current_run: Micros(500_000),
            label: EstimateLabel::Estimated,
        })
    );
    let figures = figures.unwrap();
    assert_eq!(figures.current_run_tokens, 15);
    assert_eq!(figures.cumulative_tokens, 150);
    assert_eq!(figures.current_run_cost, Micros(500_000));

    let (usage, figures) = sup.fleet_usage(&svc, &reads(Some(limits(false))));
    assert_eq!(usage.dollars, None);
    assert_eq!(figures.unwrap().cumulative_cost, Micros(0));
    assert_eq!(sup.fleet_usage(&svc, &reads(None)).1, None);
}

#[test]
fn an_instance_that_does_not_run_has_no_current_usage() {
    let idle = Supervisor::new();
    let svc = InstanceName::new("svc").unwrap();
    let (usage, _) = idle.fleet_usage(&svc, &reads(Some(limits(true))));
    assert_eq!(usage.current_run, UsageTotals::zero());
    assert_eq!(usage.cumulative.total_tokens(), 150);
    assert_eq!(usage.dollars.unwrap().current_run, Micros(0));
}

#[test]
fn a_fleet_entry_degrades_instead_of_failing() {
    let blind = FleetReads {
        record: None,
        events: Ok(crash_log()),
        cumulative: None,
        current_run: None,
        limits: None,
        cumulative_cost: None,
        current_run_cost: None,
        metering_source: None,
    };
    let entry = supervising().fleet_entry_for(instance(LifecycleState::Failed), blind, Some("view"));
    assert_eq!(entry.metering_source, "unknown");
    assert_eq!(entry.usage.cumulative, UsageTotals::zero());
    assert_eq!(entry.usage.dollars, None);
    assert_eq!(entry.budget, None);
    assert_eq!(entry.restart_count, 0);
    assert_eq!(entry.failed_cause.as_deref(), Some("second"));
    assert_eq!(entry.agent_home, "/state/agents/svc");

    let mut full = reads(Some(limits(true)));
    full.record = Some(record(None));
    let entry = supervising().fleet_entry_for(instance(LifecycleState::Running), full, Some("view"));
    assert_eq!(entry.budget, Some("view"));
    assert_eq!(entry.metering_source, "self-reported");
    assert_eq!(entry.restart_policy, RestartPolicy::Never);
    assert_eq!(entry.name.as_str(), "svc");
    assert_eq!(entry.state, LifecycleState::Running);
}

#[test]
fn the_engine_tells_names_and_failures_its_own_way() {
    assert_eq!(engine_instance("svc").unwrap().as_str(), "svc");
    assert!(matches!(engine_instance("Bad Name"), Err(EngineError::InvalidName { .. })));
    assert_eq!(engine_result(Ok(7)), Ok(7));
    assert!(matches!(
        engine_result::<u8>(Err(RegistryError::NotFound { name: "x".into() })),
        Err(EngineError::NotFound { .. })
    ));
    assert_eq!(
        runtime_failure("no threads".into()),
        RegistryError::Io {
            name: "<engine-runtime>".into(),
            path: "<tokio-runtime>".into(),
            source: "no threads".into(),
        }
    );
}
