//! The supervisor, over a store and a process that are held in memory.
use ktesio_engine::adopt::{AdoptAction, AdoptEvent, OrphanRecord};
use ktesio_engine::budget::{
    BreachDecision, CostCap, EnforceAction, EnforceEvent, Limits, TokenBudget,
};
use ktesio_engine::capability::{OsId, SupportLevel};
use ktesio_engine::config::ConfigLayer;
use ktesio_engine::drain::DrainMode;
use ktesio_engine::duration::Duration;
use ktesio_engine::effective::EffectiveConfig;
use ktesio_engine::error::{
    BackendError, ConfigApplyError, EngineError, RegistryError, SecretError, StoreError,
};
use ktesio_engine::event::{
    cause_suffix, BreachAction, BreachDimension, BreachScope, Micros, TransitionCause,
};
use ktesio_engine::instance::AgentInstance;
use ktesio_engine::lifecycle::LifecycleState;
use ktesio_engine::name::InstanceName;
use ktesio_engine::poll::{Booking, PollAction, PollEvent, RestartPlan, SpawnFacts};
use ktesio_engine::registry::{reveal_secrets, ConfigRead, Registry};
use ktesio_engine::removal::{RemovalAction, RemovalEvent};
use ktesio_engine::remove::{RemoveAction, RemoveDisposition, RemoveEvent};
use ktesio_engine::restart::{BackoffSchedule, RestartPolicy};
use ktesio_engine::secret::SecretString;
use ktesio_engine::send::{PipeFacts, SendAction, SendEvent};
use ktesio_engine::start::{
    exit_shown, plan_observed_listener, watch_startup, ConfigChoice, Start, StartAction, StartEvent,
    StartupWatch,
};
use ktesio_engine::stop::{Stop, StopAction, StopEvent};
use ktesio_engine::supervisor::{default_stop_window, Supervisor};
use ktesio_engine::suspend::{Suspend, SuspendAction, SuspendEvent};
use ktesio_engine::usage::RunNonces;
use std::path::PathBuf;

const OS: OsId = OsId::Linux;

fn fast_backoff() -> BackoffSchedule {
    BackoffSchedule::with_base_and_cap(Duration::from_millis(10), Duration::from_millis(50))
}

fn name(text: &str) -> InstanceName {
    InstanceName::new(text).unwrap()
}

/// One instance: its row, its record, its process, and what was done about it.
struct World {
    sup: Supervisor,
    state: LifecycleState,
    policy: Option<RestartPolicy>,
    record: Option<SpawnFacts>,
    exit: Option<Option<i32>>,
    support: SupportLevel,
    source: &'static str,
    upstream: Option<String>,
    secrets: Vec<(&'static str, &'static str)>,
    delivered: Vec<(String, String)>,
    apply_fails: bool,
    snapshot_fails: bool,
    spawn_fails: bool,
    startup_exit: Option<Option<i32>>,
    record_fails: bool,
    stop: Result<bool, BackendError>,
    transitions: Vec<(LifecycleState, LifecycleState, TransitionCause)>,
    done: Vec<&'static str>,
    kept_launch: Vec<String>,
    manifest_launch: Vec<String>,
    launch: Vec<String>,
    argv: Vec<String>,
    nonces: RunNonces,
    configs: Vec<(&'static str, ConfigChoice)>,
    transitions_fail: bool,
    config: String,
    snapshot: Vec<(String, String, &'static str)>,
}

fn registry() -> Registry {
    Registry::open(Some(PathBuf::from("/state")), None, None).ok().unwrap()
}

fn row(text: &str) -> AgentInstance {
    AgentInstance {
        name: name(text),
        kind: "fake".to_string(),
        state: LifecycleState::Registered,
        agent_home: "/state/agents/x".to_string(),
        created_at: "t".to_string(),
        updated_at: "t".to_string(),
    }
}

fn world() -> World {
    World {
        sup: Supervisor::with_backoff(fast_backoff()),
        state: LifecycleState::Registered,
        policy: None,
        record: None,
        exit: None,
        support: SupportLevel::Guaranteed,
        source: "self-reported",
        upstream: None,
        secrets: Vec::new(),
        delivered: Vec::new(),
        apply_fails: false,
        snapshot_fails: false,
        spawn_fails: false,
        startup_exit: None,
        record_fails: false,
        stop: Ok(false),
        transitions: Vec::new(),
        done: Vec::new(),
        kept_launch: Vec::new(),
        manifest_launch: Vec::new(),
        launch: Vec::new(),
        argv: Vec::new(),
        nonces: RunNonces::new(),
        configs: Vec::new(),
        transitions_fail: false,
        config: String::new(),
        snapshot: Vec::new(),
    }
}

impl World {
    fn transition(&mut self, prior: LifecycleState, new: LifecycleState, cause: TransitionCause) {
        self.state = new;
        self.transitions.push((prior, new, cause));
    }

    fn effective(&self, name: &InstanceName) -> EffectiveConfig {
        registry()
            .effective_config(
                name,
                ConfigLayer::empty(),
                Ok(Some(row(name.as_str()))),
                ConfigRead::Text(self.config.clone()),
            )
            .ok()
            .unwrap()
    }

    fn resolve_secrets(&mut self, name: &InstanceName) -> Result<(), SecretError> {
        let effective = self.effective(name);
        let mut run = registry().resolve_secrets(&effective);
        while let Some(wanted) = run.wanted() {
            let answer = match self.secrets.iter().find(|(name, _)| *name == wanted) {
                Some((_, cleartext)) => Ok(SecretString::new(cleartext.to_string())),
                None => Err(SecretError::Unresolved {
                    name: wanted.to_string(),
                    resolvers: "env, file".to_string(),
                }),
            };
            run = run.take(answer)?;
        }
        self.delivered = reveal_secrets(run.finish());
        Ok(())
    }

    fn run_start(&mut self, mut run: Start) -> Result<LifecycleState, EngineError> {
        let mut action = StartAction::ReadRow;
        loop {
            let event = match action {
                StartAction::ReadRow => StartEvent::Row(Ok(self.state)),
                StartAction::ReadLaunchFacts => {
                    self.launch = self.kept_launch.clone();
                    StartEvent::LaunchFacts(Ok(true))
                }
                StartAction::ResolveLaunch => {
                    self.launch = self.manifest_launch.clone();
                    self.done.push("resolve-launch");
                    StartEvent::Launch(Ok(()))
                }
                StartAction::ReadSource => StartEvent::Source(Ok(self.source.to_string())),
                StartAction::ReadSupport(_) => StartEvent::Support(Ok(self.support)),
                StartAction::ReadConfig => StartEvent::Config(Ok(self.upstream.clone())),
                StartAction::ReadMapping => StartEvent::Mapping(Ok(())),
                StartAction::StartListener { .. } => {
                    self.done.push("listener");
                    StartEvent::Listener(Ok("http://127.0.0.1:1".to_string()))
                }
                StartAction::ReadConfigWith { .. } => StartEvent::Overridden(Ok(())),
                StartAction::ResolveSecrets(choice) => {
                    self.configs.push(("secrets", choice));
                    StartEvent::Secrets(self.resolve_secrets(run.name()))
                }
                StartAction::ApplyMapping(choice) => {
                    self.configs.push(("mapping", choice));
                    StartEvent::Applied(if self.apply_fails {
                        Err(ConfigApplyError::FileRender {
                            key: "k".to_string(),
                            path: "p".to_string(),
                            detail: "denied".to_string(),
                        })
                    } else {
                        Ok(())
                    })
                }
                StartAction::WriteSnapshot(choice) => {
                    self.configs.push(("snapshot", choice));
                    if self.snapshot_fails {
                        StartEvent::Snapshot(Err(RegistryError::SnapshotWrite {
                            name: run.name().as_str().to_string(),
                            path: "effective-config.json".to_string(),
                            detail: "is a directory".to_string(),
                        }))
                    } else {
                        let effective = self.effective(run.name());
                        let (_, written) =
                            registry().write_effective_config_snapshot(run.name(), &effective);
                        self.snapshot = written
                            .entries
                            .into_iter()
                            .map(|e| (e.key, e.value, e.source.as_str()))
                            .collect();
                        self.done.push("snapshot");
                        StartEvent::Snapshot(Ok(()))
                    }
                }
                StartAction::ReadPolicy => {
                    let policy = match (&self.record, self.policy) {
                        (_, Some(policy)) => policy,
                        (Some(facts), None) => facts.policy,
                        (None, None) => RestartPolicy::OnFailure,
                    };
                    StartEvent::Policy(Ok(policy))
                }
                StartAction::EnsureLogDir => StartEvent::LogDir(Ok(())),
                StartAction::MeasureLog => StartEvent::LogLength(17),
                StartAction::Transition { prior, new, cause } => {
                    self.transition(prior, new, cause);
                    StartEvent::Transitioned(Ok(()))
                }
                StartAction::Spawn { .. } => {
                    self.argv = self.launch.clone();
                    self.done.push("spawn");
                    StartEvent::Spawned(if self.spawn_fails {
                        Err(BackendError::Control {
                            op: "spawn".to_string(),
                            detail: "no such file".to_string(),
                        })
                    } else {
                        Ok(())
                    })
                }
                StartAction::WatchStartup => StartEvent::Startup(self.startup_exit),
                StartAction::WriteRecord { policy, restart_count } => {
                    if self.record_fails {
                        StartEvent::Recorded(Err(RegistryError::Store(StoreError::Backend(
                            "locked".to_string(),
                        ))))
                    } else {
                        self.record = Some(SpawnFacts { policy, restart_count });
                        self.done.push("record");
                        StartEvent::Recorded(Ok(()))
                    }
                }
                StartAction::Kill => {
                    self.done.push("kill");
                    StartEvent::Killed
                }
                StartAction::Mint => {
                    let (nanos, nonce) = self.nonces.take(Some(42));
                    StartEvent::Minted { nanos, nonce }
                }
                StartAction::Misfit => panic!("every answer fits"),
                StartAction::Finish(outcome) => return outcome,
            };
            action = self.sup.start_step(&mut run, event);
        }
    }

    fn start(&mut self, text: &str) -> Result<LifecycleState, EngineError> {
        let run = self.sup.start(text)?;
        self.run_start(run)
    }

    fn restart(&mut self, plan: &RestartPlan) -> Result<LifecycleState, EngineError> {
        self.exit = None;
        let run = self.sup.restart(plan.name.as_str(), plan.attempt, plan.delay)?;
        self.run_start(run)
    }

    fn stop_answer(&mut self, action: StopAction) -> StopEvent {
        match action {
            StopAction::ReadRow => StopEvent::Row(Ok(self.state)),
            StopAction::Poll => {
                self.done.push("poll");
                StopEvent::Polled(Ok(self.exit.is_some()))
            }
            StopAction::ClearRecord => {
                self.record = None;
                self.done.push("clear-record");
                StopEvent::Cleared(Ok(()))
            }
            StopAction::Transition { prior, new, cause } => {
                self.transition(prior, new, cause);
                StopEvent::Transitioned(Ok(()))
            }
            StopAction::EnsureLogDir => StopEvent::LogDir(Ok(())),
            StopAction::Drain => {
                self.done.push("drain");
                StopEvent::Drained
            }
            StopAction::StopProcess { .. } => {
                self.done.push("stop-process");
                StopEvent::Stopped(self.stop.clone())
            }
            StopAction::Misfit | StopAction::Finish(_) => panic!("every answer fits"),
        }
    }

    fn run_stop(&mut self, mut run: Stop) -> Result<LifecycleState, EngineError> {
        let mut action = StopAction::ReadRow;
        loop {
            let event = match action {
                StopAction::Finish(outcome) => return outcome,
                asked => self.stop_answer(asked),
            };
            action = self.sup.stop_step(&mut run, event);
        }
    }

    fn remove(&mut self, text: &str, force: bool) -> Result<(), RegistryError> {
        let registry = registry();
        let mut run = self.sup.remove(&registry, text, RemoveDisposition::Retain, force, 5)?;
        let mut action = RemovalAction::FindRow;
        loop {
            let event = match action {
                RemovalAction::FindRow => RemovalEvent::Row(Ok(Some(self.state))),
                RemovalAction::Stop(asked) => RemovalEvent::Stop(self.stop_answer(asked)),
                RemovalAction::PutBack { prior, new, cause } => {
                    self.done.push("put-back");
                    self.transition(prior, new, cause);
                    RemovalEvent::PutBack
                }
                RemovalAction::Remove(RemoveAction::FindRow) => {
                    RemovalEvent::Remove(RemoveEvent::Row(Ok(Some(self.state))))
                }
                RemovalAction::Remove(RemoveAction::DeleteRow) => {
                    self.done.push("delete-row");
                    RemovalEvent::Remove(RemoveEvent::Deleted(Ok(())))
                }
                RemovalAction::Remove(_) | RemovalAction::Misfit => panic!("every answer fits"),
                RemovalAction::Finish(outcome) => return outcome,
            };
            action = self.sup.removal_step(&registry, &mut run, event);
        }
    }

    fn stop(&mut self, text: &str) -> Result<LifecycleState, EngineError> {
        let run = self.sup.stop(text, None, 5)?;
        self.run_stop(run)
    }

    fn run_suspend(&mut self, mut run: Suspend) -> Result<LifecycleState, EngineError> {
        let mut action = SuspendAction::ReadRow;
        loop {
            let event = match action {
                SuspendAction::ReadRow => SuspendEvent::Row(Ok(self.state)),
                SuspendAction::ReadSupport(_) => SuspendEvent::Support(Ok(self.support)),
                SuspendAction::EnsureLogDir => SuspendEvent::LogDir(Ok(())),
                SuspendAction::Signal { resume } => {
                    self.done.push(if resume { "signal-resume" } else { "signal-pause" });
                    SuspendEvent::Signalled(Ok(()))
                }
                SuspendAction::Transition { prior, new, cause } => {
                    self.transition(prior, new, cause);
                    SuspendEvent::Transitioned(Ok(()))
                }
                SuspendAction::Misfit => panic!("every answer fits"),
                SuspendAction::Finish(outcome) => return outcome,
            };
            action = self.sup.suspend_step(&mut run, event);
        }
    }

    fn poll(&mut self) -> Vec<RestartPlan> {
        let (mut run, mut action) = self.sup.poll_once();
        loop {
            let event = match action {
                PollAction::Ingest => PollEvent::Ingested,
                PollAction::Poll => PollEvent::Polled(self.exit),
                PollAction::Drain => PollEvent::Drained,
                PollAction::ReadRow => PollEvent::Row(Some(self.state)),
                PollAction::ClearRecord => {
                    self.record = None;
                    PollEvent::Cleared(true)
                }
                PollAction::ReadRecord => PollEvent::Record(self.record),
                PollAction::Book(booking) => {
                    match booking {
                        Booking::Settle { policy } => {
                            self.record = Some(SpawnFacts { policy, restart_count: 0 });
                            self.done.push("settled");
                        }
                        Booking::Count { restart_count, .. } => {
                            let policy = self.record.unwrap().policy;
                            self.record = Some(SpawnFacts { policy, restart_count });
                        }
                    }
                    PollEvent::Booked
                }
                PollAction::EnsureLogDir => PollEvent::LogDir,
                PollAction::Transition { prior, new, cause } => {
                    if !self.transitions_fail {
                        self.transition(prior, new, cause);
                    }
                    PollEvent::Transitioned(!self.transitions_fail)
                }
                PollAction::Misfit => panic!("every answer fits"),
                PollAction::Finish => return run.into_plans(),
            };
            action = self.sup.poll_step(&mut run, event);
        }
    }

    fn send(&mut self, text: &str, pipe: PipeFacts, written: Result<(), BackendError>)
        -> (Result<(), EngineError>, Option<Vec<u8>>) {
        let mut run = self.sup.send_input("svc", text, OS, 5).ok().unwrap();
        let mut action = SendAction::ReadRow;
        let mut bytes = None;
        loop {
            let event = match action {
                SendAction::ReadRow => SendEvent::Row(Ok(self.state)),
                SendAction::ReadSupport(_) => SendEvent::Support(Ok(self.support)),
                SendAction::LookAtPipe => SendEvent::Pipe(pipe),
                SendAction::Write(line) => {
                    bytes = Some(line);
                    SendEvent::Written(written.clone())
                }
                SendAction::Misfit => panic!("every answer fits"),
                SendAction::Finish(outcome) => return (outcome, bytes),
            };
            action = self.sup.send_step(&mut run, event);
        }
    }

    fn set_config(&mut self, text: &str, key: &str, value: &str) {
        let read = ConfigRead::Text(self.config.clone());
        let write = registry()
            .set_config(&name(text), key, value, Ok(Some(row(text))), Ok(()), read)
            .ok()
            .unwrap();
        self.config = write.body;
    }

    fn held(&self, text: &str) -> bool {
        self.sup.is_held(&name(text))
    }
}

#[test]
fn default_stop_window_is_30s() {
    assert_eq!(default_stop_window(), Duration::from_secs(30));
}

#[test]
fn supervisor_constructs_empty() {
    assert!(Supervisor::new().names().is_empty());
    assert!(Supervisor::default().names().is_empty());
    assert!(!Supervisor::new().has_runtime());
    assert!(Supervisor::with_runtime().has_runtime());
}

#[test]
fn a_start_goes_through_starting_to_running() {
    let mut w = world();
    assert_eq!(w.start("svc"), Ok(LifecycleState::Running));
    assert!(w.held("svc"));
    assert_eq!(w.done, vec!["snapshot", "spawn", "record"]);
    let states: Vec<_> = w.transitions.iter().map(|(p, n, _)| (*p, *n)).collect();
    assert_eq!(
        states,
        vec![
            (LifecycleState::Registered, LifecycleState::Starting),
            (LifecycleState::Starting, LifecycleState::Running),
        ]
    );
    assert_eq!(w.sup.current_run_id(&name("svc")).unwrap().as_str(), "run-42-0");
    assert_eq!(w.sup.supervised(&name("svc")).unwrap().usage_cursor, 17);
}

#[test]
fn start_writes_the_effective_config_snapshot_tagged_with_source() {
    let mut w = world();
    w.set_config("snp", "model", "gpt-4o");
    w.start("snp").unwrap();
    assert_eq!(w.state, LifecycleState::Running);
    assert_eq!(
        w.snapshot,
        vec![("model".to_string(), "gpt-4o".to_string(), "instance")],
        "model must be present tagged `instance`"
    );
}

#[test]
fn restart_via_start_inner_overwrites_the_snapshot_with_the_new_value() {
    let mut w = world();
    w.set_config("rsn", "model", "first");
    w.start("rsn").unwrap();
    assert_eq!(w.snapshot, vec![("model".to_string(), "first".to_string(), "instance")]);
    w.stop("rsn").unwrap();

    w.set_config("rsn", "model", "second");
    w.start("rsn").unwrap();
    assert_eq!(w.state, LifecycleState::Running);
    assert_eq!(
        w.snapshot,
        vec![("model".to_string(), "second".to_string(), "instance")],
        "the snapshot must reflect the latest resolved value after re-start (AC7)"
    );
}

#[test]
fn a_start_is_refused_where_something_runs() {
    let mut w = world();
    w.start("svc").unwrap();
    assert!(matches!(w.start("svc"), Err(EngineError::InvalidTransition(_))));
    assert!(matches!(w.start("Bad Name"), Err(EngineError::InvalidName { .. })));
}

#[test]
fn a_failed_instance_can_be_started_again() {
    let mut w = world();
    w.state = LifecycleState::Failed;
    assert_eq!(w.start("svc"), Ok(LifecycleState::Running));
}

#[test]
fn unresolved_secret_rejects_start_before_any_state_change() {
    let env_key = "KTESIO_SUP_DEFINITELY_UNSET_SECRET_KEY_XYZ";
    let mut w = world();
    w.config = format!("model = \"secret:{env_key}\"\n");
    let prior = w.state;
    match w.start("noresolve_eng").unwrap_err() {
        EngineError::Secret { name: n, detail } => {
            assert_eq!(n, "noresolve_eng");
            assert!(detail.contains(env_key), "detail must name NAME; {detail}");
        }
        other => panic!("expected EngineError::Secret, got {other:?}"),
    }
    assert_eq!(w.state, prior);
    assert!(w.done.is_empty(), "an unresolved secret must reject before the snapshot write");
}

#[test]
fn secret_leaf_delivers_cleartext_to_the_adapter_but_masks_snapshot_and_events() {
    const SENTINEL: &str = "s3cr3t-engine-sentinel-abc";
    let env_key = "KTESIO_SUP_SECRET_TEST_KEY";
    let mut w = world();
    w.config = format!("model = \"secret:{env_key}\"\n");
    w.secrets = vec![("KTESIO_SUP_SECRET_TEST_KEY", SENTINEL)];
    w.start("sekeng").unwrap();
    assert_eq!(w.state, LifecycleState::Running);

    assert_eq!(w.delivered, vec![("model".to_string(), SENTINEL.to_string())]);

    let snapshot = format!("{:?}", w.snapshot);
    assert!(!snapshot.contains(SENTINEL), "the snapshot leaked the secret:\n{snapshot}");
    assert!(snapshot.contains("secret:****"), "snapshot must mask; {snapshot}");

    let events = format!("{:?}", w.transitions);
    assert!(!events.contains(SENTINEL), "a transition event leaked the secret:\n{events}");
}

#[test]
fn snapshot_write_failure_rejects_the_start_before_the_starting_transition() {
    let mut w = world();
    w.snapshot_fails = true;
    let err = w.start("bad").unwrap_err();
    assert!(
        matches!(&err, EngineError::Snapshot { name, .. } if name == "bad"),
        "expected a typed Snapshot error, got {err:?}"
    );
    assert_eq!(w.state, LifecycleState::Registered);
}

#[test]
fn start_with_an_unwritable_file_target_rejects_before_any_state_change() {
    let mut w = world();
    w.apply_fails = true;
    assert!(matches!(w.start("svc"), Err(EngineError::AdapterUnresolved { .. })));
    assert_eq!(w.state, LifecycleState::Registered);
    assert!(w.transitions.is_empty() && w.done.is_empty());
}

#[test]
fn a_launch_that_fails_lands_in_failed() {
    let mut w = world();
    w.spawn_fails = true;
    match w.start("svc").unwrap_err() {
        EngineError::LaunchFailed { detail, .. } => assert!(detail.contains("no such file"), "{detail}"),
        other => panic!("expected LaunchFailed, got {other:?}"),
    }
    assert_eq!(w.state, LifecycleState::Failed);
    assert!(!w.held("svc"));

    let mut w = world();
    w.startup_exit = Some(Some(3));
    match w.start("svc").unwrap_err() {
        EngineError::LaunchFailed { detail, .. } => {
            assert_eq!(detail, "exited immediately during startup with code 3")
        }
        other => panic!("expected LaunchFailed, got {other:?}"),
    }
    assert_eq!(w.state, LifecycleState::Failed);
}

#[test]
fn a_process_that_cannot_be_recorded_is_killed() {
    let mut w = world();
    w.record_fails = true;
    assert!(matches!(w.start("svc"), Err(EngineError::LaunchFailed { .. })));
    assert!(w.done.contains(&"kill"));
    assert_eq!(w.state, LifecycleState::Failed);
    assert!(!w.held("svc"));
}

#[test]
fn self_reported_start_observed_listener_is_a_no_op() {
    let result = plan_observed_listener(
        &name("selfrep_obs"),
        "self-reported",
        Some("http://127.0.0.1:9"),
        false,
    )
    .expect("self-reported is a no-op, not an error");
    assert!(result.is_none(), "a self-reported instance runs no listener");
}

#[test]
fn engine_observed_without_upstream_rejects_with_a_clear_error() {
    match plan_observed_listener(&name("obs_noup"), "engine-observed", None, true) {
        Err(EngineError::ObservedMetering { name: n, detail }) => {
            assert_eq!(n, "obs_noup");
            assert!(
                detail.contains("metering.upstream_base_url"),
                "detail names the missing key: {detail}"
            );
        }
        other => panic!("expected ObservedMetering, got {other:?}"),
    }
}

#[test]
fn engine_observed_without_runtime_handle_rejects_cleanly() {
    let mut w = world();
    w.source = "engine-observed";
    w.upstream = Some("http://127.0.0.1:9".to_string());
    let err = w.start("obs_nort").unwrap_err();
    assert!(
        matches!(err, EngineError::ObservedMetering { .. }),
        "expected ObservedMetering, got {err:?}"
    );
    assert!(err.message().contains("runtime"), "names the cause: {}", err.message());
    assert_eq!(w.state, LifecycleState::Registered);
}

#[test]
fn observed_traffic_gets_a_listener_where_there_is_a_runtime() {
    let mut w = world();
    w.sup = Supervisor::with_runtime();
    w.source = "engine-observed";
    w.upstream = Some("http://127.0.0.1:9".to_string());
    assert_eq!(w.start("obs"), Ok(LifecycleState::Running));
    assert_eq!(w.done[0], "listener");
    assert!(w.sup.supervised(&name("obs")).unwrap().observed);
}

#[test]
fn a_stop_drains_stops_clears_and_settles() {
    let mut w = world();
    w.start("svc").unwrap();
    w.done.clear();
    assert_eq!(w.stop("svc"), Ok(LifecycleState::Stopped));
    assert_eq!(w.done, vec!["drain", "stop-process", "clear-record"]);
    assert!(!w.held("svc"));
    let last = &w.transitions.last().unwrap().2;
    assert_eq!(*last, TransitionCause::StopGraceful);
}

#[test]
fn a_stop_that_had_to_kill_says_so() {
    let mut w = world();
    w.start("svc").unwrap();
    w.stop = Ok(true);
    w.stop("svc").unwrap();
    assert!(matches!(w.transitions.last().unwrap().2, TransitionCause::StopForced { .. }));
}

#[test]
fn a_stop_that_fails_keeps_the_process() {
    let mut w = world();
    w.start("svc").unwrap();
    w.stop = Err(BackendError::StopUnconfirmed { timeout_secs: 5 });
    assert!(matches!(
        w.stop("svc"),
        Err(EngineError::StopUnconfirmed { name, timeout_secs: 5 }) if name == "svc"
    ));
    assert!(w.held("svc"));
    assert!(w.record.is_some());
    assert_eq!(w.state, LifecycleState::Stopping);
}

#[test]
fn stop_on_a_stopping_instance_without_the_unconfirmed_flag_takes_the_ordinary_path() {
    let mut w = world();
    w.start("notflagged").unwrap();
    w.state = LifecycleState::Stopping;
    assert!(
        !w.sup.supervised(&name("notflagged")).unwrap().stop_unconfirmed,
        "a freshly-started handle must default to NOT stop_unconfirmed"
    );
    let err = w.stop("notflagged").unwrap_err();
    assert!(matches!(err, EngineError::InvalidTransition(_)), "{err:?}");
}

#[test]
fn stop_retry_on_a_stuck_unconfirmed_instance_polls_cheaply_no_compounding() {
    let mut w = world();
    w.start("stuck").unwrap();
    w.state = LifecycleState::Stopping;
    w.sup.mark_stop_unconfirmed(&name("stuck"));
    w.done.clear();

    let err = w.stop("stuck").unwrap_err();
    assert!(
        matches!(&err, EngineError::StopUnconfirmed { name, .. } if name == "stuck"),
        "expected StopUnconfirmed, got {err:?}"
    );
    assert_eq!(w.done, vec!["poll"], "a retry must poll and never stop the process again");
    assert_eq!(w.state, LifecycleState::Stopping);
    assert!(w.held("stuck"), "the handle must be retained across a failed retry");
}

#[test]
fn stop_retry_self_heals_once_the_stuck_process_actually_exits() {
    let mut w = world();
    w.start("heals").unwrap();
    w.state = LifecycleState::Stopping;
    w.sup.mark_stop_unconfirmed(&name("heals"));
    w.exit = Some(None);

    let state = w.stop("heals").expect("a retry must self-heal once the process is confirmed dead");
    assert_eq!(state, LifecycleState::Stopped);
    assert!(!w.held("heals"), "the handle must be released once reconciled");
}

#[test]
fn poll_once_with_no_handles_is_a_noop() {
    let mut w = world();
    assert!(w.poll().is_empty());
    assert!(w.transitions.is_empty());
}

#[test]
fn poll_once_leaves_a_living_process_alone() {
    let mut w = world();
    w.start("svc").unwrap();
    let before = w.transitions.len();
    assert!(w.poll().is_empty());
    assert_eq!(w.transitions.len(), before);
    assert!(w.held("svc"));
}

#[test]
fn crash_of_a_never_policy_instance_lands_failed_no_restart() {
    let mut w = world();
    w.policy = Some(RestartPolicy::Never);
    w.start("nevr").unwrap();
    assert_eq!(w.state, LifecycleState::Running);

    w.exit = Some(Some(1));
    let plans = w.poll();
    assert!(plans.is_empty(), "never policy must NOT schedule a restart");
    assert_eq!(w.state, LifecycleState::Failed);

    let (_, new, cause) = w.transitions.last().unwrap();
    assert_eq!(*new, LifecycleState::Failed);
    assert!(cause_suffix(cause).contains("crashed"), "cause={cause:?}");
    assert!(!w.held("nevr"));
}

#[test]
fn on_failure_crash_restarts_increments_count_then_a_clean_run_resets() {
    let mut w = world();
    w.policy = Some(RestartPolicy::OnFailure);
    w.start("recov").unwrap();

    w.exit = Some(Some(1));
    let plans = w.poll();
    assert_eq!(plans.len(), 1);
    assert_eq!(plans[0].attempt, 1);
    assert_eq!(plans[0].delay, Duration::from_millis(10));
    assert_eq!(w.state, LifecycleState::Failed);

    w.restart(&plans[0]).unwrap();
    assert_eq!(w.state, LifecycleState::Running);
    assert_eq!(w.record.unwrap().restart_count, 1);
    match &w.transitions.last().unwrap().2 {
        TransitionCause::Restarted { count, waited_ms } => {
            assert_eq!(*count, 1);
            assert_eq!(*waited_ms, 10);
        }
        other => panic!("a restart event must be recorded, got {other:?}"),
    }

    w.stop("recov").unwrap();
    w.start("recov").unwrap();
    assert_eq!(w.record.unwrap().restart_count, 0, "a fresh start resets the count");
}

#[test]
fn crash_loop_stops_after_exactly_five_consecutive_failures() {
    let mut w = world();
    w.start("loopy").unwrap();

    let mut last_attempt = 0;
    for _ in 0..6 {
        w.exit = Some(Some(1));
        let plans = w.poll();
        assert_eq!(w.state, LifecycleState::Failed);
        if plans.is_empty() {
            break;
        }
        assert_eq!(plans.len(), 1);
        last_attempt = plans[0].attempt;
        w.restart(&plans[0]).unwrap();
    }

    assert_eq!(
        last_attempt, 4,
        "the last restart plan should be attempt 4 (the 5th crash trips the loop)"
    );
    assert_eq!(w.state, LifecycleState::Failed);
    assert!(w.done.contains(&"settled"), "a policy seed is retained after the terminal crash-loop");
    assert_eq!(
        w.record.unwrap().policy,
        RestartPolicy::OnFailure,
        "the policy is retained for AC9's show"
    );
    match &w.transitions.last().unwrap().2 {
        TransitionCause::Crashed { detail } => assert!(
            detail.contains("crash-loop") && detail.contains("5 consecutive failures"),
            "the crash-loop reason must be in the event cause; cause={detail}"
        ),
        other => panic!("expected a crash, got {other:?}"),
    }
}

#[test]
fn poll_once_ignores_an_exit_during_a_requested_stop_not_a_crash() {
    let mut w = world();
    w.start("stopping").unwrap();
    w.state = LifecycleState::Stopping;
    w.exit = Some(Some(0));
    assert!(w.poll().is_empty(), "an exit during a requested stop is not a crash");
    assert!(!w.held("stopping"));
    assert_eq!(w.state, LifecycleState::Stopping);
}

#[test]
fn poll_once_reconciles_a_stuck_unconfirmed_stop_to_stopped_self_healing() {
    let mut w = world();
    w.start("reaperheals").unwrap();
    w.state = LifecycleState::Stopping;
    w.sup.mark_stop_unconfirmed(&name("reaperheals"));
    w.exit = Some(None);
    assert!(w.poll().is_empty(), "this is a reconciliation, never a crash/restart");
    assert!(!w.held("reaperheals"));
    assert_eq!(w.state, LifecycleState::Stopped);
}

#[test]
fn pause_and_resume_signal_where_that_is_guaranteed() {
    let mut w = world();
    w.start("svc").unwrap();
    w.done.clear();
    let run = w.sup.pause("svc", OS).ok().unwrap();
    assert_eq!(w.run_suspend(run), Ok(LifecycleState::Paused));
    let run = w.sup.resume("svc", OS).ok().unwrap();
    assert_eq!(w.run_suspend(run), Ok(LifecycleState::Running));
    assert_eq!(w.done, vec!["signal-pause", "signal-resume"]);
    assert!(w.held("svc"));
}

#[test]
fn a_best_effort_pause_signals_nothing_and_an_unsupported_one_is_refused() {
    let mut w = world();
    w.start("svc").unwrap();
    w.done.clear();
    w.support = SupportLevel::BestEffort;
    let run = w.sup.pause("svc", OS).ok().unwrap();
    assert_eq!(w.run_suspend(run), Ok(LifecycleState::Paused));
    assert!(w.done.is_empty());
    assert!(matches!(w.transitions.last().unwrap().2, TransitionCause::PauseBestEffort { .. }));

    w.support = SupportLevel::Unsupported;
    let run = w.sup.resume("svc", OS).ok().unwrap();
    assert!(matches!(w.run_suspend(run), Err(EngineError::CapabilityUnsupported { .. })));
    assert_eq!(w.state, LifecycleState::Paused);
    let run = w.sup.pause("svc", OS).ok().unwrap();
    assert!(matches!(w.run_suspend(run), Err(EngineError::InvalidTransition(_))));
}

#[test]
fn a_breach_pauses_and_stops_with_its_own_cause() {
    let mut w = world();
    w.start("svc").unwrap();
    let cause = TransitionCause::budget_exceeded(BreachScope::PerRun, 30, 60);
    let run = w.sup.pause_with_cause(&name("svc"), cause.clone(), OS);
    assert_eq!(w.run_suspend(run), Ok(LifecycleState::Paused));
    assert_eq!(w.transitions.last().unwrap().2, cause);
    let run = w.sup.stop_with_cause(&name("svc"), cause.clone(), 5);
    assert_eq!(w.run_stop(run), Ok(LifecycleState::Stopped));
    assert!(w.transitions.iter().any(|(_, new, why)| {
        *new == LifecycleState::Stopping && *why == cause
    }));
}

const PIPE: PipeFacts = PipeFacts { timed_out: false, has_stdin: true };

#[test]
fn send_input_on_invalid_name_is_rejected() {
    let err = world().sup.send_input("Bad Name", "hi", OS, 5).err().unwrap();
    assert!(matches!(err, EngineError::InvalidName { .. }), "expected InvalidName, got {err:?}");
}

#[test]
fn input_is_written_as_one_line() {
    let mut w = world();
    w.start("svc").unwrap();
    assert_eq!(w.send("hi", PIPE, Ok(())), (Ok(()), Some(b"hi\n".to_vec())));
    assert_eq!(w.send("hi\n", PIPE, Ok(())), (Ok(()), Some(b"hi\n".to_vec())));
    assert_eq!(w.send("", PIPE, Ok(())), (Ok(()), Some(b"\n".to_vec())));
}

#[test]
fn input_is_refused_without_a_running_instance_support_or_pipe() {
    let mut w = world();
    assert!(matches!(w.send("x", PIPE, Ok(())), (Err(EngineError::NotRunning { .. }), None)));
    w.state = LifecycleState::Running;
    assert!(matches!(
        w.send("x", PIPE, Ok(())),
        (Err(EngineError::InteractionUnavailable { .. }), None)
    ));
    w.state = LifecycleState::Registered;
    w.start("svc").unwrap();
    assert!(matches!(
        w.send("x", PipeFacts { timed_out: false, has_stdin: false }, Ok(())),
        (Err(EngineError::InteractionUnavailable { .. }), None)
    ));
    assert!(matches!(
        w.send("x", PipeFacts { timed_out: true, has_stdin: true }, Ok(())),
        (Err(EngineError::InteractionTimedOut { timeout_secs: 5, .. }), None)
    ));
    w.support = SupportLevel::Unsupported;
    assert!(matches!(
        w.send("x", PIPE, Ok(())),
        (Err(EngineError::CapabilityUnsupported { .. }), None)
    ));
}

#[test]
fn send_input_after_the_process_exits_on_its_own_is_a_backend_error() {
    let mut w = world();
    w.start("svc").unwrap();
    let broken = BackendError::Control { op: "write".to_string(), detail: "pipe".to_string() };
    let (err, _) = w.send("hello", PIPE, Err(broken));
    assert!(matches!(err, Err(EngineError::Backend { .. })), "expected Backend, got {err:?}");
    let (err, _) = w.send("hello", PIPE, Err(BackendError::StdinTimedOut { timeout_secs: 9 }));
    assert!(matches!(err, Err(EngineError::InteractionTimedOut { timeout_secs: 9, .. })));
}

/// Adopt what is recorded; `alive` says whether the processes are.
fn adopt(w: &mut World, records: Option<Vec<OrphanRecord>>, alive: bool) -> usize {
    let (mut run, mut action) = w.sup.adopt_orphans(records);
    loop {
        let event = match action {
            AdoptAction::Adopt => AdoptEvent::Adopted(alive),
            AdoptAction::Mint => AdoptEvent::Minted { nanos: 7, nonce: 1 },
            AdoptAction::MeasureLog => AdoptEvent::LogLength(3),
            AdoptAction::ReadSource => AdoptEvent::Source(None),
            AdoptAction::ReadRow => AdoptEvent::Row(Some(w.state)),
            AdoptAction::EnsureLogDir => AdoptEvent::LogDir,
            AdoptAction::Transition { prior, new, cause } => {
                if !w.transitions_fail {
                    w.transition(prior, new, cause);
                }
                AdoptEvent::Transitioned(!w.transitions_fail)
            }
            AdoptAction::ClearRecord => {
                w.done.push("clear-record");
                AdoptEvent::Cleared
            }
            AdoptAction::Misfit => panic!("every answer fits"),
            AdoptAction::Finish => return run.adopted(),
        };
        action = w.sup.adopt_step(&mut run, event);
    }
}

fn orphan(text: &str, pid: u32) -> OrphanRecord {
    OrphanRecord { name: name(text), pid, last_known_cause: None }
}

#[test]
fn adopt_orphans_with_no_records_adopts_nothing() {
    let mut w = world();
    assert_eq!(adopt(&mut w, Some(vec![]), true), 0);
    assert_eq!(adopt(&mut w, None, true), 0);
    assert!(w.sup.names().is_empty());
}

#[test]
fn adopt_orphans_skips_a_policy_only_seed_record() {
    let mut w = world();
    assert_eq!(adopt(&mut w, Some(vec![orphan("seedonly", 0)]), false), 0);
    assert_eq!(w.state, LifecycleState::Registered);
    assert!(w.done.is_empty(), "the seed stays");
}

#[test]
fn a_living_orphan_is_held_and_a_dead_one_reconciled() {
    let mut w = world();
    w.state = LifecycleState::Running;
    assert_eq!(adopt(&mut w, Some(vec![orphan("svc", 9)]), true), 1);
    assert!(w.held("svc"));
    assert_eq!(w.state, LifecycleState::Running);

    let mut w = world();
    w.state = LifecycleState::Running;
    assert_eq!(adopt(&mut w, Some(vec![orphan("svc", 9)]), false), 0);
    assert!(!w.held("svc"));
    assert_eq!(w.state, LifecycleState::Failed);
    assert_eq!(w.done, vec!["clear-record"]);
}

#[test]
fn an_orphan_that_could_not_be_failed_keeps_its_record() {
    let mut w = world();
    w.state = LifecycleState::Running;
    w.transitions_fail = true;
    assert_eq!(adopt(&mut w, Some(vec![orphan("svc", 9), orphan("two", 8)]), false), 0);
    assert_eq!(w.state, LifecycleState::Running);
    assert!(w.done.is_empty(), "the next session can try again");
}

fn limits(action: BreachAction, rated: bool) -> Limits {
    Limits {
        budget: TokenBudget { per_run: Some(30), cumulative: None },
        token_action: action,
        rated,
        cap: CostCap { per_run: None, cumulative: None },
        cost_action: BreachAction::Warn,
    }
}

/// Enforce limits; what was asked for, in order.
fn enforce(w: &mut World, given: Option<Limits>, decision: BreachDecision) -> Vec<String> {
    let mut run = w.sup.enforce_budget(&name("svc"));
    let mut action = EnforceAction::ReadLimits;
    let mut asked = Vec::new();
    loop {
        let event = match action {
            EnforceAction::ReadLimits => EnforceEvent::Limits(given),
            EnforceAction::EvaluateTokens(_) => EnforceEvent::Evaluated(decision),
            EnforceAction::EvaluateDollars(limits) => {
                EnforceEvent::Evaluated(if limits.cap.per_run.is_some() {
                    decision
                } else {
                    BreachDecision::WithinBudget
                })
            }
            EnforceAction::Record(breach) => {
                let unit = match breach.dimension {
                    BreachDimension::Tokens => "",
                    BreachDimension::Dollars => " micros",
                };
                asked.push(format!("record {} of {}{unit}", breach.observed, breach.limit));
                EnforceEvent::Recorded
            }
            EnforceAction::Pause(cause) => {
                asked.push(format!("pause{}", cause_suffix(&cause)));
                EnforceEvent::Enforced
            }
            EnforceAction::Stop(cause) => {
                asked.push(format!("stop{}", cause_suffix(&cause)));
                EnforceEvent::Enforced
            }
            EnforceAction::Misfit => panic!("every answer fits"),
            EnforceAction::Finish => return asked,
        };
        action = w.sup.enforce_step(&mut run, event);
    }
}

fn breached(action: BreachAction) -> BreachDecision {
    BreachDecision::Breached { scope: BreachScope::PerRun, action, limit: 30, observed: 60 }
}

#[test]
fn a_breach_is_recorded_then_acted_on() {
    let mut w = world();
    w.start("svc").unwrap();
    assert_eq!(
        enforce(&mut w, Some(limits(BreachAction::Pause, false)), breached(BreachAction::Pause)),
        vec!["record 60 of 30", "pause (breach: per-run tokens)"]
    );
    let mut w = world();
    w.start("svc").unwrap();
    assert_eq!(
        enforce(&mut w, Some(limits(BreachAction::Stop, false)), breached(BreachAction::Stop)),
        vec!["record 60 of 30", "stop (breach: per-run tokens)"]
    );
}

#[test]
fn both_breaches_of_one_event_are_recorded_before_either_is_acted_on() {
    for action in [BreachAction::Pause, BreachAction::Stop] {
        let mut w = world();
        w.start("svc").unwrap();
        let mut both = limits(action, true);
        both.cap = CostCap { per_run: Some(Micros(1)), cumulative: None };
        both.cost_action = action;
        let asked = enforce(&mut w, Some(both), breached(action));
        assert_eq!(asked[..2], ["record 60 of 30", "record 60 of 30 micros"]);
        assert!(asked.len() > 2, "{asked:?}");
        assert!(asked[2..].iter().all(|step| !step.starts_with("record")), "{asked:?}");
    }
}

#[test]
fn a_warning_is_recorded_once() {
    let mut w = world();
    w.start("svc").unwrap();
    let warn = limits(BreachAction::Warn, false);
    assert_eq!(enforce(&mut w, Some(warn), breached(BreachAction::Warn)), vec!["record 60 of 30"]);
    assert!(enforce(&mut w, Some(warn), breached(BreachAction::Warn)).is_empty());
}

#[test]
fn nothing_is_done_within_budget_or_without_limits() {
    let mut w = world();
    w.start("svc").unwrap();
    assert!(enforce(&mut w, None, breached(BreachAction::Stop)).is_empty());
    assert!(enforce(
        &mut w,
        Some(limits(BreachAction::Stop, true)),
        BreachDecision::WithinBudget
    )
    .is_empty());
}

#[test]
fn usage_is_drained_from_where_it_was_left() {
    let mut w = world();
    w.start("svc").unwrap();
    let log = b"0123456789abcdefg\nnew line\npart";
    assert_eq!(w.sup.drain_usage_for(&name("svc"), log, DrainMode::MidRun), Some(17..27));
    assert_eq!(w.sup.drain_usage_for(&name("svc"), log, DrainMode::MidRun), None);
    assert_eq!(w.sup.drain_usage_for(&name("svc"), log, DrainMode::Terminal), Some(27..31));
    assert_eq!(w.sup.drain_usage_for(&name("svc"), b"short", DrainMode::MidRun), None);
    assert_eq!(w.sup.supervised(&name("svc")).unwrap().usage_cursor, 5);
    assert_eq!(w.sup.drain_usage_for(&name("other"), log, DrainMode::Terminal), None);
}

#[test]
fn a_fresh_process_is_watched_until_it_ends_or_the_window_does() {
    let broken = || {
        Err(BackendError::Control { op: "poll".to_string(), detail: "interrupted".to_string() })
    };
    let early = Duration::from_millis(299);
    let late = Duration::from_millis(300);
    let again = StartupWatch::Again(Duration::from_millis(10));
    assert_eq!(watch_startup(Ok(None), early), again);
    assert_eq!(watch_startup(broken(), early), again);
    assert_eq!(watch_startup(Ok(None), late), StartupWatch::Over(None));
    assert_eq!(watch_startup(broken(), late), StartupWatch::Over(None));
    for watched in [early, late] {
        assert_eq!(watch_startup(Ok(Some(Some(3))), watched), StartupWatch::Over(Some(Some(3))));
        assert_eq!(watch_startup(Ok(Some(None)), watched), StartupWatch::Over(Some(None)));
    }
    assert_eq!(exit_shown(Ok(Some(Some(0)))), Some(Some(0)));
    assert_eq!(exit_shown(broken()), None);
}

#[test]
fn a_run_reads_from_where_the_log_ended_before_its_process() {
    let mut world = world();
    world.start("demo").unwrap();
    assert_eq!(world.sup.supervised(&name("demo")).unwrap().usage_cursor, 17);
}

#[test]
fn a_poll_ingests_first_and_looks_at_who_is_left_then() {
    let mut world = world();
    for text in ["one", "two", "three"] {
        world.state = LifecycleState::Registered;
        world.start(text).unwrap();
    }
    let (mut run, action) = world.sup.poll_once();
    assert!(matches!(action, PollAction::Ingest));
    assert!(run.name().is_none());
    world.sup.release(&name("two"));
    let mut action = world.sup.poll_step(&mut run, PollEvent::Ingested);
    let mut seen = Vec::new();
    while let Some(looked_at) = run.name().cloned() {
        assert!(matches!(action, PollAction::Poll));
        seen.push(looked_at.as_str().to_string());
        action = world.sup.poll_step(&mut run, PollEvent::Polled(None));
    }
    assert!(matches!(action, PollAction::Finish));
    seen.sort();
    assert_eq!(seen, vec!["one", "three"]);
    assert!(run.into_plans().is_empty());
}

#[test]
fn the_listener_is_in_what_is_launched_and_not_in_the_snapshot() {
    let mut w = world();
    w.start("svc").unwrap();
    assert_eq!(
        w.configs,
        vec![
            ("secrets", ConfigChoice::Plain),
            ("mapping", ConfigChoice::Plain),
            ("snapshot", ConfigChoice::Plain),
        ]
    );
    let mut w = world();
    w.sup = Supervisor::with_runtime();
    w.source = "engine-observed";
    w.upstream = Some("https://api.example.com".to_string());
    w.start("svc").unwrap();
    assert_eq!(
        w.configs,
        vec![
            ("secrets", ConfigChoice::WithListener),
            ("mapping", ConfigChoice::WithListener),
            ("snapshot", ConfigChoice::Plain),
        ]
    );
}

#[test]
fn a_restart_that_comes_too_late_is_refused() {
    let plan = RestartPlan { name: name("svc"), attempt: 1, delay: Duration::from_millis(10) };
    for state in [
        LifecycleState::Registered,
        LifecycleState::Stopped,
        LifecycleState::Running,
        LifecycleState::Paused,
    ] {
        let mut w = world();
        w.state = state;
        let err = w.restart(&plan).unwrap_err();
        assert!(matches!(err, EngineError::InvalidTransition(_)), "{state:?}: {err:?}");
        assert!(w.done.is_empty() && w.transitions.is_empty());
    }
    let mut w = world();
    w.state = LifecycleState::Failed;
    assert_eq!(w.restart(&plan), Ok(LifecycleState::Running));
}

#[test]
fn a_held_process_is_stopped_before_its_row_is_deleted() {
    let mut w = world();
    w.start("svc").unwrap();
    w.done.clear();
    assert!(w.remove("svc", false).is_err(), "a running instance is not removed unforced");
    assert!(w.done.is_empty() && w.held("svc"));
    assert!(w.remove("svc", true).is_ok());
    assert!(!w.held("svc"));
    let stopped = w.done.iter().position(|step| *step == "stop-process").unwrap();
    let deleted = w.done.iter().position(|step| *step == "delete-row").unwrap();
    assert!(stopped < deleted, "{:?}", w.done);

    let mut w = world();
    w.start("svc").unwrap();
    w.state = LifecycleState::Stopping;
    w.done.clear();
    let _ = w.remove("svc", false);
    assert!(!(w.held("svc") && w.done.contains(&"delete-row")), "{:?}", w.done);
}

#[test]
fn an_instance_whose_teardown_fails_is_what_it_was() {
    let mut w = world();
    w.start("svc").unwrap();
    w.done.clear();
    w.transitions.clear();
    w.stop = Err(BackendError::Control { op: "stop".to_string(), detail: "denied".to_string() });
    assert!(w.remove("svc", true).is_err());
    assert_eq!(w.state, LifecycleState::Running);
    assert!(w.held("svc"));
    assert!(w.done.contains(&"put-back") && !w.done.contains(&"delete-row"), "{:?}", w.done);

    let mut w = world();
    w.start("svc").unwrap();
    w.done.clear();
    w.stop = Err(BackendError::StopUnconfirmed { timeout_secs: 5 });
    assert!(w.remove("svc", true).is_err());
    assert!(!w.done.contains(&"put-back") && !w.done.contains(&"delete-row"), "{:?}", w.done);
}

#[test]
fn manifest_start_uses_the_snapshot_launch_even_when_the_manifest_changes_live() {
    let args = |args: &[&str]| args.iter().map(|arg| arg.to_string()).collect::<Vec<String>>();
    let mut w = world();
    w.kept_launch = args(&["--linger-ms", "600000", "--dump", "argv.txt"]);
    w.manifest_launch =
        args(&["--linger-ms", "600000", "--dump", "argv.txt", "--decoy-from-reread"]);
    w.start("del").unwrap();
    assert_eq!(w.state, LifecycleState::Running);
    assert!(
        w.argv.iter().any(|arg| arg == "--linger-ms"),
        "the snapshotted start args must reach argv; argv={:?}",
        w.argv
    );
    assert!(
        !w.argv.iter().any(|arg| arg == "--decoy-from-reread"),
        "the re-read decoy must NOT appear; argv={:?}",
        w.argv
    );
    assert!(!w.done.contains(&"resolve-launch"));
}

#[test]
fn a_terminal_crash_that_could_not_be_recorded_keeps_its_record() {
    for fails in [true, false] {
        let mut w = world();
        w.policy = Some(RestartPolicy::Never);
        w.start("svc").unwrap();
        let record = w.record;
        w.done.clear();
        w.exit = Some(Some(1));
        w.transitions_fail = fails;
        assert!(w.poll().is_empty());
        assert_eq!(w.done.contains(&"settled"), !fails, "{:?}", w.done);
        if fails {
            assert_eq!(w.record, record, "left for a later session to reconcile");
            assert_eq!(w.state, LifecycleState::Running);
        } else {
            assert_eq!(w.state, LifecycleState::Failed);
        }
    }
}
