//! The registry, over a store and files that are held in memory.
use ktesio_engine::capability::{
    Capability, CapabilityDeclaration, OsId, SupportLevel,
};
use ktesio_engine::config::{ConfigLayer, SourceLayer};
use ktesio_engine::effective::{EffectiveConfig, ResolvedValue};
use ktesio_engine::engine::config_instance;
use ktesio_engine::error::{ConfigError, RegistryError, SecretError, StoreError};
use ktesio_engine::instance::{AdapterRef, AdapterSnapshot, AgentInstance};
use ktesio_engine::lifecycle::LifecycleState;
use ktesio_engine::name::InstanceName;
use ktesio_engine::paths::StateDirEnv;
use ktesio_engine::register::{RegisterAction, RegisterEvent};
use ktesio_engine::registry::{
    reveal_failure, reveal_secrets, ConfigRead, Registry, SnapshotFailure,
};
use ktesio_engine::removal::stop_before_removal;
use ktesio_engine::remove::{RemoveAction, RemoveDisposition, RemoveEvent};
use ktesio_engine::restart::RestartPolicy;
use ktesio_engine::secret::SecretString;
use ktesio_engine::writable::UNWRITABLE;
use std::collections::BTreeMap;
use std::path::{Path, PathBuf};

const OS: OsId = OsId::Linux;

/// A registry with its store and its files.
struct World {
    registry: Registry,
    rows: BTreeMap<String, AgentInstance>,
    files: BTreeMap<PathBuf, String>,
    homes: Vec<PathBuf>,
    snapshots: BTreeMap<PathBuf, AdapterSnapshot>,
    manifests: BTreeMap<PathBuf, Option<String>>,
    home_fails: bool,
    config_fails: bool,
    snapshot_fails: bool,
    deletes_fail: bool,
    reads_fail: bool,
    clears_home: bool,
}

fn name(text: &str) -> InstanceName {
    InstanceName::new(text).unwrap()
}

fn declaration() -> CapabilityDeclaration {
    CapabilityDeclaration::new()
        .with(Capability::Pause, OsId::Linux, SupportLevel::Guaranteed)
        .with(Capability::Pause, OsId::Windows, SupportLevel::BestEffort)
        .with(Capability::Interaction, OsId::Linux, SupportLevel::Guaranteed)
}

fn adapter(kind: &str) -> AdapterSnapshot {
    AdapterSnapshot {
        kind: kind.to_string(),
        metering_source: "self-reported".to_string(),
        manifest_path: None,
        declaration: declaration(),
    }
}

fn open_world() -> World {
    World {
        registry: Registry::open(Some(PathBuf::from("/state")), None, None).ok().unwrap(),
        rows: BTreeMap::new(),
        files: BTreeMap::new(),
        homes: Vec::new(),
        snapshots: BTreeMap::new(),
        manifests: BTreeMap::new(),
        home_fails: false,
        config_fails: false,
        snapshot_fails: false,
        deletes_fail: false,
        reads_fail: false,
        clears_home: true,
    }
}

fn or_fail(fails: bool) -> Result<(), String> {
    if fails {
        Err("not a directory".to_string())
    } else {
        Ok(())
    }
}

impl World {
    fn found(&self, name: &InstanceName) -> Result<Option<AgentInstance>, StoreError> {
        if self.reads_fail {
            return Err(StoreError::Backend("locked".to_string()));
        }
        Ok(self.rows.get(name.as_str()).cloned())
    }

    fn resolve(&self, reference: AdapterRef) -> Result<(AdapterSnapshot, String), RegistryError> {
        let now = "2026-01-01T00:00:00Z".to_string();
        match reference {
            AdapterRef::Native(kind) if kind == "mock" => Ok((adapter("mock"), now)),
            AdapterRef::Native(kind) => Err(RegistryError::UnknownAdapterKind { kind }),
            AdapterRef::Manifest(dir) => {
                let path = dir.join("adapter.toml").to_string_lossy().into_owned();
                match self.manifests.get(&dir) {
                    None => Err(RegistryError::ManifestNotFound { path }),
                    Some(None) => Err(RegistryError::ManifestUnreadable {
                        path,
                        detail: "is a directory".to_string(),
                    }),
                    Some(Some(body)) => {
                        let table: toml::Table = body.parse().unwrap();
                        for section in ["capabilities", "metering"] {
                            if !table.contains_key(section) {
                                let detail = format!("missing section [{section}]");
                                return Err(RegistryError::ManifestInvalid { path, detail });
                            }
                        }
                        let mut resolved = adapter("demo-manifest");
                        resolved.manifest_path = Some(path);
                        Ok((resolved, now))
                    }
                }
            }
        }
    }

    fn register_with(
        &mut self,
        text: &str,
        reference: AdapterRef,
    ) -> Result<AgentInstance, RegistryError> {
        let (mut run, mut action) = self.registry.register_with_adapter(text, reference)?;
        loop {
            let event = match action {
                RegisterAction::ResolveAdapter(reference) => {
                    RegisterEvent::Adapter(self.resolve(reference))
                }
                RegisterAction::StoreRow(row) => {
                    let key = row.name.as_str().to_string();
                    if self.rows.contains_key(&key) {
                        RegisterEvent::Row(Err(StoreError::DuplicateName { name: key }))
                    } else {
                        self.rows.insert(key, row);
                        RegisterEvent::Row(Ok(()))
                    }
                }
                RegisterAction::MakeHome(path) => {
                    if !self.home_fails {
                        self.homes.push(path);
                    }
                    RegisterEvent::Home(or_fail(self.home_fails))
                }
                RegisterAction::WriteConfig { path, body } => {
                    if !self.config_fails {
                        self.files.insert(path, body);
                    }
                    RegisterEvent::Config(or_fail(self.config_fails))
                }
                RegisterAction::WriteSnapshot { path, snapshot } => {
                    if !self.snapshot_fails {
                        self.snapshots.insert(path, snapshot);
                    }
                    RegisterEvent::Snapshot(or_fail(self.snapshot_fails))
                }
                RegisterAction::DeleteRow => {
                    if self.deletes_fail {
                        RegisterEvent::RolledBack(Err(StoreError::Backend("stuck".to_string())))
                    } else {
                        self.rows.remove(run.name().as_str());
                        RegisterEvent::RolledBack(Ok(()))
                    }
                }
                RegisterAction::ClearHome(path) => {
                    self.homes.retain(|home| *home != path);
                    RegisterEvent::Cleared
                }
                RegisterAction::Misfit => panic!("every answer fits"),
                RegisterAction::Finish(outcome) => return outcome,
            };
            let next = self.registry.register_step(run, event);
            run = next.0;
            action = next.1;
        }
    }

    fn register(&mut self, text: &str, kind: &str) -> Result<AgentInstance, RegistryError> {
        self.register_with(text, AdapterRef::Native(kind.to_string()))
    }

    fn remove(
        &mut self,
        text: &str,
        disposition: RemoveDisposition,
        force: bool,
    ) -> Result<(), RegistryError> {
        let mut run = self.registry.remove(text, disposition, force)?;
        let mut action = RemoveAction::FindRow;
        loop {
            let event = match action {
                RemoveAction::FindRow => {
                    RemoveEvent::Row(self.found(run.name()).map(|row| row.map(|row| row.state)))
                }
                RemoveAction::DeleteRow => {
                    self.rows.remove(run.name().as_str());
                    RemoveEvent::Deleted(Ok(()))
                }
                RemoveAction::DeleteHome(path) => {
                    if !self.clears_home {
                        RemoveEvent::HomeStays("not a directory".to_string())
                    } else if self.homes.contains(&path) {
                        self.homes.retain(|home| *home != path);
                        self.files.retain(|file, _| !file.starts_with(&path));
                        RemoveEvent::HomeDeleted
                    } else {
                        RemoveEvent::HomeMissing
                    }
                }
                RemoveAction::Misfit => panic!("every answer fits"),
                RemoveAction::Finish(outcome) => return outcome,
            };
            action = self.registry.remove_step(&mut run, event);
        }
    }

    fn read(&self, name: &InstanceName) -> ConfigRead {
        match self.files.get(&self.registry.paths().instance_config(name)) {
            Some(text) => ConfigRead::Text(text.clone()),
            None => ConfigRead::Missing,
        }
    }

    fn effective(
        &self,
        name: &InstanceName,
        overrides: ConfigLayer,
    ) -> Result<EffectiveConfig, ConfigError> {
        self.registry.effective_config(name, overrides, self.found(name), self.read(name))
    }

    fn set_config(
        &mut self,
        name: &InstanceName,
        key: &str,
        value: &str,
    ) -> Result<(), ConfigError> {
        let known = key == "model" || key.starts_with("agent.");
        let valid = if known && !key.contains("..") {
            Ok(())
        } else {
            Err(ConfigError::UnknownKey { key: key.to_string(), suggestion: "model".to_string() })
        };
        let write =
            self.registry.set_config(name, key, value, self.found(name), valid, self.read(name))?;
        self.files.insert(write.path, write.body);
        self.registry.config_written(name, Ok(()))
    }
}

fn text(text: &str) -> toml::Value {
    toml::Value::String(text.to_string())
}

#[test]
fn register_happy_path_creates_home_config_row_and_empty_ledger() {
    let mut world = open_world();
    let instance = world.register("demo", "mock").unwrap();
    assert_eq!(instance.state, LifecycleState::Registered);
    assert_eq!(instance.kind, "mock");

    let name = name("demo");
    let home = world.registry.paths().agent_home(&name);
    assert!(world.homes.contains(&home), "home dir should exist");
    let body = &world.files[&world.registry.paths().instance_config(&name)];
    assert!(body.contains("name = \"demo\""));

    assert_eq!(instance.agent_home, home.to_string_lossy());
    assert_eq!(world.registry.agent_home(&name), home);

    let rows = world.registry.list(Ok(world.rows.values().cloned().collect())).unwrap();
    assert!(rows.iter().any(|i| i.name.as_str() == "demo"));
    assert_eq!(world.registry.usage_event_count(Ok(0)), Ok(0));
}

#[test]
fn register_invalid_name_rejected_without_touching_disk() {
    let mut world = open_world();
    let err = world.register("Bad Name", "mock").unwrap_err();
    assert!(matches!(err, RegistryError::InvalidName { .. }));
    assert!(world.homes.is_empty());
    assert!(world.rows.is_empty());
}

#[test]
fn duplicate_registration_leaves_no_partial_state() {
    let mut world = open_world();
    world.register("demo", "mock").unwrap();
    let files = world.files.clone();
    let homes = world.homes.clone();

    let err = world.register("demo", "mock").unwrap_err();
    assert!(matches!(err, RegistryError::DuplicateName { name } if name == "demo"));

    assert_eq!(world.rows.len(), 1);
    assert_eq!(world.homes, homes);
    assert_eq!(world.files, files);
}

#[test]
fn two_instances_same_kind_get_disjoint_homes() {
    let mut world = open_world();
    world.register("alpha", "mock").unwrap();
    world.register("beta", "mock").unwrap();
    let alpha_home = world.registry.paths().agent_home(&name("alpha"));
    let beta_home = world.registry.paths().agent_home(&name("beta"));
    assert_ne!(alpha_home, beta_home);
    assert!(world.homes.contains(&alpha_home) && world.homes.contains(&beta_home));
}

#[test]
fn remove_retain_keeps_home_and_deletes_row() {
    let mut world = open_world();
    world.register("demo", "mock").unwrap();
    let home = world.registry.paths().agent_home(&name("demo"));
    world.remove("demo", RemoveDisposition::Retain, false).unwrap();
    assert!(world.homes.contains(&home), "retain leaves the home on disk");
    assert!(world.rows.is_empty(), "row is gone");
}

#[test]
fn remove_delete_removes_home_and_row() {
    let mut world = open_world();
    world.register("demo", "mock").unwrap();
    let home = world.registry.paths().agent_home(&name("demo"));
    world.remove("demo", RemoveDisposition::Delete, false).unwrap();
    assert!(!world.homes.contains(&home), "delete removes the home tree");
    assert!(world.rows.is_empty());
}

#[test]
fn remove_delete_isolation_other_home_byte_identical() {
    let mut world = open_world();
    world.register("keep", "mock").unwrap();
    world.register("drop", "mock").unwrap();
    let keep_config = world.registry.paths().instance_config(&name("keep"));
    let before = world.files[&keep_config].clone();

    world.remove("drop", RemoveDisposition::Delete, false).unwrap();

    assert_eq!(before, world.files[&keep_config], "other home must be byte-identical after removal");
    assert!(!world.homes.contains(&world.registry.paths().agent_home(&name("drop"))));
}

#[test]
fn remove_missing_returns_not_found() {
    let mut world = open_world();
    let err = world.remove("ghost", RemoveDisposition::Delete, false).unwrap_err();
    assert!(matches!(err, RegistryError::NotFound { name } if name == "ghost"));
}

#[test]
fn remove_invalid_name_returns_invalid_name() {
    let mut world = open_world();
    let err = world.remove("Bad Name", RemoveDisposition::Delete, false).unwrap_err();
    assert!(matches!(err, RegistryError::InvalidName { .. }));
}

fn seed_running(world: &mut World) {
    let now = "2026-01-01T00:00:00Z".to_string();
    let running = AgentInstance {
        name: name("live"),
        kind: "mock".to_string(),
        state: LifecycleState::Running,
        agent_home: world.registry.paths().agent_home(&name("live")).to_string_lossy().into_owned(),
        created_at: now.clone(),
        updated_at: now,
    };
    world.rows.insert("live".to_string(), running);
}

#[test]
fn remove_running_without_force_is_rejected() {
    let mut world = open_world();
    seed_running(&mut world);
    let err = world.remove("live", RemoveDisposition::Delete, false).unwrap_err();
    assert!(matches!(err, RegistryError::RunningRequiresForce { name } if name == "live"));
    assert_eq!(world.rows.len(), 1);
}

#[test]
fn remove_running_with_force_succeeds() {
    let mut world = open_world();
    seed_running(&mut world);
    world.remove("live", RemoveDisposition::Retain, true).unwrap();
    assert!(world.rows.is_empty());
}

#[test]
fn a_live_instance_is_stopped_before_it_is_removed() {
    assert!(stop_before_removal(Some(LifecycleState::Running), true, true));
    let refused = stop_before_removal(Some(LifecycleState::Running), true, false);
    assert!(!refused, "the removal is refused");
    assert!(stop_before_removal(Some(LifecycleState::Paused), true, false));
    assert!(stop_before_removal(Some(LifecycleState::Paused), false, false));
    assert!(!stop_before_removal(Some(LifecycleState::Stopped), false, true));
    assert!(!stop_before_removal(None, false, true));
}

#[test]
fn register_rolls_back_row_when_home_cannot_be_created() {
    let mut world = open_world();
    world.home_fails = true;
    let err = world.register("demo", "mock").unwrap_err();
    assert!(
        matches!(&err, RegistryError::Io { path, .. } if path.ends_with("agents/demo")),
        "got {err:?}"
    );
    assert!(world.rows.is_empty(), "row should be rolled back after home creation failure");
}

#[test]
fn register_rolls_back_when_config_file_cannot_be_written() {
    let mut world = open_world();
    world.config_fails = true;
    let err = world.register("demo", "mock").unwrap_err();
    assert!(
        matches!(&err, RegistryError::Io { path, .. } if path.ends_with("config.toml")),
        "got {err:?}"
    );
    assert!(world.rows.is_empty());
    assert!(world.homes.is_empty(), "what there was of the home is gone");
}

#[test]
fn register_rolls_back_when_the_adapter_snapshot_cannot_be_written() {
    let mut world = open_world();
    world.snapshot_fails = true;
    let err = world.register("demo", "mock").unwrap_err();
    assert!(
        matches!(&err, RegistryError::Io { path, .. } if path.ends_with("adapter.json")),
        "got {err:?}"
    );
    assert!(world.rows.is_empty());
}

#[test]
fn register_orphan_row_when_rollback_delete_also_fails() {
    let mut world = open_world();
    world.home_fails = true;
    world.deletes_fail = true;
    let err = world.register("demo", "mock").unwrap_err();
    match err {
        RegistryError::RegisterOrphanRow {
            name,
            home_error,
            rollback_error,
        } => {
            assert_eq!(name, "demo");
            assert!(!home_error.is_empty());
            assert!(!rollback_error.is_empty());
        }
        other => panic!("expected RegisterOrphanRow, got {other:?}"),
    }
    assert_eq!(world.rows.len(), 1);
}

#[test]
fn an_answer_that_was_not_asked_for_changes_nothing() {
    let world = open_world();
    let (run, _) = world.registry.register("demo", "mock").ok().unwrap();
    let (run, action) = world.registry.register_step(run, RegisterEvent::Cleared);
    assert!(matches!(action, RegisterAction::Misfit));
    let (_, action) =
        world.registry.register_step(run, RegisterEvent::Adapter(Ok((adapter("mock"), "now".into()))));
    assert!(matches!(action, RegisterAction::StoreRow(_)));
    let mut run = world.registry.remove("demo", RemoveDisposition::Retain, false).ok().unwrap();
    assert!(matches!(
        world.registry.remove_step(&mut run, RemoveEvent::HomeDeleted),
        RemoveAction::Misfit
    ));
}

#[test]
fn open_maps_path_resolution_failure_and_names_the_base() {
    let environment = StateDirEnv {
        path: PathBuf::from("relative/base"),
        text: "relative/base".to_string(),
        absolute: false,
    };
    let err = Registry::open(None, Some(environment), None).err().unwrap();
    match err {
        RegistryError::Io { path, source, .. } => {
            assert!(!path.is_empty(), "path must be populated (F8)");
            assert!(path.contains("KTESIO_STATE_DIR"));
            assert!(source.contains("relative/base"));
        }
        other => panic!("expected Io from a relative env base, got {other:?}"),
    }
    let world = open_world();
    assert!(world.registry.base_made(Ok(())).is_ok());
    assert!(matches!(
        world.registry.base_made(Err("denied".to_string())),
        Err(RegistryError::Io { path, .. }) if path == "/state"
    ));
}

#[test]
fn remove_delete_succeeds_when_home_already_gone() {
    let mut world = open_world();
    world.register("demo", "mock").unwrap();
    world.homes.clear();
    world.remove("demo", RemoveDisposition::Delete, false).unwrap();
    assert!(world.rows.is_empty(), "row is gone");
}

#[test]
fn remove_delete_reports_leftover_home_on_failure() {
    let mut world = open_world();
    world.register("demo", "mock").unwrap();
    world.clears_home = false;
    let err = world.remove("demo", RemoveDisposition::Delete, false).unwrap_err();
    assert!(
        matches!(&err, RegistryError::RemoveLeftoverHome { name, path, .. }
            if name == "demo" && path.ends_with("agents/demo")),
        "got {err:?}"
    );
    assert!(world.rows.is_empty());
}

#[test]
fn a_store_that_fails_is_told_as_such() {
    let mut world = open_world();
    world.reads_fail = true;
    let err = world.remove("demo", RemoveDisposition::Retain, false).unwrap_err();
    assert!(matches!(err, RegistryError::Store(StoreError::Backend(detail)) if detail == "locked"));
    assert!(matches!(
        world.registry.list(Err(StoreError::Backend("locked".to_string()))),
        Err(RegistryError::Store(_))
    ));
    assert!(matches!(
        world.registry.lookup(&name("demo"), world.found(&name("demo"))),
        Err(RegistryError::Store(_))
    ));
}

#[test]
fn register_native_mock_persists_effective_declaration() {
    let mut world = open_world();
    let instance = world.register("demo", "mock").unwrap();
    assert_eq!(instance.kind, "mock");

    let name = name("demo");
    let path = world.registry.adapter_snapshot_path(&name);
    assert!(path.ends_with("agents/demo/adapter.json"));
    let snapshot = world.snapshots.remove(&path).expect("adapter.json snapshot should exist");

    let eff = world
        .registry
        .effective_capabilities("demo", world.found(&name), Ok(snapshot), OS)
        .ok()
        .unwrap();
    assert_eq!(eff.os, OS);
    assert_eq!(eff.entries.len(), 2);
}

#[test]
fn register_unknown_kind_leaves_no_partial_state() {
    let mut world = open_world();
    let err = world.register("demo", "does-not-exist").unwrap_err();
    assert!(
        matches!(&err, RegistryError::UnknownAdapterKind { kind } if kind == "does-not-exist"),
        "got {err:?}"
    );
    assert!(world.rows.is_empty(), "no row on rejected adapter");
    assert!(world.homes.is_empty(), "no home on rejected adapter");
}

#[test]
fn register_manifest_not_found_leaves_no_partial_state() {
    let mut world = open_world();
    let err = world
        .register_with("m", AdapterRef::Manifest(PathBuf::from("/empty")))
        .unwrap_err();
    assert!(
        matches!(&err, RegistryError::ManifestNotFound { path } if path.ends_with("adapter.toml")),
        "got {err:?}"
    );
    assert!(world.rows.is_empty());
}

const VALID_MANIFEST: &str = r#"
contract_version = "0.1.0"

[adapter]
kind = "demo-manifest"

[lifecycle.start]
exec = "demo-agent"

[capabilities.pause]
linux = "guaranteed"
macos = "guaranteed"
windows = "best-effort"

[metering]
source = "self-reported"
"#;

#[test]
fn register_manifest_from_dir_succeeds_and_records_effective_declaration() {
    let mut world = open_world();
    let dir = PathBuf::from("/manifests/m");
    world.manifests.insert(dir.clone(), Some(VALID_MANIFEST.to_string()));
    let instance = world.register_with("m", AdapterRef::Manifest(dir)).unwrap();
    assert_eq!(instance.kind, "demo-manifest");

    let name = name("m");
    let path = world.registry.adapter_snapshot_path(&name);
    let kept = world.snapshots.remove(&path).unwrap();
    assert!(kept.manifest_path.as_deref().unwrap().contains("adapter.toml"));
    let eff = world
        .registry
        .effective_capabilities("m", world.found(&name), Ok(kept), OS)
        .ok()
        .unwrap();
    assert_eq!(eff.os, OS);
    assert!(!eff.entries.is_empty());
}

#[test]
fn register_manifest_invalid_names_the_section_and_leaves_no_partial_state() {
    let mut world = open_world();
    let dir = PathBuf::from("/manifests/m");
    let body = VALID_MANIFEST.replace(
        "[capabilities.pause]\nlinux = \"guaranteed\"\nmacos = \"guaranteed\"\nwindows = \"best-effort\"\n",
        "",
    );
    world.manifests.insert(dir.clone(), Some(body));
    let err = world.register_with("m", AdapterRef::Manifest(dir)).unwrap_err();
    match &err {
        RegistryError::ManifestInvalid { detail, .. } => {
            assert!(detail.contains("[capabilities]"), "detail={detail}")
        }
        other => panic!("expected ManifestInvalid, got {other:?}"),
    }
    assert!(world.rows.is_empty());
    assert!(world.homes.is_empty() && world.files.is_empty() && world.snapshots.is_empty());
}

#[test]
fn register_manifest_no_metering_is_rejected_ac4() {
    let mut world = open_world();
    let dir = PathBuf::from("/manifests/m");
    let body = VALID_MANIFEST.replace("[metering]\nsource = \"self-reported\"\n", "");
    world.manifests.insert(dir.clone(), Some(body));
    let err = world.register_with("m", AdapterRef::Manifest(dir)).unwrap_err();
    assert!(
        err.message().contains("[metering]"),
        "the diagnostic must name [metering]: {}",
        err.message()
    );
    assert!(world.rows.is_empty());
    assert!(world.homes.is_empty() && world.files.is_empty() && world.snapshots.is_empty());
}

#[test]
fn register_manifest_rejection_when_adapter_toml_is_a_directory() {
    let mut world = open_world();
    let dir = PathBuf::from("/manifests/m");
    world.manifests.insert(dir.clone(), None);
    let err = world.register_with("m", AdapterRef::Manifest(dir)).unwrap_err();
    assert!(
        matches!(&err, RegistryError::ManifestUnreadable { path, .. } if path.ends_with("adapter.toml")),
        "got {err:?}"
    );
    assert!(world.rows.is_empty());
}

#[test]
fn the_fleet_is_what_was_registered_and_not_removed_since() {
    let mut world = open_world();
    let listed = |world: &World| -> Vec<String> {
        let rows: Vec<AgentInstance> = world.rows.values().cloned().collect();
        let listed = world.registry.list(Ok(rows)).unwrap();
        listed.iter().map(|row| row.name.as_str().to_string()).collect()
    };
    for text in ["pear", "apple", "fig"] {
        world.register(text, "mock").unwrap();
    }
    assert_eq!(listed(&world), ["apple", "fig", "pear"]);
    assert!(world.register("fig", "mock").is_err());
    world.set_config(&name("fig"), "model", "x").unwrap();
    assert_eq!(listed(&world), ["apple", "fig", "pear"]);
    world.remove("apple", RemoveDisposition::Retain, false).unwrap();
    assert!(world.remove("apple", RemoveDisposition::Retain, false).is_err());
    world.home_fails = true;
    assert!(world.register("kiwi", "mock").is_err());
    assert_eq!(listed(&world), ["fig", "pear"]);
    world.home_fails = false;
    world.register("apple", "mock").unwrap();
    assert_eq!(listed(&world), ["apple", "fig", "pear"]);
    assert_eq!(listed(&world), listed(&world));
}

#[test]
fn effective_capabilities_unknown_instance_is_not_found() {
    let world = open_world();
    let err = world
        .registry
        .effective_capabilities("ghost", world.found(&name("ghost")), Ok(adapter("mock")), OS)
        .err()
        .unwrap();
    assert!(matches!(&err, RegistryError::NotFound { name } if name == "ghost"));
}

#[test]
fn effective_capabilities_invalid_name_is_invalid_name() {
    let world = open_world();
    let err = world
        .registry
        .effective_capabilities("Bad Name", Ok(None), Ok(adapter("mock")), OS)
        .err()
        .unwrap();
    assert!(matches!(err, RegistryError::InvalidName { .. }));
}

#[test]
fn effective_capabilities_missing_snapshot_reports_io() {
    let mut world = open_world();
    world.register("demo", "mock").unwrap();
    let err = world
        .registry
        .effective_capabilities("demo", world.found(&name("demo")), Err("no such file".into()), OS)
        .err()
        .unwrap();
    assert!(
        matches!(&err, RegistryError::Io { path, .. } if path.ends_with("adapter.json")),
        "got {err:?}"
    );
}

#[test]
fn effective_capabilities_corrupt_snapshot_reports_io() {
    let mut world = open_world();
    world.register("demo", "mock").unwrap();
    let why = serde_json::from_str::<serde_json::Value>("{ not valid json").unwrap_err();
    let err = world
        .registry
        .effective_capabilities("demo", world.found(&name("demo")), Err(why.to_string()), OS)
        .err()
        .unwrap();
    assert!(matches!(err, RegistryError::Io { .. }), "got {err:?}");
}

#[test]
fn effective_capabilities_projects_at_read_time_not_register_time() {
    let mut world = open_world();
    world.register("demo", "mock").unwrap();
    let declaration = CapabilityDeclaration::new()
        .with(Capability::Pause, OsId::Linux, SupportLevel::Guaranteed)
        .with(Capability::Pause, OsId::Macos, SupportLevel::BestEffort)
        .with(Capability::Pause, OsId::Windows, SupportLevel::Unsupported);
    for (os, expected) in [
        (OsId::Linux, SupportLevel::Guaranteed),
        (OsId::Macos, SupportLevel::BestEffort),
        (OsId::Windows, SupportLevel::Unsupported),
    ] {
        let mut snapshot = adapter("demo");
        snapshot.declaration = CapabilityDeclaration { entries: declaration.entries.clone() };
        let eff = world
            .registry
            .effective_capabilities("demo", world.found(&name("demo")), Ok(snapshot), os)
            .ok()
            .unwrap();
        assert_eq!(eff.os, os, "projection is for the running OS");
        let pause = eff.entries.iter().find(|(c, _)| *c == Capability::Pause).map(|(_, l)| *l);
        assert_eq!(pause, Some(expected), "read-time projection for current OS");
    }
}

#[test]
fn effective_support_reads_the_current_os_pause_level_at_read_time() {
    let world = open_world();
    let level = |os: OsId| {
        world.registry.effective_support(&name("demo"), Capability::Pause, Ok(adapter("mock")), os)
    };
    assert_eq!(level(OsId::Linux), Ok(SupportLevel::Guaranteed));
    assert_eq!(level(OsId::Windows), Ok(SupportLevel::BestEffort));
    assert_eq!(level(OsId::Other), Ok(SupportLevel::Unsupported));
}

#[test]
fn effective_support_defaults_to_unsupported_when_capability_absent_for_this_os() {
    let world = open_world();
    let mut snapshot = adapter("mock");
    snapshot.declaration =
        CapabilityDeclaration::new().with(Capability::Interaction, OS, SupportLevel::Guaranteed);
    let level =
        world.registry.effective_support(&name("demo"), Capability::Pause, Ok(snapshot), OS);
    assert_eq!(level, Ok(SupportLevel::Unsupported));
}

#[test]
fn the_adapter_snapshot_says_how_to_launch_and_meter() {
    let world = open_world();
    let mut snapshot = adapter("demo");
    snapshot.manifest_path = Some("/some/adapter.toml".to_string());
    let facts = world.registry.adapter_launch_facts(&name("demo"), Ok(snapshot)).unwrap();
    assert_eq!(facts, ("demo".to_string(), Some("/some/adapter.toml".to_string())));
    let source = world.registry.metering_source(&name("demo"), Ok(adapter("demo"))).unwrap();
    assert_eq!(source, "self-reported");
    assert!(matches!(
        world.registry.metering_source(&name("demo"), Err("gone".into())),
        Err(RegistryError::Io { source, .. }) if source == "gone"
    ));
}

#[test]
fn the_recorded_policy_is_effective_and_the_default_otherwise() {
    let world = open_world();
    assert_eq!(
        world.registry.effective_restart_policy(Ok(Some(RestartPolicy::Never))),
        Ok(RestartPolicy::Never)
    );
    assert_eq!(
        world.registry.effective_restart_policy(Ok(None)),
        Ok(RestartPolicy::OnFailure)
    );
    assert!(world
        .registry
        .effective_restart_policy(Err(StoreError::Backend("x".into())))
        .is_err());
}

#[test]
fn set_config_then_effective_config_reflects_it_at_the_instance_layer() {
    let mut world = open_world();
    world.register("demo", "mock").unwrap();
    let name = name("demo");

    world.set_config(&name, "model", "gpt-4").unwrap();
    let eff = world.effective(&name, ConfigLayer::empty()).ok().unwrap();
    let r = eff.get("model").unwrap();
    assert_eq!(r.value, text("gpt-4"));
    assert_eq!(r.source, SourceLayer::Instance);
}

#[test]
fn config_facade_round_trip_and_invalid_name_arms() {
    let mut world = open_world();
    world.register("demo", "mock").unwrap();
    let demo = config_instance("demo").unwrap();
    world.set_config(&demo, "model", "gpt-4").unwrap();
    let eff = world.effective(&demo, ConfigLayer::empty()).ok().unwrap();
    assert_eq!(eff.value_display("model").as_deref(), Some("gpt-4"));
    assert!(matches!(
        config_instance("Bad Name").unwrap_err(),
        ConfigError::InvalidName { name, .. } if name == "Bad Name"
    ));
}

#[test]
fn resolve_secrets_maps_only_secret_leaves_to_resolved_cleartext() {
    let mut world = open_world();
    world.register("demo", "mock").unwrap();
    let name = name("demo");
    world.set_config(&name, "model", "secret:KTESIO_REG_SECRET_TEST_KEY").unwrap();
    world.set_config(&name, "agent.plain", "visible").unwrap();

    let eff = world.effective(&name, ConfigLayer::empty()).ok().unwrap();
    assert_eq!(eff.value_display("model").as_deref(), Some("secret:****"));
    assert_eq!(eff.value_display("agent.plain").as_deref(), Some("visible"));

    let mut run = world.registry.resolve_secrets(&eff);
    assert_eq!(run.wanted(), Some("KTESIO_REG_SECRET_TEST_KEY"));
    run = run.take(Ok(SecretString::new("resolved-cleartext".to_string()))).ok().unwrap();
    assert_eq!(run.wanted(), None, "only secret leaves");
    let secrets = run.finish();
    assert_eq!(secrets.len(), 1);
    assert_eq!(secrets[0].key, "model");
    assert_eq!(secrets[0].secret.expose_secret(), "resolved-cleartext");

    let revealed = reveal_secrets(secrets);
    assert_eq!(revealed, vec![("model".to_string(), "resolved-cleartext".to_string())]);
}

#[test]
fn resolve_secrets_unresolved_is_a_typed_error_naming_the_name() {
    let env_key = "KTESIO_REG_UNSET_SECRET_KEY_XYZ";
    let mut world = open_world();
    world.register("demo", "mock").unwrap();
    let name = name("demo");
    world.set_config(&name, "model", &format!("secret:{env_key}")).unwrap();
    let eff = world.effective(&name, ConfigLayer::empty()).ok().unwrap();

    let run = world.registry.resolve_secrets(&eff);
    let missing = SecretError::Unresolved {
        name: run.wanted().unwrap().to_string(),
        resolvers: "env, file".to_string(),
    };
    let err = run.take(Err(missing)).err().unwrap();
    assert!(err.message().contains(env_key), "names NAME: {}", err.message());
    let rev_err = reveal_failure(err);
    assert!(
        matches!(&rev_err, ConfigError::SecretReveal { detail } if detail.contains(env_key)),
        "got {rev_err:?}"
    );
}

fn overrides(text: &str) -> ConfigLayer {
    ConfigLayer::parse(SourceLayer::InvocationOverride, "<ov>", text).ok().unwrap()
}

#[test]
fn set_config_instance_beats_invocation_and_records_provenance() {
    let mut world = open_world();
    world.register("demo", "mock").unwrap();
    let name = name("demo");

    world.set_config(&name, "model", "instance-model").unwrap();
    let plain = world.effective(&name, ConfigLayer::empty()).ok().unwrap();
    let r = plain.get("model").unwrap();
    assert_eq!(r.value, text("instance-model"));
    assert_eq!(r.source, SourceLayer::Instance);

    let overridden = world.effective(&name, overrides("model = \"ov\"")).ok().unwrap();
    let r = overridden.get("model").unwrap();
    assert_eq!(r.value, text("ov"));
    assert_eq!(r.source, SourceLayer::InvocationOverride);
}

#[test]
fn set_config_unknown_key_is_rejected_and_config_is_byte_unchanged() {
    let mut world = open_world();
    world.register("demo", "mock").unwrap();
    let before = world.files.clone();
    let err = world.set_config(&name("demo"), "notakey", "x").unwrap_err();
    assert!(matches!(err, ConfigError::UnknownKey { key, .. } if key == "notakey"));
    assert_eq!(before, world.files, "rejected write must leave config byte-unchanged");
}

#[test]
fn set_config_agent_pass_through_key_round_trips_verbatim() {
    let mut world = open_world();
    world.register("demo", "mock").unwrap();
    let name = name("demo");

    world.set_config(&name, "agent.custom_flag", "verbatim-value").unwrap();
    let eff = world.effective(&name, ConfigLayer::empty()).ok().unwrap();
    let r = eff.get("agent.custom_flag").unwrap();
    assert_eq!(r.value, text("verbatim-value"));
    assert_eq!(r.source, SourceLayer::Instance);
}

#[test]
fn set_config_preserves_sibling_keys_deep_set() {
    let mut world = open_world();
    world.register("demo", "mock").unwrap();
    let name = name("demo");

    world.set_config(&name, "model", "gpt-4").unwrap();
    world.set_config(&name, "agent.tools.web", "on").unwrap();
    world.set_config(&name, "agent.tools.shell", "off").unwrap();

    let eff = world.effective(&name, ConfigLayer::empty()).ok().unwrap();
    assert_eq!(eff.value("model"), Some(&text("gpt-4")));
    assert_eq!(eff.value("agent.tools.web"), Some(&text("on")));
    assert_eq!(eff.value("agent.tools.shell"), Some(&text("off")));
}

#[test]
fn what_is_set_is_read_back_whatever_it_holds() {
    let mut world = open_world();
    world.register("demo", "mock").unwrap();
    let name = name("demo");
    let path = world.registry.paths().instance_config(&name);
    world.files.insert(
        path,
        "name = \"demo\"\n[agent]\nport = 8080\nratio = -0.5\non = true\n".to_string(),
    );

    let long_run = "\"".repeat(200);
    let odd = [
        "two\nlines",
        "\n\"\"\" starts and ends \"\"\"",
        "dos\r\nlines",
        "tab\tand \u{7f} and \u{1}",
        "'single' and \"double\"",
        "back\\slash",
        "\u{e9}\u{4e2d}",
        "",
        long_run.as_str(),
    ];
    for value in odd {
        world.set_config(&name, "agent.odd", value).unwrap();
        let eff = world.effective(&name, ConfigLayer::empty()).ok().unwrap();
        assert_eq!(eff.value("agent.odd"), Some(&text(value)));
        assert_eq!(eff.value_display("agent.port").as_deref(), Some("8080"));
        assert_eq!(eff.value_display("agent.ratio").as_deref(), Some("-0.5"));
        assert_eq!(eff.value_display("agent.on").as_deref(), Some("true"));
    }
}

#[test]
fn lists_and_dates_stay_when_another_key_is_set() {
    let mut world = open_world();
    world.register("demo", "mock").unwrap();
    let name = name("demo");
    let path = world.registry.paths().instance_config(&name);
    let body = "name = \"demo\"\n[agent]\nempty = []\nwords = [\"a\", \"two\\nlines\", \"it's\"]\n";
    let more = "mixed = [1, -2.5, true, { a = 1, b = [{}, { c = \"x\" }] }, [[]]]\n\
         day = 1979-05-27\nnoon = 12:30:45.123456789\nlocal = 1979-05-27T07:32:00\n\
         universal = 1979-05-27T07:32:00.5Z\nleap = 2024-02-29T23:59:60+00:00\n\
         offset = 1979-05-27T00:32:00.999999-07:30\nbehind = 1979-05-27T00:32:00-00:30\n\
         days = [1979-05-27, 07:32:00]\n\
         [[agent.tools]]\nname = \"one\"\n[agent.tools.deep]\nx = 1\n\
         [[agent.tools]]\n[[agent.tools]]\nname = \"three\"\nlist = [[1, 2], []]\n";
    world.files.insert(path.clone(), format!("{body}{more}"));
    let before: toml::Table = world.files[&path].parse().unwrap();

    world.set_config(&name, "agent.set", "value").unwrap();
    let mut after: toml::Table = world.files[&path].parse().unwrap();
    let agent = after.get_mut("agent").and_then(toml::Value::as_table_mut).unwrap();
    assert_eq!(agent.remove("set"), Some(text("value")));
    assert_eq!(after, before);

    let eff = world.effective(&name, ConfigLayer::empty()).ok().unwrap();
    assert_eq!(eff.value_display("agent.empty").as_deref(), Some("[]"));
    assert_eq!(eff.value_display("agent.days").as_deref(), Some("[1979-05-27, 07:32:00]"));
}

#[test]
fn what_is_set_is_read_back_as_deep_as_documents_go() {
    let mut world = open_world();
    world.register("demo", "mock").unwrap();
    let name = name("demo");
    let path = world.registry.paths().instance_config(&name);
    let header = "x.".repeat(77) + "x";
    let lists = format!("{}{}", "[".repeat(78), "]".repeat(78));
    let tables = format!("{}1{}", "[{ y = ".repeat(38), " }, 0]".repeat(38));
    let body = format!("[agent]\nlists = {lists}\ntables = {tables}\n[agent.{header}]\nz = 1\n");
    world.files.insert(path.clone(), body);
    let before: toml::Table = world.files[&path].parse().unwrap();

    world.set_config(&name, "agent.set", "value").unwrap();
    let mut after: toml::Table = world.files[&path].parse().unwrap();
    let agent = after.get_mut("agent").and_then(toml::Value::as_table_mut).unwrap();
    assert_eq!(agent.remove("set"), Some(text("value")));
    assert_eq!(after, before);
}

#[test]
fn too_many_quotes_in_a_row_are_refused_and_masked() {
    let mut world = open_world();
    world.register("demo", "mock").unwrap();
    let name = name("demo");
    for quote in ["\"", "'"] {
        world.set_config(&name, "agent.long", &quote.repeat(255)).unwrap();
        let eff = world.effective(&name, ConfigLayer::empty()).ok().unwrap();
        assert_eq!(eff.value("agent.long"), Some(&text(&quote.repeat(255))));

        let before = world.files.clone();
        let value = format!("x{}y", quote.repeat(256));
        let err = world.set_config(&name, "agent.long", &value).unwrap_err();
        assert!(
            matches!(&err, ConfigError::MalformedLayer { detail, .. } if detail
                == &format!("could not serialize the updated instance config: {UNWRITABLE}")),
            "{err:?}"
        );
        assert_eq!(before, world.files);

        let list = toml::Value::Array(vec![toml::Value::Array(vec![text(&value)])]);
        let shown = ResolvedValue { value: list, source: SourceLayer::Instance };
        assert_eq!(shown.display(), UNWRITABLE);
        let broken = format!("{}x{}", quote.repeat(255), quote.repeat(255));
        let list = toml::Value::Array(vec![text(&broken)]);
        let shown = ResolvedValue { value: list, source: SourceLayer::Instance };
        assert!(shown.display().contains(&broken[1..254]));
    }
}

#[test]
fn a_date_that_cannot_be_written_is_not() {
    let date = |minutes: i16| {
        let mut at: toml::value::Datetime = "1979-05-27T07:32:00Z".parse().unwrap();
        at.offset = Some(toml::value::Offset::Custom { minutes });
        toml::Value::Array(vec![toml::Value::Datetime(at)])
    };
    let shown =
        |value: toml::Value| ResolvedValue { value, source: SourceLayer::Instance }.display();
    assert_eq!(shown(date(i16::MIN)), UNWRITABLE);
    assert_eq!(shown(date(-90)), "[1979-05-27T07:32:00-01:30]");
}

#[test]
fn set_config_child_under_existing_scalar_fails_closed_byte_unchanged() {
    let mut world = open_world();
    world.register("demo", "mock").unwrap();
    let name = name("demo");

    world.set_config(&name, "agent.a", "v1").unwrap();
    let before = world.files.clone();

    let err = world.set_config(&name, "agent.a.b", "v2").unwrap_err();
    match err {
        ConfigError::WriteShapeConflict {
            key,
            conflicting_ancestor,
        } => {
            assert_eq!(key, "agent.a.b");
            assert_eq!(conflicting_ancestor, "agent.a");
        }
        other => panic!("expected WriteShapeConflict, got {other:?}"),
    }
    assert_eq!(before, world.files, "failed write must leave config byte-unchanged");
    let eff = world.effective(&name, ConfigLayer::empty()).ok().unwrap();
    assert_eq!(eff.value("agent.a"), Some(&text("v1")));
    assert_eq!(eff.value("agent.a.b"), None);
}

#[test]
fn set_config_rejects_empty_dotted_segment_byte_unchanged() {
    let mut world = open_world();
    world.register("demo", "mock").unwrap();
    let before = world.files.clone();
    let err = world.set_config(&name("demo"), "agent..b", "v").unwrap_err();
    assert!(matches!(err, ConfigError::UnknownKey { key, .. } if key == "agent..b"));
    assert_eq!(world.files, before);
}

#[test]
fn effective_config_filters_the_seeded_name_identity_key() {
    let mut world = open_world();
    world.register("demo", "mock").unwrap();
    let name = name("demo");
    let body = &world.files[&world.registry.paths().instance_config(&name)];
    assert!(body.contains("name = \"demo\""), "seed still on disk: {body}");
    let eff = world.effective(&name, ConfigLayer::empty()).ok().unwrap();
    assert_eq!(eff.value("name"), None, "identity key must not be surfaced");
    assert!(matches!(
        world.set_config(&name, "name", "renamed").unwrap_err(),
        ConfigError::UnknownKey { .. }
    ));
}

#[test]
fn effective_config_threads_invocation_overrides_strongest() {
    let mut world = open_world();
    world.register("demo", "mock").unwrap();
    let name = name("demo");
    world.set_config(&name, "model", "instance-model").unwrap();

    let eff = world.effective(&name, overrides("model = \"override-model\"")).ok().unwrap();
    let r = eff.get("model").unwrap();
    assert_eq!(r.value, text("override-model"));
    assert_eq!(r.source, SourceLayer::InvocationOverride);
}

#[test]
fn write_effective_config_snapshot_writes_to_path_authority_and_parses_back() {
    let mut world = open_world();
    world.register("demo", "mock").unwrap();
    let name = name("demo");
    world.set_config(&name, "model", "gpt-4o").unwrap();

    let eff = world.effective(&name, ConfigLayer::empty()).ok().unwrap();
    let (path, snapshot) = world.registry.write_effective_config_snapshot(&name, &eff);
    assert_eq!(path, world.registry.paths().effective_config_snapshot(&name));
    assert_eq!(snapshot.schema_version, 1);
    let model = snapshot.entries.iter().find(|e| e.key == "model").unwrap();
    assert_eq!(model.value, "gpt-4o");
    assert_eq!(model.source.as_str(), "instance");
    assert!(world.registry.snapshot_written(&name, Ok(())).is_ok());
}

#[test]
fn write_effective_config_snapshot_overwrites_in_place() {
    let mut world = open_world();
    world.register("demo", "mock").unwrap();
    let name = name("demo");
    let mut snapshots = BTreeMap::new();

    world.set_config(&name, "model", "first").unwrap();
    let eff = world.effective(&name, ConfigLayer::empty()).ok().unwrap();
    let (path, snapshot) = world.registry.write_effective_config_snapshot(&name, &eff);
    snapshots.insert(path, snapshot);

    world.set_config(&name, "model", "second").unwrap();
    let eff = world.effective(&name, ConfigLayer::empty()).ok().unwrap();
    let (path, snapshot) = world.registry.write_effective_config_snapshot(&name, &eff);
    snapshots.insert(path, snapshot);

    let path = world.registry.paths().effective_config_snapshot(&name);
    let model = snapshots[&path].entries.iter().find(|e| e.key == "model").unwrap();
    assert_eq!(
        model.value, "second",
        "the snapshot must reflect the latest resolved value (overwrite)"
    );
    assert_eq!(snapshots.len(), 1);
}

#[test]
fn write_effective_config_snapshot_write_failure_is_typed_not_panic() {
    let world = open_world();
    let err = world
        .registry
        .snapshot_written(&name("demo"), Err(SnapshotFailure::Write("is a directory".into())))
        .unwrap_err();
    match err {
        RegistryError::SnapshotWrite { name: n, path: p, detail } => {
            assert_eq!(n, "demo");
            assert!(p.ends_with("effective-config.json"), "path={p}");
            assert_eq!(detail, "is a directory");
        }
        other => panic!("expected SnapshotWrite, got {other:?}"),
    }
    let err = world
        .registry
        .snapshot_written(&name("demo"), Err(SnapshotFailure::Form("nan".into())))
        .unwrap_err();
    assert!(matches!(err, RegistryError::SnapshotWrite { detail, .. }
        if detail == "could not serialize the effective-config snapshot: nan"));
}

#[test]
fn config_ops_on_unknown_instance_are_not_found() {
    let mut world = open_world();
    let ghost = name("ghost");
    assert!(matches!(
        world.effective(&ghost, ConfigLayer::empty()).err().unwrap(),
        ConfigError::NotFound { name } if name == "ghost"
    ));
    assert!(matches!(
        world.set_config(&ghost, "model", "x").unwrap_err(),
        ConfigError::NotFound { name } if name == "ghost"
    ));
}

#[test]
fn config_ops_surface_a_store_error_without_leaking_registry_error() {
    let mut world = open_world();
    world.register("demo", "mock").unwrap();
    let name = name("demo");
    world.reads_fail = true;

    assert!(matches!(
        world.effective(&name, ConfigLayer::empty()).err().unwrap(),
        ConfigError::Store { name: n, .. } if n == "demo"
    ));
    assert!(matches!(
        world.set_config(&name, "model", "x").unwrap_err(),
        ConfigError::Store { name: n, .. } if n == "demo"
    ));
}

#[test]
fn instance_config_layer_read_failure_is_a_typed_error_not_panic() {
    let mut world = open_world();
    world.register("demo", "mock").unwrap();
    let name = name("demo");
    let err = world
        .registry
        .effective_config(
            &name,
            ConfigLayer::empty(),
            world.found(&name),
            ConfigRead::Failed("is a directory".to_string()),
        )
        .err()
        .unwrap();
    match err {
        ConfigError::MalformedLayer { layer, detail, .. } => {
            assert_eq!(layer, SourceLayer::Instance);
            assert!(detail.contains("could not read"), "detail={detail}");
        }
        other => panic!("expected MalformedLayer, got {other:?}"),
    }
    let err = world.registry.config_written(&name, Err("disk full".to_string())).unwrap_err();
    assert!(matches!(err, ConfigError::MalformedLayer { detail, .. }
        if detail == "could not write the instance config: disk full"));
}

#[test]
fn effective_config_reports_malformed_instance_layer_without_panic() {
    let mut world = open_world();
    world.register("demo", "mock").unwrap();
    let name = name("demo");
    let path = world.registry.paths().instance_config(&name);
    world.files.insert(path, "this is = = not valid toml".to_string());

    let err = world.effective(&name, ConfigLayer::empty()).err().unwrap();
    match err {
        ConfigError::MalformedLayer { layer, path: p, .. } => {
            assert_eq!(layer, SourceLayer::Instance);
            assert!(p.ends_with("config.toml"), "path={p}");
        }
        other => panic!("expected MalformedLayer, got {other:?}"),
    }
}

#[test]
fn effective_config_missing_instance_file_resolves_without_error() {
    let mut world = open_world();
    world.register("demo", "mock").unwrap();
    let name = name("demo");
    world.files.clear();

    let eff = world.effective(&name, ConfigLayer::empty()).ok().unwrap();
    assert!(eff.is_empty());
    world.set_config(&name, "model", "gpt-4").unwrap();
    let eff = world.effective(&name, ConfigLayer::empty()).ok().unwrap();
    assert_eq!(eff.value("model"), Some(&text("gpt-4")));
}

#[test]
fn logs_are_kept_in_the_home() {
    let world = open_world();
    let home = world.registry.agent_home(&name("demo"));
    assert_eq!(world.registry.instance_log_dir(&name("demo")), home.join("logs"));
    assert_eq!(world.registry.instance_log_path(&name("demo")), home.join("logs/instance.log"));
    assert_eq!(world.registry.agent_output_log_path(&name("demo")), home.join("logs/agent.log"));
    assert_eq!(
        world.registry.instance_breach_log_path(&name("demo")),
        Path::new("/state/agents/demo/logs/breaches.log")
    );
}
