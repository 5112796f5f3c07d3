//! The registry of agent instances.
//!
//! What of it is decided without touching a file or the store stands here: which errors
//! come of what the store and the files answer, and what is read out of them. The longer
//! operations are runs of their own, in [`crate::register`] and [`crate::remove`].
use crate::capability::{
    declared_level, effective_entries, Capability, EffectiveCapabilities, OsId, SupportLevel,
};
use crate::config::{
    collide, law_set_value_is_resolved, masked, only_leaf, resolve, resolves_to, ConfigLayer,
    SourceLayer,
};
use crate::dotted::{conflict, is_leaf, parts_of, set_dotted, set_path, walked};
use crate::effective::{
    secret_leaf_models, secret_leaves_of, shown, EffectiveConfig, ResolvedModel, SecretLeaf,
    SecretLeafModel,
};
use crate::error::{
    ConfigError, ConfigErrorModel, ConfigErrorOf, RegistryError, RegistryErrorModel,
    RegistryErrorOf, SecretError, StoreError, StoreErrorModel,
};
use crate::instance::{AdapterSnapshot, AgentInstance, AgentInstanceModel};
use crate::name::{name_fault, InstanceName};
use crate::paths::{
    chosen_base, home_path, joined, path_text, text_of_path, EnginePaths, StateDirEnv,
    ADAPTER_SNAPSHOT_FILE, AGENT_LOG_FILE, BREACH_LOG_FILE, EFFECTIVE_CONFIG_SNAPSHOT_FILE,
    INSTANCE_CONFIG_FILE, INSTANCE_LOG_FILE, LOGS_DIR, STATE_DIR_ENV,
};
use crate::restart::RestartPolicy;
use crate::secret::SecretString;
use crate::toml_table::{
    is_plain, no_entries, print_table, toml_document, toml_pretty, value_from_text, writable,
    NodeModel, MOST_LEVELS,
};
use std::path::PathBuf;
use crate::writable::{table_is_writable, UNWRITABLE};
use vstd::prelude::*;

verus! {

/// What stands in for an instance in failures of the base directory.
pub const STATE_DIR_NAME: &'static str = "<state-dir>";

/// The engine's own defaults: a document that says nothing yet.
pub const ENGINE_DEFAULTS_TOML: &'static str =
    "# Ktesio engine-owned config defaults (the weakest layer).\n# Embedded in the engine; the same for every Agent Instance. Intentionally EMPTY:\n# config ships only keys it can honestly honor, and no engine-wide key is\n# engine-controlled yet.\n";

/// What stands in for the path of the engine's own defaults.
pub const ENGINE_DEFAULTS_LABEL: &'static str = "<engine-defaults>";

/// The key under which a config says whose it is.
pub const RESERVED_IDENTITY_KEY: &'static str = "name";

/// The version of the effective-config snapshot.
pub const EFFECTIVE_CONFIG_SNAPSHOT_SCHEMA_VERSION: u32 = 1;

/// One leaf of an effective-config snapshot.
#[derive(Clone, Debug, PartialEq, Eq)]
pub struct EffectiveConfigEntry {
    /// The dotted key.
    pub key: String,
    /// The value as it is shown.
    pub value: String,
    /// The layer it comes from.
    pub source: SourceLayer,
}

/// An effective config as it is written down at a start.
#[derive(Clone, Debug, PartialEq, Eq)]
pub struct EffectiveConfigSnapshot {
    /// The version of the form.
    pub schema_version: u32,
    /// Every leaf, in the order of the keys.
    pub entries: Vec<EffectiveConfigEntry>,
}

/// Whether some entries are those of a resolved configuration, in the order of its keys.
pub open spec fn entries_show(
    entries: Seq<EffectiveConfigEntry>,
    keys: Seq<Seq<char>>,
    resolved: Map<Seq<char>, ResolvedModel>,
) -> bool {
    &&& entries.len() == keys.len()
    &&& forall|i: int|
        0 <= i < entries.len() ==> {
            &&& (#[trigger] entries[i]).key@ == keys[i]
            &&& entries[i].value@ == shown(resolved[keys[i]].node)
            &&& entries[i].source == resolved[keys[i]].source
        }
}

impl EffectiveConfigSnapshot {
    /// The snapshot of a resolved configuration.
    pub fn from_effective(effective: &EffectiveConfig) -> (r: Self)
        requires
            effective.wf(),
        ensures
            r.schema_version == EFFECTIVE_CONFIG_SNAPSHOT_SCHEMA_VERSION,
            entries_show(r.entries@, effective.keys(), effective@),
    {
        let mut entries: Vec<EffectiveConfigEntry> = Vec::new();
        let n: usize = effective.len();
        let mut i: usize = 0;
        while i < n
            invariant
                effective.wf(),
                i <= n == effective.keys().len(),
                entries@.len() == i,
                forall|j: int|
                    0 <= j < i ==> {
                        &&& (#[trigger] entries@[j]).key@ == effective.keys()[j]
                        &&& entries@[j].value@ == shown(effective@[effective.keys()[j]].node)
                        &&& entries@[j].source == effective@[effective.keys()[j]].source
                    },
            decreases n - i,
        {
            let (key, resolved) = effective.entry(i);
            entries.push(
                EffectiveConfigEntry {
                    key: key.to_owned(),
                    value: resolved.display(),
                    source: resolved.source,
                },
            );
            i = i + 1;
        }
        EffectiveConfigSnapshot { schema_version: EFFECTIVE_CONFIG_SNAPSHOT_SCHEMA_VERSION, entries }
    }
}

/// What reading the config of an instance gave.
pub enum ConfigReadOf<S> {
    /// Its text.
    Text(S),
    /// There is no such file.
    Missing,
    /// It could not be read, and why.
    Failed(S),
}

/// What reading the config of an instance gave.
pub type ConfigRead = ConfigReadOf<String>;

/// The model of a [`ConfigRead`].
pub type ConfigReadModel = ConfigReadOf<Seq<char>>;

impl View for ConfigReadOf<String> {
    type V = ConfigReadModel;

    open spec fn view(&self) -> ConfigReadModel {
        match self {
            ConfigReadOf::Text(text) => ConfigReadOf::Text(text@),
            ConfigReadOf::Missing => ConfigReadOf::Missing,
            ConfigReadOf::Failed(why) => ConfigReadOf::Failed(why@),
        }
    }
}

/// A config that is to be written.
pub struct ConfigWrite {
    /// Where to.
    pub path: PathBuf,
    /// What.
    pub body: String,
}

/// Why an effective-config snapshot was not written.
pub enum SnapshotFailure {
    /// It could not be put into its form.
    Form(String),
    /// The file could not be written.
    Write(String),
}

/// The row of an instance as the store found it.
pub open spec fn found_model(found: Result<Option<AgentInstance>, StoreError>) -> Result<
    Option<AgentInstanceModel>,
    StoreErrorModel,
> {
    match found {
        Ok(Some(instance)) => Ok(Some(instance@)),
        Ok(None) => Ok(None),
        Err(e) => Err(e@),
    }
}

/// The config of an instance.
pub open spec fn config_path(base: PathBuf, name: Seq<char>) -> PathBuf {
    joined(home_path(base, name), INSTANCE_CONFIG_FILE@)
}

/// The instance layer of an instance: what its config says, nothing where it has none.
pub open spec fn instance_layer(path: PathBuf, read: ConfigReadModel) -> Result<
    Map<Seq<char>, NodeModel>,
    ConfigErrorModel,
> {
    match read {
        ConfigReadOf::Text(text) => match toml_document(text) {
            Ok(entries) => Ok(entries),
            Err(detail) => Err(
                ConfigErrorOf::MalformedLayer {
                    layer: SourceLayer::Instance,
                    path: path_text(path),
                    detail,
                },
            ),
        },
        ConfigReadOf::Missing => Ok(no_entries()),
        ConfigReadOf::Failed(why) => Err(
            ConfigErrorOf::MalformedLayer {
                layer: SourceLayer::Instance,
                path: path_text(path),
                detail: "could not read the instance config: "@ + why,
            },
        ),
    }
}

/// What is wrong with asking for the config of an instance, if anything.
pub open spec fn missing_row(
    name: Seq<char>,
    found: Result<Option<AgentInstanceModel>, StoreErrorModel>,
) -> Option<ConfigErrorModel> {
    match found {
        Ok(Some(_)) => None,
        Ok(None) => Some(ConfigErrorOf::NotFound { name }),
        Err(e) => Some(ConfigErrorOf::Store { name, detail: e.text() }),
    }
}

/// The engine's own defaults.
pub open spec fn engine_layer() -> Result<Map<Seq<char>, NodeModel>, ConfigErrorModel> {
    match toml_document(ENGINE_DEFAULTS_TOML@) {
        Ok(entries) => Ok(entries),
        Err(detail) => Err(
            ConfigErrorOf::MalformedLayer {
                layer: SourceLayer::EngineDefault,
                path: ENGINE_DEFAULTS_LABEL@,
                detail,
            },
        ),
    }
}

/// The engine's own defaults.
pub fn engine_defaults_layer() -> (r: Result<ConfigLayer, ConfigError>)
    ensures
        match r {
            Ok(layer) => engine_layer() matches Ok(entries) && layer@ == entries,
            Err(e) => engine_layer() matches Err(model) && e@ == model,
        },
{
    ConfigLayer::parse(SourceLayer::EngineDefault, ENGINE_DEFAULTS_LABEL, ENGINE_DEFAULTS_TOML)
}

/// The defaults of an adapter kind: none of them has any.
pub fn kind_defaults_layer(_kind: &str) -> (r: ConfigLayer)
    ensures
        r@ == no_entries(),
{
    ConfigLayer::empty()
}

/// An answer of the store as an answer of the registry.
pub fn store_result<T>(answer: Result<T, StoreError>) -> (r: Result<T, RegistryError>)
    ensures
        match answer {
            Ok(value) => r == Ok::<T, RegistryError>(value),
            Err(e) => r == Err::<T, RegistryError>(RegistryErrorOf::Store(e)),
        },
{
    match answer {
        Ok(value) => Ok(value),
        Err(e) => Err(RegistryErrorOf::Store(e)),
    }
}

/// The registry of agent instances.
pub struct Registry {
    paths: EnginePaths,
}

impl Registry {
    /// The base directory.
    pub closed spec fn base(&self) -> PathBuf {
        self.paths.base()
    }

    /// Open the registry in its base directory. What the base was to be is named where it
    /// cannot be determined.
    pub fn open(
        base: Option<PathBuf>,
        environment: Option<StateDirEnv>,
        platform: Option<PathBuf>,
    ) -> (r: Result<Self, RegistryError>)
        ensures
            match r {
                Ok(registry) => chosen_base(base, environment, platform) matches Ok(chosen)
                    && registry.base() == chosen,
                Err(e) => chosen_base(base, environment, platform) matches Err(why) && e@
                    == (RegistryErrorModel::Io {
                    name: STATE_DIR_NAME@,
                    path: "<default via "@ + STATE_DIR_ENV@ + ">"@,
                    source: why.text(),
                }),
            },
    {
        match EnginePaths::new(base, environment, platform) {
            Ok(paths) => Ok(Registry { paths }),
            Err(why) => {
                let mut path = "<default via ".to_owned();
                path.append(STATE_DIR_ENV);
                path.append(">");
                Err(
                    RegistryErrorOf::Io {
                        name: STATE_DIR_NAME.to_owned(),
                        path,
                        source: why.message(),
                    },
                )
            },
        }
    }

    /// Whether the registry can go on, now that its base directory was to be made.
    pub fn base_made(&self, made: Result<(), String>) -> (r: Result<(), RegistryError>)
        ensures
            match made {
                Ok(_) => r is Ok,
                Err(source) => r matches Err(e) && e@ == (RegistryErrorModel::Io {
                    name: STATE_DIR_NAME@,
                    path: path_text(self.base()),
                    source: source@,
                }),
            },
    {
        match made {
            Ok(_) => Ok(()),
            Err(source) => Err(
                RegistryErrorOf::Io {
                    name: STATE_DIR_NAME.to_owned(),
                    path: text_of_path(self.paths.state_base()),
                    source,
                },
            ),
        }
    }

    /// Where everything is kept.
    pub fn paths(&self) -> (r: &EnginePaths)
        ensures
            r.base() == self.base(),
    {
        &self.paths
    }

    /// The home of an instance.
    pub fn agent_home(&self, name: &InstanceName) -> (r: PathBuf)
        ensures
            r == home_path(self.base(), name@),
    {
        self.paths.agent_home(name)
    }

    /// Where the snapshot of an instance's adapter is kept.
    pub fn adapter_snapshot_path(&self, name: &InstanceName) -> (r: PathBuf)
        ensures
            r == joined(home_path(self.base(), name@), ADAPTER_SNAPSHOT_FILE@),
    {
        self.paths.in_home(name, ADAPTER_SNAPSHOT_FILE)
    }

    /// Where the logs of an instance are kept.
    pub fn instance_log_dir(&self, name: &InstanceName) -> (r: PathBuf)
        ensures
            r == joined(home_path(self.base(), name@), LOGS_DIR@),
    {
        self.paths.in_home(name, LOGS_DIR)
    }

    /// The log of an instance's transitions.
    pub fn instance_log_path(&self, name: &InstanceName) -> (r: PathBuf)
        ensures
            r == joined(joined(home_path(self.base(), name@), LOGS_DIR@), INSTANCE_LOG_FILE@),
    {
        self.paths.in_logs(name, INSTANCE_LOG_FILE)
    }

    /// The log of an instance's raw output.
    pub fn agent_output_log_path(&self, name: &InstanceName) -> (r: PathBuf)
        ensures
            r == joined(joined(home_path(self.base(), name@), LOGS_DIR@), AGENT_LOG_FILE@),
    {
        self.paths.in_logs(name, AGENT_LOG_FILE)
    }

    /// The log of an instance's budget breaches.
    pub fn instance_breach_log_path(&self, name: &InstanceName) -> (r: PathBuf)
        ensures
            r == joined(joined(home_path(self.base(), name@), LOGS_DIR@), BREACH_LOG_FILE@),
    {
        self.paths.in_logs(name, BREACH_LOG_FILE)
    }

    /// All instances, as the store lists them.
    pub fn list(&self, rows: Result<Vec<AgentInstance>, StoreError>) -> (r: Result<
        Vec<AgentInstance>,
        RegistryError,
    >)
        ensures
            match rows {
                Ok(rows) => r == Ok::<Vec<AgentInstance>, RegistryError>(rows),
                Err(e) => r == Err::<Vec<AgentInstance>, RegistryError>(RegistryErrorOf::Store(e)),
            },
    {
        store_result(rows)
    }

    /// How many usage events of an instance the store counts.
    pub fn usage_event_count(&self, count: Result<u64, StoreError>) -> (r: Result<
        u64,
        RegistryError,
    >)
        ensures
            match count {
                Ok(n) => r == Ok::<u64, RegistryError>(n),
                Err(e) => r == Err::<u64, RegistryError>(RegistryErrorOf::Store(e)),
            },
    {
        store_result(count)
    }

    /// The row of an instance, which has to be there.
    pub fn lookup(
        &self,
        name: &InstanceName,
        found: Result<Option<AgentInstance>, StoreError>,
    ) -> (r: Result<AgentInstance, RegistryError>)
        ensures
            match found {
                Ok(Some(instance)) => r == Ok::<AgentInstance, RegistryError>(instance),
                Ok(None) => r matches Err(e) && e@ == (RegistryErrorModel::NotFound { name: name@ }),
                Err(e) => r == Err::<AgentInstance, RegistryError>(RegistryErrorOf::Store(e)),
            },
    {
        match found {
            Ok(Some(instance)) => Ok(instance),
            Ok(None) => Err(RegistryErrorOf::NotFound { name: name.to_text() }),
            Err(e) => Err(RegistryErrorOf::Store(e)),
        }
    }

    /// The snapshot of an instance's adapter, which has to be readable.
    pub fn read_adapter_snapshot(
        &self,
        name: &InstanceName,
        read: Result<AdapterSnapshot, String>,
    ) -> (r: Result<AdapterSnapshot, RegistryError>)
        ensures
            match read {
                Ok(snapshot) => r == Ok::<AdapterSnapshot, RegistryError>(snapshot),
                Err(source) => r matches Err(e) && e@ == snapshot_unreadable(
                    self.base(),
                    name@,
                    source@,
                ),
            },
    {
        match read {
            Ok(snapshot) => Ok(snapshot),
            Err(source) => Err(
                RegistryErrorOf::Io {
                    name: name.to_text(),
                    path: text_of_path(&self.adapter_snapshot_path(name)),
                    source,
                },
            ),
        }
    }

    /// The kind of an instance's adapter and where its manifest is.
    pub fn adapter_launch_facts(
        &self,
        name: &InstanceName,
        read: Result<AdapterSnapshot, String>,
    ) -> (r: Result<(String, Option<String>), RegistryError>)
        ensures
            match read {
                Ok(snapshot) => r == Ok::<(String, Option<String>), RegistryError>(
                    (snapshot.kind, snapshot.manifest_path),
                ),
                Err(source) => r matches Err(e) && e@ == snapshot_unreadable(
                    self.base(),
                    name@,
                    source@,
                ),
            },
    {
        match self.read_adapter_snapshot(name, read) {
            Ok(snapshot) => Ok((snapshot.kind, snapshot.manifest_path)),
            Err(e) => Err(e),
        }
    }

    /// Where the usage counts of an instance come from.
    pub fn metering_source(
        &self,
        name: &InstanceName,
        read: Result<AdapterSnapshot, String>,
    ) -> (r: Result<String, RegistryError>)
        ensures
            match read {
                Ok(snapshot) => r == Ok::<String, RegistryError>(snapshot.metering_source),
                Err(source) => r matches Err(e) && e@ == snapshot_unreadable(
                    self.base(),
                    name@,
                    source@,
                ),
            },
    {
        match self.read_adapter_snapshot(name, read) {
            Ok(snapshot) => Ok(snapshot.metering_source),
            Err(e) => Err(e),
        }
    }

    /// How well an instance's adapter supports a capability on a system.
    pub fn effective_support(
        &self,
        name: &InstanceName,
        capability: Capability,
        read: Result<AdapterSnapshot, String>,
        os: OsId,
    ) -> (r: Result<SupportLevel, RegistryError>)
        ensures
            match read {
                Ok(snapshot) => r == Ok::<SupportLevel, RegistryError>(
                    declared_level(snapshot@.declaration, capability, os),
                ),
                Err(source) => r matches Err(e) && e@ == snapshot_unreadable(
                    self.base(),
                    name@,
                    source@,
                ),
            },
    {
        match self.read_adapter_snapshot(name, read) {
            Ok(snapshot) => Ok(snapshot.declaration.support(capability, os)),
            Err(e) => Err(e),
        }
    }

    /// What an instance's adapter supports on a system. `found` and `read` are what the
    /// store and the adapter's snapshot hold for the name; where the text is no name,
    /// they are not looked at.
    pub fn effective_capabilities(
        &self,
        name: &str,
        found: Result<Option<AgentInstance>, StoreError>,
        read: Result<AdapterSnapshot, String>,
        os: OsId,
    ) -> (r: Result<EffectiveCapabilities, RegistryError>)
        ensures
            match name_fault(name@) {
                Some(reason) => r matches Err(e) && e@ == (RegistryErrorModel::InvalidName {
                    name: name@,
                    reason,
                }),
                None => match (found, read) {
                    (Err(e), _) => r == Err::<EffectiveCapabilities, RegistryError>(
                        RegistryErrorOf::Store(e),
                    ),
                    (Ok(None), _) => r matches Err(e) && e@ == (RegistryErrorModel::NotFound {
                        name: name@,
                    }),
                    (Ok(Some(_)), Err(source)) => r matches Err(e) && e@ == snapshot_unreadable(
                        self.base(),
                        name@,
                        source@,
                    ),
                    (Ok(Some(_)), Ok(snapshot)) => r matches Ok(effective) && effective.os == os
                        && effective.entries@ == effective_entries(snapshot@.declaration, os),
                },
            },
    {
        match InstanceName::new(name) {
            Err(reason) => Err(RegistryErrorOf::InvalidName { name: name.to_owned(), reason }),
            Ok(name) => match self.lookup(&name, found) {
                Err(e) => Err(e),
                Ok(_) => match self.read_adapter_snapshot(&name, read) {
                    Err(e) => Err(e),
                    Ok(snapshot) => Ok(snapshot.declaration.effective(os)),
                },
            },
        }
    }

    /// The restart policy of an instance: the recorded one, or else the default.
    pub fn effective_restart_policy(&self, recorded: Result<Option<RestartPolicy>, StoreError>) -> (r:
        Result<RestartPolicy, RegistryError>)
        ensures
            match recorded {
                Ok(Some(policy)) => r == Ok::<RestartPolicy, RegistryError>(policy),
                Ok(None) => r == Ok::<RestartPolicy, RegistryError>(RestartPolicy::fallback()),
                Err(e) => r == Err::<RestartPolicy, RegistryError>(RegistryErrorOf::Store(e)),
            },
    {
        match recorded {
            Ok(Some(policy)) => Ok(policy),
            Ok(None) => Ok(RestartPolicy::default()),
            Err(e) => Err(RegistryErrorOf::Store(e)),
        }
    }

    /// The row of an instance whose config is asked for.
    pub fn require_instance(
        &self,
        name: &InstanceName,
        found: Result<Option<AgentInstance>, StoreError>,
    ) -> (r: Result<AgentInstance, ConfigError>)
        ensures
            match r {
                Ok(instance) => found == Ok::<Option<AgentInstance>, StoreError>(Some(instance)),
                Err(e) => missing_row(name@, found_model(found)) == Some(e@),
            },
    {
        match found {
            Ok(Some(instance)) => Ok(instance),
            Ok(None) => Err(ConfigErrorOf::NotFound { name: name.to_text() }),
            Err(e) => Err(ConfigErrorOf::Store { name: name.to_text(), detail: e.message() }),
        }
    }

    /// The instance layer of an instance.
    pub fn instance_config_layer(&self, name: &InstanceName, read: ConfigRead) -> (r: Result<
        ConfigLayer,
        ConfigError,
    >)
        ensures
            match r {
                Ok(layer) => instance_layer(config_path(self.base(), name@), read@) == Ok::<
                    Map<Seq<char>, NodeModel>,
                    ConfigErrorModel,
                >(layer@),
                Err(e) => instance_layer(config_path(self.base(), name@), read@) == Err::<
                    Map<Seq<char>, NodeModel>,
                    ConfigErrorModel,
                >(e@),
            },
    {
        let path = self.paths.instance_config(name);
        match read {
            ConfigReadOf::Text(text) => ConfigLayer::parse(
                SourceLayer::Instance,
                text_of_path(&path).as_str(),
                text.as_str(),
            ),
            ConfigReadOf::Missing => Ok(ConfigLayer::empty()),
            ConfigReadOf::Failed(why) => {
                let mut detail = "could not read the instance config: ".to_owned();
                detail.append(why.as_str());
                Err(
                    ConfigErrorOf::MalformedLayer {
                        layer: SourceLayer::Instance,
                        path: text_of_path(&path),
                        detail,
                    },
                )
            },
        }
    }

    /// The effective configuration of an instance: its four layers resolved, without the
    /// key that says whose config it is.
    pub fn effective_config(
        &self,
        name: &InstanceName,
        overrides: ConfigLayer,
        found: Result<Option<AgentInstance>, StoreError>,
        read: ConfigRead,
    ) -> (r: Result<EffectiveConfig, ConfigError>)
        ensures
            ({
                let row = missing_row(name@, found_model(found));
                let instance = instance_layer(config_path(self.base(), name@), read@);
                match r {
                    Ok(effective) => {
                        &&& row is None
                        &&& engine_layer() is Ok
                        &&& instance is Ok
                        &&& effective.wf()
                        &&& effective_of(
                            seq![engine_layer()->Ok_0, no_entries(), instance->Ok_0, overrides@],
                            effective@,
                        )
                    },
                    Err(e) => {
                        ||| row == Some(e@)
                        ||| row is None && engine_layer() == Err::<
                            Map<Seq<char>, NodeModel>,
                            ConfigErrorModel,
                        >(e@)
                        ||| row is None && engine_layer() is Ok && instance == Err::<
                            Map<Seq<char>, NodeModel>,
                            ConfigErrorModel,
                        >(e@)
                    },
                }
            }),
    {
        let row = match self.require_instance(name, found) {
            Ok(row) => row,
            Err(e) => {
                return Err(e);
            },
        };
        let engine = match engine_defaults_layer() {
            Ok(engine) => engine,
            Err(e) => {
                return Err(e);
            },
        };
        let kind = kind_defaults_layer(row.kind.as_str());
        let instance = match self.instance_config_layer(name, read) {
            Ok(instance) => instance,
            Err(e) => {
                return Err(e);
            },
        };
        let ghost layers = seq![engine@, no_entries(), instance@, overrides@];
        let all = [engine, kind, instance, overrides];
        assert(crate::config::layer_models(all@) =~= layers);
        let mut effective = resolve(all);
        let ghost resolved = effective@;
        effective.remove(RESERVED_IDENTITY_KEY);
        assert(resolves_to(layers, resolved));
        Ok(effective)
    }

    /// Set a key of an instance's config. `valid` says whether the key can be set to the
    /// value at all. What comes out is what is to be written, and where to; where anything
    /// is wrong nothing is to be written.
    pub fn set_config(
        &self,
        name: &InstanceName,
        key: &str,
        value: &str,
        found: Result<Option<AgentInstance>, StoreError>,
        valid: Result<(), ConfigError>,
        read: ConfigRead,
    ) -> (r: Result<ConfigWrite, ConfigError>)
        ensures
            ({
                let row = missing_row(name@, found_model(found));
                let path = config_path(self.base(), name@);
                let layer = instance_layer(path, read@);
                let changed = set_path(
                    layer->Ok_0,
                    parts_of(key@),
                    NodeModel::Text(value@),
                );
                match r {
                    Ok(write) => {
                        &&& row is None
                        &&& valid is Ok
                        &&& layer is Ok
                        &&& changed is Some
                        &&& writable(NodeModel::Table(changed->0))
                        &&& write.path == path
                        &&& toml_pretty(changed->0) == Ok::<Seq<char>, Seq<char>>(write.body@)
                        &&& is_plain(changed->0, MOST_LEVELS as nat) ==> toml_document(write.body@) == Ok::<
                            Map<Seq<char>, NodeModel>,
                            Seq<char>,
                        >(changed->0)
                    },
                    Err(e) => {
                        ||| row == Some(e@)
                        ||| row is None && valid == Err::<(), ConfigError>(e)
                        ||| row is None && valid is Ok && layer == Err::<
                            Map<Seq<char>, NodeModel>,
                            ConfigErrorModel,
                        >(e@)
                        ||| row is None && valid is Ok && layer is Ok && changed is None && e@
                            == (ConfigErrorModel::WriteShapeConflict {
                            key: key@,
                            conflicting_ancestor: walked(
                                parts_of(key@).take(
                                    conflict(layer->Ok_0, parts_of(key@))->0,
                                ),
                            ),
                        })
                        ||| row is None && valid is Ok && layer is Ok && changed is Some
                            && !writable(NodeModel::Table(changed->0)) && e@
                            == (ConfigErrorModel::MalformedLayer {
                            layer: SourceLayer::Instance,
                            path: path_text(path),
                            detail: "could not serialize the updated instance config: "@
                                + UNWRITABLE@,
                        })
                        ||| row is None && valid is Ok && layer is Ok && changed is Some
                            && writable(NodeModel::Table(changed->0)) && !is_plain(
                            changed->0,
                            MOST_LEVELS as nat,
                        ) && (toml_pretty(changed->0) matches Err(
                            why,
                        ) && e@
                            == (ConfigErrorModel::MalformedLayer {
                            layer: SourceLayer::Instance,
                            path: path_text(path),
                            detail: "could not serialize the updated instance config: "@ + why,
                        }))
                    },
                }
            }),
    {
        if let Err(e) = self.require_instance(name, found) {
            return Err(e);
        }
        if let Err(e) = valid {
            return Err(e);
        }
        let layer = match self.instance_config_layer(name, read) {
            Ok(layer) => layer,
            Err(e) => {
                return Err(e);
            },
        };
        let mut table = layer.to_table();
        if let Err(e) = set_dotted(&mut table, key, value_from_text(value.to_owned())) {
            return Err(e);
        }
        let path = self.paths.instance_config(name);
        let printed = if table_is_writable(&table) {
            print_table(&table)
        } else {
            Err(UNWRITABLE.to_owned())
        };
        match printed {
            Ok(body) => Ok(ConfigWrite { path, body }),
            Err(why) => {
                let mut detail = "could not serialize the updated instance config: ".to_owned();
                detail.append(why.as_str());
                Err(
                    ConfigErrorOf::MalformedLayer {
                        layer: SourceLayer::Instance,
                        path: text_of_path(&path),
                        detail,
                    },
                )
            },
        }
    }

    /// Whether a config was set, now that it was to be written.
    pub fn config_written(&self, name: &InstanceName, written: Result<(), String>) -> (r: Result<
        (),
        ConfigError,
    >)
        ensures
            match written {
                Ok(_) => r is Ok,
                Err(why) => r matches Err(e) && e@ == (ConfigErrorModel::MalformedLayer {
                    layer: SourceLayer::Instance,
                    path: path_text(config_path(self.base(), name@)),
                    detail: "could not write the instance config: "@ + why@,
                }),
            },
    {
        match written {
            Ok(_) => Ok(()),
            Err(why) => {
                let mut detail = "could not write the instance config: ".to_owned();
                detail.append(why.as_str());
                Err(
                    ConfigErrorOf::MalformedLayer {
                        layer: SourceLayer::Instance,
                        path: text_of_path(&self.paths.instance_config(name)),
                        detail,
                    },
                )
            },
        }
    }

    /// The effective-config snapshot that is to be written, and where to.
    pub fn write_effective_config_snapshot(
        &self,
        name: &InstanceName,
        effective: &EffectiveConfig,
    ) -> (r: (PathBuf, EffectiveConfigSnapshot))
        requires
            effective.wf(),
        ensures
            r.0 == joined(home_path(self.base(), name@), EFFECTIVE_CONFIG_SNAPSHOT_FILE@),
            r.1.schema_version == EFFECTIVE_CONFIG_SNAPSHOT_SCHEMA_VERSION,
            entries_show(r.1.entries@, effective.keys(), effective@),
    {
        (
            self.paths.effective_config_snapshot(name),
            EffectiveConfigSnapshot::from_effective(effective),
        )
    }

    /// Whether the effective-config snapshot stands, now that it was to be written.
    pub fn snapshot_written(&self, name: &InstanceName, written: Result<(), SnapshotFailure>) -> (r:
        Result<(), RegistryError>)
        ensures
            match written {
                Ok(_) => r is Ok,
                Err(failure) => r matches Err(e) && e@ == (RegistryErrorModel::SnapshotWrite {
                    name: name@,
                    path: path_text(
                        joined(home_path(self.base(), name@), EFFECTIVE_CONFIG_SNAPSHOT_FILE@),
                    ),
                    detail: match failure {
                        SnapshotFailure::Form(why) =>
                            "could not serialize the effective-config snapshot: "@ + why@,
                        SnapshotFailure::Write(why) => why@,
                    },
                }),
            },
    {
        match written {
            Ok(_) => Ok(()),
            Err(failure) => {
                let detail = match failure {
                    SnapshotFailure::Form(why) => {
                        let mut detail =
                            "could not serialize the effective-config snapshot: ".to_owned();
                        detail.append(why.as_str());
                        detail
                    },
                    SnapshotFailure::Write(why) => why,
                };
                Err(
                    RegistryErrorOf::SnapshotWrite {
                        name: name.to_text(),
                        path: text_of_path(&self.paths.effective_config_snapshot(name)),
                        detail,
                    },
                )
            },
        }
    }

    /// Begin to resolve the secrets that a configuration refers to.
    pub fn resolve_secrets(&self, effective: &EffectiveConfig) -> (r: ResolveSecrets)
        requires
            effective.wf(),
        ensures
            r@ == (ResolveSecretsModel {
                leaves: secret_leaves_of(effective.keys(), effective@),
                found: Seq::empty(),
            }),
    {
        let r = ResolveSecrets { leaves: effective.secret_leaves(), found: Vec::new() };
        assert(r@.found =~= Seq::empty());
        r
    }
}

/// The failure to read the snapshot of an instance's adapter.
pub open spec fn snapshot_unreadable(base: PathBuf, name: Seq<char>, source: Seq<char>) -> RegistryErrorModel {
    RegistryErrorOf::Io {
        name,
        path: path_text(joined(home_path(base, name), ADAPTER_SNAPSHOT_FILE@)),
        source,
    }
}

/// Whether a configuration is what four layers resolve to, without the key that says whose
/// it is.
pub open spec fn effective_of(
    layers: Seq<Map<Seq<char>, NodeModel>>,
    effective: Map<Seq<char>, ResolvedModel>,
) -> bool {
    exists|resolved: Map<Seq<char>, ResolvedModel>| #[trigger]
        resolves_to(layers, resolved) && effective == resolved.remove(RESERVED_IDENTITY_KEY@)
}

/// Secrets on their way: the leaves that refer to one, and the secrets found so far, which
/// are those of the first leaves.
pub struct ResolveSecrets {
    leaves: Vec<SecretLeaf>,
    found: Vec<SecretString>,
}

/// The model of a [`ResolveSecrets`].
pub struct ResolveSecretsModel {
    /// The leaves that refer to a secret.
    pub leaves: Seq<SecretLeafModel>,
    /// The cleartext of the secrets found so far.
    pub found: Seq<Seq<char>>,
}

impl View for ResolveSecrets {
    type V = ResolveSecretsModel;

    closed spec fn view(&self) -> ResolveSecretsModel {
        ResolveSecretsModel {
            leaves: secret_leaf_models(self.leaves@),
            found: self.found@.map(|i: int, secret: SecretString| secret@),
        }
    }
}

/// A secret under the key of the leaf that refers to it.
pub struct DeliveredSecret {
    /// The dotted key.
    pub key: String,
    /// The secret.
    pub secret: SecretString,
}

/// Some secrets, each under the key of its leaf.
pub open spec fn delivers(
    delivered: Seq<DeliveredSecret>,
    leaves: Seq<SecretLeafModel>,
    found: Seq<Seq<char>>,
) -> bool {
    &&& delivered.len() == leaves.len() == found.len()
    &&& forall|i: int|
        0 <= i < delivered.len() ==> (#[trigger] delivered[i]).key@ == leaves[i].key
            && delivered[i].secret@ == found[i]
}

impl ResolveSecrets {
    /// The name of the secret that is to be looked up next, if one is left.
    pub fn wanted(&self) -> (r: Option<&str>)
        ensures
            match r {
                Some(name) => self@.found.len() < self@.leaves.len() && name@
                    == self@.leaves[self@.found.len() as int].secret,
                None => self@.found.len() >= self@.leaves.len(),
            },
    {
        if self.found.len() < self.leaves.len() {
            Some(self.leaves[self.found.len()].secret.as_str())
        } else {
            None
        }
    }

    /// Take the secret that was wanted. The first that is not to be had ends it all.
    pub fn take(self, answer: Result<SecretString, SecretError>) -> (r: Result<Self, SecretError>)
        ensures
            match answer {
                Ok(secret) => r matches Ok(next) && next@ == (ResolveSecretsModel {
                    leaves: self@.leaves,
                    found: self@.found.push(secret@),
                }),
                Err(e) => r == Err::<Self, SecretError>(e),
            },
    {
        match answer {
            Ok(secret) => {
                let ResolveSecrets { leaves, found } = self;
                let mut found = found;
                let ghost before = found@;
                found.push(secret);
                let next = ResolveSecrets { leaves, found };
                assert(next@.found =~= self@.found.push(secret@));
                Ok(next)
            },
            Err(e) => Err(e),
        }
    }

    /// The secrets, once every one is there.
    pub fn finish(self) -> (r: Vec<DeliveredSecret>)
        requires
            self@.found.len() == self@.leaves.len(),
        ensures
            delivers(r@, self@.leaves, self@.found),
    {
        let ghost leaf_models = self@.leaves;
        let ghost texts = self@.found;
        let ResolveSecrets { leaves, found } = self;
        let n: usize = leaves.len();
        let mut out: Vec<DeliveredSecret> = Vec::new();
        let mut i: usize = 0;
        for secret in it: found
            invariant
                it.seq() == found@,
                it.seq().len() == leaves@.len() == n,
                i == it.index(),
                out@.len() == i,
                leaf_models == secret_leaf_models(leaves@),
                texts == found@.map(|i: int, secret: SecretString| secret@),
                forall|j: int|
                    0 <= j < i ==> (#[trigger] out@[j]).key@ == leaf_models[j].key
                        && out@[j].secret@ == texts[j],
        {
            let key = leaves[i].key.clone();
            out.push(DeliveredSecret { key, secret });
            i = i + 1;
        }
        out
    }
}

/// The cleartext of some secrets, each under its key.
pub fn reveal_secrets(delivered: Vec<DeliveredSecret>) -> (r: Vec<(String, String)>)
    ensures
        r@.len() == delivered@.len(),
        forall|i: int|
            0 <= i < r@.len() ==> (#[trigger] r@[i]).0@ == delivered@[i].key@ && r@[i].1@
                == delivered@[i].secret@,
{
    let mut out: Vec<(String, String)> = Vec::new();
    let mut i: usize = 0;
    while i < delivered.len()
        invariant
            i <= delivered@.len(),
            out@.len() == i,
            forall|j: int|
                0 <= j < i ==> (#[trigger] out@[j]).0@ == delivered@[j].key@ && out@[j].1@
                    == delivered@[j].secret@,
        decreases delivered@.len() - i,
    {
        out.push(
            (delivered[i].key.clone(), delivered[i].secret.expose_secret().to_owned()),
        );
        i = i + 1;
    }
    out
}

/// What a reading of secrets fails with where a secret is not to be had.
pub fn reveal_failure(e: SecretError) -> (r: ConfigError)
    ensures
        r@ == (ConfigErrorModel::SecretReveal { detail: e@.text() }),
{
    ConfigErrorOf::SecretReveal { detail: e.message() }
}

/// What is set is what is read: where a text was set under a key of an instance's config
/// and the config written, and the config then holds that text's table, the next reading
/// has the text under the key, noted as the instance's, unless an override has a leaf
/// there, above or below. The key that says whose config it is is never read.
pub proof fn law_set_config_is_read_back(
    path: PathBuf,
    before: Map<Seq<char>, NodeModel>,
    key: Seq<char>,
    value: Seq<char>,
    changed: Map<Seq<char>, NodeModel>,
    body: Seq<char>,
    overrides: Map<Seq<char>, NodeModel>,
    engine: Map<Seq<char>, NodeModel>,
    effective: Map<Seq<char>, ResolvedModel>,
)
    requires
        key != RESERVED_IDENTITY_KEY@,
        set_path(before, parts_of(key), NodeModel::Text(value)) == Some(changed),
        toml_document(body) == Ok::<Map<Seq<char>, NodeModel>, Seq<char>>(changed),
        only_leaf(changed, parts_of(key)),
        forall|other: Seq<Seq<char>>, node: NodeModel| #[trigger]
            is_leaf(overrides, other, node) ==> !collide(parts_of(key), other),
        effective_of(
            seq![
                engine,
                no_entries(),
                instance_layer(path, ConfigReadOf::Text(body))->Ok_0,
                overrides,
            ],
            effective,
        ),
    ensures
        effective.contains_key(key),
        effective[key] == (ResolvedModel {
            node: NodeModel::Text(value),
            source: SourceLayer::Instance,
        }),
{
    let layers = seq![
        engine,
        no_entries(),
        instance_layer(path, ConfigReadOf::Text(body))->Ok_0,
        overrides,
    ];
    let resolved = choose|resolved: Map<Seq<char>, ResolvedModel>| #[trigger]
        resolves_to(layers, resolved) && effective == resolved.remove(RESERVED_IDENTITY_KEY@);
    assert(layers[2] == changed);
    assert(layers[3] == overrides);
    assert(!masked(layers, 2, parts_of(key)));
    law_set_value_is_resolved(layers, before, key, NodeModel::Text(value), resolved);
}

/// The key that says whose config it is is never part of the effective configuration.
pub proof fn law_the_identity_key_is_not_effective(
    layers: Seq<Map<Seq<char>, NodeModel>>,
    effective: Map<Seq<char>, ResolvedModel>,
)
    requires
        effective_of(layers, effective),
    ensures
        !effective.contains_key(RESERVED_IDENTITY_KEY@),
{
}

/// What the config of an instance says is its layer: a config that is not there says nothing, and
/// one that cannot be read or is no document is told with its path, as the instance's.
pub proof fn law_a_config_is_its_layer(path: PathBuf, text: Seq<char>, why: Seq<char>)
    ensures
        instance_layer(path, ConfigReadModel::Missing) == Ok::<
            Map<Seq<char>, NodeModel>,
            ConfigErrorModel,
        >(Map::empty()),
        toml_document(text) matches Ok(entries) ==> instance_layer(
            path,
            ConfigReadModel::Text(text),
        ) == Ok::<Map<Seq<char>, NodeModel>, ConfigErrorModel>(entries),
        toml_document(text) matches Err(detail) ==> instance_layer(
            path,
            ConfigReadModel::Text(text),
        ) == Err::<Map<Seq<char>, NodeModel>, ConfigErrorModel>(
            ConfigErrorOf::MalformedLayer {
                layer: SourceLayer::Instance,
                path: path_text(path),
                detail,
            },
        ),
        instance_layer(path, ConfigReadModel::Failed(why)) == Err::<
            Map<Seq<char>, NodeModel>,
            ConfigErrorModel,
        >(
            ConfigErrorOf::MalformedLayer {
                layer: SourceLayer::Instance,
                path: path_text(path),
                detail: "could not read the instance config: "@ + why,
            },
        ),
{
}

/// A config is to be had exactly of an instance that has a row; what is wrong otherwise is told of
/// that name.
pub proof fn law_a_config_needs_its_row(
    name: Seq<char>,
    instance: AgentInstanceModel,
    store: StoreErrorModel,
)
    ensures
        missing_row(name, Ok(Some(instance))) is None,
        missing_row(name, Ok(None)) == Some(ConfigErrorModel::NotFound { name }),
        missing_row(name, Err(store)) == Some(
            ConfigErrorModel::Store { name, detail: store.text() },
        ),
{
}

} // verus!
