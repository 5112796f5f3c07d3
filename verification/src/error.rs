//! The errors of the engine and how one layer's error becomes another's.
//!
//! As in [`crate::event`], each error is generic in its text: with `String` it is
//! the value that runs, with `Seq<char>` its model.
use crate::config::SourceLayer;
use crate::lifecycle::LifecycleError;
use crate::name::{InstanceName, NameError};
use crate::text::{dec, push_dec};
use vstd::prelude::*;

verus! {

/// What the state store can fail with.
#[derive(Clone, Debug, PartialEq, Eq)]
pub enum StoreErrorOf<S> {
    /// An instance of that name is already stored.
    DuplicateName {
        /// The name.
        name: S,
    },
    /// The store itself failed.
    Backend(S),
}

/// What the state store can fail with.
pub type StoreError = StoreErrorOf<String>;

/// The model of a [`StoreError`].
pub type StoreErrorModel = StoreErrorOf<Seq<char>>;

impl View for StoreErrorOf<String> {
    type V = StoreErrorModel;

    open spec fn view(&self) -> StoreErrorModel {
        match self {
            StoreErrorOf::DuplicateName { name } => StoreErrorOf::DuplicateName {
                name: name@,
            },
            StoreErrorOf::Backend(detail) => StoreErrorOf::Backend(detail@),
        }
    }
}

impl StoreErrorOf<Seq<char>> {
    /// The text of the error.
    pub open spec fn text(self) -> Seq<char> {
        match self {
            StoreErrorOf::DuplicateName { name } => "an Agent Instance named '"@ + name + "' already exists"@,
            StoreErrorOf::Backend(detail) => "state store failure: "@ + detail,
        }
    }
}

impl StoreErrorOf<String> {
    /// The text of the error.
    pub fn message(&self) -> (r: String)
        ensures
            r@ == self@.text(),
    {
        match self {
            StoreErrorOf::DuplicateName { name } => {
                let mut out = "an Agent Instance named '".to_owned();
                out.append(name.as_str());
                out.append("' already exists");
                out
            },
            StoreErrorOf::Backend(detail) => {
                let mut out = "state store failure: ".to_owned();
                out.append(detail.as_str());
                out
            },
        }
    }
}

/// What the process backend can fail with.
#[derive(Clone, Debug, PartialEq, Eq)]
pub enum BackendErrorOf<S> {
    /// An operation on the process failed.
    Control {
        /// The operation.
        op: S,
        /// How.
        detail: S,
    },
    /// The process was killed and its death was not seen in time.
    StopUnconfirmed {
        /// How long the backend waited.
        timeout_secs: u64,
    },
    /// Writing to the process did not end in time.
    StdinTimedOut {
        /// How long the backend waited.
        timeout_secs: u64,
    },
}

/// What the process backend can fail with.
pub type BackendError = BackendErrorOf<String>;

/// The model of a [`BackendError`].
pub type BackendErrorModel = BackendErrorOf<Seq<char>>;

impl View for BackendErrorOf<String> {
    type V = BackendErrorModel;

    open spec fn view(&self) -> BackendErrorModel {
        match self {
            BackendErrorOf::Control { op, detail } => BackendErrorOf::Control {
                op: op@,
                detail: detail@,
            },
            BackendErrorOf::StopUnconfirmed { timeout_secs } => BackendErrorOf::StopUnconfirmed {
                timeout_secs: *timeout_secs,
            },
            BackendErrorOf::StdinTimedOut { timeout_secs } => BackendErrorOf::StdinTimedOut {
                timeout_secs: *timeout_secs,
            },
        }
    }
}

impl BackendErrorOf<Seq<char>> {
    /// The text of the error.
    pub open spec fn text(self) -> Seq<char> {
        match self {
            BackendErrorOf::Control { op, detail } => "could not "@ + op + " the process: "@ + detail,
            BackendErrorOf::StopUnconfirmed { timeout_secs } => "the death of the process was not confirmed within "@ + dec(timeout_secs as nat) + "s"@,
            BackendErrorOf::StdinTimedOut { timeout_secs } => "the write to the process input timed out after "@ + dec(timeout_secs as nat) + "s"@,
        }
    }
}

impl BackendErrorOf<String> {
    /// The text of the error.
    pub fn message(&self) -> (r: String)
        ensures
            r@ == self@.text(),
    {
        match self {
            BackendErrorOf::Control { op, detail } => {
                let mut out = "could not ".to_owned();
                out.append(op.as_str());
                out.append(" the process: ");
                out.append(detail.as_str());
                out
            },
            BackendErrorOf::StopUnconfirmed { timeout_secs } => {
                let mut out = "the death of the process was not confirmed within ".to_owned();
                push_dec(&mut out, *timeout_secs as u128);
                out.append("s");
                out
            },
            BackendErrorOf::StdinTimedOut { timeout_secs } => {
                let mut out = "the write to the process input timed out after ".to_owned();
                push_dec(&mut out, *timeout_secs as u128);
                out.append("s");
                out
            },
        }
    }
}

/// Why no launch command can be made out for an adapter.
#[derive(Clone, Debug, PartialEq, Eq)]
pub enum LaunchResolveErrorOf<S> {
    /// The adapter is built in and launches nothing.
    NativeHasNoLaunch {
        /// Its kind.
        kind: S,
    },
    /// The manifest of the adapter is of no use.
    Manifest {
        /// Where it is.
        path: S,
        /// What is wrong.
        detail: S,
    },
}

/// Why no launch command can be made out for an adapter.
pub type LaunchResolveError = LaunchResolveErrorOf<String>;

/// The model of a [`LaunchResolveError`].
pub type LaunchResolveErrorModel = LaunchResolveErrorOf<Seq<char>>;

impl View for LaunchResolveErrorOf<String> {
    type V = LaunchResolveErrorModel;

    open spec fn view(&self) -> LaunchResolveErrorModel {
        match self {
            LaunchResolveErrorOf::NativeHasNoLaunch { kind } => LaunchResolveErrorOf::NativeHasNoLaunch {
                kind: kind@,
            },
            LaunchResolveErrorOf::Manifest { path, detail } => LaunchResolveErrorOf::Manifest {
                path: path@,
                detail: detail@,
            },
        }
    }
}

impl LaunchResolveErrorOf<Seq<char>> {
    /// The text of the error.
    pub open spec fn text(self) -> Seq<char> {
        match self {
            LaunchResolveErrorOf::NativeHasNoLaunch { kind } => "adapter kind '"@ + kind + "' has no launch command"@,
            LaunchResolveErrorOf::Manifest { path, detail } => "manifest "@ + path + ": "@ + detail,
        }
    }
}

impl LaunchResolveErrorOf<String> {
    /// The text of the error.
    pub fn message(&self) -> (r: String)
        ensures
            r@ == self@.text(),
    {
        match self {
            LaunchResolveErrorOf::NativeHasNoLaunch { kind } => {
                let mut out = "adapter kind '".to_owned();
                out.append(kind.as_str());
                out.append("' has no launch command");
                out
            },
            LaunchResolveErrorOf::Manifest { path, detail } => {
                let mut out = "manifest ".to_owned();
                out.append(path.as_str());
                out.append(": ");
                out.append(detail.as_str());
                out
            },
        }
    }
}

/// Why a configuration cannot be handed to an adapter.
#[derive(Clone, Debug, PartialEq, Eq)]
pub enum ConfigApplyErrorOf<S> {
    /// A native config file could not be written.
    FileRender {
        /// The file target.
        key: S,
        /// The file.
        path: S,
        /// How.
        detail: S,
    },
}

/// Why a configuration cannot be handed to an adapter.
pub type ConfigApplyError = ConfigApplyErrorOf<String>;

/// The model of a [`ConfigApplyError`].
pub type ConfigApplyErrorModel = ConfigApplyErrorOf<Seq<char>>;

impl View for ConfigApplyErrorOf<String> {
    type V = ConfigApplyErrorModel;

    open spec fn view(&self) -> ConfigApplyErrorModel {
        match self {
            ConfigApplyErrorOf::FileRender { key, path, detail } => ConfigApplyErrorOf::FileRender {
                key: key@,
                path: path@,
                detail: detail@,
            },
        }
    }
}

impl ConfigApplyErrorOf<Seq<char>> {
    /// The text of the error.
    pub open spec fn text(self) -> Seq<char> {
        match self {
            ConfigApplyErrorOf::FileRender { key, path, detail } => "could not render config target '"@ + key + "' to "@ + path + ": "@ + detail,
        }
    }
}

impl ConfigApplyErrorOf<String> {
    /// The text of the error.
    pub fn message(&self) -> (r: String)
        ensures
            r@ == self@.text(),
    {
        match self {
            ConfigApplyErrorOf::FileRender { key, path, detail } => {
                let mut out = "could not render config target '".to_owned();
                out.append(key.as_str());
                out.append("' to ");
                out.append(path.as_str());
                out.append(": ");
                out.append(detail.as_str());
                out
            },
        }
    }
}

/// Why a secret is not to be had.
#[derive(Clone, Debug, PartialEq, Eq)]
pub enum SecretErrorOf<S> {
    /// No resolver knows the name.
    Unresolved {
        /// The name.
        name: S,
        /// The resolvers that were asked.
        resolvers: S,
    },
}

/// Why a secret is not to be had.
pub type SecretError = SecretErrorOf<String>;

/// The model of a [`SecretError`].
pub type SecretErrorModel = SecretErrorOf<Seq<char>>;

impl View for SecretErrorOf<String> {
    type V = SecretErrorModel;

    open spec fn view(&self) -> SecretErrorModel {
        match self {
            SecretErrorOf::Unresolved { name, resolvers } => SecretErrorOf::Unresolved {
                name: name@,
                resolvers: resolvers@,
            },
        }
    }
}

impl SecretErrorOf<Seq<char>> {
    /// The text of the error.
    pub open spec fn text(self) -> Seq<char> {
        match self {
            SecretErrorOf::Unresolved { name, resolvers } => "secret '"@ + name + "' is not resolved by "@ + resolvers,
        }
    }
}

impl SecretErrorOf<String> {
    /// The text of the error.
    pub fn message(&self) -> (r: String)
        ensures
            r@ == self@.text(),
    {
        match self {
            SecretErrorOf::Unresolved { name, resolvers } => {
                let mut out = "secret '".to_owned();
                out.append(name.as_str());
                out.append("' is not resolved by ");
                out.append(resolvers.as_str());
                out
            },
        }
    }
}

/// What reading or writing the configuration can fail with.
#[derive(Clone, Debug, PartialEq, Eq)]
pub enum ConfigErrorOf<S> {
    /// The key is not one that can be set.
    UnknownKey {
        /// The key.
        key: S,
        /// The nearest key that can.
        suggestion: S,
    },
    /// The key would nest below a value that is no table.
    WriteShapeConflict {
        /// The key.
        key: S,
        /// The part of it that holds a plain value.
        conflicting_ancestor: S,
    },
    /// A layer cannot be read, parsed or written.
    MalformedLayer {
        /// Which.
        layer: SourceLayer,
        /// Where it is.
        path: S,
        /// What is wrong.
        detail: S,
    },
    /// There is no such instance.
    NotFound {
        /// The name.
        name: S,
    },
    /// The text is not an instance name.
    InvalidName {
        /// The text.
        name: S,
        /// Why not.
        reason: S,
    },
    /// The state store failed.
    Store {
        /// The instance.
        name: S,
        /// How.
        detail: S,
    },
    /// A secret could not be resolved for a read.
    SecretReveal {
        /// Why.
        detail: S,
    },
}

/// What reading or writing the configuration can fail with.
pub type ConfigError = ConfigErrorOf<String>;

/// The model of a [`ConfigError`].
pub type ConfigErrorModel = ConfigErrorOf<Seq<char>>;

impl View for ConfigErrorOf<String> {
    type V = ConfigErrorModel;

    open spec fn view(&self) -> ConfigErrorModel {
        match self {
            ConfigErrorOf::UnknownKey { key, suggestion } => ConfigErrorOf::UnknownKey {
                key: key@,
                suggestion: suggestion@,
            },
            ConfigErrorOf::WriteShapeConflict { key, conflicting_ancestor } => ConfigErrorOf::WriteShapeConflict {
                key: key@,
                conflicting_ancestor: conflicting_ancestor@,
            },
            ConfigErrorOf::MalformedLayer { layer, path, detail } => ConfigErrorOf::MalformedLayer {
                layer: *layer,
                path: path@,
                detail: detail@,
            },
            ConfigErrorOf::NotFound { name } => ConfigErrorOf::NotFound {
                name: name@,
            },
            ConfigErrorOf::InvalidName { name, reason } => ConfigErrorOf::InvalidName {
                name: name@,
                reason: reason@,
            },
            ConfigErrorOf::Store { name, detail } => ConfigErrorOf::Store {
                name: name@,
                detail: detail@,
            },
            ConfigErrorOf::SecretReveal { detail } => ConfigErrorOf::SecretReveal {
                detail: detail@,
            },
        }
    }
}

impl ConfigErrorOf<Seq<char>> {
    /// The text of the error.
    pub open spec fn text(self) -> Seq<char> {
        match self {
            ConfigErrorOf::UnknownKey { key, suggestion } => "unknown config key '"@ + key + "'; nearest known key: "@ + suggestion,
            ConfigErrorOf::WriteShapeConflict { key, conflicting_ancestor } => "cannot set '"@ + key + "': '"@ + conflicting_ancestor + "' already holds a plain value"@,
            ConfigErrorOf::MalformedLayer { layer, path, detail } => "the "@ + layer.label() + " config layer at "@ + path + " is malformed: "@ + detail,
            ConfigErrorOf::NotFound { name } => "no Agent Instance named '"@ + name + "'"@,
            ConfigErrorOf::InvalidName { name, reason } => "'"@ + name + "' is not a valid instance name: "@ + reason,
            ConfigErrorOf::Store { name, detail } => "could not read Agent Instance '"@ + name + "': "@ + detail,
            ConfigErrorOf::SecretReveal { detail } => "could not reveal a secret: "@ + detail,
        }
    }
}

impl ConfigErrorOf<String> {
    /// The text of the error.
    pub fn message(&self) -> (r: String)
        ensures
            r@ == self@.text(),
    {
        match self {
            ConfigErrorOf::UnknownKey { key, suggestion } => {
                let mut out = "unknown config key '".to_owned();
                out.append(key.as_str());
                out.append("'; nearest known key: ");
                out.append(suggestion.as_str());
                out
            },
            ConfigErrorOf::WriteShapeConflict { key, conflicting_ancestor } => {
                let mut out = "cannot set '".to_owned();
                out.append(key.as_str());
                out.append("': '");
                out.append(conflicting_ancestor.as_str());
                out.append("' already holds a plain value");
                out
            },
            ConfigErrorOf::MalformedLayer { layer, path, detail } => {
                let mut out = "the ".to_owned();
                out.append(layer.as_str());
                out.append(" config layer at ");
                out.append(path.as_str());
                out.append(" is malformed: ");
                out.append(detail.as_str());
                out
            },
            ConfigErrorOf::NotFound { name } => {
                let mut out = "no Agent Instance named '".to_owned();
                out.append(name.as_str());
                out.append("'");
                out
            },
            ConfigErrorOf::InvalidName { name, reason } => {
                let mut out = "'".to_owned();
                out.append(name.as_str());
                out.append("' is not a valid instance name: ");
                out.append(reason.as_str());
                out
            },
            ConfigErrorOf::Store { name, detail } => {
                let mut out = "could not read Agent Instance '".to_owned();
                out.append(name.as_str());
                out.append("': ");
                out.append(detail.as_str());
                out
            },
            ConfigErrorOf::SecretReveal { detail } => {
                let mut out = "could not reveal a secret: ".to_owned();
                out.append(detail.as_str());
                out
            },
        }
    }
}

/// What the registry can fail with.
#[derive(Clone, Debug, PartialEq, Eq)]
pub enum RegistryErrorOf<S> {
    /// The text is not an instance name.
    InvalidName {
        /// The text.
        name: S,
        /// Why not.
        reason: NameError,
    },
    /// There is no such instance.
    NotFound {
        /// The name.
        name: S,
    },
    /// There already is such an instance.
    DuplicateName {
        /// The name.
        name: S,
    },
    /// A running instance is only removed by force.
    RunningRequiresForce {
        /// The instance.
        name: S,
    },
    /// A file-system operation failed.
    Io {
        /// The instance, or what stands in for one.
        name: S,
        /// The path.
        path: S,
        /// The failure, in the words of the system.
        source: S,
    },
    /// The state store failed.
    Store(StoreErrorOf<S>),
    /// The effective-config snapshot could not be written.
    SnapshotWrite {
        /// The instance.
        name: S,
        /// The path.
        path: S,
        /// How.
        detail: S,
    },
    /// A registration failed and its row could not be taken back.
    RegisterOrphanRow {
        /// The instance.
        name: S,
        /// Why the home could not be made.
        home_error: S,
        /// Why the row stayed.
        rollback_error: S,
    },
    /// The row is gone but the home is still there.
    RemoveLeftoverHome {
        /// The instance.
        name: S,
        /// The home.
        path: S,
        /// Why.
        detail: S,
    },
    /// No adapter of that kind is built in.
    UnknownAdapterKind {
        /// The kind.
        kind: S,
    },
    /// There is no manifest at that path.
    ManifestNotFound {
        /// The path.
        path: S,
    },
    /// The manifest cannot be read.
    ManifestUnreadable {
        /// The path.
        path: S,
        /// How.
        detail: S,
    },
    /// The manifest does not say what it has to.
    ManifestInvalid {
        /// The path.
        path: S,
        /// What is wrong.
        detail: S,
    },
}

/// What the registry can fail with.
pub type RegistryError = RegistryErrorOf<String>;

/// The model of a [`RegistryError`].
pub type RegistryErrorModel = RegistryErrorOf<Seq<char>>;

impl View for RegistryErrorOf<String> {
    type V = RegistryErrorModel;

    open spec fn view(&self) -> RegistryErrorModel {
        match self {
            RegistryErrorOf::InvalidName { name, reason } => RegistryErrorOf::InvalidName {
                name: name@,
                reason: *reason,
            },
            RegistryErrorOf::NotFound { name } => RegistryErrorOf::NotFound {
                name: name@,
            },
            RegistryErrorOf::DuplicateName { name } => RegistryErrorOf::DuplicateName {
                name: name@,
            },
            RegistryErrorOf::RunningRequiresForce { name } => RegistryErrorOf::RunningRequiresForce {
                name: name@,
            },
            RegistryErrorOf::Io { name, path, source } => RegistryErrorOf::Io {
                name: name@,
                path: path@,
                source: source@,
            },
            RegistryErrorOf::Store(source) => RegistryErrorOf::Store(source@),
            RegistryErrorOf::SnapshotWrite { name, path, detail } => RegistryErrorOf::SnapshotWrite {
                name: name@,
                path: path@,
                detail: detail@,
            },
            RegistryErrorOf::RegisterOrphanRow { name, home_error, rollback_error } => RegistryErrorOf::RegisterOrphanRow {
                name: name@,
                home_error: home_error@,
                rollback_error: rollback_error@,
            },
            RegistryErrorOf::RemoveLeftoverHome { name, path, detail } => RegistryErrorOf::RemoveLeftoverHome {
                name: name@,
                path: path@,
                detail: detail@,
            },
            RegistryErrorOf::UnknownAdapterKind { kind } => RegistryErrorOf::UnknownAdapterKind {
                kind: kind@,
            },
            RegistryErrorOf::ManifestNotFound { path } => RegistryErrorOf::ManifestNotFound {
                path: path@,
            },
            RegistryErrorOf::ManifestUnreadable { path, detail } => RegistryErrorOf::ManifestUnreadable {
                path: path@,
                detail: detail@,
            },
            RegistryErrorOf::ManifestInvalid { path, detail } => RegistryErrorOf::ManifestInvalid {
                path: path@,
                detail: detail@,
            },
        }
    }
}

impl RegistryErrorOf<Seq<char>> {
    /// The text of the error.
    pub open spec fn text(self) -> Seq<char> {
        match self {
            RegistryErrorOf::InvalidName { name, reason } => "'"@ + name + "' is not a valid instance name: "@ + reason.text(),
            RegistryErrorOf::NotFound { name } => "no Agent Instance named '"@ + name + "'"@,
            RegistryErrorOf::DuplicateName { name } => "an Agent Instance named '"@ + name + "' already exists"@,
            RegistryErrorOf::RunningRequiresForce { name } => "Agent Instance '"@ + name + "' is running; removing it takes force"@,
            RegistryErrorOf::Io { name, path, source } => "I/O failure for '"@ + name + "' at "@ + path + ": "@ + source,
            RegistryErrorOf::Store(source) => source.text(),
            RegistryErrorOf::SnapshotWrite { name, path, detail } => "could not write the effective-config snapshot of '"@ + name + "' at "@ + path + ": "@ + detail,
            RegistryErrorOf::RegisterOrphanRow { name, home_error, rollback_error } => "registering '"@ + name + "' failed ("@ + home_error + ") and its row could not be removed: "@ + rollback_error,
            RegistryErrorOf::RemoveLeftoverHome { name, path, detail } => "Agent Instance '"@ + name + "' was removed but its home "@ + path + " remains: "@ + detail,
            RegistryErrorOf::UnknownAdapterKind { kind } => "unknown adapter kind '"@ + kind + "'"@,
            RegistryErrorOf::ManifestNotFound { path } => "no adapter manifest at "@ + path,
            RegistryErrorOf::ManifestUnreadable { path, detail } => "the adapter manifest at "@ + path + " cannot be read: "@ + detail,
            RegistryErrorOf::ManifestInvalid { path, detail } => "the adapter manifest at "@ + path + " is invalid: "@ + detail,
        }
    }
}

impl RegistryErrorOf<String> {
    /// The text of the error.
    pub fn message(&self) -> (r: String)
        ensures
            r@ == self@.text(),
    {
        match self {
            RegistryErrorOf::InvalidName { name, reason } => {
                let mut out = "'".to_owned();
                out.append(name.as_str());
                out.append("' is not a valid instance name: ");
                out.append(reason.message());
                out
            },
            RegistryErrorOf::NotFound { name } => {
                let mut out = "no Agent Instance named '".to_owned();
                out.append(name.as_str());
                out.append("'");
                out
            },
            RegistryErrorOf::DuplicateName { name } => {
                let mut out = "an Agent Instance named '".to_owned();
                out.append(name.as_str());
                out.append("' already exists");
                out
            },
            RegistryErrorOf::RunningRequiresForce { name } => {
                let mut out = "Agent Instance '".to_owned();
                out.append(name.as_str());
                out.append("' is running; removing it takes force");
                out
            },
            RegistryErrorOf::Io { name, path, source } => {
                let mut out = "I/O failure for '".to_owned();
                out.append(name.as_str());
                out.append("' at ");
                out.append(path.as_str());
                out.append(": ");
                out.append(source.as_str());
                out
            },
            RegistryErrorOf::Store(source) => source.message(),
            RegistryErrorOf::SnapshotWrite { name, path, detail } => {
                let mut out = "could not write the effective-config snapshot of '".to_owned();
                out.append(name.as_str());
                out.append("' at ");
                out.append(path.as_str());
                out.append(": ");
                out.append(detail.as_str());
                out
            },
            RegistryErrorOf::RegisterOrphanRow { name, home_error, rollback_error } => {
                let mut out = "registering '".to_owned();
                out.append(name.as_str());
                out.append("' failed (");
                out.append(home_error.as_str());
                out.append(") and its row could not be removed: ");
                out.append(rollback_error.as_str());
                out
            },
            RegistryErrorOf::RemoveLeftoverHome { name, path, detail } => {
                let mut out = "Agent Instance '".to_owned();
                out.append(name.as_str());
                out.append("' was removed but its home ");
                out.append(path.as_str());
                out.append(" remains: ");
                out.append(detail.as_str());
                out
            },
            RegistryErrorOf::UnknownAdapterKind { kind } => {
                let mut out = "unknown adapter kind '".to_owned();
                out.append(kind.as_str());
                out.append("'");
                out
            },
            RegistryErrorOf::ManifestNotFound { path } => {
                let mut out = "no adapter manifest at ".to_owned();
                out.append(path.as_str());
                out
            },
            RegistryErrorOf::ManifestUnreadable { path, detail } => {
                let mut out = "the adapter manifest at ".to_owned();
                out.append(path.as_str());
                out.append(" cannot be read: ");
                out.append(detail.as_str());
                out
            },
            RegistryErrorOf::ManifestInvalid { path, detail } => {
                let mut out = "the adapter manifest at ".to_owned();
                out.append(path.as_str());
                out.append(" is invalid: ");
                out.append(detail.as_str());
                out
            },
        }
    }
}

/// What an engine operation can fail with.
#[derive(Clone, Debug, PartialEq, Eq)]
pub enum EngineErrorOf<S> {
    /// The text is not an instance name.
    InvalidName {
        /// The text.
        name: S,
        /// Why not.
        reason: NameError,
    },
    /// There is no such instance.
    NotFound {
        /// The name.
        name: S,
    },
    /// The command is not valid in the current state.
    InvalidTransition(LifecycleError),
    /// The adapter of the instance cannot be launched as it stands.
    AdapterUnresolved {
        /// The instance.
        name: S,
        /// Why.
        detail: S,
    },
    /// The process did not come up.
    LaunchFailed {
        /// The instance.
        name: S,
        /// How.
        detail: S,
    },
    /// A log of the instance cannot be read or written.
    Log {
        /// The instance.
        name: S,
        /// The log.
        path: S,
        /// How.
        detail: S,
    },
    /// The state store failed.
    Store(StoreErrorOf<S>),
    /// The process backend failed.
    Backend {
        /// The instance.
        name: S,
        /// How.
        source: BackendErrorOf<S>,
    },
    /// The process was killed and its death was not seen in time.
    StopUnconfirmed {
        /// The instance.
        name: S,
        /// How long the backend waited.
        timeout_secs: u64,
    },
    /// The adapter does not support the operation here.
    CapabilityUnsupported {
        /// The instance.
        name: S,
        /// The capability.
        capability: S,
        /// The operating system.
        os: S,
        /// The declared level.
        level: S,
    },
    /// The operation needs a running instance.
    NotRunning {
        /// The instance.
        name: S,
        /// The state it is in.
        state: S,
    },
    /// There is no way to send input to the instance.
    InteractionUnavailable {
        /// The instance.
        name: S,
        /// Why.
        detail: S,
    },
    /// The instance does not take its input.
    InteractionTimedOut {
        /// The instance.
        name: S,
        /// How long the backend waited.
        timeout_secs: u64,
    },
    /// The metering listener cannot be set up.
    ObservedMetering {
        /// The instance.
        name: S,
        /// Why.
        detail: S,
    },
    /// A secret of the configuration is not to be had.
    Secret {
        /// The instance.
        name: S,
        /// Why.
        detail: S,
    },
    /// The effective-config snapshot could not be written.
    Snapshot {
        /// The instance.
        name: S,
        /// The path.
        path: S,
        /// How.
        detail: S,
    },
}

/// What an engine operation can fail with.
pub type EngineError = EngineErrorOf<String>;

/// The model of a [`EngineError`].
pub type EngineErrorModel = EngineErrorOf<Seq<char>>;

impl View for EngineErrorOf<String> {
    type V = EngineErrorModel;

    open spec fn view(&self) -> EngineErrorModel {
        match self {
            EngineErrorOf::InvalidName { name, reason } => EngineErrorOf::InvalidName {
                name: name@,
                reason: *reason,
            },
            EngineErrorOf::NotFound { name } => EngineErrorOf::NotFound {
                name: name@,
            },
            EngineErrorOf::InvalidTransition(source) => EngineErrorOf::InvalidTransition(*source),
            EngineErrorOf::AdapterUnresolved { name, detail } => EngineErrorOf::AdapterUnresolved {
                name: name@,
                detail: detail@,
            },
            EngineErrorOf::LaunchFailed { name, detail } => EngineErrorOf::LaunchFailed {
                name: name@,
                detail: detail@,
            },
            EngineErrorOf::Log { name, path, detail } => EngineErrorOf::Log {
                name: name@,
                path: path@,
                detail: detail@,
            },
            EngineErrorOf::Store(source) => EngineErrorOf::Store(source@),
            EngineErrorOf::Backend { name, source } => EngineErrorOf::Backend {
                name: name@,
                source: source@,
            },
            EngineErrorOf::StopUnconfirmed { name, timeout_secs } => EngineErrorOf::StopUnconfirmed {
                name: name@,
                timeout_secs: *timeout_secs,
            },
            EngineErrorOf::CapabilityUnsupported { name, capability, os, level } => EngineErrorOf::CapabilityUnsupported {
                name: name@,
                capability: capability@,
                os: os@,
                level: level@,
            },
            EngineErrorOf::NotRunning { name, state } => EngineErrorOf::NotRunning {
                name: name@,
                state: state@,
            },
            EngineErrorOf::InteractionUnavailable { name, detail } => EngineErrorOf::InteractionUnavailable {
                name: name@,
                detail: detail@,
            },
            EngineErrorOf::InteractionTimedOut { name, timeout_secs } => EngineErrorOf::InteractionTimedOut {
                name: name@,
                timeout_secs: *timeout_secs,
            },
            EngineErrorOf::ObservedMetering { name, detail } => EngineErrorOf::ObservedMetering {
                name: name@,
                detail: detail@,
            },
            EngineErrorOf::Secret { name, detail } => EngineErrorOf::Secret {
                name: name@,
                detail: detail@,
            },
            EngineErrorOf::Snapshot { name, path, detail } => EngineErrorOf::Snapshot {
                name: name@,
                path: path@,
                detail: detail@,
            },
        }
    }
}

impl EngineErrorOf<Seq<char>> {
    /// The text of the error.
    pub open spec fn text(self) -> Seq<char> {
        match self {
            EngineErrorOf::InvalidName { name, reason } => "'"@ + name + "' is not a valid instance name: "@ + reason.text(),
            EngineErrorOf::NotFound { name } => "no Agent Instance named '"@ + name + "'"@,
            EngineErrorOf::InvalidTransition(source) => source.text(),
            EngineErrorOf::AdapterUnresolved { name, detail } => "the adapter of '"@ + name + "' cannot be resolved: "@ + detail,
            EngineErrorOf::LaunchFailed { name, detail } => "launching '"@ + name + "' failed: "@ + detail,
            EngineErrorOf::Log { name, path, detail } => "log failure for '"@ + name + "' at "@ + path + ": "@ + detail,
            EngineErrorOf::Store(source) => source.text(),
            EngineErrorOf::Backend { name, source } => "backend failure for '"@ + name + "': "@ + source.text(),
            EngineErrorOf::StopUnconfirmed { name, timeout_secs } => "stopping '"@ + name + "' was not confirmed within "@ + dec(timeout_secs as nat) + "s"@,
            EngineErrorOf::CapabilityUnsupported { name, capability, os, level } => "'"@ + name + "': "@ + capability + " is "@ + level + " on "@ + os,
            EngineErrorOf::NotRunning { name, state } => "'"@ + name + "' is not running (it is "@ + state + ")"@,
            EngineErrorOf::InteractionUnavailable { name, detail } => "cannot send input to '"@ + name + "': "@ + detail,
            EngineErrorOf::InteractionTimedOut { name, timeout_secs } => "sending input to '"@ + name + "' timed out after "@ + dec(timeout_secs as nat) + "s"@,
            EngineErrorOf::ObservedMetering { name, detail } => "engine-observed metering for '"@ + name + "' cannot start: "@ + detail,
            EngineErrorOf::Secret { name, detail } => "secret resolution for '"@ + name + "' failed: "@ + detail,
            EngineErrorOf::Snapshot { name, path, detail } => "could not write the effective-config snapshot of '"@ + name + "' at "@ + path + ": "@ + detail,
        }
    }
}

impl EngineErrorOf<String> {
    /// The text of the error.
    pub fn message(&self) -> (r: String)
        ensures
            r@ == self@.text(),
    {
        match self {
            EngineErrorOf::InvalidName { name, reason } => {
                let mut out = "'".to_owned();
                out.append(name.as_str());
                out.append("' is not a valid instance name: ");
                out.append(reason.message());
                out
            },
            EngineErrorOf::NotFound { name } => {
                let mut out = "no Agent Instance named '".to_owned();
                out.append(name.as_str());
                out.append("'");
                out
            },
            EngineErrorOf::InvalidTransition(source) => source.message(),
            EngineErrorOf::AdapterUnresolved { name, detail } => {
                let mut out = "the adapter of '".to_owned();
                out.append(name.as_str());
                out.append("' cannot be resolved: ");
                out.append(detail.as_str());
                out
            },
            EngineErrorOf::LaunchFailed { name, detail } => {
                let mut out = "launching '".to_owned();
                out.append(name.as_str());
                out.append("' failed: ");
                out.append(detail.as_str());
                out
            },
            EngineErrorOf::Log { name, path, detail } => {
                let mut out = "log failure for '".to_owned();
                out.append(name.as_str());
                out.append("' at ");
                out.append(path.as_str());
                out.append(": ");
                out.append(detail.as_str());
                out
            },
            EngineErrorOf::Store(source) => source.message(),
            EngineErrorOf::Backend { name, source } => {
                let mut out = "backend failure for '".to_owned();
                out.append(name.as_str());
                out.append("': ");
                out.append(source.message().as_str());
                out
            },
            EngineErrorOf::StopUnconfirmed { name, timeout_secs } => {
                let mut out = "stopping '".to_owned();
                out.append(name.as_str());
                out.append("' was not confirmed within ");
                push_dec(&mut out, *timeout_secs as u128);
                out.append("s");
                out
            },
            EngineErrorOf::CapabilityUnsupported { name, capability, os, level } => {
                let mut out = "'".to_owned();
                out.append(name.as_str());
                out.append("': ");
                out.append(capability.as_str());
                out.append(" is ");
                out.append(level.as_str());
                out.append(" on ");
                out.append(os.as_str());
                out
            },
            EngineErrorOf::NotRunning { name, state } => {
                let mut out = "'".to_owned();
                out.append(name.as_str());
                out.append("' is not running (it is ");
                out.append(state.as_str());
                out.append(")");
                out
            },
            EngineErrorOf::InteractionUnavailable { name, detail } => {
                let mut out = "cannot send input to '".to_owned();
                out.append(name.as_str());
                out.append("': ");
                out.append(detail.as_str());
                out
            },
            EngineErrorOf::InteractionTimedOut { name, timeout_secs } => {
                let mut out = "sending input to '".to_owned();
                out.append(name.as_str());
                out.append("' timed out after ");
                push_dec(&mut out, *timeout_secs as u128);
                out.append("s");
                out
            },
            EngineErrorOf::ObservedMetering { name, detail } => {
                let mut out = "engine-observed metering for '".to_owned();
                out.append(name.as_str());
                out.append("' cannot start: ");
                out.append(detail.as_str());
                out
            },
            EngineErrorOf::Secret { name, detail } => {
                let mut out = "secret resolution for '".to_owned();
                out.append(name.as_str());
                out.append("' failed: ");
                out.append(detail.as_str());
                out
            },
            EngineErrorOf::Snapshot { name, path, detail } => {
                let mut out = "could not write the effective-config snapshot of '".to_owned();
                out.append(name.as_str());
                out.append("' at ");
                out.append(path.as_str());
                out.append(": ");
                out.append(detail.as_str());
                out
            },
        }
    }
}
/// How a registry failure reads as a failure of an engine operation.
pub open spec fn registry_to_engine_spec(err: RegistryErrorModel) -> EngineErrorModel {
    match err {
        RegistryErrorOf::NotFound { name } => EngineErrorOf::NotFound { name },
        RegistryErrorOf::InvalidName { name, reason } => EngineErrorOf::InvalidName {
            name,
            reason,
        },
        RegistryErrorOf::Io { name, path, source } => EngineErrorOf::Log {
            name,
            path,
            detail: source,
        },
        RegistryErrorOf::Store(source) => EngineErrorOf::Store(source),
        other => EngineErrorOf::AdapterUnresolved { name: "<unknown>"@, detail: other.text() },
    }
}

/// Turn a registry failure into a failure of an engine operation: a missing
/// instance, a bad name and a store failure keep their shape, a file-system
/// failure becomes a log failure that names its path, and the rest leave the
/// adapter unresolved.
pub fn registry_to_engine(err: RegistryError) -> (r: EngineError)
    ensures
        r@ == registry_to_engine_spec(err@),
{
    match err {
        RegistryErrorOf::NotFound { name } => EngineErrorOf::NotFound { name },
        RegistryErrorOf::InvalidName { name, reason } => EngineErrorOf::InvalidName {
            name,
            reason,
        },
        RegistryErrorOf::Io { name, path, source } => EngineErrorOf::Log {
            name,
            path,
            detail: source,
        },
        RegistryErrorOf::Store(source) => EngineErrorOf::Store(source),
        other => EngineErrorOf::AdapterUnresolved {
            name: "<unknown>".to_owned(),
            detail: other.message(),
        },
    }
}

/// A launch that cannot be resolved leaves the adapter unresolved.
pub fn launch_to_engine(name: &InstanceName, err: LaunchResolveError) -> (r: EngineError)
    ensures
        r@ == (EngineErrorModel::AdapterUnresolved { name: name@, detail: err@.text() }),
{
    EngineErrorOf::AdapterUnresolved { name: name.to_text(), detail: err.message() }
}

/// A configuration that cannot be read leaves the adapter unresolved.
pub fn config_to_engine(name: &InstanceName, err: ConfigError) -> (r: EngineError)
    ensures
        r@ == (EngineErrorModel::AdapterUnresolved { name: name@, detail: err@.text() }),
{
    EngineErrorOf::AdapterUnresolved { name: name.to_text(), detail: err.message() }
}

/// A configuration that cannot be applied leaves the adapter unresolved.
pub fn config_apply_to_engine(name: &InstanceName, err: ConfigApplyError) -> (r: EngineError)
    ensures
        r@ == (EngineErrorModel::AdapterUnresolved { name: name@, detail: err@.text() }),
{
    EngineErrorOf::AdapterUnresolved { name: name.to_text(), detail: err.message() }
}

/// How a failure to write the config snapshot reads as a failure of a start.
pub open spec fn snapshot_to_engine_spec(err: RegistryErrorModel) -> EngineErrorModel {
    match err {
        RegistryErrorOf::SnapshotWrite { name, path, detail } => EngineErrorOf::Snapshot {
            name,
            path,
            detail,
        },
        other => registry_to_engine_spec(other),
    }
}

/// Turn a failure to write the config snapshot into a failure of a start: the
/// write failure has its own shape, the rest go the way of every registry
/// failure.
pub fn snapshot_to_engine(err: RegistryError) -> (r: EngineError)
    ensures
        r@ == snapshot_to_engine_spec(err@),
{
    match err {
        RegistryErrorOf::SnapshotWrite { name, path, detail } => EngineErrorOf::Snapshot {
            name,
            path,
            detail,
        },
        other => registry_to_engine(other),
    }
}

/// A secret that is not to be had fails the start without showing any value.
pub fn secret_to_engine(name: &InstanceName, err: SecretError) -> (r: EngineError)
    ensures
        r@ == (EngineErrorModel::Secret { name: name@, detail: err@.text() }),
{
    EngineErrorOf::Secret { name: name.to_text(), detail: err.message() }
}

/// How a failed stop reads as a failure of the removal that asked for it.
pub open spec fn stop_error_to_registry_spec(err: EngineErrorModel) -> RegistryErrorModel {
    match err {
        EngineErrorOf::Store(source) => RegistryErrorOf::Store(source),
        EngineErrorOf::InvalidName { name, reason } => RegistryErrorOf::InvalidName {
            name,
            reason,
        },
        EngineErrorOf::NotFound { name } => RegistryErrorOf::NotFound { name },
        other => RegistryErrorOf::Io {
            name: "<remove-teardown>"@,
            path: "<process teardown>"@,
            source: "could not stop the live instance before removal: "@ + other.text(),
        },
    }
}

/// Turn the failed stop of a live instance into the failure of its removal.
pub fn stop_error_to_registry(err: EngineError) -> (r: RegistryError)
    ensures
        r@ == stop_error_to_registry_spec(err@),
{
    match err {
        EngineErrorOf::Store(source) => RegistryErrorOf::Store(source),
        EngineErrorOf::InvalidName { name, reason } => RegistryErrorOf::InvalidName {
            name,
            reason,
        },
        EngineErrorOf::NotFound { name } => RegistryErrorOf::NotFound { name },
        other => {
            let mut source = "could not stop the live instance before removal: ".to_owned();
            source.append(other.message().as_str());
            RegistryErrorOf::Io {
                name: "<remove-teardown>".to_owned(),
                path: "<process teardown>".to_owned(),
                source,
            }
        },
    }
}

/// A failure that reaches the engine from the registry and goes back to it keeps
/// its shape, where that shape is a missing instance, a bad name or a store
/// failure.
pub proof fn law_shared_failures_survive_both_ways(err: RegistryErrorModel)
    requires
        err is NotFound || err is InvalidName || err is Store,
    ensures
        stop_error_to_registry_spec(registry_to_engine_spec(err)) == err,
{
}

/// How failures of the registry are told by the engine: one of an instance that is missing, of a
/// name, or of the store stays what it is; a file that fails is told with its path; a snapshot of
/// the configuration that cannot be written is told as such where a snapshot was
/// written; and no other failure loses its text.
pub proof fn law_registry_failures_are_told(
    name: Seq<char>,
    reason: NameError,
    path: Seq<char>,
    source: Seq<char>,
    store: StoreErrorModel,
    other: RegistryErrorModel,
)
    requires
        !(other is NotFound || other is InvalidName || other is Io || other is Store),
    ensures
        registry_to_engine_spec(RegistryErrorModel::NotFound { name })
            == (EngineErrorModel::NotFound { name }),
        registry_to_engine_spec(RegistryErrorModel::InvalidName { name, reason })
            == (EngineErrorModel::InvalidName { name, reason }),
        registry_to_engine_spec(RegistryErrorModel::Io { name, path, source })
            == (EngineErrorModel::Log { name, path, detail: source }),
        registry_to_engine_spec(RegistryErrorModel::Store(store)) == EngineErrorModel::Store(store),
        registry_to_engine_spec(other) == (EngineErrorModel::AdapterUnresolved {
            name: "<unknown>"@,
            detail: other.text(),
        }),
        snapshot_to_engine_spec(RegistryErrorModel::SnapshotWrite { name, path, detail: source })
            == (EngineErrorModel::Snapshot { name, path, detail: source }),
        !(other is SnapshotWrite) ==> snapshot_to_engine_spec(other) == registry_to_engine_spec(
            other,
        ),
        snapshot_to_engine_spec(RegistryErrorModel::Store(store)) == EngineErrorModel::Store(store),
        snapshot_to_engine_spec(RegistryErrorModel::Io { name, path, source })
            == (EngineErrorModel::Log { name, path, detail: source }),
        snapshot_to_engine_spec(RegistryErrorModel::NotFound { name })
            == (EngineErrorModel::NotFound { name }),
        snapshot_to_engine_spec(RegistryErrorModel::InvalidName { name, reason })
            == (EngineErrorModel::InvalidName { name, reason }),
{
}

/// A stop that fails is told by the removal with its whole text, unless the instance was missing,
/// the name none or the store at fault: those stay what they are.
pub proof fn law_a_failed_stop_is_told_by_the_removal(
    name: Seq<char>,
    reason: NameError,
    store: StoreErrorModel,
    other: EngineErrorModel,
)
    requires
        !(other is NotFound || other is InvalidName || other is Store),
    ensures
        stop_error_to_registry_spec(EngineErrorModel::NotFound { name })
            == (RegistryErrorModel::NotFound { name }),
        stop_error_to_registry_spec(EngineErrorModel::InvalidName { name, reason })
            == (RegistryErrorModel::InvalidName { name, reason }),
        stop_error_to_registry_spec(EngineErrorModel::Store(store)) == RegistryErrorModel::Store(
            store,
        ),
        stop_error_to_registry_spec(other) matches RegistryErrorOf::Io { source, .. } && source
            == "could not stop the live instance before removal: "@ + other.text(),
{
}

} // verus!
