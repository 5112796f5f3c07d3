//! A registered agent instance and its adapter, as they are stored.
use crate::capability::{CapabilityDeclaration, Declared};
use crate::lifecycle::LifecycleState;
use crate::name::InstanceName;
use std::path::PathBuf;
use vstd::prelude::*;

verus! {

/// The stored row of an agent instance.
#[derive(Debug)]
pub struct AgentInstance {
    /// Its name.
    pub name: InstanceName,
    /// The kind of its adapter.
    pub kind: String,
    /// Its lifecycle state.
    pub state: LifecycleState,
    /// Its home, as text.
    pub agent_home: String,
    /// When it was registered.
    pub created_at: String,
    /// When its row last changed.
    pub updated_at: String,
}

/// The model of an [`AgentInstance`].
pub struct AgentInstanceModel {
    /// Its name.
    pub name: Seq<char>,
    /// The kind of its adapter.
    pub kind: Seq<char>,
    /// Its lifecycle state.
    pub state: LifecycleState,
    /// Its home, as text.
    pub agent_home: Seq<char>,
    /// When it was registered.
    pub created_at: Seq<char>,
    /// When its row last changed.
    pub updated_at: Seq<char>,
}

impl View for AgentInstance {
    type V = AgentInstanceModel;

    open spec fn view(&self) -> AgentInstanceModel {
        AgentInstanceModel {
            name: self.name@,
            kind: self.kind@,
            state: self.state,
            agent_home: self.agent_home@,
            created_at: self.created_at@,
            updated_at: self.updated_at@,
        }
    }
}

impl Clone for AgentInstance {
    fn clone(&self) -> (r: Self)
        ensures
            r == *self,
    {
        AgentInstance {
            name: self.name.clone(),
            kind: self.kind.clone(),
            state: self.state,
            agent_home: self.agent_home.clone(),
            created_at: self.created_at.clone(),
            updated_at: self.updated_at.clone(),
        }
    }
}

/// Which adapter an instance is to have.
#[derive(Debug)]
pub enum AdapterRef {
    /// A built-in one, by its kind.
    Native(String),
    /// One with a manifest, by the path of that.
    Manifest(PathBuf),
}

/// What is kept of the adapter of an instance.
#[derive(Debug)]
pub struct AdapterSnapshot {
    /// Its kind.
    pub kind: String,
    /// Where its usage counts come from.
    pub metering_source: String,
    /// Where its manifest is, if it has one.
    pub manifest_path: Option<String>,
    /// What it declares it can do.
    pub declaration: CapabilityDeclaration,
}

/// The model of an [`AdapterSnapshot`].
pub struct AdapterSnapshotModel {
    /// Its kind.
    pub kind: Seq<char>,
    /// Where its usage counts come from.
    pub metering_source: Seq<char>,
    /// Where its manifest is, if it has one.
    pub manifest_path: Option<Seq<char>>,
    /// What it declares it can do.
    pub declaration: Seq<Declared>,
}

impl View for AdapterSnapshot {
    type V = AdapterSnapshotModel;

    open spec fn view(&self) -> AdapterSnapshotModel {
        AdapterSnapshotModel {
            kind: self.kind@,
            metering_source: self.metering_source@,
            manifest_path: match self.manifest_path {
                Some(path) => Some(path@),
                None => None,
            },
            declaration: self.declaration.entries@,
        }
    }
}

} // verus!
