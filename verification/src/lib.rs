//! The decision core of an engine that supervises agent processes.
pub mod adopt;
pub mod budget;
pub mod capability;
pub mod config;
pub mod dotted;
pub mod drain;
pub mod duration;
pub mod effective;
pub mod engine;
pub mod error;
pub mod event;
pub mod fleet;
pub mod instance;
pub mod jsonl;
pub mod lifecycle;
pub mod logs;
pub mod metering;
pub mod name;
pub mod paths;
pub mod poll;
pub mod register;
pub mod registry;
pub mod removal;
pub mod remove;
pub mod restart;
pub mod resync;
pub mod secret;
pub mod send;
pub mod start;
pub mod stop;
pub mod supervisor;
pub mod suspend;
pub mod text;
pub mod toml_table;
pub mod usage;
pub mod writable;
