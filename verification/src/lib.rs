//! Core of a multi-architecture build orchestrator.
//!
//! The library holds the verified logic of the system: the task lifecycle
//! state machine, the task store with its queue queries, the per-server
//! scheduling rules, the pipeline step interpreter, and the live-log broker
//! model.  Process boundaries (HTTP, subprocesses, the wall clock) stay
//! outside; the functions here take plain values and return plain values.

pub mod alias;
pub mod branches;
pub mod broker;
pub mod clock;
pub mod config;
pub mod dsstore;
pub mod error;
pub mod idfinder;
pub mod installer;
pub mod manager;
pub mod oem;
pub mod pipeline;
pub mod queue;
pub mod request;
pub mod services;
pub mod state;
pub mod store;
pub mod task;
pub mod text;
