//! Verified core of a container-monitoring dashboard.
//!
//! The library models the engine that supervises a fleet of service units:
//! a codec for lifecycle-state tokens, one status watcher and one log watcher
//! per unit, a one-shot command executor, and a supervisor that fans all of
//! their events into a single bus, each event tagged with its originating
//! container. Transport (message bus connections, subprocesses) and rendering
//! are left to the embedding application; the library receives plain values
//! and proves what events every step emits.

pub mod command;
pub mod discovery;
pub mod logwatch;
pub mod messages;
pub mod status;
pub mod supervisor;
pub mod text;
