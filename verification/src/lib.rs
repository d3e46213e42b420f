//! The decision core of a merge steward.
//!
//! The steward watches pull requests and workflow runs, keeps a durable ledger
//! of what it has begun, and decides what may be changed. Every read and every
//! write of the outside world is made by the program around this library; what
//! it read comes in as plain values, what it is to do comes back as plain
//! values.
pub mod admission;
pub mod agent_route;
pub mod capacity;
pub mod capacity_walk;
pub mod coalesce;
pub mod dispatch;
pub mod dispatch_scan;
pub mod disposition;
pub mod enqueue;
pub mod fingerprint;
pub mod force;
pub mod guard;
pub mod handoff;
pub mod json;
pub mod launch_profile;
pub mod lease;
pub mod ledger;
pub mod model;
pub mod native_arm;
pub mod numbers;
pub mod observation;
pub mod outside;
pub mod pass;
pub mod pass_walk;
pub mod path_text;
pub mod pending;
pub mod plan;
pub mod pr_walk;
pub mod queue_control;
pub mod queue_recovery;
pub mod queue_snapshot;
pub mod queue_witness;
pub mod receipt;
pub mod recovery;
pub mod repo_walk;
pub mod rerun;
pub mod resume;
pub mod resume_walk;
pub mod revalidation;
pub mod routes;
pub mod signal;
pub mod terminal;
pub mod text;
pub mod text_map;
pub mod witness_walk;
pub mod worker;
