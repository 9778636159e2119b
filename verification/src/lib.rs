//! Core collection engine of a live-triage agent for Windows endpoints.
//!
//! The library holds the verified logic: the canonical record shapes, the
//! bounded structured logger, the error model with retry and
//! graceful-degradation helpers, the per-collector algorithms (registry run
//! keys, startup folders, services, scheduled tasks, event-log filtering,
//! prefetch and shimcache parsing), the scan orchestrator, and the JSON
//! encoding of the final report.  Reads of the live system (files, registry,
//! process tables) happen outside the library and hand it plain values.

pub mod errors;
pub mod event_logs;
pub mod network;
pub mod persistence;
pub mod processes;
pub mod prefetch;
pub mod scan;
pub mod scheduled_tasks;
pub mod shimcache;
pub mod sortutil;
pub mod forensic_types;
pub mod json;
pub mod logger;
pub mod strutil;
pub mod system_info;
pub mod types;
pub mod wellformed;
pub mod wrappers;
