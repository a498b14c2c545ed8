//! Core of an AI engine process supervisor: a wire codec for line-delimited
//! JSON-RPC frames, a duplex-channel request table with response correlation,
//! a health monitor, and a restart policy with bounded exponential backoff.
//!
//! The supervisor logic is written as decision functions from state and event
//! to next state and action; an asynchronous runtime around the library
//! performs the process spawning, pipe I/O and timers and feeds the events
//! back in.
//!
//! Around the supervisor stand the rules of its neighbours: database
//! connection configuration, drivers and credential handling, analysis-task
//! bookkeeping, query templates with parameter substitution, and a light
//! SQL syntax check.

pub mod analysis;
pub mod channel;
pub mod clock;
pub mod codec;
pub mod config;
pub mod dbtypes;
pub mod drivers;
pub mod errors;
pub mod health;
pub mod ids;
pub mod rpc;
pub mod security;
pub mod sqlcheck;
pub mod supervisor;
pub mod templates;
