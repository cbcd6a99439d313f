//! Decision logic for delegated and autonomous coding runs.

use vstd::prelude::*;

pub mod advisor;
pub mod autonomous_contract;
pub mod autonomous_controller;
pub mod autonomy_runtime;
pub mod autonomy_state;
pub mod autonomy_supervisor;
pub mod autonomy_verifier;
pub mod codex_cli;
pub mod context;
pub mod contracts;
pub mod coordinator;
pub mod events;
pub mod hash;
pub mod integrated;
pub mod integrated_advice;
pub mod integrated_tools;
pub mod job_manager;
pub mod journal;
pub mod json;
pub mod laws_advice;
pub mod laws_calls;
pub mod laws_policy;
pub mod laws_provider;
pub mod laws_records;
pub mod laws_run;
pub mod laws_session;
pub mod laws_steps;
pub mod laws_supervisor;
pub mod laws_text;
pub mod laws_turns;
pub mod laws_written;
pub mod patching;
pub mod provider;
pub mod redaction;
pub mod sorting;
pub mod text;

verus! {

/// The version that every record of the execution protocol carries.
pub const EXECUTION_CONTRACT_SCHEMA_VERSION: u32 = 1;

/// The name of the execution protocol.
pub const EXECUTION_PROTOCOL_VERSION: &'static str = "catdesk.delegated.v1";

} // verus!
