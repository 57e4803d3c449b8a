//! Desired-state reconciliation for a workload orchestrator: the dependency-cycle
//! check, the add/delete delta between desired states, the table of observed
//! execution states, and the decisions of the single-threaded event loop.

pub mod keyed;
pub mod objects;
pub mod stored_workload_spec;
pub mod state;
pub mod cycle_check;
pub mod field_mask;
pub mod delta;
pub mod server_state;
pub mod workload_state_db;
pub mod commands;
pub mod ankaios_server;
pub mod laws;
pub mod control_interface_path;
pub mod ank_config;
pub mod get_configs;
