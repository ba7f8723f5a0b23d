//! Agent-side measurement pipeline of a distributed network-performance
//! probe: address-range expansion, latency and bandwidth decisions, the
//! probe scheduler and the coordinator session state machine.

pub mod args;
pub mod coordinator;
mod defaults;
pub mod expand;
pub mod install;
pub mod ping;
pub mod schedule;
pub mod session;
pub mod speed;
pub mod upgrade;

pub use args::Args;
pub use coordinator::S;
pub use defaults::{return_default_bootstrap_token, return_default_server};
pub use expand::ip_cidr_to_ips;
