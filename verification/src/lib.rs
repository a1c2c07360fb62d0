//! Verified core of the viola convention linter: the issue-pattern
//! grammar, config gate resolution, the worker wire protocol, the plugin
//! ABI value shapes and the host-side pipeline decisions.

pub mod abi;
pub mod cli;
pub mod config;
pub mod decimal;
pub mod deno;
pub mod fixture;
pub mod host;
pub mod text;
