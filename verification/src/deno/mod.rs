//! The deno-backed runtime: capacities, the error envelope, the JSON wire
//! protocol in both directions, the diagnostic arena and the worker
//! step logic.

use vstd::prelude::*;

pub mod error;
pub mod json;
pub mod encoder;
pub mod arena;
pub mod path;
pub mod lines;
pub mod worker;
pub mod providers;

verus! {

/// Bytes the diagnostic arena can hold per invocation.
pub const ARENA_BYTES: usize = 128 * 1024;
/// Diagnostic records the arena can hold per invocation.
pub const MAX_DIAGS: usize = 512;
/// Capacity of one outgoing frame.
pub const FRAME_CAP: usize = 64 * 1024;
/// Capacity of one incoming line.
pub const LINE_CAP: usize = 8 * 1024;
/// Capacity of a path buffer.
pub const PATH_CAP: usize = 4096;
/// Capacity of the temp file name.
pub const TEMP_NAME_CAP: usize = 64;
pub const PLUGIN_ID_CAP: usize = 128;
pub const RULE_ID_CAP: usize = 128;
pub const SEVERITY_CAP: usize = 32;
pub const MESSAGE_CAP: usize = 512;
/// How long shutdown waits for the worker before killing it.
pub const SHUTDOWN_DEADLINE_MS: u64 = 2000;

} // verus!
