//! The in-process plugin host: role classification, the resources the
//! pipeline's work units share, the LIFO extension session and the work
//! units' decisions.

pub mod role;
pub mod resources;
pub mod session;
pub mod wus;
