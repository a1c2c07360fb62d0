//! The viola configuration: the issue-pattern grammar, the parsed
//! config's schema with gate resolution, and the owned form that carries
//! interned plugin paths.

pub mod issue_pattern;
pub mod schema;
pub mod owned;
pub mod error;

pub use error::ConfigError;
pub use issue_pattern::{parse_issue_pattern, Category, Impact, IssuePattern, IssuePatternError};
pub use owned::{ViolaConfigOwned, MAX_PLUGINS};
pub use schema::ViolaConfig;
