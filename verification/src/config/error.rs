//! Why a viola.toml could not be parsed, and where.

use vstd::prelude::*;
use crate::config::issue_pattern::IssuePatternError;

verus! {

/// A parse failure with the byte offset it was detected at.
#[derive(Copy, Clone, Debug, PartialEq, Eq)]
pub enum ConfigError {
    Unexpected { offset: usize },
    UnknownKey { offset: usize },
    UnterminatedString { offset: usize },
    UnterminatedArray { offset: usize },
    DuplicateKey { offset: usize },
    Capacity { offset: usize },
    TypeMismatch { offset: usize },
    IncompatibleSchema { offset: usize },
    InvalidInteger { offset: usize },
    InvalidIssuePattern { offset: usize, error: IssuePatternError },
    MissingRequiredField { offset: usize },
}

impl ConfigError {
    /// The byte offset the failure was detected at.
    pub open spec fn spec_offset(self) -> usize {
        match self {
            ConfigError::Unexpected { offset } => offset,
            ConfigError::UnknownKey { offset } => offset,
            ConfigError::UnterminatedString { offset } => offset,
            ConfigError::UnterminatedArray { offset } => offset,
            ConfigError::DuplicateKey { offset } => offset,
            ConfigError::Capacity { offset } => offset,
            ConfigError::TypeMismatch { offset } => offset,
            ConfigError::IncompatibleSchema { offset } => offset,
            ConfigError::InvalidInteger { offset } => offset,
            ConfigError::InvalidIssuePattern { offset, .. } => offset,
            ConfigError::MissingRequiredField { offset } => offset,
        }
    }

    pub fn offset(&self) -> (r: usize)
        ensures
            r == self.spec_offset(),
    {
        match self {
            ConfigError::Unexpected { offset } => *offset,
            ConfigError::UnknownKey { offset } => *offset,
            ConfigError::UnterminatedString { offset } => *offset,
            ConfigError::UnterminatedArray { offset } => *offset,
            ConfigError::DuplicateKey { offset } => *offset,
            ConfigError::Capacity { offset } => *offset,
            ConfigError::TypeMismatch { offset } => *offset,
            ConfigError::IncompatibleSchema { offset } => *offset,
            ConfigError::InvalidInteger { offset } => *offset,
            ConfigError::InvalidIssuePattern { offset, .. } => *offset,
            ConfigError::MissingRequiredField { offset } => *offset,
        }
    }
}

} // verus!
