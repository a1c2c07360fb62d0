//! The providers the deno runtime extension exports. The runner and
//! grammar roles emit empty NAM v1.0.0 payloads; the lint role drives the
//! worker.

use vstd::prelude::*;
use vstd::string::StringSliceAdditionalSpecFns;
use crate::abi::{
    AbiStatus, FileEntry, NamPayload, NamVersion, ProviderId, RunScope,
    PROVIDER_GRAMMAR_EXTRACT, PROVIDER_LINT_EVALUATE, PROVIDER_RUNNER_EXECUTE_SCOPE,
};
use crate::host::role::{role_provider, Role};

verus! {

/// The runner role (scope execution).
pub struct RunnerProvider;

/// The grammar role (per-file extraction).
pub struct GrammarProvider;

/// The lint role (evaluation through the worker).
pub struct LintEvalProvider;

/// Initialisation: the worker starts lazily on the first lint call, so
/// there is nothing to do.
pub struct InitImpl;

/// Shutdown: stops the worker if one runs.
pub struct ShutdownImpl;

/// The extension as a whole.
pub struct DenoRuntimeExtension;

impl RunnerProvider {
    pub fn id() -> (r: ProviderId)
        ensures
            r == role_provider(Role::Runner),
    {
        PROVIDER_RUNNER_EXECUTE_SCOPE()
    }

    /// Executes a scope: the NAM is an empty v1.0.0 payload whatever the
    /// scope.
    pub fn execute_scope(_scope: &RunScope) -> (r: NamPayload)
        ensures
            r.version == (NamVersion { major: 1, minor: 0, patch: 0, _reserved: 0 }),
            r.entries is None,
    {
        NamPayload::empty(NamVersion::new(1, 0, 0))
    }
}

impl GrammarProvider {
    pub fn id() -> (r: ProviderId)
        ensures
            r == role_provider(Role::Grammar),
    {
        PROVIDER_GRAMMAR_EXTRACT()
    }

    /// Extracts a file's contribution: an empty v1.0.0 payload whatever
    /// the file.
    pub fn extract(_file: &FileEntry, _source: &[u8]) -> (r: NamPayload)
        ensures
            r.version == (NamVersion { major: 1, minor: 0, patch: 0, _reserved: 0 }),
            r.entries is None,
    {
        NamPayload::empty(NamVersion::new(1, 0, 0))
    }
}

impl LintEvalProvider {
    pub fn id() -> (r: ProviderId)
        ensures
            r == role_provider(Role::Lint),
    {
        PROVIDER_LINT_EVALUATE()
    }
}

impl InitImpl {
    /// Initialisation always succeeds.
    pub fn init() -> (r: AbiStatus)
        ensures
            r == AbiStatus::Success,
    {
        AbiStatus::Success
    }
}

impl DenoRuntimeExtension {
    pub fn name() -> (r: &'static str)
        ensures
            r@ == "org.viola.deno.runtime"@,
    {
        "org.viola.deno.runtime"
    }

    pub fn version() -> (r: &'static str)
        ensures
            r@ == "0.1.0"@,
    {
        "0.1.0"
    }

    /// The providers the extension exports, in table order.
    pub fn providers() -> (r: Vec<ProviderId>)
        ensures
            r@ == seq![
                role_provider(Role::Runner),
                role_provider(Role::Grammar),
                role_provider(Role::Lint),
            ],
    {
        let mut v: Vec<ProviderId> = Vec::new();
        v.push(RunnerProvider::id());
        v.push(GrammarProvider::id());
        v.push(LintEvalProvider::id());
        v
    }
}

} // verus!
