//! Fixture plugins for the host's loader tests: a lint that emits exactly
//! one diagnostic, and a runner that produces an empty NAM v1.0.0.

use vstd::prelude::*;
use vstd::string::StringSliceAdditionalSpecFns;
use crate::abi::{
    AbiStatus, Diagnostic, DiagnosticSeverity, NamPayload, NamVersion, ProviderId, RunScope,
    SourceLocation, SourceRange, PROVIDER_LINT_EVALUATE, PROVIDER_RUNNER_EXECUTE_SCOPE,
};
use crate::host::role::{role_provider, Role};

verus! {

/// The fixture lint's one diagnostic.
pub open spec fn fixture_diagnostic_ok(d: Diagnostic) -> bool {
    &&& d.plugin_id@ == "org.viola.lint.fixture".spec_bytes()
    &&& d.rule_id@ == "fixture-rule-1".spec_bytes()
    &&& d.severity == DiagnosticSeverity::Warn
    &&& d.message@ == "fixture-emitted diagnostic".spec_bytes()
    &&& d.path@ == "src/fixture.rs".spec_bytes()
    &&& d.range == SourceRange {
        start: SourceLocation { line: 1, column: 0 },
        end: SourceLocation { line: 1, column: 10 },
    }
    &&& d.suggestion@.len() == 0
    &&& d.metadata_schema == ProviderId(0)
    &&& d.metadata@.len() == 0
}

fn bytes_of(s: &str) -> (r: Vec<u8>)
    ensures
        r@ == s.spec_bytes(),
{
    let src = s.as_bytes();
    let mut v: Vec<u8> = Vec::new();
    let mut k: usize = 0;
    while k < src.len()
        invariant
            k <= src@.len(),
            v@ == src@.take(k as int),
        decreases src.len() - k,
    {
        v.push(src[k]);
        assert(src@.take(k + 1) =~= src@.take(k as int).push(src@[k as int]));
        k = k + 1;
    }
    assert(src@.take(k as int) =~= src@);
    v
}

/// The diagnostic the fixture lint emits.
pub fn fixture_diagnostic() -> (r: Diagnostic)
    ensures
        fixture_diagnostic_ok(r),
{
    Diagnostic {
        plugin_id: bytes_of("org.viola.lint.fixture"),
        rule_id: bytes_of("fixture-rule-1"),
        severity: DiagnosticSeverity::Warn,
        message: bytes_of("fixture-emitted diagnostic"),
        path: bytes_of("src/fixture.rs"),
        range: SourceRange {
            start: SourceLocation { line: 1, column: 0 },
            end: SourceLocation { line: 1, column: 10 },
        },
        suggestion: Vec::new(),
        metadata_schema: ProviderId(0),
        metadata: Vec::new(),
    }
}

/// A call counter after one more call; it wraps around at `u32::MAX`.
pub open spec fn bumped(n: u32) -> u32 {
    if n == u32::MAX {
        0
    } else {
        (n + 1) as u32
    }
}

fn bump(n: u32) -> (r: u32)
    ensures
        r == bumped(n),
{
    if n == u32::MAX {
        0
    } else {
        n + 1
    }
}

/// How often each entrypoint of a fixture was called.
#[derive(Copy, Clone, Debug, Default, PartialEq, Eq)]
pub struct FixtureCalls {
    pub init_calls: u32,
    pub shutdown_calls: u32,
    /// Evaluations for the lint fixture, scope executions for the runner.
    pub invoke_calls: u32,
}

impl FixtureCalls {
    /// No call yet.
    pub fn new() -> (r: FixtureCalls)
        ensures
            r.init_calls == 0 && r.shutdown_calls == 0 && r.invoke_calls == 0,
    {
        FixtureCalls { init_calls: 0, shutdown_calls: 0, invoke_calls: 0 }
    }
}

/// A lint evaluation's outcome: the status, the reported count, and the
/// diagnostics written into the host's buffer.
pub struct Evaluation {
    pub status: AbiStatus,
    pub out_len: usize,
    pub entries: Vec<Diagnostic>,
}

/// The fixture's lint role.
pub struct TestPluginLintEvalProvider;

/// The fixture lint's initialisation.
pub struct TestPluginInitImpl;

/// The fixture lint's shutdown.
pub struct TestPluginShutdownImpl;

/// The fixture lint extension.
pub struct FixturePlugin;

impl TestPluginLintEvalProvider {
    pub fn id() -> (r: ProviderId)
        ensures
            r == role_provider(Role::Lint),
    {
        PROVIDER_LINT_EVALUATE()
    }

    /// Evaluates into a host buffer of `out_capacity` slots: the one
    /// diagnostic when it fits; otherwise nothing is written, the count
    /// that would have been emitted is reported and the status is
    /// `Internal`.
    pub fn evaluate(calls: &mut FixtureCalls, out_capacity: usize) -> (r: Evaluation)
        ensures
            *final(calls) == (FixtureCalls { invoke_calls: bumped(old(calls).invoke_calls), ..*old(calls) }),
            r.out_len == 1,
            out_capacity < 1 ==> r.status == AbiStatus::Internal && r.entries@.len() == 0,
            out_capacity >= 1 ==> r.status == AbiStatus::Success && r.entries@.len() == 1
                && fixture_diagnostic_ok(r.entries@[0]),
    {
        calls.invoke_calls = bump(calls.invoke_calls);
        let emit: usize = 1;
        if out_capacity < emit {
            return Evaluation { status: AbiStatus::Internal, out_len: emit, entries: Vec::new() };
        }
        let mut entries: Vec<Diagnostic> = Vec::new();
        entries.push(fixture_diagnostic());
        Evaluation { status: AbiStatus::Success, out_len: emit, entries }
    }
}

impl TestPluginInitImpl {
    pub fn init(calls: &mut FixtureCalls) -> (r: AbiStatus)
        ensures
            r == AbiStatus::Success,
            *final(calls) == (FixtureCalls { init_calls: bumped(old(calls).init_calls), ..*old(calls) }),
    {
        calls.init_calls = bump(calls.init_calls);
        AbiStatus::Success
    }
}

impl TestPluginShutdownImpl {
    pub fn shutdown(calls: &mut FixtureCalls) -> (r: AbiStatus)
        ensures
            r == AbiStatus::Success,
            *final(calls) == (FixtureCalls { shutdown_calls: bumped(old(calls).shutdown_calls), ..*old(calls) }),
    {
        calls.shutdown_calls = bump(calls.shutdown_calls);
        AbiStatus::Success
    }
}

impl FixturePlugin {
    pub fn name() -> (r: &'static str)
        ensures
            r@ == "org.viola.lint.fixture"@,
    {
        "org.viola.lint.fixture"
    }

    /// The providers the fixture exports.
    pub fn providers() -> (r: Vec<ProviderId>)
        ensures
            r@ == seq![role_provider(Role::Lint)],
    {
        let mut v: Vec<ProviderId> = Vec::new();
        v.push(TestPluginLintEvalProvider::id());
        v
    }
}

/// The fixture's runner role.
pub struct TestRunnerProvider;

/// The fixture runner's initialisation.
pub struct TestRunnerInitImpl;

/// The fixture runner's shutdown.
pub struct TestRunnerShutdownImpl;

/// The fixture runner extension.
pub struct RunnerFixture;

impl TestRunnerProvider {
    pub fn id() -> (r: ProviderId)
        ensures
            r == role_provider(Role::Runner),
    {
        PROVIDER_RUNNER_EXECUTE_SCOPE()
    }

    /// Executes a scope: an empty NAM v1.0.0 whatever the scope.
    pub fn execute_scope(calls: &mut FixtureCalls, _scope: &RunScope) -> (r: (AbiStatus, NamPayload))
        ensures
            *final(calls) == (FixtureCalls { invoke_calls: bumped(old(calls).invoke_calls), ..*old(calls) }),
            r.0 == AbiStatus::Success,
            r.1.version == (NamVersion { major: 1, minor: 0, patch: 0, _reserved: 0 }),
            r.1.entries is None,
    {
        calls.invoke_calls = bump(calls.invoke_calls);
        (AbiStatus::Success, NamPayload::empty(NamVersion::new(1, 0, 0)))
    }
}

impl TestRunnerInitImpl {
    pub fn init(calls: &mut FixtureCalls) -> (r: AbiStatus)
        ensures
            r == AbiStatus::Success,
            *final(calls) == (FixtureCalls { init_calls: bumped(old(calls).init_calls), ..*old(calls) }),
    {
        calls.init_calls = bump(calls.init_calls);
        AbiStatus::Success
    }
}

impl TestRunnerShutdownImpl {
    pub fn shutdown(calls: &mut FixtureCalls) -> (r: AbiStatus)
        ensures
            r == AbiStatus::Success,
            *final(calls) == (FixtureCalls { shutdown_calls: bumped(old(calls).shutdown_calls), ..*old(calls) }),
    {
        calls.shutdown_calls = bump(calls.shutdown_calls);
        AbiStatus::Success
    }
}

impl RunnerFixture {
    pub fn name() -> (r: &'static str)
        ensures
            r@ == "org.viola.runner.fixture"@,
    {
        "org.viola.runner.fixture"
    }

    /// The providers the fixture exports.
    pub fn providers() -> (r: Vec<ProviderId>)
        ensures
            r@ == seq![role_provider(Role::Runner)],
    {
        let mut v: Vec<ProviderId> = Vec::new();
        v.push(TestRunnerProvider::id());
        v
    }
}

} // verus!
