use viola::abi::{AbiStatus, DiagnosticSeverity, PROVIDER_LINT_EVALUATE, PROVIDER_RUNNER_EXECUTE_SCOPE};
use viola::fixture::{
    FixtureCalls, FixturePlugin, RunnerFixture, TestPluginInitImpl, TestPluginLintEvalProvider,
    TestPluginShutdownImpl, TestRunnerInitImpl, TestRunnerProvider, TestRunnerShutdownImpl,
};
use viola::host::role::{
    grammar_vtable, has_cap, is_grammar, is_lint, is_runner, lint_vtable, roles_of, runner_vtable,
    Extension, ProviderEntry, Role, RoleSet,
};

#[test]
fn empty_set_contains_nothing() {
    let s = RoleSet::EMPTY();
    assert!(s.is_empty());
    assert!(!s.contains(Role::Runner));
    assert!(!s.contains(Role::Grammar));
    assert!(!s.contains(Role::Lint));
}

#[test]
fn role_bits_are_independent() {
    let s = RoleSet::EMPTY().insert(Role::Runner).insert(Role::Lint);
    assert!(s.contains(Role::Runner));
    assert!(s.contains(Role::Lint));
    assert!(!s.contains(Role::Grammar));
    assert!(!s.is_empty());
}

#[test]
fn full_set_round_trip() {
    let s = RoleSet::EMPTY().insert(Role::Runner).insert(Role::Grammar).insert(Role::Lint);
    assert!(s.contains(Role::Runner));
    assert!(s.contains(Role::Grammar));
    assert!(s.contains(Role::Lint));
}

#[test]
fn insert_is_idempotent() {
    let once = RoleSet::EMPTY().insert(Role::Grammar);
    assert_eq!(once, once.insert(Role::Grammar));
}

#[test]
fn role_positions() {
    assert_eq!(Role::Runner.position(), 0);
    assert_eq!(Role::Grammar.position(), 1);
    assert_eq!(Role::Lint.position(), 2);
}

fn loaded(ids: Vec<viola::abi::ProviderId>) -> Extension {
    Extension {
        providers: ids
            .into_iter()
            .enumerate()
            .map(|(i, id)| ProviderEntry { id, vtable: 0x1000 + i })
            .collect(),
    }
}

#[test]
fn fixture_loads_classifies_and_evaluates() {
    let ext = loaded(FixturePlugin::providers());
    assert!(is_lint(&ext), "fixture must classify as Lint");
    assert!(!is_runner(&ext), "fixture must not classify as Runner");
    let roles = roles_of(&ext);
    assert!(roles.contains(Role::Lint));
    assert!(!roles.contains(Role::Runner));
    assert!(!roles.contains(Role::Grammar));
    assert_eq!(ext.providers.len(), 1, "fixture exports exactly one provider");
    assert!(ext.providers[0].id == PROVIDER_LINT_EVALUATE());
    assert!(lint_vtable(&ext).is_some(), "lint vtable resolution failed");

    let mut calls = FixtureCalls::new();
    let out = TestPluginLintEvalProvider::evaluate(&mut calls, 8);
    assert_eq!(calls.invoke_calls, 1);
    assert!(out.status == AbiStatus::Success);
    assert_eq!(out.out_len, 1, "fixture emits exactly one diagnostic");
    assert_eq!(out.entries[0].path, b"src/fixture.rs");
    assert_eq!(out.entries[0].severity, DiagnosticSeverity::Warn);
}

#[test]
fn fixture_overflow_reports_internal() {
    let ext = loaded(FixturePlugin::providers());
    assert!(lint_vtable(&ext).is_some(), "lint vtable resolution failed");
    let mut calls = FixtureCalls::new();
    let out = TestPluginLintEvalProvider::evaluate(&mut calls, 0);
    assert_eq!(calls.invoke_calls, 1);
    assert!(out.status == AbiStatus::Internal, "overflow must return Internal");
    assert_eq!(out.out_len, 1, "overflow must report the would-have-emitted count");
    assert!(out.entries.is_empty());
}

#[test]
fn runner_fixture_classifies_as_runner() {
    let ext = loaded(RunnerFixture::providers());
    assert!(is_runner(&ext));
    assert!(!is_lint(&ext));
    assert!(!is_grammar(&ext));
    assert!(has_cap(&ext, PROVIDER_RUNNER_EXECUTE_SCOPE()));
    assert_eq!(runner_vtable(&ext), Some(0x1000));
    let mut calls = FixtureCalls::new();
    let (status, nam) = TestRunnerProvider::execute_scope(&mut calls, &viola::abi::RunScope {
        workspace_root: Vec::new(),
        files: Vec::new(),
        surface: viola::abi::RunSurface::Cli(),
        ci: 0,
    });
    assert!(status == AbiStatus::Success);
    assert_eq!(nam.version, viola::abi::NamVersion::V1_0_0());
    assert!(nam.entries.is_none());
}

#[test]
fn null_vtable_is_not_resolved_but_still_classifies() {
    let ext = Extension {
        providers: vec![ProviderEntry { id: PROVIDER_LINT_EVALUATE(), vtable: 0 }],
    };
    assert!(is_lint(&ext));
    assert_eq!(lint_vtable(&ext), None);
    assert_eq!(grammar_vtable(&ext), None);
}

#[test]
fn fixtures_count_their_calls() {
    let mut lint = FixtureCalls::new();
    assert_eq!(TestPluginInitImpl::init(&mut lint), AbiStatus::Success);
    TestPluginLintEvalProvider::evaluate(&mut lint, 1);
    TestPluginLintEvalProvider::evaluate(&mut lint, 1);
    assert_eq!(TestPluginShutdownImpl::shutdown(&mut lint), AbiStatus::Success);
    assert_eq!(lint, FixtureCalls { init_calls: 1, shutdown_calls: 1, invoke_calls: 2 });

    let mut runner = FixtureCalls::new();
    TestRunnerInitImpl::init(&mut runner);
    TestRunnerShutdownImpl::shutdown(&mut runner);
    TestRunnerShutdownImpl::shutdown(&mut runner);
    assert_eq!(runner, FixtureCalls { init_calls: 1, shutdown_calls: 2, invoke_calls: 0 });

    let mut near_max = FixtureCalls { init_calls: u32::MAX, shutdown_calls: 0, invoke_calls: 0 };
    TestRunnerInitImpl::init(&mut near_max);
    assert_eq!(near_max.init_calls, 0);
}
