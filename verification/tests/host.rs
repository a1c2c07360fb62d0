use viola::abi::{AbiStatus, DiagnosticSeverity, FileEntry, NamPayload, NamVersion, PROVIDER_LINT_EVALUATE, PROVIDER_RUNNER_EXECUTE_SCOPE};
use viola::host::resources::{
    AgentKind, CiState, DiagnosticCounts, DiscoveredFilePaths, ExtensionHost, FileEntryBuffer,
    LintConfigBuffer, LintSlots, LINT_SLOT_SENTINEL, MAX_DIAGS_PER_LINT, MAX_LINTS,
};
use viola::host::role::{Extension, ProviderEntry, Role, RoleSet};
use viola::host::session::Session;
use viola::host::wus::{
    DiscoverFiles, FileInfo, FileKind, LintOutcome, LintPlan, PluginEntry, RunLint, RunRunner, NAM_ROW,
    RunnerOutcome, RunnerPlan, WuCtxStub, WuDiagnostic, WuDiagnosticSource,
};

fn ext(ids: &[(viola::abi::ProviderId, usize)]) -> Extension {
    Extension { providers: ids.iter().map(|&(id, vtable)| ProviderEntry { id, vtable }).collect() }
}

#[test]
fn ci_state_defaults() {
    let ci = CiState::new();
    assert!(!ci.is_ci);
    assert_eq!(ci.agent, AgentKind::Unknown);
}

#[test]
fn lint_slots_sentinel_and_bounds() {
    let mut slots = LintSlots::new();
    assert_eq!(slots.push(3), 0);
    assert_eq!(slots.push(LINT_SLOT_SENTINEL), 1);
    assert_eq!(slots.slots_len(), 2);
    assert_eq!(slots.slot_at(0), Some(3));
    assert_eq!(slots.slot_at(1), None);
    assert_eq!(slots.slot_at(2), None);
    assert_eq!(slots.slot_at(MAX_LINTS + 5), None);
}

#[test]
fn lint_config_absent_is_empty() {
    let mut cfg = LintConfigBuffer::new();
    assert_eq!(cfg.push(b"k = 1".to_vec()), 0);
    assert_eq!(cfg.configs_len(), 1);
    assert_eq!(cfg.config_at(0), b"k = 1");
    assert!(cfg.config_at(1).is_empty());
    assert!(cfg.config_at(MAX_LINTS).is_empty());
}

#[test]
fn discovered_paths_and_file_entries() {
    let mut paths = DiscoveredFilePaths::new();
    assert_eq!(paths.push(7), 0);
    assert_eq!(paths.push(9), 1);
    assert_eq!(paths.paths_len(), 2);
    assert_eq!(paths.path_at(1), Some(9));
    assert_eq!(paths.path_at(2), None);

    let mut entries = FileEntryBuffer::new();
    let i = entries.push(FileEntry { path: b"a.rs".to_vec(), language: b"rust".to_vec(), hash: Vec::new(), size_bytes: 3 });
    assert_eq!(i, 0);
    assert_eq!(entries.entries_len(), 1);
    assert_eq!(entries.entries_slice()[0].size_bytes, 3);
}

#[test]
fn extension_host_and_counts() {
    let mut host = ExtensionHost::new();
    assert_eq!(host.loaded_count(), 0);
    assert_eq!(host.push(ext(&[(PROVIDER_LINT_EVALUATE(), 1)])), 0);
    assert_eq!(host.loaded_count(), 1);
    assert_eq!(host.library_at(0).providers.len(), 1);

    let mut counts = DiagnosticCounts::new();
    assert_eq!(counts.count_at(5), 0);
    counts.set_count(5, 12);
    assert_eq!(counts.count_at(5), 12);
    assert_eq!(counts.count_at(4), 0);
}

#[test]
fn session_is_lifo_and_bounded() {
    let mut s: Session<2> = Session::new();
    assert!(s.is_empty());
    assert!(s.push(ext(&[(PROVIDER_LINT_EVALUATE(), 1)])).is_none());
    assert!(s.push(ext(&[(PROVIDER_RUNNER_EXECUTE_SCOPE(), 2)])).is_none());
    let rejected = s.push(ext(&[]));
    assert!(rejected.is_some());
    assert_eq!(s.len(), 2);
    assert_eq!(s.get(0).unwrap().providers[0].vtable, 1);
    assert!(s.get(2).is_none());
    let order = s.shutdown();
    assert_eq!(order.len(), 2);
    assert_eq!(order[0].providers[0].vtable, 2);
    assert_eq!(order[1].providers[0].vtable, 1);
}

#[test]
fn discover_files_projects_every_path() {
    let mut ctx = WuCtxStub::new();
    ctx.discovered.push(11);
    ctx.discovered.push(22);
    DiscoverFiles.execute(&mut ctx);
    assert_eq!(
        ctx.file_infos,
        vec![
            FileInfo { path: 11, kind: FileKind::Regular },
            FileInfo { path: 22, kind: FileKind::Regular },
        ]
    );
}

fn entry(roles: RoleSet, host_idx: usize) -> PluginEntry {
    PluginEntry { name: 0, roles, abi_version: 1, host_idx }
}

#[test]
fn run_runner_finds_first_runner_and_records_nam() {
    let mut ctx = WuCtxStub::new();
    ctx.ci_state.is_ci = true;
    ctx.host.push(ext(&[(PROVIDER_LINT_EVALUATE(), 1)]));
    ctx.host.push(ext(&[(PROVIDER_RUNNER_EXECUTE_SCOPE(), 2)]));
    ctx.plugin_entries.push(entry(RoleSet::EMPTY().insert(Role::Lint), 0));
    ctx.plugin_entries.push(entry(RoleSet::EMPTY().insert(Role::Runner), 1));
    ctx.file_entries.push(FileEntry { path: b"src/lib.rs".to_vec(), language: b"rust".to_vec(), hash: Vec::new(), size_bytes: 10 });
    match RunRunner.plan(&ctx) {
        RunnerPlan::Invoke { host_idx, scope } => {
            assert_eq!(host_idx, 1);
            assert_eq!(scope.ci, 1);
            assert_eq!(scope.files.len(), 1);
            assert_eq!(scope.files[0].path, b"src/lib.rs");
            assert!(scope.workspace_root.is_empty());
        }
        _ => panic!("expected an invocation"),
    }
    RunRunner.execute(&mut ctx, RunnerOutcome::Returned { status: AbiStatus::Success, nam: NamPayload::empty(NamVersion::V1_0_0()) });
    assert!(ctx.nams[0].is_some());
    assert!(ctx.diagnostics[0].is_none());
}

#[test]
fn run_runner_without_runner_fails_in_row_zero() {
    let mut ctx = WuCtxStub::new();
    ctx.host.push(ext(&[(PROVIDER_LINT_EVALUATE(), 1)]));
    ctx.plugin_entries.push(entry(RoleSet::EMPTY().insert(Role::Lint), 0));
    assert!(matches!(RunRunner.plan(&ctx), RunnerPlan::NoRunner));
    RunRunner.execute(&mut ctx, RunnerOutcome::NotCalled);
    assert_eq!(
        ctx.diagnostics[0],
        Some(WuDiagnostic { severity: DiagnosticSeverity::Error, source: WuDiagnosticSource::RunRunner, message: 0, range: None })
    );
    assert!(ctx.nams[0].is_none());
}

#[test]
fn run_runner_failing_status_and_null_vtable() {
    let mut ctx = WuCtxStub::new();
    ctx.host.push(ext(&[(PROVIDER_RUNNER_EXECUTE_SCOPE(), 0)]));
    ctx.plugin_entries.push(entry(RoleSet::EMPTY().insert(Role::Runner), 0));
    assert!(matches!(RunRunner.plan(&ctx), RunnerPlan::NoVtable));
    RunRunner.execute(&mut ctx, RunnerOutcome::Returned { status: AbiStatus::Internal, nam: NamPayload::empty(NamVersion::V1_0_0()) });
    assert!(ctx.nams[0].is_none());
    assert!(ctx.diagnostics[0].is_some());
}

#[test]
fn run_lint_plans_per_slot() {
    let mut ctx = WuCtxStub::new();
    ctx.host.push(ext(&[(PROVIDER_LINT_EVALUATE(), 5)]));
    ctx.host.push(ext(&[(PROVIDER_RUNNER_EXECUTE_SCOPE(), 6)]));
    ctx.lint_slots.push(0);
    ctx.lint_slots.push(1);
    ctx.lint_configs.push(b"max = 3".to_vec());
    match RunLint::<0>.plan(&ctx) {
        LintPlan::Invoke { host_idx, nam_row, config, out_capacity } => {
            assert_eq!(host_idx, 0);
            assert_eq!(nam_row, NAM_ROW);
            assert_eq!(config, b"max = 3");
            assert_eq!(out_capacity, MAX_DIAGS_PER_LINT);
        }
        _ => panic!("slot 0 invokes"),
    }
    assert!(matches!(RunLint::<1>.plan(&ctx), LintPlan::Fail));
    assert!(matches!(RunLint::<2>.plan(&ctx), LintPlan::Skip));
}

#[test]
fn run_lint_writes_only_its_row_range() {
    let mut ctx = WuCtxStub::new();
    let out = LintOutcome::Returned {
        status: AbiStatus::Success,
        severities: vec![DiagnosticSeverity::Warn, DiagnosticSeverity::Info],
        out_len: 2,
    };
    RunLint::<3>.execute(&mut ctx, &out);
    let base = 3 * MAX_DIAGS_PER_LINT;
    assert_eq!(ctx.counts.count_at(3), 2);
    assert_eq!(ctx.diagnostics[base].unwrap().severity, DiagnosticSeverity::Warn);
    assert_eq!(ctx.diagnostics[base + 1].unwrap().severity, DiagnosticSeverity::Info);
    assert_eq!(ctx.diagnostics[base + 1].unwrap().source, WuDiagnosticSource::RunLint);
    assert!(ctx.diagnostics[base + 2].is_none());
    assert!(ctx.diagnostics[base - 1].is_none());
    assert_eq!(ctx.diagnostics.iter().filter(|d| d.is_some()).count(), 2);
}

#[test]
fn run_lint_truncates_overflow_and_rejects_failures() {
    let mut ctx = WuCtxStub::new();
    let over = LintOutcome::Returned {
        status: AbiStatus::Internal,
        severities: vec![DiagnosticSeverity::Error; MAX_DIAGS_PER_LINT],
        out_len: 100,
    };
    RunLint::<0>.execute(&mut ctx, &over);
    assert_eq!(ctx.counts.count_at(0), MAX_DIAGS_PER_LINT);
    assert!(ctx.diagnostics[MAX_DIAGS_PER_LINT].is_none());

    let failed = LintOutcome::Returned { status: AbiStatus::InvalidArg, severities: Vec::new(), out_len: 0 };
    RunLint::<1>.execute(&mut ctx, &failed);
    assert_eq!(ctx.counts.count_at(1), 1);
    assert_eq!(
        ctx.diagnostics[MAX_DIAGS_PER_LINT],
        Some(WuDiagnostic { severity: DiagnosticSeverity::Error, source: WuDiagnosticSource::RunLint, message: 0, range: None })
    );

    RunLint::<2>.execute(&mut ctx, &LintOutcome::Skipped);
    assert_eq!(ctx.counts.count_at(2), 0);
    RunLint::<4>.execute(&mut ctx, &LintOutcome::NotCalled);
    assert_eq!(ctx.counts.count_at(4), 1);
    assert!(ctx.diagnostics[4 * MAX_DIAGS_PER_LINT].is_some());
}
