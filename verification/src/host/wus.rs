//! The work units of the viola pipeline and the in-memory context they
//! run against. A unit's decisions are verified here; where it calls into
//! a plugin, it is split in a plan (what to call, with what) and an
//! execute step that records what the call returned.

use vstd::prelude::*;
use crate::abi::{
    AbiStatus, DiagnosticSeverity, FileEntry, NamPayload, RunScope, RunSurface, SourceRange,
};
use crate::host::resources::{
    spec_config_at, spec_slot_at, CiState, DiagnosticCounts, DiscoveredFilePaths,
    ExtensionHost, FileEntryBuffer, LintConfigBuffer, LintSlots, MAX_DIAGS_PER_LINT, MAX_LINTS,
};
use crate::host::role::{
    lint_vtable, role_provider, runner_vtable, spec_cast, Role, RoleSet,
};

verus! {

/// Host-side record of one loaded plugin.
#[derive(Copy, Clone, Debug, PartialEq, Eq)]
pub struct PluginEntry {
    /// Display name, an interner id.
    pub name: u32,
    pub roles: RoleSet,
    pub abi_version: u32,
    /// Slot of the plugin's extension in the `ExtensionHost`.
    pub host_idx: usize,
}

/// Classification of one discovered file.
#[derive(Copy, Clone, Debug, Default, PartialEq, Eq, Structural)]
pub enum FileKind {
    /// A regular file.
    #[default]
    Regular,
    /// A symbolic link.
    Symlink,
    /// Anything else.
    Other,
}

/// One discovered file: its path (an interner id) and kind.
#[derive(Copy, Clone, Debug, PartialEq, Eq, Structural)]
pub struct FileInfo {
    pub path: u32,
    pub kind: FileKind,
}

/// The scope-wide NAM the runner returned.
#[derive(Debug)]
pub struct Nam {
    pub payload: NamPayload,
}

/// The unit that produced a diagnostic.
#[derive(Copy, Clone, Debug, PartialEq, Eq, Structural)]
pub enum WuDiagnosticSource {
    ConfigParse,
    PluginLoad,
    FileWalk,
    RunRunner,
    RunLint,
    Emit,
}

/// One finding of the run.
#[derive(Copy, Clone, Debug, PartialEq, Eq, Structural)]
pub struct WuDiagnostic {
    pub severity: DiagnosticSeverity,
    pub source: WuDiagnosticSource,
    /// Message text, an interner id (0 when there is none).
    pub message: u32,
    pub range: Option<SourceRange>,
}

/// The diagnostic egress sink.
#[derive(Copy, Clone, Debug)]
pub struct DiagnosticSink;

/// Reads run context, writes the parsed config.
pub struct LoadConfig;

/// Reads the config, writes the loaded plugin set.
pub struct LoadPlugins;

/// Reads findings, writes them to the egress sink.
pub struct EmitDiagnostics;

/// The NAM column holds one scope-wide row: the runner writes it and
/// every lint reads it.
pub const NAM_ROW: usize = 0;

/// The failure record a unit writes when it cannot do its work.
pub open spec fn failure(source: WuDiagnosticSource) -> WuDiagnostic {
    WuDiagnostic { severity: DiagnosticSeverity::Error, source, message: 0, range: None }
}

/// Diagnostic rows the pipeline provides: one row range per lint slot.
pub open spec fn diag_rows() -> nat {
    (MAX_LINTS * MAX_DIAGS_PER_LINT) as nat
}

/// The context the work units run against: the shared resources and the
/// columns they read and write.
pub struct WuCtxStub {
    pub ci_state: CiState,
    pub host: ExtensionHost,
    pub lint_slots: LintSlots,
    pub lint_configs: LintConfigBuffer,
    pub discovered: DiscoveredFilePaths,
    pub file_entries: FileEntryBuffer,
    pub counts: DiagnosticCounts,
    /// One row per loaded plugin.
    pub plugin_entries: Vec<PluginEntry>,
    /// One row per discovered file.
    pub file_infos: Vec<FileInfo>,
    /// Row 0 holds the scope-wide NAM once the runner returned it.
    pub nams: Vec<Option<Nam>>,
    /// Lint slot `L` owns rows `L * MAX_DIAGS_PER_LINT ..` of its width;
    /// the runner's failure goes to row 0.
    pub diagnostics: Vec<Option<WuDiagnostic>>,
}

impl WuCtxStub {
    /// Columns sized for a run and resources empty.
    pub open spec fn wf(&self) -> bool {
        &&& self.counts.wf()
        &&& self.nams@.len() >= 1
        &&& self.diagnostics@.len() >= diag_rows()
    }

    /// An empty context with its columns provisioned.
    pub fn new() -> (r: WuCtxStub)
        ensures
            r.wf(),
            r.host.loaded().len() == 0,
            r.lint_slots.slots().len() == 0,
            r.lint_configs.configs().len() == 0,
            r.discovered.paths().len() == 0,
            r.file_entries.entries().len() == 0,
            r.plugin_entries@.len() == 0,
            r.file_infos@.len() == 0,
            r.nams@.len() == 1 && r.nams@[0] is None,
            r.diagnostics@.len() == diag_rows(),
            forall|k: int| 0 <= k < diag_rows() ==> #[trigger] r.diagnostics@[k] is None,
    {
        let mut diagnostics: Vec<Option<WuDiagnostic>> = Vec::new();
        let rows = MAX_LINTS * MAX_DIAGS_PER_LINT;
        let mut k: usize = 0;
        while k < rows
            invariant
                rows == diag_rows(),
                k <= rows,
                diagnostics@.len() == k,
                forall|j: int| 0 <= j < k ==> #[trigger] diagnostics@[j] is None,
            decreases rows - k,
        {
            diagnostics.push(None);
            k = k + 1;
        }
        let mut nams: Vec<Option<Nam>> = Vec::new();
        nams.push(None);
        WuCtxStub {
            ci_state: CiState::new(),
            host: ExtensionHost::new(),
            lint_slots: LintSlots::new(),
            lint_configs: LintConfigBuffer::new(),
            discovered: DiscoveredFilePaths::new(),
            file_entries: FileEntryBuffer::new(),
            counts: DiagnosticCounts::new(),
            plugin_entries: Vec::new(),
            file_infos: Vec::new(),
            nams,
            diagnostics,
        }
    }
}

// ---------------------------------------------------------------------
// DiscoverFiles
// ---------------------------------------------------------------------

/// Projects the discovered paths into the file column.
pub struct DiscoverFiles;

impl DiscoverFiles {
    /// Writes one `Regular` file row per discovered path, in discovery
    /// order, starting at row 0; rows past the discovered paths are left
    /// as they were.
    pub fn execute(&self, ctx: &mut WuCtxStub)
        ensures
            final(ctx).file_infos@.len() == vstd::math::max(
                old(ctx).file_infos@.len() as int,
                old(ctx).discovered.paths().len() as int,
            ),
            forall|i: int|
                0 <= i < old(ctx).discovered.paths().len() ==> #[trigger] final(ctx).file_infos@[i]
                    == (FileInfo { path: old(ctx).discovered.paths()[i], kind: FileKind::Regular }),
            forall|i: int|
                old(ctx).discovered.paths().len() <= i < old(ctx).file_infos@.len()
                    ==> #[trigger] final(ctx).file_infos@[i] == old(ctx).file_infos@[i],
            final(ctx).discovered.paths() == old(ctx).discovered.paths(),
            final(ctx).diagnostics@ == old(ctx).diagnostics@,
            final(ctx).nams@ == old(ctx).nams@,
            final(ctx).counts.counts() == old(ctx).counts.counts(),
            final(ctx).plugin_entries@ == old(ctx).plugin_entries@,
    {
        let n = ctx.discovered.paths_len();
        let mut i: usize = 0;
        while i < n
            invariant
                n == ctx.discovered.paths().len(),
                i <= n,
                ctx.discovered.paths() == old(ctx).discovered.paths(),
                ctx.file_infos@.len() == vstd::math::max(old(ctx).file_infos@.len() as int, i as int),
                forall|j: int|
                    0 <= j < i ==> #[trigger] ctx.file_infos@[j] == (FileInfo {
                        path: old(ctx).discovered.paths()[j],
                        kind: FileKind::Regular,
                    }),
                forall|j: int|
                    i <= j < old(ctx).file_infos@.len() ==> #[trigger] ctx.file_infos@[j] == old(
                        ctx,
                    ).file_infos@[j],
                ctx.diagnostics@ == old(ctx).diagnostics@,
                ctx.nams@ == old(ctx).nams@,
                ctx.counts.counts() == old(ctx).counts.counts(),
                ctx.plugin_entries@ == old(ctx).plugin_entries@,
            decreases n - i,
        {
            if let Some(path) = ctx.discovered.path_at(i) {
                let entry = FileInfo { path, kind: FileKind::Regular };
                if i < ctx.file_infos.len() {
                    ctx.file_infos.set(i, entry);
                } else {
                    ctx.file_infos.push(entry);
                }
            }
            i = i + 1;
        }
    }
}

// ---------------------------------------------------------------------
// RunRunner
// ---------------------------------------------------------------------

/// Index of the first of the first `n` plugin rows at or after `i` whose
/// roles include Runner.
pub open spec fn first_runner(entries: Seq<PluginEntry>, n: int, i: int) -> Option<int>
    decreases n - i,
{
    if i < 0 || i >= n || i >= entries.len() {
        None
    } else if entries[i].roles.has(Role::Runner) {
        Some(i)
    } else {
        first_runner(entries, n, i + 1)
    }
}

/// Two file entries carry the same bytes and size.
pub open spec fn same_entry(a: FileEntry, b: FileEntry) -> bool {
    &&& a.path@ == b.path@
    &&& a.language@ == b.language@
    &&& a.hash@ == b.hash@
    &&& a.size_bytes == b.size_bytes
}

fn copy_bytes(s: &[u8]) -> (r: Vec<u8>)
    ensures
        r@ == s@,
{
    let mut v: Vec<u8> = Vec::new();
    let mut k: usize = 0;
    while k < s.len()
        invariant
            k <= s@.len(),
            v@ == s@.take(k as int),
        decreases s.len() - k,
    {
        v.push(s[k]);
        assert(s@.take(k + 1) =~= s@.take(k as int).push(s@[k as int]));
        k = k + 1;
    }
    assert(s@.take(k as int) =~= s@);
    v
}

fn copy_entries(src: &[FileEntry]) -> (r: Vec<FileEntry>)
    ensures
        r@.len() == src@.len(),
        forall|k: int| 0 <= k < src@.len() ==> same_entry(#[trigger] r@[k], src@[k]),
{
    let mut out: Vec<FileEntry> = Vec::new();
    let mut k: usize = 0;
    while k < src.len()
        invariant
            k <= src@.len(),
            out@.len() == k,
            forall|j: int| 0 <= j < k ==> same_entry(#[trigger] out@[j], src@[j]),
        decreases src.len() - k,
    {
        let e = &src[k];
        out.push(
            FileEntry {
                path: copy_bytes(e.path.as_slice()),
                language: copy_bytes(e.language.as_slice()),
                hash: copy_bytes(e.hash.as_slice()),
                size_bytes: e.size_bytes,
            },
        );
        k = k + 1;
    }
    out
}

/// What the runner unit calls.
pub enum RunnerPlan {
    /// No loaded plugin holds the Runner role.
    NoRunner,
    /// The runner plugin exports no usable runner vtable.
    NoVtable,
    /// Call the runner of the extension in `host_idx` over `scope`.
    Invoke { host_idx: usize, scope: RunScope },
}

/// What became of the runner call.
pub enum RunnerOutcome {
    /// There was nothing to call.
    NotCalled,
    /// The runner returned `status` and, on success, the NAM.
    Returned { status: AbiStatus, nam: NamPayload },
}

/// Runs the runner plugin over the scope and records the scope-wide NAM.
pub struct RunRunner;

impl RunRunner {
    /// Every plugin row the runner reads names a loaded extension.
    pub open spec fn inputs_ok(ctx: &WuCtxStub) -> bool {
        &&& ctx.plugin_entries@.len() >= ctx.host.loaded().len()
        &&& forall|i: int|
            0 <= i < ctx.host.loaded().len() ==> #[trigger] ctx.plugin_entries@[i].host_idx
                < ctx.host.loaded().len()
    }

    /// Row of the first loaded plugin with the Runner role.
    fn find_runner(ctx: &WuCtxStub) -> (r: Option<usize>)
        requires
            Self::inputs_ok(ctx),
        ensures
            match r {
                Some(i) => first_runner(ctx.plugin_entries@, ctx.host.loaded().len() as int, 0)
                    == Some(i as int) && i < ctx.host.loaded().len(),
                None => first_runner(ctx.plugin_entries@, ctx.host.loaded().len() as int, 0) is None,
            },
    {
        let plugin_count = ctx.host.loaded_count();
        let mut i: usize = 0;
        while i < plugin_count
            invariant
                plugin_count == ctx.host.loaded().len(),
                Self::inputs_ok(ctx),
                i <= plugin_count,
                first_runner(ctx.plugin_entries@, plugin_count as int, 0) == first_runner(
                    ctx.plugin_entries@,
                    plugin_count as int,
                    i as int,
                ),
            decreases plugin_count - i,
        {
            if ctx.plugin_entries[i].roles.contains(Role::Runner) {
                return Some(i);
            }
            i = i + 1;
        }
        None
    }

    /// Finds the first loaded plugin with the Runner role and, when its
    /// extension exports a runner vtable, the scope to run it over: no
    /// workspace root, every file entry, the CLI surface, and `ci` 1 when
    /// running in CI.
    pub fn plan(&self, ctx: &WuCtxStub) -> (r: RunnerPlan)
        requires
            Self::inputs_ok(ctx),
        ensures
            match first_runner(ctx.plugin_entries@, ctx.host.loaded().len() as int, 0) {
                None => r is NoRunner,
                Some(i) => {
                    let h = ctx.plugin_entries@[i].host_idx;
                    if spec_cast(
                        ctx.host.loaded()[h as int].spec_provider(role_provider(Role::Runner)),
                    ) is None {
                        r is NoVtable
                    } else {
                        r matches RunnerPlan::Invoke { host_idx, scope } && host_idx == h
                            && scope.workspace_root@.len() == 0 && scope.surface.spec_value() == 0
                            && scope.ci == (if ctx.ci_state.is_ci {
                            1u8
                        } else {
                            0u8
                        }) && scope.files@.len() == ctx.file_entries.entries().len() && (forall|
                            k: int,
                        |
                            0 <= k < scope.files@.len() ==> same_entry(
                                #[trigger] scope.files@[k],
                                ctx.file_entries.entries()[k],
                            ))
                    }
                },
            },
    {
        let i = match Self::find_runner(ctx) {
            Some(i) => i,
            None => {
                return RunnerPlan::NoRunner;
            },
        };
        let host_idx = ctx.plugin_entries[i].host_idx;
        let library = ctx.host.library_at(host_idx);
        if runner_vtable(library).is_none() {
            return RunnerPlan::NoVtable;
        }
        let ci: u8 = if ctx.ci_state.is_ci {
            1
        } else {
            0
        };
        let scope = RunScope {
            workspace_root: Vec::new(),
            files: copy_entries(ctx.file_entries.entries_slice()),
            surface: RunSurface::Cli(),
            ci,
        };
        RunnerPlan::Invoke { host_idx, scope }
    }

    /// Records the runner's result: the NAM in row `NAM_ROW` of the NAM column
    /// on success; otherwise one failure record in row 0 of the
    /// diagnostic column.
    pub fn execute(&self, ctx: &mut WuCtxStub, outcome: RunnerOutcome)
        requires
            old(ctx).wf(),
        ensures
            final(ctx).wf(),
            final(ctx).counts.counts() == old(ctx).counts.counts(),
            final(ctx).file_infos@ == old(ctx).file_infos@,
            final(ctx).plugin_entries@ == old(ctx).plugin_entries@,
            match outcome {
                RunnerOutcome::Returned { status: AbiStatus::Success, nam } => {
                    &&& final(ctx).nams@ == old(ctx).nams@.update(NAM_ROW as int, Some(Nam { payload: nam }))
                    &&& final(ctx).diagnostics@ == old(ctx).diagnostics@
                },
                _ => {
                    &&& final(ctx).nams@ == old(ctx).nams@
                    &&& final(ctx).diagnostics@ == old(ctx).diagnostics@.update(
                        0,
                        Some(failure(WuDiagnosticSource::RunRunner)),
                    )
                },
            },
    {
        match outcome {
            RunnerOutcome::Returned { status: AbiStatus::Success, nam } => {
                ctx.nams.set(NAM_ROW, Some(Nam { payload: nam }));
            },
            _ => {
                ctx.diagnostics.set(
                    0,
                    Some(
                        WuDiagnostic {
                            severity: DiagnosticSeverity::Error,
                            source: WuDiagnosticSource::RunRunner,
                            message: 0,
                            range: None,
                        },
                    ),
                );
            },
        }
    }
}

// ---------------------------------------------------------------------
// RunLint
// ---------------------------------------------------------------------

/// What lint unit `L` calls.
pub enum LintPlan {
    /// No plugin in slot `L`.
    Skip,
    /// The slot's plugin exports no usable lint vtable.
    Fail,
    /// Call the lint of the extension in `host_idx` with the NAM of row
    /// `nam_row` of the NAM column, the slot's config bytes, and an output
    /// buffer of `out_capacity` diagnostics.
    Invoke { host_idx: usize, nam_row: usize, config: Vec<u8>, out_capacity: usize },
}

/// What became of the lint call.
pub enum LintOutcome {
    /// The slot holds no plugin.
    Skipped,
    /// The plugin could not be called.
    NotCalled,
    /// The lint returned `status`, reported `out_len` diagnostics, and
    /// wrote the severities of the first of them that fit.
    Returned { status: AbiStatus, severities: Vec<DiagnosticSeverity>, out_len: usize },
}

/// How many diagnostic rows a lint result fills: what it reported, capped
/// at the slot's width.
pub open spec fn spec_row_count(out_len: usize) -> usize {
    if out_len < MAX_DIAGS_PER_LINT {
        out_len
    } else {
        MAX_DIAGS_PER_LINT
    }
}

/// Whether a lint status lets its rows be kept: success, or `Internal`
/// for a result truncated to the slot's width.
pub open spec fn status_accepted(s: AbiStatus) -> bool {
    s == AbiStatus::Success || s == AbiStatus::Internal
}

/// Distinct lint slots own disjoint diagnostic row ranges, all within the
/// provisioned rows, so the slots' writes commute.
pub proof fn lemma_lint_rows_disjoint(l1: int, l2: int, k: int)
    requires
        0 <= l1 < MAX_LINTS,
        0 <= l2 < MAX_LINTS,
        l1 != l2,
        l1 * MAX_DIAGS_PER_LINT <= k < l1 * MAX_DIAGS_PER_LINT + MAX_DIAGS_PER_LINT,
    ensures
        !(l2 * MAX_DIAGS_PER_LINT <= k < l2 * MAX_DIAGS_PER_LINT + MAX_DIAGS_PER_LINT),
        0 <= k < diag_rows(),
{
    assert(!(l2 * 64 <= k < l2 * 64 + 64) && 0 <= k < 32 * 64) by (nonlinear_arith)
        requires
            0 <= l1 < 32,
            0 <= l2 < 32,
            l1 != l2,
            l1 * 64 <= k < l1 * 64 + 64,
    ;
}

/// Lint slot `L`: runs the slot's lint plugin and records its findings in
/// the slot's own row range.
pub struct RunLint<const L: usize>;

impl<const L: usize> RunLint<L> {
    /// First diagnostic row of slot `L`.
    pub open spec fn base() -> int {
        L * MAX_DIAGS_PER_LINT
    }

    /// The slot's plugin, if any, names a loaded extension.
    pub open spec fn inputs_ok(ctx: &WuCtxStub) -> bool {
        spec_slot_at(ctx.lint_slots.slots(), L as int) matches Some(h) ==> h
            < ctx.host.loaded().len()
    }

    /// Decides the call of slot `L`: nothing without a plugin, a failure
    /// when the plugin exports no lint vtable, else the call with the
    /// slot's config bytes.
    pub fn plan(&self, ctx: &WuCtxStub) -> (r: LintPlan)
        requires
            L < MAX_LINTS,
            Self::inputs_ok(ctx),
        ensures
            match spec_slot_at(ctx.lint_slots.slots(), L as int) {
                None => r is Skip,
                Some(h) => if spec_cast(
                    ctx.host.loaded()[h as int].spec_provider(role_provider(Role::Lint)),
                ) is None {
                    r is Fail
                } else {
                    r matches LintPlan::Invoke { host_idx, nam_row, config, out_capacity }
                        && host_idx == h && nam_row == NAM_ROW && config@ == spec_config_at(
                        ctx.lint_configs.configs(),
                        L as int,
                    ) && out_capacity == MAX_DIAGS_PER_LINT
                },
            },
    {
        let host_idx = match ctx.lint_slots.slot_at(L) {
            Some(h) => h,
            None => {
                return LintPlan::Skip;
            },
        };
        let library = ctx.host.library_at(host_idx);
        if lint_vtable(library).is_none() {
            return LintPlan::Fail;
        }
        let config = copy_bytes(ctx.lint_configs.config_at(L));
        LintPlan::Invoke { host_idx, nam_row: NAM_ROW, config, out_capacity: MAX_DIAGS_PER_LINT }
    }

    /// Records the result of slot `L`: a count of 0 when the slot is
    /// empty; one failure record and a count of 1 when the plugin could
    /// not be called or reported a failing status; otherwise one row per
    /// diagnostic that fits, carrying its severity, and that count. Only
    /// the slot's own rows and count change.
    pub fn execute(&self, ctx: &mut WuCtxStub, outcome: &LintOutcome)
        requires
            L < MAX_LINTS,
            old(ctx).wf(),
            match outcome {
                LintOutcome::Returned { status, severities, out_len } => status_accepted(*status)
                    ==> severities@.len() >= spec_row_count(*out_len),
                _ => true,
            },
        ensures
            final(ctx).wf(),
            final(ctx).nams@ == old(ctx).nams@,
            final(ctx).file_infos@ == old(ctx).file_infos@,
            final(ctx).plugin_entries@ == old(ctx).plugin_entries@,
            forall|k: int|
                0 <= k < old(ctx).diagnostics@.len() && !(Self::base() <= k < Self::base()
                    + MAX_DIAGS_PER_LINT) ==> #[trigger] final(ctx).diagnostics@[k] == old(
                    ctx,
                ).diagnostics@[k],
            forall|l: int|
                0 <= l < MAX_LINTS && l != L ==> #[trigger] final(ctx).counts.counts()[l] == old(
                    ctx,
                ).counts.counts()[l],
            final(ctx).diagnostics@.len() == old(ctx).diagnostics@.len(),
            match outcome {
                LintOutcome::Skipped => {
                    &&& final(ctx).counts.counts()[L as int] == 0
                    &&& final(ctx).diagnostics@ == old(ctx).diagnostics@
                },
                LintOutcome::Returned { status, severities, out_len } => if status_accepted(
                    *status,
                ) {
                    &&& final(ctx).counts.counts()[L as int] == spec_row_count(*out_len)
                    &&& forall|i: int|
                        0 <= i < spec_row_count(*out_len) ==> #[trigger] final(ctx).diagnostics@[Self::base()
                            + i] == Some(
                            WuDiagnostic {
                                severity: severities@[i],
                                source: WuDiagnosticSource::RunLint,
                                message: 0,
                                range: None,
                            },
                        )
                    &&& forall|i: int|
                        spec_row_count(*out_len) <= i < MAX_DIAGS_PER_LINT
                            ==> #[trigger] final(ctx).diagnostics@[Self::base() + i] == old(
                            ctx,
                        ).diagnostics@[Self::base() + i]
                } else {
                    &&& final(ctx).counts.counts()[L as int] == 1
                    &&& final(ctx).diagnostics@ == old(ctx).diagnostics@.update(
                        Self::base(),
                        Some(failure(WuDiagnosticSource::RunLint)),
                    )
                },
                LintOutcome::NotCalled => {
                    &&& final(ctx).counts.counts()[L as int] == 1
                    &&& final(ctx).diagnostics@ == old(ctx).diagnostics@.update(
                        Self::base(),
                        Some(failure(WuDiagnosticSource::RunLint)),
                    )
                },
            },
    {
        let base = L * MAX_DIAGS_PER_LINT;
        let fail = WuDiagnostic {
            severity: DiagnosticSeverity::Error,
            source: WuDiagnosticSource::RunLint,
            message: 0,
            range: None,
        };
        match outcome {
            LintOutcome::Skipped => {
                ctx.counts.set_count(L, 0);
            },
            LintOutcome::NotCalled => {
                ctx.diagnostics.set(base, Some(fail));
                ctx.counts.set_count(L, 1);
            },
            LintOutcome::Returned { status, severities, out_len } => {
                let accepted = match status {
                    AbiStatus::Success => true,
                    AbiStatus::Internal => true,
                    _ => false,
                };
                if !accepted {
                    ctx.diagnostics.set(base, Some(fail));
                    ctx.counts.set_count(L, 1);
                    return;
                }
                let count: usize = if *out_len < MAX_DIAGS_PER_LINT {
                    *out_len
                } else {
                    MAX_DIAGS_PER_LINT
                };
                let mut i: usize = 0;
                while i < count
                    invariant
                        L < MAX_LINTS,
                        base == L * MAX_DIAGS_PER_LINT,
                        count == spec_row_count(*out_len),
                        count <= MAX_DIAGS_PER_LINT,
                        severities@.len() >= count,
                        i <= count,
                        ctx.diagnostics@.len() == old(ctx).diagnostics@.len(),
                        old(ctx).diagnostics@.len() >= diag_rows(),
                        forall|k: int|
                            0 <= k < old(ctx).diagnostics@.len() && !(base <= k < base + i)
                                ==> #[trigger] ctx.diagnostics@[k] == old(ctx).diagnostics@[k],
                        forall|j: int|
                            0 <= j < i ==> #[trigger] ctx.diagnostics@[base + j] == Some(
                                WuDiagnostic {
                                    severity: severities@[j],
                                    source: WuDiagnosticSource::RunLint,
                                    message: 0,
                                    range: None,
                                },
                            ),
                        ctx.counts.counts() == old(ctx).counts.counts(),
                        ctx.counts.wf(),
                        ctx.nams@ == old(ctx).nams@,
                        ctx.file_infos@ == old(ctx).file_infos@,
                        ctx.plugin_entries@ == old(ctx).plugin_entries@,
                    decreases count - i,
                {
                    proof {
                        assert(base + i < diag_rows()) by (nonlinear_arith)
                            requires
                                L < MAX_LINTS,
                                base == L * MAX_DIAGS_PER_LINT,
                                i < MAX_DIAGS_PER_LINT,
                        ;
                    }
                    let row = WuDiagnostic {
                        severity: severities[i],
                        source: WuDiagnosticSource::RunLint,
                        message: 0,
                        range: None,
                    };
                    ctx.diagnostics.set(base + i, Some(row));
                    i = i + 1;
                }
                ctx.counts.set_count(L, count);
            },
        }
    }
}

} // verus!
