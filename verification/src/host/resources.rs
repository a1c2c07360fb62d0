//! The resources the pipeline's work units share: workspace and CI
//! context, the loaded extensions, the lint slot table with its per-slot
//! config bytes, the discovered file paths and file entries, and the
//! per-slot diagnostic counts. Each store is append-only with a fixed
//! capacity.

use vstd::prelude::*;
use crate::abi::FileEntry;
use crate::config::owned::MAX_PLUGINS;
use crate::host::role::Extension;

verus! {

/// Discovered files one run can carry.
pub const MAX_DISCOVERED_FILES: usize = 4096;
/// Lint-plugin slots; `RunLint<L>` ranges over `0..MAX_LINTS`.
pub const MAX_LINTS: usize = 32;
/// Diagnostics one `RunLint<L>` writes at most, into its own row range.
pub const MAX_DIAGS_PER_LINT: usize = 64;
/// Marks a lint slot without a plugin.
pub const LINT_SLOT_SENTINEL: usize = usize::MAX;

/// The workspace: its root path as an id of the host's interner.
#[derive(Copy, Clone, Debug, Default, PartialEq, Eq)]
pub struct Workspace {
    pub path: u32,
}

/// Who invoked the run, when the host could tell.
#[derive(Copy, Clone, Debug, Default, PartialEq, Eq)]
pub enum AgentKind {
    /// No detection signal.
    #[default]
    Unknown,
    /// Positively no agent involved.
    NoAgent,
    /// A human invoked viola directly.
    Human,
    /// A bot or automation invoked viola.
    Bot,
}

/// CI context of the run.
#[derive(Copy, Clone, Debug, PartialEq, Eq)]
pub struct CiState {
    pub is_ci: bool,
    pub agent: AgentKind,
}

impl CiState {
    /// Not in CI, agent unknown.
    pub fn new() -> (r: CiState)
        ensures
            !r.is_ci,
            r.agent == AgentKind::Unknown,
    {
        CiState { is_ci: false, agent: AgentKind::Unknown }
    }
}

impl Default for CiState {
    fn default() -> (r: CiState)
        ensures
            !r.is_ci,
            r.agent == AgentKind::Unknown,
    {
        CiState::new()
    }
}

/// The loaded extensions, in load order.
pub struct ExtensionHost {
    libs: Vec<Extension>,
}

impl Default for ExtensionHost {
    fn default() -> (r: ExtensionHost)
        ensures
            r.wf() && r.loaded().len() == 0,
    {
        ExtensionHost::new()
    }
}

impl ExtensionHost {
    pub closed spec fn loaded(&self) -> Seq<Extension> {
        self.libs@
    }

    pub open spec fn wf(&self) -> bool {
        self.loaded().len() <= MAX_PLUGINS
    }

    pub fn new() -> (r: ExtensionHost)
        ensures
            r.wf(),
            r.loaded().len() == 0,
    {
        ExtensionHost { libs: Vec::new() }
    }

    /// How many extensions are loaded.
    pub fn loaded_count(&self) -> (r: usize)
        ensures
            r == self.loaded().len(),
    {
        self.libs.len()
    }

    /// The extension in slot `idx`.
    pub fn library_at(&self, idx: usize) -> (r: &Extension)
        requires
            idx < self.loaded().len(),
        ensures
            *r == self.loaded()[idx as int],
    {
        &self.libs[idx]
    }

    /// Appends an extension and returns its slot.
    pub fn push(&mut self, lib: Extension) -> (r: usize)
        requires
            old(self).loaded().len() < MAX_PLUGINS,
        ensures
            final(self).wf(),
            r == old(self).loaded().len(),
            final(self).loaded() == old(self).loaded().push(lib),
    {
        let n = self.libs.len();
        self.libs.push(lib);
        n
    }
}

/// Host index of the plugin in each lint slot, in slot order.
pub struct LintSlots {
    slots: Vec<usize>,
}

/// The plugin a lint slot holds: `None` past the populated slots or for a
/// slot holding the sentinel.
pub open spec fn spec_slot_at(slots: Seq<usize>, i: int) -> Option<usize> {
    if 0 <= i < slots.len() && i < MAX_LINTS && slots[i] != LINT_SLOT_SENTINEL {
        Some(slots[i])
    } else {
        None
    }
}

impl Default for LintSlots {
    fn default() -> (r: LintSlots)
        ensures
            r.wf() && r.slots().len() == 0,
    {
        LintSlots::new()
    }
}

impl LintSlots {
    pub closed spec fn slots(&self) -> Seq<usize> {
        self.slots@
    }

    pub open spec fn wf(&self) -> bool {
        self.slots().len() <= MAX_LINTS
    }

    pub fn new() -> (r: LintSlots)
        ensures
            r.wf(),
            r.slots().len() == 0,
    {
        LintSlots { slots: Vec::new() }
    }

    /// Appends the host index of the next slot's plugin and returns the
    /// slot.
    pub fn push(&mut self, host_idx: usize) -> (r: usize)
        requires
            old(self).slots().len() < MAX_LINTS,
        ensures
            final(self).wf(),
            r == old(self).slots().len(),
            final(self).slots() == old(self).slots().push(host_idx),
    {
        let n = self.slots.len();
        self.slots.push(host_idx);
        n
    }

    pub fn slots_len(&self) -> (r: usize)
        ensures
            r == self.slots().len(),
    {
        self.slots.len()
    }

    /// Host index of the plugin at slot `idx`.
    pub fn slot_at(&self, idx: usize) -> (r: Option<usize>)
        ensures
            r == spec_slot_at(self.slots(), idx as int),
    {
        if idx >= MAX_LINTS || idx >= self.slots.len() {
            return None;
        }
        let h = self.slots[idx];
        if h == LINT_SLOT_SENTINEL {
            None
        } else {
            Some(h)
        }
    }
}

/// Config bytes of each lint slot; empty means no config.
pub struct LintConfigBuffer {
    configs: Vec<Vec<u8>>,
}

/// The config bytes of slot `i`: empty past the populated slots.
pub open spec fn spec_config_at(configs: Seq<Seq<u8>>, i: int) -> Seq<u8> {
    if 0 <= i < configs.len() && i < MAX_LINTS {
        configs[i]
    } else {
        Seq::empty()
    }
}

impl Default for LintConfigBuffer {
    fn default() -> (r: LintConfigBuffer)
        ensures
            r.wf() && r.configs().len() == 0,
    {
        LintConfigBuffer::new()
    }
}

impl LintConfigBuffer {
    pub closed spec fn configs(&self) -> Seq<Seq<u8>> {
        self.configs@.map_values(|c: Vec<u8>| c@)
    }

    pub open spec fn wf(&self) -> bool {
        self.configs().len() <= MAX_LINTS
    }

    pub fn new() -> (r: LintConfigBuffer)
        ensures
            r.wf(),
            r.configs().len() == 0,
    {
        LintConfigBuffer { configs: Vec::new() }
    }

    /// Appends the next slot's config bytes and returns the slot.
    pub fn push(&mut self, bytes: Vec<u8>) -> (r: usize)
        requires
            old(self).configs().len() < MAX_LINTS,
        ensures
            final(self).wf(),
            r == old(self).configs().len(),
            final(self).configs() == old(self).configs().push(bytes@),
    {
        let n = self.configs.len();
        let ghost b = bytes@;
        self.configs.push(bytes);
        assert(self.configs@.map_values(|c: Vec<u8>| c@) =~= old(self).configs().push(b));
        n
    }

    pub fn configs_len(&self) -> (r: usize)
        ensures
            r == self.configs().len(),
    {
        self.configs.len()
    }

    /// The config bytes of slot `idx`; empty when absent.
    pub fn config_at(&self, idx: usize) -> (r: &[u8])
        ensures
            r@ == spec_config_at(self.configs(), idx as int),
    {
        if idx >= MAX_LINTS || idx >= self.configs.len() {
            return &[];
        }
        self.configs[idx].as_slice()
    }
}

/// Paths the host discovered, as interner ids, in discovery order.
pub struct DiscoveredFilePaths {
    paths: Vec<u32>,
}

impl Default for DiscoveredFilePaths {
    fn default() -> (r: DiscoveredFilePaths)
        ensures
            r.wf() && r.paths().len() == 0,
    {
        DiscoveredFilePaths::new()
    }
}

impl DiscoveredFilePaths {
    pub closed spec fn paths(&self) -> Seq<u32> {
        self.paths@
    }

    pub open spec fn wf(&self) -> bool {
        self.paths().len() <= MAX_DISCOVERED_FILES
    }

    pub fn new() -> (r: DiscoveredFilePaths)
        ensures
            r.wf(),
            r.paths().len() == 0,
    {
        DiscoveredFilePaths { paths: Vec::new() }
    }

    /// Appends a discovered path and returns its slot.
    pub fn push(&mut self, path: u32) -> (r: usize)
        requires
            old(self).paths().len() < MAX_DISCOVERED_FILES,
        ensures
            final(self).wf(),
            r == old(self).paths().len(),
            final(self).paths() == old(self).paths().push(path),
    {
        let n = self.paths.len();
        self.paths.push(path);
        n
    }

    pub fn paths_len(&self) -> (r: usize)
        ensures
            r == self.paths().len(),
    {
        self.paths.len()
    }

    /// The path at slot `idx`, or `None` past the populated slots.
    pub fn path_at(&self, idx: usize) -> (r: Option<u32>)
        ensures
            match r {
                Some(p) => idx < self.paths().len() && p == self.paths()[idx as int],
                None => idx >= self.paths().len(),
            },
    {
        if idx >= self.paths.len() {
            return None;
        }
        Some(self.paths[idx])
    }
}

/// File entries the runner's scope lists, in discovery order.
pub struct FileEntryBuffer {
    entries: Vec<FileEntry>,
}

impl Default for FileEntryBuffer {
    fn default() -> (r: FileEntryBuffer)
        ensures
            r.wf() && r.entries().len() == 0,
    {
        FileEntryBuffer::new()
    }
}

impl FileEntryBuffer {
    pub closed spec fn entries(&self) -> Seq<FileEntry> {
        self.entries@
    }

    pub open spec fn wf(&self) -> bool {
        self.entries().len() <= MAX_DISCOVERED_FILES
    }

    pub fn new() -> (r: FileEntryBuffer)
        ensures
            r.wf(),
            r.entries().len() == 0,
    {
        FileEntryBuffer { entries: Vec::new() }
    }

    /// Appends a file entry and returns its slot.
    pub fn push(&mut self, entry: FileEntry) -> (r: usize)
        requires
            old(self).entries().len() < MAX_DISCOVERED_FILES,
        ensures
            final(self).wf(),
            r == old(self).entries().len(),
            final(self).entries() == old(self).entries().push(entry),
    {
        let n = self.entries.len();
        self.entries.push(entry);
        n
    }

    pub fn entries_len(&self) -> (r: usize)
        ensures
            r == self.entries().len(),
    {
        self.entries.len()
    }

    /// The entries, in slot order.
    pub fn entries_slice(&self) -> (r: &[FileEntry])
        ensures
            r@ == self.entries(),
    {
        self.entries.as_slice()
    }
}

/// How many diagnostic rows each lint slot filled.
pub struct DiagnosticCounts {
    counts: Vec<usize>,
}

impl DiagnosticCounts {
    pub closed spec fn counts(&self) -> Seq<usize> {
        self.counts@
    }

    pub open spec fn wf(&self) -> bool {
        self.counts().len() == MAX_LINTS
    }

    /// Every slot's count at zero.
    pub fn new() -> (r: DiagnosticCounts)
        ensures
            r.wf(),
            forall|l: int| 0 <= l < MAX_LINTS ==> #[trigger] r.counts()[l] == 0,
    {
        let mut counts: Vec<usize> = Vec::new();
        let mut k: usize = 0;
        while k < MAX_LINTS
            invariant
                k <= MAX_LINTS,
                counts@.len() == k,
                forall|l: int| 0 <= l < k ==> #[trigger] counts@[l] == 0,
            decreases MAX_LINTS - k,
        {
            counts.push(0);
            k = k + 1;
        }
        DiagnosticCounts { counts }
    }

    /// Records slot `l`'s count.
    pub fn set_count(&mut self, l: usize, count: usize)
        requires
            old(self).wf(),
            l < MAX_LINTS,
        ensures
            final(self).wf(),
            final(self).counts() == old(self).counts().update(l as int, count),
    {
        self.counts.set(l, count);
    }

    /// Slot `l`'s count.
    pub fn count_at(&self, l: usize) -> (r: usize)
        requires
            self.wf(),
            l < MAX_LINTS,
        ensures
            r == self.counts()[l as int],
    {
        self.counts[l]
    }
}

} // verus!
