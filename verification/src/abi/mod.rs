//! Value shapes of the viola plugin ABI that the host and the runtimes
//! compute with: provider ids, run surfaces, severities, source ranges,
//! NAM versions and the owned forms of the run scope and file entries.

use vstd::prelude::*;
use vstd::string::StringSliceAdditionalSpecFns;

pub mod node_kind;

verus! {

/// FNV-1a 64-bit offset basis.
pub const FNV_OFFSET: u64 = 0xcbf29ce484222325;
/// FNV-1a 64-bit prime.
pub const FNV_PRIME: u64 = 0x100000001b3;

/// FNV-1a 64-bit hash of a byte string.
pub open spec fn fnv1a(s: Seq<u8>) -> u64
    decreases s.len(),
{
    if s.len() == 0 {
        FNV_OFFSET
    } else {
        (fnv1a(s.drop_last()) ^ (s.last() as u64)).wrapping_mul(FNV_PRIME)
    }
}

/// Provider identifier: the FNV-1a hash of the provider's name.
#[derive(Copy, Clone, Debug, PartialEq, Eq, Structural)]
pub struct ProviderId(pub u64);

impl ProviderId {
    /// Id of the provider with the given name.
    pub fn from_name(name: &str) -> (r: ProviderId)
        ensures
            r.0 == fnv1a(name.spec_bytes()),
    {
        let bytes = name.as_bytes();
        let mut h: u64 = FNV_OFFSET;
        let mut i: usize = 0;
        while i < bytes.len()
            invariant
                i <= bytes@.len(),
                h == fnv1a(bytes@.take(i as int)),
            decreases bytes.len() - i,
        {
            assert(bytes@.take(i + 1).drop_last() =~= bytes@.take(i as int));
            h = (h ^ (bytes[i] as u64)).wrapping_mul(FNV_PRIME);
            i = i + 1;
        }
        assert(bytes@.take(i as int) =~= bytes@);
        ProviderId(h)
    }
}

/// Provider id of the runner role's scope-execution entrypoint.
#[allow(non_snake_case)]
pub fn PROVIDER_RUNNER_EXECUTE_SCOPE() -> (r: ProviderId)
    ensures
        r.0 == fnv1a("viola.runner.execute_scope.v1".spec_bytes()),
{
    ProviderId::from_name("viola.runner.execute_scope.v1")
}

/// Provider id of the grammar role's extraction entrypoint.
#[allow(non_snake_case)]
pub fn PROVIDER_GRAMMAR_EXTRACT() -> (r: ProviderId)
    ensures
        r.0 == fnv1a("viola.grammar.extract.v1".spec_bytes()),
{
    ProviderId::from_name("viola.grammar.extract.v1")
}

/// Provider id of the lint role's evaluation entrypoint.
#[allow(non_snake_case)]
pub fn PROVIDER_LINT_EVALUATE() -> (r: ProviderId)
    ensures
        r.0 == fnv1a("viola.lint.evaluate.v2".spec_bytes()),
{
    ProviderId::from_name("viola.lint.evaluate.v2")
}

/// Provider id of the project-scoped lint role's two-phase entrypoint.
#[allow(non_snake_case)]
pub fn PROVIDER_LINT_EVALUATE_PROJECT() -> (r: ProviderId)
    ensures
        r.0 == fnv1a("viola.lint.evaluate-project.v1".spec_bytes()),
{
    ProviderId::from_name("viola.lint.evaluate-project.v1")
}

/// Run surface tag mirrored into the NAM run context; the wire value is
/// the `u32` it holds.
#[derive(Copy, Clone, Debug, PartialEq, Eq, Structural)]
pub struct RunSurface(u32);

impl RunSurface {
    pub closed spec fn spec_value(self) -> u32 {
        self.0
    }

    #[allow(non_snake_case)]
    pub fn Cli() -> (r: RunSurface)
        ensures
            r.spec_value() == 0,
    {
        RunSurface(0)
    }

    #[allow(non_snake_case)]
    pub fn Hook() -> (r: RunSurface)
        ensures
            r.spec_value() == 1,
    {
        RunSurface(1)
    }

    #[allow(non_snake_case)]
    pub fn Ci() -> (r: RunSurface)
        ensures
            r.spec_value() == 2,
    {
        RunSurface(2)
    }

    #[allow(non_snake_case)]
    pub fn Lsp() -> (r: RunSurface)
        ensures
            r.spec_value() == 3,
    {
        RunSurface(3)
    }

    #[allow(non_snake_case)]
    pub fn Test() -> (r: RunSurface)
        ensures
            r.spec_value() == 4,
    {
        RunSurface(4)
    }

    #[allow(non_snake_case)]
    pub fn Other() -> (r: RunSurface)
        ensures
            r.spec_value() == 0xFFFF,
    {
        RunSurface(0xFFFF)
    }

    /// The wire value.
    pub fn as_u32(self) -> (r: u32)
        ensures
            r == self.spec_value(),
    {
        self.0
    }
}

/// Severity of a diagnostic; wire order is `Info < Warn < Error`.
#[derive(Copy, Clone, Debug, PartialEq, Eq, Structural)]
pub enum DiagnosticSeverity {
    Info,
    Warn,
    Error,
}

pub open spec fn severity_wire(s: DiagnosticSeverity) -> u32 {
    match s {
        DiagnosticSeverity::Info => 0,
        DiagnosticSeverity::Warn => 1,
        DiagnosticSeverity::Error => 2,
    }
}

impl DiagnosticSeverity {
    /// The wire value.
    pub fn as_u32(self) -> (r: u32)
        ensures
            r == severity_wire(self),
    {
        match self {
            DiagnosticSeverity::Info => 0,
            DiagnosticSeverity::Warn => 1,
            DiagnosticSeverity::Error => 2,
        }
    }
}

/// Host-side error categories raised after an extension has loaded.
#[derive(Copy, Clone, Debug, PartialEq, Eq, Structural)]
pub enum PluginError {
    RoleProviderMissing,
    ModelVersionMismatch,
    InvocationFailed,
    ConfigInvalid,
}

pub open spec fn plugin_error_wire(e: PluginError) -> u32 {
    match e {
        PluginError::RoleProviderMissing => 1,
        PluginError::ModelVersionMismatch => 2,
        PluginError::InvocationFailed => 3,
        PluginError::ConfigInvalid => 4,
    }
}

impl PluginError {
    /// The wire value.
    pub fn as_u32(self) -> (r: u32)
        ensures
            r == plugin_error_wire(self),
    {
        match self {
            PluginError::RoleProviderMissing => 1,
            PluginError::ModelVersionMismatch => 2,
            PluginError::InvocationFailed => 3,
            PluginError::ConfigInvalid => 4,
        }
    }
}

/// Position in a document: 1-based line, 0-based column.
#[derive(Copy, Clone, Debug, PartialEq, Eq, Structural)]
pub struct SourceLocation {
    pub line: u32,
    pub column: u32,
}

/// Half-open range in a document.
#[derive(Copy, Clone, Debug, PartialEq, Eq, Structural)]
pub struct SourceRange {
    pub start: SourceLocation,
    pub end: SourceLocation,
}

/// Three-component NAM model version.
#[derive(Copy, Clone, Debug, PartialEq, Eq, Structural)]
pub struct NamVersion {
    pub major: u16,
    pub minor: u16,
    pub patch: u16,
    pub _reserved: u16,
}

impl NamVersion {
    pub fn new(major: u16, minor: u16, patch: u16) -> (r: NamVersion)
        ensures
            r == (NamVersion { major, minor, patch, _reserved: 0 }),
    {
        NamVersion { major, minor, patch, _reserved: 0 }
    }

    /// The v1.0.0 wire schema: a slice of file entries.
    #[allow(non_snake_case)]
    pub fn V1_0_0() -> (r: NamVersion)
        ensures
            r == (NamVersion { major: 1, minor: 0, patch: 0, _reserved: 0 }),
    {
        NamVersion::new(1, 0, 0)
    }

    /// The v1.1.0 wire schema: file entries plus a per-file node array.
    #[allow(non_snake_case)]
    pub fn V1_1_0() -> (r: NamVersion)
        ensures
            r == (NamVersion { major: 1, minor: 1, patch: 0, _reserved: 0 }),
    {
        NamVersion::new(1, 1, 0)
    }

    /// The v1.2.0 wire schema: node kinds extended with ids 20 to 27.
    #[allow(non_snake_case)]
    pub fn V1_2_0() -> (r: NamVersion)
        ensures
            r == (NamVersion { major: 1, minor: 2, patch: 0, _reserved: 0 }),
    {
        NamVersion::new(1, 2, 0)
    }

    /// The v1.3.0 wire schema: node kinds extended with id 28.
    #[allow(non_snake_case)]
    pub fn V1_3_0() -> (r: NamVersion)
        ensures
            r == (NamVersion { major: 1, minor: 3, patch: 0, _reserved: 0 }),
    {
        NamVersion::new(1, 3, 0)
    }
}

/// One node of a file's serialised syntax tree; `kind` is a
/// `node_kind` id.
#[derive(Copy, Clone, Debug, PartialEq, Eq, Structural)]
pub struct NamNode {
    pub kind: usize,
    pub parent: usize,
    pub first_child: usize,
    pub start_byte: usize,
    pub end_byte: usize,
    pub start_row: usize,
    pub end_row: usize,
}

/// One file of a NAM snapshot: its path, language tag, source bytes and,
/// from v1.1.0 on, its serialised tree (`None` when the producer emitted
/// none).
#[derive(Debug)]
pub struct NamFileEntry {
    pub path: Vec<u8>,
    pub language: usize,
    pub source: Vec<u8>,
    pub nodes: Option<Vec<NamNode>>,
}

/// Owned form of a NAM payload: its schema version and its file entries
/// (`None` when the producer attached no data).
#[derive(Debug)]
pub struct NamPayload {
    pub version: NamVersion,
    pub entries: Option<Vec<NamFileEntry>>,
}

impl NamPayload {
    /// A payload of the given version with no data.
    pub fn empty(version: NamVersion) -> (r: NamPayload)
        ensures
            r.version == version,
            r.entries is None,
    {
        NamPayload { version, entries: None }
    }
}

/// The file entries of a payload: `None` unless its major version is 1
/// (every v1.x shares the entry layout); empty when it carries no data.
pub fn nam_file_entries(nam: &NamPayload) -> (r: Option<&[NamFileEntry]>)
    ensures
        nam.version.major != 1 ==> r is None,
        nam.version.major == 1 ==> match nam.entries {
            None => r matches Some(s) && s@.len() == 0,
            Some(v) => r matches Some(s) && s@ == v@,
        },
{
    if nam.version.major != 1 {
        return None;
    }
    match &nam.entries {
        None => Some(&[]),
        Some(v) => Some(v.as_slice()),
    }
}

/// The serialised tree of a file entry, `None` when it carries none.
pub fn nam_file_nodes(entry: &NamFileEntry) -> (r: Option<&[NamNode]>)
    ensures
        match entry.nodes {
            None => r is None,
            Some(v) => r matches Some(s) && s@ == v@,
        },
{
    match &entry.nodes {
        None => None,
        Some(v) => Some(v.as_slice()),
    }
}

/// Upper bound on entries in a project-index batch.
pub const MAX_INDEX_ENTRIES: usize = 1048576;

/// Status a provider call reports back to the host.
#[derive(Copy, Clone, Debug, PartialEq, Eq, Structural)]
pub enum AbiStatus {
    /// The call succeeded.
    Success,
    InvalidArg,
    InitFailed,
    Internal,
}

/// Owned form of a diagnostic as a plugin reports it.
#[derive(Debug)]
pub struct Diagnostic {
    pub plugin_id: Vec<u8>,
    pub rule_id: Vec<u8>,
    pub severity: DiagnosticSeverity,
    pub message: Vec<u8>,
    pub path: Vec<u8>,
    pub range: SourceRange,
    pub suggestion: Vec<u8>,
    pub metadata_schema: ProviderId,
    pub metadata: Vec<u8>,
}

/// Owned form of a file entry of a run scope.
#[derive(Debug)]
pub struct FileEntry {
    pub path: Vec<u8>,
    pub language: Vec<u8>,
    pub hash: Vec<u8>,
    pub size_bytes: u64,
}

/// Owned form of the scope a runner executes over.
#[derive(Debug)]
pub struct RunScope {
    pub workspace_root: Vec<u8>,
    pub files: Vec<FileEntry>,
    pub surface: RunSurface,
    pub ci: u8,
}

} // verus!
