//! The parsed viola configuration. Every string borrows from the config
//! text it was read from; each list holds at most the capacity the config
//! is instantiated with.

use vstd::prelude::*;
use vstd::string::StringSliceAdditionalSpecFns;
use crate::config::issue_pattern::opt_bytes;

verus! {

/// File globs a single `[[severity]]` rule can carry.
pub const SEVERITY_FILES_CAP: usize = 8;
/// Partial rules in a compound rule's `all` / `any` array.
pub const SEVERITY_COMPOUND_CAP: usize = 4;
/// File globs in one partial rule of a compound rule.
pub const SEVERITY_PARTIAL_FILES_CAP: usize = 4;

/// Per-gate severity threshold tokens (`error`, `warn`, `info`, `hint`,
/// `off`, `skip`), each when present.
#[derive(Copy, Clone, Debug)]
pub struct GateThresholds<'a> {
    pub commit: Option<&'a [u8]>,
    pub build: Option<&'a [u8]>,
    pub push: Option<&'a [u8]>,
}

impl<'a> GateThresholds<'a> {
    /// No threshold set for any gate.
    pub fn empty() -> (r: GateThresholds<'a>)
        ensures
            r.commit is None && r.build is None && r.push is None,
    {
        GateThresholds { commit: None, build: None, push: None }
    }
}

/// One `[gates.<lint-id>]` sub-table.
#[derive(Copy, Clone, Debug)]
pub struct GateOverride<'a> {
    pub lint_id: &'a [u8],
    pub thresholds: GateThresholds<'a>,
}

/// One `[lint.<lint-id>]` plugin-config sub-table, its body kept raw for
/// the plugin to interpret.
#[derive(Copy, Clone, Debug)]
pub struct LintConfigBlock<'a> {
    pub lint_id: &'a [u8],
    pub raw_body: &'a [u8],
}

/// The compound operator of a `[[severity]]` rule.
#[derive(Copy, Clone, Debug, PartialEq, Eq)]
pub enum CompoundOp {
    All,
    Any,
    Not,
}

/// One partial rule inside a compound rule.
#[derive(Debug)]
pub struct PartialSeverityRule<'a> {
    pub issue: Option<&'a [u8]>,
    pub files: Vec<&'a [u8]>,
    pub gate: Option<&'a [u8]>,
    pub min_confidence: Option<usize>,
}

impl<'a> PartialSeverityRule<'a> {
    pub fn files_slice(&self) -> (r: &[&'a [u8]])
        ensures
            r@ == self.files@,
    {
        self.files.as_slice()
    }
}

/// One `[[severity]]` rule: flat conditions, or a compound over partial
/// rules.
#[derive(Debug)]
pub struct SeverityRule<'a> {
    pub issue: Option<&'a [u8]>,
    pub files: Vec<&'a [u8]>,
    pub gate: Option<&'a [u8]>,
    pub level: Option<&'a [u8]>,
    pub min_confidence: Option<usize>,
    pub compound: Option<CompoundOp>,
    pub partials: Vec<PartialSeverityRule<'a>>,
}

impl<'a> SeverityRule<'a> {
    pub fn files_slice(&self) -> (r: &[&'a [u8]])
        ensures
            r@ == self.files@,
    {
        self.files.as_slice()
    }

    pub fn partials_slice(&self) -> (r: &[PartialSeverityRule<'a>])
        ensures
            r@ == self.partials@,
    {
        self.partials.as_slice()
    }
}

/// Resolved viola configuration holding at most `MAX_PLUGINS` entries per
/// list.
#[derive(Debug)]
pub struct ViolaConfig<'a, const MAX_PLUGINS: usize> {
    pub runner: Option<&'a [u8]>,
    pub grammars: Vec<&'a [u8]>,
    pub lints: Vec<&'a [u8]>,
    /// Path to the user's `viola.config.ts`, when a `[ts]` section is
    /// present.
    pub ts_config: Option<&'a [u8]>,
    /// Schema version; `None` when `[viola] version` is not declared.
    pub version: Option<usize>,
    pub plugins: Vec<&'a [u8]>,
    pub inherit: Vec<&'a [u8]>,
    /// Global gate thresholds from `[gates]`.
    pub gates: GateThresholds<'a>,
    /// Per-lint `[gates.<lint-id>]` overrides.
    pub gate_overrides: Vec<GateOverride<'a>>,
    pub lint_configs: Vec<LintConfigBlock<'a>>,
    pub severity_rules: Vec<SeverityRule<'a>>,
}

/// The threshold a table sets for the named gate; only `commit`, `build`
/// and `push` are gates.
pub open spec fn pick<'a>(t: GateThresholds<'a>, gate: Seq<u8>) -> Option<Seq<u8>> {
    if gate == "commit".spec_bytes() {
        opt_bytes(t.commit)
    } else if gate == "build".spec_bytes() {
        opt_bytes(t.build)
    } else if gate == "push".spec_bytes() {
        opt_bytes(t.push)
    } else {
        None
    }
}

/// Index of the first override at or after `i` for `lint_id`.
pub open spec fn first_override<'a>(o: Seq<GateOverride<'a>>, lint_id: Seq<u8>, i: int) -> Option<
    int,
>
    decreases o.len() - i,
{
    if i < 0 || i >= o.len() {
        None
    } else if o[i].lint_id@ == lint_id {
        Some(i)
    } else {
        first_override(o, lint_id, i + 1)
    }
}

/// Threshold resolution: a lint's own table decides when it sets the
/// gate; next comes `[gates]`; last the built-in `error`.
pub open spec fn spec_resolve_gate<'a, const M: usize>(
    cfg: ViolaConfig<'a, M>,
    lint_id: Seq<u8>,
    gate: Seq<u8>,
) -> Seq<u8> {
    let global = match pick(cfg.gates, gate) {
        Some(s) => s,
        None => "error".spec_bytes(),
    };
    match first_override(cfg.gate_overrides@, lint_id, 0) {
        Some(i) => match pick(cfg.gate_overrides@[i].thresholds, gate) {
            Some(s) => s,
            None => global,
        },
        None => global,
    }
}

proof fn lemma_first_override_from<'a>(o: Seq<GateOverride<'a>>, lint_id: Seq<u8>, i: int, k: int)
    requires
        0 <= i <= k < o.len(),
        o[k].lint_id@ == lint_id,
        forall|j: int| 0 <= j < k ==> (#[trigger] o[j]).lint_id@ != lint_id,
    ensures
        first_override(o, lint_id, i) == Some(k),
    decreases k - i,
{
    if i < k {
        lemma_first_override_from(o, lint_id, i + 1, k);
    }
}

proof fn lemma_no_override_from<'a>(o: Seq<GateOverride<'a>>, lint_id: Seq<u8>, i: int)
    requires
        0 <= i,
        forall|j: int| 0 <= j < o.len() ==> (#[trigger] o[j]).lint_id@ != lint_id,
    ensures
        first_override(o, lint_id, i) is None,
    decreases o.len() - i,
{
    if i < o.len() {
        lemma_no_override_from(o, lint_id, i + 1);
    }
}

/// The override lookup searches the whole list: it finds the earliest
/// table for the lint wherever it stands, and none when no table names
/// the lint.
pub proof fn lemma_first_override_is_earliest<'a>(o: Seq<GateOverride<'a>>, lint_id: Seq<u8>)
    ensures
        forall|k: int|
            0 <= k < o.len() && o[k].lint_id@ == lint_id && (forall|j: int|
                0 <= j < k ==> (#[trigger] o[j]).lint_id@ != lint_id) ==> #[trigger] first_override(
                o,
                lint_id,
                0,
            ) == Some(k),
        (forall|j: int| 0 <= j < o.len() ==> (#[trigger] o[j]).lint_id@ != lint_id) ==> first_override(
            o,
            lint_id,
            0,
        ) is None,
{
    assert forall|k: int|
        0 <= k < o.len() && o[k].lint_id@ == lint_id && (forall|j: int|
            0 <= j < k ==> (#[trigger] o[j]).lint_id@ != lint_id) implies #[trigger] first_override(
        o,
        lint_id,
        0,
    ) == Some(k) by {
        lemma_first_override_from(o, lint_id, 0, k);
    }
    if forall|j: int| 0 <= j < o.len() ==> (#[trigger] o[j]).lint_id@ != lint_id {
        lemma_no_override_from(o, lint_id, 0);
    }
}

/// Threshold resolution: when the earliest `[gates.<lint>]` table for the
/// lint (at any position) holds a value for the named gate, that value is
/// the threshold; when it holds none for it, or no table names the lint,
/// the global value is, or `error` without one.
pub proof fn lemma_resolve_gate_chain<'a, const M: usize>(
    cfg: ViolaConfig<'a, M>,
    lint_id: Seq<u8>,
    gate: Seq<u8>,
    k: int,
)
    requires
        0 <= k < cfg.gate_overrides@.len(),
        cfg.gate_overrides@[k].lint_id@ == lint_id,
        forall|j: int| 0 <= j < k ==> (#[trigger] cfg.gate_overrides@[j]).lint_id@ != lint_id,
    ensures
        pick(cfg.gate_overrides@[k].thresholds, gate) matches Some(t) ==> spec_resolve_gate(
            cfg,
            lint_id,
            gate,
        ) == t,
        pick(cfg.gate_overrides@[k].thresholds, gate) is None ==> spec_resolve_gate(cfg, lint_id, gate)
            == (match pick(cfg.gates, gate) {
            Some(g) => g,
            None => "error".spec_bytes(),
        }),
{
    lemma_first_override_from(cfg.gate_overrides@, lint_id, 0, k);
}

/// With no `[gates.<lint>]` table for the lint, the global `[gates]` value
/// is the threshold, or `error` when the global table holds none for that
/// gate name.
pub proof fn lemma_resolve_gate_without_table<'a, const M: usize>(
    cfg: ViolaConfig<'a, M>,
    lint_id: Seq<u8>,
    gate: Seq<u8>,
)
    requires
        forall|j: int|
            0 <= j < cfg.gate_overrides@.len() ==> (#[trigger] cfg.gate_overrides@[j]).lint_id@
                != lint_id,
    ensures
        spec_resolve_gate(cfg, lint_id, gate) == (match pick(cfg.gates, gate) {
            Some(g) => g,
            None => seq![0x65u8, 0x72, 0x72, 0x6f, 0x72],
        }),
{
    lemma_no_override_from(cfg.gate_overrides@, lint_id, 0);
    reveal_strlit("error");
    broadcast use vstd::string::group_string_axioms;
    assert(vstd::string::is_ascii("error"));
    assert("error".spec_bytes() =~= seq![0x65u8, 0x72, 0x72, 0x6f, 0x72]);
}

/// Each gate name reads its own field of a thresholds table, and a name
/// that is no gate reads nothing.
pub proof fn lemma_pick_reads_own_field<'a>(t: GateThresholds<'a>, gate: Seq<u8>)
    ensures
        gate == seq![0x63u8, 0x6f, 0x6d, 0x6d, 0x69, 0x74] ==> pick(t, gate) == opt_bytes(t.commit),
        gate == seq![0x62u8, 0x75, 0x69, 0x6c, 0x64] ==> pick(t, gate) == opt_bytes(t.build),
        gate == seq![0x70u8, 0x75, 0x73, 0x68] ==> pick(t, gate) == opt_bytes(t.push),
        gate != seq![0x63u8, 0x6f, 0x6d, 0x6d, 0x69, 0x74] && gate != seq![0x62u8, 0x75, 0x69, 0x6c, 0x64]
            && gate != seq![0x70u8, 0x75, 0x73, 0x68] ==> pick(t, gate) is None,
{
    reveal_strlit("commit");
    reveal_strlit("build");
    reveal_strlit("push");
    broadcast use vstd::string::group_string_axioms;
    assert(vstd::string::is_ascii("commit"));
    assert(vstd::string::is_ascii("build"));
    assert(vstd::string::is_ascii("push"));
    assert("commit".spec_bytes() =~= seq![0x63u8, 0x6f, 0x6d, 0x6d, 0x69, 0x74]);
    assert("build".spec_bytes() =~= seq![0x62u8, 0x75, 0x69, 0x6c, 0x64]);
    assert("push".spec_bytes() =~= seq![0x70u8, 0x75, 0x73, 0x68]);
}

fn same_bytes(a: &[u8], b: &[u8]) -> (r: bool)
    ensures
        r == (a@ == b@),
{
    if a.len() != b.len() {
        return false;
    }
    let mut k: usize = 0;
    while k < a.len()
        invariant
            a@.len() == b@.len(),
            k <= a@.len(),
            forall|m: int| 0 <= m < k ==> a@[m] == b@[m],
        decreases a.len() - k,
    {
        if a[k] != b[k] {
            return false;
        }
        k = k + 1;
    }
    assert(a@ =~= b@);
    true
}

fn pick_gate<'a>(t: &GateThresholds<'a>, gate: &[u8]) -> (r: Option<&'a [u8]>)
    ensures
        opt_bytes(r) == pick(*t, gate@),
{
    if same_bytes(gate, "commit".as_bytes()) {
        t.commit
    } else if same_bytes(gate, "build".as_bytes()) {
        t.build
    } else if same_bytes(gate, "push".as_bytes()) {
        t.push
    } else {
        None
    }
}

impl<'a, const MAX_PLUGINS: usize> Default for ViolaConfig<'a, MAX_PLUGINS> {
    fn default() -> (r: ViolaConfig<'a, MAX_PLUGINS>)
        ensures
            r.wf(),
            r.runner is None && r.ts_config is None && r.version is None,
            r.gates.commit is None && r.gates.build is None && r.gates.push is None,
            r.grammars@.len() == 0 && r.lints@.len() == 0 && r.plugins@.len() == 0,
            r.inherit@.len() == 0 && r.gate_overrides@.len() == 0,
            r.lint_configs@.len() == 0 && r.severity_rules@.len() == 0,
    {
        ViolaConfig::empty()
    }
}

impl<'a, const MAX_PLUGINS: usize> ViolaConfig<'a, MAX_PLUGINS> {
    /// Every list within capacity.
    pub open spec fn wf(&self) -> bool {
        &&& self.grammars@.len() <= MAX_PLUGINS
        &&& self.lints@.len() <= MAX_PLUGINS
        &&& self.plugins@.len() <= MAX_PLUGINS
        &&& self.inherit@.len() <= MAX_PLUGINS
        &&& self.gate_overrides@.len() <= MAX_PLUGINS
        &&& self.lint_configs@.len() <= MAX_PLUGINS
        &&& self.severity_rules@.len() <= MAX_PLUGINS
    }

    /// Empty config: every slot absent, every list empty.
    pub fn empty() -> (r: ViolaConfig<'a, MAX_PLUGINS>)
        ensures
            r.wf(),
            r.runner is None,
            r.ts_config is None,
            r.version is None,
            r.gates.commit is None && r.gates.build is None && r.gates.push is None,
            r.grammars@.len() == 0,
            r.lints@.len() == 0,
            r.plugins@.len() == 0,
            r.inherit@.len() == 0,
            r.gate_overrides@.len() == 0,
            r.lint_configs@.len() == 0,
            r.severity_rules@.len() == 0,
    {
        ViolaConfig {
            runner: None,
            grammars: Vec::new(),
            lints: Vec::new(),
            ts_config: None,
            version: None,
            plugins: Vec::new(),
            inherit: Vec::new(),
            gates: GateThresholds::empty(),
            gate_overrides: Vec::new(),
            lint_configs: Vec::new(),
            severity_rules: Vec::new(),
        }
    }

    /// The threshold token in effect for `lint_id` at `gate`.
    ///
    /// Resolution order: the earliest `[gates.<lint_id>]` table, when it
    /// sets `gate`; then `[gates]`; then `error`. Only `commit`, `build`
    /// and `push` are gates, so any other name resolves to `error`.
    pub fn resolve_gate_threshold(&self, lint_id: &[u8], gate: &[u8]) -> (r: &'a [u8])
        ensures
            r@ == spec_resolve_gate(*self, lint_id@, gate@),
    {
        if let Some(i) = self.find_override(lint_id) {
            if let Some(s) = pick_gate(&self.gate_overrides[i].thresholds, gate) {
                return s;
            }
        }
        if let Some(s) = pick_gate(&self.gates, gate) {
            return s;
        }
        "error".as_bytes()
    }

    /// Index of the first `[gates.<lint_id>]` override.
    fn find_override(&self, lint_id: &[u8]) -> (r: Option<usize>)
        ensures
            match r {
                Some(i) => first_override(self.gate_overrides@, lint_id@, 0) == Some(i as int)
                    && i < self.gate_overrides@.len(),
                None => first_override(self.gate_overrides@, lint_id@, 0) is None,
            },
    {
        let mut i: usize = 0;
        let n = self.gate_overrides.len();
        while i < n
            invariant
                n == self.gate_overrides@.len(),
                i <= n,
                first_override(self.gate_overrides@, lint_id@, 0) == first_override(
                    self.gate_overrides@,
                    lint_id@,
                    i as int,
                ),
            decreases n - i,
        {
            if same_bytes(self.gate_overrides[i].lint_id, lint_id) {
                return Some(i);
            }
            i = i + 1;
        }
        None
    }

    pub fn grammars_slice(&self) -> (r: &[&'a [u8]])
        ensures
            r@ == self.grammars@,
    {
        self.grammars.as_slice()
    }

    pub fn lints_slice(&self) -> (r: &[&'a [u8]])
        ensures
            r@ == self.lints@,
    {
        self.lints.as_slice()
    }

    pub fn plugins_slice(&self) -> (r: &[&'a [u8]])
        ensures
            r@ == self.plugins@,
    {
        self.plugins.as_slice()
    }

    pub fn inherit_slice(&self) -> (r: &[&'a [u8]])
        ensures
            r@ == self.inherit@,
    {
        self.inherit.as_slice()
    }

    pub fn gate_overrides_slice(&self) -> (r: &[GateOverride<'a>])
        ensures
            r@ == self.gate_overrides@,
    {
        self.gate_overrides.as_slice()
    }

    pub fn lint_configs_slice(&self) -> (r: &[LintConfigBlock<'a>])
        ensures
            r@ == self.lint_configs@,
    {
        self.lint_configs.as_slice()
    }

    pub fn severity_rules_slice(&self) -> (r: &[SeverityRule<'a>])
        ensures
            r@ == self.severity_rules@,
    {
        self.severity_rules.as_slice()
    }
}

} // verus!
