//! The owned form of the configuration: a self-contained value whose
//! strings live in a fixed-capacity arena and are referred to by id.

use vstd::prelude::*;
use vstd::string::StringSliceAdditionalSpecFns;
use crate::config::schema::ViolaConfig;
use crate::text::str_from_utf8;

verus! {

/// Plugins one owned config can carry.
pub const MAX_PLUGINS: usize = 16;
/// Gate entries in one config.
pub const MAX_GATES: usize = 32;
/// `[[severity]]` rules in one config.
pub const MAX_RULES: usize = 64;
/// `[[severity.partial]]` rules in one config.
pub const MAX_PARTIAL_RULES: usize = 16;
/// Arena byte capacity of one owned config.
pub const ARENA_BYTES: usize = 8192;
/// Distinct entries one arena can intern.
pub const ARENA_MAX_ENTRIES: usize = 256;
/// Largest raw viola.toml the host reads.
pub const CONFIG_MAX_BYTES: usize = 16384;

/// The raw bytes of the workspace viola.toml.
pub struct ConfigBytes {
    pub bytes: Vec<u8>,
}

impl ConfigBytes {
    pub open spec fn wf(&self) -> bool {
        self.bytes@.len() <= CONFIG_MAX_BYTES
    }

    /// The bytes, or `None` when they exceed `CONFIG_MAX_BYTES`.
    pub fn new(bytes: Vec<u8>) -> (r: Option<ConfigBytes>)
        ensures
            match r {
                Some(c) => c.wf() && c.bytes@ == bytes@,
                None => bytes@.len() > CONFIG_MAX_BYTES,
            },
    {
        if bytes.len() > CONFIG_MAX_BYTES {
            None
        } else {
            Some(ConfigBytes { bytes })
        }
    }

    pub fn len(&self) -> (r: usize)
        ensures
            r == self.bytes@.len(),
    {
        self.bytes.len()
    }
}

/// What an arena holds: the bytes used so far and the interned strings in
/// id order (id `k` is entry `k - 1`; id 0 is the empty string).
pub struct ArenaModel {
    pub used: nat,
    pub entries: Seq<Seq<u8>>,
}

/// Interning `s` into an arena of `cap` bytes: a fresh id when both the
/// bytes and an entry slot are left, else id 0 and no change.
pub open spec fn model_intern(m: ArenaModel, s: Seq<u8>, cap: nat) -> (ArenaModel, u32) {
    if m.used + s.len() > cap || m.entries.len() >= ARENA_MAX_ENTRIES {
        (m, 0u32)
    } else {
        (
            ArenaModel { used: m.used + s.len(), entries: m.entries.push(s) },
            (m.entries.len() + 1) as u32,
        )
    }
}

/// What an id resolves to: the empty string for id 0 or an id never
/// handed out.
pub open spec fn model_resolve(m: ArenaModel, id: u32) -> Seq<u8> {
    if id == 0 || id > m.entries.len() {
        Seq::empty()
    } else {
        m.entries[id - 1]
    }
}

/// Interning then resolving gives back the string whenever interning
/// handed out an id, and every id handed out earlier keeps resolving to
/// what it did.
pub proof fn lemma_intern_resolve(m: ArenaModel, s: Seq<u8>, cap: nat, k: u32)
    ensures
        ({
            let (m2, id) = model_intern(m, s, cap);
            &&& id != 0 ==> model_resolve(m2, id) == s
            &&& id == 0 ==> m2 == m
            &&& (1 <= k <= m.entries.len() ==> model_resolve(m2, k) == model_resolve(m, k))
        }),
{
}

/// Every non-zero id in `slots[..i]` names an interned entry equal to the
/// path at that slot.
spec fn slots_resolve(m: ArenaModel, slots: Seq<PluginEntryOwned>, paths: Seq<Seq<u8>>, i: nat) -> bool {
    forall|j: int|
        0 <= j < i && vstd::utf8::valid_utf8(paths[j]) ==> {
            let id = #[trigger] slots[j].path;
            id == 0 || (1 <= id <= m.entries.len() && m.entries[id - 1] == paths[j])
        }
}

proof fn lemma_populate_inv(
    m: ArenaModel,
    slots: Seq<PluginEntryOwned>,
    paths: Seq<Seq<u8>>,
    i: nat,
    cap: nat,
)
    requires
        i <= paths.len(),
        i <= slots.len(),
    ensures
        ({
            let (m2, s2) = populate_model(m, slots, paths, i, cap);
            &&& s2.len() == slots.len()
            &&& m2.entries.len() >= m.entries.len()
            &&& forall|k: int| 0 <= k < m.entries.len() ==> #[trigger] m2.entries[k] == m.entries[k]
            &&& slots_resolve(m2, s2, paths, i)
        }),
    decreases i,
{
    if i > 0 {
        lemma_populate_inv(m, slots, paths, (i - 1) as nat, cap);
        let (m1, s1) = populate_model(m, slots, paths, (i - 1) as nat, cap);
        let p = paths[i - 1];
        if vstd::utf8::valid_utf8(p) {
            let (m2, id) = model_intern(m1, p, cap);
            let s2 = s1.update(i - 1, PluginEntryOwned { name: 0, path: id });
            assert(slots_resolve(m2, s2, paths, i)) by {
                assert forall|j: int|
                    0 <= j < i && vstd::utf8::valid_utf8(paths[j]) implies {
                    let id = #[trigger] s2[j].path;
                    id == 0 || (1 <= id <= m2.entries.len() && m2.entries[id - 1] == paths[j])
                } by {
                    if j < i - 1 {
                        assert(s2[j] == s1[j]);
                    }
                }
            }
        }
    }
}

/// After populating from borrowed plugin paths, the slot of every
/// UTF-8 path that was walked resolves back to that path, unless the
/// arena refused it, in which case the slot holds id 0.
pub proof fn lemma_populated_paths_resolve(
    m: ArenaModel,
    slots: Seq<PluginEntryOwned>,
    paths: Seq<Seq<u8>>,
    i: nat,
    cap: nat,
    j: int,
)
    requires
        i <= paths.len(),
        i <= slots.len(),
        0 <= j < i,
        vstd::utf8::valid_utf8(paths[j]),
    ensures
        ({
            let (m2, s2) = populate_model(m, slots, paths, i, cap);
            s2[j].path == 0 || model_resolve(m2, s2[j].path) == paths[j]
        }),
{
    lemma_populate_inv(m, slots, paths, i, cap);
    let (m2, s2) = populate_model(m, slots, paths, i, cap);
    assert(s2[j].path == s2[j].path);
}

/// Fixed-capacity string arena of `N` bytes. Ids are 1-based; interning
/// fails closed with id 0 when the bytes or the entry table run out.
pub struct ConfigArena<const N: usize> {
    bytes: Vec<u8>,
    spans: Vec<(usize, usize)>,
}

impl<const N: usize> ConfigArena<N> {
    pub closed spec fn model(&self) -> ArenaModel {
        ArenaModel {
            used: self.bytes@.len(),
            entries: Seq::new(
                self.spans@.len(),
                |k: int| self.bytes@.subrange(self.spans@[k].0 as int, self.spans@[k].0 + self.spans@[k].1),
            ),
        }
    }

    pub closed spec fn wf(&self) -> bool {
        &&& self.bytes@.len() <= N
        &&& self.spans@.len() <= ARENA_MAX_ENTRIES
        &&& forall|k: int|
            0 <= k < self.spans@.len() ==> {
                &&& #[trigger] self.spans@[k].0 + self.spans@[k].1 <= self.bytes@.len()
                &&& vstd::utf8::valid_utf8(
                    self.bytes@.subrange(self.spans@[k].0 as int, self.spans@[k].0 + self.spans@[k].1),
                )
            }
    }

    /// Empty arena.
    pub fn new() -> (r: ConfigArena<N>)
        ensures
            r.wf(),
            r.model().used == 0,
            r.model().entries == Seq::<Seq<u8>>::empty(),
    {
        let r = ConfigArena { bytes: Vec::new(), spans: Vec::new() };
        assert(r.model().entries =~= Seq::<Seq<u8>>::empty());
        r
    }

    /// Interns `s` and returns its id; 0 (and no change) when the arena's
    /// bytes or entry slots are exhausted.
    pub fn arena_intern(&mut self, s: &str) -> (r: u32)
        requires
            old(self).wf(),
        ensures
            final(self).wf(),
            (final(self).model(), r) == model_intern(old(self).model(), s.spec_bytes(), N as nat),
    {
        let src = s.as_bytes();
        let offset = self.bytes.len();
        if src.len() > N - offset || self.spans.len() >= ARENA_MAX_ENTRIES {
            return 0;
        }
        let ghost old_bytes = self.bytes@;
        let ghost old_model = self.model();
        let mut k: usize = 0;
        while k < src.len()
            invariant
                offset == old_bytes.len(),
                offset + src@.len() <= N,
                k <= src@.len(),
                self.bytes@ == old_bytes + src@.take(k as int),
                self.spans@ == old(self).spans@,
            decreases src.len() - k,
        {
            self.bytes.push(src[k]);
            assert(src@.take(k + 1) =~= src@.take(k as int).push(src@[k as int]));
            k = k + 1;
        }
        assert(src@.take(k as int) =~= src@);
        let id = self.spans.len();
        self.spans.push((offset, src.len()));
        proof {
            vstd::utf8::encode_utf8_valid_utf8(s@);
            assert(self.bytes@.subrange(offset as int, offset + src@.len()) =~= src@);
            assert forall|j: int| 0 <= j < id implies self.bytes@.subrange(
                self.spans@[j].0 as int,
                self.spans@[j].0 + self.spans@[j].1,
            ) =~= old_bytes.subrange(self.spans@[j].0 as int, self.spans@[j].0 + self.spans@[j].1) by {
            }
            assert(self.model().entries =~= old_model.entries.push(s.spec_bytes()));
        }
        (id + 1) as u32
    }

    /// The string an id stands for; `""` for id 0 or an unknown id.
    pub fn arena_resolve(&self, id: u32) -> (r: &str)
        requires
            self.wf(),
        ensures
            r.spec_bytes() == model_resolve(self.model(), id),
    {
        if id == 0 || id as usize > self.spans.len() {
            proof {
                reveal_strlit("");
            }
            return "";
        }
        let (offset, len) = self.spans[(id - 1) as usize];
        let slice = vstd::slice::slice_subrange(self.bytes.as_slice(), offset, offset + len);
        match str_from_utf8(slice) {
            Some(s) => s,
            None => {
                proof {
                    reveal_strlit("");
                }
                ""
            },
        }
    }
}

/// One plugin of the owned config: ids of its display name and its path
/// in the config's arena.
#[derive(Copy, Clone, Debug, Default, PartialEq, Eq)]
pub struct PluginEntryOwned {
    pub name: u32,
    pub path: u32,
}

/// One gate entry of the owned config.
#[derive(Copy, Clone, Debug, Default)]
pub struct GateOwned;

/// One `[[severity]]` rule of the owned config.
#[derive(Copy, Clone, Debug, Default)]
pub struct RuleOwned;

/// One `[[severity.partial]]` rule of the owned config.
#[derive(Copy, Clone, Debug, Default)]
pub struct PartialRuleOwned;

/// The effect of populating plugin slots from the first `i` plugin paths:
/// each path that is well-formed UTF-8 is interned in order and its slot
/// gets the id; other slots are left as they were.
pub open spec fn populate_model(
    m: ArenaModel,
    slots: Seq<PluginEntryOwned>,
    paths: Seq<Seq<u8>>,
    i: nat,
    cap: nat,
) -> (ArenaModel, Seq<PluginEntryOwned>)
    decreases i,
{
    if i == 0 {
        (m, slots)
    } else {
        let (m1, s1) = populate_model(m, slots, paths, (i - 1) as nat, cap);
        let p = paths[i - 1];
        if !vstd::utf8::valid_utf8(p) {
            (m1, s1)
        } else {
            let (m2, id) = model_intern(m1, p, cap);
            (m2, s1.update(i - 1, PluginEntryOwned { name: 0, path: id }))
        }
    }
}

/// The byte views of a list of borrowed slices.
pub open spec fn byte_views<'a>(s: Seq<&'a [u8]>) -> Seq<Seq<u8>> {
    s.map_values(|p: &'a [u8]| p@)
}

/// The workspace-default owned config.
pub type ViolaCfg = ViolaConfigOwned<MAX_PLUGINS, MAX_GATES, MAX_RULES, MAX_PARTIAL_RULES, ARENA_BYTES>;

/// Owned-form viola config: plugin paths interned in a bundled arena,
/// every list a fixed-capacity table with its populated length.
pub struct ViolaConfigOwned<
    const MAX_PLUGINS_CAP: usize,
    const MAX_GATES_CAP: usize,
    const MAX_RULES_CAP: usize,
    const MAX_PARTIAL_RULES_CAP: usize,
    const ARENA_BYTES_CAP: usize,
> {
    plugins: Vec<PluginEntryOwned>,
    plugins_len: usize,
    gates: Vec<GateOwned>,
    gates_len: usize,
    rules: Vec<RuleOwned>,
    rules_len: usize,
    partial_rules: Vec<PartialRuleOwned>,
    partial_rules_len: usize,
    arena: ConfigArena<ARENA_BYTES_CAP>,
}

impl<
    const MAX_PLUGINS_CAP: usize,
    const MAX_GATES_CAP: usize,
    const MAX_RULES_CAP: usize,
    const MAX_PARTIAL_RULES_CAP: usize,
    const ARENA_BYTES_CAP: usize,
> ViolaConfigOwned<MAX_PLUGINS_CAP, MAX_GATES_CAP, MAX_RULES_CAP, MAX_PARTIAL_RULES_CAP, ARENA_BYTES_CAP> {
    /// The plugin table (all `MAX_PLUGINS_CAP` slots).
    pub closed spec fn slots(&self) -> Seq<PluginEntryOwned> {
        self.plugins@
    }

    /// How many plugin slots are populated.
    pub closed spec fn populated(&self) -> nat {
        self.plugins_len as nat
    }

    /// Sizes of the three remaining tables: for gates, severity rules and
    /// partial rules, each table's capacity then its length in use.
    pub closed spec fn tables(&self) -> (nat, nat, nat, nat, nat, nat) {
        (
            self.gates@.len(),
            self.gates_len as nat,
            self.rules@.len(),
            self.rules_len as nat,
            self.partial_rules@.len(),
            self.partial_rules_len as nat,
        )
    }

    /// The arena's contents.
    pub closed spec fn arena_model(&self) -> ArenaModel {
        self.arena.model()
    }

    pub closed spec fn wf(&self) -> bool {
        &&& self.plugins@.len() == MAX_PLUGINS_CAP
        &&& self.plugins_len <= MAX_PLUGINS_CAP
        &&& self.arena.wf()
    }

    /// Empty owned config.
    pub fn new() -> (r: Self)
        ensures
            r.wf(),
            r.populated() == 0,
            r.slots() == Seq::new(MAX_PLUGINS_CAP as nat, |k: int| PluginEntryOwned { name: 0, path: 0 }),
            r.arena_model().used == 0,
            r.arena_model().entries == Seq::<Seq<u8>>::empty(),
            r.tables() == (
                MAX_GATES_CAP as nat,
                0nat,
                MAX_RULES_CAP as nat,
                0nat,
                MAX_PARTIAL_RULES_CAP as nat,
                0nat,
            ),
    {
        let mut plugins: Vec<PluginEntryOwned> = Vec::new();
        let mut k: usize = 0;
        while k < MAX_PLUGINS_CAP
            invariant
                k <= MAX_PLUGINS_CAP,
                plugins@ == Seq::new(k as nat, |j: int| PluginEntryOwned { name: 0, path: 0 }),
            decreases MAX_PLUGINS_CAP - k,
        {
            plugins.push(PluginEntryOwned { name: 0, path: 0 });
            assert(plugins@ =~= Seq::new((k + 1) as nat, |j: int| PluginEntryOwned { name: 0, path: 0 }));
            k = k + 1;
        }
        let mut gates: Vec<GateOwned> = Vec::new();
        let mut k: usize = 0;
        while k < MAX_GATES_CAP
            invariant
                k <= MAX_GATES_CAP,
                gates@.len() == k,
            decreases MAX_GATES_CAP - k,
        {
            gates.push(GateOwned);
            k = k + 1;
        }
        let mut rules: Vec<RuleOwned> = Vec::new();
        let mut k: usize = 0;
        while k < MAX_RULES_CAP
            invariant
                k <= MAX_RULES_CAP,
                rules@.len() == k,
            decreases MAX_RULES_CAP - k,
        {
            rules.push(RuleOwned);
            k = k + 1;
        }
        let mut partial_rules: Vec<PartialRuleOwned> = Vec::new();
        let mut k: usize = 0;
        while k < MAX_PARTIAL_RULES_CAP
            invariant
                k <= MAX_PARTIAL_RULES_CAP,
                partial_rules@.len() == k,
            decreases MAX_PARTIAL_RULES_CAP - k,
        {
            partial_rules.push(PartialRuleOwned);
            k = k + 1;
        }
        ViolaConfigOwned {
            plugins,
            plugins_len: 0,
            gates,
            gates_len: 0,
            rules,
            rules_len: 0,
            partial_rules,
            partial_rules_len: 0,
            arena: ConfigArena::new(),
        }
    }

    /// Fills the plugin table from a parsed config: each of the first
    /// `MAX_PLUGINS_CAP` plugin paths that is well-formed UTF-8 is interned
    /// and its slot gets `{ name: 0, path: <id> }`; a path that is not
    /// UTF-8 leaves its slot as it was. The populated length becomes the
    /// number of paths walked.
    pub fn populate_from_borrowed(&mut self, borrowed: &ViolaConfig<'_, MAX_PLUGINS_CAP>)
        requires
            old(self).wf(),
        ensures
            final(self).wf(),
            final(self).populated() == vstd::math::min(
                borrowed.plugins@.len() as int,
                MAX_PLUGINS_CAP as int,
            ),
            (final(self).arena_model(), final(self).slots()) == populate_model(
                old(self).arena_model(),
                old(self).slots(),
                byte_views(borrowed.plugins@),
                final(self).populated(),
                ARENA_BYTES_CAP as nat,
            ),
            final(self).tables() == old(self).tables(),
    {
        let n = borrowed.plugins.len();
        let ghost paths = byte_views(borrowed.plugins@);
        let mut i: usize = 0;
        while i < n && i < MAX_PLUGINS_CAP
            invariant
                n == borrowed.plugins@.len(),
                paths == byte_views(borrowed.plugins@),
                i <= n,
                i <= MAX_PLUGINS_CAP,
                self.plugins@.len() == MAX_PLUGINS_CAP,
                self.plugins_len == old(self).plugins_len,
                self.arena.wf(),
                (self.arena.model(), self.plugins@) == populate_model(
                    old(self).arena.model(),
                    old(self).plugins@,
                    paths,
                    i as nat,
                    ARENA_BYTES_CAP as nat,
                ),
                self.gates@ == old(self).gates@,
                self.gates_len == old(self).gates_len,
                self.rules@ == old(self).rules@,
                self.rules_len == old(self).rules_len,
                self.partial_rules@ == old(self).partial_rules@,
                self.partial_rules_len == old(self).partial_rules_len,
            decreases MAX_PLUGINS_CAP - i,
        {
            let bytes: &[u8] = borrowed.plugins[i];
            assert(paths[i as int] == bytes@);
            match str_from_utf8(bytes) {
                Some(s) => {
                    let id = self.arena.arena_intern(s);
                    self.plugins.set(i, PluginEntryOwned { name: 0, path: id });
                },
                None => {},
            }
            i = i + 1;
        }
        self.plugins_len = i;
    }

    /// Currently populated plugin count.
    pub fn plugins_len(&self) -> (r: usize)
        ensures
            r == self.populated(),
    {
        self.plugins_len
    }

    /// The plugin entry at slot `i`, or `None` past the populated prefix.
    pub fn plugin_at(&self, i: usize) -> (r: Option<&PluginEntryOwned>)
        requires
            self.wf(),
        ensures
            match r {
                Some(e) => i < self.populated() && *e == self.slots()[i as int],
                None => i >= self.populated(),
            },
    {
        if i >= self.plugins_len || i >= MAX_PLUGINS_CAP {
            return None;
        }
        Some(&self.plugins[i])
    }

    /// The filesystem path of the plugin at slot `i`, resolved from the
    /// arena; `None` past the populated prefix.
    pub fn plugin_path(&self, i: usize) -> (r: Option<&str>)
        requires
            self.wf(),
        ensures
            match r {
                Some(s) => i < self.populated() && s.spec_bytes() == model_resolve(
                    self.arena_model(),
                    self.slots()[i as int].path,
                ),
                None => i >= self.populated(),
            },
    {
        match self.plugin_at(i) {
            Some(entry) => Some(self.arena.arena_resolve(entry.path)),
            None => None,
        }
    }
}

} // verus!
