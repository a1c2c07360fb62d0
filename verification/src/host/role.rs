//! Cap-derived role classification: an extension is a Runner iff it
//! exports the runner provider, a Grammar iff it exports the grammar
//! provider, a Lint iff it exports the lint provider; it may hold several
//! roles. A role set is a 64-bit mask in which each role owns one bit.

use vstd::prelude::*;
use vstd::string::StringSliceAdditionalSpecFns;
use crate::abi::{
    fnv1a, ProviderId, PROVIDER_GRAMMAR_EXTRACT, PROVIDER_LINT_EVALUATE,
    PROVIDER_RUNNER_EXECUTE_SCOPE,
};

verus! {

/// A single viola role.
#[derive(Copy, Clone, Debug, PartialEq, Eq)]
pub enum Role {
    Runner,
    Grammar,
    Lint,
}

/// The bit a role occupies in a role set.
pub open spec fn role_mask(r: Role) -> u64 {
    match r {
        Role::Runner => 1,
        Role::Grammar => 2,
        Role::Lint => 4,
    }
}

impl Role {
    /// The role's bit position: Runner 0, Grammar 1, Lint 2.
    pub fn position(self) -> (r: u32)
        ensures
            r == match self {
                Role::Runner => 0u32,
                Role::Grammar => 1u32,
                Role::Lint => 2u32,
            },
    {
        match self {
            Role::Runner => 0,
            Role::Grammar => 1,
            Role::Lint => 2,
        }
    }

    fn mask(self) -> (r: u64)
        ensures
            r == role_mask(self),
    {
        match self {
            Role::Runner => 1,
            Role::Grammar => 2,
            Role::Lint => 4,
        }
    }
}

/// Set of roles an extension holds.
#[derive(Copy, Clone, Debug, PartialEq, Eq)]
pub struct RoleSet(u64);

proof fn lemma_mask_bits(b: u64, m: u64, m2: u64)
    requires
        b < 8,
        m == 1 || m == 2 || m == 4,
        m2 == 1 || m2 == 2 || m2 == 4,
    ensures
        (b | m) < 8,
        ((b | m) & m2 != 0) == (m == m2 || b & m2 != 0),
        (b | m) & m != 0,
{
    assert((b | m) < 8 && (((b | m) & m2 != 0) == (m == m2 || b & m2 != 0)) && (b | m) & m != 0)
        by (bit_vector)
        requires
            b < 8,
            m == 1 || m == 2 || m == 4,
            m2 == 1 || m2 == 2 || m2 == 4,
    ;
}

proof fn lemma_empty_bits(b: u64)
    requires
        b < 8,
    ensures
        (b == 0) == (b & 1 == 0 && b & 2 == 0 && b & 4 == 0),
        b == 0 ==> (b & 1 == 0 && b & 2 == 0 && b & 4 == 0),
{
    assert((b == 0) == (b & 1 == 0 && b & 2 == 0 && b & 4 == 0)) by (bit_vector)
        requires
            b < 8,
    ;
    assert(b == 0 ==> (b & 1 == 0 && b & 2 == 0 && b & 4 == 0)) by (bit_vector);
}

impl RoleSet {
    /// Only the three role bits are ever set.
    pub closed spec fn wf(self) -> bool {
        self.0 < 8
    }

    /// Whether the set holds `r`.
    pub closed spec fn has(self, r: Role) -> bool {
        self.0 & role_mask(r) != 0
    }

    /// The empty set.
    #[allow(non_snake_case)]
    pub fn EMPTY() -> (r: RoleSet)
        ensures
            r.wf(),
            forall|x: Role| !r.has(x),
    {
        proof {
            lemma_empty_bits(0);
        }
        RoleSet(0)
    }

    pub fn contains(self, role: Role) -> (r: bool)
        ensures
            r == self.has(role),
    {
        self.0 & role.mask() != 0
    }

    /// Whether the set holds no role.
    pub fn is_empty(self) -> (r: bool)
        requires
            self.wf(),
        ensures
            r == (forall|x: Role| !self.has(x)),
    {
        proof {
            lemma_empty_bits(self.0);
            if forall|x: Role| !self.has(x) {
                assert(!self.has(Role::Runner));
                assert(!self.has(Role::Grammar));
                assert(!self.has(Role::Lint));
            }
            if !(forall|x: Role| !self.has(x)) {
                let x = choose|x: Role| self.has(x);
                assert(self.0 & role_mask(x) != 0);
            }
        }
        self.0 == 0
    }

    /// The set with `role` added.
    pub fn insert(self, role: Role) -> (r: RoleSet)
        requires
            self.wf(),
        ensures
            r.wf(),
            forall|x: Role| r.has(x) == (x == role || self.has(x)),
    {
        let r = RoleSet(self.0 | role.mask());
        proof {
            assert forall|x: Role| r.has(x) == (x == role || self.has(x)) by {
                lemma_mask_bits(self.0, role_mask(role), role_mask(x));
            }
            lemma_mask_bits(self.0, role_mask(role), role_mask(role));
        }
        r
    }
}

/// Adding a role never removes one, and the added role is held: the set
/// after inserting `a` then `b` holds exactly `a`, `b` and what it held.
pub proof fn lemma_insert_twice(s: RoleSet, a: Role, b: Role, s1: RoleSet, s2: RoleSet)
    requires
        s.wf(),
        forall|x: Role| s1.has(x) == (x == a || s.has(x)),
        forall|x: Role| s2.has(x) == (x == b || s1.has(x)),
    ensures
        forall|x: Role| s2.has(x) == (x == a || x == b || s.has(x)),
{
}

/// One provider of an extension's provider table: its id and the address
/// of its vtable (0 when the extension exports a null vtable).
#[derive(Copy, Clone, Debug, PartialEq, Eq)]
pub struct ProviderEntry {
    pub id: ProviderId,
    pub vtable: usize,
}

/// A loaded extension, as far as the host reads it: its provider table.
#[derive(Debug)]
pub struct Extension {
    pub providers: Vec<ProviderEntry>,
}

/// The vtable address the first table entry for `id` gives, from
/// position `i` on.
pub open spec fn provider_from(t: Seq<ProviderEntry>, id: ProviderId, i: int) -> Option<usize>
    decreases t.len() - i,
{
    if i < 0 || i >= t.len() {
        None
    } else if t[i].id == id {
        Some(t[i].vtable)
    } else {
        provider_from(t, id, i + 1)
    }
}

/// The provider id each role is recognised by.
pub open spec fn role_provider(r: Role) -> ProviderId {
    match r {
        Role::Runner => ProviderId(fnv1a("viola.runner.execute_scope.v1".spec_bytes())),
        Role::Grammar => ProviderId(fnv1a("viola.grammar.extract.v1".spec_bytes())),
        Role::Lint => ProviderId(fnv1a("viola.lint.evaluate.v2".spec_bytes())),
    }
}

impl Extension {
    /// The vtable the extension exports for `id`, if it exports one.
    pub open spec fn spec_provider(&self, id: ProviderId) -> Option<usize> {
        provider_from(self.providers@, id, 0)
    }

    /// The vtable the extension exports for `id`, if it exports one.
    pub fn provider(&self, id: ProviderId) -> (r: Option<usize>)
        ensures
            r == self.spec_provider(id),
    {
        let mut i: usize = 0;
        while i < self.providers.len()
            invariant
                i <= self.providers@.len(),
                provider_from(self.providers@, id, 0) == provider_from(self.providers@, id, i as int),
            decreases self.providers.len() - i,
        {
            if self.providers[i].id.0 == id.0 {
                return Some(self.providers[i].vtable);
            }
            i = i + 1;
        }
        None
    }
}

/// Whether the extension exports the provider `id`.
pub fn has_cap(ext: &Extension, id: ProviderId) -> (r: bool)
    ensures
        r == ext.spec_provider(id) is Some,
{
    ext.provider(id).is_some()
}

/// The role set an extension's provider table implies.
pub fn roles_of(ext: &Extension) -> (r: RoleSet)
    ensures
        r.wf(),
        forall|x: Role| r.has(x) == ext.spec_provider(role_provider(x)) is Some,
{
    let mut set = RoleSet::EMPTY();
    if has_cap(ext, PROVIDER_RUNNER_EXECUTE_SCOPE()) {
        set = set.insert(Role::Runner);
    }
    if has_cap(ext, PROVIDER_GRAMMAR_EXTRACT()) {
        set = set.insert(Role::Grammar);
    }
    if has_cap(ext, PROVIDER_LINT_EVALUATE()) {
        set = set.insert(Role::Lint);
    }
    set
}

pub fn is_runner(ext: &Extension) -> (r: bool)
    ensures
        r == ext.spec_provider(role_provider(Role::Runner)) is Some,
{
    has_cap(ext, PROVIDER_RUNNER_EXECUTE_SCOPE())
}

pub fn is_grammar(ext: &Extension) -> (r: bool)
    ensures
        r == ext.spec_provider(role_provider(Role::Grammar)) is Some,
{
    has_cap(ext, PROVIDER_GRAMMAR_EXTRACT())
}

pub fn is_lint(ext: &Extension) -> (r: bool)
    ensures
        r == ext.spec_provider(role_provider(Role::Lint)) is Some,
{
    has_cap(ext, PROVIDER_LINT_EVALUATE())
}

/// The vtable of a provider lookup, when present and non-null.
pub open spec fn spec_cast(raw: Option<usize>) -> Option<usize> {
    match raw {
        Some(p) => if p != 0 {
            Some(p)
        } else {
            None
        },
        None => None,
    }
}

fn cast(raw: Option<usize>) -> (r: Option<usize>)
    ensures
        r == spec_cast(raw),
{
    match raw {
        Some(p) => if p != 0 {
            Some(p)
        } else {
            None
        },
        None => None,
    }
}

/// The runner role's vtable: absent or null gives `None`.
pub fn runner_vtable(ext: &Extension) -> (r: Option<usize>)
    ensures
        r == spec_cast(ext.spec_provider(role_provider(Role::Runner))),
{
    cast(ext.provider(PROVIDER_RUNNER_EXECUTE_SCOPE()))
}

/// The grammar role's vtable.
pub fn grammar_vtable(ext: &Extension) -> (r: Option<usize>)
    ensures
        r == spec_cast(ext.spec_provider(role_provider(Role::Grammar))),
{
    cast(ext.provider(PROVIDER_GRAMMAR_EXTRACT()))
}

/// The lint role's vtable.
pub fn lint_vtable(ext: &Extension) -> (r: Option<usize>)
    ensures
        r == spec_cast(ext.spec_provider(role_provider(Role::Lint))),
{
    cast(ext.provider(PROVIDER_LINT_EVALUATE()))
}

} // verus!
