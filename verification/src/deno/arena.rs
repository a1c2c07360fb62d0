//! Fixed-capacity bump arena holding the bytes the diagnostics of one
//! lint invocation reference, plus the diagnostic records themselves.

use vstd::prelude::*;
use crate::abi::{DiagnosticSeverity, ProviderId, SourceRange};
use crate::deno::error::DenoRuntimeError;
use crate::deno::{ARENA_BYTES, MAX_DIAGS};

verus! {

/// A run of arena bytes: `len` bytes from `start`. The empty span refers
/// to nothing.
#[derive(Copy, Clone, Debug, PartialEq, Eq)]
pub struct Span {
    pub start: usize,
    pub len: usize,
}

impl Span {
    pub fn empty() -> (r: Span)
        ensures
            r.start == 0 && r.len == 0,
    {
        Span { start: 0, len: 0 }
    }

    pub fn is_empty(&self) -> (r: bool)
        ensures
            r == (self.len == 0),
    {
        self.len == 0
    }
}

/// One diagnostic as the runtime emits it; every text field is a span of
/// the arena that holds it.
#[derive(Copy, Clone, Debug, PartialEq, Eq)]
pub struct Diagnostic {
    pub plugin_id: Span,
    pub rule_id: Span,
    pub severity: DiagnosticSeverity,
    pub message: Span,
    pub path: Span,
    pub range: SourceRange,
    pub suggestion: Span,
    pub metadata_schema: ProviderId,
    pub metadata_len: usize,
}

pub struct Arena {
    buf: Vec<u8>,
    diagnostics: Vec<Diagnostic>,
}

impl Arena {
    /// The bytes interned so far.
    pub closed spec fn bytes(&self) -> Seq<u8> {
        self.buf@
    }

    /// The diagnostics pushed so far.
    pub closed spec fn diags(&self) -> Seq<Diagnostic> {
        self.diagnostics@
    }

    pub closed spec fn wf(&self) -> bool {
        &&& self.buf@.len() <= ARENA_BYTES
        &&& self.diagnostics@.len() <= MAX_DIAGS
    }

    /// A well-formed arena stays within its capacities.
    pub proof fn lemma_wf_bounds(&self)
        requires
            self.wf(),
        ensures
            self.bytes().len() <= ARENA_BYTES,
            self.diags().len() <= MAX_DIAGS,
    {
    }

    /// The bytes a span refers to.
    pub open spec fn span_bytes(&self, s: Span) -> Seq<u8> {
        self.bytes().subrange(s.start as int, s.start + s.len)
    }

    pub open spec fn span_ok(&self, s: Span) -> bool {
        s.start + s.len <= self.bytes().len()
    }

    pub fn new() -> (r: Arena)
        ensures
            r.wf(),
            r.bytes() == Seq::<u8>::empty(),
            r.diags() == Seq::<Diagnostic>::empty(),
    {
        Arena { buf: Vec::new(), diagnostics: Vec::new() }
    }

    /// Forget everything interned and pushed.
    pub fn clear(&mut self)
        ensures
            final(self).wf(),
            final(self).bytes() == Seq::<u8>::empty(),
            final(self).diags() == Seq::<Diagnostic>::empty(),
    {
        self.buf = Vec::new();
        self.diagnostics = Vec::new();
    }

    /// Number of diagnostics held.
    pub fn diag_count(&self) -> (r: usize)
        ensures
            r == self.diags().len(),
    {
        self.diagnostics.len()
    }

    /// Copies `src` into the arena and returns its span; empty input gives
    /// the empty span and leaves the arena as it was.
    pub fn intern(&mut self, src: &[u8]) -> (r: Result<Span, DenoRuntimeError>)
        requires
            old(self).wf(),
        ensures
            final(self).wf(),
            final(self).diags() == old(self).diags(),
            match r {
                Ok(s) => {
                    &&& src@.len() == 0 ==> s == Span { start: 0, len: 0 } && final(self).bytes()
                        == old(self).bytes()
                    &&& src@.len() > 0 ==> s == Span {
                        start: old(self).bytes().len() as usize,
                        len: src@.len() as usize,
                    } && final(self).bytes() == old(self).bytes() + src@
                    &&& final(self).span_ok(s)
                    &&& final(self).span_bytes(s) == src@
                },
                Err(e) => {
                    &&& e == DenoRuntimeError::ArenaBytesFull
                    &&& src@.len() > 0
                    &&& old(self).bytes().len() + src@.len() > ARENA_BYTES
                    &&& final(self).bytes() == old(self).bytes()
                },
            },
    {
        if src.len() == 0 {
            assert(self.buf@.subrange(0, 0) =~= src@);
            return Ok(Span::empty());
        }
        let start = self.buf.len();
        if src.len() > ARENA_BYTES - start {
            return Err(DenoRuntimeError::ArenaBytesFull);
        }
        let mut k: usize = 0;
        while k < src.len()
            invariant
                k <= src@.len(),
                start == old(self).bytes().len(),
                start + src@.len() <= ARENA_BYTES,
                self.buf@ == old(self).bytes() + src@.take(k as int),
                self.diagnostics@ == old(self).diags(),
            decreases src.len() - k,
        {
            self.buf.push(src[k]);
            assert(src@.take(k + 1) =~= src@.take(k as int).push(src@[k as int]));
            k = k + 1;
        }
        assert(src@.take(k as int) =~= src@);
        let s = Span { start, len: src.len() };
        assert(self.buf@.subrange(start as int, start + src@.len()) =~= src@);
        Ok(s)
    }

    /// The bytes of a span.
    pub fn resolve(&self, s: Span) -> (r: &[u8])
        requires
            self.wf(),
            self.span_ok(s),
        ensures
            r@ == self.span_bytes(s),
    {
        vstd::slice::slice_subrange(self.buf.as_slice(), s.start, s.start + s.len)
    }

    pub fn push_diag(&mut self, d: Diagnostic) -> (r: Result<(), DenoRuntimeError>)
        requires
            old(self).wf(),
        ensures
            final(self).wf(),
            final(self).bytes() == old(self).bytes(),
            match r {
                Ok(()) => old(self).diags().len() < MAX_DIAGS && final(self).diags() == old(
                    self,
                ).diags().push(d),
                Err(e) => e == DenoRuntimeError::ArenaDiagsFull && old(self).diags().len()
                    >= MAX_DIAGS && final(self).diags() == old(self).diags(),
            },
    {
        if self.diagnostics.len() >= MAX_DIAGS {
            return Err(DenoRuntimeError::ArenaDiagsFull);
        }
        self.diagnostics.push(d);
        Ok(())
    }

    /// The diagnostics held, in push order.
    pub fn diagnostics(&self) -> (r: &[Diagnostic])
        ensures
            r@ == self.diags(),
    {
        self.diagnostics.as_slice()
    }

    /// The arena's bytes.
    pub fn as_bytes(&self) -> (r: &[u8])
        ensures
            r@ == self.bytes(),
    {
        self.buf.as_slice()
    }
}

} // verus!
