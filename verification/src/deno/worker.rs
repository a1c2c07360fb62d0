//! The decisions of one lint invocation against the deno worker: what is
//! sent, and what each line the worker answers does to the diagnostic
//! arena. The pipes themselves belong to the caller.

use vstd::prelude::*;
use vstd::string::StringSliceAdditionalSpecFns;
use crate::abi::{AbiStatus, DiagnosticSeverity, ProviderId, RunScope, SourceLocation, SourceRange};
use crate::deno::arena::{Arena, Diagnostic, Span};
use crate::deno::encoder::{build_lint_request, lint_request, FrameWriter};
use crate::deno::error::DenoRuntimeError;
use crate::deno::json::{
    bytes_at, occurs_at, parse_message, spec_parse_message, spec_trim, trim_ws, DiagView,
    MessageView, ParsedDiag, ParsedMessage,
};
use crate::deno::{ARENA_BYTES, FRAME_CAP, MAX_DIAGS};
use crate::text::str_from_utf8;

verus! {

/// The severity a worker's severity word names: `info`, `error`, and
/// `warn` or `warning`; anything else names none.
pub open spec fn spec_severity(s: Seq<u8>) -> Option<DiagnosticSeverity> {
    if s == "info".spec_bytes() {
        Some(DiagnosticSeverity::Info)
    } else if s == "error".spec_bytes() {
        Some(DiagnosticSeverity::Error)
    } else if s == "warn".spec_bytes() || s == "warning".spec_bytes() {
        Some(DiagnosticSeverity::Warn)
    } else {
        None
    }
}

fn same_bytes(a: &[u8], b: &[u8]) -> (r: bool)
    ensures
        r == (a@ == b@),
{
    if a.len() != b.len() {
        return false;
    }
    let r = bytes_at(a, 0, b);
    assert(a@.subrange(0, b@.len() as int) =~= a@);
    r
}

/// The severity named by a worker's severity word.
pub fn severity_from_bytes(s: &[u8]) -> (r: Option<DiagnosticSeverity>)
    ensures
        r == spec_severity(s@),
{
    if same_bytes(s, "info".as_bytes()) {
        Some(DiagnosticSeverity::Info)
    } else if same_bytes(s, "error".as_bytes()) {
        Some(DiagnosticSeverity::Error)
    } else if same_bytes(s, "warn".as_bytes()) || same_bytes(s, "warning".as_bytes()) {
        Some(DiagnosticSeverity::Warn)
    } else {
        None
    }
}

/// Arena bytes after interning `f` on top of `b`: unchanged for an empty
/// field, `None` when it does not fit.
pub open spec fn arena_add(b: Seq<u8>, f: Seq<u8>) -> Option<Seq<u8>> {
    if f.len() == 0 {
        Some(b)
    } else if b.len() + f.len() > ARENA_BYTES {
        None
    } else {
        Some(b + f)
    }
}

/// Arena bytes after interning the four text fields of a diagnostic in
/// order (plugin id, rule id, message, path).
pub open spec fn diag_bytes(b: Seq<u8>, d: DiagView) -> Option<Seq<u8>> {
    match arena_add(b, d.plugin_id) {
        None => None,
        Some(b1) => match arena_add(b1, d.rule_id) {
            None => None,
            Some(b2) => match arena_add(b2, d.message) {
                None => None,
                Some(b3) => arena_add(b3, d.path),
            },
        },
    }
}

/// Arena bytes when interning the fields stops at the first that does
/// not fit: everything interned before it.
pub open spec fn bytes_at_overflow(b: Seq<u8>, d: DiagView) -> Seq<u8> {
    match arena_add(b, d.plugin_id) {
        None => b,
        Some(b1) => match arena_add(b1, d.rule_id) {
            None => b1,
            Some(b2) => match arena_add(b2, d.message) {
                None => b2,
                Some(b3) => b3,
            },
        },
    }
}

/// The span a field interned on top of `b` gets.
pub open spec fn span_of(b: Seq<u8>, f: Seq<u8>) -> Span {
    if f.len() == 0 {
        Span { start: 0, len: 0 }
    } else {
        Span { start: b.len() as usize, len: f.len() as usize }
    }
}

/// The record a diagnostic becomes when its fields are interned on top of
/// `b`: a zero-width range at its line and column, no suggestion and no
/// metadata.
pub open spec fn diag_record(b: Seq<u8>, d: DiagView, sev: DiagnosticSeverity) -> Diagnostic {
    let b1 = b + d.plugin_id;
    let b2 = b1 + d.rule_id;
    let b3 = b2 + d.message;
    Diagnostic {
        plugin_id: span_of(b, d.plugin_id),
        rule_id: span_of(b1, d.rule_id),
        severity: sev,
        message: span_of(b2, d.message),
        path: span_of(b3, d.path),
        range: SourceRange {
            start: SourceLocation { line: d.line, column: d.column },
            end: SourceLocation { line: d.line, column: d.column },
        },
        suggestion: Span { start: 0, len: 0 },
        metadata_schema: ProviderId(0),
        metadata_len: 0,
    }
}

/// Whether accepting a diagnostic succeeds, and with which severity: the
/// fields must fit the arena, the severity word must be known, and a
/// record slot must be free, checked in that order.
pub open spec fn accept_result(b: Seq<u8>, ndiags: nat, d: DiagView) -> Result<
    DiagnosticSeverity,
    DenoRuntimeError,
> {
    match diag_bytes(b, d) {
        None => Err(DenoRuntimeError::ArenaBytesFull),
        Some(_) => match spec_severity(d.severity) {
            None => Err(DenoRuntimeError::BadSeverity),
            Some(sev) => if ndiags >= MAX_DIAGS {
                Err(DenoRuntimeError::ArenaDiagsFull)
            } else {
                Ok(sev)
            },
        },
    }
}

proof fn lemma_add_empty(b: Seq<u8>, f: Seq<u8>)
    requires
        f.len() == 0,
    ensures
        b + f == b,
{
    assert(b + f =~= b);
}

/// A span of `b` reads the same in any extension of `b`.
proof fn lemma_span_in_extension(b: Seq<u8>, c: Seq<u8>, s: Span)
    requires
        s.start + s.len <= b.len(),
        b.len() <= c.len(),
        c.take(b.len() as int) == b,
    ensures
        c.subrange(s.start as int, s.start + s.len) == b.subrange(s.start as int, s.start + s.len),
{
    assert(c.subrange(s.start as int, s.start + s.len) =~= b.subrange(
        s.start as int,
        s.start + s.len,
    )) by {
        assert forall|k: int| 0 <= k < b.len() implies #[trigger] c[k] == b[k] by {
            assert(c.take(b.len() as int)[k] == c[k]);
        }
    }
}

/// Interns one field, with the outcome stated over `arena_add`.
fn intern_field(arena: &mut Arena, src: &[u8]) -> (r: Result<Span, DenoRuntimeError>)
    requires
        old(arena).wf(),
    ensures
        final(arena).wf(),
        final(arena).diags() == old(arena).diags(),
        match arena_add(old(arena).bytes(), src@) {
            None => r == Err::<Span, DenoRuntimeError>(DenoRuntimeError::ArenaBytesFull)
                && final(arena).bytes() == old(arena).bytes(),
            Some(nb) => {
                &&& r == Ok::<Span, DenoRuntimeError>(span_of(old(arena).bytes(), src@))
                &&& final(arena).bytes() == nb
                &&& nb == old(arena).bytes() + src@
                &&& final(arena).span_ok(span_of(old(arena).bytes(), src@))
                &&& final(arena).span_bytes(span_of(old(arena).bytes(), src@)) == src@
            },
        },
{
    let ghost b = arena.bytes();
    let r = arena.intern(src);
    proof {
        if src@.len() == 0 {
            lemma_add_empty(b, src@);
            assert(arena_add(b, src@) == Some(b));
        } else {
            match r {
                Ok(sp) => {
                    arena.lemma_wf_bounds();
                    assert(arena_add(b, src@) == Some(b + src@));
                },
                Err(e) => {
                    assert(arena_add(b, src@) is None);
                },
            }
        }
    }
    r
}

/// Interns the text of a decoded diagnostic and records it.
#[verifier::rlimit(30)]
pub fn accept_diag(arena: &mut Arena, d: &ParsedDiag) -> (r: Result<(), DenoRuntimeError>)
    requires
        old(arena).wf(),
        d.wf(),
    ensures
        final(arena).wf(),
        final(arena).bytes().len() >= old(arena).bytes().len(),
        final(arena).bytes().take(old(arena).bytes().len() as int) == old(arena).bytes(),
        match accept_result(old(arena).bytes(), old(arena).diags().len(), d.view()) {
            Ok(sev) => {
                let rec = diag_record(old(arena).bytes(), d.view(), sev);
                &&& r is Ok
                &&& Some(final(arena).bytes()) == diag_bytes(old(arena).bytes(), d.view())
                &&& final(arena).diags() == old(arena).diags().push(rec)
                &&& final(arena).span_ok(rec.plugin_id)
                &&& final(arena).span_bytes(rec.plugin_id) == d.view().plugin_id
                &&& final(arena).span_ok(rec.rule_id)
                &&& final(arena).span_bytes(rec.rule_id) == d.view().rule_id
                &&& final(arena).span_ok(rec.message)
                &&& final(arena).span_bytes(rec.message) == d.view().message
                &&& final(arena).span_ok(rec.path)
                &&& final(arena).span_bytes(rec.path) == d.view().path
            },
            Err(e) => {
                &&& r == Err::<(), DenoRuntimeError>(e)
                &&& final(arena).diags() == old(arena).diags()
                &&& e != DenoRuntimeError::ArenaBytesFull ==> Some(final(arena).bytes())
                    == diag_bytes(old(arena).bytes(), d.view())
                &&& e == DenoRuntimeError::ArenaBytesFull ==> final(arena).bytes()
                    == bytes_at_overflow(old(arena).bytes(), d.view())
            },
        },
{
    let ghost b0 = arena.bytes();
    let ghost v = d.view();
    let pid = vstd::slice::slice_subrange(d.plugin_id.as_slice(), 0, d.plugin_id_len);
    let rid = vstd::slice::slice_subrange(d.rule_id.as_slice(), 0, d.rule_id_len);
    let msg = vstd::slice::slice_subrange(d.message.as_slice(), 0, d.message_len);
    let pth = vstd::slice::slice_subrange(d.path.as_slice(), 0, d.path_len);
    assert(pid@ =~= v.plugin_id);
    assert(rid@ =~= v.rule_id);
    assert(msg@ =~= v.message);
    assert(pth@ =~= v.path);
    assert(b0.take(b0.len() as int) =~= b0);
    let plugin_id = match intern_field(arena, pid) {
        Ok(s) => s,
        Err(e) => return Err(e),
    };
    let ghost b1 = arena.bytes();
    let rule_id = match intern_field(arena, rid) {
        Ok(s) => s,
        Err(e) => {
            assert(arena.bytes().take(b0.len() as int) =~= b0);
            return Err(e);
        },
    };
    let ghost b2 = arena.bytes();
    let message = match intern_field(arena, msg) {
        Ok(s) => s,
        Err(e) => {
            assert(arena.bytes().take(b0.len() as int) =~= b0);
            return Err(e);
        },
    };
    let ghost b3 = arena.bytes();
    let path = match intern_field(arena, pth) {
        Ok(s) => s,
        Err(e) => {
            assert(arena.bytes().take(b0.len() as int) =~= b0);
            return Err(e);
        },
    };
    let ghost b4 = arena.bytes();
    proof {
        assert(b4 == b0 + v.plugin_id + v.rule_id + v.message + v.path);
        assert(b4.take(b0.len() as int) =~= b0);
        assert(b4.take(b1.len() as int) =~= b1);
        assert(b4.take(b2.len() as int) =~= b2);
        assert(b4.take(b3.len() as int) =~= b3);
        lemma_span_in_extension(b1, b4, plugin_id);
        lemma_span_in_extension(b2, b4, rule_id);
        lemma_span_in_extension(b3, b4, message);
    }
    let sev_bytes = vstd::slice::slice_subrange(d.severity.as_slice(), 0, d.severity_len);
    assert(sev_bytes@ =~= v.severity);
    let severity = match severity_from_bytes(sev_bytes) {
        Some(s) => s,
        None => return Err(DenoRuntimeError::BadSeverity),
    };
    let diag = Diagnostic {
        plugin_id,
        rule_id,
        severity,
        message,
        path,
        range: SourceRange {
            start: SourceLocation { line: d.line, column: d.column },
            end: SourceLocation { line: d.line, column: d.column },
        },
        suggestion: Span::empty(),
        metadata_schema: ProviderId(0),
        metadata_len: 0,
    };
    assert(diag == diag_record(b0, v, severity));
    assert(diag_bytes(b0, v) == Some(b4));
    let r = arena.push_diag(diag);
    assert(arena.bytes().take(b0.len() as int) == b0);
    r
}

/// Two arenas hold the same bytes and the same records.
pub open spec fn same_arena(a: Arena, b: Arena) -> bool {
    a.bytes() == b.bytes() && a.diags() == b.diags()
}

/// What the invocation does after a line.
#[derive(Copy, Clone, Debug, PartialEq, Eq)]
pub enum LintProgress {
    /// Read the next line.
    Continue,
    /// The worker finished the pass.
    Done,
}

/// Starts a lint invocation: empties the arena and the frame buffer and
/// encodes the request for `scope`, which is then written to the worker
/// followed by a newline.
pub fn begin_lint(arena: &mut Arena, fw: &mut FrameWriter, scope: &RunScope) -> (r: Result<
    (),
    DenoRuntimeError,
>)
    ensures
        final(arena).wf(),
        final(arena).bytes() == Seq::<u8>::empty(),
        final(arena).diags() == Seq::<Diagnostic>::empty(),
        final(fw).wf(),
        match r {
            Ok(()) => final(fw).view() == lint_request(scope.workspace_root@, scope.files@),
            Err(e) => e == DenoRuntimeError::EncodeBufferFull && lint_request(
                scope.workspace_root@,
                scope.files@,
            ).len() > FRAME_CAP,
        },
{
    arena.clear();
    fw.reset();
    let r = build_lint_request(fw, scope);
    assert(Seq::<u8>::empty() + lint_request(scope.workspace_root@, scope.files@) =~= lint_request(
        scope.workspace_root@,
        scope.files@,
    ));
    r
}

/// Handles one line read from the worker during a lint invocation. An
/// empty read means the worker closed its stdout; a blank line is skipped;
/// otherwise the trimmed line is decoded: `err` ends the invocation with
/// the worker's failure, `done` ends it, and a diagnostic is accepted into
/// the arena.
pub fn lint_line_step(arena: &mut Arena, line: &[u8]) -> (r: Result<
    LintProgress,
    DenoRuntimeError,
>)
    requires
        old(arena).wf(),
    ensures
        final(arena).wf(),
        line@.len() == 0 ==> r == Err::<LintProgress, DenoRuntimeError>(
            DenoRuntimeError::WorkerEofUnexpected,
        ) && same_arena(*final(arena), *old(arena)),
        line@.len() > 0 && spec_trim(line@).len() == 0 ==> r == Ok::<
            LintProgress,
            DenoRuntimeError,
        >(LintProgress::Continue) && same_arena(*final(arena), *old(arena)),
        line@.len() > 0 && spec_trim(line@).len() > 0 ==> match spec_parse_message(
            spec_trim(line@),
        ) {
            None => r == Err::<LintProgress, DenoRuntimeError>(DenoRuntimeError::DecodeMalformed)
                && same_arena(*final(arena), *old(arena)),
            Some(MessageView::Error) => r == Err::<LintProgress, DenoRuntimeError>(
                DenoRuntimeError::WorkerReportedError,
            ) && same_arena(*final(arena), *old(arena)),
            Some(MessageView::Done) => r == Ok::<LintProgress, DenoRuntimeError>(
                LintProgress::Done,
            ) && same_arena(*final(arena), *old(arena)),
            Some(MessageView::Diag(v)) => match accept_result(
                old(arena).bytes(),
                old(arena).diags().len(),
                v,
            ) {
                Ok(sev) => r == Ok::<LintProgress, DenoRuntimeError>(LintProgress::Continue)
                    && Some(final(arena).bytes()) == diag_bytes(old(arena).bytes(), v)
                    && final(arena).diags() == old(arena).diags().push(
                    diag_record(old(arena).bytes(), v, sev),
                ),
                Err(e) => r == Err::<LintProgress, DenoRuntimeError>(e)
                    && final(arena).diags() == old(arena).diags() && final(arena).bytes() == (
                    if e == DenoRuntimeError::ArenaBytesFull {
                        bytes_at_overflow(old(arena).bytes(), v)
                    } else {
                        diag_bytes(old(arena).bytes(), v).unwrap()
                    }),
            },
        },
{
    if line.len() == 0 {
        return Err(DenoRuntimeError::WorkerEofUnexpected);
    }
    let trimmed = trim_ws(line);
    if trimmed.len() == 0 {
        return Ok(LintProgress::Continue);
    }
    let msg = match parse_message(trimmed) {
        Ok(m) => m,
        Err(e) => return Err(e),
    };
    match msg {
        ParsedMessage::Error => Err(DenoRuntimeError::WorkerReportedError),
        ParsedMessage::Done => Ok(LintProgress::Done),
        ParsedMessage::Diag(d) => {
            match accept_diag(arena, &d) {
                Ok(()) => Ok(LintProgress::Continue),
                Err(e) => Err(e),
            }
        },
    }
}

/// Checks the lint-config bytes that name the user's config file: they
/// must be present and UTF-8, and are then the path to canonicalize.
pub fn config_path_text(bytes: &[u8]) -> (r: Result<&str, DenoRuntimeError>)
    ensures
        match r {
            Ok(s) => bytes@.len() > 0 && vstd::utf8::valid_utf8(bytes@) && s.spec_bytes()
                == bytes@,
            Err(e) => (bytes@.len() == 0 && e == DenoRuntimeError::ConfigBytesEmpty) || (
            bytes@.len() > 0 && !vstd::utf8::valid_utf8(bytes@) && e
                == DenoRuntimeError::ConfigNotUtf8),
        },
{
    if bytes.len() == 0 {
        return Err(DenoRuntimeError::ConfigBytesEmpty);
    }
    match str_from_utf8(bytes) {
        Some(s) => Ok(s),
        None => Err(DenoRuntimeError::ConfigNotUtf8),
    }
}

/// Where a lint evaluation ended.
#[derive(Copy, Clone, Debug, PartialEq, Eq)]
pub enum EvaluateEnd {
    /// The host gave no place for the result.
    OutputMissing,
    /// The lint-config bytes named no usable config.
    ConfigRejected,
    /// The worker could not be reached or started.
    WorkerUnavailable,
    /// The pass over the worker failed.
    PassFailed,
    /// The pass finished and its diagnostics are in the arena.
    Finished,
}

/// The status a lint evaluation reports: a missing output is an invalid
/// argument, a rejected config or an unavailable worker a failed
/// initialisation, a failed pass an internal error.
pub fn evaluate_status(end: EvaluateEnd) -> (r: AbiStatus)
    ensures
        r == match end {
            EvaluateEnd::OutputMissing => AbiStatus::InvalidArg,
            EvaluateEnd::ConfigRejected => AbiStatus::InitFailed,
            EvaluateEnd::WorkerUnavailable => AbiStatus::InitFailed,
            EvaluateEnd::PassFailed => AbiStatus::Internal,
            EvaluateEnd::Finished => AbiStatus::Success,
        },
{
    match end {
        EvaluateEnd::OutputMissing => AbiStatus::InvalidArg,
        EvaluateEnd::ConfigRejected => AbiStatus::InitFailed,
        EvaluateEnd::WorkerUnavailable => AbiStatus::InitFailed,
        EvaluateEnd::PassFailed => AbiStatus::Internal,
        EvaluateEnd::Finished => AbiStatus::Success,
    }
}

} // verus!
