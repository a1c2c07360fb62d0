//! Encoder for the host-to-worker JSON frames (`lint` and `shutdown`
//! requests) into a fixed-capacity frame buffer.

use vstd::prelude::*;
use vstd::string::StringSliceAdditionalSpecFns;
use crate::abi::{FileEntry, RunScope};
use crate::deno::error::DenoRuntimeError;
use crate::deno::json::{
    hex_val, json_body, json_string_at, prepend, spec_hex4, unicode_escape, utf8_bytes, BACKSLASH,
    CR, NEWLINE, QUOTE, RBRACE, TAB,
};
use crate::deno::FRAME_CAP;

verus! {

/// Lower-case hex digit of a nibble.
pub open spec fn hex_lower(n: u8) -> u8 {
    if n < 10 {
        (0x30 + n) as u8
    } else {
        (0x61 + n - 10) as u8
    }
}

/// How one byte appears inside a JSON string literal: quote, backslash
/// and control characters escaped, everything else verbatim.
pub open spec fn escape_of(b: u8) -> Seq<u8> {
    if b == QUOTE {
        seq![BACKSLASH, QUOTE]
    } else if b == BACKSLASH {
        seq![BACKSLASH, BACKSLASH]
    } else if b == NEWLINE {
        seq![BACKSLASH, 0x6eu8]
    } else if b == CR {
        seq![BACKSLASH, 0x72u8]
    } else if b == TAB {
        seq![BACKSLASH, 0x74u8]
    } else if b == 0x08 {
        seq![BACKSLASH, 0x62u8]
    } else if b == 0x0c {
        seq![BACKSLASH, 0x66u8]
    } else if b <= 0x1f {
        seq![BACKSLASH, 0x75u8, 0x30u8, 0x30u8, hex_lower(b / 16), hex_lower(b % 16)]
    } else {
        seq![b]
    }
}

/// The escaped body of a JSON string literal for `s`.
pub open spec fn json_escape(s: Seq<u8>) -> Seq<u8>
    decreases s.len(),
{
    if s.len() == 0 {
        Seq::empty()
    } else {
        json_escape(s.drop_last()) + escape_of(s.last())
    }
}

/// The JSON string literal for `s`.
pub open spec fn json_quote(s: Seq<u8>) -> Seq<u8> {
    seq![QUOTE] + json_escape(s) + seq![QUOTE]
}

pub proof fn lemma_json_escape_concat(a: Seq<u8>, b: Seq<u8>)
    ensures
        json_escape(a + b) == json_escape(a) + json_escape(b),
    decreases b.len(),
{
    if b.len() == 0 {
        assert(a + b =~= a);
        assert(json_escape(a) + json_escape(b) =~= json_escape(a));
    } else {
        lemma_json_escape_concat(a, b.drop_last());
        assert((a + b).drop_last() =~= a + b.drop_last());
        assert(json_escape(a) + (json_escape(b.drop_last()) + escape_of(b.last())) =~= (
        json_escape(a) + json_escape(b.drop_last())) + escape_of(b.last()));
    }
}

proof fn lemma_json_escape_take_step(s: Seq<u8>, k: int)
    requires
        0 <= k < s.len(),
    ensures
        json_escape(s.take(k + 1)) == json_escape(s.take(k)) + escape_of(s[k]),
{
    assert(s.take(k + 1).drop_last() =~= s.take(k));
}

proof fn lemma_json_escape_take_len(s: Seq<u8>, k: int)
    requires
        0 <= k <= s.len(),
    ensures
        json_escape(s.take(k)).len() <= json_escape(s).len(),
    decreases s.len() - k,
{
    if k < s.len() {
        lemma_json_escape_take_len(s, k + 1);
        lemma_json_escape_take_step(s, k);
    } else {
        assert(s.take(k) =~= s);
    }
}

proof fn lemma_hex_lower(n: u8)
    requires
        n < 16,
    ensures
        hex_val(hex_lower(n)) == Some(n as u16),
{
}

/// Decoding one escaped byte followed by more input yields that byte.
proof fn lemma_decode_escape_of(buf: Seq<u8>, i: int, c: u8)
    requires
        0 <= i,
        i + escape_of(c).len() < buf.len(),
        buf.subrange(i, i + escape_of(c).len()) == escape_of(c),
    ensures
        json_body(buf, i) == prepend(seq![c], json_body(buf, i + escape_of(c).len())),
{
    let e = escape_of(c);
    assert(buf[i] == e[0]);
    if e.len() >= 2 {
        assert(buf[i + 1] == e[1]);
    }
    if c != QUOTE && c != BACKSLASH && c != NEWLINE && c != CR && c != TAB && c != 0x08 && c
        != 0x0c && c <= 0x1f {
        assert(buf[i + 2] == e[2]);
        assert(buf[i + 3] == e[3]);
        assert(buf[i + 4] == e[4]);
        assert(buf[i + 5] == e[5]);
        lemma_hex_lower(c / 16);
        lemma_hex_lower(c % 16);
        assert(buf.subrange(i + 2, i + 6) =~= seq![0x30u8, 0x30u8, hex_lower(c / 16), hex_lower(c % 16)]);
        assert(spec_hex4(buf.subrange(i + 2, i + 6)) == Some(c as u16));
        assert(unicode_escape(buf, i + 1) == Some((c as u32, i + 6)));
        assert(utf8_bytes(c as u32) =~= seq![c]);
    }
}

/// A literal produced by the encoder decodes back to exactly the encoded
/// bytes, for any bytes that follow it.
pub proof fn lemma_json_body_of_escape(buf: Seq<u8>, i: int, s: Seq<u8>)
    requires
        0 <= i,
        i + json_escape(s).len() < buf.len(),
        buf.subrange(i, i + json_escape(s).len()) == json_escape(s),
        buf[i + json_escape(s).len()] == QUOTE,
    ensures
        json_body(buf, i) == Some((s, i + json_escape(s).len() + 1)),
    decreases s.len(),
{
    if s.len() == 0 {
    } else {
        let c = s[0];
        let rest = s.drop_first();
        assert(s =~= seq![c] + rest);
        lemma_json_escape_concat(seq![c], rest);
        assert(json_escape(seq![c]) =~= escape_of(c)) by {
            assert(json_escape(Seq::<u8>::empty()) =~= Seq::<u8>::empty());
            assert(seq![c].drop_last() =~= Seq::<u8>::empty());
            assert(seq![c].last() == c);
            assert(Seq::<u8>::empty() + escape_of(c) =~= escape_of(c));
        }
        let el = escape_of(c).len() as int;
        let es = json_escape(s);
        assert(es == escape_of(c) + json_escape(rest));
        assert(es.subrange(0, el) =~= escape_of(c));
        assert(es.subrange(el, es.len() as int) =~= json_escape(rest));
        assert(buf.subrange(i, i + el) =~= json_escape(s).subrange(0, el));
        assert(buf.subrange(i + el, i + el + json_escape(rest).len()) =~= json_escape(s).subrange(
            el,
            json_escape(s).len() as int,
        ));
        lemma_decode_escape_of(buf, i, c);
        lemma_json_body_of_escape(buf, i + el, rest);
        assert(seq![c] + rest =~= s);
    }
}

/// Round trip: the decoder reads back exactly what `push_json_string`
/// encodes, whatever follows the literal.
pub proof fn lemma_json_string_roundtrip(s: Seq<u8>, tail: Seq<u8>)
    ensures
        json_string_at(json_quote(s) + tail, 0) == Some((s, json_quote(s).len() as int)),
{
    let buf = json_quote(s) + tail;
    let n = json_escape(s).len() as int;
    assert(buf.subrange(1, 1 + n) =~= json_escape(s));
    assert(buf[1 + n] == QUOTE);
    lemma_json_body_of_escape(buf, 1, s);
}

/// Fixed-capacity output buffer for one outgoing frame.
pub struct FrameWriter {
    buf: Vec<u8>,
}

impl FrameWriter {
    /// The bytes written so far.
    pub closed spec fn view(&self) -> Seq<u8> {
        self.buf@
    }

    pub closed spec fn wf(&self) -> bool {
        self.buf@.len() <= FRAME_CAP
    }

    pub fn new() -> (r: FrameWriter)
        ensures
            r.wf(),
            r.view() == Seq::<u8>::empty(),
    {
        FrameWriter { buf: Vec::new() }
    }

    pub fn reset(&mut self)
        ensures
            final(self).wf(),
            final(self).view() == Seq::<u8>::empty(),
    {
        self.buf = Vec::new();
    }

    pub fn len(&self) -> (r: usize)
        ensures
            r == self.view().len(),
    {
        self.buf.len()
    }

    pub fn push_byte(&mut self, b: u8) -> (r: Result<(), DenoRuntimeError>)
        requires
            old(self).wf(),
        ensures
            final(self).wf(),
            match r {
                Ok(()) => old(self).view().len() < FRAME_CAP && final(self).view() == old(
                    self,
                ).view().push(b),
                Err(e) => e == DenoRuntimeError::EncodeBufferFull && old(self).view().len()
                    >= FRAME_CAP && final(self).view() == old(self).view(),
            },
    {
        if self.buf.len() >= FRAME_CAP {
            return Err(DenoRuntimeError::EncodeBufferFull);
        }
        self.buf.push(b);
        Ok(())
    }

    pub fn push_bytes(&mut self, src: &[u8]) -> (r: Result<(), DenoRuntimeError>)
        requires
            old(self).wf(),
        ensures
            final(self).wf(),
            match r {
                Ok(()) => old(self).view().len() + src@.len() <= FRAME_CAP && final(self).view()
                    == old(self).view() + src@,
                Err(e) => e == DenoRuntimeError::EncodeBufferFull && old(self).view().len()
                    + src@.len() > FRAME_CAP && final(self).view() == old(self).view(),
            },
    {
        if src.len() > FRAME_CAP - self.buf.len() {
            return Err(DenoRuntimeError::EncodeBufferFull);
        }
        let mut k: usize = 0;
        while k < src.len()
            invariant
                k <= src@.len(),
                old(self).view().len() + src@.len() <= FRAME_CAP,
                self.buf@ == old(self).view() + src@.take(k as int),
            decreases src.len() - k,
        {
            self.buf.push(src[k]);
            assert(src@.take(k + 1) =~= src@.take(k as int).push(src@[k as int]));
            k = k + 1;
        }
        assert(src@.take(k as int) =~= src@);
        Ok(())
    }

    fn push_escaped(&mut self, b: u8) -> (r: Result<(), DenoRuntimeError>)
        requires
            old(self).wf(),
        ensures
            final(self).wf(),
            match r {
                Ok(()) => old(self).view().len() + escape_of(b).len() <= FRAME_CAP
                    && final(self).view() == old(self).view() + escape_of(b),
                Err(e) => e == DenoRuntimeError::EncodeBufferFull && old(self).view().len()
                    + escape_of(b).len() > FRAME_CAP && final(self).view() == old(self).view(),
            },
    {
        let mut chunk: Vec<u8> = Vec::new();
        if b == QUOTE {
            chunk.push(BACKSLASH);
            chunk.push(QUOTE);
        } else if b == BACKSLASH {
            chunk.push(BACKSLASH);
            chunk.push(BACKSLASH);
        } else if b == NEWLINE {
            chunk.push(BACKSLASH);
            chunk.push(0x6e);
        } else if b == CR {
            chunk.push(BACKSLASH);
            chunk.push(0x72);
        } else if b == TAB {
            chunk.push(BACKSLASH);
            chunk.push(0x74);
        } else if b == 0x08 {
            chunk.push(BACKSLASH);
            chunk.push(0x62);
        } else if b == 0x0c {
            chunk.push(BACKSLASH);
            chunk.push(0x66);
        } else if b <= 0x1f {
            let hi = b / 16;
            let lo = b % 16;
            chunk.push(BACKSLASH);
            chunk.push(0x75);
            chunk.push(0x30);
            chunk.push(0x30);
            chunk.push(if hi < 10 { 0x30 + hi } else { 0x61 + hi - 10 });
            chunk.push(if lo < 10 { 0x30 + lo } else { 0x61 + lo - 10 });
        } else {
            chunk.push(b);
        }
        assert(chunk@ =~= escape_of(b));
        self.push_bytes(chunk.as_slice())
    }

    /// Emits `src` as a JSON string literal.
    pub fn push_json_string(&mut self, src: &[u8]) -> (r: Result<(), DenoRuntimeError>)
        requires
            old(self).wf(),
        ensures
            final(self).wf(),
            old(self).view().is_prefix_of(final(self).view()),
            match r {
                Ok(()) => old(self).view().len() + json_quote(src@).len() <= FRAME_CAP
                    && final(self).view() == old(self).view() + json_quote(src@),
                Err(e) => e == DenoRuntimeError::EncodeBufferFull && old(self).view().len()
                    + json_quote(src@).len() > FRAME_CAP,
            },
    {
        let ghost start = self.view();
        proof {
            lemma_json_escape_take_len(src@, 0);
        }
        match self.push_byte(QUOTE) {
            Ok(()) => {},
            Err(e) => {
                return Err(e);
            },
        }
        assert(src@.take(0) =~= Seq::<u8>::empty());
        let mut k: usize = 0;
        while k < src.len()
            invariant
                self.wf(),
                k <= src@.len(),
                start == old(self).view(),
                self.view() == start + seq![QUOTE] + json_escape(src@.take(k as int)),
            decreases src.len() - k,
        {
            proof {
                lemma_json_escape_take_step(src@, k as int);
                lemma_json_escape_take_len(src@, k + 1);
            }
            let ghost before = self.view();
            match self.push_escaped(src[k]) {
                Ok(()) => {},
                Err(e) => {
                    assert(start.is_prefix_of(self.view())) by {
                        assert(self.view().subrange(0, start.len() as int) =~= start);
                    }
                    return Err(e);
                },
            }
            assert(self.view() =~= start + seq![QUOTE] + json_escape(src@.take(k + 1)));
            k = k + 1;
        }
        assert(src@.take(k as int) =~= src@);
        let ghost before = self.view();
        let r = self.push_byte(QUOTE);
        assert(start.is_prefix_of(self.view())) by {
            assert(self.view().subrange(0, start.len() as int) =~= start);
        }
        match r {
            Ok(()) => {
                assert(self.view() =~= start + json_quote(src@));
                Ok(())
            },
            Err(e) => Err(e),
        }
    }

    pub fn as_slice(&self) -> (r: &[u8])
        ensures
            r@ == self.view(),
    {
        self.buf.as_slice()
    }
}

pub open spec fn lint_prefix() -> Seq<u8> {
    "{\"op\":\"lint\",\"scope\":{\"workspace_root\":".spec_bytes()
}

pub open spec fn files_open() -> Seq<u8> {
    ",\"files\":[".spec_bytes()
}

pub open spec fn path_open() -> Seq<u8> {
    "{\"path\":".spec_bytes()
}

pub open spec fn language_open() -> Seq<u8> {
    ",\"language\":".spec_bytes()
}

pub open spec fn lint_suffix() -> Seq<u8> {
    "]}}".spec_bytes()
}

pub open spec fn shutdown_frame() -> Seq<u8> {
    "{\"op\":\"shutdown\"}".spec_bytes()
}

/// `{"path":<path>,"language":<language>}` for one file.
pub open spec fn file_json(f: FileEntry) -> Seq<u8> {
    path_open() + json_quote(f.path@) + language_open() + json_quote(f.language@) + seq![RBRACE]
}

/// The comma-separated file objects of the first `n` files.
pub open spec fn files_json(files: Seq<FileEntry>, n: int) -> Seq<u8>
    decreases n,
{
    if n <= 0 {
        Seq::empty()
    } else if n == 1 {
        file_json(files[0])
    } else {
        files_json(files, n - 1) + seq![0x2cu8] + file_json(files[n - 1])
    }
}

/// The complete `lint` request frame for a scope.
pub open spec fn lint_request(root: Seq<u8>, files: Seq<FileEntry>) -> Seq<u8> {
    lint_prefix() + json_quote(root) + files_open() + files_json(files, files.len() as int)
        + lint_suffix()
}

proof fn lemma_files_json_step(files: Seq<FileEntry>, i: int)
    requires
        0 <= i < files.len(),
    ensures
        files_json(files, i + 1) == files_json(files, i) + (if i > 0 {
            seq![0x2cu8]
        } else {
            Seq::<u8>::empty()
        }) + file_json(files[i]),
{
    if i == 0 {
        assert(files_json(files, 1) =~= Seq::<u8>::empty() + Seq::<u8>::empty() + file_json(
            files[0],
        ));
    }
}

proof fn lemma_files_json_len_mono(files: Seq<FileEntry>, i: int, n: int)
    requires
        0 <= i <= n <= files.len(),
    ensures
        files_json(files, i).len() <= files_json(files, n).len(),
    decreases n - i,
{
    if i < n {
        lemma_files_json_step(files, i);
        lemma_files_json_len_mono(files, i + 1, n);
    }
}

proof fn lemma_frame_literals()
    ensures
        files_open() == seq![0x2cu8, 0x22, 0x66, 0x69, 0x6c, 0x65, 0x73, 0x22, 0x3a, 0x5b],
        lint_suffix() == seq![0x5du8, 0x7d, 0x7d],
{
    reveal_strlit(",\"files\":[");
    reveal_strlit("]}}");
    broadcast use vstd::string::group_string_axioms;
    assert(vstd::string::is_ascii(",\"files\":["));
    assert(vstd::string::is_ascii("]}}"));
    assert(files_open() =~= seq![0x2cu8, 0x22, 0x66, 0x69, 0x6c, 0x65, 0x73, 0x22, 0x3a, 0x5b]);
    assert(lint_suffix() =~= seq![0x5du8, 0x7d, 0x7d]);
}

/// The first `k` file objects depend on the first `k` files alone.
proof fn lemma_files_json_prefix(files: Seq<FileEntry>, f: FileEntry, k: int)
    requires
        0 <= k <= files.len(),
    ensures
        files_json(files.push(f), k) == files_json(files, k),
    decreases k,
{
    if k > 1 {
        lemma_files_json_prefix(files, f, k - 1);
        assert(files.push(f)[k - 1] == files[k - 1]);
    } else if k == 1 {
        assert(files.push(f)[0] == files[0]);
    }
}

/// Every `lint` frame, whatever the scope (an empty file list included),
/// opens the object with the workspace root and closes the files array and
/// both objects with `]}}`.
pub proof fn lemma_lint_request_closed(root: Seq<u8>, files: Seq<FileEntry>)
    ensures
        ({
            let r = lint_request(root, files);
            let head = lint_prefix() + json_quote(root) + files_open();
            &&& r.len() >= head.len() + 3
            &&& r.subrange(0, head.len() as int) == head
            &&& r.subrange(r.len() - 3, r.len() as int) == seq![0x5du8, 0x7d, 0x7d]
        }),
{
    lemma_frame_literals();
    let r = lint_request(root, files);
    let head = lint_prefix() + json_quote(root) + files_open();
    let body = files_json(files, files.len() as int);
    assert(r == head + body + lint_suffix());
    assert(r.subrange(0, head.len() as int) =~= head);
    assert(r.subrange(r.len() - 3, r.len() as int) =~= lint_suffix());
}

/// With no files the frame is the root followed by an empty files array:
/// `...,"files":[]}}`.
pub proof fn lemma_lint_request_no_files(root: Seq<u8>)
    ensures
        lint_request(root, Seq::empty()) == lint_prefix() + json_quote(root) + seq![
            0x2cu8,
            0x22,
            0x66,
            0x69,
            0x6c,
            0x65,
            0x73,
            0x22,
            0x3a,
            0x5b,
            0x5d,
            0x7d,
            0x7d,
        ],
{
    lemma_frame_literals();
    let e = Seq::<FileEntry>::empty();
    assert(files_json(e, 0) =~= Seq::<u8>::empty());
    assert(lint_request(root, e) =~= lint_prefix() + json_quote(root) + seq![
        0x2cu8,
        0x22,
        0x66,
        0x69,
        0x6c,
        0x65,
        0x73,
        0x22,
        0x3a,
        0x5b,
        0x5d,
        0x7d,
        0x7d,
    ]);
}

/// One more file in the scope puts its object, after a comma where others
/// precede it, just before the closing `]}}` of the frame; nothing else
/// changes.
pub proof fn lemma_lint_request_push(root: Seq<u8>, files: Seq<FileEntry>, f: FileEntry)
    ensures
        ({
            let r = lint_request(root, files);
            lint_request(root, files.push(f)) == r.subrange(0, r.len() - 3) + (if files.len()
                > 0 {
                seq![0x2cu8]
            } else {
                Seq::<u8>::empty()
            }) + file_json(f) + seq![0x5du8, 0x7d, 0x7d]
        }),
{
    lemma_frame_literals();
    let n = files.len() as int;
    let g = files.push(f);
    let head = lint_prefix() + json_quote(root) + files_open();
    let r = lint_request(root, files);
    lemma_files_json_prefix(files, f, n);
    lemma_files_json_step(g, n);
    assert(g[n] == f);
    assert(r == head + files_json(files, n) + lint_suffix());
    assert(r.subrange(0, r.len() - 3) =~= head + files_json(files, n));
    let sep = if n > 0 {
        seq![0x2cu8]
    } else {
        Seq::<u8>::empty()
    };
    assert(files_json(g, n + 1) == files_json(files, n) + sep + file_json(f));
    assert(lint_request(root, g) =~= head + files_json(files, n) + sep + file_json(f)
        + seq![0x5du8, 0x7d, 0x7d]);
}

/// The workspace root is read back from every `lint` frame: the JSON
/// string right after the frame's opening decodes to exactly the root.
pub proof fn lemma_lint_request_root_reads_back(root: Seq<u8>, files: Seq<FileEntry>)
    ensures
        json_string_at(lint_request(root, files), lint_prefix().len() as int) == Some(
            (root, (lint_prefix().len() + json_quote(root).len()) as int),
        ),
{
    let buf = lint_request(root, files);
    let p = lint_prefix().len() as int;
    let n = json_escape(root).len() as int;
    let rest = files_open() + files_json(files, files.len() as int) + lint_suffix();
    assert(buf =~= lint_prefix() + json_quote(root) + rest);
    assert(buf[p] == QUOTE);
    assert(buf.subrange(p + 1, p + 1 + n) =~= json_escape(root));
    assert(buf[p + 1 + n] == QUOTE);
    lemma_json_body_of_escape(buf, p + 1, root);
}

/// Appends the `lint` request for `scope`: its workspace root and, for each
/// file, its path and language.
pub fn build_lint_request(fw: &mut FrameWriter, scope: &RunScope) -> (r: Result<
    (),
    DenoRuntimeError,
>)
    requires
        old(fw).wf(),
    ensures
        final(fw).wf(),
        match r {
            Ok(()) => final(fw).view() == old(fw).view() + lint_request(
                scope.workspace_root@,
                scope.files@,
            ),
            Err(e) => e == DenoRuntimeError::EncodeBufferFull && old(fw).view().len()
                + lint_request(scope.workspace_root@, scope.files@).len() > FRAME_CAP,
        },
{
    let ghost start = fw.view();
    let ghost total = lint_request(scope.workspace_root@, scope.files@);
    let ghost n = scope.files@.len() as int;
    proof {
        lemma_files_json_len_mono(scope.files@, 0, n);
    }
    let r = fw.push_bytes("{\"op\":\"lint\",\"scope\":{\"workspace_root\":".as_bytes());
    if r.is_err() {
        return r;
    }
    let r = fw.push_json_string(scope.workspace_root.as_slice());
    if r.is_err() {
        return r;
    }
    let r = fw.push_bytes(",\"files\":[".as_bytes());
    if r.is_err() {
        return r;
    }
    let ghost head = fw.view();
    assert(head =~= start + lint_prefix() + json_quote(scope.workspace_root@) + files_open());
    assert(files_json(scope.files@, 0) =~= Seq::<u8>::empty());
    assert(head + files_json(scope.files@, 0) =~= head);
    let mut i: usize = 0;
    while i < scope.files.len()
        invariant
            fw.wf(),
            i <= scope.files@.len(),
            n == scope.files@.len(),
            start == old(fw).view(),
            head == start + lint_prefix() + json_quote(scope.workspace_root@) + files_open(),
            total == lint_request(scope.workspace_root@, scope.files@),
            fw.view() == head + files_json(scope.files@, i as int),
        decreases scope.files.len() - i,
    {
        let f = &scope.files[i];
        proof {
            lemma_files_json_step(scope.files@, i as int);
            lemma_files_json_len_mono(scope.files@, i + 1, n);
        }
        assert(total.len() == lint_prefix().len() + json_quote(scope.workspace_root@).len()
            + files_open().len() + files_json(scope.files@, n).len() + lint_suffix().len());
        let ghost before = fw.view();
        if i > 0 {
            let r = fw.push_byte(0x2c);
            if r.is_err() {
                return r;
            }
        }
        let ghost sep_done = fw.view();
        let r = fw.push_bytes("{\"path\":".as_bytes());
        if r.is_err() {
            return r;
        }
        let r = fw.push_json_string(f.path.as_slice());
        if r.is_err() {
            return r;
        }
        let r = fw.push_bytes(",\"language\":".as_bytes());
        if r.is_err() {
            return r;
        }
        let r = fw.push_json_string(f.language.as_slice());
        if r.is_err() {
            return r;
        }
        let r = fw.push_byte(RBRACE);
        if r.is_err() {
            return r;
        }
        assert(fw.view() =~= head + files_json(scope.files@, i + 1));
        i = i + 1;
    }
    let r = fw.push_bytes("]}}".as_bytes());
    assert(files_json(scope.files@, i as int) == files_json(scope.files@, n));
    if r.is_ok() {
        assert(fw.view() =~= start + total);
    }
    r
}

/// Appends the `shutdown` request.
pub fn build_shutdown_request(fw: &mut FrameWriter) -> (r: Result<(), DenoRuntimeError>)
    requires
        old(fw).wf(),
    ensures
        final(fw).wf(),
        match r {
            Ok(()) => final(fw).view() == old(fw).view() + shutdown_frame(),
            Err(e) => e == DenoRuntimeError::EncodeBufferFull && old(fw).view().len()
                + shutdown_frame().len() > FRAME_CAP,
        },
{
    fw.push_bytes("{\"op\":\"shutdown\"}".as_bytes())
}

} // verus!
