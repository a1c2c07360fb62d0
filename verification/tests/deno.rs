use viola::abi::{DiagnosticSeverity, FileEntry, RunScope, RunSurface};
use viola::deno::arena::{Arena, Span};
use viola::deno::encoder::{build_lint_request, build_shutdown_request, FrameWriter};
use viola::deno::error::DenoRuntimeError;
use viola::deno::json::{
    decode_hex4, encode_utf8, find_key, find_key_at_depth, parse_json_string, parse_json_u32,
    parse_message, skip_ws, trim_ws, ParsedMessage,
};
use viola::deno::lines::{drain_to_newline, line_chunk_step, LineStatus};
use viola::deno::path::{bridge_temp_path, write_u32_dec, PathBuf64};
use viola::deno::providers::{DenoRuntimeExtension, GrammarProvider, InitImpl, RunnerProvider};
use viola::deno::worker::{
    begin_lint, config_path_text, evaluate_status, lint_line_step, severity_from_bytes,
    EvaluateEnd, LintProgress,
};
use viola::deno::{LINE_CAP, PATH_CAP};

#[test]
fn whitespace_helpers() {
    assert_eq!(skip_ws(b"  \t\nx", 0), 4);
    assert_eq!(skip_ws(b"abc", 1), 1);
    assert_eq!(skip_ws(b"   ", 0), 3);
    assert_eq!(trim_ws(b" \r\n{\"done\":true}\n "), b"{\"done\":true}");
    assert_eq!(trim_ws(b"   "), b"");
}

#[test]
fn json_string_escapes_decode() {
    let mut out = vec![0u8; 32];
    let r = parse_json_string(br#""a\"b\\c\n\u00e9""#, 0, &mut out).unwrap();
    assert_eq!(&out[..r.0], "a\"b\\c\né".as_bytes());
    assert_eq!(r.1, 17);
}

#[test]
fn json_string_errors() {
    let mut out = vec![0u8; 4];
    assert_eq!(parse_json_string(b"\"abc", 0, &mut out), Err(DenoRuntimeError::DecodeMalformed));
    assert_eq!(parse_json_string(b"abc\"", 0, &mut out), Err(DenoRuntimeError::DecodeMalformed));
    // Five bytes do not fit a four-byte buffer.
    assert_eq!(parse_json_string(b"\"abcde\"", 0, &mut out), Err(DenoRuntimeError::DecodeMalformed));
    assert_eq!(parse_json_string(b"\"\\q\"", 0, &mut out), Err(DenoRuntimeError::DecodeMalformed));
}

#[test]
fn json_u32_and_overflow() {
    assert_eq!(parse_json_u32(b"4294967295,", 0), Ok((4294967295, 10)));
    assert_eq!(parse_json_u32(b"4294967296", 0), Err(DenoRuntimeError::DecodeMalformed));
    assert_eq!(parse_json_u32(b"x", 0), Err(DenoRuntimeError::DecodeMalformed));
    assert_eq!(parse_json_u32(b"[12]", 1), Ok((12, 3)));
}

#[test]
fn hex_and_utf8() {
    assert_eq!(decode_hex4(b"00E9"), Some(0xe9));
    assert_eq!(decode_hex4(b"00g9"), None);
    let mut out = vec![0u8; 4];
    assert_eq!(encode_utf8(0x20ac, &mut out, 0), Some(3));
    assert_eq!(&out[..3], "€".as_bytes());
    assert_eq!(encode_utf8(0x41, &mut out, 3), Some(4));
    assert_eq!(out[3], b'A');
    assert_eq!(encode_utf8(0x20ac, &mut out, 2), None);
}

#[test]
fn key_lookup_respects_depth() {
    let buf = br#"{"a":{"b":1},"b":2}"#;
    let at = find_key(buf, b"b").unwrap();
    assert_eq!(&buf[at..at + 1], b"2");
    let nested = find_key_at_depth(buf, b"b", 1).unwrap();
    assert_eq!(&buf[nested..nested + 1], b"1");
    assert_eq!(find_key(buf, b"zz"), None);
    // A key inside a string value does not count.
    assert_eq!(find_key(br#"{"x":"\"k\":1"}"#, b"k"), None);
}

#[test]
fn parse_message_kinds() {
    assert!(matches!(parse_message(b"{\"done\":true}"), Ok(ParsedMessage::Done)));
    assert!(matches!(parse_message(b"{\"err\":\"boom\"}"), Ok(ParsedMessage::Error)));
    assert!(matches!(parse_message(b"{\"done\":false}"), Err(DenoRuntimeError::DecodeMalformed)));
    assert!(matches!(parse_message(b"{}"), Err(DenoRuntimeError::DecodeMalformed)));
    let line = br#"{"diag":{"plugin_id":"p","rule_id":"r","severity":"warn","message":"m","path":"a.ts","line":3,"column":7}}"#;
    match parse_message(line) {
        Ok(ParsedMessage::Diag(d)) => {
            assert_eq!(&d.plugin_id[..d.plugin_id_len], b"p");
            assert_eq!(&d.severity[..d.severity_len], b"warn");
            assert_eq!(&d.path[..d.path_len], b"a.ts");
            assert_eq!((d.line, d.column), (3, 7));
        }
        _ => panic!("expected a diagnostic"),
    }
}

fn scope(root: &[u8], files: &[(&[u8], &[u8])]) -> RunScope {
    RunScope {
        workspace_root: root.to_vec(),
        files: files
            .iter()
            .map(|(p, l)| FileEntry { path: p.to_vec(), language: l.to_vec(), hash: Vec::new(), size_bytes: 0 })
            .collect(),
        surface: RunSurface::Cli(),
        ci: 0,
    }
}

#[test]
fn lint_request_frame() {
    let mut fw = FrameWriter::new();
    build_lint_request(&mut fw, &scope(b"/w", &[(b"a\"b.ts", b"ts"), (b"c.rs", b"rust")])).unwrap();
    assert_eq!(
        fw.as_slice(),
        br#"{"op":"lint","scope":{"workspace_root":"/w","files":[{"path":"a\"b.ts","language":"ts"},{"path":"c.rs","language":"rust"}]}}"#
    );
    let mut fw = FrameWriter::new();
    build_shutdown_request(&mut fw).unwrap();
    assert_eq!(fw.as_slice(), br#"{"op":"shutdown"}"#);
}

#[test]
fn control_bytes_escape_and_round_trip() {
    let mut fw = FrameWriter::new();
    fw.push_json_string(b"\x01\n\"").unwrap();
    assert_eq!(fw.as_slice(), b"\"\\u0001\\n\\\"\"");
    let mut out = vec![0u8; 8];
    let (n, end) = parse_json_string(fw.as_slice(), 0, &mut out).unwrap();
    assert_eq!(&out[..n], b"\x01\n\"");
    assert_eq!(end, fw.len());
}

#[test]
fn arena_intern_resolve() {
    let mut a = Arena::new();
    let s1 = a.intern(b"abc").unwrap();
    let s2 = a.intern(b"").unwrap();
    let s3 = a.intern(b"de").unwrap();
    assert_eq!(s1, Span { start: 0, len: 3 });
    assert_eq!(s2, Span { start: 0, len: 0 });
    assert_eq!(s3, Span { start: 3, len: 2 });
    assert_eq!(a.resolve(s1), b"abc");
    assert_eq!(a.resolve(s3), b"de");
    assert_eq!(a.as_bytes(), b"abcde");
    a.clear();
    assert_eq!(a.diag_count(), 0);
    assert!(a.as_bytes().is_empty());
}

#[test]
fn lint_lines_fill_the_arena() {
    let mut a = Arena::new();
    let mut fw = FrameWriter::new();
    begin_lint(&mut a, &mut fw, &scope(b"", &[])).unwrap();
    assert_eq!(lint_line_step(&mut a, b"\n"), Ok(LintProgress::Continue));
    let line = br#"{"diag":{"plugin_id":"p","rule_id":"r1","severity":"warning","message":"hi","path":"x.ts","line":2,"column":5}}"#;
    assert_eq!(lint_line_step(&mut a, line), Ok(LintProgress::Continue));
    assert_eq!(a.diag_count(), 1);
    let d = a.diagnostics()[0];
    assert_eq!(d.severity, DiagnosticSeverity::Warn);
    assert_eq!(a.resolve(d.plugin_id), b"p");
    assert_eq!(a.resolve(d.rule_id), b"r1");
    assert_eq!(a.resolve(d.message), b"hi");
    assert_eq!(a.resolve(d.path), b"x.ts");
    assert_eq!((d.range.start.line, d.range.start.column), (2, 5));
    assert_eq!(d.range.start, d.range.end);
    assert_eq!(lint_line_step(&mut a, b"{\"done\":true}\n"), Ok(LintProgress::Done));
}

#[test]
fn lint_line_errors() {
    let mut a = Arena::new();
    assert_eq!(lint_line_step(&mut a, b""), Err(DenoRuntimeError::WorkerEofUnexpected));
    assert_eq!(lint_line_step(&mut a, b"{\"err\":\"x\"}"), Err(DenoRuntimeError::WorkerReportedError));
    assert_eq!(lint_line_step(&mut a, b"garbage"), Err(DenoRuntimeError::DecodeMalformed));
    let bad = br#"{"diag":{"severity":"fatal"}}"#;
    assert_eq!(lint_line_step(&mut a, bad), Err(DenoRuntimeError::BadSeverity));
    assert_eq!(a.diag_count(), 0);
}

#[test]
fn severity_words() {
    assert_eq!(severity_from_bytes(b"info"), Some(DiagnosticSeverity::Info));
    assert_eq!(severity_from_bytes(b"error"), Some(DiagnosticSeverity::Error));
    assert_eq!(severity_from_bytes(b"warn"), Some(DiagnosticSeverity::Warn));
    assert_eq!(severity_from_bytes(b"warning"), Some(DiagnosticSeverity::Warn));
    assert_eq!(severity_from_bytes(b"Warn"), None);
}

#[test]
fn config_path_checks() {
    assert_eq!(config_path_text(b"viola.config.ts"), Ok("viola.config.ts"));
    assert_eq!(config_path_text(b""), Err(DenoRuntimeError::ConfigBytesEmpty));
    assert_eq!(config_path_text(&[0xc3]), Err(DenoRuntimeError::ConfigNotUtf8));
}

#[test]
fn line_chunks() {
    let mut buf = vec![0u8; 4];
    assert_eq!(line_chunk_step(b"ab", &mut buf, 0), (2, LineStatus::NeedMore));
    assert_eq!(line_chunk_step(b"c\nzz", &mut buf, 2), (2, LineStatus::Complete));
    assert_eq!(&buf[..], b"abc\n");
    let mut small = vec![0u8; 3];
    assert_eq!(line_chunk_step(b"abcdef\n", &mut small, 0), (3, LineStatus::Overflow));
    assert_eq!(&small[..], b"abc");
    assert_eq!(drain_to_newline(b"def\nnext"), (4, true));
    assert_eq!(drain_to_newline(b"defg"), (4, false));
    assert_eq!(drain_to_newline(b""), (0, false));
    assert!(LINE_CAP > 0);
}

#[test]
fn decimal_and_paths() {
    let mut buf = vec![b'x'; 12];
    assert_eq!(write_u32_dec(&mut buf, 0), 1);
    assert_eq!(&buf[..2], b"0x");
    assert_eq!(write_u32_dec(&mut buf, 4294967295), 10);
    assert_eq!(&buf[..10], b"4294967295");
    let mut tiny = vec![0u8; 2];
    assert_eq!(write_u32_dec(&mut tiny, 123), 0);
    assert_eq!(tiny, vec![0, 0]);

    let p = bridge_temp_path(b"/tmp/", 42).unwrap();
    assert_eq!(p.as_bytes(), b"/tmp/viola-deno-bridge-42.ts");
    let p = bridge_temp_path(b"/var/t", 7).unwrap();
    assert_eq!(p.as_bytes(), b"/var/t/viola-deno-bridge-7.ts");
    assert_eq!(bridge_temp_path(&[0xff], 1).err(), Some(DenoRuntimeError::TempDirNotUtf8));
    let long = vec![b'a'; PATH_CAP];
    assert_eq!(bridge_temp_path(&long, 1).err(), Some(DenoRuntimeError::ConfigPathTooLong));

    assert_eq!(PathBuf64::from_str("abc").unwrap().len(), 3);
    assert_eq!(PathBuf64::empty().len(), 0);
}

#[test]
fn error_labels() {
    assert_eq!(DenoRuntimeError::BadSeverity.label(), "unknown severity from worker");
    assert_eq!(DenoRuntimeError::ConfigBytesEmpty.label(), "lint_config bytes empty (no [ts].config provided)");
    assert_eq!(DenoRuntimeError::TempDirNotUtf8.label(), "temp dir not UTF-8");
}

#[test]
fn providers_of_the_runtime() {
    let nam = RunnerProvider::execute_scope(&scope(b"", &[]));
    assert_eq!((nam.version.major, nam.version.minor, nam.version.patch), (1, 0, 0));
    assert!(nam.entries.is_none());
    let f = FileEntry { path: b"a".to_vec(), language: Vec::new(), hash: Vec::new(), size_bytes: 1 };
    assert!(GrammarProvider::extract(&f, b"src").entries.is_none());
    assert_eq!(DenoRuntimeExtension::providers().len(), 3);
    assert_eq!(DenoRuntimeExtension::name(), "org.viola.deno.runtime");
    assert_eq!(InitImpl::init(), viola::abi::AbiStatus::Success);
}

#[test]
fn oversized_frame_is_refused() {
    let mut fw = FrameWriter::new();
    let root = vec![b'r'; 70 * 1024];
    assert_eq!(
        build_lint_request(&mut fw, &scope(&root, &[])),
        Err(DenoRuntimeError::EncodeBufferFull)
    );
}

fn diag_line(message: &str) -> Vec<u8> {
    format!(
        "{{\"diag\":{{\"plugin_id\":\"p\",\"rule_id\":\"r\",\"severity\":\"info\",\"message\":\"{message}\",\"path\":\"f\",\"line\":1,\"column\":0}}}}"
    )
    .into_bytes()
}

#[test]
fn arena_record_slots_run_out() {
    let mut a = Arena::new();
    let line = diag_line("m");
    for _ in 0..viola::deno::MAX_DIAGS {
        assert_eq!(lint_line_step(&mut a, &line), Ok(LintProgress::Continue));
    }
    assert_eq!(lint_line_step(&mut a, &line), Err(DenoRuntimeError::ArenaDiagsFull));
    assert_eq!(a.diag_count(), viola::deno::MAX_DIAGS);
}

#[test]
fn arena_bytes_run_out() {
    let mut a = Arena::new();
    let line = diag_line(&"x".repeat(500));
    let mut accepted = 0usize;
    loop {
        match lint_line_step(&mut a, &line) {
            Ok(LintProgress::Continue) => accepted += 1,
            Err(e) => {
                assert_eq!(e, DenoRuntimeError::ArenaBytesFull);
                break;
            }
            Ok(LintProgress::Done) => panic!("not a done line"),
        }
    }
    // Each record interns 503 bytes: "p", "r", the message and "f".
    assert_eq!(accepted, viola::deno::ARENA_BYTES / 503);
    assert_eq!(a.diag_count(), accepted);
}

#[test]
fn overflow_then_drain_resumes_at_next_line() {
    let chunk = b"0123456789\nnext line\n";
    let mut buf = vec![0u8; 4];
    let (consumed, status) = line_chunk_step(chunk, &mut buf, 0);
    assert_eq!((consumed, status), (4, LineStatus::Overflow));
    let (drained, saw) = drain_to_newline(&chunk[consumed..]);
    assert!(saw);
    assert_eq!(consumed + drained, 11);
    assert_eq!(&chunk[consumed + drained..], b"next line\n");
}

#[test]
fn evaluate_statuses() {
    assert_eq!(evaluate_status(EvaluateEnd::OutputMissing), viola::abi::AbiStatus::InvalidArg);
    assert_eq!(evaluate_status(EvaluateEnd::ConfigRejected), viola::abi::AbiStatus::InitFailed);
    assert_eq!(evaluate_status(EvaluateEnd::WorkerUnavailable), viola::abi::AbiStatus::InitFailed);
    assert_eq!(evaluate_status(EvaluateEnd::PassFailed), viola::abi::AbiStatus::Internal);
    assert_eq!(evaluate_status(EvaluateEnd::Finished), viola::abi::AbiStatus::Success);
}

#[test]
fn bytes_full_keeps_the_fields_that_fit() {
    let mut a = Arena::new();
    let filler = diag_line(&"x".repeat(500));
    let mut accepted = 0usize;
    while lint_line_step(&mut a, &filler).is_ok() {
        accepted += 1;
    }
    // The failing line interned "p" and "r" before its message did not fit.
    assert_eq!(a.as_bytes().len(), accepted * 503 + 2);
    assert_eq!(a.diag_count(), accepted);
}
