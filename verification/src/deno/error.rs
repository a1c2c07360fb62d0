use vstd::prelude::*;

verus! {

/// Failure points of the deno-backed runtime; each maps to one label.
#[derive(Copy, Clone, Debug, PartialEq, Eq)]
pub enum DenoRuntimeError {
    BridgeWriteFailed,
    SpawnDenoFailed,
    NoStdin,
    NoStdout,
    ConfigBytesEmpty,
    ConfigNotUtf8,
    ConfigCanonicalizeFailed,
    ConfigPathTooLong,
    WriteWorkerFailed,
    ReadWorkerFailed,
    WorkerEofUnexpected,
    WorkerStdinClosed,
    EncodeBufferFull,
    DecodeMalformed,
    WorkerReportedError,
    ArenaBytesFull,
    ArenaDiagsFull,
    LineTooLong,
    BadSeverity,
    TempNameOverflow,
    TempDirNotUtf8,
}

/// The human-readable label of each failure point.
pub open spec fn spec_label(e: DenoRuntimeError) -> Seq<char> {
    match e {
        DenoRuntimeError::BridgeWriteFailed => "bridge.ts write failed"@,
        DenoRuntimeError::SpawnDenoFailed => "spawn deno failed"@,
        DenoRuntimeError::NoStdin => "no stdin pipe"@,
        DenoRuntimeError::NoStdout => "no stdout pipe"@,
        DenoRuntimeError::ConfigBytesEmpty => "lint_config bytes empty (no [ts].config provided)"@,
        DenoRuntimeError::ConfigNotUtf8 => "config path not UTF-8"@,
        DenoRuntimeError::ConfigCanonicalizeFailed => "canonicalize config path failed"@,
        DenoRuntimeError::ConfigPathTooLong => "config path too long for stack buffer"@,
        DenoRuntimeError::WriteWorkerFailed => "write to worker failed"@,
        DenoRuntimeError::ReadWorkerFailed => "read from worker failed"@,
        DenoRuntimeError::WorkerEofUnexpected => "worker closed stdout unexpectedly"@,
        DenoRuntimeError::WorkerStdinClosed => "worker stdin already closed"@,
        DenoRuntimeError::EncodeBufferFull => "encode buffer full"@,
        DenoRuntimeError::DecodeMalformed => "decode worker message malformed"@,
        DenoRuntimeError::WorkerReportedError => "worker reported error"@,
        DenoRuntimeError::ArenaBytesFull => "diagnostic arena byte buffer full"@,
        DenoRuntimeError::ArenaDiagsFull => "diagnostic arena diag slots full"@,
        DenoRuntimeError::LineTooLong => "worker stdout line exceeds line buffer"@,
        DenoRuntimeError::BadSeverity => "unknown severity from worker"@,
        DenoRuntimeError::TempNameOverflow => "temp file name overflow"@,
        DenoRuntimeError::TempDirNotUtf8 => "temp dir not UTF-8"@,
    }
}

impl DenoRuntimeError {
    pub fn label(&self) -> (r: &'static str)
        ensures
            r@ == spec_label(*self),
    {
        match self {
            DenoRuntimeError::BridgeWriteFailed => "bridge.ts write failed",
            DenoRuntimeError::SpawnDenoFailed => "spawn deno failed",
            DenoRuntimeError::NoStdin => "no stdin pipe",
            DenoRuntimeError::NoStdout => "no stdout pipe",
            DenoRuntimeError::ConfigBytesEmpty => "lint_config bytes empty (no [ts].config provided)",
            DenoRuntimeError::ConfigNotUtf8 => "config path not UTF-8",
            DenoRuntimeError::ConfigCanonicalizeFailed => "canonicalize config path failed",
            DenoRuntimeError::ConfigPathTooLong => "config path too long for stack buffer",
            DenoRuntimeError::WriteWorkerFailed => "write to worker failed",
            DenoRuntimeError::ReadWorkerFailed => "read from worker failed",
            DenoRuntimeError::WorkerEofUnexpected => "worker closed stdout unexpectedly",
            DenoRuntimeError::WorkerStdinClosed => "worker stdin already closed",
            DenoRuntimeError::EncodeBufferFull => "encode buffer full",
            DenoRuntimeError::DecodeMalformed => "decode worker message malformed",
            DenoRuntimeError::WorkerReportedError => "worker reported error",
            DenoRuntimeError::ArenaBytesFull => "diagnostic arena byte buffer full",
            DenoRuntimeError::ArenaDiagsFull => "diagnostic arena diag slots full",
            DenoRuntimeError::LineTooLong => "worker stdout line exceeds line buffer",
            DenoRuntimeError::BadSeverity => "unknown severity from worker",
            DenoRuntimeError::TempNameOverflow => "temp file name overflow",
            DenoRuntimeError::TempDirNotUtf8 => "temp dir not UTF-8",
        }
    }
}

} // verus!
