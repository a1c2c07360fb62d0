//! Decisions of the `viola-cli` host executable: argument parsing, the
//! pass-through to the TS CLI, config error reports, and the stderr
//! drain loop. Arguments are the process's argv entries as bytes with
//! their terminating NUL.

use vstd::prelude::*;
use vstd::string::StringSliceAdditionalSpecFns;
use crate::config::error::ConfigError;
use crate::decimal::{dec_digits, usize_digits};

verus! {

pub const EXIT_OK: i32 = 0;
pub const EXIT_CONFIG: i32 = 2;
pub const EXIT_PLUGIN: i32 = 3;
/// "command not found": the pass-through could not exec deno.
pub const EXIT_EXEC: i32 = 127;

/// Longest argument the host reads, terminating NUL included.
pub const MAX_PATH_BYTES: usize = 4096;
/// argv slots of the pass-through command, the closing NULL included.
pub const MAX_PASSTHROUGH_ARGS: usize = 64;
/// Leading argv entries of the pass-through command.
pub const PASSTHROUGH_PREFIX: usize = 4;

pub open spec fn default_config_path() -> Seq<u8> {
    "./viola.toml\0".spec_bytes()
}

pub open spec fn gate_flag() -> Seq<u8> {
    "--gate".spec_bytes()
}

/// `s` without one trailing NUL.
pub open spec fn strip_nul(s: Seq<u8>) -> Seq<u8> {
    if s.len() > 0 && s.last() == 0 {
        s.drop_last()
    } else {
        s
    }
}

/// Parsed command line: the config path (NUL-terminated as given, or the
/// default), the `--gate` value without its NUL, and whether `--gate` was
/// the last argument and so had no value.
pub struct ParsedArgs {
    pub config_path: Vec<u8>,
    pub gate: Option<Vec<u8>>,
    pub gate_value_missing: bool,
}

pub struct ArgsView {
    pub config_path: Seq<u8>,
    pub gate: Option<Seq<u8>>,
    pub config_seen: bool,
    pub gate_value_missing: bool,
}

impl ParsedArgs {
    pub open spec fn view(&self) -> (Seq<u8>, Option<Seq<u8>>, bool) {
        (
            self.config_path@,
            match self.gate {
                Some(g) => Some(g@),
                None => None,
            },
            self.gate_value_missing,
        )
    }
}

/// Each argv entry's bytes; `None` for an entry that could not be read.
pub open spec fn arg_views(args: Seq<Option<Vec<u8>>>) -> Seq<Option<Seq<u8>>> {
    args.map_values(
        |o: Option<Vec<u8>>|
            match o {
                Some(v) => Some(v@),
                None => None,
            },
    )
}

/// Argument parsing from position `i` on: `--gate` takes the next entry
/// as its value (a trailing `--gate` stops parsing and is reported); the
/// first other entry is the config path and later ones are ignored;
/// unreadable entries are skipped.
pub open spec fn args_from(args: Seq<Option<Seq<u8>>>, i: int, st: ArgsView) -> ArgsView
    decreases args.len() - i,
{
    if i < 0 || i >= args.len() {
        st
    } else {
        match args[i] {
            None => args_from(args, i + 1, st),
            Some(a) => if strip_nul(a) == gate_flag() {
                if i + 1 >= args.len() {
                    ArgsView { gate_value_missing: true, ..st }
                } else {
                    match args[i + 1] {
                        Some(v) => args_from(args, i + 2, ArgsView { gate: Some(strip_nul(v)), ..st }),
                        None => args_from(args, i + 2, st),
                    }
                }
            } else if !st.config_seen {
                args_from(args, i + 1, ArgsView { config_path: a, config_seen: true, ..st })
            } else {
                args_from(args, i + 1, st)
            },
        }
    }
}

pub open spec fn spec_parse_args(args: Seq<Option<Seq<u8>>>) -> ArgsView {
    args_from(
        args,
        1,
        ArgsView {
            config_path: default_config_path(),
            gate: None,
            config_seen: false,
            gate_value_missing: false,
        },
    )
}

/// An argv entry that is the `--gate` flag.
pub open spec fn is_gate_flag(o: Option<Seq<u8>>) -> bool {
    o matches Some(a) && strip_nul(a) == gate_flag()
}

proof fn lemma_missing_only_at_end(args: Seq<Option<Seq<u8>>>, i: int, st: ArgsView)
    requires
        0 <= i,
    ensures
        args_from(args, i, st).gate_value_missing ==> st.gate_value_missing || (args.len() >= 1
            && is_gate_flag(args.last())),
    decreases args.len() - i,
{
    if i < args.len() {
        match args[i] {
            None => lemma_missing_only_at_end(args, i + 1, st),
            Some(a) => if strip_nul(a) == gate_flag() {
                if i + 1 < args.len() {
                    match args[i + 1] {
                        Some(v) => lemma_missing_only_at_end(
                            args,
                            i + 2,
                            ArgsView { gate: Some(strip_nul(v)), ..st },
                        ),
                        None => lemma_missing_only_at_end(args, i + 2, st),
                    }
                }
            } else if !st.config_seen {
                lemma_missing_only_at_end(
                    args,
                    i + 1,
                    ArgsView { config_path: a, config_seen: true, ..st },
                );
            } else {
                lemma_missing_only_at_end(args, i + 1, st);
            },
        }
    }
}

/// `--gate` is reported as missing its value only when it is the last
/// argv entry.
pub proof fn lemma_gate_missing_only_when_last(args: Seq<Option<Seq<u8>>>)
    ensures
        spec_parse_args(args).gate_value_missing ==> args.len() >= 2 && is_gate_flag(args.last()),
{
    lemma_missing_only_at_end(
        args,
        1,
        ArgsView {
            config_path: default_config_path(),
            gate: None,
            config_seen: false,
            gate_value_missing: false,
        },
    );
    if spec_parse_args(args).gate_value_missing {
        assert(args.len() >= 2);
    }
}

proof fn lemma_no_flags_keep_gate(args: Seq<Option<Seq<u8>>>, i: int, st: ArgsView)
    requires
        0 <= i,
        forall|k: int| i <= k < args.len() ==> !is_gate_flag(#[trigger] args[k]),
    ensures
        args_from(args, i, st).gate == st.gate,
        args_from(args, i, st).gate_value_missing == st.gate_value_missing,
    decreases args.len() - i,
{
    if i < args.len() {
        assert(!is_gate_flag(args[i]));
        match args[i] {
            None => lemma_no_flags_keep_gate(args, i + 1, st),
            Some(a) => if !st.config_seen {
                lemma_no_flags_keep_gate(
                    args,
                    i + 1,
                    ArgsView { config_path: a, config_seen: true, ..st },
                );
            } else {
                lemma_no_flags_keep_gate(args, i + 1, st);
            },
        }
    }
}

proof fn lemma_gate_value_from(args: Seq<Option<Seq<u8>>>, g: int, i: int, st: ArgsView)
    requires
        1 <= i <= g,
        g + 1 < args.len(),
        is_gate_flag(args[g]),
        args[g + 1] is Some,
        forall|k: int| i <= k < args.len() && k != g && k != g + 1 ==> !is_gate_flag(#[trigger] args[k]),
        !st.gate_value_missing,
    ensures
        args_from(args, i, st).gate == Some(strip_nul(args[g + 1]->0)),
        !args_from(args, i, st).gate_value_missing,
    decreases g - i,
{
    if i < g {
        assert(!is_gate_flag(args[i]));
        match args[i] {
            None => lemma_gate_value_from(args, g, i + 1, st),
            Some(a) => if !st.config_seen {
                lemma_gate_value_from(args, g, i + 1, ArgsView { config_path: a, config_seen: true, ..st });
            } else {
                lemma_gate_value_from(args, g, i + 1, st);
            },
        }
    } else {
        let v = args[g + 1]->0;
        let st2 = ArgsView { gate: Some(strip_nul(v)), ..st };
        assert forall|k: int| g + 2 <= k < args.len() implies !is_gate_flag(#[trigger] args[k]) by {}
        lemma_no_flags_keep_gate(args, g + 2, st2);
    }
}

/// `--gate` takes the next argv entry as its value wherever it stands:
/// with one flag at position `g` followed by a readable entry, the parsed
/// `--gate` value is that entry without its NUL and no value is reported
/// missing.
pub proof fn lemma_gate_takes_next_entry(args: Seq<Option<Seq<u8>>>, g: int)
    requires
        1 <= g,
        g + 1 < args.len(),
        is_gate_flag(args[g]),
        args[g + 1] is Some,
        forall|k: int| 1 <= k < args.len() && k != g && k != g + 1 ==> !is_gate_flag(#[trigger] args[k]),
    ensures
        spec_parse_args(args).gate == Some(strip_nul(args[g + 1]->0)),
        !spec_parse_args(args).gate_value_missing,
{
    lemma_gate_value_from(
        args,
        g,
        1,
        ArgsView {
            config_path: default_config_path(),
            gate: None,
            config_seen: false,
            gate_value_missing: false,
        },
    );
}

proof fn lemma_last_flag_missing(args: Seq<Option<Seq<u8>>>, i: int, st: ArgsView)
    requires
        1 <= i <= args.len() - 1,
        is_gate_flag(args.last()),
        forall|k: int| i <= k < args.len() - 1 ==> !is_gate_flag(#[trigger] args[k]),
    ensures
        args_from(args, i, st).gate_value_missing,
    decreases args.len() - i,
{
    if i < args.len() - 1 {
        assert(!is_gate_flag(args[i]));
        match args[i] {
            None => lemma_last_flag_missing(args, i + 1, st),
            Some(a) => if !st.config_seen {
                lemma_last_flag_missing(args, i + 1, ArgsView { config_path: a, config_seen: true, ..st });
            } else {
                lemma_last_flag_missing(args, i + 1, st);
            },
        }
    } else {
        assert(args[i] == args.last());
    }
}

/// A `--gate` that is the last argv entry, with no other `--gate` before
/// it, is reported as missing its value.
pub proof fn lemma_gate_missing_when_last(args: Seq<Option<Seq<u8>>>)
    requires
        args.len() >= 2,
        is_gate_flag(args.last()),
        forall|k: int| 1 <= k < args.len() - 1 ==> !is_gate_flag(#[trigger] args[k]),
    ensures
        spec_parse_args(args).gate_value_missing,
{
    lemma_last_flag_missing(
        args,
        1,
        ArgsView {
            config_path: default_config_path(),
            gate: None,
            config_seen: false,
            gate_value_missing: false,
        },
    );
}

proof fn lemma_config_kept(args: Seq<Option<Seq<u8>>>, i: int, st: ArgsView)
    requires
        0 <= i,
        st.config_seen,
    ensures
        args_from(args, i, st).config_path == st.config_path,
    decreases args.len() - i,
{
    if i < args.len() {
        match args[i] {
            None => lemma_config_kept(args, i + 1, st),
            Some(a) => if strip_nul(a) == gate_flag() {
                if i + 1 < args.len() {
                    match args[i + 1] {
                        Some(v) => lemma_config_kept(args, i + 2, ArgsView { gate: Some(strip_nul(v)), ..st }),
                        None => lemma_config_kept(args, i + 2, st),
                    }
                }
            } else {
                lemma_config_kept(args, i + 1, st);
            },
        }
    }
}

proof fn lemma_skip_unreadable(args: Seq<Option<Seq<u8>>>, i: int, c: int, st: ArgsView)
    requires
        0 <= i <= c <= args.len(),
        forall|k: int| i <= k < c ==> (#[trigger] args[k]) is None,
    ensures
        args_from(args, i, st) == args_from(args, c, st),
    decreases c - i,
{
    if i < c {
        assert(args[i] is None);
        lemma_skip_unreadable(args, i + 1, c, st);
    }
}

/// The first readable entry after the program name that is not `--gate`
/// is the config path, kept as given (NUL included), whatever follows it.
pub proof fn lemma_config_first_positional(args: Seq<Option<Seq<u8>>>, c: int)
    requires
        1 <= c < args.len(),
        args[c] is Some,
        !is_gate_flag(args[c]),
        forall|k: int| 1 <= k < c ==> (#[trigger] args[k]) is None,
    ensures
        spec_parse_args(args).config_path == args[c]->0,
{
    let st = ArgsView {
        config_path: default_config_path(),
        gate: None,
        config_seen: false,
        gate_value_missing: false,
    };
    lemma_skip_unreadable(args, 1, c, st);
    let a = args[c]->0;
    lemma_config_kept(args, c + 1, ArgsView { config_path: a, config_seen: true, ..st });
}

/// With no readable entry after the program name the defaults stand: the
/// config path `./viola.toml`, no gate, nothing missing.
pub proof fn lemma_parse_args_defaults(args: Seq<Option<Seq<u8>>>)
    requires
        forall|k: int| 1 <= k < args.len() ==> (#[trigger] args[k]) is None,
    ensures
        spec_parse_args(args).config_path == default_config_path(),
        spec_parse_args(args).gate is None,
        !spec_parse_args(args).gate_value_missing,
{
    let st = ArgsView {
        config_path: default_config_path(),
        gate: None,
        config_seen: false,
        gate_value_missing: false,
    };
    if args.len() >= 1 {
        lemma_skip_unreadable(args, 1, args.len() as int, st);
    }
}

fn same_bytes(a: &[u8], b: &[u8]) -> (r: bool)
    ensures
        r == (a@ == b@),
{
    if a.len() != b.len() {
        return false;
    }
    let mut k: usize = 0;
    while k < a.len()
        invariant
            a@.len() == b@.len(),
            k <= a@.len(),
            forall|m: int| 0 <= m < k ==> a@[m] == b@[m],
        decreases a.len() - k,
    {
        if a[k] != b[k] {
            return false;
        }
        k = k + 1;
    }
    assert(a@ =~= b@);
    true
}

fn without_nul(s: &[u8]) -> (r: &[u8])
    ensures
        r@ == strip_nul(s@),
{
    if s.len() > 0 && s[s.len() - 1] == 0 {
        vstd::slice::slice_subrange(s, 0, s.len() - 1)
    } else {
        s
    }
}

fn copy_bytes(s: &[u8]) -> (r: Vec<u8>)
    ensures
        r@ == s@,
{
    let mut v: Vec<u8> = Vec::new();
    let mut k: usize = 0;
    while k < s.len()
        invariant
            k <= s@.len(),
            v@ == s@.take(k as int),
        decreases s.len() - k,
    {
        v.push(s[k]);
        assert(s@.take(k + 1) =~= s@.take(k as int).push(s@[k as int]));
        k = k + 1;
    }
    assert(s@.take(k as int) =~= s@);
    v
}

/// Parses the host's argv: the config path (first positional, default
/// `./viola.toml`) and `--gate <name>`, which may come before or after it.
pub fn parse_args(args: &Vec<Option<Vec<u8>>>) -> (r: ParsedArgs)
    ensures
        ({
            let v = spec_parse_args(arg_views(args@));
            r.view() == (v.config_path, v.gate, v.gate_value_missing)
        }),
{
    let ghost av = arg_views(args@);
    let mut config_path = copy_bytes("./viola.toml\0".as_bytes());
    let mut gate: Option<Vec<u8>> = None;
    let mut config_seen = false;
    let mut gate_value_missing = false;
    let n = args.len();
    let mut i: usize = 1;
    while i < n
        invariant_except_break
            !gate_value_missing,
            spec_parse_args(av) == args_from(
                av,
                i as int,
                ArgsView {
                    config_path: config_path@,
                    gate: match gate {
                        Some(g) => Some(g@),
                        None => None,
                    },
                    config_seen,
                    gate_value_missing: false,
                },
            ),
            n == args@.len(),
            av == arg_views(args@),
            1 <= i,
        ensures
            spec_parse_args(av) == (ArgsView {
                config_path: config_path@,
                gate: match gate {
                    Some(g) => Some(g@),
                    None => None,
                },
                config_seen,
                gate_value_missing,
            }),
        decreases n - i,
    {
        match &args[i] {
            None => {
                i = i + 1;
            },
            Some(a) => {
                if same_bytes(without_nul(a.as_slice()), "--gate".as_bytes()) {
                    if i + 1 >= n {
                        gate_value_missing = true;
                        break;
                    }
                    match &args[i + 1] {
                        Some(v) => {
                            gate = Some(copy_bytes(without_nul(v.as_slice())));
                        },
                        None => {},
                    }
                    i = i + 2;
                } else {
                    if !config_seen {
                        config_path = copy_bytes(a.as_slice());
                        config_seen = true;
                    }
                    i = i + 1;
                }
            },
        }
    }
    ParsedArgs { config_path, gate, gate_value_missing }
}

pub open spec fn passthrough_prefix() -> Seq<Seq<u8>> {
    seq![
        "deno\0".spec_bytes(),
        "run\0".spec_bytes(),
        "-A\0".spec_bytes(),
        "jsr:@hiisi/viola-cli\0".spec_bytes(),
    ]
}

/// User arguments the pass-through forwards at most.
pub open spec fn passthrough_cap() -> nat {
    (MAX_PASSTHROUGH_ARGS - PASSTHROUGH_PREFIX - 1) as nat
}

pub open spec fn too_many_args_message() -> Seq<u8> {
    "viola-cli: too many passthrough args (max ".spec_bytes() + dec_digits(passthrough_cap())
        + " supported); refusing to truncate\n".spec_bytes()
}

/// What the pass-through does: exec `deno run -A jsr:@hiisi/viola-cli`
/// with the user's arguments, or refuse with a message and exit code.
pub enum Passthrough {
    Exec { argv: Vec<Vec<u8>> },
    Refuse { message: Vec<u8>, exit_code: i32 },
}

/// Plans the pass-through to the TS CLI for the given argv: the command
/// is the fixed prefix followed by every argument after the program name,
/// unless there are more than fit, which is refused rather than truncated.
pub fn passthrough_to_deno_cli(args: &Vec<Vec<u8>>) -> (r: Passthrough)
    ensures
        ({
            let user = if args@.len() >= 1 {
                args@.len() - 1
            } else {
                0
            };
            if user > passthrough_cap() {
                r matches Passthrough::Refuse { message, exit_code } && message@
                    == too_many_args_message() && exit_code == EXIT_CONFIG
            } else {
                r matches Passthrough::Exec { argv } && argv@.len() == PASSTHROUGH_PREFIX + user
                    && (forall|k: int|
                    0 <= k < PASSTHROUGH_PREFIX ==> #[trigger] argv@[k]@ == passthrough_prefix()[k])
                    && (forall|k: int|
                    0 <= k < user ==> #[trigger] argv@[PASSTHROUGH_PREFIX + k]@ == args@[k + 1]@)
            }
        }),
{
    let user_count: usize = if args.len() >= 1 {
        args.len() - 1
    } else {
        0
    };
    let cap: usize = MAX_PASSTHROUGH_ARGS - PASSTHROUGH_PREFIX - 1;
    if user_count > cap {
        let mut message = copy_bytes("viola-cli: too many passthrough args (max ".as_bytes());
        let digits = usize_digits(cap);
        let mut tail = copy_bytes(" supported); refusing to truncate\n".as_bytes());
        let mut d = digits;
        message.append(&mut d);
        message.append(&mut tail);
        return Passthrough::Refuse { message, exit_code: EXIT_CONFIG };
    }
    let mut argv: Vec<Vec<u8>> = Vec::new();
    argv.push(copy_bytes("deno\0".as_bytes()));
    argv.push(copy_bytes("run\0".as_bytes()));
    argv.push(copy_bytes("-A\0".as_bytes()));
    argv.push(copy_bytes("jsr:@hiisi/viola-cli\0".as_bytes()));
    let mut i: usize = 0;
    while i < user_count
        invariant
            user_count + 1 == args@.len() || (user_count == 0 && args@.len() == 0),
            i <= user_count,
            argv@.len() == PASSTHROUGH_PREFIX + i,
            forall|k: int| 0 <= k < PASSTHROUGH_PREFIX ==> #[trigger] argv@[k]@ == passthrough_prefix()[k],
            forall|k: int| 0 <= k < i ==> #[trigger] argv@[PASSTHROUGH_PREFIX + k]@ == args@[k + 1]@,
        decreases user_count - i,
    {
        argv.push(copy_bytes(args[i + 1].as_slice()));
        i = i + 1;
    }
    Passthrough::Exec { argv }
}

pub open spec fn exec_failure_text() -> Seq<u8> {
    "viola-cli: failed to exec `deno run jsr:@hiisi/viola-cli`. Is deno on PATH?\n".spec_bytes()
}

/// The report when exec of the pass-through failed, and its exit code.
pub fn exec_failure() -> (r: (Vec<u8>, i32))
    ensures
        r.0@ == exec_failure_text(),
        r.1 == EXIT_EXEC,
{
    (copy_bytes("viola-cli: failed to exec `deno run jsr:@hiisi/viola-cli`. Is deno on PATH?\n".as_bytes()), EXIT_EXEC)
}

/// The label of each config error in the report.
pub open spec fn config_error_label(e: ConfigError) -> Seq<u8> {
    match e {
        ConfigError::Unexpected { .. } => "unexpected token".spec_bytes(),
        ConfigError::UnknownKey { .. } => "unknown key".spec_bytes(),
        ConfigError::UnterminatedString { .. } => "unterminated string".spec_bytes(),
        ConfigError::UnterminatedArray { .. } => "unterminated array".spec_bytes(),
        ConfigError::DuplicateKey { .. } => "duplicate key".spec_bytes(),
        ConfigError::Capacity { .. } => "too many entries".spec_bytes(),
        ConfigError::TypeMismatch { .. } => "value type mismatch".spec_bytes(),
        ConfigError::IncompatibleSchema { .. } => "v1 key not allowed under [viola] version = 2".spec_bytes(),
        ConfigError::InvalidInteger { .. } => "invalid integer literal".spec_bytes(),
        ConfigError::InvalidIssuePattern { .. } => "invalid issue pattern".spec_bytes(),
        ConfigError::MissingRequiredField { .. } => "missing required field".spec_bytes(),
    }
}

/// The report line for a config error.
pub open spec fn config_error_report(e: ConfigError) -> Seq<u8> {
    "viola-cli: viola.toml: ".spec_bytes() + config_error_label(e) + " at byte ".spec_bytes()
        + dec_digits(e.spec_offset() as nat) + "\n".spec_bytes()
}

fn config_error_label_bytes(e: &ConfigError) -> (r: &'static str)
    ensures
        r.spec_bytes() == config_error_label(*e),
{
    match e {
        ConfigError::Unexpected { .. } => "unexpected token",
        ConfigError::UnknownKey { .. } => "unknown key",
        ConfigError::UnterminatedString { .. } => "unterminated string",
        ConfigError::UnterminatedArray { .. } => "unterminated array",
        ConfigError::DuplicateKey { .. } => "duplicate key",
        ConfigError::Capacity { .. } => "too many entries",
        ConfigError::TypeMismatch { .. } => "value type mismatch",
        ConfigError::IncompatibleSchema { .. } => "v1 key not allowed under [viola] version = 2",
        ConfigError::InvalidInteger { .. } => "invalid integer literal",
        ConfigError::InvalidIssuePattern { .. } => "invalid issue pattern",
        ConfigError::MissingRequiredField { .. } => "missing required field",
    }
}

/// The stderr report for a viola.toml that failed to parse:
/// `viola-cli: viola.toml: <label> at byte <offset>` and a newline.
pub fn emit_config_error(e: &ConfigError) -> (r: Vec<u8>)
    ensures
        r@ == config_error_report(*e),
{
    let mut out = copy_bytes("viola-cli: viola.toml: ".as_bytes());
    let mut label = copy_bytes(config_error_label_bytes(e).as_bytes());
    let mut at = copy_bytes(" at byte ".as_bytes());
    let mut digits = usize_digits(e.offset());
    let mut nl = copy_bytes("\n".as_bytes());
    out.append(&mut label);
    out.append(&mut at);
    out.append(&mut digits);
    out.append(&mut nl);
    out
}

/// Zero-byte writes tolerated in a row before draining gives up.
pub const MAX_ZERO_PROGRESS: usize = 4;

/// Where draining a buffer to stderr stands after one write.
#[derive(Copy, Clone, Debug, PartialEq, Eq)]
pub enum DrainStep {
    /// Everything was written.
    Done,
    /// Write again from `offset`, after `zero_progress` writes in a row
    /// that wrote nothing.
    Again { offset: usize, zero_progress: usize },
    /// The write reported an error.
    Failed,
    /// Too many writes in a row wrote nothing.
    Stalled,
}

/// Unbuffered stderr emitter: the caller writes `bytes[offset..]` and
/// hands the outcome to `after_write` until it is no longer `Again`.
pub struct StderrEmitter;

impl StderrEmitter {
    /// Where draining `len` bytes stands after a write from `offset`
    /// (following `zero_progress` empty writes) returned `written`.
    pub fn after_write(len: usize, offset: usize, zero_progress: usize, written: isize) -> (r:
        DrainStep)
        requires
            offset < len,
            zero_progress < MAX_ZERO_PROGRESS,
            written <= len - offset,
        ensures
            written < 0 ==> r == DrainStep::Failed,
            written == 0 && zero_progress + 1 >= MAX_ZERO_PROGRESS ==> r == DrainStep::Stalled,
            written == 0 && zero_progress + 1 < MAX_ZERO_PROGRESS ==> r == (DrainStep::Again {
                offset,
                zero_progress: (zero_progress + 1) as usize,
            }),
            written > 0 && offset + written == len ==> r == DrainStep::Done,
            written > 0 && offset + written < len ==> r == (DrainStep::Again {
                offset: (offset + written) as usize,
                zero_progress: 0,
            }),
    {
        if written < 0 {
            return DrainStep::Failed;
        }
        if written == 0 {
            if zero_progress + 1 >= MAX_ZERO_PROGRESS {
                return DrainStep::Stalled;
            }
            return DrainStep::Again { offset, zero_progress: zero_progress + 1 };
        }
        let progress = written as usize;
        let next = offset + progress;
        if next >= len {
            DrainStep::Done
        } else {
            DrainStep::Again { offset: next, zero_progress: 0 }
        }
    }
}

} // verus!
