use viola::cli::{
    emit_config_error, exec_failure, parse_args, passthrough_to_deno_cli, DrainStep, Passthrough,
    StderrEmitter, EXIT_CONFIG, EXIT_EXEC,
};
use viola::config::error::ConfigError;
use viola::config::issue_pattern::IssuePatternError;

fn arg(s: &str) -> Option<Vec<u8>> {
    let mut v = s.as_bytes().to_vec();
    v.push(0);
    Some(v)
}

#[test]
fn default_config_path_without_args() {
    let p = parse_args(&vec![arg("viola")]);
    assert_eq!(p.config_path, b"./viola.toml\0");
    assert_eq!(p.gate, None);
    assert!(!p.gate_value_missing);
    let p = parse_args(&vec![]);
    assert_eq!(p.config_path, b"./viola.toml\0");
}

#[test]
fn gate_before_and_after_positional() {
    let p = parse_args(&vec![arg("viola"), arg("--gate"), arg("commit"), arg("cfg.toml")]);
    assert_eq!(p.config_path, b"cfg.toml\0");
    assert_eq!(p.gate, Some(b"commit".to_vec()));
    let p = parse_args(&vec![arg("viola"), arg("cfg.toml"), arg("--gate"), arg("push"), arg("other.toml")]);
    assert_eq!(p.config_path, b"cfg.toml\0");
    assert_eq!(p.gate, Some(b"push".to_vec()));
}

#[test]
fn trailing_gate_flag_is_reported() {
    let p = parse_args(&vec![arg("viola"), arg("a.toml"), arg("--gate")]);
    assert_eq!(p.config_path, b"a.toml\0");
    assert!(p.gate_value_missing);
    assert_eq!(p.gate, None);
}

#[test]
fn unreadable_entries_are_skipped() {
    let p = parse_args(&vec![arg("viola"), None, arg("b.toml")]);
    assert_eq!(p.config_path, b"b.toml\0");
    let p = parse_args(&vec![arg("viola"), arg("--gate"), None, arg("c.toml")]);
    assert_eq!(p.gate, None);
    assert_eq!(p.config_path, b"c.toml\0");
}

#[test]
fn passthrough_prefixes_deno_command() {
    let args = vec![b"viola\0".to_vec(), b"check\0".to_vec(), b"--fix\0".to_vec()];
    match passthrough_to_deno_cli(&args) {
        Passthrough::Exec { argv } => {
            assert_eq!(argv.len(), 6);
            assert_eq!(argv[0], b"deno\0");
            assert_eq!(argv[1], b"run\0");
            assert_eq!(argv[2], b"-A\0");
            assert_eq!(argv[3], b"jsr:@hiisi/viola-cli\0");
            assert_eq!(argv[4], b"check\0");
            assert_eq!(argv[5], b"--fix\0");
        }
        Passthrough::Refuse { .. } => panic!("expected exec"),
    }
}

#[test]
fn passthrough_refuses_too_many_args() {
    let args: Vec<Vec<u8>> = (0..61).map(|_| b"x\0".to_vec()).collect();
    match passthrough_to_deno_cli(&args) {
        Passthrough::Refuse { message, exit_code } => {
            assert_eq!(message, b"viola-cli: too many passthrough args (max 59 supported); refusing to truncate\n");
            assert_eq!(exit_code, EXIT_CONFIG);
        }
        Passthrough::Exec { .. } => panic!("expected refusal"),
    }
    let args: Vec<Vec<u8>> = (0..60).map(|_| b"x\0".to_vec()).collect();
    assert!(matches!(passthrough_to_deno_cli(&args), Passthrough::Exec { argv } if argv.len() == 63));
}

#[test]
fn exec_failure_report() {
    let (msg, code) = exec_failure();
    assert_eq!(msg, b"viola-cli: failed to exec `deno run jsr:@hiisi/viola-cli`. Is deno on PATH?\n");
    assert_eq!(code, EXIT_EXEC);
}

#[test]
fn config_error_reports() {
    assert_eq!(
        emit_config_error(&ConfigError::UnknownKey { offset: 42 }),
        b"viola-cli: viola.toml: unknown key at byte 42\n"
    );
    assert_eq!(
        emit_config_error(&ConfigError::IncompatibleSchema { offset: 0 }),
        b"viola-cli: viola.toml: v1 key not allowed under [viola] version = 2 at byte 0\n"
    );
    assert_eq!(
        emit_config_error(&ConfigError::InvalidIssuePattern { offset: 1234, error: IssuePatternError::TrailingJunk }),
        b"viola-cli: viola.toml: invalid issue pattern at byte 1234\n"
    );
}

#[test]
fn stderr_drain_steps() {
    assert_eq!(StderrEmitter::after_write(10, 0, 0, 10), DrainStep::Done);
    assert_eq!(StderrEmitter::after_write(10, 0, 2, 4), DrainStep::Again { offset: 4, zero_progress: 0 });
    assert_eq!(StderrEmitter::after_write(10, 4, 0, 0), DrainStep::Again { offset: 4, zero_progress: 1 });
    assert_eq!(StderrEmitter::after_write(10, 4, 3, 0), DrainStep::Stalled);
    assert_eq!(StderrEmitter::after_write(10, 4, 0, -1), DrainStep::Failed);
}
