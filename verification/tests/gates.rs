//! Gate resolution over configs built field by field; each one is the
//! config the TOML text in its comment parses to.

use viola::config::schema::{GateOverride, GateThresholds, ViolaConfig};

fn base<'a>() -> ViolaConfig<'a, 16> {
    // [viola]\nversion = 2\nplugins = ["./p.dylib"]\n
    let mut cfg = ViolaConfig::<16>::empty();
    cfg.version = Some(2);
    cfg.plugins.push(b"./p.dylib");
    cfg
}

#[test]
fn defaults_to_error_when_no_gates_declared() {
    let cfg = base();
    assert_eq!(cfg.resolve_gate_threshold(b"any-lint", b"commit"), b"error");
    assert_eq!(cfg.resolve_gate_threshold(b"any-lint", b"build"), b"error");
    assert_eq!(cfg.resolve_gate_threshold(b"any-lint", b"push"), b"error");
}

#[test]
fn falls_through_to_global_when_no_per_lint_match() {
    // [gates]\ncommit = "warn"\nbuild = "error"\npush = "error"\n
    let mut cfg = base();
    cfg.gates = GateThresholds { commit: Some(b"warn"), build: Some(b"error"), push: Some(b"error") };
    assert_eq!(cfg.resolve_gate_threshold(b"some-lint", b"commit"), b"warn");
    assert_eq!(cfg.resolve_gate_threshold(b"some-lint", b"build"), b"error");
}

#[test]
fn per_lint_override_wins_for_matched_gate() {
    // [gates]\ncommit = "warn"\n[gates.no-bare-numeric]\ncommit = "error"\n
    let mut cfg = base();
    cfg.gates = GateThresholds { commit: Some(b"warn"), build: None, push: None };
    cfg.gate_overrides.push(GateOverride {
        lint_id: b"no-bare-numeric",
        thresholds: GateThresholds { commit: Some(b"error"), build: None, push: None },
    });
    assert_eq!(cfg.resolve_gate_threshold(b"no-bare-numeric", b"commit"), b"error");
    assert_eq!(cfg.resolve_gate_threshold(b"other-lint", b"commit"), b"warn");
}

#[test]
fn per_lint_override_falls_through_to_global_for_unset_gate() {
    // [gates]\ncommit = "warn"\n[gates.duplicate-logic]\npush = "error"\n
    let mut cfg = base();
    cfg.gates = GateThresholds { commit: Some(b"warn"), build: None, push: None };
    cfg.gate_overrides.push(GateOverride {
        lint_id: b"duplicate-logic",
        thresholds: GateThresholds { commit: None, build: None, push: Some(b"error") },
    });
    assert_eq!(cfg.resolve_gate_threshold(b"duplicate-logic", b"commit"), b"warn");
    assert_eq!(cfg.resolve_gate_threshold(b"duplicate-logic", b"push"), b"error");
}

#[test]
fn per_lint_override_falls_through_to_builtin_when_global_silent() {
    // [gates.duplicate-logic]\npush = "warn"\n
    let mut cfg = base();
    cfg.gate_overrides.push(GateOverride {
        lint_id: b"duplicate-logic",
        thresholds: GateThresholds { commit: None, build: None, push: Some(b"warn") },
    });
    assert_eq!(cfg.resolve_gate_threshold(b"duplicate-logic", b"commit"), b"error");
    assert_eq!(cfg.resolve_gate_threshold(b"duplicate-logic", b"push"), b"warn");
}

#[test]
fn unknown_gate_name_resolves_to_builtin() {
    // [gates]\ncommit = "warn"\n
    let mut cfg = base();
    cfg.gates = GateThresholds { commit: Some(b"warn"), build: None, push: None };
    assert_eq!(cfg.resolve_gate_threshold(b"any", b"release"), b"error");
}

#[test]
fn first_matching_override_decides() {
    let mut cfg = base();
    cfg.gates = GateThresholds { commit: Some(b"info"), build: None, push: None };
    cfg.gate_overrides.push(GateOverride {
        lint_id: b"dup",
        thresholds: GateThresholds { commit: None, build: Some(b"warn"), push: None },
    });
    cfg.gate_overrides.push(GateOverride {
        lint_id: b"dup",
        thresholds: GateThresholds { commit: Some(b"off"), build: None, push: None },
    });
    // The first override matches and leaves commit unset: the chain goes
    // to [gates], not to the second override.
    assert_eq!(cfg.resolve_gate_threshold(b"dup", b"commit"), b"info");
    assert_eq!(cfg.resolve_gate_threshold(b"dup", b"build"), b"warn");
}

#[test]
fn slices_expose_the_lists() {
    let mut cfg = base();
    cfg.grammars.push(b"g1");
    cfg.lints.push(b"l1");
    cfg.lints.push(b"l2");
    cfg.inherit.push(b"preset");
    assert_eq!(cfg.plugins_slice(), &[&b"./p.dylib"[..]]);
    assert_eq!(cfg.grammars_slice(), &[&b"g1"[..]]);
    assert_eq!(cfg.lints_slice().len(), 2);
    assert_eq!(cfg.inherit_slice(), &[&b"preset"[..]]);
    assert!(cfg.gate_overrides_slice().is_empty());
    assert!(cfg.lint_configs_slice().is_empty());
    assert!(cfg.severity_rules_slice().is_empty());
}
