use exmatrix::experiment::Experiment;
use exmatrix::types::{ExCapLints, ExMode, Toolchain};
use exmatrix::errors::{ConfigIssue, ExError};

#[test]
fn test_validate_experiment() {
    // Correct experiment
    assert!(
        Experiment {
            name: "foo".to_string(),
            crates: vec![],
            toolchains: vec![Toolchain::parse("stable"), Toolchain::parse("beta")],
            mode: ExMode::BuildAndTest,
            cap_lints: ExCapLints::Forbid,
            rustflags: None,
        }
        .validate()
        .is_ok()
    );

    // Experiment with the same toolchain
    assert!(
        Experiment {
            name: "foo".to_string(),
            crates: vec![],
            toolchains: vec![Toolchain::parse("stable"), Toolchain::parse("stable")],
            mode: ExMode::BuildAndTest,
            cap_lints: ExCapLints::Forbid,
            rustflags: None,
        }
        .validate()
        .is_err()
    );

    // Experiment with rustflags but no toolchain using them
    assert!(
        Experiment {
            name: "foo".to_string(),
            crates: vec![],
            toolchains: vec![Toolchain::parse("stable"), Toolchain::parse("beta")],
            mode: ExMode::BuildAndTest,
            cap_lints: ExCapLints::Forbid,
            rustflags: Some("-Zfoo".into()),
        }
        .validate()
        .is_err()
    );

    // Experiment with no rustflags but a toolchain using them
    assert!(
        Experiment {
            name: "foo".to_string(),
            crates: vec![],
            toolchains: vec![Toolchain::parse("stable"), Toolchain::parse("beta+rustflags")],
            mode: ExMode::BuildAndTest,
            cap_lints: ExCapLints::Forbid,
            rustflags: None,
        }
        .validate()
        .is_err()
    );
}

#[test]
fn validate_reports_first_violated_rule() {
    let ex = Experiment {
        name: "foo".to_string(),
        crates: vec![],
        toolchains: vec![Toolchain::parse("stable"), Toolchain::parse("stable")],
        mode: ExMode::BuildOnly,
        cap_lints: ExCapLints::Allow,
        rustflags: Some("-Zfoo".into()),
    };
    assert!(matches!(
        ex.validate(),
        Err(ExError::Config(ConfigIssue::SameToolchain))
    ));

    let ex = Experiment {
        name: "foo".to_string(),
        crates: vec![],
        toolchains: vec![Toolchain::parse("stable"), Toolchain::parse("beta")],
        mode: ExMode::BuildOnly,
        cap_lints: ExCapLints::Allow,
        rustflags: Some("-Zfoo".into()),
    };
    assert!(matches!(
        ex.validate(),
        Err(ExError::Config(ConfigIssue::RustflagsNotUsed))
    ));

    let ex = Experiment {
        name: "foo".to_string(),
        crates: vec![],
        toolchains: vec![Toolchain::parse("stable"), Toolchain::parse("beta+rustflags")],
        mode: ExMode::BuildOnly,
        cap_lints: ExCapLints::Allow,
        rustflags: None,
    };
    assert!(matches!(
        ex.validate(),
        Err(ExError::Config(ConfigIssue::RustflagsMissing))
    ));
}

#[test]
fn toolchain_parse_reads_rustflags_marker() {
    let tc = Toolchain::parse("beta+rustflags");
    assert_eq!(tc.id, "beta+rustflags");
    assert!(tc.enable_rustflags);

    let tc = Toolchain::parse("stable");
    assert_eq!(tc.id, "stable");
    assert!(!tc.enable_rustflags);

    // A flag-aware variant and its plain channel are distinct toolchains.
    let a = Toolchain::parse("beta");
    let b = Toolchain::parse("beta+rustflags");
    assert!(!a.same_as(&b));
}
