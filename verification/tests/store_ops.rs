use exmatrix::store::{config_file, ex_dir, ExStore};
use exmatrix::types::{Crate, ExCapLints, ExCrateSelect, ExMode, RegistryCrate, Toolchain};
use exmatrix::experiment::ExOpts;
use exmatrix::errors::ExError;

fn reg(name: &str, version: &str) -> Crate {
    Crate::Registry(RegistryCrate {
        name: name.to_string(),
        version: version.to_string(),
    })
}

fn opts(name: &str) -> ExOpts {
    ExOpts {
        name: name.to_string(),
        toolchains: vec![Toolchain::parse("stable"), Toolchain::parse("beta")],
        mode: ExMode::BuildAndTest,
        crates: ExCrateSelect::Full,
        cap_lints: ExCapLints::Forbid,
        rustflags: None,
    }
}

fn no_names() -> Vec<String> {
    Vec::new()
}

#[test]
fn end_to_end_define_load_delete() {
    // Define an experiment, round-trip it through Load, then Delete
    // it and watch Load fail.
    let mut store = ExStore::new();
    let corpus = vec![reg("foo", "1.0")];
    let ranked: Vec<Crate> = Vec::new();

    let o = opts("exp1");
    store
        .define(o, &corpus, &ranked, &no_names(), &no_names())
        .unwrap();

    let loaded = store.load("exp1").unwrap();
    assert_eq!(loaded.name, "exp1");
    assert_eq!(loaded.crates, vec![reg("foo", "1.0")]);
    assert_eq!(loaded.toolchains.len(), 2);
    assert_eq!(loaded.toolchains[0], Toolchain::parse("stable"));
    assert_eq!(loaded.toolchains[1], Toolchain::parse("beta"));
    assert_eq!(loaded.mode, ExMode::BuildAndTest);
    assert_eq!(loaded.cap_lints, ExCapLints::Forbid);
    assert_eq!(loaded.rustflags, None);

    store.delete("exp1").unwrap();
    assert!(matches!(store.load("exp1"), Err(ExError::NotFound(n)) if n == "exp1"));
}

#[test]
fn delete_of_missing_experiment_is_a_no_op() {
    let mut store = ExStore::new();
    assert!(store.delete("never-defined").is_ok());
}

#[test]
fn define_rejects_invalid_configuration_and_removes_stale_record() {
    let mut store = ExStore::new();
    let corpus = vec![reg("foo", "1.0")];
    let ranked: Vec<Crate> = Vec::new();

    store
        .define(opts("exp1"), &corpus, &ranked, &no_names(), &no_names())
        .unwrap();

    // Same name, now invalid: identical toolchains.
    let mut bad = opts("exp1");
    bad.toolchains = vec![Toolchain::parse("stable"), Toolchain::parse("stable")];
    assert!(matches!(
        store.define(bad, &corpus, &ranked, &no_names(), &no_names()),
        Err(ExError::Config(_))
    ));

    // Define deletes the stale record before validating, so the old
    // record is gone too.
    assert!(store.load("exp1").is_err());
}

#[test]
fn copy_requires_source_and_fresh_destination() {
    let mut store = ExStore::new();
    let corpus = vec![reg("foo", "1.0")];
    let ranked: Vec<Crate> = Vec::new();

    assert!(matches!(
        store.copy("src", "dst"),
        Err(ExError::NotFound(n)) if n == "src"
    ));

    store
        .define(opts("src"), &corpus, &ranked, &no_names(), &no_names())
        .unwrap();
    store
        .define(opts("dst"), &corpus, &ranked, &no_names(), &no_names())
        .unwrap();
    assert!(matches!(
        store.copy("src", "dst"),
        Err(ExError::AlreadyExists(n)) if n == "dst"
    ));
}

#[test]
fn copy_produces_independently_deletable_duplicate() {
    let mut store = ExStore::new();
    let corpus = vec![reg("foo", "1.0")];
    let ranked: Vec<Crate> = Vec::new();

    store
        .define(opts("src"), &corpus, &ranked, &no_names(), &no_names())
        .unwrap();
    store.copy("src", "dst").unwrap();

    let dup = store.load("dst").unwrap();
    assert_eq!(dup.name, "dst");
    assert_eq!(dup.crates, vec![reg("foo", "1.0")]);

    // Deleting the duplicate leaves the source intact.
    store.delete("dst").unwrap();
    assert!(store.load("dst").is_err());
    assert!(store.load("src").is_ok());
}

#[test]
fn target_dirs_are_deleted_per_experiment() {
    let mut store = ExStore::new();
    store.record_target_dir("exp1");
    store.record_target_dir("exp2");
    assert!(store.has_target_dirs("exp1"));

    store.delete_all_target_dirs("exp1").unwrap();
    assert!(!store.has_target_dirs("exp1"));
    assert!(store.has_target_dirs("exp2"));

    // A no-op when nothing is cached under the name.
    store.delete_all_target_dirs("exp1").unwrap();
}

#[test]
fn paths_follow_the_experiment_layout() {
    assert_eq!(ex_dir("/work/experiments", "exp1"), "/work/experiments/exp1");
    assert_eq!(
        config_file("/work/experiments", "exp1"),
        "/work/experiments/exp1/config.json"
    );
}
