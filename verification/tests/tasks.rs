use exmatrix::types::{Crate, ExCapLints, ExMode, GitHubRepo, RegistryCrate, Toolchain};
use exmatrix::experiment::Experiment;
use exmatrix::workdir::{capture_lockfile, fetch_crate_deps, with_work_crate, CrateDirs, WorkAction,
    crate_work_dir};
use exmatrix::mirror::{capture_shas, record_sha_outcome, repo_list};
use exmatrix::engine::{frob_toml, run_task, run_toolchain_tasks, BuildResult, TaskOutcome};
use exmatrix::errors::ExError;

fn reg(name: &str, version: &str) -> Crate {
    Crate::Registry(RegistryCrate {
        name: name.to_string(),
        version: version.to_string(),
    })
}

fn gh(org: &str, name: &str) -> Crate {
    Crate::GitHub(GitHubRepo {
        org: org.to_string(),
        name: name.to_string(),
    })
}

fn ex_with(crates: Vec<Crate>) -> Experiment {
    Experiment {
        name: "exp1".to_string(),
        crates,
        toolchains: vec![Toolchain::parse("stable"), Toolchain::parse("beta")],
        mode: ExMode::BuildAndTest,
        cap_lints: ExCapLints::Forbid,
        rustflags: None,
    }
}

#[test]
fn isolated_work_copy_leaves_canonical_untouched() {
    let mut dirs = CrateDirs {
        canonical: vec![1, 2, 3],
        work_copy: None,
    };
    // The action writes and fails; neither matters to the canonical
    // source, and no ephemeral copy remains.
    let action = WorkAction {
        write: Some(vec![9, 9]),
        ok: false,
    };
    let r = with_work_crate(&mut dirs, &reg("foo", "1.0"), false, action);
    assert!(matches!(r, Err(ExError::BuildTool(s)) if s == "foo-1.0"));
    assert_eq!(dirs.canonical, vec![1, 2, 3]);
    assert!(dirs.work_copy.is_none());

    let ok_action = WorkAction {
        write: Some(vec![7]),
        ok: true,
    };
    let r = with_work_crate(&mut dirs, &reg("foo", "1.0"), false, ok_action);
    assert!(r.is_ok());
    assert_eq!(dirs.canonical, vec![1, 2, 3]);
    assert!(dirs.work_copy.is_none());
}

#[test]
fn mutating_work_copy_persists_the_write() {
    let mut dirs = CrateDirs {
        canonical: vec![1, 2, 3],
        work_copy: None,
    };
    let action = WorkAction {
        write: Some(vec![4, 5]),
        ok: true,
    };
    let r = with_work_crate(&mut dirs, &reg("foo", "1.0"), true, action);
    assert!(r.is_ok());
    assert_eq!(dirs.canonical, vec![4, 5]);
    assert!(dirs.work_copy.is_none());
}

#[test]
fn lockfile_capture_skips_when_lock_exists() {
    let mut dirs = CrateDirs {
        canonical: vec![1],
        work_copy: None,
    };
    let generate = WorkAction {
        write: Some(vec![2]),
        ok: true,
    };
    // A lock exists and the policy does not force regeneration.
    let r = capture_lockfile(false, true, &mut dirs, &reg("foo", "1.0"), generate);
    assert!(r.is_ok());
    assert_eq!(dirs.canonical, vec![1]);
}

#[test]
fn lockfile_capture_writes_canonical_source() {
    let mut dirs = CrateDirs {
        canonical: vec![1],
        work_copy: None,
    };
    let generate = WorkAction {
        write: Some(vec![2]),
        ok: true,
    };
    let r = capture_lockfile(false, false, &mut dirs, &reg("foo", "1.0"), generate);
    assert!(r.is_ok());
    assert_eq!(dirs.canonical, vec![2]);

    let failing = WorkAction {
        write: None,
        ok: false,
    };
    let r = capture_lockfile(true, true, &mut dirs, &reg("foo", "1.0"), failing);
    assert!(matches!(r, Err(ExError::Lockfile(s)) if s == "foo-1.0"));
}

#[test]
fn fetching_deps_never_mutates_canonical_source() {
    let mut dirs = CrateDirs {
        canonical: vec![1],
        work_copy: None,
    };
    let fetch = WorkAction {
        write: Some(vec![8]),
        ok: false,
    };
    let r = fetch_crate_deps(&mut dirs, &reg("foo", "1.0"), fetch);
    assert!(matches!(r, Err(ExError::BuildTool(s)) if s == "foo-1.0"));
    assert_eq!(dirs.canonical, vec![1]);
    assert!(dirs.work_copy.is_none());
}

#[test]
fn work_dir_path_is_scoped_to_the_task() {
    assert_eq!(
        crate_work_dir("/work/test-sources", "exp1", "stable", "foo-1.0"),
        "/work/test-sources/exp1/stable/foo-1.0"
    );
}

#[test]
fn capture_shas_resolves_each_repo() {
    let crates = vec![reg("a", "1.0"), gh("org", "one"), gh("org", "two")];
    let outputs = vec![
        Some(vec!["abc123".to_string()]),
        Some(vec!["def456".to_string(), "noise".to_string()]),
    ];
    let shas = capture_shas(&crates, &outputs).unwrap();
    assert_eq!(shas.len(), 2);
    assert_eq!(shas[0].0, GitHubRepo { org: "org".to_string(), name: "one".to_string() });
    assert_eq!(shas[0].1, "abc123");
    assert_eq!(shas[1].1, "def456");
}

#[test]
fn capture_shas_aborts_on_bogus_output() {
    let crates = vec![gh("org", "one"), gh("org", "two")];
    // An empty first line is bogus output, named by repository.
    let outputs = vec![Some(vec!["".to_string()]), Some(vec!["def".to_string()])];
    let r = capture_shas(&crates, &outputs);
    assert!(matches!(r, Err(ExError::ShaCapture(s)) if s == "org/one"));

    // A failed invocation is fatal too.
    let outputs = vec![Some(vec!["abc".to_string()]), None];
    let r = capture_shas(&crates, &outputs);
    assert!(matches!(r, Err(ExError::ShaCapture(s)) if s == "org/two"));
}

#[test]
fn sink_write_failure_names_the_package() {
    let repo = GitHubRepo {
        org: "org".to_string(),
        name: "one".to_string(),
    };
    assert!(record_sha_outcome(&repo, true).is_ok());
    assert!(matches!(
        record_sha_outcome(&repo, false),
        Err(ExError::SinkWrite(s)) if s == "org/one"
    ));
}

#[test]
fn mirror_fetch_reports_failures_and_continues() {
    let ex = ex_with(vec![gh("org", "one"), reg("a", "1.0"), gh("org", "two")]);
    let failed = ex.fetch_repo_crates(&vec![false, true]).unwrap();
    assert_eq!(failed.len(), 1);
    assert_eq!(failed[0].name, "one");

    let none_failed = ex.fetch_repo_crates(&vec![true, true]).unwrap();
    assert!(none_failed.is_empty());
}

#[test]
fn repo_list_keeps_only_source_repos() {
    let crates = vec![reg("a", "1.0"), gh("org", "one")];
    let repos = repo_list(&crates);
    assert_eq!(repos.len(), 1);
    assert_eq!(repos[0].org, "org");
}

#[test]
fn frob_toml_patches_registry_packages_only() {
    // Source-repository packages skip manifest patching entirely.
    assert!(frob_toml(&gh("org", "one"), false).is_ok());
    assert!(frob_toml(&reg("a", "1.0"), true).is_ok());
    assert!(matches!(
        frob_toml(&reg("a", "1.0"), false),
        Err(ExError::BuildTool(s)) if s == "a-1.0"
    ));
}

#[test]
fn toolchain_preparation_failure_is_experiment_fatal() {
    let ex = ex_with(vec![]);
    assert!(ex.prepare_all_toolchains(&vec![true, true]).is_ok());
    assert!(matches!(
        ex.prepare_all_toolchains(&vec![true, false]),
        Err(ExError::ToolchainPrepare(s)) if s == "beta"
    ));
}

fn act(write: Option<Vec<u8>>, ok: bool) -> WorkAction {
    WorkAction { write, ok }
}

#[test]
fn task_steps_run_in_order_and_only_the_lock_mutates() {
    let mut dirs = CrateDirs {
        canonical: vec![1],
        work_copy: None,
    };
    // All steps succeed: the generated lock persists into canonical
    // source; fetch and build run isolated.
    let r = run_task(
        &reg("a", "1.0"),
        &mut dirs,
        false,
        false,
        true,
        act(Some(vec![2]), true),
        act(Some(vec![3]), true),
        act(Some(vec![4]), true),
    );
    assert!(r.is_ok());
    assert_eq!(dirs.canonical, vec![2]);
    assert!(dirs.work_copy.is_none());

    // A failing manifest patch ends the task before the lock step.
    let mut dirs = CrateDirs {
        canonical: vec![1],
        work_copy: None,
    };
    let r = run_task(
        &reg("a", "1.0"),
        &mut dirs,
        false,
        false,
        false,
        act(Some(vec![2]), true),
        act(None, true),
        act(None, true),
    );
    assert!(matches!(r, Err(ExError::BuildTool(s)) if s == "a-1.0"));
    assert_eq!(dirs.canonical, vec![1]);

    // An existing lock is kept, and a build failure changes nothing.
    let mut dirs = CrateDirs {
        canonical: vec![1],
        work_copy: None,
    };
    let r = run_task(
        &gh("org", "one"),
        &mut dirs,
        false,
        true,
        false,
        act(Some(vec![2]), true),
        act(None, true),
        act(None, false),
    );
    assert!(matches!(r, Err(ExError::BuildTool(s)) if s == "org/one"));
    assert_eq!(dirs.canonical, vec![1]);
    assert!(dirs.work_copy.is_none());
}

#[test]
fn one_failing_task_does_not_abort_the_row() {
    // Package b's build fails while a and c succeed: three outcomes
    // are recorded, and c is still processed.
    let crates = vec![reg("a", "1.0"), reg("b", "1.0"), reg("c", "1.0")];
    let results = vec![
        BuildResult::Success,
        BuildResult::ToolFailure("error: build failed".to_string()),
        BuildResult::Success,
    ];
    let outcomes = run_toolchain_tasks(&crates, &results);
    assert_eq!(outcomes.len(), 3);
    assert_eq!(
        outcomes[1],
        TaskOutcome {
            krate: reg("b", "1.0"),
            result: BuildResult::ToolFailure("error: build failed".to_string()),
        }
    );
    assert_eq!(outcomes[2].krate, reg("c", "1.0"));
    assert_eq!(outcomes[2].result, BuildResult::Success);
}
