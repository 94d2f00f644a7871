use vstd::prelude::*;
use crate::types::Crate;
use crate::experiment::Experiment;
use crate::errors::ExError;
use crate::workdir::{CrateDirs, WorkAction, after_action, capture_lockfile, fetch_crate_deps,
    with_work_crate};

verus! {

/// The outcome the build-tool collaborator reported for one task:
/// success, a tool failure with its captured output, or an
/// infrastructure error with its description.
#[derive(Debug, Clone, PartialEq, Eq)]
pub enum BuildResult {
    Success,
    ToolFailure(String),
    InfraError(String),
}

/// One recorded task outcome, tagged by the package the task built.
#[derive(Debug, Clone, PartialEq, Eq)]
pub struct TaskOutcome {
    pub krate: Crate,
    pub result: BuildResult,
}

fn duplicate_build_result(r: &BuildResult) -> (d: BuildResult)
    ensures
        d == *r,
{
    match r {
        BuildResult::Success => BuildResult::Success,
        BuildResult::ToolFailure(s) => BuildResult::ToolFailure(s.clone()),
        BuildResult::InfraError(s) => BuildResult::InfraError(s.clone()),
    }
}

/// Applies manifest compatibility patching for one task: only a
/// registry-sourced package is patched (source-repository packages
/// skip the step), and a patcher failure names the package.
pub fn frob_toml(krate: &Crate, patch_ok: bool) -> (r: Result<(), ExError>)
    ensures
        krate is GitHub ==> r is Ok,
        krate is Registry ==> (r is Ok <==> patch_ok),
        r matches Err(e) ==> (e matches ExError::BuildTool(s) && s@ == krate.id_view()),
{
    match krate {
        Crate::GitHub(_) => Ok(()),
        Crate::Registry(_) => {
            if patch_ok {
                Ok(())
            } else {
                Err(ExError::BuildTool(krate.id()))
            }
        },
    }
}

impl Experiment {
    /// Accounts for preparing every toolchain of the experiment, in
    /// order, given each preparation's outcome. A preparation failure
    /// is experiment-fatal and names the toolchain; no task may run
    /// under a toolchain that was not prepared.
    pub fn prepare_all_toolchains(&self, outcomes: &Vec<bool>) -> (r: Result<(), ExError>)
        requires
            outcomes@.len() == self.toolchains@.len(),
        ensures
            r is Ok <==> (forall|j: int| 0 <= j < outcomes@.len() ==> outcomes@[j]),
            r matches Err(e) ==> exists|j: int|
                0 <= j < outcomes@.len() && !outcomes@[j] && (forall|q: int|
                    0 <= q < j ==> outcomes@[q]) && (e matches ExError::ToolchainPrepare(s) && s@
                    == self.toolchains@[j].id@),
    {
        let mut i: usize = 0;
        while i < outcomes.len()
            invariant
                0 <= i <= outcomes@.len(),
                outcomes@.len() == self.toolchains@.len(),
                forall|q: int| 0 <= q < i ==> outcomes@[q],
            decreases outcomes@.len() - i,
        {
            if !outcomes[i] {
                return Err(ExError::ToolchainPrepare(self.toolchains[i].id.clone()));
            }
            i = i + 1;
        }
        Ok(())
    }
}

/// Runs the steps of one (toolchain, package) task, in order: patch
/// the manifest (registry packages only), ensure a dependency lock
/// (mutating canonical source when it runs), fetch dependencies into
/// an isolated copy, then build or test in an isolated copy. The
/// first failing step ends the task with its error; only the lock
/// step may change canonical source, and no ephemeral copy survives.
pub fn run_task(
    krate: &Crate,
    dirs: &mut CrateDirs,
    should_update_lockfile: bool,
    lockfile_exists: bool,
    patch_ok: bool,
    generate: WorkAction,
    fetch: WorkAction,
    build: WorkAction,
) -> (r: Result<(), ExError>)
    requires
        old(dirs).work_copy is None,
    ensures
        final(dirs).work_copy is None,
        r is Ok <==> ((krate is GitHub || patch_ok) && ((!should_update_lockfile
            && lockfile_exists) || generate.ok) && fetch.ok && build.ok),
        final(dirs).canonical@ == (if (krate is GitHub || patch_ok) && !(!should_update_lockfile
            && lockfile_exists) {
            after_action(old(dirs).canonical@, generate)
        } else {
            old(dirs).canonical@
        }),
        (krate is Registry && !patch_ok) ==> (r matches Err(e) && e matches ExError::BuildTool(s)
            && s@ == krate.id_view()),
        ((krate is GitHub || patch_ok) && !(!should_update_lockfile && lockfile_exists)
            && !generate.ok) ==> (r matches Err(e) && e matches ExError::Lockfile(s) && s@
            == krate.id_view()),
        ((krate is GitHub || patch_ok) && ((!should_update_lockfile && lockfile_exists)
            || generate.ok) && (!fetch.ok || (fetch.ok && !build.ok))) ==> (r matches Err(e) && e
            matches ExError::BuildTool(s) && s@ == krate.id_view()),
{
    if let Err(e) = frob_toml(krate, patch_ok) {
        return Err(e);
    }
    if let Err(e) = capture_lockfile(should_update_lockfile, lockfile_exists, dirs, krate,
        generate) {
        return Err(e);
    }
    if let Err(e) = fetch_crate_deps(dirs, krate, fetch) {
        return Err(e);
    }
    with_work_crate(dirs, krate, false, build)
}

/// Records one outcome per task of a toolchain's row of the grid,
/// given the build-tool outcome of each task. A failing task is
/// recorded like any other and never prevents the tasks after it from
/// being processed: the row always yields exactly one outcome per
/// package.
pub fn run_toolchain_tasks(crates: &Vec<Crate>, results: &Vec<BuildResult>) -> (out: Vec<
    TaskOutcome,
>)
    requires
        results@.len() == crates@.len(),
    ensures
        out@.len() == crates@.len(),
        forall|i: int|
            0 <= i < out@.len() ==> out@[i].krate == crates@[i] && out@[i].result == results@[i],
{
    let mut out: Vec<TaskOutcome> = Vec::new();
    let mut i: usize = 0;
    while i < crates.len()
        invariant
            0 <= i <= crates@.len(),
            results@.len() == crates@.len(),
            out@.len() == i,
            forall|j: int|
                0 <= j < i ==> out@[j].krate == crates@[j] && out@[j].result == results@[j],
        decreases crates@.len() - i,
    {
        out.push(
            TaskOutcome { krate: crates[i].duplicate(), result: duplicate_build_result(
                &results[i],
            ) },
        );
        i = i + 1;
    }
    out
}

} // verus!
