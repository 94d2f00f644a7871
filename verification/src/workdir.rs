use vstd::prelude::*;
use vstd::string::StringExecFns;
use crate::types::Crate;
use crate::errors::ExError;

verus! {

/// The directories one (experiment, toolchain, package) task works
/// against: the canonical source tree, held as its bytes, and the
/// ephemeral working copy while one exists. Outside any call, no
/// ephemeral copy exists.
pub struct CrateDirs {
    pub canonical: Vec<u8>,
    pub work_copy: Option<Vec<u8>>,
}

/// What the action run inside the working directory does: whether it
/// succeeds, and what it leaves the directory's contents as (`None`:
/// it writes nothing).
pub struct WorkAction {
    pub write: Option<Vec<u8>>,
    pub ok: bool,
}

/// The contents a directory holds after an action ran against it.
pub open spec fn after_action(before: Seq<u8>, action: WorkAction) -> Seq<u8> {
    match action.write {
        Some(w) => w@,
        None => before,
    }
}

/// An equal copy of a byte tree.
fn duplicate_bytes(v: &Vec<u8>) -> (r: Vec<u8>)
    ensures
        r@ == v@,
{
    let mut r: Vec<u8> = Vec::new();
    let mut i: usize = 0;
    while i < v.len()
        invariant
            0 <= i <= v@.len(),
            r@ =~= v@.take(i as int),
        decreases v@.len() - i,
    {
        r.push(v[i]);
        proof {
            assert(r@ =~= v@.take(i + 1));
        }
        i = i + 1;
    }
    proof {
        assert(v@.take(v@.len() as int) =~= v@);
    }
    r
}

fn apply_action(target: &mut Vec<u8>, action: &WorkAction)
    ensures
        final(target)@ == after_action(old(target)@, *action),
{
    match &action.write {
        Some(w) => {
            let new_contents = duplicate_bytes(w);
            *target = new_contents;
        },
        None => {},
    }
}

/// The directory a task's ephemeral working copy is created in.
pub fn crate_work_dir(work_root: &str, ex_name: &str, tc_id: &str, crate_id: &str) -> (r: String)
    ensures
        r@ == work_root@ + "/"@ + ex_name@ + "/"@ + tc_id@ + "/"@ + crate_id@,
{
    let r = work_root
        .to_owned()
        .concat("/")
        .concat(ex_name)
        .concat("/")
        .concat(tc_id)
        .concat("/")
        .concat(crate_id);
    proof {
        assert(r@ =~= work_root@ + "/"@ + ex_name@ + "/"@ + tc_id@ + "/"@ + crate_id@);
    }
    r
}

/// Runs an action for one task. When source mutation is allowed, the
/// action runs against the canonical source and its writes persist
/// there. Otherwise the action runs against a fresh ephemeral copy,
/// and on every exit path the copy is gone and the canonical source
/// is byte-identical to before the call.
pub fn with_work_crate(dirs: &mut CrateDirs, krate: &Crate, allow_source_changes: bool,
    action: WorkAction) -> (r: Result<(), ExError>)
    requires
        old(dirs).work_copy is None,
    ensures
        final(dirs).work_copy is None,
        r is Ok <==> action.ok,
        r matches Err(e) ==> (e matches ExError::BuildTool(s) && s@ == krate.id_view()),
        !allow_source_changes ==> final(dirs).canonical@ == old(dirs).canonical@,
        allow_source_changes ==> final(dirs).canonical@ == after_action(
            old(dirs).canonical@,
            action,
        ),
{
    if allow_source_changes {
        apply_action(&mut dirs.canonical, &action);
        if action.ok {
            Ok(())
        } else {
            Err(ExError::BuildTool(krate.id()))
        }
    } else {
        let copy = duplicate_bytes(&dirs.canonical);
        dirs.work_copy = Some(copy);
        let mut scratch = match dirs.work_copy.take() {
            Some(c) => c,
            None => Vec::new(),
        };
        apply_action(&mut scratch, &action);
        dirs.work_copy = None;
        if action.ok {
            Ok(())
        } else {
            Err(ExError::BuildTool(krate.id()))
        }
    }
}

/// Ensures a dependency lock exists for the task. When the caller's
/// policy does not force regeneration and a lock file already exists,
/// this is a no-op. Otherwise dependency resolution runs against the
/// canonical source (its write must persist), and a failure names the
/// package.
pub fn capture_lockfile(should_update: bool, lockfile_exists: bool, dirs: &mut CrateDirs,
    krate: &Crate, generate: WorkAction) -> (r: Result<(), ExError>)
    requires
        old(dirs).work_copy is None,
    ensures
        final(dirs).work_copy is None,
        (!should_update && lockfile_exists) ==> (r is Ok && final(dirs).canonical@ == old(
            dirs,
        ).canonical@),
        !(!should_update && lockfile_exists) ==> {
            &&& (r is Ok <==> generate.ok)
            &&& final(dirs).canonical@ == after_action(old(dirs).canonical@, generate)
            &&& (r matches Err(e) ==> (e matches ExError::Lockfile(s) && s@ == krate.id_view()))
        },
{
    if !should_update && lockfile_exists {
        return Ok(());
    }
    match with_work_crate(dirs, krate, true, generate) {
        Ok(()) => Ok(()),
        Err(_) => Err(ExError::Lockfile(krate.id())),
    }
}

/// Fetches the task's dependencies into an isolated copy: the
/// canonical source is never mutated, and a failure names the
/// package.
pub fn fetch_crate_deps(dirs: &mut CrateDirs, krate: &Crate, fetch: WorkAction) -> (r: Result<
    (),
    ExError,
>)
    requires
        old(dirs).work_copy is None,
    ensures
        final(dirs).work_copy is None,
        final(dirs).canonical@ == old(dirs).canonical@,
        r is Ok <==> fetch.ok,
        r matches Err(e) ==> (e matches ExError::BuildTool(s) && s@ == krate.id_view()),
{
    with_work_crate(dirs, krate, false, fetch)
}

} // verus!
