use vstd::prelude::*;
use crate::types::{Crate, GitHubRepo};
use crate::experiment::Experiment;
use crate::errors::ExError;

verus! {

/// The source-repository packages of a package list, in order.
pub open spec fn repos_of(crates: Seq<Crate>) -> Seq<GitHubRepo>
    decreases crates.len(),
{
    if crates.len() == 0 {
        Seq::<GitHubRepo>::empty()
    } else {
        match crates[0] {
            Crate::GitHub(g) => seq![g] + repos_of(crates.drop_first()),
            Crate::Registry(_) => repos_of(crates.drop_first()),
        }
    }
}

/// The source-repository packages of a package list: the mirrors an
/// experiment run must populate.
pub fn repo_list(crates: &Vec<Crate>) -> (r: Vec<GitHubRepo>)
    ensures
        r@ == repos_of(crates@),
{
    let mut r: Vec<GitHubRepo> = Vec::new();
    let mut i: usize = 0;
    proof {
        assert(crates@.skip(0) =~= crates@);
        assert(r@ + repos_of(crates@.skip(0)) =~= repos_of(crates@));
    }
    while i < crates.len()
        invariant
            0 <= i <= crates@.len(),
            repos_of(crates@) == r@ + repos_of(crates@.skip(i as int)),
        decreases crates@.len() - i,
    {
        proof {
            assert(crates@.skip(i as int)[0] == crates@[i as int]);
            assert(crates@.skip(i as int).drop_first() =~= crates@.skip(i + 1));
        }
        match &crates[i] {
            Crate::GitHub(g) => {
                r.push(GitHubRepo { org: g.org.clone(), name: g.name.clone() });
                proof {
                    assert(r@ + repos_of(crates@.skip(i + 1)) =~= repos_of(crates@));
                }
            },
            Crate::Registry(_) => {},
        }
        i = i + 1;
    }
    proof {
        assert(repos_of(crates@.skip(crates@.len() as int)).len() == 0);
        assert(r@ =~= repos_of(crates@));
    }
    r
}

/// Whether a version-control query's captured output yields a commit
/// id: some output came back, and its first line is not empty.
pub open spec fn sha_ok(out: Option<Vec<String>>) -> bool {
    match out {
        Some(lines) => lines@.len() > 0 && lines@[0]@.len() > 0,
        None => false,
    }
}

/// The commit id a successful query's output yields: its first line.
pub open spec fn sha_of(out: Option<Vec<String>>) -> Seq<char> {
    match out {
        Some(lines) => if lines@.len() > 0 {
            lines@[0]@
        } else {
            Seq::<char>::empty()
        },
        None => Seq::<char>::empty(),
    }
}

/// Resolves the pinned commit id of every source-repository package
/// of the list, from the captured output of the version-control query
/// run in each package's mirror (one entry per source-repository
/// package, in order; `None`: the query itself failed). Unlike mirror
/// fetching this is fatal: the first empty, malformed or failed query
/// aborts with an error naming the offending repository.
pub fn capture_shas(crates: &Vec<Crate>, outputs: &Vec<Option<Vec<String>>>) -> (r: Result<
    Vec<(GitHubRepo, String)>,
    ExError,
>)
    requires
        outputs@.len() == repos_of(crates@).len(),
    ensures
        r is Ok <==> (forall|j: int| 0 <= j < outputs@.len() ==> sha_ok(outputs@[j])),
        r matches Ok(v) ==> v@.len() == repos_of(crates@).len() && forall|j: int|
            0 <= j < v@.len() ==> v@[j].0 == repos_of(crates@)[j] && v@[j].1@ == sha_of(
                outputs@[j],
            ),
        r matches Err(e) ==> exists|j: int|
            0 <= j < outputs@.len() && !sha_ok(outputs@[j]) && (forall|q: int|
                0 <= q < j ==> sha_ok(outputs@[q])) && (e matches ExError::ShaCapture(s) && s@
                == repos_of(crates@)[j].slug_view()),
{
    let mut out: Vec<(GitHubRepo, String)> = Vec::new();
    let mut gi: usize = 0;
    let mut k: usize = 0;
    let total: usize = outputs.len();
    let ghost all: Seq<GitHubRepo> = repos_of(crates@);
    proof {
        assert(crates@.skip(0) =~= crates@);
        assert(Seq::<GitHubRepo>::empty() + repos_of(crates@.skip(0)) =~= all);
    }
    let ghost mut done: Seq<GitHubRepo> = Seq::<GitHubRepo>::empty();
    while k < crates.len()
        invariant
            0 <= k <= crates@.len(),
            total == outputs@.len(),
            outputs@.len() == all.len(),
            all == repos_of(crates@),
            all == done + repos_of(crates@.skip(k as int)),
            gi == done.len(),
            out@.len() == gi,
            forall|j: int| 0 <= j < gi ==> sha_ok(outputs@[j]),
            forall|j: int| 0 <= j < gi ==> out@[j].0 == all[j],
            forall|j: int| 0 <= j < gi ==> out@[j].1@ == sha_of(outputs@[j]),
        decreases crates@.len() - k,
    {
        proof {
            assert(crates@.skip(k as int)[0] == crates@[k as int]);
            assert(crates@.skip(k as int).drop_first() =~= crates@.skip(k + 1));
        }
        match &crates[k] {
            Crate::GitHub(g) => {
                proof {
                    assert(repos_of(crates@.skip(k as int))[0] == *g);
                    assert(repos_of(crates@.skip(k as int)).len() > 0);
                    assert(all[gi as int] == *g);
                    assert(gi < total);
                }
                let good = match &outputs[gi] {
                    Some(lines) => if lines.len() > 0 {
                        !lines[0].as_str().is_empty()
                    } else {
                        false
                    },
                    None => false,
                };
                if !good {
                    proof {
                        assert(!sha_ok(outputs@[gi as int]));
                        assert(repos_of(crates@)[gi as int].slug_view() == g.slug_view());
                    }
                    return Err(ExError::ShaCapture(g.slug()));
                }
                let sha = match &outputs[gi] {
                    Some(lines) => lines[0].clone(),
                    None => String::new(),
                };
                let ghost out0: Seq<(GitHubRepo, String)> = out@;
                out.push((GitHubRepo { org: g.org.clone(), name: g.name.clone() }, sha));
                proof {
                    assert(sha_ok(outputs@[gi as int]));
                    assert(out@[gi as int].0 == all[gi as int]);
                    assert(out@[gi as int].1@ == sha_of(outputs@[gi as int]));
                    assert(forall|j: int| 0 <= j < gi ==> out@[j] == out0[j]);
                    done = done.push(*g);
                    assert(all =~= done + repos_of(crates@.skip(k + 1)));
                }
                gi = gi + 1;
            },
            Crate::Registry(_) => {},
        }
        k = k + 1;
    }
    proof {
        assert(repos_of(crates@.skip(crates@.len() as int)).len() == 0);
        assert(done =~= all);
    }
    Ok(out)
}

/// Wraps the outcome of writing one captured commit id to the result
/// sink: a sink failure is contextualized with the package it was
/// recording.
pub fn record_sha_outcome(repo: &GitHubRepo, write_ok: bool) -> (r: Result<(), ExError>)
    ensures
        r is Ok <==> write_ok,
        r matches Err(e) ==> (e matches ExError::SinkWrite(s) && s@ == repo.slug_view()),
{
    if write_ok {
        Ok(())
    } else {
        Err(ExError::SinkWrite(repo.slug()))
    }
}

/// The mirrors whose fetch failed, in order, given the fetch outcome
/// of each source-repository package.
pub open spec fn failed_repos(repos: Seq<GitHubRepo>, outcomes: Seq<bool>) -> Seq<GitHubRepo>
    decreases repos.len(),
{
    if repos.len() == 0 || outcomes.len() == 0 {
        Seq::<GitHubRepo>::empty()
    } else if !outcomes[0] {
        seq![repos[0]] + failed_repos(repos.drop_first(), outcomes.drop_first())
    } else {
        failed_repos(repos.drop_first(), outcomes.drop_first())
    }
}

impl Experiment {
    /// Accounts for the mirror fetch of every source-repository
    /// package of the experiment, given each fetch's outcome. Corpus
    /// fetching is best-effort and never fatal: every failure is only
    /// reported back, and iteration continues, so the result is the
    /// list of failed mirrors and never an error.
    pub fn fetch_repo_crates(&self, outcomes: &Vec<bool>) -> (r: Result<Vec<GitHubRepo>, ExError>)
        requires
            outcomes@.len() == repos_of(self.crates@).len(),
        ensures
            r matches Ok(v) && v@ == failed_repos(repos_of(self.crates@), outcomes@),
    {
        let repos = repo_list(&self.crates);
        let mut failed: Vec<GitHubRepo> = Vec::new();
        let mut i: usize = 0;
        proof {
            assert(repos@.skip(0) =~= repos@);
            assert(outcomes@.skip(0) =~= outcomes@);
            assert(failed@ + failed_repos(repos@.skip(0), outcomes@.skip(0)) =~= failed_repos(
                repos@,
                outcomes@,
            ));
        }
        while i < repos.len()
            invariant
                0 <= i <= repos@.len(),
                outcomes@.len() == repos@.len(),
                failed_repos(repos@, outcomes@) == failed@ + failed_repos(
                    repos@.skip(i as int),
                    outcomes@.skip(i as int),
                ),
            decreases repos@.len() - i,
        {
            proof {
                assert(repos@.skip(i as int)[0] == repos@[i as int]);
                assert(outcomes@.skip(i as int)[0] == outcomes@[i as int]);
                assert(repos@.skip(i as int).drop_first() =~= repos@.skip(i + 1));
                assert(outcomes@.skip(i as int).drop_first() =~= outcomes@.skip(i + 1));
            }
            if !outcomes[i] {
                let g = &repos[i];
                failed.push(GitHubRepo { org: g.org.clone(), name: g.name.clone() });
                proof {
                    assert(failed@ + failed_repos(repos@.skip(i + 1), outcomes@.skip(i + 1))
                        =~= failed_repos(repos@, outcomes@));
                }
            }
            i = i + 1;
        }
        proof {
            assert(failed_repos(repos@.skip(repos@.len() as int), outcomes@.skip(
                repos@.len() as int,
            )).len() == 0);
            assert(failed@ =~= failed_repos(repos@, outcomes@));
        }
        Ok(failed)
    }
}

} // verus!
