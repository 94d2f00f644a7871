use vstd::prelude::*;
use vstd::string::StringExecFns;
use crate::types::{Crate, Toolchain, ExMode, ExCapLints, ExCrateSelect};
use crate::experiment::{Experiment, ExOpts, opt_str_matches, valid_config};
use crate::errors::ExError;
use crate::select::{get_crates, selection_post, demo_filter, dedup_views, str_views};
use crate::strutil::str_eq;

verus! {

/// The directory a named experiment's persisted tree lives in, under
/// the experiment root.
pub fn ex_dir(root: &str, ex_name: &str) -> (r: String)
    ensures
        r@ == root@ + "/"@ + ex_name@,
{
    let r = root.to_owned().concat("/").concat(ex_name);
    proof {
        assert(r@ =~= root@ + "/"@ + ex_name@);
    }
    r
}

/// The file a named experiment's serialized record is kept in.
pub fn config_file(root: &str, ex_name: &str) -> (r: String)
    ensures
        r@ == root@ + "/"@ + ex_name@ + "/config.json"@,
{
    let r = ex_dir(root, ex_name).concat("/config.json");
    proof {
        assert(r@ =~= root@ + "/"@ + ex_name@ + "/config.json"@);
    }
    r
}

/// The record stored under a name, walking entries front to back.
pub open spec fn lookup(entries: Seq<Experiment>, n: Seq<char>) -> Option<Experiment>
    decreases entries.len(),
{
    if entries.len() == 0 {
        None
    } else if entries[0].name@ == n {
        Some(entries[0])
    } else {
        lookup(entries.drop_first(), n)
    }
}

pub open spec fn names_distinct(entries: Seq<Experiment>) -> bool {
    forall|i: int, j: int|
        0 <= i < j < entries.len() ==> entries[i].name@ != entries[j].name@
}

/// Whether some string of the list has this view.
pub open spec fn has_name(s: Seq<String>, n: Seq<char>) -> bool {
    exists|i: int| 0 <= i < s.len() && s[i]@ == n
}

pub open spec fn str_names_distinct(s: Seq<String>) -> bool {
    forall|i: int, j: int| 0 <= i < j < s.len() ==> s[i]@ != s[j]@
}

proof fn lemma_has_name_remove(s: Seq<String>, i: int, m: Seq<char>)
    requires
        0 <= i < s.len(),
        s[i]@ != m,
    ensures
        has_name(s.remove(i), m) == has_name(s, m),
{
    if has_name(s, m) {
        let q = choose|q: int| 0 <= q < s.len() && s[q]@ == m;
        if q < i {
            assert(s.remove(i)[q]@ == m);
        } else {
            assert(s.remove(i)[q - 1]@ == m);
        }
    }
    if has_name(s.remove(i), m) {
        let q = choose|q: int| 0 <= q < s.remove(i).len() && s.remove(i)[q]@ == m;
        if q < i {
            assert(s[q]@ == m);
        } else {
            assert(s[q + 1]@ == m);
        }
    }
}

proof fn lemma_lookup_none(entries: Seq<Experiment>, n: Seq<char>)
    requires
        forall|q: int| 0 <= q < entries.len() ==> entries[q].name@ != n,
    ensures
        lookup(entries, n) is None,
    decreases entries.len(),
{
    if entries.len() > 0 {
        assert(forall|q: int|
            0 <= q < entries.drop_first().len() ==> entries.drop_first()[q] == entries[q + 1]);
        lemma_lookup_none(entries.drop_first(), n);
    }
}

proof fn lemma_lookup_at(entries: Seq<Experiment>, i: int)
    requires
        0 <= i < entries.len(),
        forall|q: int| 0 <= q < i ==> entries[q].name@ != entries[i].name@,
    ensures
        lookup(entries, entries[i].name@) == Some(entries[i]),
    decreases i,
{
    if i > 0 {
        assert(forall|q: int|
            0 <= q < entries.drop_first().len() ==> entries.drop_first()[q] == entries[q + 1]);
        lemma_lookup_at(entries.drop_first(), i - 1);
    }
}

proof fn lemma_lookup_remove_other(entries: Seq<Experiment>, i: int, m: Seq<char>)
    requires
        0 <= i < entries.len(),
        entries[i].name@ != m,
    ensures
        lookup(entries.remove(i), m) == lookup(entries, m),
    decreases i,
{
    if i == 0 {
        assert(entries.remove(0) =~= entries.drop_first());
    } else {
        assert(entries.remove(i)[0] == entries[0]);
        if entries[0].name@ != m {
            assert(entries.remove(i).drop_first() =~= entries.drop_first().remove(i - 1));
            assert(entries.drop_first()[i - 1] == entries[i]);
            lemma_lookup_remove_other(entries.drop_first(), i - 1, m);
        }
    }
}

proof fn lemma_lookup_push_new(entries: Seq<Experiment>, ex: Experiment)
    requires
        forall|q: int| 0 <= q < entries.len() ==> entries[q].name@ != ex.name@,
    ensures
        lookup(entries.push(ex), ex.name@) == Some(ex),
    decreases entries.len(),
{
    if entries.len() == 0 {
        assert(entries.push(ex)[0] == ex);
    } else {
        assert(entries.push(ex)[0] == entries[0]);
        assert(entries.push(ex).drop_first() =~= entries.drop_first().push(ex));
        assert(forall|q: int|
            0 <= q < entries.drop_first().len() ==> entries.drop_first()[q] == entries[q + 1]);
        lemma_lookup_push_new(entries.drop_first(), ex);
    }
}

proof fn lemma_lookup_push_other(entries: Seq<Experiment>, ex: Experiment, m: Seq<char>)
    requires
        ex.name@ != m,
    ensures
        lookup(entries.push(ex), m) == lookup(entries, m),
    decreases entries.len(),
{
    if entries.len() == 0 {
        assert(entries.push(ex)[0] == ex);
        assert(entries.push(ex).drop_first() =~= entries);
    } else {
        assert(entries.push(ex)[0] == entries[0]);
        if entries[0].name@ != m {
            assert(entries.push(ex).drop_first() =~= entries.drop_first().push(ex));
            lemma_lookup_push_other(entries.drop_first(), ex, m);
        }
    }
}

/// The persisted experiments: the records under the experiment root,
/// and the names for which compiled-artifact caches exist.
pub struct ExStore {
    pub entries: Vec<Experiment>,
    pub target_dirs: Vec<String>,
}

impl ExStore {
    /// At most one record per experiment name, and at most one noted
    /// artifact cache per name.
    pub open spec fn wf(self) -> bool {
        names_distinct(self.entries@) && str_names_distinct(self.target_dirs@)
    }

    /// The record persisted under a name, if any.
    pub open spec fn lookup_name(self, n: Seq<char>) -> Option<Experiment> {
        lookup(self.entries@, n)
    }

    /// Whether a compiled-artifact cache exists for a name.
    pub open spec fn has_targets(self, n: Seq<char>) -> bool {
        has_name(self.target_dirs@, n)
    }

    /// An empty store: nothing persisted yet.
    pub fn new() -> (s: ExStore)
        ensures
            s.wf(),
            s.entries@.len() == 0,
            s.target_dirs@.len() == 0,
    {
        ExStore { entries: Vec::new(), target_dirs: Vec::new() }
    }

    /// The index of the record stored under `ex_name`, if any.
    fn find_index(&self, ex_name: &str) -> (r: Option<usize>)
        ensures
            match r {
                Some(i) => 0 <= i < self.entries@.len() && self.entries@[i as int].name@
                    == ex_name@ && forall|q: int|
                    0 <= q < i ==> self.entries@[q].name@ != ex_name@,
                None => forall|q: int|
                    0 <= q < self.entries@.len() ==> self.entries@[q].name@ != ex_name@,
            },
    {
        let mut i: usize = 0;
        while i < self.entries.len()
            invariant
                0 <= i <= self.entries@.len(),
                forall|q: int| 0 <= q < i ==> self.entries@[q].name@ != ex_name@,
            decreases self.entries@.len() - i,
        {
            if str_eq(self.entries[i].name.as_str(), ex_name) {
                return Some(i);
            }
            i = i + 1;
        }
        None
    }

    /// Loads the record persisted under a name; fails with
    /// `NotFound` exactly when no such experiment exists.
    pub fn load(&self, ex_name: &str) -> (r: Result<Experiment, ExError>)
        requires
            self.wf(),
        ensures
            match self.lookup_name(ex_name@) {
                Some(e) => r matches Ok(v) && v.name@ == e.name@ && v.crates@ == e.crates@
                    && v.toolchains@ == e.toolchains@ && v.mode == e.mode && v.cap_lints
                    == e.cap_lints && opt_str_matches(v.rustflags, e.rustflags),
                None => r matches Err(e) && (e matches ExError::NotFound(s) && s@ == ex_name@),
            },
    {
        match self.find_index(ex_name) {
            Some(i) => {
                proof {
                    lemma_lookup_at(self.entries@, i as int);
                }
                Ok(self.entries[i].duplicate())
            },
            None => {
                proof {
                    lemma_lookup_none(self.entries@, ex_name@);
                }
                Err(ExError::NotFound(ex_name.to_owned()))
            },
        }
    }

    /// Removes the record persisted under a name, if any. Deleting a
    /// non-existent experiment succeeds without error.
    pub fn delete(&mut self, ex_name: &str) -> (r: Result<(), ExError>)
        requires
            old(self).wf(),
        ensures
            r is Ok,
            final(self).wf(),
            final(self).lookup_name(ex_name@) is None,
            forall|m: Seq<char>|
                m != ex_name@ ==> final(self).lookup_name(m) == old(self).lookup_name(m),
            final(self).target_dirs@ == old(self).target_dirs@,
    {
        match self.find_index(ex_name) {
            Some(i) => {
                let ghost before: Seq<Experiment> = self.entries@;
                let _ = self.entries.remove(i);
                proof {
                    assert(forall|q: int|
                        0 <= q < self.entries@.len() ==> self.entries@[q] == (if q < i as int {
                            before[q]
                        } else {
                            before[q + 1]
                        }));
                    lemma_lookup_none(self.entries@, ex_name@);
                    assert forall|m: Seq<char>| m != ex_name@ implies lookup(self.entries@, m)
                        == lookup(before, m) by {
                        lemma_lookup_remove_other(before, i as int, m);
                    }
                }
                Ok(())
            },
            None => {
                proof {
                    lemma_lookup_none(self.entries@, ex_name@);
                }
                Ok(())
            },
        }
    }

    /// Constructs the record for a resolved package list, validates
    /// it, and persists it under its name (replacing any record of the
    /// same name). Fails, leaving the store unchanged, exactly when
    /// validation rejects the configuration.
    pub fn define_(
        &mut self,
        ex_name: &str,
        toolchains: Vec<Toolchain>,
        crates: Vec<Crate>,
        mode: ExMode,
        cap_lints: ExCapLints,
        rustflags: Option<String>,
    ) -> (r: Result<(), ExError>)
        requires
            old(self).wf(),
            toolchains@.len() == 2,
        ensures
            final(self).wf(),
            final(self).target_dirs@ == old(self).target_dirs@,
            forall|m: Seq<char>|
                m != ex_name@ ==> final(self).lookup_name(m) == old(self).lookup_name(m),
            r is Ok <==> valid_config(toolchains@, rustflags),
            r is Ok ==> (final(self).lookup_name(ex_name@) matches Some(e) && e.name@ == ex_name@
                && e.crates@ == crates@ && e.toolchains@ == toolchains@ && e.mode == mode
                && e.cap_lints == cap_lints && opt_str_matches(e.rustflags, rustflags)),
            r is Err ==> final(self).entries@ == old(self).entries@,
            r matches Err(err) ==> err matches ExError::Config(_),
    {
        let ex = Experiment {
            name: ex_name.to_owned(),
            crates,
            toolchains,
            mode,
            cap_lints,
            rustflags,
        };
        if let Err(e) = ex.validate() {
            return Err(e);
        }
        match self.find_index(ex_name) {
            Some(i) => {
                let ghost before: Seq<Experiment> = self.entries@;
                let _ = self.entries.remove(i);
                proof {
                    assert(forall|q: int|
                        0 <= q < self.entries@.len() ==> self.entries@[q] == (if q < i as int {
                            before[q]
                        } else {
                            before[q + 1]
                        }));
                    assert forall|m: Seq<char>| m != ex_name@ implies lookup(self.entries@, m)
                        == lookup(before, m) by {
                        lemma_lookup_remove_other(before, i as int, m);
                    }
                }
            },
            None => {},
        }
        let ghost mid: Seq<Experiment> = self.entries@;
        proof {
            assert(forall|q: int| 0 <= q < mid.len() ==> mid[q].name@ != ex_name@);
        }
        self.entries.push(ex);
        proof {
            lemma_lookup_push_new(mid, self.entries@.last());
            assert forall|m: Seq<char>| m != ex_name@ implies lookup(self.entries@, m) == lookup(
                mid,
                m,
            ) by {
                lemma_lookup_push_other(mid, self.entries@.last(), m);
            }
            assert(self.entries@ =~= mid.push(self.entries@.last()));
        }
        Ok(())
    }

    /// Defines an experiment: deletes any stale record of the same
    /// name, resolves the corpus selection, validates, and persists.
    /// On failure the stale record is already gone, and nothing new is
    /// persisted.
    pub fn define(
        &mut self,
        opts: ExOpts,
        full: &Vec<Crate>,
        ranked: &Vec<Crate>,
        demo_names: &Vec<String>,
        demo_repos: &Vec<String>,
    ) -> (r: Result<(), ExError>)
        requires
            old(self).wf(),
            opts.toolchains@.len() == 2,
            demo_names@.len() + demo_repos@.len() <= usize::MAX,
        ensures
            final(self).wf(),
            final(self).target_dirs@ == old(self).target_dirs@,
            forall|m: Seq<char>|
                m != opts.name@ ==> final(self).lookup_name(m) == old(self).lookup_name(m),
            r is Ok ==> (final(self).lookup_name(opts.name@) matches Some(e) && e.name@
                == opts.name@ && e.toolchains@ == opts.toolchains@ && e.mode == opts.mode
                && e.cap_lints == opts.cap_lints && opt_str_matches(e.rustflags, opts.rustflags)
                && selection_post(opts.crates, full@, ranked@, demo_names@, demo_repos@, e.crates@)),
            r is Err ==> final(self).lookup_name(opts.name@) is None,
            r matches Err(err) ==> (err matches ExError::CorpusConsistency { expected: _, found: _ }
                || err matches ExError::Config(_)),
            r is Ok <==> ((opts.crates != ExCrateSelect::Demo || demo_filter(
                full@,
                dedup_views(str_views(demo_names@)),
                str_views(demo_repos@),
            ).len() == dedup_views(str_views(demo_names@)).len() + demo_repos@.len())
                && valid_config(opts.toolchains@, opts.rustflags)),
    {
        let ExOpts { name, toolchains, mode, crates: sel, cap_lints, rustflags } = opts;
        let del = self.delete(name.as_str());
        if let Err(e) = del {
            return Err(e);
        }
        match get_crates(sel, full, ranked, demo_names, demo_repos) {
            Ok(crates) => self.define_(
                name.as_str(),
                toolchains,
                crates,
                mode,
                cap_lints,
                rustflags,
            ),
            Err(e) => Err(e),
        }
    }

    /// Duplicates the record persisted under `ex1_name` to the name
    /// `ex2_name`. Fails, leaving the store unchanged, when the source
    /// does not exist or the destination already does; otherwise the
    /// duplicate is an independent record under the new name.
    pub fn copy(&mut self, ex1_name: &str, ex2_name: &str) -> (r: Result<(), ExError>)
        requires
            old(self).wf(),
        ensures
            final(self).wf(),
            final(self).target_dirs@ == old(self).target_dirs@,
            old(self).lookup_name(ex1_name@) is None ==> (r matches Err(e) && (e
                matches ExError::NotFound(s) && s@ == ex1_name@) && final(self).entries@ == old(
                self,
            ).entries@),
            (old(self).lookup_name(ex1_name@) is Some && old(self).lookup_name(ex2_name@) is Some)
                ==> (r matches Err(e) && (e matches ExError::AlreadyExists(s) && s@ == ex2_name@)
                && final(self).entries@ == old(self).entries@),
            (old(self).lookup_name(ex1_name@) is Some && old(self).lookup_name(ex2_name@) is None)
                ==> ({
                let src = old(self).lookup_name(ex1_name@)->Some_0;
                &&& r is Ok
                &&& (final(self).lookup_name(ex2_name@) matches Some(d) && d.name@ == ex2_name@
                    && d.crates@ == src.crates@ && d.toolchains@ == src.toolchains@ && d.mode
                    == src.mode && d.cap_lints == src.cap_lints && opt_str_matches(
                    d.rustflags,
                    src.rustflags,
                ))
                &&& forall|m: Seq<char>|
                    m != ex2_name@ ==> final(self).lookup_name(m) == old(self).lookup_name(m)
            }),
    {
        let src_idx = match self.find_index(ex1_name) {
            Some(i) => {
                proof {
                    lemma_lookup_at(self.entries@, i as int);
                }
                i
            },
            None => {
                proof {
                    lemma_lookup_none(self.entries@, ex1_name@);
                }
                return Err(ExError::NotFound(ex1_name.to_owned()));
            },
        };
        match self.find_index(ex2_name) {
            Some(j) => {
                proof {
                    lemma_lookup_at(self.entries@, j as int);
                }
                return Err(ExError::AlreadyExists(ex2_name.to_owned()));
            },
            None => {
                proof {
                    lemma_lookup_none(self.entries@, ex2_name@);
                }
            },
        }
        let e = self.entries[src_idx].duplicate();
        let dup = Experiment {
            name: ex2_name.to_owned(),
            crates: e.crates,
            toolchains: e.toolchains,
            mode: e.mode,
            cap_lints: e.cap_lints,
            rustflags: e.rustflags,
        };
        let ghost before: Seq<Experiment> = self.entries@;
        self.entries.push(dup);
        proof {
            lemma_lookup_push_new(before, self.entries@.last());
            assert forall|m: Seq<char>| m != ex2_name@ implies lookup(self.entries@, m) == lookup(
                before,
                m,
            ) by {
                lemma_lookup_push_other(before, self.entries@.last(), m);
            }
            assert(self.entries@ =~= before.push(self.entries@.last()));
        }
        Ok(())
    }

    /// The index of the noted artifact cache for `ex_name`, if any.
    fn find_target_index(&self, ex_name: &str) -> (r: Option<usize>)
        ensures
            match r {
                Some(i) => 0 <= i < self.target_dirs@.len() && self.target_dirs@[i as int]@
                    == ex_name@,
                None => !self.has_targets(ex_name@),
            },
    {
        let mut i: usize = 0;
        while i < self.target_dirs.len()
            invariant
                0 <= i <= self.target_dirs@.len(),
                forall|q: int| 0 <= q < i ==> self.target_dirs@[q]@ != ex_name@,
            decreases self.target_dirs@.len() - i,
        {
            if str_eq(self.target_dirs[i].as_str(), ex_name) {
                return Some(i);
            }
            i = i + 1;
        }
        None
    }

    /// Notes that a compiled-artifact cache exists for a name.
    pub fn record_target_dir(&mut self, ex_name: &str)
        requires
            old(self).wf(),
        ensures
            final(self).wf(),
            final(self).entries@ == old(self).entries@,
            final(self).has_targets(ex_name@),
            forall|m: Seq<char>| m != ex_name@ ==> final(self).has_targets(m) == old(
                self,
            ).has_targets(m),
    {
        match self.find_target_index(ex_name) {
            Some(i) => {
                proof {
                    assert(self.target_dirs@[i as int]@ == ex_name@);
                }
            },
            None => {
                let ghost before: Seq<String> = self.target_dirs@;
                self.target_dirs.push(ex_name.to_owned());
                proof {
                    assert(self.target_dirs@.last()@ == ex_name@);
                    assert forall|m: Seq<char>| m != ex_name@ implies has_name(
                        self.target_dirs@,
                        m,
                    ) == has_name(before, m) by {
                        if has_name(before, m) {
                            let q = choose|q: int| 0 <= q < before.len() && before[q]@ == m;
                            assert(self.target_dirs@[q]@ == m);
                        }
                        if has_name(self.target_dirs@, m) {
                            let q = choose|q: int|
                                0 <= q < self.target_dirs@.len() && self.target_dirs@[q]@ == m;
                            assert(before[q]@ == m);
                        }
                    }
                }
            },
        }
    }

    /// Removes the compiled-artifact caches for a name; a no-op if
    /// none exist. Never an error, and never touches the records.
    pub fn delete_all_target_dirs(&mut self, ex_name: &str) -> (r: Result<(), ExError>)
        requires
            old(self).wf(),
        ensures
            r is Ok,
            final(self).wf(),
            final(self).entries@ == old(self).entries@,
            !final(self).has_targets(ex_name@),
            forall|m: Seq<char>| m != ex_name@ ==> final(self).has_targets(m) == old(
                self,
            ).has_targets(m),
    {
        match self.find_target_index(ex_name) {
            Some(i) => {
                let ghost before: Seq<String> = self.target_dirs@;
                let _ = self.target_dirs.remove(i);
                proof {
                    assert(forall|q: int|
                        0 <= q < self.target_dirs@.len() ==> self.target_dirs@[q] == (
                        if q < i as int {
                            before[q]
                        } else {
                            before[q + 1]
                        }));
                    assert(forall|q: int|
                        0 <= q < self.target_dirs@.len() ==> self.target_dirs@[q]@ != ex_name@);
                    assert forall|m: Seq<char>| m != ex_name@ implies has_name(
                        self.target_dirs@,
                        m,
                    ) == has_name(before, m) by {
                        lemma_has_name_remove(before, i as int, m);
                    }
                }
                Ok(())
            },
            None => Ok(()),
        }
    }

    /// Whether a compiled-artifact cache exists for a name.
    pub fn has_target_dirs(&self, ex_name: &str) -> (r: bool)
        ensures
            r == self.has_targets(ex_name@),
    {
        match self.find_target_index(ex_name) {
            Some(i) => {
                proof {
                    assert(self.target_dirs@[i as int]@ == ex_name@);
                }
                true
            },
            None => false,
        }
    }
}

} // verus!
