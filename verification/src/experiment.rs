use vstd::prelude::*;
use crate::types::{Crate, Toolchain, ExMode, ExCapLints, ExCrateSelect, tc_matches, crate_matches, duplicate_crates};
use crate::errors::{ExError, ConfigIssue};

verus! {

/// The persisted description of an experiment: a named build/test
/// matrix of packages against exactly two toolchains.
#[derive(Debug, Clone, PartialEq, Eq)]
pub struct Experiment {
    pub name: String,
    pub crates: Vec<Crate>,
    pub toolchains: Vec<Toolchain>,
    pub mode: ExMode,
    pub cap_lints: ExCapLints,
    pub rustflags: Option<String>,
}

/// What a caller hands to `define`: like an `Experiment`, but with a
/// corpus selection mode in place of a resolved package list.
#[derive(Debug, Clone)]
pub struct ExOpts {
    pub name: String,
    pub toolchains: Vec<Toolchain>,
    pub mode: ExMode,
    pub crates: ExCrateSelect,
    pub cap_lints: ExCapLints,
    pub rustflags: Option<String>,
}

pub open spec fn crates_match(a: Seq<Crate>, b: Seq<Crate>) -> bool {
    a.len() == b.len() && forall|i: int| 0 <= i < a.len() ==> crate_matches(a[i], b[i])
}

pub open spec fn tcs_match(a: Seq<Toolchain>, b: Seq<Toolchain>) -> bool {
    a.len() == b.len() && forall|i: int| 0 <= i < a.len() ==> tc_matches(a[i], b[i])
}

pub open spec fn opt_str_matches(a: Option<String>, b: Option<String>) -> bool {
    match (a, b) {
        (Option::Some(x), Option::Some(y)) => x@ == y@,
        (Option::None, Option::None) => true,
        _ => false,
    }
}

/// Equality of experiment records, over the views of their fields.
pub open spec fn ex_matches(a: Experiment, b: Experiment) -> bool {
    &&& a.name@ == b.name@
    &&& crates_match(a.crates@, b.crates@)
    &&& tcs_match(a.toolchains@, b.toolchains@)
    &&& a.mode == b.mode
    &&& a.cap_lints == b.cap_lints
    &&& opt_str_matches(a.rustflags, b.rustflags)
}

/// The experiment-definition invariants, over a toolchain pair and an
/// optional compiler-flag override: the two toolchains are distinct,
/// and the override is present if and only if at least one toolchain
/// honors it.
pub open spec fn valid_config(tcs: Seq<Toolchain>, rustflags: Option<String>) -> bool {
    &&& !tc_matches(tcs[0], tcs[1])
    &&& (rustflags is Some <==> (tcs[0].enable_rustflags || tcs[1].enable_rustflags))
}

impl Experiment {
    /// An experiment compares exactly two toolchains.
    pub open spec fn wf(self) -> bool {
        self.toolchains@.len() == 2
    }

    /// The record's invariants.
    pub open spec fn spec_valid(self) -> bool {
        valid_config(self.toolchains@, self.rustflags)
    }

    /// Checks the record's invariants, reporting the first violated
    /// rule. Rejects identical toolchains, and rejects a configuration
    /// where exactly one of {flag override present, flag-aware
    /// toolchain present} holds.
    pub fn validate(&self) -> (r: Result<(), ExError>)
        requires
            self.wf(),
        ensures
            r is Ok <==> self.spec_valid(),
            tc_matches(self.toolchains@[0], self.toolchains@[1]) ==> (r matches Err(e) && e
                == ExError::Config(ConfigIssue::SameToolchain)),
            (!tc_matches(self.toolchains@[0], self.toolchains@[1]) && self.rustflags is Some
                && !self.toolchains@[0].enable_rustflags && !self.toolchains@[1].enable_rustflags)
                ==> (r matches Err(e) && e == ExError::Config(ConfigIssue::RustflagsNotUsed)),
            (!tc_matches(self.toolchains@[0], self.toolchains@[1]) && self.rustflags is None
                && (self.toolchains@[0].enable_rustflags || self.toolchains@[1].enable_rustflags))
                ==> (r matches Err(e) && e == ExError::Config(ConfigIssue::RustflagsMissing)),
    {
        if self.toolchains[0].same_as(&self.toolchains[1]) {
            return Err(ExError::Config(ConfigIssue::SameToolchain));
        }
        if self.rustflags.is_some() && !self.toolchains[0].enable_rustflags
            && !self.toolchains[1].enable_rustflags {
            return Err(ExError::Config(ConfigIssue::RustflagsNotUsed));
        }
        if self.rustflags.is_none() && (self.toolchains[0].enable_rustflags
            || self.toolchains[1].enable_rustflags) {
            return Err(ExError::Config(ConfigIssue::RustflagsMissing));
        }
        Ok(())
    }

    /// An equal copy of this record.
    pub fn duplicate(&self) -> (r: Experiment)
        ensures
            r.name@ == self.name@,
            r.crates@ == self.crates@,
            r.toolchains@ == self.toolchains@,
            r.mode == self.mode,
            r.cap_lints == self.cap_lints,
            opt_str_matches(r.rustflags, self.rustflags),
            ex_matches(r, *self),
    {
        let rustflags = match &self.rustflags {
            Some(s) => Some(s.clone()),
            None => None,
        };
        Experiment {
            name: self.name.clone(),
            crates: duplicate_crates(&self.crates),
            toolchains: duplicate_toolchains(&self.toolchains),
            mode: self.mode,
            cap_lints: self.cap_lints,
            rustflags,
        }
    }
}

/// An equal copy of a toolchain list.
pub fn duplicate_toolchains(v: &Vec<Toolchain>) -> (r: Vec<Toolchain>)
    ensures
        r@ == v@,
{
    let mut r: Vec<Toolchain> = Vec::new();
    let mut i: usize = 0;
    while i < v.len()
        invariant
            0 <= i <= v@.len(),
            r@ =~= v@.take(i as int),
        decreases v@.len() - i,
    {
        let tc = Toolchain { id: v[i].id.clone(), enable_rustflags: v[i].enable_rustflags };
        r.push(tc);
        proof {
            assert(r@ =~= v@.take(i + 1));
        }
        i = i + 1;
    }
    proof {
        assert(v@.take(v@.len() as int) =~= v@);
    }
    r
}

} // verus!
