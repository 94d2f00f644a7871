use vstd::prelude::*;
use vstd::string::StringExecFns;
use crate::strutil::str_ends_with;

verus! {

/// What the build tool is asked to do for every task of the experiment.
#[derive(Debug, Clone, Copy, PartialEq, Eq, Structural)]
pub enum ExMode {
    BuildAndTest,
    BuildOnly,
    CheckOnly,
    UnstableFeatures,
}

/// How the corpus of packages for an experiment is selected.
#[derive(Debug, Clone, Copy, PartialEq, Eq, Structural)]
pub enum ExCrateSelect {
    Full,
    Demo,
    SmallRandom,
    Top100,
}

/// How strictly compiler diagnostics are capped during a build.
#[derive(Debug, Clone, Copy, PartialEq, Eq, Structural)]
pub enum ExCapLints {
    Allow,
    Warn,
    Deny,
    Forbid,
}

/// One compiler variant under comparison: an identifier, and whether it
/// honors the experiment's compiler-flag override.
#[derive(Debug, Clone, PartialEq, Eq)]
pub struct Toolchain {
    pub id: String,
    pub enable_rustflags: bool,
}

/// Equality of toolchain descriptors, over their views.
pub open spec fn tc_matches(a: Toolchain, b: Toolchain) -> bool {
    a.id@ == b.id@ && a.enable_rustflags == b.enable_rustflags
}

impl Toolchain {
    /// Reads a toolchain descriptor: the whole string is the identifier,
    /// and a trailing `+rustflags` marks the toolchain as honoring the
    /// experiment's compiler-flag override.
    pub fn parse(s: &str) -> (tc: Toolchain)
        ensures
            tc.id@ == s@,
            tc.enable_rustflags == ("+rustflags"@).is_suffix_of(s@),
    {
        let enable_rustflags = str_ends_with(s, "+rustflags");
        Toolchain { id: s.to_owned(), enable_rustflags }
    }

    /// An equal copy of this descriptor.
    pub fn duplicate(&self) -> (r: Toolchain)
        ensures
            tc_matches(r, *self),
    {
        Toolchain { id: self.id.clone(), enable_rustflags: self.enable_rustflags }
    }

    /// Whether two descriptors denote the same toolchain.
    pub fn same_as(&self, other: &Toolchain) -> (r: bool)
        ensures
            r == tc_matches(*self, *other),
    {
        self.id == other.id && self.enable_rustflags == other.enable_rustflags
    }
}

/// A package taken from the package registry, pinned to a version.
#[derive(Debug, Clone, PartialEq, Eq)]
pub struct RegistryCrate {
    pub name: String,
    pub version: String,
}

/// A package hosted in a source repository, identified by its
/// organization and repository name.
#[derive(Debug, Clone, PartialEq, Eq)]
pub struct GitHubRepo {
    pub org: String,
    pub name: String,
}

impl GitHubRepo {
    /// The `org/name` form of this repository's identity.
    pub open spec fn slug_view(self) -> Seq<char> {
        self.org@ + "/"@ + self.name@
    }

    /// The address of the repository, against which the curated demo
    /// list's suffixes are matched.
    pub open spec fn url_view(self) -> Seq<char> {
        "https://github.com/"@ + self.slug_view()
    }

    pub fn slug(&self) -> (r: String)
        ensures
            r@ == self.slug_view(),
    {
        let r = self.org.clone().concat("/").concat(self.name.as_str());
        proof {
            assert(r@ =~= self.slug_view());
        }
        r
    }

    pub fn url(&self) -> (r: String)
        ensures
            r@ == self.url_view(),
    {
        let r = String::from_str("https://github.com/")
            .concat(self.org.as_str())
            .concat("/")
            .concat(self.name.as_str());
        proof {
            assert(r@ =~= self.url_view());
        }
        r
    }
}

/// A unit of third-party code to build: either a registry package or a
/// source-repository package.
#[derive(Debug, Clone, PartialEq, Eq)]
pub enum Crate {
    Registry(RegistryCrate),
    GitHub(GitHubRepo),
}

/// Equality of packages, over the views of their identity fields.
pub open spec fn crate_matches(a: Crate, b: Crate) -> bool {
    match (a, b) {
        (Crate::Registry(ra), Crate::Registry(rb)) => ra.name@ == rb.name@ && ra.version@
            == rb.version@,
        (Crate::GitHub(ga), Crate::GitHub(gb)) => ga.org@ == gb.org@ && ga.name@ == gb.name@,
        _ => false,
    }
}

impl Crate {
    /// The identity a package is named by in build directories and in
    /// task outcomes: `name-version` for registry packages, `org/name`
    /// for source-repository packages.
    pub open spec fn id_view(self) -> Seq<char> {
        match self {
            Crate::Registry(r) => r.name@ + "-"@ + r.version@,
            Crate::GitHub(g) => g.slug_view(),
        }
    }

    pub fn id(&self) -> (r: String)
        ensures
            r@ == self.id_view(),
    {
        match self {
            Crate::Registry(rc) => {
                let r = rc.name.clone().concat("-").concat(rc.version.as_str());
                proof {
                    assert(r@ =~= self.id_view());
                }
                r
            },
            Crate::GitHub(repo) => repo.slug(),
        }
    }

    /// An equal copy of this package.
    pub fn duplicate(&self) -> (r: Crate)
        ensures
            r == *self,
    {
        match self {
            Crate::Registry(rc) => Crate::Registry(
                RegistryCrate { name: rc.name.clone(), version: rc.version.clone() },
            ),
            Crate::GitHub(repo) => Crate::GitHub(
                GitHubRepo { org: repo.org.clone(), name: repo.name.clone() },
            ),
        }
    }
}

/// An equal copy of a package list.
pub fn duplicate_crates(v: &Vec<Crate>) -> (r: Vec<Crate>)
    ensures
        r@ == v@,
{
    let mut r: Vec<Crate> = Vec::new();
    let mut i: usize = 0;
    while i < v.len()
        invariant
            0 <= i <= v@.len(),
            r@ =~= v@.take(i as int),
        decreases v@.len() - i,
    {
        r.push(v[i].duplicate());
        proof {
            assert(r@ =~= v@.take(i + 1));
        }
        i = i + 1;
    }
    proof {
        assert(v@.take(v@.len() as int) =~= v@);
    }
    r
}

} // verus!
