use vstd::prelude::*;

verus! {

/// Which experiment-definition invariant was violated.
#[derive(Debug, PartialEq, Eq, Structural, Clone, Copy)]
pub enum ConfigIssue {
    /// The two toolchains under comparison are the same.
    SameToolchain,
    /// A compiler-flag override is set but neither toolchain honors it.
    RustflagsNotUsed,
    /// A toolchain honors a compiler-flag override but none is set.
    RustflagsMissing,
}

/// A typed failure of one of the library's operations.
#[derive(Debug)]
pub enum ExError {
    /// The experiment definition is invalid.
    Config(ConfigIssue),
    /// No experiment of this name is persisted.
    NotFound(String),
    /// An experiment of this name already exists (copy destination).
    AlreadyExists(String),
    /// The curated demo list and the live corpus have diverged:
    /// the number of matches differs from the expected count.
    CorpusConsistency { expected: usize, found: usize },
    /// The version-control query in a mirror directory produced no
    /// usable commit id; holds the offending repository slug.
    ShaCapture(String),
    /// Writing a captured commit id to the result sink failed; holds
    /// the slug of the package whose record could not be written.
    SinkWrite(String),
    /// The build tool failed while working on a package; holds the
    /// identity of the failing package.
    BuildTool(String),
    /// Dependency resolution could not generate a lock file for a
    /// package; holds the identity of the failing package.
    Lockfile(String),
    /// A toolchain could not be prepared; holds the toolchain's
    /// identifier. Experiment-fatal, unlike per-package failures.
    ToolchainPrepare(String),
}

} // verus!
