//! Experiment definition and matrix execution for mass regression
//! testing of a toolchain against a corpus of third-party packages.
//!
//! An experiment names a package list, exactly two toolchains under
//! comparison, a build mode and a lint policy. The library holds the
//! data model and its validation rules, corpus selection, the
//! persisted-store operations, per-task working-directory isolation,
//! dependency-lock capture, mirror bookkeeping, and the
//! failure-isolated recording of task outcomes. What only the outside
//! world can do — disk, subprocesses, the network — enters through
//! plain values at the boundary of each operation.

pub mod errors;
pub mod strutil;
pub mod types;
pub mod experiment;
pub mod order;
pub mod select;
pub mod store;
pub mod workdir;
pub mod mirror;
pub mod engine;
