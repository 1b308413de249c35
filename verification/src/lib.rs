//! A fork-synchronization model: the ordered sequence of remote, branch,
//! merge and restore operations that keeps a derived repository aligned
//! with its upstream while preserving repository-specific override files.
//!
//! The library models the repository (remotes, branches, commits, trees,
//! working tree, index) as plain data and verifies every decision the
//! pipeline makes: which paths an override sweep restores, how a merge
//! with the "theirs" policy resolves conflicts, when an operation fails
//! and with which error, and what the final state of a full run looks
//! like. A driver program performs the actual repository, filesystem and
//! network calls and mirrors the verified pipeline step by step.

use vstd::prelude::*;

pub mod errors;
pub mod smap;
pub mod tree;
pub mod sweep;
pub mod merge;
pub mod repo;
pub mod platform;
pub mod orchestrator;

verus! {

} // verus!
