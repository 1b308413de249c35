//! The error taxonomy of the synchronization pipeline.

use vstd::prelude::*;

verus! {

/// Every way a pipeline step can fail. Each operation's contract states
/// exactly which inputs produce which variant.
#[derive(Clone, Copy, Debug, PartialEq, Eq, Structural)]
pub enum SyncError {
    /// Adding a remote whose name is already taken.
    RemoteExists,
    /// Looking up, retargeting or removing a remote that does not exist.
    RemoteNotFound,
    /// Operating on a local branch that does not exist.
    BranchNotFound,
    /// Creating a local branch whose name is already taken.
    BranchExists,
    /// Resolving a path that is absent from the source tree.
    PathNotFound,
    /// Resolving a path that names a directory where a file is required.
    NotARegularFile,
    /// A hosting-platform query whose reply cannot be parsed.
    PlatformQuery,
    /// A fetch that failed on the network (possibly transient).
    Fetch,
    /// A push that failed on the network.
    Push,
    /// A merge that cannot be applied mechanically: conflicting content
    /// without a resolution policy, or unrelated histories without the
    /// flag that allows them.
    MergeConflict,
    /// A working-tree write that failed on the filesystem.
    IoWrite,
}

} // verus!
