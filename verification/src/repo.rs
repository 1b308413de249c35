//! The repository model: remotes, local branches and their upstream
//! bindings, remote-tracking refs, the commit store, the working tree and
//! the index. Every pipeline operation is a function from one state to
//! the next, with its exact success and failure conditions.

use vstd::prelude::*;
use crate::errors::SyncError;
use crate::smap::{str_lookup, str_has_key, str_find, str_insert, str_remove_key};
use crate::tree::{RelPath, TreeEntry, EntryV, tree_lookup, tree_remove_key, retain_indexed,
    restore_path, restore_post};
use crate::merge::{Commit, clone_tree, merge_trees_theirs, union_roots, histories_related,
    histories_related_exec, theirs_merge_post};

verus! {

/// The whole modelled repository.
pub struct RepoState {
    /// Remote name to URL.
    pub remotes: Vec<(String, String)>,
    /// Local branch name to tip commit id.
    pub branch_tips: Vec<(String, usize)>,
    /// Local branch name to upstream remote-tracking ref name.
    pub upstreams: Vec<(String, String)>,
    /// Remote-tracking ref name to commit id.
    pub remote_refs: Vec<(String, usize)>,
    /// Remote name to whether its last fetch was shallow.
    pub shallow: Vec<(String, bool)>,
    /// The commit store; a commit's id is its position, so ids are stable
    /// and the store only grows.
    pub commits: Vec<Commit>,
    /// The name of the branch HEAD points at.
    pub head: String,
    /// The working tree.
    pub worktree: Vec<(RelPath, TreeEntry)>,
    /// The staged index.
    pub index: Vec<(RelPath, TreeEntry)>,
    /// Submodule path to URL.
    pub submodules: Vec<(String, String)>,
}

impl RepoState {
    /// Every branch tip and remote-tracking ref names a stored commit.
    pub open spec fn wf(self) -> bool {
        &&& forall|k: Seq<char>| (#[trigger] str_lookup(self.branch_tips@, k)) matches Some(t)
            ==> t < self.commits@.len()
        &&& forall|k: Seq<char>| (#[trigger] str_lookup(self.remote_refs@, k)) matches Some(t)
            ==> t < self.commits@.len()
    }

    /// The commit id HEAD resolves to, if its branch exists.
    pub open spec fn head_tip(self) -> Option<usize> {
        str_lookup(self.branch_tips@, self.head@)
    }

    /// Adds a remote; a second remote of the same name is refused.
    pub fn add_remote(self, name: String, url: String) -> (r: (RepoState, Result<(), SyncError>))
        ensures
            r.1 is Ok <==> !str_has_key(self.remotes@, name@),
            r.1 matches Err(e) ==> r.0 == self && e == SyncError::RemoteExists,
            r.1 is Ok ==> {
                &&& str_lookup(r.0.remotes@, name@) == Some(url@)
                &&& forall|k2: Seq<char>| k2 != name@
                    ==> str_lookup(r.0.remotes@, k2) == str_lookup(self.remotes@, k2)
                &&& r.0 == (RepoState { remotes: r.0.remotes, ..self })
            },
    {
        if str_find(&self.remotes, &name).is_some() {
            (self, Err(SyncError::RemoteExists))
        } else {
            let RepoState {
                remotes, branch_tips, upstreams, remote_refs, shallow, commits, head, worktree,
                index, submodules } = self;
            let remotes = str_insert(remotes, name, url);
            (RepoState {
                remotes, branch_tips, upstreams, remote_refs, shallow, commits, head, worktree,
                index, submodules }, Ok(()))
        }
    }

    /// Removes a remote; removing an absent one fails, and callers that
    /// only want the name gone use `remove_remote_tolerant`.
    pub fn remove_remote(self, name: &String) -> (r: (RepoState, Result<(), SyncError>))
        ensures
            r.1 is Ok <==> str_has_key(self.remotes@, name@),
            r.1 matches Err(e) ==> r.0 == self && e == SyncError::RemoteNotFound,
            r.1 is Ok ==> {
                &&& str_lookup(r.0.remotes@, name@) is None
                &&& forall|k2: Seq<char>| k2 != name@
                    ==> str_lookup(r.0.remotes@, k2) == str_lookup(self.remotes@, k2)
                &&& r.0 == (RepoState { remotes: r.0.remotes, ..self })
            },
    {
        if str_find(&self.remotes, name).is_none() {
            (self, Err(SyncError::RemoteNotFound))
        } else {
            let RepoState {
                remotes, branch_tips, upstreams, remote_refs, shallow, commits, head, worktree,
                index, submodules } = self;
            let remotes = str_remove_key(remotes, name);
            (RepoState {
                remotes, branch_tips, upstreams, remote_refs, shallow, commits, head, worktree,
                index, submodules }, Ok(()))
        }
    }

    /// Removes a remote if it exists; an absent name is not an error.
    /// This is the orchestrator-level tolerance for removing a stray
    /// `origin`: not-found is treated as success.
    pub fn remove_remote_tolerant(self, name: &String) -> (r: RepoState)
        ensures
            str_lookup(r.remotes@, name@) is None,
            forall|k2: Seq<char>| k2 != name@
                ==> str_lookup(r.remotes@, k2) == str_lookup(self.remotes@, k2),
            r == (RepoState { remotes: r.remotes, ..self }),
    {
        let RepoState {
            remotes, branch_tips, upstreams, remote_refs, shallow, commits, head, worktree,
            index, submodules } = self;
        let remotes = str_remove_key(remotes, name);
        RepoState {
            remotes, branch_tips, upstreams, remote_refs, shallow, commits, head, worktree,
            index, submodules }
    }

    /// Retargets an existing remote's URL.
    pub fn set_remote_url(self, name: String, url: String) -> (r: (RepoState, Result<(), SyncError>))
        ensures
            r.1 is Ok <==> str_has_key(self.remotes@, name@),
            r.1 matches Err(e) ==> r.0 == self && e == SyncError::RemoteNotFound,
            r.1 is Ok ==> {
                &&& str_lookup(r.0.remotes@, name@) == Some(url@)
                &&& forall|k2: Seq<char>| k2 != name@
                    ==> str_lookup(r.0.remotes@, k2) == str_lookup(self.remotes@, k2)
                &&& r.0 == (RepoState { remotes: r.0.remotes, ..self })
            },
    {
        if str_find(&self.remotes, &name).is_none() {
            (self, Err(SyncError::RemoteNotFound))
        } else {
            let RepoState {
                remotes, branch_tips, upstreams, remote_refs, shallow, commits, head, worktree,
                index, submodules } = self;
            let remotes = str_insert(remotes, name, url);
            (RepoState {
                remotes, branch_tips, upstreams, remote_refs, shallow, commits, head, worktree,
                index, submodules }, Ok(()))
        }
    }

    /// Looks a remote's URL up.
    pub fn find_remote_url(&self, name: &String) -> (r: Result<String, SyncError>)
        ensures
            r is Ok <==> str_has_key(self.remotes@, name@),
            match r {
                Ok(u) => str_lookup(self.remotes@, name@) == Some(u@),
                Err(e) => e == SyncError::RemoteNotFound,
            },
    {
        match str_find(&self.remotes, name) {
            Some(u) => Ok(u.clone()),
            None => Err(SyncError::RemoteNotFound),
        }
    }

    /// Binds a local branch's upstream tracking ref. The branch must
    /// already exist, and the upstream must name a known remote-tracking
    /// ref: an upstream, once set, references an existing ref.
    pub fn set_upstream(self, branch: &String, upstream: String) -> (r: (RepoState, Result<(), SyncError>))
        ensures
            r.1 is Ok <==> (str_has_key(self.branch_tips@, branch@)
                && str_has_key(self.remote_refs@, upstream@)),
            r.1 matches Err(e) ==> r.0 == self && e == SyncError::BranchNotFound,
            r.1 is Ok ==> {
                &&& str_lookup(r.0.upstreams@, branch@) == Some(upstream@)
                &&& forall|k2: Seq<char>| k2 != branch@
                    ==> str_lookup(r.0.upstreams@, k2) == str_lookup(self.upstreams@, k2)
                &&& r.0 == (RepoState { upstreams: r.0.upstreams, ..self })
            },
    {
        if str_find(&self.branch_tips, branch).is_none() {
            (self, Err(SyncError::BranchNotFound))
        } else if str_find(&self.remote_refs, &upstream).is_none() {
            (self, Err(SyncError::BranchNotFound))
        } else {
            let RepoState {
                remotes, branch_tips, upstreams, remote_refs, shallow, commits, head, worktree,
                index, submodules } = self;
            let upstreams = str_insert(upstreams, branch.clone(), upstream);
            (RepoState {
                remotes, branch_tips, upstreams, remote_refs, shallow, commits, head, worktree,
                index, submodules }, Ok(()))
        }
    }

    /// Stages all working-tree changes: the index becomes the working
    /// tree, path for path.
    pub fn stage_all(self) -> (r: RepoState)
        ensures
            forall|k: Seq<Seq<char>>| tree_lookup(r.index@, k) == tree_lookup(self.worktree@, k),
            r == (RepoState { index: r.index, ..self }),
    {
        let RepoState {
            remotes, branch_tips, upstreams, remote_refs, shallow, commits, head, worktree,
            index, submodules } = self;
        let index = clone_tree(&worktree);
        RepoState {
            remotes, branch_tips, upstreams, remote_refs, shallow, commits, head, worktree,
            index, submodules }
    }

    /// Cleans the working tree: every path the index does not hold is
    /// removed; staged paths keep their working-tree content.
    pub fn clean_untracked(self) -> (r: RepoState)
        ensures
            forall|k: Seq<Seq<char>>| tree_lookup(self.index@, k) is Some
                ==> tree_lookup(r.worktree@, k) == tree_lookup(self.worktree@, k),
            forall|k: Seq<Seq<char>>| tree_lookup(self.index@, k) is None
                ==> tree_lookup(r.worktree@, k) is None,
            r == (RepoState { worktree: r.worktree, ..self }),
    {
        let RepoState {
            remotes, branch_tips, upstreams, remote_refs, shallow, commits, head, worktree,
            index, submodules } = self;
        let worktree = retain_indexed(worktree, &index);
        RepoState {
            remotes, branch_tips, upstreams, remote_refs, shallow, commits, head, worktree,
            index, submodules }
    }

    /// Unstages one path from the index, leaving the working tree alone.
    pub fn unstage_path(self, path: &RelPath) -> (r: RepoState)
        ensures
            tree_lookup(r.index@, path@) is None,
            forall|k2: Seq<Seq<char>>| k2 != path@
                ==> tree_lookup(r.index@, k2) == tree_lookup(self.index@, k2),
            r == (RepoState { index: r.index, ..self }),
    {
        let RepoState {
            remotes, branch_tips, upstreams, remote_refs, shallow, commits, head, worktree,
            index, submodules } = self;
        let index = tree_remove_key(index, path);
        RepoState {
            remotes, branch_tips, upstreams, remote_refs, shallow, commits, head, worktree,
            index, submodules }
    }

    /// Records a submodule at a path.
    pub fn add_submodule(self, url: String, path: String) -> (r: RepoState)
        ensures
            str_lookup(r.submodules@, path@) == Some(url@),
            forall|k2: Seq<char>| k2 != path@
                ==> str_lookup(r.submodules@, k2) == str_lookup(self.submodules@, k2),
            r == (RepoState { submodules: r.submodules, ..self }),
    {
        let RepoState {
            remotes, branch_tips, upstreams, remote_refs, shallow, commits, head, worktree,
            index, submodules } = self;
        let submodules = str_insert(submodules, path, url);
        RepoState {
            remotes, branch_tips, upstreams, remote_refs, shallow, commits, head, worktree,
            index, submodules }
    }

    /// Points HEAD at an existing local branch.
    pub fn switch_branch(self, branch: &String) -> (r: (RepoState, Result<(), SyncError>))
        ensures
            r.1 is Ok <==> str_has_key(self.branch_tips@, branch@),
            r.1 matches Err(e) ==> r.0 == self && e == SyncError::BranchNotFound,
            r.1 is Ok ==> r.0.head@ == branch@ && r.0 == (RepoState { head: r.0.head, ..self }),
    {
        if str_find(&self.branch_tips, branch).is_none() {
            (self, Err(SyncError::BranchNotFound))
        } else {
            let RepoState {
                remotes, branch_tips, upstreams, remote_refs, shallow, commits, head, worktree,
                index, submodules } = self;
            let head = branch.clone();
            (RepoState {
                remotes, branch_tips, upstreams, remote_refs, shallow, commits, head, worktree,
                index, submodules }, Ok(()))
        }
    }

    /// Creates a branch at the commit HEAD points at, then switches to
    /// it: the new branch carries HEAD's tip and becomes HEAD. Creating a
    /// branch whose name is taken is refused.
    pub fn create_and_switch_branch(self, branch: String) -> (r: (RepoState, Result<(), SyncError>))
        ensures
            r.1 is Ok <==> (self.head_tip() is Some && !str_has_key(self.branch_tips@, branch@)),
            r.1 matches Err(e) ==> {
                &&& r.0 == self
                &&& (e == SyncError::BranchNotFound || e == SyncError::BranchExists)
                &&& (e == SyncError::BranchNotFound <==> self.head_tip() is None)
                &&& (e == SyncError::BranchExists <==> (self.head_tip() is Some
                    && str_has_key(self.branch_tips@, branch@)))
            },
            r.1 is Ok ==> {
                &&& str_lookup(r.0.branch_tips@, branch@) == self.head_tip()
                &&& forall|k2: Seq<char>| k2 != branch@
                    ==> str_lookup(r.0.branch_tips@, k2) == str_lookup(self.branch_tips@, k2)
                &&& r.0.head@ == branch@
                &&& r.0 == (RepoState { branch_tips: r.0.branch_tips, head: r.0.head, ..self })
                &&& self.wf() ==> r.0.wf()
            },
    {
        let tip: usize = match str_find(&self.branch_tips, &self.head) {
            None => {
                return (self, Err(SyncError::BranchNotFound));
            },
            Some(t) => *t,
        };
        if str_find(&self.branch_tips, &branch).is_some() {
            return (self, Err(SyncError::BranchExists));
        }
        let RepoState {
            remotes, branch_tips, upstreams, remote_refs, shallow, commits, head, worktree,
            index, submodules } = self;
        let ghost old_tips = branch_tips@;
        let branch_tips = str_insert(branch_tips, branch.clone(), tip);
        let head = branch;
        let st = RepoState {
            remotes, branch_tips, upstreams, remote_refs, shallow, commits, head, worktree,
            index, submodules };
        proof {
            if self.wf() {
                assert forall|k: Seq<char>| (#[trigger] str_lookup(st.branch_tips@, k)) is Some
                    implies str_lookup(st.branch_tips@, k).unwrap() < st.commits@.len() by {
                    if k != st.head@ {
                        assert(str_lookup(st.branch_tips@, k) == str_lookup(old_tips, k));
                    }
                }
            }
        }
        (st, Ok(()))
    }

    /// Fetches the tip of the branch named `main` from a remote: the
    /// incoming commit is stored, the remote-tracking ref for it is set,
    /// and the remote is marked shallow exactly when a positive depth
    /// bounds the fetch. The incoming commit stands for what the network
    /// delivered; the driver hands it in.
    pub fn fetch(self, remote_name: &String, depth: u32, incoming: Commit) -> (r: (RepoState, Result<(), SyncError>))
        ensures
            r.1 is Ok <==> str_has_key(self.remotes@, remote_name@),
            r.1 matches Err(e) ==> r.0 == self && e == SyncError::RemoteNotFound,
            r.1 is Ok ==> {
                &&& r.0.commits@ == self.commits@.push(incoming)
                &&& str_lookup(r.0.remote_refs@, remote_name@ + "/main"@)
                    == Some(self.commits@.len() as usize)
                &&& (str_lookup(r.0.remote_refs@, remote_name@ + "/main"@) matches Some(id)
                    ==> id == self.commits@.len())
                &&& forall|k2: Seq<char>| k2 != remote_name@ + "/main"@
                    ==> str_lookup(r.0.remote_refs@, k2) == str_lookup(self.remote_refs@, k2)
                &&& str_lookup(r.0.shallow@, remote_name@) == Some(depth > 0)
                &&& forall|k2: Seq<char>| k2 != remote_name@
                    ==> str_lookup(r.0.shallow@, k2) == str_lookup(self.shallow@, k2)
                &&& r.0 == (RepoState { commits: r.0.commits, remote_refs: r.0.remote_refs,
                    shallow: r.0.shallow, ..self })
                &&& self.wf() ==> r.0.wf()
            },
    {
        if str_find(&self.remotes, remote_name).is_none() {
            return (self, Err(SyncError::RemoteNotFound));
        }
        let ref_name = remote_name.clone().concat("/main");
        let RepoState {
            remotes, branch_tips, upstreams, remote_refs, shallow, commits, head, worktree,
            index, submodules } = self;
        let ghost old_refs = remote_refs@;
        let new_id: usize = commits.len();
        let mut commits = commits;
        commits.push(incoming);
        let remote_refs = str_insert(remote_refs, ref_name, new_id);
        let shallow = str_insert(shallow, remote_name.clone(), depth > 0);
        let st = RepoState {
            remotes, branch_tips, upstreams, remote_refs, shallow, commits, head, worktree,
            index, submodules };
        proof {
            if self.wf() {
                assert forall|k: Seq<char>| (#[trigger] str_lookup(st.remote_refs@, k)) is Some
                    implies str_lookup(st.remote_refs@, k).unwrap() < st.commits@.len() by {
                    if k != remote_name@ + "/main"@ {
                        assert(str_lookup(st.remote_refs@, k) == str_lookup(old_refs, k));
                    }
                }
            }
        }
        (st, Ok(()))
    }

    /// Converts a remote's fetch to full history. Idempotent: the remote
    /// ends up unshallow whatever it was before.
    pub fn fetch_unshallow(self, remote_name: &String) -> (r: (RepoState, Result<(), SyncError>))
        ensures
            r.1 is Ok <==> str_has_key(self.remotes@, remote_name@),
            r.1 matches Err(e) ==> r.0 == self && e == SyncError::RemoteNotFound,
            r.1 is Ok ==> {
                &&& str_lookup(r.0.shallow@, remote_name@) == Some(false)
                &&& forall|k2: Seq<char>| k2 != remote_name@
                    ==> str_lookup(r.0.shallow@, k2) == str_lookup(self.shallow@, k2)
                &&& r.0 == (RepoState { shallow: r.0.shallow, ..self })
            },
    {
        if str_find(&self.remotes, remote_name).is_none() {
            return (self, Err(SyncError::RemoteNotFound));
        }
        let RepoState {
            remotes, branch_tips, upstreams, remote_refs, shallow, commits, head, worktree,
            index, submodules } = self;
        let shallow = str_insert(shallow, remote_name.clone(), false);
        (RepoState {
            remotes, branch_tips, upstreams, remote_refs, shallow, commits, head, worktree,
            index, submodules }, Ok(()))
    }

    /// Creates the merge commit of HEAD's tip and another commit under
    /// the "theirs" policy and moves HEAD's branch to it.
    fn merge_commit_at(self, ours_id: usize, theirs_id: usize) -> (r: RepoState)
        requires
            self.wf(),
            ours_id < self.commits@.len(),
            theirs_id < self.commits@.len(),
        ensures
            r.commits@ == self.commits@.push(r.commits@.last()),
            theirs_merge_post(self.commits@[ours_id as int].tree@,
                self.commits@[theirs_id as int].tree@, r.commits@.last().tree@),
            forall|x: usize| r.commits@.last().roots@.contains(x)
                <==> (self.commits@[ours_id as int].roots@.contains(x)
                    || self.commits@[theirs_id as int].roots@.contains(x)),
            str_lookup(r.branch_tips@, self.head@) == Some(self.commits@.len() as usize),
            forall|k2: Seq<char>| k2 != self.head@
                ==> str_lookup(r.branch_tips@, k2) == str_lookup(self.branch_tips@, k2),
            r.head@ == self.head@,
            r == (RepoState { commits: r.commits, branch_tips: r.branch_tips, ..self }),
            r.wf(),
    {
        let new_tree = merge_trees_theirs(&self.commits[ours_id].tree, &self.commits[theirs_id].tree);
        let new_roots = union_roots(&self.commits[ours_id].roots, &self.commits[theirs_id].roots);
        let RepoState {
            remotes, branch_tips, upstreams, remote_refs, shallow, commits, head, worktree,
            index, submodules } = self;
        let ghost old_tips = branch_tips@;
        let ghost old_refs = remote_refs@;
        let new_id: usize = commits.len();
        let mut commits = commits;
        commits.push(Commit { tree: new_tree, roots: new_roots });
        let branch_tips = str_insert(branch_tips, head.clone(), new_id);
        let st = RepoState {
            remotes, branch_tips, upstreams, remote_refs, shallow, commits, head, worktree,
            index, submodules };
        proof {
            assert(st.commits@.last() == st.commits@[st.commits@.len() - 1]);
            assert forall|k: Seq<char>| (#[trigger] str_lookup(st.branch_tips@, k)) is Some
                implies str_lookup(st.branch_tips@, k).unwrap() < st.commits@.len() by {
                if k != st.head@ {
                    assert(str_lookup(st.branch_tips@, k) == str_lookup(old_tips, k));
                }
            }
            assert forall|k: Seq<char>| (#[trigger] str_lookup(st.remote_refs@, k)) is Some
                implies str_lookup(st.remote_refs@, k).unwrap() < st.commits@.len() by {
                assert(str_lookup(st.remote_refs@, k) == str_lookup(old_refs, k));
            }
        }
        st
    }

    /// Merges the parent branch tip into the current HEAD. Without the
    /// unrelated-histories flag the merge is refused when the two
    /// histories share no ancestor. On success HEAD's branch moves to a
    /// new merge commit; content the two sides dispute is carried the
    /// incoming side's way, the same resolution the pull that subsumes
    /// this step applies.
    pub fn merge_parent_into_head(self, parent_ref: &String, allow_unrelated: bool) -> (r: (RepoState, Result<(), SyncError>))
        requires
            self.wf(),
        ensures
            r.1 is Ok <==> ({
                let theirs = str_lookup(self.remote_refs@, parent_ref@);
                let ours = self.head_tip();
                &&& theirs is Some
                &&& ours is Some
                &&& (allow_unrelated || histories_related(
                    self.commits@[ours.unwrap() as int].roots@,
                    self.commits@[theirs.unwrap() as int].roots@))
            }),
            r.1 matches Err(e) ==> {
                &&& r.0 == self
                &&& (e == SyncError::BranchNotFound <==> (str_lookup(self.remote_refs@, parent_ref@) is None
                    || self.head_tip() is None))
                &&& (e == SyncError::MergeConflict <==> (str_lookup(self.remote_refs@, parent_ref@) is Some
                    && self.head_tip() is Some && !allow_unrelated && !histories_related(
                        self.commits@[self.head_tip().unwrap() as int].roots@,
                        self.commits@[str_lookup(self.remote_refs@, parent_ref@).unwrap() as int].roots@)))
                &&& (e == SyncError::BranchNotFound || e == SyncError::MergeConflict)
            },
            r.1 is Ok ==> ({
                let ours = self.head_tip().unwrap();
                let theirs = str_lookup(self.remote_refs@, parent_ref@).unwrap();
                &&& r.0.commits@ == self.commits@.push(r.0.commits@.last())
                &&& theirs_merge_post(self.commits@[ours as int].tree@,
                    self.commits@[theirs as int].tree@, r.0.commits@.last().tree@)
                &&& (forall|x: usize| r.0.commits@.last().roots@.contains(x)
                    <==> (self.commits@[ours as int].roots@.contains(x)
                        || self.commits@[theirs as int].roots@.contains(x)))
                &&& str_lookup(r.0.branch_tips@, self.head@) == Some(self.commits@.len() as usize)
                &&& forall|k2: Seq<char>| k2 != self.head@
                    ==> str_lookup(r.0.branch_tips@, k2) == str_lookup(self.branch_tips@, k2)
                &&& r.0 == (RepoState { commits: r.0.commits, branch_tips: r.0.branch_tips, ..self })
                &&& r.0.wf()
            }),
    {
        let theirs_id: usize = match str_find(&self.remote_refs, parent_ref) {
            None => {
                return (self, Err(SyncError::BranchNotFound));
            },
            Some(t) => *t,
        };
        let ours_id: usize = match str_find(&self.branch_tips, &self.head) {
            None => {
                return (self, Err(SyncError::BranchNotFound));
            },
            Some(t) => *t,
        };
        let related = histories_related_exec(&self.commits[ours_id].roots,
            &self.commits[theirs_id].roots);
        if !allow_unrelated && !related {
            return (self, Err(SyncError::MergeConflict));
        }
        let st = self.merge_commit_at(ours_id, theirs_id);
        (st, Ok(()))
    }

    /// Pulls from the current branch's configured upstream with
    /// unrelated histories allowed and the "theirs" conflict policy:
    /// at every path the upstream holds, its content wins, so the merge
    /// always applies mechanically. HEAD's branch moves to the new
    /// commit.
    pub fn pull_theirs(self) -> (r: (RepoState, Result<(), SyncError>))
        requires
            self.wf(),
        ensures
            r.1 is Ok <==> ({
                let up = str_lookup(self.upstreams@, self.head@);
                &&& up is Some
                &&& str_lookup(self.remote_refs@, up.unwrap()) is Some
                &&& self.head_tip() is Some
            }),
            r.1 matches Err(e) ==> r.0 == self && e == SyncError::BranchNotFound,
            r.1 is Ok ==> ({
                let up = str_lookup(self.upstreams@, self.head@).unwrap();
                let theirs = str_lookup(self.remote_refs@, up).unwrap();
                let ours = self.head_tip().unwrap();
                &&& r.0.commits@ == self.commits@.push(r.0.commits@.last())
                &&& theirs_merge_post(self.commits@[ours as int].tree@,
                    self.commits@[theirs as int].tree@, r.0.commits@.last().tree@)
                &&& (forall|x: usize| r.0.commits@.last().roots@.contains(x)
                    <==> (self.commits@[ours as int].roots@.contains(x)
                        || self.commits@[theirs as int].roots@.contains(x)))
                &&& str_lookup(r.0.branch_tips@, self.head@) == Some(self.commits@.len() as usize)
                &&& forall|k2: Seq<char>| k2 != self.head@
                    ==> str_lookup(r.0.branch_tips@, k2) == str_lookup(self.branch_tips@, k2)
                &&& r.0 == (RepoState { commits: r.0.commits, branch_tips: r.0.branch_tips, ..self })
                &&& r.0.wf()
            }),
    {
        let theirs_id: usize = match str_find(&self.upstreams, &self.head) {
            None => {
                return (self, Err(SyncError::BranchNotFound));
            },
            Some(up) => match str_find(&self.remote_refs, up) {
                None => {
                    return (self, Err(SyncError::BranchNotFound));
                },
                Some(t) => *t,
            },
        };
        let ours_id: usize = match str_find(&self.branch_tips, &self.head) {
            None => {
                return (self, Err(SyncError::BranchNotFound));
            },
            Some(t) => *t,
        };
        let st = self.merge_commit_at(ours_id, theirs_id);
        (st, Ok(()))
    }

    /// Pushes a refspec to a remote. The model checks the remote; what
    /// the network does to the other repository is outside it.
    pub fn push(&self, remote_name: &String, refspec: &String) -> (r: Result<(), SyncError>)
        ensures
            r is Ok <==> str_has_key(self.remotes@, remote_name@),
            r matches Err(e) ==> e == SyncError::RemoteNotFound,
    {
        if str_find(&self.remotes, remote_name).is_none() {
            Err(SyncError::RemoteNotFound)
        } else {
            Ok(())
        }
    }

    /// Pushes a branch (forced pushes carry the `+` prefix in their
    /// refspec) and binds the branch's upstream to the remote-tracking
    /// branch it was pushed to. The push brings the remote-tracking ref
    /// up to the branch's tip, so the binding always references an
    /// existing ref.
    pub fn push_set_upstream(self, remote_name: &String, branch: &String, force: bool) -> (r: (RepoState, Result<(), SyncError>))
        requires
            self.wf(),
        ensures
            r.1 is Ok <==> (str_has_key(self.remotes@, remote_name@)
                && str_has_key(self.branch_tips@, branch@)),
            r.1 matches Err(e) ==> {
                &&& r.0 == self
                &&& (e == SyncError::RemoteNotFound || e == SyncError::BranchNotFound)
                &&& (e == SyncError::RemoteNotFound <==> !str_has_key(self.remotes@, remote_name@))
                &&& (e == SyncError::BranchNotFound <==> (str_has_key(self.remotes@, remote_name@)
                    && !str_has_key(self.branch_tips@, branch@)))
            },
            r.1 is Ok ==> {
                &&& str_lookup(r.0.upstreams@, branch@) == Some(remote_name@ + "/"@ + branch@)
                &&& forall|k2: Seq<char>| k2 != branch@
                    ==> str_lookup(r.0.upstreams@, k2) == str_lookup(self.upstreams@, k2)
                &&& str_lookup(r.0.remote_refs@, remote_name@ + "/"@ + branch@)
                    == str_lookup(self.branch_tips@, branch@)
                &&& forall|k2: Seq<char>| k2 != remote_name@ + "/"@ + branch@
                    ==> str_lookup(r.0.remote_refs@, k2) == str_lookup(self.remote_refs@, k2)
                &&& r.0 == (RepoState { upstreams: r.0.upstreams,
                    remote_refs: r.0.remote_refs, ..self })
                &&& r.0.wf()
            },
    {
        let refspec = refspec_for(branch, force);
        match self.push(remote_name, &refspec) {
            Err(e) => {
                return (self, Err(e));
            },
            Ok(()) => {},
        }
        let tip: usize = match str_find(&self.branch_tips, branch) {
            None => {
                return (self, Err(SyncError::BranchNotFound));
            },
            Some(t) => *t,
        };
        let upstream = remote_name.clone().concat("/").concat(branch.as_str());
        let RepoState {
            remotes, branch_tips, upstreams, remote_refs, shallow, commits, head, worktree,
            index, submodules } = self;
        let ghost old_refs = remote_refs@;
        let remote_refs = str_insert(remote_refs, upstream.clone(), tip);
        let st = RepoState {
            remotes, branch_tips, upstreams, remote_refs, shallow, commits, head, worktree,
            index, submodules };
        proof {
            assert forall|k: Seq<char>| (#[trigger] str_lookup(st.remote_refs@, k)) is Some
                implies str_lookup(st.remote_refs@, k).unwrap() < st.commits@.len() by {
                if k != upstream@ {
                    assert(str_lookup(st.remote_refs@, k) == str_lookup(old_refs, k));
                }
            }
        }
        st.set_upstream(branch, upstream)
    }

    /// Hard-resets to a remote-tracking ref: the working tree and the
    /// index both become that commit's tree, and HEAD's branch moves to
    /// the commit, discarding whatever it pointed at.
    pub fn reset_hard_to_ref(self, ref_name: &String) -> (r: (RepoState, Result<(), SyncError>))
        requires
            self.wf(),
        ensures
            r.1 is Ok <==> str_has_key(self.remote_refs@, ref_name@),
            r.1 matches Err(e) ==> r.0 == self && e == SyncError::BranchNotFound,
            r.1 is Ok ==> ({
                let t = str_lookup(self.remote_refs@, ref_name@).unwrap();
                &&& forall|k: Seq<Seq<char>>| tree_lookup(r.0.worktree@, k)
                    == tree_lookup(self.commits@[t as int].tree@, k)
                &&& forall|k: Seq<Seq<char>>| tree_lookup(r.0.index@, k)
                    == tree_lookup(self.commits@[t as int].tree@, k)
                &&& str_lookup(r.0.branch_tips@, self.head@) == Some(t)
                &&& forall|k2: Seq<char>| k2 != self.head@
                    ==> str_lookup(r.0.branch_tips@, k2) == str_lookup(self.branch_tips@, k2)
                &&& r.0 == (RepoState { worktree: r.0.worktree, index: r.0.index,
                    branch_tips: r.0.branch_tips, ..self })
                &&& r.0.wf()
            }),
    {
        let tid: usize = match str_find(&self.remote_refs, ref_name) {
            None => {
                return (self, Err(SyncError::BranchNotFound));
            },
            Some(t) => *t,
        };
        let new_wt = clone_tree(&self.commits[tid].tree);
        let new_index = clone_tree(&self.commits[tid].tree);
        let RepoState {
            remotes, branch_tips, upstreams, remote_refs, shallow, commits, head, worktree,
            index, submodules } = self;
        let ghost old_tips = branch_tips@;
        let branch_tips = str_insert(branch_tips, head.clone(), tid);
        let st = RepoState {
            remotes, branch_tips, upstreams, remote_refs, shallow, commits, head,
            worktree: new_wt, index: new_index, submodules };
        proof {
            assert forall|k: Seq<char>| (#[trigger] str_lookup(st.branch_tips@, k)) is Some
                implies str_lookup(st.branch_tips@, k).unwrap() < st.commits@.len() by {
                if k != st.head@ {
                    assert(str_lookup(st.branch_tips@, k) == str_lookup(old_tips, k));
                }
            }
        }
        (st, Ok(()))
    }

    /// Restores one path onto the working tree from the tree of the
    /// commit a remote-tracking ref points at.
    pub fn restore_from_ref(self, ref_name: &String, path: &RelPath) -> (r: (RepoState, Result<(), SyncError>))
        requires
            self.wf(),
        ensures
            r.1 is Ok <==> ({
                let t = str_lookup(self.remote_refs@, ref_name@);
                &&& t is Some
                &&& tree_lookup(self.commits@[t.unwrap() as int].tree@, path@)
                    matches Some(EntryV::Blob(_))
            }),
            r.0 == (RepoState { worktree: r.0.worktree, ..self }),
            r.1 is Ok ==> restore_post(self.worktree@,
                self.commits@[str_lookup(self.remote_refs@, ref_name@).unwrap() as int].tree@,
                path@, r.0.worktree@),
            r.1 matches Err(e) ==> {
                &&& r.0.worktree@ == self.worktree@
                &&& (e == SyncError::BranchNotFound || e == SyncError::PathNotFound
                    || e == SyncError::NotARegularFile)
                &&& (e == SyncError::BranchNotFound <==> str_lookup(self.remote_refs@, ref_name@) is None)
                &&& (e == SyncError::PathNotFound <==> (str_lookup(self.remote_refs@, ref_name@) is Some
                    && tree_lookup(self.commits@[str_lookup(self.remote_refs@, ref_name@).unwrap() as int].tree@, path@) is None))
                &&& (e == SyncError::NotARegularFile <==> (str_lookup(self.remote_refs@, ref_name@) is Some
                    && tree_lookup(self.commits@[str_lookup(self.remote_refs@, ref_name@).unwrap() as int].tree@, path@) == Some(EntryV::Dir)))
            },
    {
        let tid: usize = match str_find(&self.remote_refs, ref_name) {
            None => {
                return (self, Err(SyncError::BranchNotFound));
            },
            Some(t) => *t,
        };
        let RepoState {
            remotes, branch_tips, upstreams, remote_refs, shallow, commits, head, worktree,
            index, submodules } = self;
        let (new_wt, res) = restore_path(worktree, &commits[tid].tree, path);
        (RepoState {
            remotes, branch_tips, upstreams, remote_refs, shallow, commits, head,
            worktree: new_wt, index, submodules }, res)
    }

    /// Restores one path onto the working tree from the tree of the
    /// commit HEAD points at.
    pub fn restore_from_head(self, path: &RelPath) -> (r: (RepoState, Result<(), SyncError>))
        requires
            self.wf(),
        ensures
            r.1 is Ok <==> ({
                let t = self.head_tip();
                &&& t is Some
                &&& tree_lookup(self.commits@[t.unwrap() as int].tree@, path@)
                    matches Some(EntryV::Blob(_))
            }),
            r.0 == (RepoState { worktree: r.0.worktree, ..self }),
            r.1 is Ok ==> restore_post(self.worktree@,
                self.commits@[self.head_tip().unwrap() as int].tree@, path@, r.0.worktree@),
            r.1 matches Err(e) ==> {
                &&& r.0.worktree@ == self.worktree@
                &&& (e == SyncError::BranchNotFound || e == SyncError::PathNotFound
                    || e == SyncError::NotARegularFile)
                &&& (e == SyncError::BranchNotFound <==> self.head_tip() is None)
                &&& (e == SyncError::PathNotFound <==> (self.head_tip() is Some
                    && tree_lookup(self.commits@[self.head_tip().unwrap() as int].tree@, path@) is None))
                &&& (e == SyncError::NotARegularFile <==> (self.head_tip() is Some
                    && tree_lookup(self.commits@[self.head_tip().unwrap() as int].tree@, path@) == Some(EntryV::Dir)))
            },
    {
        let tid: usize = match str_find(&self.branch_tips, &self.head) {
            None => {
                return (self, Err(SyncError::BranchNotFound));
            },
            Some(t) => *t,
        };
        let RepoState {
            remotes, branch_tips, upstreams, remote_refs, shallow, commits, head, worktree,
            index, submodules } = self;
        let (new_wt, res) = restore_path(worktree, &commits[tid].tree, path);
        (RepoState {
            remotes, branch_tips, upstreams, remote_refs, shallow, commits, head,
            worktree: new_wt, index, submodules }, res)
    }
}

/// The refspec a push uses for a branch; a forced push carries the `+`
/// prefix.
pub fn refspec_for(branch: &String, force: bool) -> (r: String)
    ensures
        force ==> r@ == "+refs/heads/"@ + branch@ + ":refs/heads/"@ + branch@,
        !force ==> r@ == "refs/heads/"@ + branch@ + ":refs/heads/"@ + branch@,
{
    let mut s = if force {
        String::from_str("+refs/heads/")
    } else {
        String::from_str("refs/heads/")
    };
    s.append(branch.as_str());
    s.append(":refs/heads/");
    s.append(branch.as_str());
    s
}

} // verus!
