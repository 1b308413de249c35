//! The synchronization pipeline: override sweeps, staging, upstream
//! binding, cleaning, fetching, merging, pulling, pushing, remote
//! bookkeeping, the reset-and-restore sequence and the final branch
//! bookkeeping, in their fixed order, over the repository model. The
//! driver mirrors each step with the real repository.

use vstd::prelude::*;
use crate::errors::SyncError;
use crate::smap::{str_lookup, str_has_key, str_find};
use crate::tree::{RelPath, EntryV, tree_lookup};
use crate::sweep::{sweep_overrides, sweep_post, is_override_target, matches_override,
    override_targets};
use crate::merge::Commit;
use crate::repo::RepoState;

verus! {

/// A path of one component.
pub fn single_path(name: &str) -> (r: RelPath)
    ensures
        r@ == seq![name@],
{
    let parts = vec![String::from_str(name)];
    let r = RelPath { parts };
    proof {
        assert(r@ =~= seq![name@]);
    }
    r
}

/// Sweeps every working-tree occurrence of an override-managed filename,
/// restoring each from the tree of the commit a remote-tracking ref
/// points at.
pub fn sweep_overrides_from_ref(st: RepoState, ref_name: &String, fname: &String) -> (r: (RepoState, Result<(), SyncError>))
    requires
        st.wf(),
    ensures
        r.0 == (RepoState { worktree: r.0.worktree, ..st }),
        r.1 is Ok <==> ({
            let t = str_lookup(st.remote_refs@, ref_name@);
            &&& t is Some
            &&& forall|k: Seq<Seq<char>>| is_override_target(st.worktree@, k, fname@)
                ==> tree_lookup(st.commits@[t.unwrap() as int].tree@, k)
                    matches Some(EntryV::Blob(_))
        }),
        r.1 is Ok ==> sweep_post(st.worktree@,
            st.commits@[str_lookup(st.remote_refs@, ref_name@).unwrap() as int].tree@,
            fname@, r.0.worktree@),
        r.1 matches Err(e) ==> ({
            let t = str_lookup(st.remote_refs@, ref_name@);
            let ts = override_targets(st.worktree@, fname@);
            &&& (e == SyncError::BranchNotFound || e == SyncError::PathNotFound
                || e == SyncError::NotARegularFile)
            &&& (e == SyncError::BranchNotFound <==> t is None)
            &&& forall|k: Seq<Seq<char>>| !matches_override(k, fname@)
                ==> tree_lookup(r.0.worktree@, k) == tree_lookup(st.worktree@, k)
            &&& (t matches Some(tid) ==> exists|n: int|
                #![auto]
                0 <= n < ts.len()
                    && !(tree_lookup(st.commits@[tid as int].tree@, ts[n])
                        matches Some(EntryV::Blob(_)))
                    && (e == SyncError::PathNotFound
                        <==> tree_lookup(st.commits@[tid as int].tree@, ts[n]) is None)
                    && (forall|m: int| 0 <= m < n ==> tree_lookup(r.0.worktree@, ts[m])
                        == tree_lookup(st.commits@[tid as int].tree@, ts[m]))
                    && (forall|k: Seq<Seq<char>>| (forall|m: int| 0 <= m < n ==> ts[m] != k)
                        ==> tree_lookup(r.0.worktree@, k) == tree_lookup(st.worktree@, k)))
        }),
{
    let tid: usize = match str_find(&st.remote_refs, ref_name) {
        None => {
            return (st, Err(SyncError::BranchNotFound));
        },
        Some(t) => *t,
    };
    let RepoState {
        remotes, branch_tips, upstreams, remote_refs, shallow, commits, head, worktree,
        index, submodules } = st;
    let (new_wt, res) = sweep_overrides(worktree, &commits[tid].tree, fname);
    (RepoState {
        remotes, branch_tips, upstreams, remote_refs, shallow, commits, head,
        worktree: new_wt, index, submodules }, res)
}

/// Makes a remote carry a URL whether or not it already exists: the
/// add/remove/retarget bookkeeping collapsed to its outcome.
pub fn upsert_remote(st: RepoState, name: String, url: String) -> (r: RepoState)
    ensures
        str_lookup(r.remotes@, name@) == Some(url@),
        forall|k2: Seq<char>| k2 != name@
            ==> str_lookup(r.remotes@, k2) == str_lookup(st.remotes@, k2),
        r == (RepoState { remotes: r.remotes, ..st }),
{
    let st = st.remove_remote_tolerant(&name);
    let (st, res) = st.add_remote(name, url);
    match res {
        Ok(()) => st,
        Err(_) => st,
    }
}

/// A state of affairs under which the pipeline is guaranteed to run
/// through: the parent tip is already known and every override target is
/// a regular file in its tree, both well-known remotes are configured,
/// HEAD's branch exists and has a usable upstream, the working branch
/// exists, the bookkeeping branches are still free, and the trees the
/// restore sequence reads hold their files. The fetch retrieves the
/// branch named `main` only, so the guarantee is stated for a parent
/// whose default branch is `main`; a run can also succeed outside these
/// conditions (a stale but usable parent ref under another name), so
/// this understates success, never overstates it.
pub open spec fn sync_ready(
    st: RepoState,
    parent_branch: Seq<char>,
    parent_commit: Commit,
    work_branch: Seq<char>,
) -> bool {
    let pref = "parent/"@ + parent_branch;
    let t0 = str_lookup(st.remote_refs@, pref);
    &&& parent_branch == "main"@
    &&& t0 is Some
    &&& str_has_key(st.remotes@, "parent"@)
    &&& str_has_key(st.remotes@, "source"@)
    &&& str_lookup(st.branch_tips@, st.head@) is Some
    &&& str_lookup(st.branch_tips@, "current"@) is None
    &&& str_lookup(st.branch_tips@, "previous"@) is None
    &&& st.head@ != "current"@
    &&& st.head@ != "previous"@
    &&& work_branch != "current"@
    &&& work_branch != "previous"@
    &&& (work_branch == st.head@ || str_lookup(st.branch_tips@, work_branch) is Some)
    &&& (forall|k: Seq<Seq<char>>| is_override_target(st.worktree@, k, ".gitignore"@)
        ==> tree_lookup(st.commits@[t0.unwrap() as int].tree@, k) matches Some(EntryV::Blob(_)))
    &&& (forall|k: Seq<Seq<char>>| is_override_target(st.worktree@, k, "package.json"@)
        ==> tree_lookup(st.commits@[t0.unwrap() as int].tree@, k) matches Some(EntryV::Blob(_)))
    &&& ({
        let up = str_lookup(st.upstreams@, st.head@);
        &&& up is Some
        &&& (up.unwrap() == "parent/main"@ || up.unwrap() == "source/main"@
            || str_lookup(st.remote_refs@, up.unwrap()) is Some)
    })
    &&& tree_lookup(parent_commit.tree@, seq!["package.json"@]) matches Some(EntryV::Blob(_))
    &&& tree_lookup(parent_commit.tree@, seq!["src"@]) matches Some(EntryV::Blob(_))
    &&& tree_lookup(parent_commit.tree@, seq!["tsconfig.json"@]) matches Some(EntryV::Blob(_))
    &&& ({
        let sc = str_lookup(st.remote_refs@, "source/current"@);
        &&& sc is Some
        &&& tree_lookup(st.commits@[sc.unwrap() as int].tree@, seq!["package.json"@])
            matches Some(EntryV::Blob(_))
    })
}

/// Runs the whole reconciliation pipeline on the repository model.
///
/// The steps, in order: sweep-restore the ignore-rule and manifest files
/// from the parent branch tip; resolve the default-repository URL (the
/// `source` remote must exist); stage everything; bind the bookkeeping
/// branches' upstreams, tolerating their absence on a first run; clean
/// untracked paths; shallow-fetch `parent` and `source` and unshallow
/// `parent`; merge the parent tip into HEAD with unrelated histories
/// allowed; pull from the configured upstream under the "theirs" policy;
/// push HEAD and force-push the working branch with an upstream bind;
/// retarget the `parent` and `source` remotes and drop a stray `origin`,
/// tolerating its absence; hard-reset to the parent tip and reapply the
/// override files (manifest last from HEAD, so the last write wins);
/// record the nested submodule; and recreate and switch through the
/// `current` and `previous` bookkeeping branches.
///
/// The incoming commits stand for what the two fetches delivered. Any
/// step's failure aborts the pipeline with that step's error and the
/// state it had reached.
pub fn run_sync(
    st: RepoState,
    parent_branch: String,
    parent_url: String,
    source_url: String,
    parent_commit: Commit,
    source_commit: Commit,
    work_branch: String,
    submodule_url: String,
    submodule_path: String,
) -> (r: (RepoState, Result<(), SyncError>))
    requires
        st.wf(),
    ensures
        r.1 is Ok ==> r.0.head@ == "previous"@,
        r.1 is Ok ==> str_lookup(r.0.remotes@, "origin"@) is None,
        r.1 is Ok ==> str_lookup(r.0.remotes@, "parent"@) == Some(parent_url@),
        r.1 is Ok ==> str_lookup(r.0.remotes@, "source"@) == Some(source_url@),
        r.1 is Ok ==> str_lookup(r.0.branch_tips@, "previous"@)
            == str_lookup(r.0.branch_tips@, "current"@),
        r.1 is Ok ==> str_lookup(r.0.upstreams@, work_branch@)
            == Some("source/"@ + work_branch@),
        r.1 is Ok ==> ({
            let t = str_lookup(r.0.remote_refs@, "parent/"@ + parent_branch@);
            &&& t is Some
            &&& forall|k: Seq<Seq<char>>| tree_lookup(r.0.worktree@, k)
                == tree_lookup(r.0.commits@[t.unwrap() as int].tree@, k)
        }),
        r.1 is Ok ==> r.0.wf(),
        sync_ready(st, parent_branch@, parent_commit, work_branch@) ==> r.1 is Ok,
        r.1 matches Err(e) ==> (e == SyncError::RemoteNotFound || e == SyncError::BranchNotFound
            || e == SyncError::BranchExists || e == SyncError::PathNotFound
            || e == SyncError::NotARegularFile),
        r.1 == Err::<(), SyncError>(SyncError::RemoteNotFound)
            ==> (!str_has_key(st.remotes@, "parent"@) || !str_has_key(st.remotes@, "source"@)),
        r.1 == Err::<(), SyncError>(SyncError::BranchExists)
            ==> (str_lookup(st.branch_tips@, "current"@) is Some
                || str_lookup(st.branch_tips@, "previous"@) is Some
                || st.head@ == "current"@ || st.head@ == "previous"@),
{
    let ghost st0 = st;
    proof {
        reveal_strlit("parent");
        reveal_strlit("source");
        reveal_strlit("origin");
        reveal_strlit("current");
        reveal_strlit("previous");
        assert("parent"@[0] == 'p' && "source"@[0] == 's' && "origin"@[0] == 'o');
        assert("current"@[0] == 'c' && "previous"@[0] == 'p');
        assert("parent"@ != "origin"@ && "source"@ != "origin"@ && "parent"@ != "source"@);
        assert("current"@ != "previous"@);
        reveal_strlit("/");
        reveal_strlit("source/");
        reveal_strlit("parent/");
        reveal_strlit("main");
        reveal_strlit("/main");
        reveal_strlit("parent/main");
        reveal_strlit("source/main");
        reveal_strlit("source/current");
        reveal_strlit("src");
        reveal_strlit("package.json");
        reveal_strlit("tsconfig.json");
        assert("source"@ + "/"@ =~= "source/"@);
        assert("parent"@ + "/main"@ =~= "parent/main"@);
        assert("source"@ + "/main"@ =~= "source/main"@);
        assert("parent/"@ + "main"@ =~= "parent/main"@);
        assert("parent/main"@[0] == 'p' && "source/main"@[0] == 's'
            && "source/current"@[0] == 's' && "source/"@[0] == 's');
        assert("parent/main"@ != "source/main"@ && "parent/main"@ != "source/current"@);
        assert("source/main"@.len() == 11 && "source/current"@.len() == 14);
        assert("source/main"@ != "source/current"@);
        assert(("source/"@ + work_branch@)[0] == 's');
        assert("parent/main"@ != "source/"@ + work_branch@);
        assert(("source/"@ + work_branch@).subrange(7,
            ("source/"@ + work_branch@).len() as int) =~= work_branch@);
        assert("source/current"@.subrange(7, 14) =~= "current"@);
        assert(work_branch@ != "current"@ ==> "source/current"@ != "source/"@ + work_branch@);
        assert("src"@.len() == 3 && "package.json"@.len() == 12 && "tsconfig.json"@.len() == 13);
        assert(seq!["src"@][0] == "src"@ && seq!["package.json"@][0] == "package.json"@
            && seq!["tsconfig.json"@][0] == "tsconfig.json"@);
        assert(seq!["src"@] != seq!["package.json"@]
            && seq!["tsconfig.json"@] != seq!["package.json"@]
            && seq!["src"@] != seq!["tsconfig.json"@]);
    }
    let parent_ref = String::from_str("parent/").concat(parent_branch.as_str());
    let ignore_name = String::from_str(".gitignore");
    let manifest_name = String::from_str("package.json");

    // Override normalization: ignore rules, then manifests, from the
    // parent branch tip.
    let (st, res) = sweep_overrides_from_ref(st, &parent_ref, &ignore_name);
    match res {
        Err(e) => {
            return (st, Err(e));
        },
        Ok(()) => {},
    }
    let ghost st1 = st;
    let (st, res) = sweep_overrides_from_ref(st, &parent_ref, &manifest_name);
    match res {
        Err(e) => {
            proof {
                if sync_ready(st0, parent_branch@, parent_commit, work_branch@) {
                    let t0 = str_lookup(st0.remote_refs@, "parent/"@ + parent_branch@);
                    assert(ignore_name@ == ".gitignore"@ && manifest_name@ == "package.json"@);
                    assert forall|k: Seq<Seq<char>>| is_override_target(st1.worktree@, k,
                        manifest_name@) implies tree_lookup(
                        st0.commits@[t0.unwrap() as int].tree@, k)
                        matches Some(EntryV::Blob(_)) by {
                        if !is_override_target(st0.worktree@, k, ignore_name@) {
                            assert(tree_lookup(st1.worktree@, k)
                                == tree_lookup(st0.worktree@, k));
                        } else {
                            assert(tree_lookup(st1.worktree@, k) == tree_lookup(
                                st0.commits@[t0.unwrap() as int].tree@, k));
                        }
                        assert(is_override_target(st0.worktree@, k, "package.json"@));
                    }
                    assert(false);
                }
            }
            return (st, Err(e));
        },
        Ok(()) => {},
    }

    // Platform binding: the default repository is the source remote's
    // URL, which must be configured.
    match st.find_remote_url(&String::from_str("source")) {
        Err(e) => {
            return (st, Err(e));
        },
        Ok(_url) => {},
    };

    // Staging.
    let st = st.stage_all();

    // Upstream binding for the bookkeeping branches. On a first run they
    // do not exist yet (they are only created at the end), so a missing
    // branch is tolerated here by design.
    let (st, _bind_current) = st.set_upstream(&String::from_str("current"),
        String::from_str("source/current"));
    let (st, _bind_previous) = st.set_upstream(&String::from_str("previous"),
        String::from_str("source/previous"));

    // Clean untracked paths.
    let st = st.clean_untracked();

    // Shallow fetches, then full history for the parent.
    let (st, res) = st.fetch(&String::from_str("parent"), 1, parent_commit);
    match res {
        Err(e) => {
            return (st, Err(e));
        },
        Ok(()) => {},
    }
    let (st, res) = st.fetch(&String::from_str("source"), 1, source_commit);
    match res {
        Err(e) => {
            return (st, Err(e));
        },
        Ok(()) => {},
    }
    let (st, res) = st.fetch_unshallow(&String::from_str("parent"));
    match res {
        Err(e) => {
            return (st, Err(e));
        },
        Ok(()) => {},
    }
    proof {
        if sync_ready(st0, parent_branch@, parent_commit, work_branch@) {
            assert(parent_ref@ == "parent/main"@);
            assert(str_lookup(st.remote_refs@, "parent/main"@) matches Some(id)
                && id == st0.commits@.len());
            assert(st.commits@[st0.commits@.len() as int] == parent_commit);
        }
    }

    // Merge the parent tip into HEAD, unrelated histories allowed.
    let (st, res) = st.merge_parent_into_head(&parent_ref, true);
    match res {
        Err(e) => {
            return (st, Err(e));
        },
        Ok(()) => {},
    }

    // Pull from the configured upstream under the "theirs" policy.
    let (st, res) = st.pull_theirs();
    match res {
        Err(e) => {
            return (st, Err(e));
        },
        Ok(()) => {},
    }

    // Push HEAD, then force-push the working branch and bind its
    // upstream.
    match st.push(&String::from_str("source"), &String::from_str("HEAD")) {
        Err(e) => {
            return (st, Err(e));
        },
        Ok(()) => {},
    }
    let (st, res) = st.push_set_upstream(&String::from_str("source"), &work_branch, true);
    match res {
        Err(e) => {
            return (st, Err(e));
        },
        Ok(()) => {},
    }

    // Remote bookkeeping: the two well-known remotes carry their
    // configured URLs, and a stray origin is dropped, absent or not.
    let st = upsert_remote(st, String::from_str("parent"), parent_url);
    let st = upsert_remote(st, String::from_str("source"), source_url);
    let st = st.remove_remote_tolerant(&String::from_str("origin"));

    // Reset and restore: rebuild from the parent tip, then cherry the
    // override files back; the manifest is restored last from HEAD, so
    // that restore's content is final.
    let (st, res) = st.reset_hard_to_ref(&parent_ref);
    match res {
        Err(e) => {
            return (st, Err(e));
        },
        Ok(()) => {},
    }
    let manifest = single_path("package.json");
    let st = st.unstage_path(&manifest);
    let (st, res) = st.restore_from_ref(&parent_ref, &manifest);
    match res {
        Err(e) => {
            proof {
                if sync_ready(st0, parent_branch@, parent_commit, work_branch@) {
                    assert(parent_ref@ == "parent/main"@);
                    assert(str_lookup(st.remote_refs@, parent_ref@) matches Some(id)
                        && id == st0.commits@.len());
                    assert(st.commits@[st0.commits@.len() as int] == parent_commit);
                    assert(false);
                }
            }
            return (st, Err(e));
        },
        Ok(()) => {},
    }
    let source_dir = single_path("src");
    let (st, res) = st.restore_from_ref(&parent_ref, &source_dir);
    match res {
        Err(e) => {
            proof {
                if sync_ready(st0, parent_branch@, parent_commit, work_branch@) {
                    assert(parent_ref@ == "parent/main"@);
                    assert(str_lookup(st.remote_refs@, parent_ref@) matches Some(id)
                        && id == st0.commits@.len());
                    assert(st.commits@[st0.commits@.len() as int] == parent_commit);
                    assert(false);
                }
            }
            return (st, Err(e));
        },
        Ok(()) => {},
    }
    let build_config = single_path("tsconfig.json");
    let (st, res) = st.restore_from_ref(&parent_ref, &build_config);
    match res {
        Err(e) => {
            proof {
                if sync_ready(st0, parent_branch@, parent_commit, work_branch@) {
                    assert(parent_ref@ == "parent/main"@);
                    assert(str_lookup(st.remote_refs@, parent_ref@) matches Some(id)
                        && id == st0.commits@.len());
                    assert(st.commits@[st0.commits@.len() as int] == parent_commit);
                    assert(false);
                }
            }
            return (st, Err(e));
        },
        Ok(()) => {},
    }
    let (st, res) = st.restore_from_ref(&String::from_str("source/current"), &manifest);
    match res {
        Err(e) => {
            return (st, Err(e));
        },
        Ok(()) => {},
    }
    let (st, res) = st.restore_from_head(&manifest);
    match res {
        Err(e) => {
            return (st, Err(e));
        },
        Ok(()) => {},
    }

    // Dependency wiring.
    let st = st.add_submodule(submodule_url, submodule_path);

    // Branch bookkeeping: through the working branch, then create and
    // walk the bookkeeping branches, ending on previous.
    let (st, res) = st.switch_branch(&work_branch);
    match res {
        Err(e) => {
            return (st, Err(e));
        },
        Ok(()) => {},
    }
    let (st, res) = st.create_and_switch_branch(String::from_str("current"));
    match res {
        Err(e) => {
            return (st, Err(e));
        },
        Ok(()) => {},
    }
    let (st, res) = st.create_and_switch_branch(String::from_str("previous"));
    match res {
        Err(e) => {
            return (st, Err(e));
        },
        Ok(()) => {},
    }
    let (st, res) = st.switch_branch(&String::from_str("current"));
    match res {
        Err(e) => {
            return (st, Err(e));
        },
        Ok(()) => {},
    }
    let (st, res) = st.switch_branch(&String::from_str("previous"));
    match res {
        Err(e) => {
            return (st, Err(e));
        },
        Ok(()) => {},
    }
    (st, Ok(()))
}

} // verus!
