use fork_sync::errors::SyncError;
use fork_sync::merge::Commit;
use fork_sync::orchestrator::{run_sync, single_path, sweep_overrides_from_ref, upsert_remote};
use fork_sync::repo::RepoState;
use fork_sync::tree::{tree_find, RelPath, TreeEntry};

fn p(s: &str) -> RelPath {
    RelPath { parts: s.split('/').map(|x| x.to_string()).collect() }
}

fn blob(s: &str) -> TreeEntry {
    TreeEntry::Blob(s.as_bytes().to_vec())
}

fn tree(pairs: &[(&str, &str)]) -> Vec<(RelPath, TreeEntry)> {
    pairs.iter().map(|(path, c)| (p(path), blob(c))).collect()
}

fn content(t: &Vec<(RelPath, TreeEntry)>, path: &str) -> Option<Vec<u8>> {
    match tree_find(t, &p(path)) {
        Some(TreeEntry::Blob(b)) => Some(b.clone()),
        _ => None,
    }
}

/// A repository poised for a successful run: both remotes configured, a
/// stray origin present, the parent tip and the source's bookkeeping ref
/// already known, the working branch existing, and every file the
/// restore sequence needs present in the trees it reads.
fn ready_state() -> RepoState {
    let base_tree = tree(&[
        (".gitignore", "base-ignore"),
        ("app/.gitignore", "base-app-ignore"),
        ("package.json", "base-manifest"),
        ("src", "base-src"),
        ("tsconfig.json", "base-config"),
    ]);
    let source_current_tree = tree(&[("package.json", "source-manifest")]);
    RepoState {
        remotes: vec![
            ("parent".to_string(), "old-parent-url".to_string()),
            ("source".to_string(), "old-source-url".to_string()),
            ("origin".to_string(), "stray".to_string()),
        ],
        branch_tips: vec![("main".to_string(), 0), ("work".to_string(), 0)],
        upstreams: vec![("main".to_string(), "source/main".to_string())],
        remote_refs: vec![
            ("parent/main".to_string(), 0),
            ("source/current".to_string(), 1),
        ],
        shallow: vec![],
        commits: vec![
            Commit { tree: base_tree, roots: vec![0] },
            Commit { tree: source_current_tree, roots: vec![0] },
        ],
        head: "main".to_string(),
        worktree: tree(&[
            (".gitignore", "locally-edited"),
            ("package.json", "locally-edited"),
            ("app/.gitignore", "locally-edited"),
        ]),
        index: vec![],
        submodules: vec![],
    }
}

fn fetched_parent() -> Commit {
    Commit {
        tree: tree(&[
            (".gitignore", "parent-ignore"),
            ("package.json", "parent-manifest"),
            ("src", "parent-src"),
            ("tsconfig.json", "parent-config"),
            ("app/.gitignore", "parent-app-ignore"),
        ]),
        roots: vec![0],
    }
}

fn fetched_source() -> Commit {
    Commit {
        tree: tree(&[("package.json", "source-tip-manifest")]),
        roots: vec![0],
    }
}

#[test]
fn full_run_reaches_the_expected_final_state() {
    let st = ready_state();
    let (st, r) = run_sync(
        st,
        "main".to_string(),
        "parent-url".to_string(),
        "source-url".to_string(),
        fetched_parent(),
        fetched_source(),
        "work".to_string(),
        "sub-url".to_string(),
        "sub-path".to_string(),
    );
    assert_eq!(r, Ok(()));
    // The walk through the bookkeeping branches ends on previous.
    assert_eq!(st.head, "previous".to_string());
    // Remote bookkeeping: configured URLs in place, the stray origin gone.
    assert_eq!(st.find_remote_url(&"parent".to_string()), Ok("parent-url".to_string()));
    assert_eq!(st.find_remote_url(&"source".to_string()), Ok("source-url".to_string()));
    assert_eq!(st.find_remote_url(&"origin".to_string()), Err(SyncError::RemoteNotFound));
    // Restore precedence: after the hard reset HEAD pointed at the
    // fetched parent tip, so the final HEAD-sourced restore of the
    // manifest wrote that tree's content — not the local edit and not
    // the source-current version written one step earlier.
    assert_eq!(content(&st.worktree, "package.json").unwrap(), b"parent-manifest".to_vec());
    // The two bookkeeping branches were created at one commit.
    let tip = |name: &str| st.branch_tips.iter().find(|(n, _)| n == name).map(|(_, t)| *t);
    assert_eq!(tip("current"), tip("previous"));
    assert!(tip("current").is_some());
    // The force-pushed working branch tracks its remote counterpart.
    let up = st.upstreams.iter().find(|(n, _)| n == "work").map(|(_, u)| u.clone());
    assert_eq!(up, Some("source/work".to_string()));
    // The submodule is recorded.
    let sub = st.submodules.iter().find(|(n, _)| n == "sub-path").map(|(_, u)| u.clone());
    assert_eq!(sub, Some("sub-url".to_string()));
}

#[test]
fn run_aborts_when_the_source_remote_is_missing() {
    let mut st = ready_state();
    st.remotes = vec![("parent".to_string(), "old-parent-url".to_string())];
    let (_st, r) = run_sync(
        st,
        "main".to_string(),
        "parent-url".to_string(),
        "source-url".to_string(),
        fetched_parent(),
        fetched_source(),
        "work".to_string(),
        "sub-url".to_string(),
        "sub-path".to_string(),
    );
    assert_eq!(r, Err(SyncError::RemoteNotFound));
}

#[test]
fn run_aborts_when_the_parent_ref_is_unknown() {
    let mut st = ready_state();
    st.remote_refs = vec![("source/current".to_string(), 1)];
    let (_st, r) = run_sync(
        st,
        "main".to_string(),
        "parent-url".to_string(),
        "source-url".to_string(),
        fetched_parent(),
        fetched_source(),
        "work".to_string(),
        "sub-url".to_string(),
        "sub-path".to_string(),
    );
    assert_eq!(r, Err(SyncError::BranchNotFound));
}

#[test]
fn sweep_from_ref_restores_from_the_named_tree() {
    let st = ready_state();
    let (st, r) = sweep_overrides_from_ref(st, &"parent/main".to_string(), &".gitignore".to_string());
    assert_eq!(r, Ok(()));
    assert_eq!(content(&st.worktree, ".gitignore").unwrap(), b"base-ignore".to_vec());
    // A sweep against an unknown ref fails like a missing branch.
    let (_st, r) = sweep_overrides_from_ref(st, &"nowhere/main".to_string(), &".gitignore".to_string());
    assert_eq!(r, Err(SyncError::BranchNotFound));
}

#[test]
fn upsert_covers_present_and_absent_remotes() {
    let st = ready_state();
    let st = upsert_remote(st, "parent".to_string(), "new-url".to_string());
    assert_eq!(st.find_remote_url(&"parent".to_string()), Ok("new-url".to_string()));
    let st = upsert_remote(st, "fresh".to_string(), "fresh-url".to_string());
    assert_eq!(st.find_remote_url(&"fresh".to_string()), Ok("fresh-url".to_string()));
    assert_eq!(st.find_remote_url(&"source".to_string()), Ok("old-source-url".to_string()));
}

#[test]
fn single_paths_have_one_component() {
    let m = single_path("package.json");
    assert_eq!(m.parts, vec!["package.json".to_string()]);
}
