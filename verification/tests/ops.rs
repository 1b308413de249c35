use fork_sync::errors::SyncError;
use fork_sync::merge::{merge_trees_theirs, trees_conflict_exec, Commit};
use fork_sync::platform::parse_platform_reply;
use fork_sync::repo::{refspec_for, RepoState};
use fork_sync::sweep::{matches_override_exec, sweep_overrides};
use fork_sync::tree::{restore_path, tree_find, RelPath, TreeEntry};

fn p(s: &str) -> RelPath {
    RelPath { parts: s.split('/').map(|x| x.to_string()).collect() }
}

fn blob(s: &str) -> TreeEntry {
    TreeEntry::Blob(s.as_bytes().to_vec())
}

fn tree(pairs: &[(&str, &str)]) -> Vec<(RelPath, TreeEntry)> {
    pairs.iter().map(|(path, c)| (p(path), blob(c))).collect()
}

fn content(t: &Vec<(RelPath, TreeEntry)>, path: &str) -> Option<Vec<u8>> {
    match tree_find(t, &p(path)) {
        Some(TreeEntry::Blob(b)) => Some(b.clone()),
        _ => None,
    }
}

fn empty_state() -> RepoState {
    RepoState {
        remotes: vec![],
        branch_tips: vec![],
        upstreams: vec![],
        remote_refs: vec![],
        shallow: vec![],
        commits: vec![],
        head: "main".to_string(),
        worktree: vec![],
        index: vec![],
        submodules: vec![],
    }
}

#[test]
fn sweep_is_idempotent_on_unchanged_parent() {
    let wt = tree(&[
        (".gitignore", "local"),
        ("pkg/.gitignore", "local-nested"),
        ("keep.txt", "keep"),
    ]);
    let parent = tree(&[
        (".gitignore", "canonical"),
        ("pkg/.gitignore", "canonical-nested"),
    ]);
    let fname = ".gitignore".to_string();
    let (once, r1) = sweep_overrides(wt, &parent, &fname);
    assert!(r1.is_ok());
    assert_eq!(content(&once, ".gitignore").unwrap(), b"canonical".to_vec());
    assert_eq!(content(&once, "pkg/.gitignore").unwrap(), b"canonical-nested".to_vec());
    assert_eq!(content(&once, "keep.txt").unwrap(), b"keep".to_vec());
    let snapshot: Vec<(Vec<String>, Vec<u8>)> = once
        .iter()
        .map(|(path, e)| {
            let c = match e {
                TreeEntry::Blob(b) => b.clone(),
                TreeEntry::Dir => vec![],
            };
            (path.parts.clone(), c)
        })
        .collect();
    let (twice, r2) = sweep_overrides(once, &parent, &fname);
    assert!(r2.is_ok());
    for (path, c) in &snapshot {
        let rp = RelPath { parts: path.clone() };
        match tree_find(&twice, &rp) {
            Some(TreeEntry::Blob(b)) => assert_eq!(b, c),
            _ => panic!("path lost by second sweep"),
        }
    }
    assert_eq!(twice.len(), snapshot.len());
}

#[test]
fn sweep_skips_excluded_roots() {
    let wt = tree(&[
        ("node_modules/pkg/.gitignore", "dep-copy"),
        (".git/hooks/.gitignore", "meta-copy"),
        ("app/.gitignore", "local"),
    ]);
    // The parent holds only the real target: if the sweep descended into
    // either excluded root it would fail on the missing paths.
    let parent = tree(&[("app/.gitignore", "canonical")]);
    let (swept, r) = sweep_overrides(wt, &parent, &".gitignore".to_string());
    assert!(r.is_ok());
    assert_eq!(content(&swept, "node_modules/pkg/.gitignore").unwrap(), b"dep-copy".to_vec());
    assert_eq!(content(&swept, ".git/hooks/.gitignore").unwrap(), b"meta-copy".to_vec());
    assert_eq!(content(&swept, "app/.gitignore").unwrap(), b"canonical".to_vec());
}

#[test]
fn sweep_fails_when_parent_lacks_a_target() {
    let wt = tree(&[("a/.gitignore", "x")]);
    let parent = tree(&[("other.txt", "y")]);
    let (_swept, r) = sweep_overrides(wt, &parent, &".gitignore".to_string());
    assert_eq!(r, Err(SyncError::PathNotFound));
}

#[test]
fn override_matching_is_by_final_component() {
    assert!(matches_override_exec(&p(".gitignore"), &".gitignore".to_string()));
    assert!(matches_override_exec(&p("a/b/.gitignore"), &".gitignore".to_string()));
    assert!(!matches_override_exec(&p("node_modules/.gitignore"), &".gitignore".to_string()));
    assert!(!matches_override_exec(&p(".git/.gitignore"), &".gitignore".to_string()));
    assert!(!matches_override_exec(&p("a/b/package.json"), &".gitignore".to_string()));
}

#[test]
fn theirs_policy_always_takes_the_incoming_side() {
    let a = tree(&[("file.txt", "line-from-a"), ("a-only.txt", "a")]);
    let b = tree(&[("file.txt", "line-from-b"), ("b-only.txt", "b")]);
    let a_pulls_b = merge_trees_theirs(&a, &b);
    assert_eq!(content(&a_pulls_b, "file.txt").unwrap(), b"line-from-b".to_vec());
    assert_eq!(content(&a_pulls_b, "a-only.txt").unwrap(), b"a".to_vec());
    assert_eq!(content(&a_pulls_b, "b-only.txt").unwrap(), b"b".to_vec());
    let b_pulls_a = merge_trees_theirs(&b, &a);
    assert_eq!(content(&b_pulls_a, "file.txt").unwrap(), b"line-from-a".to_vec());
}

#[test]
fn conflict_detection_sees_content_differences() {
    let a = tree(&[("f", "one")]);
    let b = tree(&[("f", "two")]);
    let c = tree(&[("f", "one"), ("g", "three")]);
    assert!(trees_conflict_exec(&a, &b));
    assert!(!trees_conflict_exec(&a, &c));
    assert!(!trees_conflict_exec(&a, &tree(&[])));
}

#[test]
fn restore_precedence_is_last_write_wins() {
    let wt = tree(&[("package.json", "local")]);
    let s1 = tree(&[("package.json", "from-parent")]);
    let s2 = tree(&[("package.json", "from-source-current")]);
    let s3 = tree(&[("package.json", "from-head")]);
    let path = p("package.json");
    let (wt, r1) = restore_path(wt, &s1, &path);
    assert!(r1.is_ok());
    let (wt, r2) = restore_path(wt, &s2, &path);
    assert!(r2.is_ok());
    let (wt, r3) = restore_path(wt, &s3, &path);
    assert!(r3.is_ok());
    assert_eq!(content(&wt, "package.json").unwrap(), b"from-head".to_vec());
}

#[test]
fn restore_fails_on_missing_path_and_on_directories() {
    let wt = tree(&[]);
    let mut source = tree(&[("file", "x")]);
    source.push((p("dir"), TreeEntry::Dir));
    let (wt, r) = restore_path(wt, &source, &p("absent"));
    assert_eq!(r, Err(SyncError::PathNotFound));
    let (wt, r) = restore_path(wt, &source, &p("dir"));
    assert_eq!(r, Err(SyncError::NotARegularFile));
    let (wt, r) = restore_path(wt, &source, &p("file"));
    assert!(r.is_ok());
    assert_eq!(content(&wt, "file").unwrap(), b"x".to_vec());
}

#[test]
fn removing_missing_origin_is_tolerated() {
    let mut st = empty_state();
    st.remotes = vec![("parent".to_string(), "url-p".to_string())];
    // Strict removal of a nonexistent remote fails ...
    let (st, r) = st.remove_remote(&"origin".to_string());
    assert_eq!(r, Err(SyncError::RemoteNotFound));
    // ... the tolerant removal the pipeline uses does not.
    let st = st.remove_remote_tolerant(&"origin".to_string());
    // Removing an existing remote succeeds, and it is gone afterwards.
    let (st, r) = st.remove_remote(&"parent".to_string());
    assert_eq!(r, Ok(()));
    assert_eq!(st.find_remote_url(&"parent".to_string()), Err(SyncError::RemoteNotFound));
}

#[test]
fn duplicate_remote_names_are_refused() {
    let st = empty_state();
    let (st, r) = st.add_remote("parent".to_string(), "url-1".to_string());
    assert_eq!(r, Ok(()));
    let (st, r) = st.add_remote("parent".to_string(), "url-2".to_string());
    assert_eq!(r, Err(SyncError::RemoteExists));
    assert_eq!(st.find_remote_url(&"parent".to_string()), Ok("url-1".to_string()));
}

#[test]
fn retargeting_a_missing_remote_fails() {
    let st = empty_state();
    let (st, r) = st.set_remote_url("parent".to_string(), "url".to_string());
    assert_eq!(r, Err(SyncError::RemoteNotFound));
    let (st, _) = st.add_remote("parent".to_string(), "url".to_string());
    let (st, r) = st.set_remote_url("parent".to_string(), "url-2".to_string());
    assert_eq!(r, Ok(()));
    assert_eq!(st.find_remote_url(&"parent".to_string()), Ok("url-2".to_string()));
}

#[test]
fn upstream_binding_needs_branch_and_ref() {
    let st = empty_state();
    // No local branch yet.
    let (st, r) = st.set_upstream(&"current".to_string(), "source/current".to_string());
    assert_eq!(r, Err(SyncError::BranchNotFound));
    let mut st = st;
    st.branch_tips = vec![("current".to_string(), 0)];
    // The branch exists, but the upstream names no known tracking ref.
    let (st, r) = st.set_upstream(&"current".to_string(), "source/current".to_string());
    assert_eq!(r, Err(SyncError::BranchNotFound));
    let mut st = st;
    st.remote_refs = vec![("source/current".to_string(), 0)];
    let (_st, r) = st.set_upstream(&"current".to_string(), "source/current".to_string());
    assert_eq!(r, Ok(()));
}

#[test]
fn unrelated_histories_need_the_flag() {
    let mut st = empty_state();
    st.commits = vec![
        Commit { tree: tree(&[("a", "1")]), roots: vec![0] },
        Commit { tree: tree(&[("b", "2")]), roots: vec![1] },
    ];
    st.branch_tips = vec![("main".to_string(), 0)];
    st.remote_refs = vec![("parent/main".to_string(), 1)];
    let pref = "parent/main".to_string();
    let (st, r) = st.merge_parent_into_head(&pref, false);
    assert_eq!(r, Err(SyncError::MergeConflict));
    let (st, r) = st.merge_parent_into_head(&pref, true);
    assert_eq!(r, Ok(()));
    // The merge commit unites both trees and HEAD's branch moved to it.
    let merged = &st.commits[2];
    assert_eq!(content(&merged.tree, "a").unwrap(), b"1".to_vec());
    assert_eq!(content(&merged.tree, "b").unwrap(), b"2".to_vec());
}

#[test]
fn related_histories_merge_without_the_flag() {
    let mut st = empty_state();
    st.commits = vec![
        Commit { tree: tree(&[("a", "1")]), roots: vec![0] },
        Commit { tree: tree(&[("b", "2")]), roots: vec![0, 7] },
    ];
    st.branch_tips = vec![("main".to_string(), 0)];
    st.remote_refs = vec![("parent/main".to_string(), 1)];
    let (_st, r) = st.merge_parent_into_head(&"parent/main".to_string(), false);
    assert_eq!(r, Ok(()));
}

#[test]
fn merge_carries_disputed_content_the_incoming_way() {
    let mut st = empty_state();
    st.commits = vec![
        Commit { tree: tree(&[("f", "ours")]), roots: vec![0] },
        Commit { tree: tree(&[("f", "theirs")]), roots: vec![0] },
    ];
    st.branch_tips = vec![("main".to_string(), 0)];
    st.remote_refs = vec![("parent/main".to_string(), 1)];
    let (st, r) = st.merge_parent_into_head(&"parent/main".to_string(), true);
    assert_eq!(r, Ok(()));
    assert_eq!(content(&st.commits[2].tree, "f").unwrap(), b"theirs".to_vec());
}

#[test]
fn pull_resolves_conflicts_for_the_upstream() {
    let mut st = empty_state();
    st.commits = vec![
        Commit { tree: tree(&[("f", "ours")]), roots: vec![0] },
        Commit { tree: tree(&[("f", "theirs")]), roots: vec![1] },
    ];
    st.branch_tips = vec![("main".to_string(), 0)];
    st.upstreams = vec![("main".to_string(), "source/main".to_string())];
    st.remote_refs = vec![("source/main".to_string(), 1)];
    let (st, r) = st.pull_theirs();
    assert_eq!(r, Ok(()));
    let pulled = &st.commits[2];
    assert_eq!(content(&pulled.tree, "f").unwrap(), b"theirs".to_vec());
}

#[test]
fn branch_creation_takes_the_head_commit() {
    let mut st = empty_state();
    st.commits = vec![Commit { tree: tree(&[]), roots: vec![0] }];
    st.branch_tips = vec![("main".to_string(), 0)];
    let (st, r) = st.create_and_switch_branch("current".to_string());
    assert_eq!(r, Ok(()));
    assert_eq!(st.head, "current".to_string());
    let found = st
        .branch_tips
        .iter()
        .find(|(n, _)| n == "current")
        .map(|(_, t)| *t);
    assert_eq!(found, Some(0));
    // Creating it again is refused.
    let (_st, r) = st.create_and_switch_branch("current".to_string());
    assert_eq!(r, Err(SyncError::BranchExists));
}

#[test]
fn switching_needs_an_existing_branch() {
    let mut st = empty_state();
    st.branch_tips = vec![("main".to_string(), 0)];
    st.commits = vec![Commit { tree: tree(&[]), roots: vec![0] }];
    let (st, r) = st.switch_branch(&"ghostly".to_string());
    assert_eq!(r, Err(SyncError::BranchNotFound));
    let (st, r) = st.switch_branch(&"main".to_string());
    assert_eq!(r, Ok(()));
    assert_eq!(st.head, "main".to_string());
}

#[test]
fn refspec_formula_matches_git_conventions() {
    assert_eq!(refspec_for(&"branch".to_string(), true), "+refs/heads/branch:refs/heads/branch");
    assert_eq!(refspec_for(&"main".to_string(), false), "refs/heads/main:refs/heads/main");
}

#[test]
fn platform_reply_parsing_trims_and_rejects() {
    assert_eq!(parse_platform_reply(true, &b"  main\n".to_vec()), Ok(b"main".to_vec()));
    assert_eq!(parse_platform_reply(true, &b"trunk".to_vec()), Ok(b"trunk".to_vec()));
    assert_eq!(parse_platform_reply(false, &b"main".to_vec()), Err(SyncError::PlatformQuery));
    assert_eq!(parse_platform_reply(true, &b" \n\t".to_vec()), Err(SyncError::PlatformQuery));
    assert_eq!(parse_platform_reply(true, &b"".to_vec()), Err(SyncError::PlatformQuery));
}

#[test]
fn staging_and_cleaning_follow_the_index() {
    let mut st = empty_state();
    st.worktree = tree(&[("tracked", "t"), ("stray", "s")]);
    let st = st.stage_all();
    assert_eq!(content(&st.index, "tracked").unwrap(), b"t".to_vec());
    let mut st = st;
    st.index = tree(&[("tracked", "t")]);
    let st = st.clean_untracked();
    assert_eq!(content(&st.worktree, "tracked").unwrap(), b"t".to_vec());
    assert!(tree_find(&st.worktree, &p("stray")).is_none());
}

#[test]
fn unstaging_removes_only_the_given_path() {
    let mut st = empty_state();
    st.index = tree(&[("package.json", "m"), ("other", "o")]);
    let st = st.unstage_path(&p("package.json"));
    assert!(tree_find(&st.index, &p("package.json")).is_none());
    assert_eq!(content(&st.index, "other").unwrap(), b"o".to_vec());
}

#[test]
fn fetch_records_ref_and_shallowness() {
    let mut st = empty_state();
    st.remotes = vec![("parent".to_string(), "u".to_string())];
    let incoming = Commit { tree: tree(&[("x", "1")]), roots: vec![0] };
    let (st, r) = st.fetch(&"parent".to_string(), 1, incoming);
    assert_eq!(r, Ok(()));
    let tid = st.remote_refs.iter().find(|(n, _)| n == "parent/main").map(|(_, t)| *t);
    assert_eq!(tid, Some(0));
    let sh = st.shallow.iter().find(|(n, _)| n == "parent").map(|(_, s)| *s);
    assert_eq!(sh, Some(true));
    let (st, r) = st.fetch_unshallow(&"parent".to_string());
    assert_eq!(r, Ok(()));
    let sh = st.shallow.iter().find(|(n, _)| n == "parent").map(|(_, s)| *s);
    assert_eq!(sh, Some(false));
    // Fetching from an unknown remote is refused.
    let missing = Commit { tree: vec![], roots: vec![] };
    let (_st, r) = st.fetch(&"nowhere".to_string(), 1, missing);
    assert_eq!(r, Err(SyncError::RemoteNotFound));
}

#[test]
fn sweep_of_empty_worktree_changes_nothing() {
    let wt: Vec<(RelPath, TreeEntry)> = vec![];
    let parent = tree(&[(".gitignore", "canonical")]);
    let (swept, r) = sweep_overrides(wt, &parent, &".gitignore".to_string());
    assert_eq!(r, Ok(()));
    assert!(swept.is_empty());
}

#[test]
fn sweep_reports_a_directory_target() {
    let wt = tree(&[("a/.gitignore", "x")]);
    let mut parent: Vec<(RelPath, TreeEntry)> = vec![];
    parent.push((p("a/.gitignore"), TreeEntry::Dir));
    let (_swept, r) = sweep_overrides(wt, &parent, &".gitignore".to_string());
    assert_eq!(r, Err(SyncError::NotARegularFile));
}

#[test]
fn entry_kind_differences_are_conflicts() {
    let mut a = tree(&[]);
    a.push((p("thing"), TreeEntry::Dir));
    let b = tree(&[("thing", "file-now")]);
    assert!(trees_conflict_exec(&a, &b));
}

#[test]
fn pull_needs_an_upstream_and_a_known_ref() {
    let mut st = empty_state();
    st.commits = vec![Commit { tree: tree(&[]), roots: vec![0] }];
    st.branch_tips = vec![("main".to_string(), 0)];
    let (st, r) = st.pull_theirs();
    assert_eq!(r, Err(SyncError::BranchNotFound));
    let mut st = st;
    st.upstreams = vec![("main".to_string(), "source/main".to_string())];
    let (_st, r) = st.pull_theirs();
    assert_eq!(r, Err(SyncError::BranchNotFound));
}

#[test]
fn pushing_to_a_missing_remote_fails() {
    let st = empty_state();
    assert_eq!(
        st.push(&"source".to_string(), &"HEAD".to_string()),
        Err(SyncError::RemoteNotFound)
    );
}


#[test]
fn failed_sweep_keeps_earlier_restores_and_later_targets() {
    // Two targets in tree order; the parent holds the first but not the
    // second, so the sweep aborts after restoring the first.
    let wt = tree(&[
        ("a/.gitignore", "local-a"),
        ("z/.gitignore", "local-z"),
        ("other.txt", "o"),
    ]);
    let parent = tree(&[("a/.gitignore", "canonical-a")]);
    let (swept, r) = sweep_overrides(wt, &parent, &".gitignore".to_string());
    assert_eq!(r, Err(SyncError::PathNotFound));
    // The restore before the failing target stands; nothing is rolled
    // back, and the failing and later paths are untouched.
    assert_eq!(content(&swept, "a/.gitignore").unwrap(), b"canonical-a".to_vec());
    assert_eq!(content(&swept, "z/.gitignore").unwrap(), b"local-z".to_vec());
    assert_eq!(content(&swept, "other.txt").unwrap(), b"o".to_vec());
}
