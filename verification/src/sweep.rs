//! The override sweep: every working-tree path whose final component is
//! an override-managed filename — outside the version-control metadata
//! directory and the dependency-cache directory, both pruned entirely —
//! is restored from the parent branch tip.

use vstd::prelude::*;
use crate::errors::SyncError;
use crate::tree::{RelPath, TreeEntry, EntryV, tree_lookup, clone_path, restore_path,
    lemma_tree_lookup_exists};

verus! {

/// Whether a path is named by an override sweep for `fname`: its final
/// component is `fname` and it does not lie under either excluded root.
pub open spec fn matches_override(k: Seq<Seq<char>>, fname: Seq<char>) -> bool {
    &&& k.len() > 0
    &&& k.last() == fname
    &&& k[0] != ".git"@
    &&& k[0] != "node_modules"@
}

/// A sweep's target: a matching path that the working tree holds.
pub open spec fn is_override_target(
    wt: Seq<(RelPath, TreeEntry)>,
    k: Seq<Seq<char>>,
    fname: Seq<char>,
) -> bool {
    matches_override(k, fname) && tree_lookup(wt, k) is Some
}

/// The sweep's target list: the paths of the working-tree entries whose
/// final component matches, in the tree's own (deterministic) order.
pub open spec fn override_targets(
    s: Seq<(RelPath, TreeEntry)>,
    fname: Seq<char>,
) -> Seq<Seq<Seq<char>>>
    decreases s.len(),
{
    if s.len() == 0 {
        Seq::empty()
    } else if matches_override(s[0].0@, fname) {
        seq![s[0].0@] + override_targets(s.drop_first(), fname)
    } else {
        override_targets(s.drop_first(), fname)
    }
}

proof fn lemma_override_targets_push(
    s: Seq<(RelPath, TreeEntry)>,
    p: (RelPath, TreeEntry),
    fname: Seq<char>,
)
    ensures
        override_targets(s.push(p), fname) == (if matches_override(p.0@, fname) {
            override_targets(s, fname).push(p.0@)
        } else {
            override_targets(s, fname)
        }),
    decreases s.len(),
{
    if s.len() == 0 {
        assert(s.push(p)[0] == p);
        assert(s.push(p).drop_first() =~= Seq::<(RelPath, TreeEntry)>::empty());
        assert(override_targets(Seq::<(RelPath, TreeEntry)>::empty(), fname)
            =~= Seq::<Seq<Seq<char>>>::empty());
        if matches_override(p.0@, fname) {
            assert(seq![p.0@] + Seq::<Seq<Seq<char>>>::empty()
                =~= override_targets(s, fname).push(p.0@));
        }
    } else {
        assert(s.push(p)[0] == s[0]);
        assert(s.push(p).drop_first() =~= s.drop_first().push(p));
        lemma_override_targets_push(s.drop_first(), p, fname);
        if matches_override(s[0].0@, fname) && matches_override(p.0@, fname) {
            assert(seq![s[0].0@] + override_targets(s.drop_first(), fname).push(p.0@)
                =~= (seq![s[0].0@] + override_targets(s.drop_first(), fname)).push(p.0@));
        }
    }
}

/// What a successful sweep leaves behind: every target carries the parent
/// tree's content, every other path is untouched, and every target is a
/// regular file in the parent tree.
pub open spec fn sweep_post(
    wt: Seq<(RelPath, TreeEntry)>,
    parent: Seq<(RelPath, TreeEntry)>,
    fname: Seq<char>,
    wt2: Seq<(RelPath, TreeEntry)>,
) -> bool {
    &&& forall|k: Seq<Seq<char>>| is_override_target(wt, k, fname)
        ==> tree_lookup(wt2, k) == tree_lookup(parent, k)
    &&& forall|k: Seq<Seq<char>>| !is_override_target(wt, k, fname)
        ==> tree_lookup(wt2, k) == tree_lookup(wt, k)
    &&& forall|k: Seq<Seq<char>>| is_override_target(wt, k, fname)
        ==> tree_lookup(parent, k) matches Some(EntryV::Blob(_))
}

/// Whether a path matches the sweep, decided on its components.
pub fn matches_override_exec(p: &RelPath, fname: &String) -> (r: bool)
    ensures
        r == matches_override(p@, fname@),
{
    if p.parts.len() == 0 {
        return false;
    }
    let last = &p.parts[p.parts.len() - 1];
    assert(p@.last() == p.parts@[p.parts@.len() - 1]@);
    if !(*last == *fname) {
        return false;
    }
    let git_dir = String::from_str(".git");
    let dep_dir = String::from_str("node_modules");
    let first = &p.parts[0];
    if *first == git_dir {
        return false;
    }
    if *first == dep_dir {
        return false;
    }
    true
}

/// Restores from the parent tree every working-tree path whose final
/// component is `fname`, skipping the two excluded roots.
///
/// Succeeds exactly when every target is a regular file in the parent
/// tree; the result then satisfies `sweep_post`: targets carry the
/// parent's content, nothing else moves, and re-running the sweep would
/// change nothing. On failure the error names what the first failing
/// target (in tree order) resolved to in the parent tree; the targets
/// restored before it keep the parent's content, and every other path —
/// later targets included — is untouched: nothing is rolled back.
pub fn sweep_overrides(
    wt: Vec<(RelPath, TreeEntry)>,
    parent: &Vec<(RelPath, TreeEntry)>,
    fname: &String,
) -> (r: (Vec<(RelPath, TreeEntry)>, Result<(), SyncError>))
    ensures
        r.1 is Ok <==> (forall|k: Seq<Seq<char>>| is_override_target(wt@, k, fname@)
            ==> tree_lookup(parent@, k) matches Some(EntryV::Blob(_))),
        r.1 is Ok ==> sweep_post(wt@, parent@, fname@, r.0@),
        match r.1 {
            Ok(()) => true,
            Err(e) => ({
                let ts = override_targets(wt@, fname@);
                &&& (e == SyncError::PathNotFound || e == SyncError::NotARegularFile)
                &&& forall|k: Seq<Seq<char>>| !matches_override(k, fname@)
                    ==> tree_lookup(r.0@, k) == tree_lookup(wt@, k)
                &&& exists|n: int|
                    #![auto]
                    0 <= n < ts.len()
                        && !(tree_lookup(parent@, ts[n]) matches Some(EntryV::Blob(_)))
                        && (e == SyncError::PathNotFound <==> tree_lookup(parent@, ts[n]) is None)
                        && (forall|m: int| 0 <= m < n ==> tree_lookup(r.0@, ts[m])
                            == tree_lookup(parent@, ts[m]))
                        && (forall|k: Seq<Seq<char>>| (forall|m: int| 0 <= m < n ==> ts[m] != k)
                            ==> tree_lookup(r.0@, k) == tree_lookup(wt@, k))
            }),
        },
{
    // Collect the targets first: the restore set is decided on the
    // snapshot, so the traversal is deterministic for a given tree.
    let mut targets: Vec<RelPath> = Vec::new();
    let mut i: usize = 0;
    proof {
        assert(wt@.subrange(0, 0) =~= Seq::<(RelPath, TreeEntry)>::empty());
        assert(override_targets(Seq::<(RelPath, TreeEntry)>::empty(), fname@)
            =~= Seq::<Seq<Seq<char>>>::empty());
        assert(Seq::new(targets@.len(), |m: int| targets@[m]@) =~= Seq::<Seq<Seq<char>>>::empty());
    }
    while i < wt.len()
        invariant
            i <= wt@.len(),
            forall|j: int| 0 <= j < targets@.len()
                ==> matches_override(#[trigger] targets@[j]@, fname@),
            forall|j: int| 0 <= j < targets@.len()
                ==> exists|n: int| 0 <= n < wt@.len() && wt@[n].0@ == #[trigger] targets@[j]@,
            forall|n: int| 0 <= n < i && matches_override(#[trigger] wt@[n].0@, fname@)
                ==> exists|j: int| 0 <= j < targets@.len() && targets@[j]@ == wt@[n].0@,
            Seq::new(targets@.len(), |m: int| targets@[m]@)
                == override_targets(wt@.subrange(0, i as int), fname@),
        decreases wt@.len() - i,
    {
        let ghost pre = targets@;
        if matches_override_exec(&wt[i].0, fname) {
            targets.push(clone_path(&wt[i].0));
            assert(targets@[pre.len() as int]@ == wt@[i as int].0@);
            assert(forall|j: int| 0 <= j < pre.len() ==> targets@[j] == pre[j]);
        }
        proof {
            assert(wt@.subrange(0, i as int + 1)
                =~= wt@.subrange(0, i as int).push(wt@[i as int]));
            lemma_override_targets_push(wt@.subrange(0, i as int), wt@[i as int], fname@);
            if matches_override(wt@[i as int].0@, fname@) {
                assert(Seq::new(targets@.len(), |m: int| targets@[m]@)
                    =~= Seq::new(pre.len(), |m: int| pre[m]@).push(wt@[i as int].0@));
            } else {
                assert(Seq::new(targets@.len(), |m: int| targets@[m]@)
                    =~= Seq::new(pre.len(), |m: int| pre[m]@));
            }
        }
        i = i + 1;
    }
    proof {
        assert(wt@.subrange(0, wt@.len() as int) =~= wt@);
        assert(targets@.len() == override_targets(wt@, fname@).len());
        assert forall|m: int| 0 <= m < targets@.len()
            implies targets@[m]@ == override_targets(wt@, fname@)[m] by {
            assert(Seq::new(targets@.len(), |m2: int| targets@[m2]@)[m] == targets@[m]@);
        }
    }
    proof {
        assert forall|k: Seq<Seq<char>>| is_override_target(wt@, k, fname@)
            implies exists|j: int| 0 <= j < targets@.len() && targets@[j]@ == k by {
            lemma_tree_lookup_exists(wt@, k);
        }
        assert forall|j: int| 0 <= j < targets@.len()
            implies is_override_target(wt@, #[trigger] targets@[j]@, fname@) by {
            lemma_tree_lookup_exists(wt@, targets@[j]@);
        }
    }
    // Restore each target from the parent tree, aborting at the first
    // path the parent does not hold as a regular file.
    let mut cur = wt;
    let mut j: usize = 0;
    while j < targets.len()
        invariant
            j <= targets@.len(),
            forall|n: int| 0 <= n < targets@.len()
                ==> is_override_target(wt@, #[trigger] targets@[n]@, fname@),
            forall|k: Seq<Seq<char>>| is_override_target(wt@, k, fname@)
                ==> exists|n: int| 0 <= n < targets@.len() && targets@[n]@ == k,
            forall|n: int| 0 <= n < j ==> tree_lookup(cur@, #[trigger] targets@[n]@)
                == tree_lookup(parent@, targets@[n]@),
            forall|n: int| 0 <= n < j ==> tree_lookup(parent@, #[trigger] targets@[n]@)
                matches Some(EntryV::Blob(_)),
            forall|k: Seq<Seq<char>>| (forall|n: int| 0 <= n < j
                ==> #[trigger] targets@[n]@ != k) ==> tree_lookup(cur@, k) == tree_lookup(wt@, k),
            targets@.len() == override_targets(wt@, fname@).len(),
            forall|m: int| 0 <= m < targets@.len()
                ==> #[trigger] targets@[m]@ == override_targets(wt@, fname@)[m],
        decreases targets@.len() - j,
    {
        let (next, res) = restore_path(cur, parent, &targets[j]);
        cur = next;
        match res {
            Ok(()) => {},
            Err(e) => {
                proof {
                    let ts = override_targets(wt@, fname@);
                    let bad = targets@[j as int]@;
                    assert(is_override_target(wt@, bad, fname@));
                    assert(!(tree_lookup(parent@, bad) matches Some(EntryV::Blob(_))));
                    assert(!(forall|k: Seq<Seq<char>>| is_override_target(wt@, k, fname@)
                        ==> tree_lookup(parent@, k) matches Some(EntryV::Blob(_))));
                    assert forall|k: Seq<Seq<char>>| !matches_override(k, fname@)
                        implies tree_lookup(cur@, k) == tree_lookup(wt@, k) by {
                        assert forall|n: int| 0 <= n < j
                            implies #[trigger] targets@[n]@ != k by {
                            assert(matches_override(targets@[n]@, fname@));
                        }
                    }
                    assert(ts[j as int] == bad);
                    assert forall|m: int| 0 <= m < j implies tree_lookup(cur@, #[trigger] ts[m])
                        == tree_lookup(parent@, ts[m]) by {
                        assert(targets@[m]@ == ts[m]);
                        assert(tree_lookup(cur@, targets@[m]@)
                            == tree_lookup(parent@, targets@[m]@));
                    }
                    assert forall|k: Seq<Seq<char>>| (forall|m: int| 0 <= m < j
                        ==> #[trigger] ts[m] != k)
                        implies tree_lookup(cur@, k) == tree_lookup(wt@, k) by {
                        assert(forall|n: int| 0 <= n < j ==> #[trigger] targets@[n]@ != k);
                    }
                    assert(0 <= j < ts.len()
                        && !(tree_lookup(parent@, ts[j as int]) matches Some(EntryV::Blob(_)))
                        && (e == SyncError::PathNotFound
                            <==> tree_lookup(parent@, ts[j as int]) is None)
                        && (forall|m: int| 0 <= m < j ==> tree_lookup(cur@, ts[m])
                            == tree_lookup(parent@, ts[m]))
                        && (forall|k: Seq<Seq<char>>| (forall|m: int| 0 <= m < j
                            ==> ts[m] != k) ==> tree_lookup(cur@, k) == tree_lookup(wt@, k)));
                }
                return (cur, Err(e));
            },
        }
        j = j + 1;
    }
    proof {
        assert forall|k: Seq<Seq<char>>| is_override_target(wt@, k, fname@)
            implies tree_lookup(cur@, k) == tree_lookup(parent@, k)
                && (tree_lookup(parent@, k) matches Some(EntryV::Blob(_))) by {
            let n = choose|n: int| 0 <= n < targets@.len() && targets@[n]@ == k;
        }
        assert forall|k: Seq<Seq<char>>| !is_override_target(wt@, k, fname@)
            implies tree_lookup(cur@, k) == tree_lookup(wt@, k) by {
        }
    }
    (cur, Ok(()))
}

/// The sweep is idempotent: a second sweep against an unchanged parent
/// tree has exactly the targets of the first and rewrites every one of
/// them with the content it already has, so the tree does not change.
pub proof fn lemma_sweep_idempotent(
    wt: Seq<(RelPath, TreeEntry)>,
    parent: Seq<(RelPath, TreeEntry)>,
    fname: Seq<char>,
    wt2: Seq<(RelPath, TreeEntry)>,
    wt3: Seq<(RelPath, TreeEntry)>,
)
    requires
        sweep_post(wt, parent, fname, wt2),
        sweep_post(wt2, parent, fname, wt3),
    ensures
        forall|k: Seq<Seq<char>>| is_override_target(wt2, k, fname)
            <==> is_override_target(wt, k, fname),
        forall|k: Seq<Seq<char>>| is_override_target(wt2, k, fname)
            ==> tree_lookup(parent, k) matches Some(EntryV::Blob(_)),
        forall|k: Seq<Seq<char>>| tree_lookup(wt3, k) == tree_lookup(wt2, k),
{
    assert forall|k: Seq<Seq<char>>| is_override_target(wt2, k, fname)
        <==> is_override_target(wt, k, fname) by {
        if matches_override(k, fname) {
            if is_override_target(wt, k, fname) {
                assert(tree_lookup(wt2, k) == tree_lookup(parent, k));
            } else {
                assert(tree_lookup(wt2, k) == tree_lookup(wt, k));
            }
        }
    }
    assert forall|k: Seq<Seq<char>>| tree_lookup(wt3, k) == tree_lookup(wt2, k) by {
        if is_override_target(wt2, k, fname) {
            assert(tree_lookup(wt2, k) == tree_lookup(parent, k));
            assert(tree_lookup(wt3, k) == tree_lookup(parent, k));
        } else {
            assert(tree_lookup(wt3, k) == tree_lookup(wt2, k));
        }
    }
}

} // verus!
