//! Commits and merging: unrelated-history detection over the roots a
//! commit's history descends from, conflict detection between two trees,
//! and the "theirs" resolution policy under which the incoming side wins
//! every path-level conflict.

use vstd::prelude::*;
use crate::tree::{RelPath, TreeEntry, EntryV, tree_lookup, tree_find, clone_bytes, clone_path,
    lemma_tree_lookup_exists};

verus! {

/// A commit: the tree it snapshots, and the identities of the root
/// commits its history descends from. Two commits share an ancestor
/// exactly when their root sets intersect.
pub struct Commit {
    pub tree: Vec<(RelPath, TreeEntry)>,
    pub roots: Vec<usize>,
}

/// Whether two histories share a common ancestor.
pub open spec fn histories_related(a: Seq<usize>, b: Seq<usize>) -> bool {
    exists|x: usize| a.contains(x) && b.contains(x)
}

/// Whether two trees hold the same path with different content, so that a
/// merge without a resolution policy cannot be applied mechanically.
pub open spec fn trees_conflict(a: Seq<(RelPath, TreeEntry)>, b: Seq<(RelPath, TreeEntry)>) -> bool {
    exists|k: Seq<Seq<char>>| tree_lookup(a, k) is Some && tree_lookup(b, k) is Some
        && tree_lookup(a, k) != tree_lookup(b, k)
}

/// What merging with the "theirs" policy produces: at every path the
/// incoming tree holds, its entry wins; every other path keeps ours.
pub open spec fn theirs_merge_post(
    ours: Seq<(RelPath, TreeEntry)>,
    theirs: Seq<(RelPath, TreeEntry)>,
    out: Seq<(RelPath, TreeEntry)>,
) -> bool {
    forall|k: Seq<Seq<char>>| tree_lookup(out, k) == (if tree_lookup(theirs, k) is Some {
        tree_lookup(theirs, k)
    } else {
        tree_lookup(ours, k)
    })
}

/// Whether a commit id list contains an id.
pub fn ids_contain(v: &Vec<usize>, x: usize) -> (r: bool)
    ensures
        r == v@.contains(x),
{
    let mut i: usize = 0;
    while i < v.len()
        invariant
            i <= v@.len(),
            forall|j: int| 0 <= j < i ==> v@[j] != x,
        decreases v@.len() - i,
    {
        if v[i] == x {
            return true;
        }
        i = i + 1;
    }
    false
}

/// Whether two root sets intersect.
pub fn histories_related_exec(a: &Vec<usize>, b: &Vec<usize>) -> (r: bool)
    ensures
        r == histories_related(a@, b@),
{
    let mut i: usize = 0;
    while i < a.len()
        invariant
            i <= a@.len(),
            forall|j: int| 0 <= j < i ==> !b@.contains(#[trigger] a@[j]),
        decreases a@.len() - i,
    {
        if ids_contain(b, a[i]) {
            assert(a@.contains(a@[i as int]));
            return true;
        }
        i = i + 1;
    }
    proof {
        if histories_related(a@, b@) {
            let x = choose|x: usize| a@.contains(x) && b@.contains(x);
            let j = choose|j: int| 0 <= j < a@.len() && a@[j] == x;
            assert(!b@.contains(a@[j]));
        }
    }
    false
}

/// Copies a list of commit ids.
pub fn clone_ids(v: &Vec<usize>) -> (r: Vec<usize>)
    ensures
        r@ == v@,
{
    let mut out: Vec<usize> = Vec::new();
    let mut i: usize = 0;
    while i < v.len()
        invariant
            i <= v@.len(),
            out@ == v@.subrange(0, i as int),
        decreases v@.len() - i,
    {
        out.push(v[i]);
        assert(out@ =~= v@.subrange(0, i as int + 1));
        i = i + 1;
    }
    assert(v@.subrange(0, v@.len() as int) =~= v@);
    out
}

/// The union of two root sets, as a list.
pub fn union_roots(a: &Vec<usize>, b: &Vec<usize>) -> (r: Vec<usize>)
    ensures
        forall|x: usize| r@.contains(x) <==> (a@.contains(x) || b@.contains(x)),
{
    let mut out = clone_ids(a);
    let mut i: usize = 0;
    while i < b.len()
        invariant
            i <= b@.len(),
            forall|x: usize| out@.contains(x) <==> (a@.contains(x) || b@.subrange(0, i as int).contains(x)),
        decreases b@.len() - i,
    {
        let ghost pre = out@;
        out.push(b[i]);
        proof {
            assert forall|x: usize| out@.contains(x)
                implies (a@.contains(x) || b@.subrange(0, i as int + 1).contains(x)) by {
                let j = choose|j: int| 0 <= j < out@.len() && out@[j] == x;
                if j < pre.len() {
                    assert(pre.contains(x));
                    if b@.subrange(0, i as int).contains(x) {
                        let n = choose|n: int| 0 <= n < i && b@.subrange(0, i as int)[n] == x;
                        assert(b@.subrange(0, i as int + 1)[n] == x);
                    }
                } else {
                    assert(out@[j] == b@[i as int]);
                    assert(b@.subrange(0, i as int + 1)[i as int] == x);
                }
            }
            assert forall|x: usize| (a@.contains(x) || b@.subrange(0, i as int + 1).contains(x))
                implies out@.contains(x) by {
                if a@.contains(x) || b@.subrange(0, i as int).contains(x) {
                    assert(pre.contains(x));
                    let j = choose|j: int| 0 <= j < pre.len() && pre[j] == x;
                    assert(out@[j] == x);
                } else {
                    let n = choose|n: int| 0 <= n < i + 1 && #[trigger] b@.subrange(0, i as int + 1)[n] == x;
                    assert(b@[n] == x);
                    assert(n == i);
                    assert(out@[out@.len() - 1] == x);
                }
            }
        }
        i = i + 1;
    }
    assert(b@.subrange(0, b@.len() as int) =~= b@);
    out
}

/// Equality of two entries, decided on their content.
pub fn entry_eq(a: &TreeEntry, b: &TreeEntry) -> (r: bool)
    ensures
        r == (a@ == b@),
{
    match a {
        TreeEntry::Dir => match b {
            TreeEntry::Dir => true,
            TreeEntry::Blob(_) => false,
        },
        TreeEntry::Blob(x) => match b {
            TreeEntry::Dir => false,
            TreeEntry::Blob(y) => {
                if x.len() != y.len() {
                    assert(x@.len() != y@.len());
                    return false;
                }
                let mut i: usize = 0;
                while i < x.len()
                    invariant
                        i <= x@.len(),
                        x@.len() == y@.len(),
                        a@ == EntryV::Blob(x@),
                        b@ == EntryV::Blob(y@),
                        forall|j: int| 0 <= j < i ==> x@[j] == y@[j],
                    decreases x@.len() - i,
                {
                    if x[i] != y[i] {
                        assert(x@ != y@);
                        return false;
                    }
                    i = i + 1;
                }
                proof {
                    assert(x@ =~= y@);
                }
                true
            },
        },
    }
}

/// Copies an entry.
pub fn clone_entry(e: &TreeEntry) -> (r: TreeEntry)
    ensures
        r@ == e@,
{
    match e {
        TreeEntry::Dir => TreeEntry::Dir,
        TreeEntry::Blob(b) => TreeEntry::Blob(clone_bytes(b)),
    }
}

/// Lookup only depends on the entries' views.
proof fn lemma_tree_lookup_congruent(
    s1: Seq<(RelPath, TreeEntry)>,
    s2: Seq<(RelPath, TreeEntry)>,
    k: Seq<Seq<char>>,
)
    requires
        s1.len() == s2.len(),
        forall|j: int| 0 <= j < s1.len() ==> s1[j].0@ == s2[j].0@ && s1[j].1@ == s2[j].1@,
    ensures
        tree_lookup(s1, k) == tree_lookup(s2, k),
    decreases s1.len(),
{
    if s1.len() > 0 {
        assert(s1.drop_first().len() == s2.drop_first().len());
        assert forall|j: int| 0 <= j < s1.drop_first().len()
            implies s1.drop_first()[j].0@ == s2.drop_first()[j].0@
                && s1.drop_first()[j].1@ == s2.drop_first()[j].1@ by {
            assert(s1[j + 1].0@ == s2[j + 1].0@ && s1[j + 1].1@ == s2[j + 1].1@);
        }
        lemma_tree_lookup_congruent(s1.drop_first(), s2.drop_first(), k);
    }
}

/// Copies a tree.
pub fn clone_tree(t: &Vec<(RelPath, TreeEntry)>) -> (r: Vec<(RelPath, TreeEntry)>)
    ensures
        forall|k: Seq<Seq<char>>| tree_lookup(r@, k) == tree_lookup(t@, k),
{
    let mut out: Vec<(RelPath, TreeEntry)> = Vec::new();
    let mut i: usize = 0;
    while i < t.len()
        invariant
            i <= t@.len(),
            out@.len() == i,
            forall|j: int| 0 <= j < i ==> out@[j].0@ == t@[j].0@ && out@[j].1@ == t@[j].1@,
        decreases t@.len() - i,
    {
        out.push((clone_path(&t[i].0), clone_entry(&t[i].1)));
        i = i + 1;
    }
    proof {
        assert forall|k: Seq<Seq<char>>| tree_lookup(out@, k) == tree_lookup(t@, k) by {
            lemma_tree_lookup_congruent(out@, t@, k);
        }
    }
    out
}

/// Whether two trees conflict: some path is in both with different content.
pub fn trees_conflict_exec(a: &Vec<(RelPath, TreeEntry)>, b: &Vec<(RelPath, TreeEntry)>) -> (r: bool)
    ensures
        r == trees_conflict(a@, b@),
{
    let mut i: usize = 0;
    while i < a.len()
        invariant
            i <= a@.len(),
            forall|j: int| 0 <= j < i ==> !(tree_lookup(a@, #[trigger] a@[j].0@) is Some
                && tree_lookup(b@, a@[j].0@) is Some
                && tree_lookup(a@, a@[j].0@) != tree_lookup(b@, a@[j].0@)),
        decreases a@.len() - i,
    {
        let va = tree_find(a, &a[i].0);
        let vb = tree_find(b, &a[i].0);
        match (va, vb) {
            (Some(ea), Some(eb)) => {
                if !entry_eq(ea, eb) {
                    return true;
                }
            },
            _ => {},
        }
        i = i + 1;
    }
    proof {
        if trees_conflict(a@, b@) {
            let k = choose|k: Seq<Seq<char>>| tree_lookup(a@, k) is Some
                && tree_lookup(b@, k) is Some && tree_lookup(a@, k) != tree_lookup(b@, k);
            lemma_tree_lookup_exists(a@, k);
            let j = choose|j: int| 0 <= j < a@.len() && a@[j].0@ == k;
            assert(!(tree_lookup(a@, a@[j].0@) is Some && tree_lookup(b@, a@[j].0@) is Some
                && tree_lookup(a@, a@[j].0@) != tree_lookup(b@, a@[j].0@)));
        }
    }
    false
}

/// Merges two trees under the "theirs" policy: the incoming tree's entry
/// wins at every path it holds; every other path keeps ours.
pub fn merge_trees_theirs(
    ours: &Vec<(RelPath, TreeEntry)>,
    theirs: &Vec<(RelPath, TreeEntry)>,
) -> (out: Vec<(RelPath, TreeEntry)>)
    ensures
        theirs_merge_post(ours@, theirs@, out@),
{
    let mut out = clone_tree(theirs);
    let mut i: usize = 0;
    assert(ours@.subrange(0, 0) =~= Seq::<(RelPath, TreeEntry)>::empty());
    while i < ours.len()
        invariant
            i <= ours@.len(),
            forall|k: Seq<Seq<char>>| tree_lookup(theirs@, k) is Some
                ==> tree_lookup(out@, k) == tree_lookup(theirs@, k),
            forall|k: Seq<Seq<char>>| tree_lookup(theirs@, k) is None
                ==> tree_lookup(out@, k) == tree_lookup(ours@.subrange(0, i as int), k),
        decreases ours@.len() - i,
    {
        let ghost pre = out@;
        let ghost prefix = ours@.subrange(0, i as int);
        let p = &ours[i].0;
        if tree_find(theirs, p).is_none() {
            let pair = (clone_path(p), clone_entry(&ours[i].1));
            let ghost pairg = pair;
            out.push(pair);
            proof {
                assert(ours@.subrange(0, i as int + 1) =~= prefix.push(ours@[i as int]));
                assert forall|k: Seq<Seq<char>>| true implies tree_lookup(out@, k) == (
                    if tree_lookup(pre, k) is Some {
                        tree_lookup(pre, k)
                    } else if pairg.0@ == k {
                        Some(pairg.1@)
                    } else {
                        None::<EntryV>
                    }) by {
                    crate::tree::lemma_tree_lookup_push(pre, pairg, k);
                }
                assert forall|k: Seq<Seq<char>>| true implies tree_lookup(prefix.push(ours@[i as int]), k) == (
                    if tree_lookup(prefix, k) is Some {
                        tree_lookup(prefix, k)
                    } else if ours@[i as int].0@ == k {
                        Some(ours@[i as int].1@)
                    } else {
                        None::<EntryV>
                    }) by {
                    crate::tree::lemma_tree_lookup_push(prefix, ours@[i as int], k);
                }
            }
        } else {
            proof {
                assert(ours@.subrange(0, i as int + 1) =~= prefix.push(ours@[i as int]));
                assert forall|k: Seq<Seq<char>>| tree_lookup(theirs@, k) is None
                    implies tree_lookup(out@, k) == tree_lookup(ours@.subrange(0, i as int + 1), k) by {
                    crate::tree::lemma_tree_lookup_push(prefix, ours@[i as int], k);
                    assert(ours@[i as int].0@ != k);
                }
            }
        }
        i = i + 1;
    }
    assert(ours@.subrange(0, ours@.len() as int) =~= ours@);
    out
}

/// The "theirs" policy is deterministic: at a path both sides hold with
/// different content, the incoming side's content wins, whichever side
/// plays "ours".
pub proof fn lemma_theirs_policy_deterministic(
    a: Seq<(RelPath, TreeEntry)>,
    b: Seq<(RelPath, TreeEntry)>,
    a_pulls_b: Seq<(RelPath, TreeEntry)>,
    b_pulls_a: Seq<(RelPath, TreeEntry)>,
    k: Seq<Seq<char>>,
)
    requires
        theirs_merge_post(a, b, a_pulls_b),
        theirs_merge_post(b, a, b_pulls_a),
        tree_lookup(a, k) is Some,
        tree_lookup(b, k) is Some,
        tree_lookup(a, k) != tree_lookup(b, k),
    ensures
        tree_lookup(a_pulls_b, k) == tree_lookup(b, k),
        tree_lookup(b_pulls_a, k) == tree_lookup(a, k),
{
}

} // verus!
