//! Trees and working trees: finite maps from repository-relative paths to
//! entries (file content or a directory marker), plus the single-file
//! restore operation that overwrites a working-tree path with the content
//! the path has in a source tree.

use vstd::prelude::*;
use crate::errors::SyncError;

verus! {

/// A repository-relative path, as its slash-separated components.
pub struct RelPath {
    pub parts: Vec<String>,
}

impl View for RelPath {
    type V = Seq<Seq<char>>;

    open spec fn view(&self) -> Seq<Seq<char>> {
        Seq::new(self.parts@.len(), |i: int| self.parts@[i]@)
    }
}

/// One entry of a tree or of the working tree.
pub enum TreeEntry {
    Blob(Vec<u8>),
    Dir,
}

/// The mathematical value of an entry.
pub enum EntryV {
    Blob(Seq<u8>),
    Dir,
}

impl View for TreeEntry {
    type V = EntryV;

    open spec fn view(&self) -> EntryV {
        match self {
            TreeEntry::Blob(b) => EntryV::Blob(b@),
            TreeEntry::Dir => EntryV::Dir,
        }
    }
}

/// First-match lookup of a path in a tree, by view.
pub open spec fn tree_lookup(s: Seq<(RelPath, TreeEntry)>, k: Seq<Seq<char>>) -> Option<EntryV>
    decreases s.len(),
{
    if s.len() == 0 {
        None
    } else if s[0].0@ == k {
        Some(s[0].1@)
    } else {
        tree_lookup(s.drop_first(), k)
    }
}

/// A path is bound exactly when some entry carries it.
pub proof fn lemma_tree_lookup_exists(s: Seq<(RelPath, TreeEntry)>, k: Seq<Seq<char>>)
    ensures
        (tree_lookup(s, k) is Some) <==> exists|i: int| 0 <= i < s.len() && s[i].0@ == k,
    decreases s.len(),
{
    if s.len() > 0 {
        lemma_tree_lookup_exists(s.drop_first(), k);
        if s[0].0@ != k {
            if tree_lookup(s, k) is Some {
                let i = choose|i: int| 0 <= i < s.drop_first().len() && s.drop_first()[i].0@ == k;
                assert(s[i + 1].0@ == k);
            }
            if exists|i: int| 0 <= i < s.len() && s[i].0@ == k {
                let i = choose|i: int| 0 <= i < s.len() && s[i].0@ == k;
                assert(s.drop_first()[i - 1].0@ == k);
            }
        }
    }
}

/// Lookup after appending one entry: an existing binding wins, otherwise
/// the new entry answers for its own path.
pub proof fn lemma_tree_lookup_push(s: Seq<(RelPath, TreeEntry)>, p: (RelPath, TreeEntry), k: Seq<Seq<char>>)
    ensures
        tree_lookup(s.push(p), k) == (if tree_lookup(s, k) is Some {
            tree_lookup(s, k)
        } else if p.0@ == k {
            Some(p.1@)
        } else {
            None::<EntryV>
        }),
    decreases s.len(),
{
    if s.len() == 0 {
        assert(s.push(p)[0] == p);
        assert(s.push(p).drop_first() =~= Seq::<(RelPath, TreeEntry)>::empty());
        assert(tree_lookup(Seq::<(RelPath, TreeEntry)>::empty(), k) is None);
    } else {
        assert(s.push(p)[0] == s[0]);
        assert(s.push(p).drop_first() =~= s.drop_first().push(p));
        lemma_tree_lookup_push(s.drop_first(), p, k);
    }
}

/// Equality of two paths, decided component by component.
pub fn path_eq(a: &RelPath, b: &RelPath) -> (r: bool)
    ensures
        r == (a@ == b@),
{
    if a.parts.len() != b.parts.len() {
        assert(a@.len() != b@.len());
        return false;
    }
    let mut i: usize = 0;
    while i < a.parts.len()
        invariant
            i <= a.parts@.len(),
            a.parts@.len() == b.parts@.len(),
            forall|j: int| 0 <= j < i ==> a@[j] == b@[j],
        decreases a.parts@.len() - i,
    {
        if !(a.parts[i] == b.parts[i]) {
            assert(a@[i as int] != b@[i as int]);
            return false;
        }
        i = i + 1;
    }
    proof {
        assert(a@ =~= b@);
    }
    true
}

/// Looks a path up, returning a reference to its entry.
pub fn tree_find<'a>(m: &'a Vec<(RelPath, TreeEntry)>, k: &RelPath) -> (r: Option<&'a TreeEntry>)
    ensures
        match r {
            Some(e) => tree_lookup(m@, k@) == Some(e@),
            None => tree_lookup(m@, k@) is None,
        },
{
    let mut i: usize = 0;
    assert(m@.skip(0) =~= m@);
    while i < m.len()
        invariant
            i <= m@.len(),
            tree_lookup(m@, k@) == tree_lookup(m@.skip(i as int), k@),
        decreases m@.len() - i,
    {
        assert(m@.skip(i as int)[0] == m@[i as int]);
        if path_eq(&m[i].0, k) {
            return Some(&m[i].1);
        }
        assert(m@.skip(i as int).drop_first() =~= m@.skip(i as int + 1));
        i = i + 1;
    }
    assert(m@.skip(i as int) =~= Seq::<(RelPath, TreeEntry)>::empty());
    None
}

/// Removes every entry bound to a path.
pub fn tree_remove_key(m: Vec<(RelPath, TreeEntry)>, k: &RelPath) -> (r: Vec<(RelPath, TreeEntry)>)
    ensures
        tree_lookup(r@, k@) is None,
        forall|k2: Seq<Seq<char>>| k2 != k@ ==> tree_lookup(r@, k2) == tree_lookup(m@, k2),
    decreases m@.len(),
{
    if m.len() == 0 {
        m
    } else {
        let ghost orig = m@;
        let mut rem = m;
        let first = rem.remove(0);
        assert(rem@ =~= orig.drop_first());
        let keep = !path_eq(&first.0, k);
        let rest = tree_remove_key(rem, k);
        if keep {
            let mut out = rest;
            let ghost restv = out@;
            out.insert(0, first);
            proof {
                assert(out@[0] == first);
                assert(out@.drop_first() =~= restv);
                assert(orig[0] == first);
                assert(tree_lookup(out@, k@) == tree_lookup(restv, k@));
                assert forall|k2: Seq<Seq<char>>| k2 != k@ implies tree_lookup(out@, k2)
                    == tree_lookup(orig, k2) by {
                    if first.0@ != k2 {
                        assert(tree_lookup(out@, k2) == tree_lookup(restv, k2));
                        assert(tree_lookup(orig, k2) == tree_lookup(orig.drop_first(), k2));
                    }
                }
            }
            out
        } else {
            proof {
                assert(orig[0] == first);
                assert forall|k2: Seq<Seq<char>>| k2 != k@ implies tree_lookup(rest@, k2)
                    == tree_lookup(orig, k2) by {
                    assert(tree_lookup(orig, k2) == tree_lookup(orig.drop_first(), k2));
                }
            }
            rest
        }
    }
}

/// Binds a path to an entry, replacing any earlier binding.
pub fn tree_insert(m: Vec<(RelPath, TreeEntry)>, k: RelPath, v: TreeEntry) -> (r: Vec<(RelPath, TreeEntry)>)
    ensures
        tree_lookup(r@, k@) == Some(v@),
        forall|k2: Seq<Seq<char>>| k2 != k@ ==> tree_lookup(r@, k2) == tree_lookup(m@, k2),
{
    let mut out = tree_remove_key(m, &k);
    let ghost pre = out@;
    let ghost pair = (k, v);
    proof {
        assert forall|k2: Seq<Seq<char>>| true implies tree_lookup(pre.push(pair), k2) == (
            if tree_lookup(pre, k2) is Some {
                tree_lookup(pre, k2)
            } else if pair.0@ == k2 {
                Some(pair.1@)
            } else {
                None::<EntryV>
            }) by {
            lemma_tree_lookup_push(pre, pair, k2);
        }
    }
    out.push((k, v));
    out
}

/// Copies a byte vector.
pub fn clone_bytes(v: &Vec<u8>) -> (r: Vec<u8>)
    ensures
        r@ == v@,
{
    let mut out: Vec<u8> = Vec::new();
    let mut i: usize = 0;
    while i < v.len()
        invariant
            i <= v@.len(),
            out@ == v@.subrange(0, i as int),
        decreases v@.len() - i,
    {
        out.push(v[i]);
        assert(out@ =~= v@.subrange(0, i as int + 1));
        i = i + 1;
    }
    assert(v@.subrange(0, v@.len() as int) =~= v@);
    out
}

/// Copies a path.
pub fn clone_path(p: &RelPath) -> (r: RelPath)
    ensures
        r@ == p@,
{
    let mut parts: Vec<String> = Vec::new();
    let mut i: usize = 0;
    while i < p.parts.len()
        invariant
            i <= p.parts@.len(),
            parts@.len() == i,
            forall|j: int| 0 <= j < i ==> parts@[j] == p.parts@[j],
        decreases p.parts@.len() - i,
    {
        parts.push(p.parts[i].clone());
        i = i + 1;
    }
    let r = RelPath { parts };
    proof {
        assert(r@ =~= p@);
    }
    r
}

/// Removes from the working tree every path the index does not hold:
/// the model of cleaning untracked files. Indexed paths keep their
/// working-tree content; everything else is gone.
pub fn retain_indexed(
    wt: Vec<(RelPath, TreeEntry)>,
    index: &Vec<(RelPath, TreeEntry)>,
) -> (r: Vec<(RelPath, TreeEntry)>)
    ensures
        forall|k: Seq<Seq<char>>| tree_lookup(index@, k) is Some
            ==> tree_lookup(r@, k) == tree_lookup(wt@, k),
        forall|k: Seq<Seq<char>>| tree_lookup(index@, k) is None
            ==> tree_lookup(r@, k) is None,
    decreases wt@.len(),
{
    if wt.len() == 0 {
        wt
    } else {
        let ghost orig = wt@;
        let mut rem = wt;
        let first = rem.remove(0);
        assert(rem@ =~= orig.drop_first());
        let keep = tree_find(index, &first.0).is_some();
        let rest = retain_indexed(rem, index);
        if keep {
            let mut out = rest;
            let ghost restv = out@;
            out.insert(0, first);
            proof {
                assert(out@[0] == first);
                assert(out@.drop_first() =~= restv);
                assert(orig[0] == first);
                assert forall|k: Seq<Seq<char>>| tree_lookup(index@, k) is Some
                    implies tree_lookup(out@, k) == tree_lookup(orig, k) by {
                    if first.0@ != k {
                        assert(tree_lookup(out@, k) == tree_lookup(restv, k));
                        assert(tree_lookup(orig, k) == tree_lookup(orig.drop_first(), k));
                    }
                }
                assert forall|k: Seq<Seq<char>>| tree_lookup(index@, k) is None
                    implies tree_lookup(out@, k) is None by {
                    if first.0@ != k {
                        assert(tree_lookup(out@, k) == tree_lookup(restv, k));
                    }
                }
            }
            out
        } else {
            proof {
                assert(orig[0] == first);
                assert forall|k: Seq<Seq<char>>| tree_lookup(index@, k) is Some
                    implies tree_lookup(rest@, k) == tree_lookup(orig, k) by {
                    assert(first.0@ != k);
                    assert(tree_lookup(orig, k) == tree_lookup(orig.drop_first(), k));
                }
            }
            rest
        }
    }
}

/// What one restore does: the target path now carries the source tree's
/// entry for it, and every other path is untouched.
pub open spec fn restore_post(
    wt: Seq<(RelPath, TreeEntry)>,
    source: Seq<(RelPath, TreeEntry)>,
    p: Seq<Seq<char>>,
    wt2: Seq<(RelPath, TreeEntry)>,
) -> bool {
    &&& tree_lookup(wt2, p) == tree_lookup(source, p)
    &&& forall|k: Seq<Seq<char>>| k != p ==> tree_lookup(wt2, k) == tree_lookup(wt, k)
}

/// Restores one path from a source tree onto the working tree.
///
/// Succeeds exactly when the source tree holds the path as a regular
/// file; then the working-tree entry for it is overwritten with the
/// source's content, unconditionally (last write wins). Fails with
/// `PathNotFound` when the path is absent from the source tree and with
/// `NotARegularFile` when it names a directory; the working tree is then
/// unchanged.
pub fn restore_path(
    wt: Vec<(RelPath, TreeEntry)>,
    source: &Vec<(RelPath, TreeEntry)>,
    path: &RelPath,
) -> (r: (Vec<(RelPath, TreeEntry)>, Result<(), SyncError>))
    ensures
        match r.1 {
            Ok(()) => {
                &&& tree_lookup(source@, path@) matches Some(EntryV::Blob(_))
                &&& restore_post(wt@, source@, path@, r.0@)
            },
            Err(e) => {
                &&& r.0@ == wt@
                &&& (e == SyncError::PathNotFound || e == SyncError::NotARegularFile)
                &&& (e == SyncError::PathNotFound <==> tree_lookup(source@, path@) is None)
                &&& (e == SyncError::NotARegularFile <==> tree_lookup(source@, path@)
                    == Some(EntryV::Dir))
            },
        },
{
    match tree_find(source, path) {
        None => (wt, Err(SyncError::PathNotFound)),
        Some(TreeEntry::Dir) => (wt, Err(SyncError::NotARegularFile)),
        Some(TreeEntry::Blob(content)) => {
            let fresh = clone_bytes(content);
            let key = clone_path(path);
            let out = tree_insert(wt, key, TreeEntry::Blob(fresh));
            (out, Ok(()))
        },
    }
}

/// Restores applied in sequence to one path obey last-write-wins: after
/// several restores of the same path, its content is the final source's,
/// and no other path has moved.
pub proof fn lemma_restore_last_wins(
    wt0: Seq<(RelPath, TreeEntry)>,
    wt1: Seq<(RelPath, TreeEntry)>,
    wt2: Seq<(RelPath, TreeEntry)>,
    wt3: Seq<(RelPath, TreeEntry)>,
    s1: Seq<(RelPath, TreeEntry)>,
    s2: Seq<(RelPath, TreeEntry)>,
    s3: Seq<(RelPath, TreeEntry)>,
    p: Seq<Seq<char>>,
)
    requires
        restore_post(wt0, s1, p, wt1),
        restore_post(wt1, s2, p, wt2),
        restore_post(wt2, s3, p, wt3),
    ensures
        tree_lookup(wt3, p) == tree_lookup(s3, p),
        forall|k: Seq<Seq<char>>| k != p ==> tree_lookup(wt3, k) == tree_lookup(wt0, k),
{
}

} // verus!
