//! Association lists keyed by strings.
//!
//! Remotes, branch tips, upstream bindings and remote-tracking refs are
//! all finite maps from a name to a value. They are held as vectors of
//! pairs; `str_lookup` is the first-match lookup, stated over views, and
//! every operation's contract is stated in terms of it.

use vstd::prelude::*;

verus! {

/// First-match lookup by key view; the result is the value's deep view.
pub open spec fn str_lookup<V: DeepView>(s: Seq<(String, V)>, k: Seq<char>) -> Option<V::V>
    decreases s.len(),
{
    if s.len() == 0 {
        None
    } else if s[0].0@ == k {
        Some(s[0].1.deep_view())
    } else {
        str_lookup(s.drop_first(), k)
    }
}

/// Whether the list binds the key at all.
pub open spec fn str_has_key<V: DeepView>(s: Seq<(String, V)>, k: Seq<char>) -> bool {
    str_lookup(s, k) is Some
}

proof fn lemma_str_lookup_push<V: DeepView>(s: Seq<(String, V)>, p: (String, V), k: Seq<char>)
    ensures
        str_lookup(s.push(p), k) == (if str_lookup(s, k) is Some {
            str_lookup(s, k)
        } else if p.0@ == k {
            Some(p.1.deep_view())
        } else {
            None::<V::V>
        }),
    decreases s.len(),
{
    if s.len() == 0 {
        assert(s.push(p)[0] == p);
        assert(s.push(p).drop_first() =~= Seq::<(String, V)>::empty());
        assert(str_lookup(Seq::<(String, V)>::empty(), k) is None);
    } else {
        assert(s.push(p)[0] == s[0]);
        assert(s.push(p).drop_first() =~= s.drop_first().push(p));
        lemma_str_lookup_push(s.drop_first(), p, k);
    }
}

/// Looks a key up, returning a reference to its value.
pub fn str_find<'a, V: DeepView>(m: &'a Vec<(String, V)>, k: &String) -> (r: Option<&'a V>)
    ensures
        match r {
            Some(v) => str_lookup(m@, k@) == Some(v.deep_view()),
            None => str_lookup(m@, k@) is None,
        },
{
    let mut i: usize = 0;
    assert(m@.skip(0) =~= m@);
    while i < m.len()
        invariant
            i <= m@.len(),
            str_lookup(m@, k@) == str_lookup(m@.skip(i as int), k@),
        decreases m@.len() - i,
    {
        assert(m@.skip(i as int)[0] == m@[i as int]);
        if m[i].0 == *k {
            return Some(&m[i].1);
        }
        assert(m@.skip(i as int).drop_first() =~= m@.skip(i as int + 1));
        i = i + 1;
    }
    assert(m@.skip(i as int) =~= Seq::<(String, V)>::empty());
    None
}

/// Removes every binding of a key.
pub fn str_remove_key<V: DeepView>(m: Vec<(String, V)>, k: &String) -> (r: Vec<(String, V)>)
    ensures
        str_lookup(r@, k@) is None,
        forall|k2: Seq<char>| k2 != k@ ==> str_lookup(r@, k2) == str_lookup(m@, k2),
    decreases m@.len(),
{
    if m.len() == 0 {
        m
    } else {
        let ghost orig = m@;
        let mut rem = m;
        let first = rem.remove(0);
        assert(rem@ =~= orig.drop_first());
        let keep = !(first.0 == *k);
        let rest = str_remove_key(rem, k);
        if keep {
            let mut out = rest;
            let ghost restv = out@;
            out.insert(0, first);
            proof {
                assert(out@[0] == first);
                assert(out@.drop_first() =~= restv);
                assert(orig[0] == first);
                assert(str_lookup(out@, k@) == str_lookup(restv, k@));
                assert forall|k2: Seq<char>| k2 != k@ implies str_lookup(out@, k2)
                    == str_lookup(orig, k2) by {
                    if first.0@ != k2 {
                        assert(str_lookup(out@, k2) == str_lookup(restv, k2));
                        assert(str_lookup(orig, k2) == str_lookup(orig.drop_first(), k2));
                    }
                }
            }
            out
        } else {
            proof {
                assert(orig[0] == first);
                assert forall|k2: Seq<char>| k2 != k@ implies str_lookup(rest@, k2)
                    == str_lookup(orig, k2) by {
                    assert(str_lookup(orig, k2) == str_lookup(orig.drop_first(), k2));
                }
            }
            rest
        }
    }
}

/// Binds a key to a value, replacing any earlier binding.
pub fn str_insert<V: DeepView>(m: Vec<(String, V)>, k: String, v: V) -> (r: Vec<(String, V)>)
    ensures
        str_lookup(r@, k@) == Some(v.deep_view()),
        forall|k2: Seq<char>| k2 != k@ ==> str_lookup(r@, k2) == str_lookup(m@, k2),
{
    let mut out = str_remove_key(m, &k);
    let ghost pre = out@;
    let ghost pair = (k, v);
    proof {
        assert forall|k2: Seq<char>| true implies str_lookup(pre.push(pair), k2) == (
            if str_lookup(pre, k2) is Some {
                str_lookup(pre, k2)
            } else if pair.0@ == k2 {
                Some(pair.1.deep_view())
            } else {
                None::<V::V>
            }) by {
            lemma_str_lookup_push(pre, pair, k2);
        }
    }
    out.push((k, v));
    out
}

} // verus!
