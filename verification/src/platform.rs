//! The compute half of the hosting-platform queries: the driver runs the
//! query and hands the raw reply in; deciding whether it parses as a
//! branch name, and trimming it, is verified here.

use vstd::prelude::*;
use crate::errors::SyncError;

verus! {

/// ASCII whitespace, as trimming sees it.
pub open spec fn is_ws(b: u8) -> bool {
    b == 32 || b == 10 || b == 13 || b == 9
}

/// The sequence without its leading whitespace.
pub open spec fn drop_leading_ws(s: Seq<u8>) -> Seq<u8>
    decreases s.len(),
{
    if s.len() > 0 && is_ws(s[0]) {
        drop_leading_ws(s.drop_first())
    } else {
        s
    }
}

/// The sequence without its trailing whitespace.
pub open spec fn drop_trailing_ws(s: Seq<u8>) -> Seq<u8>
    decreases s.len(),
{
    if s.len() > 0 && is_ws(s.last()) {
        drop_trailing_ws(s.drop_last())
    } else {
        s
    }
}

/// The sequence without leading and trailing whitespace.
pub open spec fn trim_ws(s: Seq<u8>) -> Seq<u8> {
    drop_trailing_ws(drop_leading_ws(s))
}

fn is_ws_exec(b: u8) -> (r: bool)
    ensures
        r == is_ws(b),
{
    b == 32 || b == 10 || b == 13 || b == 9
}

/// Reads a platform reply as a branch name: the reply must come from a
/// successful query and hold something besides whitespace; the name is
/// the reply trimmed. Anything else cannot be parsed and is a
/// `PlatformQuery` failure.
pub fn parse_platform_reply(exit_ok: bool, out: &Vec<u8>) -> (r: Result<Vec<u8>, SyncError>)
    ensures
        r is Ok <==> (exit_ok && trim_ws(out@).len() > 0),
        match r {
            Ok(name) => name@ == trim_ws(out@),
            Err(e) => e == SyncError::PlatformQuery,
        },
{
    if !exit_ok {
        return Err(SyncError::PlatformQuery);
    }
    let mut lo: usize = 0;
    assert(out@.skip(0) =~= out@);
    while lo < out.len() && is_ws_exec(out[lo])
        invariant
            lo <= out@.len(),
            drop_leading_ws(out@) == drop_leading_ws(out@.skip(lo as int)),
        decreases out@.len() - lo,
    {
        assert(out@.skip(lo as int)[0] == out@[lo as int]);
        assert(out@.skip(lo as int).drop_first() =~= out@.skip(lo as int + 1));
        lo = lo + 1;
    }
    proof {
        if lo < out@.len() {
            assert(out@.skip(lo as int)[0] == out@[lo as int]);
        } else {
            assert(out@.skip(lo as int) =~= Seq::<u8>::empty());
        }
        assert(drop_leading_ws(out@) == out@.skip(lo as int));
        assert(out@.skip(lo as int) =~= out@.subrange(lo as int, out@.len() as int));
    }
    let mut hi: usize = out.len();
    while hi > lo && is_ws_exec(out[hi - 1])
        invariant
            lo <= hi <= out@.len(),
            drop_trailing_ws(out@.skip(lo as int))
                == drop_trailing_ws(out@.subrange(lo as int, hi as int)),
        decreases hi,
    {
        assert(out@.subrange(lo as int, hi as int).last() == out@[hi - 1]);
        assert(out@.subrange(lo as int, hi as int).drop_last()
            =~= out@.subrange(lo as int, hi as int - 1));
        hi = hi - 1;
    }
    proof {
        if hi > lo {
            assert(out@.subrange(lo as int, hi as int).last() == out@[hi - 1]);
        } else {
            assert(out@.subrange(lo as int, hi as int) =~= Seq::<u8>::empty());
        }
        assert(trim_ws(out@) == out@.subrange(lo as int, hi as int));
    }
    if hi == lo {
        assert(trim_ws(out@).len() == 0);
        return Err(SyncError::PlatformQuery);
    }
    let mut name: Vec<u8> = Vec::new();
    let mut i: usize = lo;
    assert(name@ =~= out@.subrange(lo as int, lo as int));
    while i < hi
        invariant
            lo <= i <= hi <= out@.len(),
            name@ == out@.subrange(lo as int, i as int),
        decreases hi - i,
    {
        name.push(out[i]);
        assert(name@ =~= out@.subrange(lo as int, i as int + 1));
        i = i + 1;
    }
    Ok(name)
}

} // verus!
