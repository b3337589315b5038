//! File system paths held as text, joined the way `Path::join` joins them on Unix.
use vstd::prelude::*;
use crate::text::{chars_of, string_from, owned};

verus! {

/// Whether a path is absolute (it begins at the root).
pub open spec fn is_absolute(p: Seq<char>) -> bool {
    p.len() > 0 && p[0] == '/'
}

/// `base.join(seg)`: an absolute `seg` replaces `base`; otherwise `seg` follows `base`, with one
/// separator added unless `base` is empty or already ends with one.
pub open spec fn join(base: Seq<char>, seg: Seq<char>) -> Seq<char> {
    if is_absolute(seg) {
        seg
    } else if base.len() == 0 {
        seg
    } else if base.last() == '/' {
        base + seg
    } else {
        base + "/"@ + seg
    }
}

/// Joins each segment in turn.
pub open spec fn join_all(base: Seq<char>, segs: Seq<Seq<char>>) -> Seq<char>
    decreases segs.len(),
{
    if segs.len() == 0 {
        base
    } else {
        join(join_all(base, segs.drop_last()), segs.last())
    }
}

/// `Path::join`.
pub fn path_join(base: &str, seg: &str) -> (r: String)
    ensures
        r@ == join(base@, seg@),
{
    proof { reveal_strlit("/"); }
    let b = chars_of(base);
    let s = chars_of(seg);
    if s.len() > 0 && s[0] == '/' {
        return owned(seg);
    }
    if b.len() == 0 {
        return owned(seg);
    }
    let mut out = b;
    if out[out.len() - 1] != '/' {
        out.push('/');
    }
    let ghost mid = out@;
    let mut k: usize = 0;
    while k < s.len()
        invariant
            k <= s.len(),
            out@ =~= mid + s@.take(k as int),
        decreases s.len() - k,
    {
        out.push(s[k]);
        k += 1;
    }
    assert(s@.take(s@.len() as int) =~= s@);
    assert(out@ =~= join(base@, seg@));
    string_from(&out)
}

} // verus!
