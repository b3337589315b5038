//! Slugs: ASCII letters and digits in lowercase, every other run of characters as one dash.
use vstd::prelude::*;
use crate::text::{
    chars_of, string_from, is_ascii_alnum, lower, char_lower, char_is_alnum, trimmed_char,
    text_trim_char,
};

verus! {

/// Letters and digits lowercased, every other character a dash.
pub open spec fn dashed(c: char) -> char {
    if is_ascii_alnum(c) {
        lower(c)
    } else {
        '-'
    }
}

/// The dashed characters of `s` with every run of dashes squeezed to one.
pub open spec fn squeezed_dashes(s: Seq<char>) -> Seq<char>
    decreases s.len(),
{
    if s.len() == 0 {
        Seq::<char>::empty()
    } else {
        let r = squeezed_dashes(s.drop_last());
        let c = dashed(s.last());
        if c == '-' && r.len() > 0 && r.last() == '-' {
            r
        } else {
            r.push(c)
        }
    }
}

/// The slug of a text: squeezed dashed characters without dashes at either end.
pub open spec fn slug_of(s: Seq<char>) -> Seq<char> {
    trimmed_char(squeezed_dashes(s), '-')
}

/// The slug of a text.
pub fn slug_text(s: &str) -> (r: String)
    ensures
        r@ == slug_of(s@),
{
    let v = chars_of(s);
    let mut out: Vec<char> = Vec::new();
    let mut prev_dash = false;
    let mut i: usize = 0;
    while i < v.len()
        invariant
            i <= v.len(),
            v@ == s@,
            out@ == squeezed_dashes(v@.take(i as int)),
            prev_dash == (out@.len() > 0 && out@.last() == '-'),
        decreases v.len() - i,
    {
        proof {
            assert(v@.take(i + 1).drop_last() =~= v@.take(i as int));
        }
        let c = v[i];
        if char_is_alnum(c) {
            out.push(char_lower(c));
            prev_dash = false;
            proof {
                assert(lower(c) != '-');
            }
        } else if !prev_dash {
            out.push('-');
            prev_dash = true;
        }
        i += 1;
    }
    assert(v@.take(i as int) =~= v@);
    let squeezed = string_from(&out);
    text_trim_char(squeezed.as_str(), '-')
}

/// A slug holds only lowercase ASCII letters, digits and single dashes, never at either end.
pub proof fn lemma_slug_shape(s: Seq<char>)
    ensures
        forall|i: int| 0 <= i < slug_of(s).len() ==> is_slug_char(#[trigger] slug_of(s)[i]),
        forall|i: int| 0 <= i < slug_of(s).len() - 1 ==> !(#[trigger] slug_of(s)[i] == '-' && slug_of(s)[i + 1] == '-'),
        slug_of(s).len() > 0 ==> slug_of(s)[0] != '-' && slug_of(s).last() != '-',
{
    lemma_squeezed_dashes_shape(s);
    let q = squeezed_dashes(s);
    let p = crate::text::is_char('-');
    let a = crate::text::trim_start_by(q, p);
    let t = slug_of(s);
    crate::text::lemma_lead_count_bound(q, p);
    crate::text::lemma_trail_count_bound(a, p);
    let l = crate::text::lead_count(q, p) as int;
    assert forall|i: int| 0 <= i < t.len() implies #[trigger] t[i] == q[i + l] by {
        assert(t[i] == a[i]);
    }
    assert forall|i: int| 0 <= i < t.len() - 1 implies !(#[trigger] t[i] == '-' && t[i + 1] == '-') by {
        assert(t[i] == q[i + l] && t[i + 1] == q[i + 1 + l]);
    }
    if t.len() > 0 {
        assert(t[0] == a[0]);
        assert(t.last() == a[t.len() - 1]);
    }
}

/// A character that can appear in a slug.
pub open spec fn is_slug_char(c: char) -> bool {
    ('a' <= c && c <= 'z') || ('0' <= c && c <= '9') || c == '-'
}

proof fn lemma_squeezed_dashes_shape(s: Seq<char>)
    ensures
        forall|i: int| 0 <= i < squeezed_dashes(s).len() ==> is_slug_char(#[trigger] squeezed_dashes(s)[i]),
        forall|i: int| 0 <= i < squeezed_dashes(s).len() - 1 ==> !(#[trigger] squeezed_dashes(s)[i] == '-' && squeezed_dashes(s)[i + 1] == '-'),
    decreases s.len(),
{
    if s.len() > 0 {
        lemma_squeezed_dashes_shape(s.drop_last());
        let r = squeezed_dashes(s.drop_last());
        let q = squeezed_dashes(s);
        let c = dashed(s.last());
        if !(c == '-' && r.len() > 0 && r.last() == '-') {
            assert(q == r.push(c));
            assert forall|i: int| 0 <= i < q.len() implies is_slug_char(#[trigger] q[i]) by {
                if i < r.len() {
                    assert(q[i] == r[i]);
                }
            }
            assert forall|i: int| 0 <= i < q.len() - 1 implies !(#[trigger] q[i] == '-' && q[i + 1] == '-') by {
                if i < r.len() - 1 {
                    assert(q[i] == r[i] && q[i + 1] == r[i + 1]);
                }
            }
        }
    }
}

} // verus!
