//! Canonical names and URIs of secrets in the dev secrets store.
use vstd::prelude::*;
use crate::text::{chars_of, string_from, owned, text_trim, text_lower, text_eq, concat2, trimmed, trimmed_char, lower_all, is_char, lead_count, trail_count, trim_start_by, trim_end_by, lemma_lead_count_bound, lemma_trail_count_bound, is_ascii_upper, is_ascii_lower, is_ascii_digit, lower};

verus! {

/// How one character of a raw secret name is carried into the canonical name, if at all.
pub open spec fn secret_char(c: char) -> Option<char> {
    if is_ascii_upper(c) {
        Some(lower(c))
    } else if is_ascii_lower(c) || is_ascii_digit(c) || c == '_' {
        Some(c)
    } else if c == '-' || c == '.' || c == ' ' || c == '/' {
        Some('_')
    } else {
        None
    }
}

/// The carried characters of `s`, with every run of underscores squeezed to one.
pub open spec fn squeezed_secret_chars(s: Seq<char>) -> Seq<char>
    decreases s.len(),
{
    if s.len() == 0 {
        Seq::<char>::empty()
    } else {
        let r = squeezed_secret_chars(s.drop_last());
        match secret_char(s.last()) {
            None => r,
            Some(n) => if n == '_' && r.len() > 0 && r.last() == '_' {
                r
            } else {
                r.push(n)
            },
        }
    }
}

/// The canonical form of a raw secret name.
pub open spec fn canonical_secret(raw: Seq<char>) -> Seq<char> {
    let t = trimmed_char(squeezed_secret_chars(raw), '_');
    if t.len() == 0 {
        "secret"@
    } else {
        t
    }
}

/// A character that can appear in a canonical secret name.
pub open spec fn is_secret_name_char(c: char) -> bool {
    is_ascii_lower(c) || is_ascii_digit(c) || c == '_'
}

/// The shape of every canonical secret name: non-empty, lowercase ASCII letters, digits and
/// single underscores, with no underscore at either end.
pub open spec fn is_canonical_secret_name(w: Seq<char>) -> bool {
    &&& w.len() > 0
    &&& forall|i: int| 0 <= i < w.len() ==> is_secret_name_char(#[trigger] w[i])
    &&& w[0] != '_'
    &&& w.last() != '_'
    &&& forall|i: int| 0 <= i < w.len() - 1 ==> !(#[trigger] w[i] == '_' && w[i + 1] == '_')
}

fn secret_char_exec(c: char) -> (r: Option<char>)
    ensures
        r == secret_char(c),
{
    if 'A' <= c && c <= 'Z' {
        Some(((c as u8) + 32) as char)
    } else if ('a' <= c && c <= 'z') || ('0' <= c && c <= '9') || c == '_' {
        Some(c)
    } else if c == '-' || c == '.' || c == ' ' || c == '/' {
        Some('_')
    } else {
        None
    }
}

/// Convert a raw secret name (e.g. TELEGRAM_BOT_TOKEN) into the store-friendly canonical form.
pub fn canonical_secret_name(raw: &str) -> (r: String)
    ensures
        r@ == canonical_secret(raw@),
{
    let v = chars_of(raw);
    let mut out: Vec<char> = Vec::new();
    let mut prev_underscore = false;
    let mut i: usize = 0;
    while i < v.len()
        invariant
            i <= v.len(),
            v@ == raw@,
            out@ == squeezed_secret_chars(v@.take(i as int)),
            prev_underscore == (out@.len() > 0 && out@.last() == '_'),
        decreases v.len() - i,
    {
        proof {
            assert(v@.take(i + 1).drop_last() =~= v@.take(i as int));
        }
        if let Some(n) = secret_char_exec(v[i]) {
            if n == '_' {
                if !prev_underscore {
                    prev_underscore = true;
                    out.push(n);
                }
            } else {
                prev_underscore = false;
                out.push(n);
            }
        }
        i += 1;
    }
    assert(v@.take(i as int) =~= v@);
    let squeezed = string_from(&out);
    let t = crate::text::text_trim_char(squeezed.as_str(), '_');
    if t.as_str().is_empty() {
        owned("secret")
    } else {
        t
    }
}

pub proof fn lemma_squeezed_shape(s: Seq<char>)
    ensures
        forall|i: int| 0 <= i < squeezed_secret_chars(s).len() ==> is_secret_name_char(
            #[trigger] squeezed_secret_chars(s)[i],
        ),
        forall|i: int| 0 <= i < squeezed_secret_chars(s).len() - 1 ==> !(
        #[trigger] squeezed_secret_chars(s)[i] == '_' && squeezed_secret_chars(s)[i + 1] == '_'),
    decreases s.len(),
{
    if s.len() > 0 {
        lemma_squeezed_shape(s.drop_last());
        let r = squeezed_secret_chars(s.drop_last());
        let q = squeezed_secret_chars(s);
        match secret_char(s.last()) {
            None => {},
            Some(n) => {
                if !(n == '_' && r.len() > 0 && r.last() == '_') {
                    assert(q == r.push(n));
                    assert forall|i: int| 0 <= i < q.len() implies is_secret_name_char(#[trigger] q[i]) by {
                        if i < r.len() {
                            assert(q[i] == r[i]);
                        }
                    }
                    assert forall|i: int| 0 <= i < q.len() - 1 implies !(#[trigger] q[i] == '_' && q[i + 1] == '_') by {
                        if i < r.len() - 1 {
                            assert(q[i] == r[i] && q[i + 1] == r[i + 1]);
                        }
                    }
                }
            },
        }
    }
}

/// Every canonical secret name has the canonical shape.
pub proof fn lemma_canonical_secret_shape(raw: Seq<char>)
    ensures
        is_canonical_secret_name(canonical_secret(raw)),
{
    let q = squeezed_secret_chars(raw);
    lemma_squeezed_shape(raw);
    let p = is_char('_');
    let a = trim_start_by(q, p);
    let t = trimmed_char(q, '_');
    lemma_lead_count_bound(q, p);
    lemma_trail_count_bound(a, p);
    let l = lead_count(q, p) as int;
    assert forall|i: int| 0 <= i < a.len() implies #[trigger] a[i] == q[i + l] by {}
    assert forall|i: int| 0 <= i < t.len() implies #[trigger] t[i] == q[i + l] by {
        assert(t[i] == a[i]);
    }
    if t.len() == 0 {
        reveal_strlit("secret");
    } else {
        assert(t[0] == a[0]);
        assert(t.last() == a[t.len() - 1]);
        assert forall|i: int| 0 <= i < t.len() - 1 implies !(#[trigger] t[i] == '_' && t[i + 1] == '_') by {
            assert(t[i] == q[i + l] && t[i + 1] == q[i + 1 + l]);
        }
    }
}

/// A name that already has the canonical shape is its own canonical form.
pub proof fn lemma_canonical_secret_fixed(w: Seq<char>)
    requires
        is_canonical_secret_name(w),
    ensures
        canonical_secret(w) == w,
{
    assert forall|k: int| 0 <= k <= w.len() implies #[trigger] squeezed_secret_chars(w.take(k)) == w.take(k) by {
        lemma_squeezed_prefix(w, k);
    }
    assert(w.take(w.len() as int) =~= w);
    let p = is_char('_');
    assert(lead_count(w, p) == 0);
    assert(trim_start_by(w, p) =~= w);
    assert(trail_count(w, p) == 0);
    assert(trim_end_by(w, p) =~= w);
}

proof fn lemma_squeezed_prefix(w: Seq<char>, k: int)
    requires
        is_canonical_secret_name(w),
        0 <= k <= w.len(),
    ensures
        squeezed_secret_chars(w.take(k)) == w.take(k),
    decreases k,
{
    if k > 0 {
        lemma_squeezed_prefix(w, k - 1);
        let s = w.take(k);
        assert(s.drop_last() =~= w.take(k - 1));
        let c = s.last();
        assert(c == w[k - 1]);
        assert(is_secret_name_char(w[k - 1]));
        assert(secret_char(c) == Some(c));
        if c == '_' && k > 1 {
            assert(w[k - 2] != '_' || w[k - 1] != '_');
            assert(w.take(k - 1).last() == w[k - 2]);
        }
        assert(w.take(k - 1).push(c) =~= s);
    } else {
        assert(w.take(0) =~= Seq::<char>::empty());
    }
}

proof fn lemma_squeezed_same_carried(s: Seq<char>, t: Seq<char>)
    requires
        s.len() == t.len(),
        forall|i: int| 0 <= i < s.len() ==> secret_char(#[trigger] s[i]) == secret_char(t[i]),
    ensures
        squeezed_secret_chars(s) == squeezed_secret_chars(t),
    decreases s.len(),
{
    if s.len() > 0 {
        assert forall|i: int| 0 <= i < s.drop_last().len() implies secret_char(#[trigger] s.drop_last()[i])
            == secret_char(t.drop_last()[i]) by {
            assert(s.drop_last()[i] == s[i] && t.drop_last()[i] == t[i]);
        }
        lemma_squeezed_same_carried(s.drop_last(), t.drop_last());
        assert(secret_char(s.last()) == secret_char(t.last()));
    }
}

/// Every word separator (`-`, `.`, space, `/`) in a raw secret name counts as an underscore:
/// writing `_` in its place never changes the canonical name. So `a b`, `a-b`, `a.b`, `a/b`
/// and `a_b` all give `a_b`.
pub proof fn law_separators_become_underscores(raw: Seq<char>, i: int)
    requires
        0 <= i < raw.len(),
        raw[i] == '-' || raw[i] == '.' || raw[i] == ' ' || raw[i] == '/',
    ensures
        canonical_secret(raw.update(i, '_')) == canonical_secret(raw),
{
    let t = raw.update(i, '_');
    assert forall|k: int| 0 <= k < raw.len() implies secret_char(#[trigger] raw[k]) == secret_char(t[k]) by {
        if k == i {
            assert(secret_char(raw[k]) == Some('_'));
        }
    }
    lemma_squeezed_same_carried(raw, t);
}

/// Two lowercase letters joined by any word separator become the two letters joined by one
/// underscore: the separator is neither dropped nor kept.
pub proof fn law_separator_between_letters(a: char, sep: char, b: char)
    requires
        is_ascii_lower(a),
        is_ascii_lower(b),
        sep == '-' || sep == '.' || sep == ' ' || sep == '/',
    ensures
        canonical_secret(seq![a, sep, b]) == seq![a, '_', b],
{
    let raw = seq![a, sep, b];
    law_separators_become_underscores(raw, 1);
    let w = seq![a, '_', b];
    assert(raw.update(1, '_') =~= w);
    assert(is_canonical_secret_name(w));
    lemma_canonical_secret_fixed(w);
}

/// Canonicalizing a secret name twice gives what canonicalizing it once gives.
pub proof fn lemma_canonical_secret_idempotent(raw: Seq<char>)
    ensures
        canonical_secret(canonical_secret(raw)) == canonical_secret(raw),
{
    lemma_canonical_secret_shape(raw);
    lemma_canonical_secret_fixed(canonical_secret(raw));
}

} // verus!

verus! {

/// The team segment of a secret URI: the trimmed team, or `_` when the team is absent, blank or
/// `default` in any letter case.
pub open spec fn team_segment(team: Option<Seq<char>>) -> Seq<char> {
    match team {
        Some(v) => {
            let t = trimmed(v);
            if t.len() == 0 || lower_all(t) == "default"@ {
                "_"@
            } else {
                t
            }
        },
        None => "_"@,
    }
}

/// The provider segment of a secret URI: `messaging` when no provider is given.
pub open spec fn provider_segment(provider: Seq<char>) -> Seq<char> {
    if provider.len() == 0 {
        "messaging"@
    } else {
        provider
    }
}

/// `secrets://{env}/{tenant}/{team}/{provider}/{key}` with canonical team segment and key.
pub open spec fn secret_uri(
    env: Seq<char>,
    tenant: Seq<char>,
    team: Option<Seq<char>>,
    provider: Seq<char>,
    key: Seq<char>,
) -> Seq<char> {
    "secrets://"@ + env + "/"@ + tenant + "/"@ + team_segment(team) + "/"@ + provider_segment(provider)
        + "/"@ + canonical_secret(key)
}

/// The team segment of a secret URI: the trimmed team, or `_` for none, blank or `default`.
pub fn canonical_team_segment(team: Option<&str>) -> (r: String)
    ensures
        r@ == team_segment(
            match team {
                Some(t) => Some(t@),
                None => None,
            },
        ),
{
    match team {
        Some(value) => {
            let trimmed_value = text_trim(value);
            let lowered = text_lower(trimmed_value.as_str());
            if trimmed_value.as_str().is_empty() || text_eq(lowered.as_str(), "default") {
                owned("_")
            } else {
                trimmed_value
            }
        },
        None => owned("_"),
    }
}

/// The canonical URI of a secret: `secrets://{env}/{tenant}/{team}/{provider}/{key}`, with
/// the team segment, `messaging` for an empty provider, and the canonical key.
pub fn canonical_secret_uri(
    env: &str,
    tenant: &str,
    team: Option<&str>,
    provider: &str,
    key: &str,
) -> (r: String)
    ensures
        r@ == secret_uri(
            env@,
            tenant@,
            match team {
                Some(t) => Some(t@),
                None => None,
            },
            provider@,
            key@,
        ),
{
    let team_part = canonical_team_segment(team);
    let provider_part = if provider.is_empty() {
        owned("messaging")
    } else {
        owned(provider)
    };
    let key_part = canonical_secret_name(key);
    let mut s = owned("secrets://");
    s = concat2(s.as_str(), env);
    s = concat2(s.as_str(), "/");
    s = concat2(s.as_str(), tenant);
    s = concat2(s.as_str(), "/");
    s = concat2(s.as_str(), team_part.as_str());
    s = concat2(s.as_str(), "/");
    s = concat2(s.as_str(), provider_part.as_str());
    s = concat2(s.as_str(), "/");
    s = concat2(s.as_str(), key_part.as_str());
    s
}

} // verus!
