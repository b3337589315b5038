//! Character and string operations with their specifications.
use vstd::prelude::*;
use vstd::relations::*;
use crate::order::{Ranked, chars_precede, char_order, lex_lt, lemma_text_order_strict_total, text_order};

verus! {

/// The characters of a string slice.
pub(crate) fn chars_of(s: &str) -> (v: Vec<char>)
    ensures
        v@ == s@,
{
    let n = s.unicode_len();
    let mut v: Vec<char> = Vec::new();
    let mut i: usize = 0;
    while i < n
        invariant
            i <= n,
            n == s@.len(),
            v@ == s@.subrange(0, i as int),
        decreases n - i,
    {
        v.push(s.get_char(i));
        proof {
            assert(s@.subrange(0, i + 1) =~= s@.subrange(0, i as int).push(s@[i as int]));
        }
        i += 1;
    }
    proof {
        assert(s@.subrange(0, n as int) =~= s@);
    }
    v
}

/// A string made of the given characters: `String`'s `FromIterator<&char>`, which appends
/// each character in turn.
#[verifier::external_body]
pub(crate) fn string_from(v: &Vec<char>) -> (s: String)
    ensures
        s@ == v@,
{
    v.iter().collect()
}

/// A fresh copy of a string slice.
pub fn owned(s: &str) -> (r: String)
    ensures
        r@ == s@,
{
    let v = chars_of(s);
    string_from(&v)
}

/// Equality of the characters of two string slices.
pub fn text_eq(a: &str, b: &str) -> (r: bool)
    ensures
        r == (a@ == b@),
{
    let x = chars_of(a);
    let y = chars_of(b);
    if x.len() != y.len() {
        return false;
    }
    let mut i: usize = 0;
    while i < x.len()
        invariant
            i <= x.len(),
            x.len() == y.len(),
            x@ == a@,
            y@ == b@,
            forall|k: int| 0 <= k < i ==> x@[k] == y@[k],
        decreases x.len() - i,
    {
        if x[i] != y[i] {
            return false;
        }
        i += 1;
    }
    assert(x@ =~= y@);
    true
}

impl Ranked for String {
    open spec fn rank_lt(a: Seq<char>, b: Seq<char>) -> bool {
        lex_lt(a, b, char_order())
    }

    proof fn lemma_rank_total() {
        lemma_text_order_strict_total();
        assert((|a: Seq<char>, b: Seq<char>| Self::rank_lt(a, b)) =~= text_order());
    }

    fn ranks_before(&self, other: &Self) -> (r: bool) {
        let a = chars_of(self.as_str());
        let b = chars_of(other.as_str());
        chars_precede(&a, &b)
    }
}

/// Whether a character has the Unicode `White_Space` property (what `char::is_whitespace` tests).
pub open spec fn is_space(c: char) -> bool {
    ||| ('\u{9}' <= c && c <= '\u{d}')
    ||| c == ' '
    ||| c == '\u{85}'
    ||| c == '\u{a0}'
    ||| c == '\u{1680}'
    ||| ('\u{2000}' <= c && c <= '\u{200a}')
    ||| c == '\u{2028}'
    ||| c == '\u{2029}'
    ||| c == '\u{202f}'
    ||| c == '\u{205f}'
    ||| c == '\u{3000}'
}

/// Whether a character is white space.
pub fn char_is_space(c: char) -> (r: bool)
    ensures
        r == is_space(c),
{
    ('\u{9}' <= c && c <= '\u{d}') || c == ' ' || c == '\u{85}' || c == '\u{a0}' || c == '\u{1680}'
        || ('\u{2000}' <= c && c <= '\u{200a}') || c == '\u{2028}' || c == '\u{2029}'
        || c == '\u{202f}' || c == '\u{205f}' || c == '\u{3000}'
}

pub open spec fn is_ascii_upper(c: char) -> bool {
    'A' <= c && c <= 'Z'
}

pub open spec fn is_ascii_lower(c: char) -> bool {
    'a' <= c && c <= 'z'
}

pub open spec fn is_ascii_digit(c: char) -> bool {
    '0' <= c && c <= '9'
}

pub open spec fn is_ascii_alnum(c: char) -> bool {
    is_ascii_upper(c) || is_ascii_lower(c) || is_ascii_digit(c)
}

/// ASCII lowercase of a character (`char::to_ascii_lowercase`).
pub open spec fn lower(c: char) -> char {
    if is_ascii_upper(c) {
        ((c as int) + 32) as char
    } else {
        c
    }
}

/// A character in ASCII lowercase.
pub fn char_lower(c: char) -> (r: char)
    ensures
        r == lower(c),
{
    if 'A' <= c && c <= 'Z' {
        ((c as u8) + 32) as char
    } else {
        c
    }
}

/// Whether a character is an ASCII letter or digit.
pub fn char_is_alnum(c: char) -> (r: bool)
    ensures
        r == is_ascii_alnum(c),
{
    ('A' <= c && c <= 'Z') || ('a' <= c && c <= 'z') || ('0' <= c && c <= '9')
}

/// ASCII lowercase of a sequence of characters (`str::to_ascii_lowercase`).
pub open spec fn lower_all(s: Seq<char>) -> Seq<char> {
    s.map_values(|c: char| lower(c))
}

/// A text in ASCII lowercase (`to_ascii_lowercase`).
pub fn text_lower(s: &str) -> (r: String)
    ensures
        r@ == lower_all(s@),
{
    let v = chars_of(s);
    let mut out: Vec<char> = Vec::new();
    let mut i: usize = 0;
    while i < v.len()
        invariant
            i <= v.len(),
            v@ == s@,
            out@ =~= lower_all(v@.take(i as int)),
        decreases v.len() - i,
    {
        out.push(char_lower(v[i]));
        i += 1;
        assert(out@ =~= lower_all(v@.take(i as int)));
    }
    assert(v@.take(i as int) =~= v@);
    string_from(&out)
}

/// Number of leading characters satisfying `p`.
pub open spec fn lead_count(s: Seq<char>, p: spec_fn(char) -> bool) -> nat
    decreases s.len(),
{
    if s.len() > 0 && p(s[0]) {
        1 + lead_count(s.drop_first(), p)
    } else {
        0
    }
}

/// Number of trailing characters satisfying `p`.
pub open spec fn trail_count(s: Seq<char>, p: spec_fn(char) -> bool) -> nat
    decreases s.len(),
{
    if s.len() > 0 && p(s.last()) {
        1 + trail_count(s.drop_last(), p)
    } else {
        0
    }
}

/// `s` without its leading characters satisfying `p`.
pub open spec fn trim_start_by(s: Seq<char>, p: spec_fn(char) -> bool) -> Seq<char> {
    s.skip(lead_count(s, p) as int)
}

/// `s` without its trailing characters satisfying `p`.
pub open spec fn trim_end_by(s: Seq<char>, p: spec_fn(char) -> bool) -> Seq<char> {
    s.take(s.len() - trail_count(s, p))
}

/// `s` without its leading and trailing characters satisfying `p`.
pub open spec fn trim_by(s: Seq<char>, p: spec_fn(char) -> bool) -> Seq<char> {
    trim_end_by(trim_start_by(s, p), p)
}

/// `str::trim`.
pub open spec fn trimmed(s: Seq<char>) -> Seq<char> {
    trim_by(s, |c: char| is_space(c))
}

/// The predicate "is the character `c`".
pub open spec fn is_char(c: char) -> spec_fn(char) -> bool {
    |x: char| x == c
}

/// `str::trim_matches` with a single character.
pub open spec fn trimmed_char(s: Seq<char>, c: char) -> Seq<char> {
    trim_by(s, is_char(c))
}

pub proof fn lemma_lead_count_bound(s: Seq<char>, p: spec_fn(char) -> bool)
    ensures
        lead_count(s, p) <= s.len(),
        forall|k: int| 0 <= k < lead_count(s, p) ==> p(#[trigger] s[k]),
        lead_count(s, p) < s.len() ==> !p(s[lead_count(s, p) as int]),
    decreases s.len(),
{
    if s.len() > 0 && p(s[0]) {
        lemma_lead_count_bound(s.drop_first(), p);
        assert forall|k: int| 0 <= k < lead_count(s, p) implies p(#[trigger] s[k]) by {
            if k > 0 {
                assert(s[k] == s.drop_first()[k - 1]);
            }
        }
    }
}

pub proof fn lemma_trail_count_bound(s: Seq<char>, p: spec_fn(char) -> bool)
    ensures
        trail_count(s, p) <= s.len(),
        forall|k: int| s.len() - trail_count(s, p) <= k < s.len() ==> p(#[trigger] s[k]),
        trail_count(s, p) < s.len() ==> !p(s[s.len() - trail_count(s, p) - 1]),
    decreases s.len(),
{
    if s.len() > 0 && p(s.last()) {
        lemma_trail_count_bound(s.drop_last(), p);
        assert forall|k: int| s.len() - trail_count(s, p) <= k < s.len() implies p(#[trigger] s[k]) by {
            if k < s.len() - 1 {
                assert(s[k] == s.drop_last()[k]);
            }
        }
    }
}

/// Leading count computed by a scan.
pub proof fn lemma_lead_count_scan(s: Seq<char>, p: spec_fn(char) -> bool, i: int)
    requires
        0 <= i <= s.len(),
        forall|k: int| 0 <= k < i ==> p(#[trigger] s[k]),
        i == s.len() || !p(s[i]),
    ensures
        lead_count(s, p) == i,
    decreases i,
{
    if i > 0 {
        assert forall|k: int| 0 <= k < i - 1 implies p(#[trigger] s.drop_first()[k]) by {
            assert(s.drop_first()[k] == s[k + 1]);
        }
        if i < s.len() {
            assert(s.drop_first()[i - 1] == s[i]);
        }
        lemma_lead_count_scan(s.drop_first(), p, i - 1);
    } else if s.len() > 0 {
        assert(!p(s[0]));
    }
}

/// Trailing count computed by a scan.
pub proof fn lemma_trail_count_scan(s: Seq<char>, p: spec_fn(char) -> bool, j: int)
    requires
        0 <= j <= s.len(),
        forall|k: int| j <= k < s.len() ==> p(#[trigger] s[k]),
        j == 0 || !p(s[j - 1]),
    ensures
        trail_count(s, p) == s.len() - j,
    decreases s.len() - j,
{
    if j < s.len() {
        assert forall|k: int| j <= k < s.len() - 1 implies p(#[trigger] s.drop_last()[k]) by {
            assert(s.drop_last()[k] == s[k]);
        }
        if j > 0 {
            assert(s.drop_last()[j - 1] == s[j - 1]);
        }
        lemma_trail_count_scan(s.drop_last(), p, j);
    } else if s.len() > 0 {
        assert(!p(s.last()));
    }
}

/// `str::trim`: the slice without leading and trailing white space.
pub fn text_trim(s: &str) -> (r: String)
    ensures
        r@ == trimmed(s@),
{
    let v = chars_of(s);
    let ghost p = |c: char| is_space(c);
    let mut i: usize = 0;
    while i < v.len() && char_is_space(v[i])
        invariant
            i <= v.len(),
            v@ == s@,
            p == (|c: char| is_space(c)),
            forall|k: int| 0 <= k < i ==> p(#[trigger] v@[k]),
        decreases v.len() - i,
    {
        i += 1;
    }
    proof {
        lemma_lead_count_scan(v@, p, i as int);
    }
    let ghost t = v@.skip(i as int);
    let mut j: usize = v.len();
    while j > i && char_is_space(v[j - 1])
        invariant
            i <= j <= v.len(),
            v@ == s@,
            t == v@.skip(i as int),
            p == (|c: char| is_space(c)),
            forall|k: int| j <= k < v.len() ==> p(#[trigger] v@[k]),
        decreases j,
    {
        j -= 1;
    }
    proof {
        assert forall|k: int| j - i <= k < t.len() implies p(#[trigger] t[k]) by {
            assert(t[k] == v@[k + i]);
        }
        if j > i {
            assert(t[j - i - 1] == v@[j - 1]);
        }
        lemma_trail_count_scan(t, p, j - i);
    }
    let mut out: Vec<char> = Vec::new();
    let mut k: usize = i;
    while k < j
        invariant
            i <= k <= j <= v.len(),
            out@ =~= v@.subrange(i as int, k as int),
        decreases j - k,
    {
        out.push(v[k]);
        k += 1;
    }
    assert(out@ =~= trimmed(s@));
    string_from(&out)
}

/// `str::trim_matches` with a single character.
pub fn text_trim_char(s: &str, c: char) -> (r: String)
    ensures
        r@ == trimmed_char(s@, c),
{
    let v = chars_of(s);
    let ghost p = is_char(c);
    let mut i: usize = 0;
    while i < v.len() && v[i] == c
        invariant
            i <= v.len(),
            v@ == s@,
            p == is_char(c),
            forall|k: int| 0 <= k < i ==> p(#[trigger] v@[k]),
        decreases v.len() - i,
    {
        i += 1;
    }
    proof {
        lemma_lead_count_scan(v@, p, i as int);
    }
    let ghost t = v@.skip(i as int);
    let mut j: usize = v.len();
    while j > i && v[j - 1] == c
        invariant
            i <= j <= v.len(),
            v@ == s@,
            t == v@.skip(i as int),
            p == is_char(c),
            forall|k: int| j <= k < v.len() ==> p(#[trigger] v@[k]),
        decreases j,
    {
        j -= 1;
    }
    proof {
        assert forall|k: int| j - i <= k < t.len() implies p(#[trigger] t[k]) by {
            assert(t[k] == v@[k + i]);
        }
        if j > i {
            assert(t[j - i - 1] == v@[j - 1]);
        }
        lemma_trail_count_scan(t, p, j - i);
    }
    let mut out: Vec<char> = Vec::new();
    let mut k: usize = i;
    while k < j
        invariant
            i <= k <= j <= v.len(),
            out@ =~= v@.subrange(i as int, k as int),
        decreases j - k,
    {
        out.push(v[k]);
        k += 1;
    }
    assert(out@ =~= trimmed_char(s@, c));
    string_from(&out)
}

} // verus!

verus! {

/// Whether `s` begins with `p`.
pub open spec fn starts_with(s: Seq<char>, p: Seq<char>) -> bool {
    p.len() <= s.len() && s.take(p.len() as int) == p
}

/// `str::strip_prefix`.
pub open spec fn strip_prefix(s: Seq<char>, p: Seq<char>) -> Option<Seq<char>> {
    if starts_with(s, p) {
        Some(s.skip(p.len() as int))
    } else {
        None
    }
}

/// Whether `sub` occurs in `s` at position `i`.
pub open spec fn occurs_at(s: Seq<char>, sub: Seq<char>, i: int) -> bool {
    0 <= i && i + sub.len() <= s.len() && s.subrange(i, i + sub.len()) == sub
}

/// Whether `sub` occurs in `s` (`str::contains`).
pub open spec fn contains_text(s: Seq<char>, sub: Seq<char>) -> bool {
    exists|i: int| occurs_at(s, sub, i)
}

/// The first position at which `sub` occurs in `s` (`str::find`).
pub open spec fn first_occurrence(s: Seq<char>, sub: Seq<char>) -> Option<int> {
    if contains_text(s, sub) {
        Some(choose|i: int| occurs_at(s, sub, i) && forall|k: int| 0 <= k < i ==> !occurs_at(s, sub, k))
    } else {
        None
    }
}

/// `s` with its first occurrence of `pat` replaced by `val` (`str::replacen(pat, val, 1)`).
pub open spec fn replace_first(s: Seq<char>, pat: Seq<char>, val: Seq<char>) -> Seq<char> {
    match first_occurrence(s, pat) {
        Some(i) => s.take(i) + val + s.skip(i + pat.len()),
        None => s,
    }
}

/// Whether the characters start with the prefix.
pub fn chars_start_with(s: &Vec<char>, p: &Vec<char>) -> (r: bool)
    ensures
        r == starts_with(s@, p@),
{
    if p.len() > s.len() {
        return false;
    }
    let mut i: usize = 0;
    while i < p.len()
        invariant
            i <= p.len() <= s.len(),
            forall|k: int| 0 <= k < i ==> s@[k] == p@[k],
        decreases p.len() - i,
    {
        if s[i] != p[i] {
            assert(s@.take(p.len() as int)[i as int] != p@[i as int]);
            return false;
        }
        i += 1;
    }
    assert(s@.take(p.len() as int) =~= p@);
    true
}

/// `str::starts_with`.
pub fn text_starts_with(s: &str, p: &str) -> (r: bool)
    ensures
        r == starts_with(s@, p@),
{
    let a = chars_of(s);
    let b = chars_of(p);
    chars_start_with(&a, &b)
}

/// The characters of `v` from position `from` on.
pub fn chars_skip(v: &Vec<char>, from: usize) -> (r: Vec<char>)
    requires
        from <= v.len(),
    ensures
        r@ == v@.skip(from as int),
{
    let mut out: Vec<char> = Vec::new();
    let mut k: usize = from;
    while k < v.len()
        invariant
            from <= k <= v.len(),
            out@ =~= v@.subrange(from as int, k as int),
        decreases v.len() - k,
    {
        out.push(v[k]);
        k += 1;
    }
    out
}

/// The characters of `v` in positions `from..to`.
pub fn chars_range(v: &Vec<char>, from: usize, to: usize) -> (r: Vec<char>)
    requires
        from <= to <= v.len(),
    ensures
        r@ == v@.subrange(from as int, to as int),
{
    let mut out: Vec<char> = Vec::new();
    let mut k: usize = from;
    while k < to
        invariant
            from <= k <= to <= v.len(),
            out@ =~= v@.subrange(from as int, k as int),
        decreases to - k,
    {
        out.push(v[k]);
        k += 1;
    }
    out
}

/// `str::strip_prefix`.
pub fn text_strip_prefix(s: &str, p: &str) -> (r: Option<String>)
    ensures
        match strip_prefix(s@, p@) {
            Some(rest) => r is Some && r->0@ == rest,
            None => r is None,
        },
{
    let a = chars_of(s);
    let b = chars_of(p);
    if chars_start_with(&a, &b) {
        let rest = chars_skip(&a, b.len());
        Some(string_from(&rest))
    } else {
        None
    }
}

/// Whether `sub` occurs at position `i` of `s`.
pub fn chars_occur_at(s: &Vec<char>, sub: &Vec<char>, i: usize) -> (r: bool)
    ensures
        r == occurs_at(s@, sub@, i as int),
{
    if i > s.len() || sub.len() > s.len() - i {
        return false;
    }
    let mut k: usize = 0;
    while k < sub.len()
        invariant
            k <= sub.len(),
            i + sub.len() <= s.len(),
            forall|m: int| 0 <= m < k ==> s@[i + m] == sub@[m],
        decreases sub.len() - k,
    {
        if s[i + k] != sub[k] {
            assert(s@.subrange(i as int, i + sub.len())[k as int] != sub@[k as int]);
            return false;
        }
        k += 1;
    }
    assert(s@.subrange(i as int, i + sub.len()) =~= sub@);
    true
}

/// The first position at which `sub` occurs in `s`.
pub fn chars_find(s: &Vec<char>, sub: &Vec<char>) -> (r: Option<usize>)
    ensures
        match r {
            Some(i) => {
                &&& occurs_at(s@, sub@, i as int)
                &&& forall|k: int| 0 <= k < i ==> !occurs_at(s@, sub@, k)
                &&& first_occurrence(s@, sub@) == Some(i as int)
            },
            None => !contains_text(s@, sub@) && first_occurrence(s@, sub@) is None,
        },
{
    let mut i: usize = 0;
    while i < s.len()
        invariant
            i <= s.len(),
            forall|k: int| 0 <= k < i ==> !occurs_at(s@, sub@, k),
        decreases s.len() - i,
    {
        if chars_occur_at(s, sub, i) {
            proof {
                lemma_first_occurrence_is(s@, sub@, i as int);
            }
            return Some(i);
        }
        i += 1;
    }
    if chars_occur_at(s, sub, i) {
        proof {
            lemma_first_occurrence_is(s@, sub@, i as int);
        }
        return Some(i);
    }
    proof {
        assert forall|k: int| !occurs_at(s@, sub@, k) by {
            if 0 <= k && k + sub@.len() <= s@.len() {
                assert(k <= i);
            }
        }
    }
    None
}

pub proof fn lemma_first_occurrence_is(s: Seq<char>, sub: Seq<char>, i: int)
    requires
        occurs_at(s, sub, i),
        forall|k: int| 0 <= k < i ==> !occurs_at(s, sub, k),
    ensures
        first_occurrence(s, sub) == Some(i),
{
    assert(contains_text(s, sub));
    let j = choose|j: int| occurs_at(s, sub, j) && forall|k: int| 0 <= k < j ==> !occurs_at(s, sub, k);
    assert(occurs_at(s, sub, j) && forall|k: int| 0 <= k < j ==> !occurs_at(s, sub, k));
    if j < i {
        assert(!occurs_at(s, sub, j));
    } else if j > i {
        assert(!occurs_at(s, sub, i));
    }
}

/// `str::contains`.
pub fn text_contains(s: &str, sub: &str) -> (r: bool)
    ensures
        r == contains_text(s@, sub@),
{
    let a = chars_of(s);
    let b = chars_of(sub);
    match chars_find(&a, &b) {
        Some(_) => true,
        None => false,
    }
}

/// Whether `c` occurs in `s`.
pub fn text_has_char(s: &str, c: char) -> (r: bool)
    ensures
        r == s@.contains(c),
{
    let a = chars_of(s);
    let mut i: usize = 0;
    while i < a.len()
        invariant
            i <= a.len(),
            a@ == s@,
            forall|k: int| 0 <= k < i ==> a@[k] != c,
        decreases a.len() - i,
    {
        if a[i] == c {
            return true;
        }
        i += 1;
    }
    false
}

/// `s.replacen(pat, val, 1)`.
pub fn text_replace_first(s: &str, pat: &str, val: &str) -> (r: String)
    ensures
        r@ == replace_first(s@, pat@, val@),
{
    let a = chars_of(s);
    let b = chars_of(pat);
    match chars_find(&a, &b) {
        Some(i) => {
            let mut out = chars_range(&a, 0, i);
            let v = chars_of(val);
            let mut k: usize = 0;
            while k < v.len()
                invariant
                    k <= v.len(),
                    out@ =~= a@.take(i as int) + v@.take(k as int),
                decreases v.len() - k,
            {
                out.push(v[k]);
                k += 1;
            }
            let mut m: usize = i + b.len();
            let ghost mid = out@;
            while m < a.len()
                invariant
                    i + b.len() <= m <= a.len(),
                    out@ =~= mid + a@.subrange(i + b.len(), m as int),
                decreases a.len() - m,
            {
                out.push(a[m]);
                m += 1;
            }
            assert(v@.take(v@.len() as int) =~= v@);
            assert(out@ =~= replace_first(s@, pat@, val@));
            string_from(&out)
        },
        None => owned(s),
    }
}

/// Decimal digits of a natural number (what `usize::to_string` gives).
pub open spec fn decimal(n: nat) -> Seq<char>
    decreases n,
{
    if n < 10 {
        seq![digit_char(n)]
    } else {
        decimal(n / 10) + seq![digit_char(n % 10)]
    }
}

pub open spec fn digit_char(d: nat) -> char {
    if d == 0 { '0' } else if d == 1 { '1' } else if d == 2 { '2' } else if d == 3 { '3' }
    else if d == 4 { '4' } else if d == 5 { '5' } else if d == 6 { '6' } else if d == 7 { '7' }
    else if d == 8 { '8' } else { '9' }
}

fn digit(d: usize) -> (c: char)
    requires
        d < 10,
    ensures
        c == digit_char(d as nat),
{
    if d == 0 { '0' } else if d == 1 { '1' } else if d == 2 { '2' } else if d == 3 { '3' }
    else if d == 4 { '4' } else if d == 5 { '5' } else if d == 6 { '6' } else if d == 7 { '7' }
    else if d == 8 { '8' } else { '9' }
}

fn decimal_chars(n: usize) -> (r: Vec<char>)
    ensures
        r@ == decimal(n as nat),
    decreases n,
{
    if n < 10 {
        let mut v = Vec::new();
        v.push(digit(n));
        assert(v@ =~= seq![digit_char(n as nat)]);
        v
    } else {
        let mut v = decimal_chars(n / 10);
        v.push(digit(n % 10));
        v
    }
}

/// `usize::to_string`.
pub fn decimal_string(n: usize) -> (r: String)
    ensures
        r@ == decimal(n as nat),
{
    let v = decimal_chars(n);
    string_from(&v)
}

/// Concatenation of string slices.
pub fn concat2(a: &str, b: &str) -> (r: String)
    ensures
        r@ == a@ + b@,
{
    let mut x = chars_of(a);
    let y = chars_of(b);
    let mut k: usize = 0;
    let ghost start = x@;
    while k < y.len()
        invariant
            k <= y.len(),
            x@ =~= start + y@.take(k as int),
        decreases y.len() - k,
    {
        x.push(y[k]);
        k += 1;
    }
    assert(y@.take(y@.len() as int) =~= y@);
    string_from(&x)
}

/// Three texts one after the other.
pub fn concat3(a: &str, b: &str, c: &str) -> (r: String)
    ensures
        r@ == a@ + b@ + c@,
{
    let ab = concat2(a, b);
    concat2(ab.as_str(), c)
}

/// Four texts one after the other.
pub fn concat4(a: &str, b: &str, c: &str, d: &str) -> (r: String)
    ensures
        r@ == a@ + b@ + c@ + d@,
{
    let abc = concat3(a, b, c);
    concat2(abc.as_str(), d)
}

/// Five texts one after the other.
pub fn concat5(a: &str, b: &str, c: &str, d: &str, e: &str) -> (r: String)
    ensures
        r@ == a@ + b@ + c@ + d@ + e@,
{
    let abcd = concat4(a, b, c, d);
    concat2(abcd.as_str(), e)
}

} // verus!

verus! {

/// The characters of an optional string.
pub open spec fn opt_text(o: Option<String>) -> Option<Seq<char>> {
    match o {
        Some(s) => Some(s@),
        None => None,
    }
}

/// The characters of each string of a sequence.
pub open spec fn texts(v: Seq<String>) -> Seq<Seq<char>> {
    crate::order::views(v)
}

/// A copy of a vector of strings.
pub fn copy_texts(v: &Vec<String>) -> (r: Vec<String>)
    ensures
        texts(r@) == texts(v@),
        r@.len() == v@.len(),
{
    let mut out: Vec<String> = Vec::new();
    let mut i: usize = 0;
    while i < v.len()
        invariant
            i <= v.len(),
            out@.len() == i,
            texts(out@) =~= texts(v@.take(i as int)),
        decreases v.len() - i,
    {
        let c = v[i].clone();
        let ghost before = out@;
        out.push(c);
        proof {
            assert(out@ == before.push(c));
            assert(before.len() == i);
            assert(c@ == v@[i as int]@);
            assert forall|k: int| 0 <= k < out@.len() implies #[trigger] texts(out@)[k] == texts(v@.take(i + 1))[k] by {
                if k < i {
                    assert(out@[k] == before[k]);
                    assert(texts(before)[k] == texts(v@.take(i as int))[k]);
                }
            }
        }
        i += 1;
        assert(texts(out@) =~= texts(v@.take(i as int)));
    }
    assert(v@.take(i as int) =~= v@);
    out
}

/// A copy of an optional string.
pub fn copy_opt(o: &Option<String>) -> (r: Option<String>)
    ensures
        opt_text(r) == opt_text(*o),
{
    match o {
        Some(s) => Some(s.clone()),
        None => None,
    }
}

/// An optional string slice made into an owned string.
pub fn owned_opt(o: Option<&str>) -> (r: Option<String>)
    ensures
        opt_text(r) == match o {
            Some(s) => Some(s@),
            None => None::<Seq<char>>,
        },
{
    match o {
        Some(s) => Some(owned(s)),
        None => None,
    }
}

} // verus!

verus! {

/// `str::trim_start_matches` with a text pattern: every leading repetition of `p` removed.
pub open spec fn strip_all_prefix(s: Seq<char>, p: Seq<char>) -> Seq<char>
    decreases s.len(),
{
    if p.len() > 0 && starts_with(s, p) {
        strip_all_prefix(s.skip(p.len() as int), p)
    } else {
        s
    }
}

/// `str::trim_start_matches` with a text pattern.
pub fn text_strip_all_prefix(s: &str, p: &str) -> (r: String)
    ensures
        r@ == strip_all_prefix(s@, p@),
{
    let v = chars_of(s);
    let q = chars_of(p);
    let mut cur = v;
    if q.len() == 0 {
        return string_from(&cur);
    }
    while chars_start_with(&cur, &q)
        invariant
            q@ == p@,
            q.len() > 0,
            strip_all_prefix(cur@, p@) == strip_all_prefix(s@, p@),
        decreases cur.len(),
    {
        cur = chars_skip(&cur, q.len());
    }
    string_from(&cur)
}

/// The first `n` characters of a text (all of it when shorter).
pub open spec fn prefix_of(s: Seq<char>, n: nat) -> Seq<char> {
    if s.len() <= n { s } else { s.take(n as int) }
}

/// The first `n` characters of a text.
pub fn text_prefix(s: &str, n: usize) -> (r: String)
    ensures
        r@ == prefix_of(s@, n as nat),
{
    let v = chars_of(s);
    if v.len() <= n {
        string_from(&v)
    } else {
        let w = chars_range(&v, 0, n);
        string_from(&w)
    }
}

} // verus!

verus! {

/// `str::trim_end_matches` with a single character.
pub fn text_trim_end_char(s: &str, c: char) -> (r: String)
    ensures
        r@ == trim_end_by(s@, is_char(c)),
{
    let v = chars_of(s);
    let ghost p = is_char(c);
    let mut j: usize = v.len();
    while j > 0 && v[j - 1] == c
        invariant
            j <= v.len(),
            v@ == s@,
            p == is_char(c),
            forall|k: int| j <= k < v.len() ==> p(#[trigger] v@[k]),
        decreases j,
    {
        j -= 1;
    }
    proof {
        lemma_trail_count_scan(v@, p, j as int);
    }
    let w = chars_range(&v, 0, j);
    assert(w@ =~= trim_end_by(s@, is_char(c)));
    string_from(&w)
}

/// `str::trim_start_matches` with a single character.
pub fn text_trim_start_char(s: &str, c: char) -> (r: String)
    ensures
        r@ == trim_start_by(s@, is_char(c)),
{
    let v = chars_of(s);
    let ghost p = is_char(c);
    let mut i: usize = 0;
    while i < v.len() && v[i] == c
        invariant
            i <= v.len(),
            v@ == s@,
            p == is_char(c),
            forall|k: int| 0 <= k < i ==> p(#[trigger] v@[k]),
        decreases v.len() - i,
    {
        i += 1;
    }
    proof {
        lemma_lead_count_scan(v@, p, i as int);
    }
    let w = chars_skip(&v, i);
    string_from(&w)
}


/// The parts joined with a separator between neighbours (what `join` on a slice gives).
pub open spec fn joined(parts: Seq<Seq<char>>, sep: Seq<char>) -> Seq<char>
    decreases parts.len(),
{
    if parts.len() == 0 {
        Seq::empty()
    } else if parts.len() == 1 {
        parts[0]
    } else {
        joined(parts.drop_last(), sep) + sep + parts.last()
    }
}

/// Joins strings with a separator.
pub fn join_texts(parts: &Vec<String>, sep: &str) -> (r: String)
    ensures
        r@ == joined(texts(parts@), sep@),
{
    let mut out = String::new();
    let mut i: usize = 0;
    proof {
        assert(texts(parts@).take(0) =~= Seq::<Seq<char>>::empty());
    }
    while i < parts.len()
        invariant
            i <= parts@.len(),
            out@ == joined(texts(parts@).take(i as int), sep@),
        decreases parts@.len() - i,
    {
        let ghost t = texts(parts@);
        proof {
            assert(t.take(i + 1).drop_last() =~= t.take(i as int));
            assert(t.take(i + 1).last() == parts@[i as int]@);
            if i == 0 {
                assert(t.take(1) =~= seq![parts@[0]@]);
            }
        }
        if i == 0 {
            out = parts[0].clone();
        } else {
            let with_sep = concat2(out.as_str(), sep);
            out = concat2(with_sep.as_str(), parts[i].as_str());
        }
        i += 1;
    }
    proof {
        assert(texts(parts@).take(i as int) =~= texts(parts@));
    }
    out
}


/// The strings in ascending order (what `sort` on a vector of strings gives).
pub open spec fn sorted_texts(s: Seq<Seq<char>>) -> Seq<Seq<char>> {
    s.sort_by(crate::order::or_equal(text_order()))
}

/// The order `Ranked` gives strings is the order of their characters.
pub proof fn lemma_string_rank_is_text_order()
    ensures
        crate::order::rank_of::<String>() == text_order(),
{
    assert(crate::order::rank_of::<String>() =~= text_order());
}

/// A sequence in ascending order with the elements of `s` is `sorted_texts(s)`.
pub proof fn lemma_sorted_texts_is(r: Seq<Seq<char>>, s: Seq<Seq<char>>)
    requires
        sorted_by(r, crate::order::or_equal(text_order())),
        r.to_multiset() == s.to_multiset(),
    ensures
        sorted_texts(s) == r,
{
    lemma_text_order_strict_total();
    crate::order::lemma_or_equal_total(text_order());
    s.lemma_sort_by_ensures(crate::order::or_equal(text_order()));
    crate::order::lemma_sorted_same_elements_equal(sorted_texts(s), r, text_order());
}

/// Sorts strings in ascending order.
pub fn sort_texts(v: Vec<String>) -> (r: Vec<String>)
    ensures
        texts(r@) == sorted_texts(texts(v@)),
{
    let r = crate::order::sort_ranked(v);
    proof {
        lemma_string_rank_is_text_order();
        lemma_sorted_texts_is(texts(r@), texts(v@));
    }
    r
}

} // verus!
