//! Lexicographic orders on sequences and sorted insertion into vectors.
use vstd::prelude::*;
use vstd::relations::*;
use vstd::multiset::Multiset;

verus! {

/// Strict lexicographic order on sequences, given a strict order on elements.
pub open spec fn lex_lt<T>(a: Seq<T>, b: Seq<T>, lt: spec_fn(T, T) -> bool) -> bool
    decreases a.len(),
{
    if a.len() == 0 {
        b.len() > 0
    } else if b.len() == 0 {
        false
    } else if a[0] == b[0] {
        lex_lt(a.drop_first(), b.drop_first(), lt)
    } else {
        lt(a[0], b[0])
    }
}

/// The order of characters by code point, which is also the order of their UTF-8 encodings.
pub open spec fn char_order() -> spec_fn(char, char) -> bool {
    |x: char, y: char| (x as int) < (y as int)
}

/// The order of `String` values by their characters (the order `String` implements).
pub open spec fn text_order() -> spec_fn(Seq<char>, Seq<char>) -> bool {
    |a: Seq<char>, b: Seq<char>| lex_lt(a, b, char_order())
}

/// Non-strict version of a strict order.
pub open spec fn or_equal<T>(lt: spec_fn(T, T) -> bool) -> spec_fn(T, T) -> bool {
    |a: T, b: T| a == b || lt(a, b)
}

pub proof fn lemma_lex_irreflexive<T>(a: Seq<T>, lt: spec_fn(T, T) -> bool)
    requires
        strict_total_ordering(lt),
    ensures
        !lex_lt(a, a, lt),
    decreases a.len(),
{
    if a.len() > 0 {
        lemma_lex_irreflexive(a.drop_first(), lt);
    }
}

pub proof fn lemma_lex_transitive<T>(a: Seq<T>, b: Seq<T>, c: Seq<T>, lt: spec_fn(T, T) -> bool)
    requires
        strict_total_ordering(lt),
        lex_lt(a, b, lt),
        lex_lt(b, c, lt),
    ensures
        lex_lt(a, c, lt),
    decreases a.len(),
{
    if a.len() > 0 && b.len() > 0 && c.len() > 0 {
        if a[0] == b[0] && b[0] == c[0] {
            lemma_lex_transitive(a.drop_first(), b.drop_first(), c.drop_first(), lt);
        } else if a[0] == b[0] {
        } else if b[0] == c[0] {
        } else {
            assert(lt(a[0], b[0]) && lt(b[0], c[0]));
            if a[0] == c[0] {
                assert(lt(c[0], b[0]));
            }
        }
    }
}

pub proof fn lemma_lex_connected<T>(a: Seq<T>, b: Seq<T>, lt: spec_fn(T, T) -> bool)
    requires
        strict_total_ordering(lt),
        a != b,
    ensures
        lex_lt(a, b, lt) || lex_lt(b, a, lt),
    decreases a.len(),
{
    if a.len() > 0 && b.len() > 0 {
        if a[0] == b[0] {
            if a.drop_first() == b.drop_first() {
                assert(a =~= seq![a[0]] + a.drop_first());
                assert(b =~= seq![b[0]] + b.drop_first());
            } else {
                lemma_lex_connected(a.drop_first(), b.drop_first(), lt);
            }
        }
    } else if a.len() == 0 && b.len() == 0 {
        assert(a =~= b);
    }
}

pub proof fn lemma_lex_strict_total<T>(lt: spec_fn(T, T) -> bool)
    requires
        strict_total_ordering(lt),
    ensures
        strict_total_ordering(|a: Seq<T>, b: Seq<T>| lex_lt(a, b, lt)),
{
    let r = |a: Seq<T>, b: Seq<T>| lex_lt(a, b, lt);
    assert forall|x: Seq<T>| !#[trigger] r(x, x) by {
        lemma_lex_irreflexive(x, lt);
    }
    assert forall|x: Seq<T>, y: Seq<T>, z: Seq<T>| #[trigger] r(x, y) && #[trigger] r(y, z) implies r(x, z) by {
        lemma_lex_transitive(x, y, z, lt);
    }
    assert forall|x: Seq<T>, y: Seq<T>| #[trigger] r(x, y) && #[trigger] r(y, x) implies x == y by {
        lemma_lex_transitive(x, y, x, lt);
        lemma_lex_irreflexive(x, lt);
    }
    assert forall|x: Seq<T>, y: Seq<T>| x != y implies #[trigger] r(x, y) || #[trigger] r(y, x) by {
        lemma_lex_connected(x, y, lt);
    }
}

pub proof fn lemma_char_order_strict_total()
    ensures
        strict_total_ordering(char_order()),
{
    let r = char_order();
    assert forall|x: char, y: char| x != y implies #[trigger] r(x, y) || #[trigger] r(y, x) by {
        assert((x as int) != (y as int));
    }
}

pub proof fn lemma_text_order_strict_total()
    ensures
        strict_total_ordering(text_order()),
{
    lemma_char_order_strict_total();
    lemma_lex_strict_total(char_order());
    assert(text_order() =~= (|a: Seq<char>, b: Seq<char>| lex_lt(a, b, char_order())));
}

/// A strict total order gives a total order once equality is added.
pub proof fn lemma_or_equal_total<T>(lt: spec_fn(T, T) -> bool)
    requires
        strict_total_ordering(lt),
    ensures
        total_ordering(or_equal(lt)),
{
}


/// The lexicographic order of pairs: by the first component, then by the second.
pub open spec fn pair_lt<A, B>(lt1: spec_fn(A, A) -> bool, lt2: spec_fn(B, B) -> bool) -> spec_fn((A, B), (A, B)) -> bool {
    |x: (A, B), y: (A, B)| lt1(x.0, y.0) || (x.0 == y.0 && lt2(x.1, y.1))
}

/// The lexicographic order of pairs of strictly totally ordered components is a strict total
/// order.
pub proof fn lemma_pair_strict_total<A, B>(lt1: spec_fn(A, A) -> bool, lt2: spec_fn(B, B) -> bool)
    requires
        strict_total_ordering(lt1),
        strict_total_ordering(lt2),
    ensures
        strict_total_ordering(pair_lt(lt1, lt2)),
{
    let r = pair_lt(lt1, lt2);
    assert forall|x: (A, B)| !#[trigger] r(x, x) by {
        assert(!lt1(x.0, x.0));
        assert(!lt2(x.1, x.1));
    }
    assert forall|x: (A, B), y: (A, B), z: (A, B)| #[trigger] r(x, y) && #[trigger] r(y, z) implies r(x, z) by {
        if lt1(x.0, y.0) && lt1(y.0, z.0) {
            assert(lt1(x.0, z.0));
        }
        if x.0 == y.0 && y.0 == z.0 {
            assert(lt2(x.1, z.1));
        }
    }
    assert forall|x: (A, B), y: (A, B)| x != y implies #[trigger] r(x, y) || #[trigger] r(y, x) by {
        if x.0 != y.0 {
            assert(lt1(x.0, y.0) || lt1(y.0, x.0));
        } else {
            assert(x.1 != y.1);
            assert(lt2(x.1, y.1) || lt2(y.1, x.1));
        }
    }
    assert forall|x: (A, B), y: (A, B)| #[trigger] r(x, y) implies !r(y, x) by {
        if lt1(x.0, y.0) {
            assert(!lt1(y.0, x.0));
            assert(x.0 != y.0) by {
                if x.0 == y.0 {
                    assert(!lt1(x.0, x.0));
                }
            }
        } else {
            assert(!lt2(y.1, x.1));
        }
    }
}

} // verus!

verus! {

/// Whether `a` comes strictly before `b` in code-point lexicographic order.
pub fn chars_precede(a: &Vec<char>, b: &Vec<char>) -> (r: bool)
    ensures
        r == lex_lt(a@, b@, char_order()),
{
    let mut i: usize = 0;
    assert(a@.skip(0) =~= a@ && b@.skip(0) =~= b@);
    while i < a.len() && i < b.len()
        invariant
            i <= a.len(),
            i <= b.len(),
            lex_lt(a@, b@, char_order()) == lex_lt(a@.skip(i as int), b@.skip(i as int), char_order()),
        decreases a.len() - i,
    {
        if a[i] != b[i] {
            return a[i] < b[i];
        }
        proof {
            assert(a@.skip(i as int).drop_first() =~= a@.skip(i + 1));
            assert(b@.skip(i as int).drop_first() =~= b@.skip(i + 1));
        }
        i += 1;
    }
    a.len() < b.len()
}

} // verus!

verus! {

/// The views of the elements of a sequence.
pub open spec fn views<T: View>(s: Seq<T>) -> Seq<T::V> {
    s.map_values(|t: T| t@)
}

/// Values with a strict total order on their views, and an executable test of it.
pub trait Ranked: View + Sized {
    spec fn rank_lt(a: Self::V, b: Self::V) -> bool;

    proof fn lemma_rank_total()
        ensures
            strict_total_ordering(|a: Self::V, b: Self::V| Self::rank_lt(a, b)),
    ;

    fn ranks_before(&self, other: &Self) -> (r: bool)
        ensures
            r == Self::rank_lt(self@, other@),
    ;
}

/// The strict order of a ranked type, as a relation.
pub open spec fn rank_of<T: Ranked>() -> spec_fn(T::V, T::V) -> bool {
    |a: T::V, b: T::V| T::rank_lt(a, b)
}

/// Two sequences sorted by the same total order with the same elements are equal.
pub proof fn lemma_sorted_same_elements_equal<V>(x: Seq<V>, y: Seq<V>, lt: spec_fn(V, V) -> bool)
    requires
        strict_total_ordering(lt),
        sorted_by(x, or_equal(lt)),
        sorted_by(y, or_equal(lt)),
        x.to_multiset() == y.to_multiset(),
    ensures
        x == y,
{
    lemma_or_equal_total(lt);
    vstd::seq_lib::lemma_sorted_unique(x, y, or_equal(lt));
}

/// Inserts `x` into a sorted vector, after the elements that do not rank after it.
pub fn insert_ranked<T: Ranked>(v: &mut Vec<T>, x: T)
    requires
        sorted_by(views(old(v)@), or_equal(rank_of::<T>())),
    ensures
        sorted_by(views(final(v)@), or_equal(rank_of::<T>())),
        views(final(v)@).to_multiset() == views(old(v)@).to_multiset().insert(x@),
{
    proof {
        T::lemma_rank_total();
    }
    let ghost lt = rank_of::<T>();
    assert(lt =~= |a: T::V, b: T::V| T::rank_lt(a, b));
    let mut p: usize = 0;
    while p < v.len()
        invariant
            p <= v.len(),
            lt == rank_of::<T>(),
            forall|k: int| 0 <= k < p ==> !lt(x@, #[trigger] v@[k]@),
        ensures
            p <= v.len(),
            forall|k: int| 0 <= k < p ==> !lt(x@, #[trigger] v@[k]@),
            p == v.len() || lt(x@, v@[p as int]@),
        decreases v.len() - p,
    {
        if x.ranks_before(&v[p]) {
            break;
        }
        p += 1;
    }
    let ghost before = views(v@);
    v.insert(p, x);
    proof {
        assert(views(v@) =~= before.insert(p as int, x@));
        vstd::seq_lib::to_multiset_insert(before, p as int, x@);
        let s = views(v@);
        assert forall|i: int, j: int| 0 <= i < j < s.len() implies #[trigger] or_equal(lt)(s[i], s[j]) by {
            if j < p {
                assert(s[i] == before[i] && s[j] == before[j]);
            } else if j == p {
                assert(s[i] == before[i]);
                assert(!lt(x@, before[i]));
                assert(s[j] == x@);
            } else if i == p {
                assert(s[j] == before[j - 1]);
                assert(s[i] == x@);
                assert(lt(x@, before[p as int]));
                if j - 1 > p {
                    assert(or_equal(lt)(before[p as int], before[j - 1]));
                }
            } else if i < p {
                assert(s[i] == before[i] && s[j] == before[j - 1]);
            } else {
                assert(s[i] == before[i - 1] && s[j] == before[j - 1]);
            }
        }
    }
}

/// Sorts a vector by rank.
pub fn sort_ranked<T: Ranked>(items: Vec<T>) -> (r: Vec<T>)
    ensures
        sorted_by(views(r@), or_equal(rank_of::<T>())),
        views(r@).to_multiset() == views(items@).to_multiset(),
{
    let mut rest = items;
    let mut out: Vec<T> = Vec::new();
    proof {
        broadcast use vstd::seq_lib::group_to_multiset_ensures, vstd::multiset::group_multiset_axioms;
        assert(views(out@) =~= Seq::<T::V>::empty());
        assert(views(out@).to_multiset() =~= Multiset::empty());
        assert(views(out@).to_multiset().add(views(rest@).to_multiset()) =~= views(items@).to_multiset());
    }
    while rest.len() > 0
        invariant
            sorted_by(views(out@), or_equal(rank_of::<T>())),
            views(out@).to_multiset().add(views(rest@).to_multiset()) == views(items@).to_multiset(),
        decreases rest.len(),
    {
        let ghost rest_before = rest@;
        let x = rest.pop().unwrap();
        proof {
            assert(views(rest_before) =~= views(rest@).push(x@));
            vstd::seq_lib::to_multiset_build(views(rest@), x@);
        }
        insert_ranked(&mut out, x);
        proof {
            broadcast use vstd::multiset::group_multiset_axioms;
            assert(views(out@).to_multiset().add(views(rest@).to_multiset()) =~= views(items@).to_multiset());
        }
    }
    proof {
        assert(views(rest@) =~= Seq::<T::V>::empty());
        broadcast use vstd::seq_lib::group_to_multiset_ensures, vstd::multiset::group_multiset_axioms;
        assert(views(rest@).to_multiset() =~= Multiset::empty());
        assert(views(out@).to_multiset().add(Multiset::empty()) =~= views(out@).to_multiset());
    }
    out
}

} // verus!

verus! {

/// Inserts `x` into a strictly sorted vector unless an element with the same view is present.
pub fn insert_ranked_unique<T: Ranked>(v: &mut Vec<T>, x: T)
    requires
        sorted_by(views(old(v)@), rank_of::<T>()),
    ensures
        sorted_by(views(final(v)@), rank_of::<T>()),
        views(final(v)@).to_set() == views(old(v)@).to_set().insert(x@),
{
    proof {
        T::lemma_rank_total();
    }
    let ghost lt = rank_of::<T>();
    assert(lt =~= |a: T::V, b: T::V| T::rank_lt(a, b));
    let mut p: usize = 0;
    while p < v.len()
        invariant
            p <= v.len(),
            lt == rank_of::<T>(),
            forall|k: int| 0 <= k < p ==> lt(#[trigger] v@[k]@, x@),
        ensures
            p <= v.len(),
            forall|k: int| 0 <= k < p ==> lt(#[trigger] v@[k]@, x@),
            p == v.len() || !lt(v@[p as int]@, x@),
        decreases v.len() - p,
    {
        if !v[p].ranks_before(&x) {
            break;
        }
        p += 1;
    }
    let ghost before = views(v@);
    if p < v.len() && !x.ranks_before(&v[p]) {
        proof {
            assert(!lt(x@, before[p as int]));
            if before[p as int] != x@ {
                assert(lt(before[p as int], x@) || lt(x@, before[p as int]));
            }
            assert(before[p as int] == x@);
            assert(before.to_set().insert(x@) =~= before.to_set());
        }
        return;
    }
    v.insert(p, x);
    proof {
        let s = views(v@);
        assert(s =~= before.insert(p as int, x@));
        assert forall|i: int, j: int| 0 <= i < j < s.len() implies #[trigger] lt(s[i], s[j]) by {
            if j < p {
                assert(s[i] == before[i] && s[j] == before[j]);
            } else if j == p {
                assert(s[i] == before[i]);
            } else if i == p {
                assert(s[j] == before[j - 1]);
                assert(lt(x@, before[p as int]));
                if j - 1 > p {
                    assert(lt(before[p as int], before[j - 1]));
                }
            } else if i < p {
                assert(s[i] == before[i] && s[j] == before[j - 1]);
            } else {
                assert(s[i] == before[i - 1] && s[j] == before[j - 1]);
            }
        }
        assert forall|e: T::V| s.to_set().contains(e) <==> before.to_set().insert(x@).contains(e) by {
            if s.to_set().contains(e) {
                let k = choose|k: int| 0 <= k < s.len() && s[k] == e;
                if k < p {
                    assert(before[k] == e);
                } else if k > p {
                    assert(before[k - 1] == e);
                }
            }
            if before.to_set().contains(e) && e != x@ {
                let k = choose|k: int| 0 <= k < before.len() && before[k] == e;
                if k < p {
                    assert(s[k] == e);
                } else {
                    assert(s[k + 1] == e);
                }
            }
            if e == x@ {
                assert(s[p as int] == e);
            }
        }
        assert(s.to_set() =~= before.to_set().insert(x@));
    }
}

/// The distinct elements of a vector, in increasing order.
pub fn ranked_set<T: Ranked>(items: Vec<T>) -> (r: Vec<T>)
    ensures
        sorted_by(views(r@), rank_of::<T>()),
        views(r@).to_set() == views(items@).to_set(),
{
    let mut rest = items;
    let mut out: Vec<T> = Vec::new();
    proof {
        assert(views(out@).to_set() =~= Set::empty());
        assert(views(out@).to_set().union(views(rest@).to_set()) =~= views(items@).to_set());
    }
    while rest.len() > 0
        invariant
            sorted_by(views(out@), rank_of::<T>()),
            views(out@).to_set().union(views(rest@).to_set()) == views(items@).to_set(),
        decreases rest.len(),
    {
        let ghost rest_before = rest@;
        let x = rest.pop().unwrap();
        proof {
            assert(views(rest_before) =~= views(rest@).push(x@));
            assert(views(rest_before).to_set() =~= views(rest@).to_set().insert(x@)) by {
                assert forall|e: T::V| views(rest_before).to_set().contains(e) <==> views(rest@).to_set().insert(x@).contains(e) by {
                    if views(rest_before).to_set().contains(e) {
                        let k = choose|k: int| 0 <= k < views(rest_before).len() && views(rest_before)[k] == e;
                        if k < rest@.len() {
                            assert(views(rest@)[k] == e);
                        }
                    }
                    if views(rest@).to_set().contains(e) {
                        let k = choose|k: int| 0 <= k < views(rest@).len() && views(rest@)[k] == e;
                        assert(views(rest_before)[k] == e);
                    }
                    if e == x@ {
                        assert(views(rest_before)[rest@.len() as int] == e);
                    }
                }
            }
        }
        insert_ranked_unique(&mut out, x);
        proof {
            assert(views(out@).to_set().union(views(rest@).to_set()) =~= views(items@).to_set());
        }
    }
    proof {
        assert(views(rest@) =~= Seq::<T::V>::empty());
        assert(views(rest@).to_set() =~= Set::empty());
        assert(views(out@).to_set().union(Set::empty()) =~= views(out@).to_set());
    }
    out
}

/// Two strictly increasing sequences with the same elements are equal.
pub proof fn lemma_strictly_sorted_same_set_equal<V>(x: Seq<V>, y: Seq<V>, lt: spec_fn(V, V) -> bool)
    requires
        strict_total_ordering(lt),
        sorted_by(x, lt),
        sorted_by(y, lt),
        x.to_set() == y.to_set(),
    ensures
        x == y,
{
    broadcast use vstd::seq_lib::group_to_multiset_ensures, vstd::multiset::group_multiset_axioms;
    assert(x.no_duplicates()) by {
        assert forall|i: int, j: int| 0 <= i < x.len() && 0 <= j < x.len() && i != j implies x[i] != x[j] by {
            if i < j { assert(lt(x[i], x[j])); } else { assert(lt(x[j], x[i])); }
        }
    }
    assert(y.no_duplicates()) by {
        assert forall|i: int, j: int| 0 <= i < y.len() && 0 <= j < y.len() && i != j implies y[i] != y[j] by {
            if i < j { assert(lt(y[i], y[j])); } else { assert(lt(y[j], y[i])); }
        }
    }
    x.lemma_multiset_has_no_duplicates();
    y.lemma_multiset_has_no_duplicates();
    assert forall|e: V| x.to_multiset().count(e) == y.to_multiset().count(e) by {
        if x.contains(e) {
            assert(x.to_set().contains(e));
            assert(y.contains(e));
        } else {
            assert(!x.to_set().contains(e));
            assert(!y.contains(e));
        }
    }
    assert(x.to_multiset() =~= y.to_multiset());
    assert(sorted_by(x, or_equal(lt)));
    assert(sorted_by(y, or_equal(lt)));
    lemma_sorted_same_elements_equal(x, y, lt);
}

} // verus!

verus! {

/// The elements of a set of texts in increasing order.
pub open spec fn ordered_texts(s: Set<Seq<char>>) -> Seq<Seq<char>> {
    choose|r: Seq<Seq<char>>| sorted_by(r, text_order()) && r.to_set() == s
}

/// A strictly increasing sequence with the elements of `s` is `ordered_texts(s)`.
pub proof fn lemma_ordered_texts_is(r: Seq<Seq<char>>, s: Set<Seq<char>>)
    requires
        sorted_by(r, text_order()),
        r.to_set() == s,
    ensures
        ordered_texts(s) == r,
{
    lemma_text_order_strict_total();
    let c = ordered_texts(s);
    assert(sorted_by(c, text_order()) && c.to_set() == s);
    lemma_strictly_sorted_same_set_equal(c, r, text_order());
}

} // verus!
