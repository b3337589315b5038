//! Maps keyed by text, kept in increasing key order, as a `BTreeMap<String, _>` keeps them.
use vstd::prelude::*;
use vstd::relations::*;
use crate::order::{chars_precede, text_order, lemma_text_order_strict_total};
use crate::text::{chars_of, text_eq};

verus! {

/// A map from texts to values, with its entries held in increasing key order.
#[derive(Debug)]
pub struct TextMap<V> {
    entries: Vec<(String, V)>,
}

/// The keys of a list of entries.
pub open spec fn entry_keys<V>(e: Seq<(String, V)>) -> Seq<Seq<char>> {
    e.map_values(|p: (String, V)| p.0@)
}

/// The position of a key among entries.
pub open spec fn entry_index<V>(e: Seq<(String, V)>, k: Seq<char>) -> int {
    choose|i: int| 0 <= i < e.len() && #[trigger] e[i].0@ == k
}

/// The map a list of entries with distinct keys stands for.
pub open spec fn entries_map<V>(e: Seq<(String, V)>) -> Map<Seq<char>, V> {
    Map::new(|k: Seq<char>| entry_keys(e).contains(k), |k: Seq<char>| e[entry_index(e, k)].1)
}

impl<V> View for TextMap<V> {
    type V = Map<Seq<char>, V>;

    closed spec fn view(&self) -> Map<Seq<char>, V> {
        entries_map(self.entries@)
    }
}

/// The lookup of a key in entries with distinct keys.
pub proof fn lemma_entries_map_at<V>(e: Seq<(String, V)>, i: int)
    requires
        sorted_by(entry_keys(e), text_order()),
        0 <= i < e.len(),
    ensures
        entries_map(e).contains_key(e[i].0@),
        entries_map(e)[e[i].0@] == e[i].1,
{
    lemma_text_order_strict_total();
    let k = e[i].0@;
    assert(entry_keys(e)[i] == k);
    assert(entry_keys(e).contains(k));
    let j = entry_index(e, k);
    assert(e[i].0@ == k);
    assert(0 <= j < e.len() && e[j].0@ == k);
    if j != i {
        assert(entry_keys(e)[j] == k);
        if j < i {
            assert(text_order()(entry_keys(e)[j], entry_keys(e)[i]));
        } else {
            assert(text_order()(entry_keys(e)[i], entry_keys(e)[j]));
        }
        assert(!text_order()(k, k));
    }
    assert(j == i);
    assert(entries_map(e)[k] == e[j].1);
}

/// Appending an entry with a new, larger key adds it to the map.
pub proof fn lemma_entries_map_push<V>(e: Seq<(String, V)>, x: (String, V))
    requires
        sorted_by(entry_keys(e.push(x)), text_order()),
    ensures
        entries_map(e.push(x)) == entries_map(e).insert(x.0@, x.1),
{
    lemma_text_order_strict_total();
    let f = e.push(x);
    assert(sorted_by(entry_keys(e), text_order())) by {
        assert forall|i: int, j: int| 0 <= i < j < entry_keys(e).len() implies #[trigger] text_order()(entry_keys(e)[i], entry_keys(e)[j]) by {
            assert(entry_keys(f)[i] == entry_keys(e)[i] && entry_keys(f)[j] == entry_keys(e)[j]);
        }
    }
    let a = entries_map(f);
    let b = entries_map(e).insert(x.0@, x.1);
    assert forall|k: Seq<char>| a.contains_key(k) <==> b.contains_key(k) by {
        if a.contains_key(k) && k != x.0@ {
            let i = choose|i: int| 0 <= i < f.len() && entry_keys(f)[i] == k;
            assert(i < e.len());
            assert(entry_keys(e)[i] == k);
        }
        if b.contains_key(k) && k != x.0@ {
            let i = choose|i: int| 0 <= i < e.len() && entry_keys(e)[i] == k;
            assert(entry_keys(f)[i] == k);
        }
        if k == x.0@ {
            assert(entry_keys(f)[e.len() as int] == k);
        }
    }
    assert forall|k: Seq<char>| a.contains_key(k) implies a[k] == b[k] by {
        let i = choose|i: int| 0 <= i < f.len() && entry_keys(f)[i] == k;
        lemma_entries_map_at(f, i);
        if i < e.len() {
            assert(f[i] == e[i]);
            lemma_entries_map_at(e, i);
            if k == x.0@ {
                assert(text_order()(entry_keys(f)[i], entry_keys(f)[e.len() as int]));
            }
        }
    }
    assert(a =~= b);
}

/// The map of a prefix of the entries.
pub proof fn lemma_entries_map_prefix<V>(e: Seq<(String, V)>, i: int)
    requires
        sorted_by(entry_keys(e), text_order()),
        0 <= i < e.len(),
    ensures
        entries_map(e.take(i + 1)) == entries_map(e.take(i)).insert(e[i].0@, e[i].1),
        sorted_by(entry_keys(e.take(i + 1)), text_order()),
{
    assert(e.take(i + 1) =~= e.take(i).push(e[i]));
    assert(sorted_by(entry_keys(e.take(i + 1)), text_order())) by {
        assert forall|a: int, b: int| 0 <= a < b < entry_keys(e.take(i + 1)).len() implies #[trigger] text_order()(entry_keys(e.take(i + 1))[a], entry_keys(e.take(i + 1))[b]) by {
            assert(entry_keys(e.take(i + 1))[a] == entry_keys(e)[a]);
            assert(entry_keys(e.take(i + 1))[b] == entry_keys(e)[b]);
        }
    }
    lemma_entries_map_push(e.take(i), e[i]);
}

impl<V> TextMap<V> {
    #[verifier::type_invariant]
    spec fn keys_increase(self) -> bool {
        sorted_by(entry_keys(self.entries@), text_order())
    }

    /// The entries in increasing key order.
    pub closed spec fn entries(self) -> Seq<(String, V)> {
        self.entries@
    }

    /// An empty map.
    pub fn new() -> (m: Self)
        ensures
            m@ == Map::<Seq<char>, V>::empty(),
            m.entries().len() == 0,
    {
        let m = TextMap { entries: Vec::new() };
        assert(m@ =~= Map::<Seq<char>, V>::empty());
        m
    }

    /// The number of entries.
    pub fn len(&self) -> (n: usize)
        ensures
            n == self.entries().len(),
            n == self@.dom().len(),
            sorted_by(entry_keys(self.entries()), text_order()),
            self@ == entries_map(self.entries()),
    {
        proof {
            use_type_invariant(self);
            self.lemma_len();
        }
        self.entries.len()
    }

    proof fn lemma_len(self)
        requires
            sorted_by(entry_keys(self.entries@), text_order()),
        ensures
            self@.dom().len() == self.entries@.len(),
    {
        lemma_text_order_strict_total();
        let ks = entry_keys(self.entries@);
        assert(ks.no_duplicates()) by {
            assert forall|i: int, j: int| 0 <= i < ks.len() && 0 <= j < ks.len() && i != j implies ks[i] != ks[j] by {
                if i < j { assert(text_order()(ks[i], ks[j])); } else { assert(text_order()(ks[j], ks[i])); }
            }
        }
        ks.unique_seq_to_set();
        assert(self@.dom() =~= ks.to_set());
    }

    /// Whether the map has no entry.
    pub fn is_empty(&self) -> (r: bool)
        ensures
            r == (self@.dom().len() == 0),
            r == (self.entries().len() == 0),
    {
        self.len() == 0
    }

    fn position(&self, key: &str) -> (r: (usize, bool))
        ensures
            r.0 <= self.entries@.len(),
            forall|k: int| 0 <= k < r.0 ==> text_order()(#[trigger] entry_keys(self.entries@)[k], key@),
            r.0 < self.entries@.len() ==> !text_order()(entry_keys(self.entries@)[r.0 as int], key@),
            r.1 == (r.0 < self.entries@.len() && entry_keys(self.entries@)[r.0 as int] == key@),
    {
        let q = chars_of(key);
        let mut p: usize = 0;
        while p < self.entries.len()
            invariant
                p <= self.entries@.len(),
                q@ == key@,
                forall|k: int| 0 <= k < p ==> text_order()(#[trigger] entry_keys(self.entries@)[k], key@),
            ensures
                p <= self.entries@.len(),
                forall|k: int| 0 <= k < p ==> text_order()(#[trigger] entry_keys(self.entries@)[k], key@),
                p < self.entries@.len() ==> !text_order()(entry_keys(self.entries@)[p as int], key@),
            decreases self.entries@.len() - p,
        {
            let c = chars_of(self.entries[p].0.as_str());
            assert(entry_keys(self.entries@)[p as int] == c@);
            if !chars_precede(&c, &q) {
                break;
            }
            p += 1;
        }
        if p < self.entries.len() {
            let found = text_eq(self.entries[p].0.as_str(), key);
            (p, found)
        } else {
            (p, false)
        }
    }

    /// Whether the map has an entry for `key`.
    pub fn contains_key(&self, key: &str) -> (r: bool)
        ensures
            r == self@.contains_key(key@),
    {
        proof {
            use_type_invariant(self);
        }
        let (p, found) = self.position(key);
        proof {
            self.lemma_absent(key@, p as int, found);
        }
        found
    }

    proof fn lemma_absent(self, key: Seq<char>, p: int, found: bool)
        requires
            sorted_by(entry_keys(self.entries@), text_order()),
            0 <= p <= self.entries@.len(),
            forall|k: int| 0 <= k < p ==> text_order()(#[trigger] entry_keys(self.entries@)[k], key),
            p < self.entries@.len() ==> !text_order()(entry_keys(self.entries@)[p], key),
            found == (p < self.entries@.len() && entry_keys(self.entries@)[p] == key),
        ensures
            found == self@.contains_key(key),
            found ==> self@[key] == self.entries@[p].1,
    {
        lemma_text_order_strict_total();
        let ks = entry_keys(self.entries@);
        if found {
            lemma_entries_map_at(self.entries@, p);
        } else if ks.contains(key) {
            let i = choose|i: int| 0 <= i < ks.len() && ks[i] == key;
            if i < p {
                assert(text_order()(ks[i], key));
            } else if i == p {
            } else {
                assert(text_order()(ks[p], ks[i]));
                if ks[p] != key {
                    assert(text_order()(ks[p], key) || text_order()(key, ks[p]));
                }
            }
        }
    }

    /// The value of `key`, if any.
    pub fn get(&self, key: &str) -> (r: Option<&V>)
        ensures
            match r {
                Some(v) => self@.contains_key(key@) && *v == self@[key@],
                None => !self@.contains_key(key@),
            },
    {
        proof {
            use_type_invariant(self);
        }
        let (p, found) = self.position(key);
        proof {
            self.lemma_absent(key@, p as int, found);
        }
        if found {
            Some(&self.entries[p].1)
        } else {
            None
        }
    }

    /// The entry at a position of the key order.
    pub fn entry_at(&self, i: usize) -> (r: (&String, &V))
        requires
            i < self.entries().len(),
        ensures
            *r.0 == self.entries()[i as int].0,
            *r.1 == self.entries()[i as int].1,
            sorted_by(entry_keys(self.entries()), text_order()),
            self@ == entries_map(self.entries()),
    {
        proof {
            use_type_invariant(self);
        }
        (&self.entries[i].0, &self.entries[i].1)
    }

    /// Sets the value of `key`, replacing any earlier one.
    pub fn insert(&mut self, key: String, value: V)
        ensures
            final(self)@ == old(self)@.insert(key@, value),
    {
        proof {
            use_type_invariant(&*self);
            lemma_text_order_strict_total();
        }
        let (p, found) = self.position(key.as_str());
        let ghost old_entries = self.entries@;
        let ghost ks = entry_keys(old_entries);
        let ghost kv = key@;
        let mut entries: Vec<(String, V)> = Vec::new();
        std::mem::swap(&mut entries, &mut self.entries);
        assert(entries@ == old_entries);
        if found {
            entries.set(p, (key, value));
        } else {
            entries.insert(p, (key, value));
        }
        proof {
            let ne = entries@;
            let nks = entry_keys(ne);
            if found {
                assert(nks =~= ks.update(p as int, kv));
                assert(sorted_by(nks, text_order()));
            } else {
                assert(nks =~= ks.insert(p as int, kv));
                assert forall|i: int, j: int| 0 <= i < j < nks.len() implies #[trigger] text_order()(nks[i], nks[j]) by {
                    if j < p {
                        assert(nks[i] == ks[i] && nks[j] == ks[j]);
                    } else if j == p {
                        assert(nks[i] == ks[i]);
                    } else if i == p {
                        assert(nks[j] == ks[j - 1]);
                        if ks[p as int] != kv {
                            assert(text_order()(ks[p as int], kv) || text_order()(kv, ks[p as int]));
                        }
                        if j - 1 > p {
                            assert(text_order()(ks[p as int], ks[j - 1]));
                        }
                    } else if i < p {
                        assert(nks[i] == ks[i] && nks[j] == ks[j - 1]);
                    } else {
                        assert(nks[i] == ks[i - 1] && nks[j] == ks[j - 1]);
                    }
                }
            }
            self.lemma_insert_map(old_entries, ne, p as int, found, kv);
        }
        self.entries = entries;
    }

    proof fn lemma_insert_map(self, old_e: Seq<(String, V)>, new_e: Seq<(String, V)>, p: int, found: bool, kv: Seq<char>)
        requires
            sorted_by(entry_keys(old_e), text_order()),
            sorted_by(entry_keys(new_e), text_order()),
            0 <= p <= old_e.len(),
            found ==> p < old_e.len() && entry_keys(old_e)[p] == kv && new_e == old_e.update(p, new_e[p]),
            !found ==> new_e == old_e.insert(p, new_e[p]),
            new_e[p].0@ == kv,
            !found ==> !entry_keys(old_e).contains(kv),
        ensures
            entries_map(new_e) == entries_map(old_e).insert(kv, new_e[p].1),
    {
        lemma_text_order_strict_total();
        let m_old = entries_map(old_e);
        let m_new = entries_map(new_e);
        let target = m_old.insert(kv, new_e[p].1);
        assert forall|k: Seq<char>| m_new.contains_key(k) <==> target.contains_key(k) by {
            if m_new.contains_key(k) {
                let i = choose|i: int| 0 <= i < new_e.len() && entry_keys(new_e)[i] == k;
                if k != kv {
                    if found {
                        assert(entry_keys(old_e)[i] == k);
                    } else if i < p {
                        assert(entry_keys(old_e)[i] == k);
                    } else {
                        assert(entry_keys(old_e)[i - 1] == k);
                    }
                }
            }
            if target.contains_key(k) && k != kv {
                let i = choose|i: int| 0 <= i < old_e.len() && entry_keys(old_e)[i] == k;
                if found || i < p {
                    assert(entry_keys(new_e)[i] == k);
                } else {
                    assert(entry_keys(new_e)[i + 1] == k);
                }
            }
            if k == kv {
                assert(entry_keys(new_e)[p] == kv);
            }
        }
        assert forall|k: Seq<char>| m_new.contains_key(k) implies m_new[k] == target[k] by {
            let i = choose|i: int| 0 <= i < new_e.len() && entry_keys(new_e)[i] == k;
            lemma_entries_map_at(new_e, i);
            if k == kv {
                lemma_entries_map_at(new_e, p);
            } else if found || i < p {
                assert(old_e[i] == new_e[i]);
                lemma_entries_map_at(old_e, i);
            } else {
                assert(old_e[i - 1] == new_e[i]);
                lemma_entries_map_at(old_e, i - 1);
            }
        }
        assert(m_new =~= target);
    }

    /// Removes the entry of `key`, if any.
    pub fn remove(&mut self, key: &str)
        ensures
            final(self)@ == old(self)@.remove(key@),
    {
        proof {
            use_type_invariant(&*self);
            lemma_text_order_strict_total();
        }
        let (p, found) = self.position(key);
        proof {
            self.lemma_absent(key@, p as int, found);
        }
        if !found {
            assert(self@ =~= self@.remove(key@));
            return;
        }
        let ghost old_e = self.entries@;
        let mut entries: Vec<(String, V)> = Vec::new();
        std::mem::swap(&mut entries, &mut self.entries);
        assert(entries@ == old_e);
        entries.remove(p);
        proof {
            let ne = entries@;
            let ks = entry_keys(old_e);
            let nks = entry_keys(ne);
            assert(nks =~= ks.remove(p as int));
            assert forall|i: int, j: int| 0 <= i < j < nks.len() implies #[trigger] text_order()(nks[i], nks[j]) by {
                if j < p {
                    assert(nks[i] == ks[i] && nks[j] == ks[j]);
                } else if i < p {
                    assert(nks[i] == ks[i] && nks[j] == ks[j + 1]);
                } else {
                    assert(nks[i] == ks[i + 1] && nks[j] == ks[j + 1]);
                }
            }
            let m_old = entries_map(old_e);
            let m_new = entries_map(ne);
            let target = m_old.remove(key@);
            assert forall|k: Seq<char>| m_new.contains_key(k) <==> target.contains_key(k) by {
                if m_new.contains_key(k) {
                    let i = choose|i: int| 0 <= i < ne.len() && nks[i] == k;
                    if i < p {
                        assert(ks[i] == k);
                        assert(text_order()(ks[i], ks[p as int]));
                    } else {
                        assert(ks[i + 1] == k);
                        assert(text_order()(ks[p as int], ks[i + 1]));
                    }
                }
                if target.contains_key(k) {
                    let i = choose|i: int| 0 <= i < old_e.len() && ks[i] == k;
                    if i < p {
                        assert(nks[i] == k);
                    } else {
                        assert(i != p);
                        assert(nks[i - 1] == k);
                    }
                }
            }
            assert forall|k: Seq<char>| m_new.contains_key(k) implies m_new[k] == target[k] by {
                let i = choose|i: int| 0 <= i < ne.len() && nks[i] == k;
                lemma_entries_map_at(ne, i);
                if i < p {
                    assert(old_e[i] == ne[i]);
                    lemma_entries_map_at(old_e, i);
                } else {
                    assert(old_e[i + 1] == ne[i]);
                    lemma_entries_map_at(old_e, i + 1);
                }
            }
            assert(m_new =~= target);
        }
        self.entries = entries;
    }
}

impl TextMap<String> {
    /// A copy of the map.
    pub fn duplicate(&self) -> (r: Self)
        ensures
            r@ == self@,
    {
        proof {
            use_type_invariant(self);
        }
        let mut entries: Vec<(String, String)> = Vec::new();
        let mut i: usize = 0;
        while i < self.entries.len()
            invariant
                i <= self.entries@.len(),
                entries@.len() == i,
                forall|k: int| 0 <= k < i ==> #[trigger] entries@[k] == self.entries@[k],
            decreases self.entries@.len() - i,
        {
            let k = self.entries[i].0.clone();
            let v = self.entries[i].1.clone();
            entries.push((k, v));
            i += 1;
        }
        assert(entries@ =~= self.entries@);
        TextMap { entries }
    }
}

impl TextMap<Vec<String>> {
    /// A copy of the map.
    pub fn duplicate(&self) -> (r: Self)
        ensures
            r@.dom() == self@.dom(),
            forall|k: Seq<char>| #[trigger] r@.contains_key(k) ==> crate::text::texts(r@[k]@) == crate::text::texts(self@[k]@),
    {
        proof {
            use_type_invariant(self);
        }
        let mut entries: Vec<(String, Vec<String>)> = Vec::new();
        let mut i: usize = 0;
        while i < self.entries.len()
            invariant
                i <= self.entries@.len(),
                entries@.len() == i,
                forall|k: int| 0 <= k < i ==> #[trigger] entries@[k].0 == self.entries@[k].0,
                forall|k: int| 0 <= k < i ==> crate::text::texts(#[trigger] entries@[k].1@) == crate::text::texts(self.entries@[k].1@),
            decreases self.entries@.len() - i,
        {
            let k = self.entries[i].0.clone();
            let v = crate::text::copy_texts(&self.entries[i].1);
            entries.push((k, v));
            i += 1;
        }
        assert(entry_keys(entries@) =~= entry_keys(self.entries@));
        let r = TextMap { entries };
        proof {
            assert forall|k: Seq<char>| #[trigger] r@.contains_key(k) implies crate::text::texts(r@[k]@) == crate::text::texts(self@[k]@) by {
                let i = choose|i: int| 0 <= i < r.entries@.len() && entry_keys(r.entries@)[i] == k;
                lemma_entries_map_at(r.entries@, i);
                lemma_entries_map_at(self.entries@, i);
            }
            assert(r@.dom() =~= self@.dom());
        }
        r
    }
}

} // verus!
