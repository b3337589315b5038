//! Detecting which sibling repository builds which binary.
use vstd::prelude::*;
use vstd::relations::*;
use crate::dev_mode::DevProfile;
use crate::order::{text_order, lemma_text_order_strict_total};
use crate::text::{chars_of, texts};
use crate::textmap::{TextMap, entry_keys, entries_map, lemma_entries_map_prefix};

verus! {

/// Where to look for built binaries.
#[derive(Clone, Debug)]
pub struct DetectOptions {
    pub root: String,
    pub profile: DevProfile,
}

/// A binary found in a repository's target directory.
#[derive(Clone, Debug)]
pub struct FoundBinary {
    pub bin: String,
    pub repo: String,
    pub path: String,
}

/// What a detection found: every binary, the binaries built by exactly one repository (with
/// it), and those built by several (with them, in order).
#[derive(Debug)]
pub struct DetectResult {
    pub found: Vec<FoundBinary>,
    pub unambiguous: TextMap<String>,
    pub ambiguous: TextMap<Vec<String>>,
}

/// What merging a detection into a repo map did.
#[derive(Debug)]
pub struct MergeSummary {
    pub added: usize,
    pub skipped_mapped: usize,
    pub ambiguous: TextMap<Vec<String>>,
    pub skipped_mapped_bins: Vec<String>,
}

/// The keys of `ks`, in order, that are in `present`.
pub open spec fn keys_present(ks: Seq<Seq<char>>, present: Set<Seq<char>>) -> Seq<Seq<char>>
    decreases ks.len(),
{
    if ks.len() == 0 {
        ks
    } else if present.contains(ks.last()) {
        keys_present(ks.drop_last(), present).push(ks.last())
    } else {
        keys_present(ks.drop_last(), present)
    }
}

proof fn lemma_keys_present_len(ks: Seq<Seq<char>>, present: Set<Seq<char>>)
    ensures
        keys_present(ks, present).len() <= ks.len(),
    decreases ks.len(),
{
    if ks.len() > 0 {
        lemma_keys_present_len(ks.drop_last(), present);
    }
}

/// What merging `result` into the repo map `before` gives: the map `after`, in which entries
/// already mapped keep their repository and every other unambiguous detection is added, and a
/// summary that reports the skipped binaries in order, the counts, and the ambiguous binaries.
pub open spec fn merge_outcome(
    before: Map<Seq<char>, String>,
    after: Map<Seq<char>, String>,
    result: DetectResult,
    summary: MergeSummary,
) -> bool {
    &&& after == result.unambiguous@.union_prefer_right(before)
    &&& texts(summary.skipped_mapped_bins@) == keys_present(entry_keys(result.unambiguous.entries()), before.dom())
    &&& summary.skipped_mapped == summary.skipped_mapped_bins@.len()
    &&& summary.added + summary.skipped_mapped == result.unambiguous@.dom().len()
    &&& summary.ambiguous@.dom() == result.ambiguous@.dom()
    &&& forall|k: Seq<char>| #[trigger] summary.ambiguous@.contains_key(k) ==> texts(summary.ambiguous@[k]@) == texts(result.ambiguous@[k]@)
}

/// Merging a detection is idempotent: merging it again into the merged map changes nothing,
/// and every entry mapped before the merge keeps its repository.
pub proof fn law_merge_idempotent(before: Map<Seq<char>, String>, detected: Map<Seq<char>, String>)
    ensures
        detected.union_prefer_right(detected.union_prefer_right(before)) == detected.union_prefer_right(before),
        forall|k: Seq<char>| #[trigger] before.contains_key(k) ==> detected.union_prefer_right(before)[k] == before[k],
{
    assert(detected.union_prefer_right(detected.union_prefer_right(before)) =~= detected.union_prefer_right(before));
}

/// Merges the unambiguous detections into a repo map. Entries already mapped are never
/// changed; they are reported as skipped, in binary order. Every other detection is added.
pub fn merge_repo_map(existing: &mut TextMap<String>, result: &DetectResult, _detect_all: bool) -> (summary: MergeSummary)
    ensures
        merge_outcome(old(existing)@, final(existing)@, *result, summary),
{
    let ghost old_map = existing@;
    let n = result.unambiguous.len();
    let ghost e = result.unambiguous.entries();
    let ghost ks = entry_keys(e);
    let mut added: usize = 0;
    let mut skipped_mapped: usize = 0;
    let mut skipped_mapped_bins: Vec<String> = Vec::new();
    let mut i: usize = 0;
    proof {
        lemma_text_order_strict_total();
        assert(e.take(0) =~= Seq::<(String, String)>::empty());
        assert(entries_map(e.take(0)) =~= Map::<Seq<char>, String>::empty());
        assert(existing@ =~= entries_map(e.take(0)).union_prefer_right(old_map));
        assert(ks.take(0) =~= Seq::<Seq<char>>::empty());
    }
    while i < n
        invariant
            i <= n,
            n == e.len(),
            e == result.unambiguous.entries(),
            ks == entry_keys(e),
            sorted_by(ks, text_order()),
            result.unambiguous@ == entries_map(e),
            existing@ == entries_map(e.take(i as int)).union_prefer_right(old_map),
            texts(skipped_mapped_bins@) == keys_present(ks.take(i as int), old_map.dom()),
            skipped_mapped == skipped_mapped_bins@.len(),
            added + skipped_mapped == i,
        decreases n - i,
    {
        let (bin, repo) = result.unambiguous.entry_at(i);
        proof {
            lemma_text_order_strict_total();
            lemma_entries_map_prefix(e, i as int);
            assert(ks.take(i + 1) =~= ks.take(i as int).push(ks[i as int]));
            assert(ks[i as int] == bin@);
            // keys of later entries differ from earlier ones
            assert(!entries_map(e.take(i as int)).contains_key(bin@)) by {
                if entries_map(e.take(i as int)).contains_key(bin@) {
                    assert(entry_keys(e.take(i as int)).contains(bin@));
                    let j = choose|j: int| 0 <= j < e.take(i as int).len() && entry_keys(e.take(i as int))[j] == bin@;
                    assert(entry_keys(e.take(i as int))[j] == ks[j]);
                    assert(ks[j] == bin@);
                    assert(text_order()(ks[j], ks[i as int]));
                    assert(!text_order()(bin@, bin@));
                }
            }
        }
        if existing.contains_key(bin.as_str()) {
            proof {
                assert(old_map.contains_key(bin@));
            }
            let ghost before = skipped_mapped_bins@;
            skipped_mapped_bins.push(bin.clone());
            skipped_mapped = skipped_mapped + 1;
            proof {
                assert(texts(skipped_mapped_bins@) =~= texts(before).push(bin@));
                assert(ks.take(i + 1).drop_last() =~= ks.take(i as int));
                assert(existing@ =~= entries_map(e.take(i + 1)).union_prefer_right(old_map));
            }
        } else {
            existing.insert(bin.clone(), repo.clone());
            added = added + 1;
            proof {
                assert(!old_map.contains_key(bin@));
                assert(ks.take(i + 1).drop_last() =~= ks.take(i as int));
                assert(existing@ =~= entries_map(e.take(i + 1)).union_prefer_right(old_map));
            }
        }
        i += 1;
    }
    proof {
        assert(e.take(n as int) =~= e);
        assert(ks.take(n as int) =~= ks);
    }
    MergeSummary { added, skipped_mapped, ambiguous: result.ambiguous.duplicate(), skipped_mapped_bins }
}

} // verus!

verus! {

use crate::order::{ordered_texts, lemma_ordered_texts_is, insert_ranked_unique, rank_of};
use crate::text::copy_texts;

/// The binaries found.
pub open spec fn found_bins(found: Seq<FoundBinary>) -> Set<Seq<char>> {
    Set::new(|b: Seq<char>| exists|i: int| 0 <= i < found.len() && #[trigger] found[i].bin@ == b)
}

/// The repositories in which a binary was found.
pub open spec fn repos_of(found: Seq<FoundBinary>, bin: Seq<char>) -> Set<Seq<char>> {
    Set::new(|r: Seq<char>| exists|i: int| 0 <= i < found.len() && found[i].bin@ == bin && #[trigger] found[i].repo@ == r)
}

proof fn lemma_rank_of_string_is_text_order()
    ensures
        rank_of::<String>() == text_order(),
{
    assert(rank_of::<String>() =~= text_order());
}

/// Groups the found binaries by name: a binary found in one repository is unambiguous, one
/// found in several is ambiguous, with its repositories in order.
pub fn detect_repo_map(found: Vec<FoundBinary>) -> (r: DetectResult)
    ensures
        r.found@ == found@,
        forall|k: Seq<char>| #[trigger] r.unambiguous@.contains_key(k) <==> found_bins(found@).contains(k)
            && ordered_texts(repos_of(found@, k)).len() == 1,
        forall|k: Seq<char>| #[trigger] r.unambiguous@.contains_key(k) ==> r.unambiguous@[k]@ == ordered_texts(repos_of(found@, k))[0],
        forall|k: Seq<char>| #[trigger] r.ambiguous@.contains_key(k) <==> found_bins(found@).contains(k)
            && ordered_texts(repos_of(found@, k)).len() > 1,
        forall|k: Seq<char>| #[trigger] r.ambiguous@.contains_key(k) ==> texts(r.ambiguous@[k]@) == ordered_texts(repos_of(found@, k)),
{
    proof {
        lemma_text_order_strict_total();
        lemma_rank_of_string_is_text_order();
    }
    let mut candidates: TextMap<Vec<String>> = TextMap::new();
    let mut i: usize = 0;
    while i < found.len()
        invariant
            i <= found.len(),
            rank_of::<String>() == text_order(),
            forall|k: Seq<char>| #[trigger] candidates@.contains_key(k) <==> found_bins(found@.take(i as int)).contains(k),
            forall|k: Seq<char>| #[trigger] candidates@.contains_key(k) ==> sorted_by(texts(candidates@[k]@), text_order())
                && texts(candidates@[k]@).to_set() == repos_of(found@.take(i as int), k),
        decreases found.len() - i,
    {
        let f = &found[i];
        let mut set: Vec<String> = match candidates.get(f.bin.as_str()) {
            Some(v) => copy_texts(v),
            None => Vec::new(),
        };
        let ghost before = texts(set@);
        proof {
            if !candidates@.contains_key(f.bin@) {
                assert(texts(set@) =~= Seq::<Seq<char>>::empty());
                assert(repos_of(found@.take(i as int), f.bin@) =~= Set::empty()) by {
                    assert forall|r: Seq<char>| !repos_of(found@.take(i as int), f.bin@).contains(r) by {
                        if repos_of(found@.take(i as int), f.bin@).contains(r) {
                            let j = choose|j: int| 0 <= j < found@.take(i as int).len() && found@.take(i as int)[j].bin@ == f.bin@ && #[trigger] found@.take(i as int)[j].repo@ == r;
                            assert(found_bins(found@.take(i as int)).contains(f.bin@)) by {
                                assert(found@.take(i as int)[j].bin@ == f.bin@);
                            }
                        }
                    }
                }
            }
        }
        insert_ranked_unique(&mut set, f.repo.clone());
        candidates.insert(f.bin.clone(), set);
        proof {
            let pre = found@.take(i as int);
            let post = found@.take(i + 1);
            assert(post =~= pre.push(found@[i as int]));
            assert forall|k: Seq<char>| #[trigger] candidates@.contains_key(k) <==> found_bins(post).contains(k) by {
                if found_bins(pre).contains(k) {
                    let j = choose|j: int| 0 <= j < pre.len() && #[trigger] pre[j].bin@ == k;
                    assert(post[j].bin@ == k);
                }
                if found_bins(post).contains(k) && k != f.bin@ {
                    let j = choose|j: int| 0 <= j < post.len() && #[trigger] post[j].bin@ == k;
                    assert(j < i);
                    assert(pre[j].bin@ == k);
                }
                if k == f.bin@ {
                    assert(post[i as int].bin@ == k);
                }
            }
            assert forall|k: Seq<char>| #[trigger] candidates@.contains_key(k) implies sorted_by(texts(candidates@[k]@), text_order())
                && texts(candidates@[k]@).to_set() == repos_of(post, k) by {
                if k == f.bin@ {
                    assert(repos_of(post, k) =~= repos_of(pre, k).insert(f.repo@)) by {
                        assert forall|r: Seq<char>| repos_of(post, k).contains(r) <==> repos_of(pre, k).insert(f.repo@).contains(r) by {
                            if repos_of(post, k).contains(r) && r != f.repo@ {
                                let j = choose|j: int| 0 <= j < post.len() && post[j].bin@ == k && #[trigger] post[j].repo@ == r;
                                assert(j < i);
                                assert(pre[j].repo@ == r);
                            }
                            if repos_of(pre, k).contains(r) {
                                let j = choose|j: int| 0 <= j < pre.len() && pre[j].bin@ == k && #[trigger] pre[j].repo@ == r;
                                assert(post[j].repo@ == r);
                            }
                            if r == f.repo@ {
                                assert(post[i as int].repo@ == r);
                            }
                        }
                    }
                } else {
                    assert(repos_of(post, k) =~= repos_of(pre, k)) by {
                        assert forall|r: Seq<char>| repos_of(post, k).contains(r) <==> repos_of(pre, k).contains(r) by {
                            if repos_of(post, k).contains(r) {
                                let j = choose|j: int| 0 <= j < post.len() && post[j].bin@ == k && #[trigger] post[j].repo@ == r;
                                assert(j < i);
                                assert(pre[j].repo@ == r);
                            }
                            if repos_of(pre, k).contains(r) {
                                let j = choose|j: int| 0 <= j < pre.len() && pre[j].bin@ == k && #[trigger] pre[j].repo@ == r;
                                assert(post[j].repo@ == r);
                            }
                        }
                    }
                }
            }
        }
        i += 1;
    }
    proof {
        assert(found@.take(found@.len() as int) =~= found@);
    }
    let mut unambiguous: TextMap<String> = TextMap::new();
    let mut ambiguous: TextMap<Vec<String>> = TextMap::new();
    let n = candidates.len();
    let ghost ce = candidates.entries();
    let mut j: usize = 0;
    while j < n
        invariant
            j <= n,
            n == ce.len(),
            ce == candidates.entries(),
            candidates@ == entries_map(ce),
            sorted_by(entry_keys(ce), text_order()),
            forall|k: Seq<char>| #[trigger] candidates@.contains_key(k) <==> found_bins(found@).contains(k),
            forall|k: Seq<char>| #[trigger] candidates@.contains_key(k) ==> sorted_by(texts(candidates@[k]@), text_order())
                && texts(candidates@[k]@).to_set() == repos_of(found@, k),
            forall|k: Seq<char>| #[trigger] unambiguous@.contains_key(k) <==> entry_keys(ce.take(j as int)).contains(k)
                && ordered_texts(repos_of(found@, k)).len() == 1,
            forall|k: Seq<char>| #[trigger] unambiguous@.contains_key(k) ==> unambiguous@[k]@ == ordered_texts(repos_of(found@, k))[0],
            forall|k: Seq<char>| #[trigger] ambiguous@.contains_key(k) <==> entry_keys(ce.take(j as int)).contains(k)
                && ordered_texts(repos_of(found@, k)).len() > 1,
            forall|k: Seq<char>| #[trigger] ambiguous@.contains_key(k) ==> texts(ambiguous@[k]@) == ordered_texts(repos_of(found@, k)),
        decreases n - j,
    {
        let (bin, repos) = candidates.entry_at(j);
        proof {
            crate::textmap::lemma_entries_map_prefix(ce, j as int);
            lemma_entry_in_map(ce, j as int);
            assert(candidates@.contains_key(bin@) && candidates@[bin@] == *repos);
            lemma_ordered_texts_is(texts(repos@), repos_of(found@, bin@));
            assert(entry_keys(ce.take(j + 1)) =~= entry_keys(ce.take(j as int)).push(bin@));
        }
        if repos.len() == 1 {
            unambiguous.insert(bin.clone(), repos[0].clone());
        } else if repos.len() > 1 {
            ambiguous.insert(bin.clone(), copy_texts(repos));
        }
        proof {
            let a = entry_keys(ce.take(j as int));
            let b = entry_keys(ce.take(j + 1));
            assert forall|k: Seq<char>| b.contains(k) <==> (a.contains(k) || k == bin@) by {
                if b.contains(k) {
                    let m = choose|m: int| 0 <= m < b.len() && b[m] == k;
                    if m < a.len() {
                        assert(a[m] == k);
                    }
                }
                if a.contains(k) {
                    let m = choose|m: int| 0 <= m < a.len() && a[m] == k;
                    assert(b[m] == k);
                }
                if k == bin@ {
                    assert(b[j as int] == k);
                }
            }
            assert(ordered_texts(repos_of(found@, bin@)).len() == repos@.len());
        }
        j += 1;
    }
    proof {
        assert(ce.take(n as int) =~= ce);
        assert forall|k: Seq<char>| entry_keys(ce).contains(k) <==> found_bins(found@).contains(k) by {
            assert(candidates@.contains_key(k) <==> entry_keys(ce).contains(k));
        }
    }
    DetectResult { found, unambiguous, ambiguous }
}

proof fn lemma_entry_in_map<V>(e: Seq<(String, V)>, i: int)
    requires
        sorted_by(entry_keys(e), text_order()),
        0 <= i < e.len(),
    ensures
        entries_map(e).contains_key(e[i].0@),
        entries_map(e)[e[i].0@] == e[i].1,
{
    crate::textmap::lemma_entries_map_at(e, i);
}

} // verus!

verus! {

use crate::text::{owned, chars_skip, string_from};

/// The position of the last `c` in `s`, or -1.
pub open spec fn last_index_of(s: Seq<char>, c: char) -> int
    decreases s.len(),
{
    if s.len() == 0 {
        -1
    } else if s.last() == c {
        s.len() - 1
    } else {
        last_index_of(s.drop_last(), c)
    }
}

/// `Path::extension` of a file name: what follows its last dot, unless there is no dot or the
/// only dot begins the name.
pub open spec fn file_extension(name: Seq<char>) -> Option<Seq<char>> {
    let i = last_index_of(name, '.');
    if i <= 0 {
        None
    } else {
        Some(name.skip(i + 1))
    }
}

/// Extensions of library files, which are never taken for binaries.
pub open spec fn is_library_extension(ext: Seq<char>) -> bool {
    ext == "so"@ || ext == "dylib"@ || ext == "dll"@ || ext == "rlib"@ || ext == "a"@
}

proof fn lemma_last_index_scan(s: Seq<char>, c: char, j: int)
    requires
        0 <= j <= s.len(),
        forall|k: int| j <= k < s.len() ==> s[k] != c,
        j == 0 || s[j - 1] == c,
    ensures
        last_index_of(s, c) == j - 1,
    decreases s.len() - j,
{
    if j < s.len() {
        assert forall|k: int| j <= k < s.len() - 1 implies s.drop_last()[k] != c by {
            assert(s.drop_last()[k] == s[k]);
        }
        if j > 0 {
            assert(s.drop_last()[j - 1] == s[j - 1]);
        }
        lemma_last_index_scan(s.drop_last(), c, j);
    } else if s.len() > 0 {
        assert(s.last() == c);
    }
}

/// The extension of a file name.
pub fn extension_of(name: &str) -> (r: Option<String>)
    ensures
        opt_text_eq(r, file_extension(name@)),
{
    let v = chars_of(name);
    let mut j: usize = v.len();
    while j > 0 && v[j - 1] != '.'
        invariant
            j <= v.len(),
            v@ == name@,
            forall|k: int| j <= k < v.len() ==> v@[k] != '.',
        decreases j,
    {
        j -= 1;
    }
    proof {
        lemma_last_index_scan(v@, '.', j as int);
    }
    if j <= 1 {
        None
    } else {
        let rest = chars_skip(&v, j);
        Some(string_from(&rest))
    }
}

pub open spec fn opt_text_eq(r: Option<String>, s: Option<Seq<char>>) -> bool {
    crate::text::opt_text(r) == s
}

/// Whether a file name has the extension of a library.
pub fn has_library_extension(file_name: &str) -> (r: bool)
    ensures
        r == match file_extension(file_name@) {
            Some(ext) => is_library_extension(ext),
            None => false,
        },
{
    match extension_of(file_name) {
        Some(ext) => {
            let e = ext.as_str();
            crate::text::text_eq(e, "so") || crate::text::text_eq(e, "dylib") || crate::text::text_eq(e, "dll")
                || crate::text::text_eq(e, "rlib") || crate::text::text_eq(e, "a")
        },
        None => false,
    }
}

/// The binary a directory entry of a target directory is: an executable regular file whose
/// name is not that of a library, named by its file name.
pub fn detect_bin_name(file_name: &str, is_file: bool, executable: bool) -> (r: Option<String>)
    ensures
        opt_text_eq(r, if !is_file || !executable || match file_extension(file_name@) {
            Some(ext) => is_library_extension(ext),
            None => false,
        } {
            None
        } else {
            Some(file_name@)
        }),
{
    if has_library_extension(file_name) {
        return None;
    }
    if !is_file {
        return None;
    }
    if !executable {
        return None;
    }
    Some(owned(file_name))
}

/// The other profile, tried when a detection finds nothing.
pub fn fallback_profile(profile: DevProfile) -> (r: DevProfile)
    ensures
        r != profile,
{
    match profile {
        DevProfile::Debug => DevProfile::Release,
        DevProfile::Release => DevProfile::Debug,
    }
}


/// The file a binary would be in a directory of `PATH`: with `.exe` on Windows.
pub fn path_binary(dir: &str, bin: &str, windows: bool) -> (r: String)
    ensures
        r@ == crate::paths::join(dir@, if windows { bin@ + ".exe"@ } else { bin@ }),
{
    if windows {
        let name = crate::text::concat2(bin, ".exe");
        crate::paths::path_join(dir, name.as_str())
    } else {
        crate::paths::path_join(dir, bin)
    }
}

} // verus!
