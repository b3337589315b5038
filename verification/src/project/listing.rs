//! What a project directory holds, as listed by the caller: provider packs by domain, packs,
//! and tenants with their teams.
use vstd::prelude::*;
use vstd::relations::*;
use crate::dev_detect::{extension_of, file_extension};
use crate::order::{lex_lt, or_equal, pair_lt, text_order, lemma_text_order_strict_total, lemma_lex_strict_total, lemma_pair_strict_total, Ranked, rank_of, views, sort_ranked, lemma_sorted_same_elements_equal, lemma_or_equal_total};
use crate::paths::{join, path_join};
use crate::text::{sort_texts, sorted_texts, text_eq, texts};
use crate::textmap::TextMap;
use crate::wizard::{texts_lt, texts_precede};

verus! {

/// An entry of a directory listing.
#[derive(Clone, Debug)]
pub struct DirEntryInfo {
    pub name: String,
    pub is_dir: bool,
    pub is_file: bool,
}

/// An entry of the providers directory, with the listing of its contents (empty when it is no
/// directory).
#[derive(Clone, Debug)]
pub struct ProviderDir {
    pub entry: DirEntryInfo,
    pub files: Vec<DirEntryInfo>,
}

/// An entry of the tenants directory, with the listing of its `teams` directory (empty when
/// there is none).
#[derive(Clone, Debug)]
pub struct TenantDir {
    pub entry: DirEntryInfo,
    pub teams: Vec<DirEntryInfo>,
}

/// A file with the `gtpack` extension.
pub open spec fn is_gtpack(e: DirEntryInfo) -> bool {
    e.is_file && file_extension(e.name@) == Some("gtpack"@)
}

/// The paths, under `base`, of the gtpack files of a listing, in listing order.
pub open spec fn gtpack_paths(base: Seq<char>, files: Seq<DirEntryInfo>) -> Seq<Seq<char>>
    decreases files.len(),
{
    if files.len() == 0 {
        Seq::empty()
    } else {
        let r = gtpack_paths(base, files.drop_last());
        if is_gtpack(files.last()) {
            r.push(join(base, files.last().name@))
        } else {
            r
        }
    }
}

/// The names of the directories of a listing, in listing order.
pub open spec fn dir_names(entries: Seq<DirEntryInfo>) -> Seq<Seq<char>>
    decreases entries.len(),
{
    if entries.len() == 0 {
        Seq::empty()
    } else {
        let r = dir_names(entries.drop_last());
        if entries.last().is_dir {
            r.push(entries.last().name@)
        } else {
            r
        }
    }
}

/// The provider packs by domain: each directory of the providers listing maps to the sorted
/// paths, under `base` joined with the domain, of its gtpack files.
pub open spec fn provider_map(base: Seq<char>, dirs: Seq<ProviderDir>) -> Map<Seq<char>, Seq<Seq<char>>>
    decreases dirs.len(),
{
    if dirs.len() == 0 {
        Map::empty()
    } else {
        let m = provider_map(base, dirs.drop_last());
        let d = dirs.last();
        if d.entry.is_dir {
            m.insert(d.entry.name@, sorted_texts(gtpack_paths(join(base, d.entry.name@), d.files@)))
        } else {
            m
        }
    }
}

/// A map of string lists, by the characters of its values.
pub open spec fn map_texts(m: Map<Seq<char>, Vec<String>>) -> Map<Seq<char>, Seq<Seq<char>>> {
    Map::new(|k: Seq<char>| m.contains_key(k), |k: Seq<char>| texts(m[k]@))
}

/// Whether a listing entry is a gtpack file.
pub fn entry_is_gtpack(e: &DirEntryInfo) -> (r: bool)
    ensures
        r == is_gtpack(*e),
{
    if !e.is_file {
        return false;
    }
    match extension_of(e.name.as_str()) {
        Some(ext) => text_eq(ext.as_str(), "gtpack"),
        None => false,
    }
}

/// The gtpack paths of a listing (see `gtpack_paths`).
pub fn gtpack_list(base: &str, files: &Vec<DirEntryInfo>) -> (r: Vec<String>)
    ensures
        texts(r@) == gtpack_paths(base@, files@),
{
    let mut out: Vec<String> = Vec::new();
    let mut i: usize = 0;
    while i < files.len()
        invariant
            i <= files@.len(),
            texts(out@) == gtpack_paths(base@, files@.take(i as int)),
        decreases files@.len() - i,
    {
        proof {
            assert(files@.take(i + 1).drop_last() =~= files@.take(i as int));
        }
        if entry_is_gtpack(&files[i]) {
            let ghost before = out@;
            out.push(path_join(base, files[i].name.as_str()));
            proof {
                assert(texts(out@) =~= texts(before).push(join(base@, files@[i as int].name@)));
            }
        }
        i += 1;
    }
    proof {
        assert(files@.take(i as int) =~= files@);
    }
    out
}

/// The directory names of a listing (see `dir_names`).
pub fn dir_name_list(entries: &Vec<DirEntryInfo>) -> (r: Vec<String>)
    ensures
        texts(r@) == dir_names(entries@),
{
    let mut out: Vec<String> = Vec::new();
    let mut i: usize = 0;
    while i < entries.len()
        invariant
            i <= entries@.len(),
            texts(out@) == dir_names(entries@.take(i as int)),
        decreases entries@.len() - i,
    {
        proof {
            assert(entries@.take(i + 1).drop_last() =~= entries@.take(i as int));
        }
        if entries[i].is_dir {
            let ghost before = out@;
            out.push(entries[i].name.clone());
            proof {
                assert(texts(out@) =~= texts(before).push(entries@[i as int].name@));
            }
        }
        i += 1;
    }
    proof {
        assert(entries@.take(i as int) =~= entries@);
    }
    out
}

/// The provider packs by domain (see `provider_map`).
pub fn provider_packs(base: &str, dirs: &Vec<ProviderDir>) -> (r: TextMap<Vec<String>>)
    ensures
        map_texts(r@) == provider_map(base@, dirs@),
{
    let mut map: TextMap<Vec<String>> = TextMap::new();
    let mut i: usize = 0;
    proof {
        assert(map_texts(map@) =~= Map::<Seq<char>, Seq<Seq<char>>>::empty());
        assert(dirs@.take(0) =~= Seq::<ProviderDir>::empty());
    }
    while i < dirs.len()
        invariant
            i <= dirs@.len(),
            map_texts(map@) == provider_map(base@, dirs@.take(i as int)),
        decreases dirs@.len() - i,
    {
        proof {
            assert(dirs@.take(i + 1).drop_last() =~= dirs@.take(i as int));
        }
        let d = &dirs[i];
        if d.entry.is_dir {
            let prefix = path_join(base, d.entry.name.as_str());
            let packs = sort_texts(gtpack_list(prefix.as_str(), &d.files));
            let ghost before = map@;
            let ghost v = texts(packs@);
            map.insert(d.entry.name.clone(), packs);
            proof {
                assert(map_texts(map@) =~= map_texts(before).insert(d.entry.name@, v));
            }
        }
        i += 1;
    }
    proof {
        assert(dirs@.take(i as int) =~= dirs@);
    }
    map
}

/// A tenant and its teams.
#[derive(Clone, Debug)]
pub struct TenantEntry {
    pub name: String,
    pub teams: Vec<String>,
}

impl View for TenantEntry {
    type V = (Seq<char>, Seq<Seq<char>>);

    open spec fn view(&self) -> (Seq<char>, Seq<Seq<char>>) {
        (self.name@, texts(self.teams@))
    }
}

/// The order of tenant entries: by name, then by teams.
pub open spec fn tenant_entry_order() -> spec_fn((Seq<char>, Seq<Seq<char>>), (Seq<char>, Seq<Seq<char>>)) -> bool {
    pair_lt(text_order(), |a: Seq<Seq<char>>, b: Seq<Seq<char>>| texts_lt(a, b))
}

pub proof fn lemma_tenant_entry_order_strict_total()
    ensures
        strict_total_ordering(tenant_entry_order()),
{
    lemma_text_order_strict_total();
    lemma_lex_strict_total(text_order());
    assert((|a: Seq<Seq<char>>, b: Seq<Seq<char>>| texts_lt(a, b)) =~= (|a: Seq<Seq<char>>, b: Seq<Seq<char>>| lex_lt(a, b, text_order())));
    lemma_pair_strict_total(text_order(), |a: Seq<Seq<char>>, b: Seq<Seq<char>>| texts_lt(a, b));
}

impl Ranked for TenantEntry {
    open spec fn rank_lt(a: (Seq<char>, Seq<Seq<char>>), b: (Seq<char>, Seq<Seq<char>>)) -> bool {
        tenant_entry_order()(a, b)
    }

    proof fn lemma_rank_total() {
        lemma_tenant_entry_order_strict_total();
        assert((|a: (Seq<char>, Seq<Seq<char>>), b: (Seq<char>, Seq<Seq<char>>)| Self::rank_lt(a, b)) =~= tenant_entry_order());
    }

    fn ranks_before(&self, other: &Self) -> (r: bool) {
        proof {
            lemma_text_order_strict_total();
        }
        let a = crate::text::chars_of(self.name.as_str());
        let b = crate::text::chars_of(other.name.as_str());
        if text_eq(self.name.as_str(), other.name.as_str()) {
            texts_precede(&self.teams, &other.teams)
        } else {
            crate::order::chars_precede(&a, &b)
        }
    }
}

/// The tenants of a listing, in listing order: each directory with the sorted names of the
/// directories in its `teams` listing.
pub open spec fn tenant_listing(dirs: Seq<TenantDir>) -> Seq<(Seq<char>, Seq<Seq<char>>)>
    decreases dirs.len(),
{
    if dirs.len() == 0 {
        Seq::empty()
    } else {
        let r = tenant_listing(dirs.drop_last());
        let d = dirs.last();
        if d.entry.is_dir {
            r.push((d.entry.name@, sorted_texts(dir_names(d.teams@))))
        } else {
            r
        }
    }
}

/// The tenants sorted by name (then teams).
pub open spec fn sorted_tenants(dirs: Seq<TenantDir>) -> Seq<(Seq<char>, Seq<Seq<char>>)> {
    tenant_listing(dirs).sort_by(or_equal(tenant_entry_order()))
}

/// The tenants of a listing, sorted (see `sorted_tenants`).
pub fn tenant_entries(dirs: &Vec<TenantDir>) -> (r: Vec<TenantEntry>)
    ensures
        views(r@) == sorted_tenants(dirs@),
{
    let mut out: Vec<TenantEntry> = Vec::new();
    let mut i: usize = 0;
    while i < dirs.len()
        invariant
            i <= dirs@.len(),
            views(out@) == tenant_listing(dirs@.take(i as int)),
        decreases dirs@.len() - i,
    {
        proof {
            assert(dirs@.take(i + 1).drop_last() =~= dirs@.take(i as int));
        }
        let d = &dirs[i];
        if d.entry.is_dir {
            let teams = sort_texts(dir_name_list(&d.teams));
            let e = TenantEntry { name: d.entry.name.clone(), teams };
            let ghost before = out@;
            out.push(e);
            proof {
                assert(views(out@) =~= views(before).push(e@));
            }
        }
        i += 1;
    }
    proof {
        assert(dirs@.take(i as int) =~= dirs@);
    }
    let ghost listed = views(out@);
    let sorted = sort_ranked(out);
    proof {
        lemma_tenant_entry_order_strict_total();
        lemma_or_equal_total(tenant_entry_order());
        assert(rank_of::<TenantEntry>() =~= tenant_entry_order());
        listed.lemma_sort_by_ensures(or_equal(tenant_entry_order()));
        lemma_sorted_same_elements_equal(views(sorted@), listed.sort_by(or_equal(tenant_entry_order())), tenant_entry_order());
    }
    sorted
}

} // verus!
