//! The scan report of a project directory and its text rendering.
use vstd::prelude::*;
use vstd::relations::*;
use crate::order::{or_equal, pair_lt, text_order, lemma_text_order_strict_total, lemma_pair_strict_total, Ranked, rank_of, views, sort_ranked, lemma_sorted_same_elements_equal, lemma_or_equal_total, chars_precede};
use crate::project::listing::{
    DirEntryInfo, ProviderDir, TenantDir, entry_is_gtpack, is_gtpack, map_texts, provider_map,
    provider_packs, sorted_tenants, tenant_entries,
};
use crate::text::{chars_of, concat2, concat3, owned, text_eq, texts};
use crate::textmap::TextMap;

pub use crate::project::listing::TenantEntry;

verus! {

/// How a scan report is printed.
#[derive(Clone, Copy, Debug, PartialEq, Eq, Structural)]
pub enum ScanFormat {
    Text,
    Json,
    Yaml,
}

/// What a pack entry is.
#[derive(Clone, Copy, Debug, PartialEq, Eq, Structural)]
pub enum PackKind {
    Dir,
    Gtpack,
}

/// The name of a pack kind.
pub open spec fn kind_label(k: PackKind) -> Seq<char> {
    match k {
        PackKind::Dir => "dir"@,
        PackKind::Gtpack => "gtpack"@,
    }
}

impl PackKind {
    /// The name of the kind.
    pub fn label(&self) -> (r: &'static str)
        ensures
            r@ == kind_label(*self),
    {
        match self {
            PackKind::Dir => "dir",
            PackKind::Gtpack => "gtpack",
        }
    }
}

/// A pack of the project: a directory or a gtpack file, by its path under `packs`.
#[derive(Clone, Debug)]
pub struct PackEntry {
    pub kind: PackKind,
    pub path: String,
}

impl View for PackEntry {
    type V = (Seq<char>, PackKind);

    open spec fn view(&self) -> (Seq<char>, PackKind) {
        (self.path@, self.kind)
    }
}

/// Directories come before gtpack files of the same path.
pub open spec fn kind_lt(a: PackKind, b: PackKind) -> bool {
    a == PackKind::Dir && b == PackKind::Gtpack
}

/// The order of pack entries: by path (then kind).
pub open spec fn pack_entry_order() -> spec_fn((Seq<char>, PackKind), (Seq<char>, PackKind)) -> bool {
    pair_lt(text_order(), |a: PackKind, b: PackKind| kind_lt(a, b))
}

proof fn lemma_pack_entry_order_strict_total()
    ensures
        strict_total_ordering(pack_entry_order()),
{
    lemma_text_order_strict_total();
    let k = |a: PackKind, b: PackKind| kind_lt(a, b);
    assert(strict_total_ordering(k)) by {
        assert forall|x: PackKind, y: PackKind| x != y implies #[trigger] k(x, y) || #[trigger] k(y, x) by {
            match x {
                PackKind::Dir => { assert(y == PackKind::Gtpack); },
                PackKind::Gtpack => { assert(y == PackKind::Dir); },
            }
        }
    }
    lemma_pair_strict_total(text_order(), k);
}

impl Ranked for PackEntry {
    open spec fn rank_lt(a: (Seq<char>, PackKind), b: (Seq<char>, PackKind)) -> bool {
        pack_entry_order()(a, b)
    }

    proof fn lemma_rank_total() {
        lemma_pack_entry_order_strict_total();
        assert((|a: (Seq<char>, PackKind), b: (Seq<char>, PackKind)| Self::rank_lt(a, b)) =~= pack_entry_order());
    }

    fn ranks_before(&self, other: &Self) -> (r: bool) {
        proof {
            lemma_text_order_strict_total();
        }
        if text_eq(self.path.as_str(), other.path.as_str()) {
            self.kind == PackKind::Dir && other.kind == PackKind::Gtpack
        } else {
            let a = chars_of(self.path.as_str());
            let b = chars_of(other.path.as_str());
            chars_precede(&a, &b)
        }
    }
}

/// The packs of a listing, in listing order: directories, and gtpack files.
pub open spec fn pack_listing(entries: Seq<DirEntryInfo>) -> Seq<(Seq<char>, PackKind)>
    decreases entries.len(),
{
    if entries.len() == 0 {
        Seq::empty()
    } else {
        let r = pack_listing(entries.drop_last());
        let e = entries.last();
        if e.is_dir {
            r.push((e.name@, PackKind::Dir))
        } else if is_gtpack(e) {
            r.push((e.name@, PackKind::Gtpack))
        } else {
            r
        }
    }
}

/// The packs of a listing sorted by path.
pub open spec fn sorted_packs(entries: Seq<DirEntryInfo>) -> Seq<(Seq<char>, PackKind)> {
    pack_listing(entries).sort_by(or_equal(pack_entry_order()))
}

fn pack_entries(entries: &Vec<DirEntryInfo>) -> (r: Vec<PackEntry>)
    ensures
        views(r@) == sorted_packs(entries@),
{
    let mut out: Vec<PackEntry> = Vec::new();
    let mut i: usize = 0;
    while i < entries.len()
        invariant
            i <= entries@.len(),
            views(out@) == pack_listing(entries@.take(i as int)),
        decreases entries@.len() - i,
    {
        proof {
            assert(entries@.take(i + 1).drop_last() =~= entries@.take(i as int));
        }
        let e = &entries[i];
        let ghost before = out@;
        if e.is_dir {
            let p = PackEntry { kind: PackKind::Dir, path: e.name.clone() };
            out.push(p);
            proof {
                assert(views(out@) =~= views(before).push(p@));
            }
        } else if entry_is_gtpack(e) {
            let p = PackEntry { kind: PackKind::Gtpack, path: e.name.clone() };
            out.push(p);
            proof {
                assert(views(out@) =~= views(before).push(p@));
            }
        }
        i += 1;
    }
    proof {
        assert(entries@.take(i as int) =~= entries@);
    }
    let ghost listed = views(out@);
    let sorted = sort_ranked(out);
    proof {
        lemma_pack_entry_order_strict_total();
        lemma_or_equal_total(pack_entry_order());
        assert(rank_of::<PackEntry>() =~= pack_entry_order());
        listed.lemma_sort_by_ensures(or_equal(pack_entry_order()));
        lemma_sorted_same_elements_equal(views(sorted@), listed.sort_by(or_equal(pack_entry_order())), pack_entry_order());
    }
    sorted
}

/// What a project directory holds.
#[derive(Debug)]
pub struct ScanReport {
    pub providers: TextMap<Vec<String>>,
    pub packs: Vec<PackEntry>,
    pub tenants: Vec<TenantEntry>,
}

/// Scans a project from the listings of its `providers`, `packs` and `tenants` directories
/// (each empty when the directory is missing). Provider packs are given by their path under
/// `providers`, packs by their name; every list is sorted.
pub fn scan(providers: &Vec<ProviderDir>, packs: &Vec<DirEntryInfo>, tenants: &Vec<TenantDir>) -> (r: ScanReport)
    ensures
        map_texts(r.providers@) == provider_map(""@, providers@),
        views(r.packs@) == sorted_packs(packs@),
        views(r.tenants@) == sorted_tenants(tenants@),
{
    proof {
        reveal_strlit("");
    }
    ScanReport {
        providers: provider_packs("", providers),
        packs: pack_entries(packs),
        tenants: tenant_entries(tenants),
    }
}

/// The lines of a section: its title, then its items or `(none)`.
pub open spec fn section(title: Seq<char>, items: Seq<Seq<char>>) -> Seq<Seq<char>> {
    if items.len() == 0 {
        seq![title, "  (none)"@]
    } else {
        seq![title] + items
    }
}

/// Prefixing a line with `prefix`.
pub open spec fn prefixed(prefix: Seq<char>) -> spec_fn(Seq<char>) -> Seq<char> {
    |p: Seq<char>| prefix + p
}

/// The line of a pack entry.
pub open spec fn pack_line() -> spec_fn((Seq<char>, PackKind)) -> Seq<char> {
    |p: (Seq<char>, PackKind)| "  "@ + kind_label(p.1) + " "@ + p.0
}

/// The lines of one provider domain.
pub open spec fn domain_lines(domain: Seq<char>, packs: Seq<Seq<char>>) -> Seq<Seq<char>> {
    if packs.len() == 0 {
        seq!["  "@ + domain + ":"@, "    (none)"@]
    } else {
        seq!["  "@ + domain + ":"@] + packs.map_values(prefixed("    "@))
    }
}

/// The lines of one tenant.
pub open spec fn tenant_lines(t: (Seq<char>, Seq<Seq<char>>)) -> Seq<Seq<char>> {
    if t.1.len() == 0 {
        seq!["  "@ + t.0]
    } else {
        seq!["  "@ + t.0 + ":"@] + t.1.map_values(prefixed("    "@))
    }
}

/// The lines of the provider domains, in domain order.
pub open spec fn providers_text(e: Seq<(String, Vec<String>)>) -> Seq<Seq<char>>
    decreases e.len(),
{
    if e.len() == 0 {
        Seq::empty()
    } else {
        providers_text(e.drop_last()) + domain_lines(e.last().0@, texts(e.last().1@))
    }
}

/// The lines of the tenants.
pub open spec fn tenants_text(t: Seq<(Seq<char>, Seq<Seq<char>>)>) -> Seq<Seq<char>>
    decreases t.len(),
{
    if t.len() == 0 {
        Seq::empty()
    } else {
        tenants_text(t.drop_last()) + tenant_lines(t.last())
    }
}

/// What the text rendering of a report prints, line by line.
pub open spec fn report_text(r: ScanReport) -> Seq<Seq<char>> {
    section("Providers:"@, providers_text(r.providers.entries())) + seq![""@]
        + section("Packs:"@, views(r.packs@).map_values(pack_line()))
        + seq![""@] + section("Tenants:"@, tenants_text(views(r.tenants@)))
}

fn push_section(out: &mut Vec<String>, title: &str, items: Vec<String>)
    ensures
        texts(final(out)@) == texts(old(out)@) + section(title@, texts(items@)),
{
    let ghost start = texts(out@);
    out.push(owned(title));
    if items.len() == 0 {
        out.push(owned("  (none)"));
        proof {
            assert(texts(out@) =~= start + section(title@, texts(items@)));
        }
        return;
    }
    let mut i: usize = 0;
    while i < items.len()
        invariant
            i <= items@.len(),
            items@.len() > 0,
            texts(out@) == start + seq![title@] + texts(items@).take(i as int),
        decreases items@.len() - i,
    {
        let ghost before = out@;
        out.push(items[i].clone());
        proof {
            assert(texts(items@).take(i + 1) =~= texts(items@).take(i as int).push(items@[i as int]@));
            assert(texts(out@) =~= texts(before).push(items@[i as int]@));
        }
        i += 1;
    }
    proof {
        assert(texts(items@).take(i as int) =~= texts(items@));
        assert(texts(out@) =~= start + section(title@, texts(items@)));
    }
}

fn indented(prefix: &str, items: &Vec<String>) -> (r: Vec<String>)
    ensures
        texts(r@) == texts(items@).map_values(prefixed(prefix@)),
{
    let mut out: Vec<String> = Vec::new();
    let mut i: usize = 0;
    while i < items.len()
        invariant
            i <= items@.len(),
            texts(out@) == texts(items@).take(i as int).map_values(prefixed(prefix@)),
        decreases items@.len() - i,
    {
        let ghost before = out@;
        out.push(concat2(prefix, items[i].as_str()));
        proof {
            assert(texts(items@).take(i + 1) =~= texts(items@).take(i as int).push(items@[i as int]@));
            assert(texts(out@) =~= texts(before).push(prefix@ + items@[i as int]@));
        }
        i += 1;
    }
    proof {
        assert(texts(items@).take(i as int) =~= texts(items@));
    }
    out
}

fn append_all(out: &mut Vec<String>, more: Vec<String>)
    ensures
        texts(final(out)@) == texts(old(out)@) + texts(more@),
{
    let ghost start = texts(out@);
    let mut i: usize = 0;
    while i < more.len()
        invariant
            i <= more@.len(),
            texts(out@) == start + texts(more@).take(i as int),
        decreases more@.len() - i,
    {
        let ghost before = out@;
        out.push(more[i].clone());
        proof {
            assert(texts(more@).take(i + 1) =~= texts(more@).take(i as int).push(more@[i as int]@));
            assert(texts(out@) =~= texts(before).push(more@[i as int]@));
        }
        i += 1;
    }
    proof {
        assert(texts(more@).take(i as int) =~= texts(more@));
    }
}

/// The text rendering of a report, line by line (see `report_text`).
pub fn report_lines(report: &ScanReport) -> (r: Vec<String>)
    ensures
        texts(r@) == report_text(*report),
{
    let mut out: Vec<String> = Vec::new();
    // providers
    let mut domains: Vec<String> = Vec::new();
    let n = report.providers.len();
    let ghost e = report.providers.entries();
    let mut i: usize = 0;
    proof {
        assert(e.take(0) =~= Seq::<(String, Vec<String>)>::empty());
    }
    while i < n
        invariant
            i <= n,
            n == e.len(),
            e == report.providers.entries(),
            texts(domains@) == providers_text(e.take(i as int)),
        decreases n - i,
    {
        let (domain, packs) = report.providers.entry_at(i);
        let ghost before = texts(domains@);
        let head = concat3("  ", domain.as_str(), ":");
        if packs.len() == 0 {
            domains.push(head);
            domains.push(owned("    (none)"));
        } else {
            domains.push(head);
            let lines = indented("    ", packs);
            append_all(&mut domains, lines);
        }
        proof {
            assert(e.take(i + 1).drop_last() =~= e.take(i as int));
            assert(texts(domains@) =~= before + domain_lines(domain@, texts(packs@)));
        }
        i += 1;
    }
    proof {
        assert(e.take(n as int) =~= e);
    }
    push_section(&mut out, "Providers:", domains);
    out.push(owned(""));
    let ghost part1 = texts(out@);
    proof {
        assert(part1 =~= section("Providers:"@, providers_text(e)) + seq![""@]);
    }
    // packs
    let mut pack_lines: Vec<String> = Vec::new();
    let mut j: usize = 0;
    while j < report.packs.len()
        invariant
            j <= report.packs@.len(),
            texts(pack_lines@) == views(report.packs@).take(j as int).map_values(pack_line()),
        decreases report.packs@.len() - j,
    {
        let p = &report.packs[j];
        let ghost before = pack_lines@;
        pack_lines.push(crate::text::concat4("  ", p.kind.label(), " ", p.path.as_str()));
        proof {
            assert(views(report.packs@).take(j + 1) =~= views(report.packs@).take(j as int).push(p@));
            assert(texts(pack_lines@) =~= texts(before).push("  "@ + kind_label(p.kind) + " "@ + p.path@));
        }
        j += 1;
    }
    proof {
        assert(views(report.packs@).take(j as int) =~= views(report.packs@));
    }
    push_section(&mut out, "Packs:", pack_lines);
    out.push(owned(""));
    let ghost part2 = texts(out@);
    proof {
        assert(part2 =~= part1 + section("Packs:"@, views(report.packs@).map_values(pack_line())) + seq![""@]);
    }
    // tenants
    let mut tenant_text: Vec<String> = Vec::new();
    let mut k: usize = 0;
    let ghost tv = views(report.tenants@);
    proof {
        assert(tv.take(0) =~= Seq::<(Seq<char>, Seq<Seq<char>>)>::empty());
    }
    while k < report.tenants.len()
        invariant
            k <= report.tenants@.len(),
            tv == views(report.tenants@),
            texts(tenant_text@) == tenants_text(tv.take(k as int)),
        decreases report.tenants@.len() - k,
    {
        let t = &report.tenants[k];
        let ghost before = texts(tenant_text@);
        if t.teams.len() == 0 {
            tenant_text.push(concat2("  ", t.name.as_str()));
        } else {
            tenant_text.push(concat3("  ", t.name.as_str(), ":"));
            let lines = indented("    ", &t.teams);
            append_all(&mut tenant_text, lines);
        }
        proof {
            assert(tv.take(k + 1).drop_last() =~= tv.take(k as int));
            assert(tv.take(k + 1).last() == t@);
            assert(texts(tenant_text@) =~= before + tenant_lines(t@));
        }
        k += 1;
    }
    proof {
        assert(tv.take(k as int) =~= tv);
    }
    push_section(&mut out, "Tenants:", tenant_text);
    proof {
        assert(texts(out@) =~= report_text(*report));
    }
    out
}

} // verus!
