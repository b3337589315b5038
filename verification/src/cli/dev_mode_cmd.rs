//! The `dev` commands: turning dev mode on and off, detecting binaries, and editing the repo map.
//! Each command computes the new settings and what it reports; reading the disk, saving the
//! settings and printing are left to the caller.
use vstd::prelude::*;
use crate::dev_detect::{DetectResult, FoundBinary, MergeSummary, merge_outcome, merge_repo_map};
use crate::dev_mode::{DevProfile, profile_dir, profile_dir_name};
use crate::order::{ranked_set, rank_of, views, Ranked};
use crate::paths::{join, path_join};
use crate::settings::{DevSettingsGlobal, OperatorSettings};
use crate::text::{chars_of, concat2, concat3, concat4, concat5, decimal, decimal_string, owned, texts};
use crate::textmap::TextMap;

verus! {

/// Arguments of `dev on`.
#[derive(Debug)]
pub struct DevModeOnArgs {
    pub root: String,
    pub profile: DevProfile,
    pub target_dir: Option<String>,
    pub no_detect: bool,
    pub detect_all: bool,
}

/// Arguments of `dev off`.
#[derive(Debug)]
pub struct DevModeOffArgs {}

/// Arguments of `dev status`.
#[derive(Debug)]
pub struct DevModeStatusArgs {}

/// Arguments of `dev detect`.
#[derive(Debug)]
pub struct DevModeDetectArgs {
    pub root: String,
    pub profile: DevProfile,
    pub dry_run: bool,
    pub detect_all: bool,
}

/// `dev map` and its subcommand.
#[derive(Debug)]
pub struct DevModeMapCommand {
    pub command: DevModeMapSubcommand,
}

/// The subcommands of `dev map`.
#[derive(Debug)]
pub enum DevModeMapSubcommand {
    SetEntry(DevModeMapSetArgs),
    Rm(DevModeMapRmArgs),
    Ls(DevModeMapListArgs),
}

/// Arguments of `dev map set`.
#[derive(Debug)]
pub struct DevModeMapSetArgs {
    pub binary: String,
    pub repo: String,
}

/// Arguments of `dev map rm`.
#[derive(Debug)]
pub struct DevModeMapRmArgs {
    pub binary: String,
}

/// Arguments of `dev map ls`.
#[derive(Debug)]
pub struct DevModeMapListArgs {}

/// Why a dev command was refused.
#[derive(Clone, Debug)]
pub enum DevCommandError {
    /// The dev root given does not exist.
    MissingRoot(String),
}

impl DevCommandError {
    /// The message shown for the error.
    pub fn message(&self) -> (r: String)
        ensures
            r@ == match self {
                DevCommandError::MissingRoot(root) => "dev root does not exist: "@ + root@,
            },
    {
        match self {
            DevCommandError::MissingRoot(root) => concat2("dev root does not exist: ", root.as_str()),
        }
    }
}

/// `b` is `a` with only the repo map replaced by `m`.
pub open spec fn with_repo_map(a: DevSettingsGlobal, b: DevSettingsGlobal, m: Map<Seq<char>, String>) -> bool {
    &&& b.enabled == a.enabled
    &&& b.root == a.root
    &&& b.profile == a.profile
    &&& b.target_dir == a.target_dir
    &&& b.repo_map@ == m
}

impl DevModeOnArgs {
    /// Enables dev mode with this root, profile and target directory. Unless detection is
    /// turned off, the detected binaries are merged into the repo map. Refused when the root
    /// does not exist.
    pub fn run(self, settings: OperatorSettings, root_exists: bool, detection: &DetectResult) -> (r: Result<
        (OperatorSettings, Option<MergeSummary>),
        DevCommandError,
    >)
        ensures
            !root_exists ==> r == Err::<(OperatorSettings, Option<MergeSummary>), DevCommandError>(
                DevCommandError::MissingRoot(self.root),
            ),
            root_exists ==> r is Ok && {
                let out = r->Ok_0;
                &&& out.0.dev.enabled
                &&& out.0.dev.root == Some(self.root)
                &&& out.0.dev.profile == self.profile
                &&& out.0.dev.target_dir == self.target_dir
                &&& self.no_detect ==> out.1 is None && out.0.dev.repo_map@ == settings.dev.repo_map@
                &&& !self.no_detect ==> out.1 is Some && merge_outcome(
                    settings.dev.repo_map@,
                    out.0.dev.repo_map@,
                    *detection,
                    out.1->Some_0,
                )
            },
    {
        if !root_exists {
            return Err(DevCommandError::MissingRoot(self.root));
        }
        let mut dev = settings.dev;
        dev.enabled = true;
        dev.root = Some(self.root);
        dev.profile = self.profile;
        dev.target_dir = self.target_dir;
        let mut summary: Option<MergeSummary> = None;
        if !self.no_detect {
            let mut repo_map = TextMap::new();
            std::mem::swap(&mut repo_map, &mut dev.repo_map);
            let s = merge_repo_map(&mut repo_map, detection, self.detect_all);
            dev.repo_map = repo_map;
            summary = Some(s);
        }
        Ok((OperatorSettings { dev }, summary))
    }
}

impl DevModeOffArgs {
    /// Disables dev mode and keeps everything else.
    pub fn run(self, settings: OperatorSettings) -> (r: OperatorSettings)
        ensures
            !r.dev.enabled,
            r.dev.root == settings.dev.root,
            r.dev.profile == settings.dev.profile,
            r.dev.target_dir == settings.dev.target_dir,
            r.dev.repo_map@ == settings.dev.repo_map@,
    {
        let mut dev = settings.dev;
        dev.enabled = false;
        OperatorSettings { dev }
    }
}

/// The profile to detect with again when a detection found nothing: the other one.
pub fn retry_profile(profile: DevProfile, first: &DetectResult) -> (r: Option<DevProfile>)
    ensures
        first.found@.len() > 0 ==> r is None,
        first.found@.len() == 0 ==> r is Some && r->Some_0 != profile,
{
    if first.found.len() > 0 {
        None
    } else {
        Some(crate::dev_detect::fallback_profile(profile))
    }
}

/// The repositories in which binaries were found.
pub open spec fn found_repos(found: Seq<FoundBinary>) -> Set<Seq<char>> {
    found.map_values(|f: FoundBinary| f.repo@).to_set()
}

/// How many binaries a detection found, and in how many distinct repositories.
pub fn detect_counts(result: &DetectResult) -> (r: (usize, usize))
    ensures
        r.0 == result.found@.len(),
        r.1 == found_repos(result.found@).len(),
{
    let mut repos: Vec<String> = Vec::new();
    let mut i: usize = 0;
    while i < result.found.len()
        invariant
            i <= result.found@.len(),
            views(repos@) == result.found@.take(i as int).map_values(|f: FoundBinary| f.repo@),
        decreases result.found@.len() - i,
    {
        let ghost before = repos@;
        repos.push(result.found[i].repo.clone());
        proof {
            assert(result.found@.take(i + 1) =~= result.found@.take(i as int).push(result.found@[i as int]));
            assert(views(repos@) =~= views(before).push(result.found@[i as int].repo@));
        }
        i += 1;
    }
    proof {
        assert(result.found@.take(i as int) =~= result.found@);
    }
    let distinct = ranked_set(repos);
    proof {
        <String as Ranked>::lemma_rank_total();
        let s = views(distinct@);
        assert(s.no_duplicates()) by {
            assert forall|a: int, b: int| 0 <= a < s.len() && 0 <= b < s.len() && a != b implies s[a] != s[b] by {
                if a < b {
                    assert((rank_of::<String>())(s[a], s[b]));
                } else {
                    assert((rank_of::<String>())(s[b], s[a]));
                }
            }
        }
        s.unique_seq_to_set();
    }
    (result.found.len(), distinct.len())
}

/// The text `Display` gives a `bool`.
pub open spec fn bool_text(b: bool) -> Seq<char> {
    if b { "true"@ } else { "false"@ }
}

/// A path, or `unset` when there is none.
pub open spec fn or_unset(p: Option<String>) -> Seq<char> {
    match p {
        Some(p) => p@,
        None => "unset"@,
    }
}

/// The lines `dev status` prints before the repo map entries.
pub open spec fn status_header(d: DevSettingsGlobal) -> Seq<Seq<char>> {
    let head = seq![
        "enabled: "@ + bool_text(d.enabled),
        "root: "@ + or_unset(d.root),
        "profile: "@ + profile_dir_name(d.profile),
        "target_dir: "@ + or_unset(d.target_dir),
        "repo_map entries: "@ + decimal(d.repo_map@.dom().len()),
    ];
    if d.repo_map@.dom().len() == 0 {
        head
    } else {
        head.push("repo_map:"@)
    }
}

/// Whether `s` ends with `suffix`.
pub open spec fn ends_with(s: Seq<char>, suffix: Seq<char>) -> bool {
    s.len() >= suffix.len() && s.skip(s.len() - suffix.len()) == suffix
}

/// The file name of a binary: on Windows it ends with `.exe`.
pub open spec fn binary_file_name(binary: Seq<char>, windows: bool) -> Seq<char> {
    if windows && !ends_with(binary, ".exe"@) {
        binary + ".exe"@
    } else {
        binary
    }
}

/// Where dev mode finds a binary of a repository: under the target directory, or the
/// repository's own `target`, in the profile's directory. None when no root is set.
pub open spec fn repo_binary_path(d: DevSettingsGlobal, repo: Seq<char>, binary: Seq<char>, windows: bool) -> Option<
    Seq<char>,
> {
    match d.root {
        None => None,
        Some(root) => {
            let target = match d.target_dir {
                Some(t) => t@,
                None => join(join(root@, repo), "target"@),
            };
            Some(join(join(target, profile_dir_name(d.profile)), binary_file_name(binary, windows)))
        },
    }
}

fn text_ends_with(s: &str, suffix: &str) -> (r: bool)
    ensures
        r == ends_with(s@, suffix@),
{
    let a = chars_of(s);
    let b = chars_of(suffix);
    if a.len() < b.len() {
        return false;
    }
    let off = a.len() - b.len();
    let mut i: usize = 0;
    while i < b.len()
        invariant
            a@ == s@,
            b@ == suffix@,
            off == a.len() - b.len(),
            i <= b.len(),
            forall|k: int| 0 <= k < i ==> a@[off + k] == b@[k],
        decreases b.len() - i,
    {
        if a[off + i] != b[i] {
            proof {
                assert(s@.skip(off as int)[i as int] != suffix@[i as int]);
            }
            return false;
        }
        i += 1;
    }
    proof {
        assert(s@.skip(off as int) =~= suffix@);
    }
    true
}

/// The file name of a binary (see `binary_file_name`).
pub fn binary_name(binary: &str, windows: bool) -> (r: String)
    ensures
        r@ == binary_file_name(binary@, windows),
{
    proof {
        reveal_strlit(".exe");
    }
    if windows && !text_ends_with(binary, ".exe") {
        concat2(binary, ".exe")
    } else {
        owned(binary)
    }
}

/// Where dev mode finds `binary` of `repo` (see `repo_binary_path`).
pub fn resolve_repo_binary(settings: &OperatorSettings, repo: &str, binary: &str, windows: bool) -> (r: Option<String>)
    ensures
        crate::text::opt_text(r) == repo_binary_path(settings.dev, repo@, binary@, windows),
{
    match &settings.dev.root {
        None => None,
        Some(root) => {
            let target = match &settings.dev.target_dir {
                Some(t) => t.clone(),
                None => {
                    let repo_dir = path_join(root.as_str(), repo);
                    path_join(repo_dir.as_str(), "target")
                },
            };
            let dir = path_join(target.as_str(), profile_dir(settings.dev.profile));
            let name = binary_name(binary, windows);
            Some(path_join(dir.as_str(), name.as_str()))
        },
    }
}

/// The line `dev status` prints for one repo map entry: where its binary is and whether it
/// exists there, or that no root is set.
pub open spec fn status_entry(binary: Seq<char>, repo: Seq<char>, path: Option<Seq<char>>, exists: bool) -> Seq<char> {
    "  "@ + binary + " -> "@ + repo + match path {
        Some(p) => " ("@ + (if exists { "ok"@ } else { "missing"@ }) + " "@ + p + ")"@,
        None => " (root unset)"@,
    }
}

/// Everything `dev status` prints, given for each repo map entry (in binary order) whether its
/// binary exists.
pub open spec fn status_lines(d: DevSettingsGlobal, exists: Seq<bool>, windows: bool) -> Seq<Seq<char>> {
    let e = d.repo_map.entries();
    status_header(d) + Seq::new(
        e.len(),
        |i: int| status_entry(e[i].0@, e[i].1@, repo_binary_path(d, e[i].1@, e[i].0@, windows), exists[i]),
    )
}

fn status_entry_line(binary: &str, repo: &str, path: &Option<String>, exists: bool) -> (r: String)
    ensures
        r@ == status_entry(binary@, repo@, crate::text::opt_text(*path), exists),
{
    let head = concat4("  ", binary, " -> ", repo);
    match path {
        Some(p) => {
            let status = if exists { "ok" } else { "missing" };
            let tail = concat5(" (", status, " ", p.as_str(), ")");
            concat2(head.as_str(), tail.as_str())
        },
        None => concat2(head.as_str(), " (root unset)"),
    }
}

fn bool_string(b: bool) -> (r: &'static str)
    ensures
        r@ == bool_text(b),
{
    if b { "true" } else { "false" }
}

fn or_unset_string(p: &Option<String>) -> (r: String)
    ensures
        r@ == or_unset(*p),
{
    match p {
        Some(p) => p.clone(),
        None => owned("unset"),
    }
}

impl DevModeStatusArgs {
    /// The lines of `dev status`. `exists` tells, for each repo map entry in binary order,
    /// whether the binary it resolves to exists.
    pub fn run(self, settings: &OperatorSettings, exists: &Vec<bool>, windows: bool) -> (r: Vec<String>)
        requires
            exists@.len() == settings.dev.repo_map.entries().len(),
        ensures
            texts(r@) == status_lines(settings.dev, exists@, windows),
    {
        let d = &settings.dev;
        let n = d.repo_map.len();
        let mut lines: Vec<String> = Vec::new();
        lines.push(concat2("enabled: ", bool_string(d.enabled)));
        let root = or_unset_string(&d.root);
        lines.push(concat2("root: ", root.as_str()));
        lines.push(concat2("profile: ", profile_dir(d.profile)));
        let target = or_unset_string(&d.target_dir);
        lines.push(concat2("target_dir: ", target.as_str()));
        let count = decimal_string(n);
        lines.push(concat2("repo_map entries: ", count.as_str()));
        if n > 0 {
            lines.push(owned("repo_map:"));
        }
        let ghost header = texts(lines@);
        proof {
            assert(header =~= status_header(settings.dev));
        }
        let ghost e = d.repo_map.entries();
        let mut i: usize = 0;
        while i < n
            invariant
                i <= n,
                n == e.len(),
                e == settings.dev.repo_map.entries(),
                exists@.len() == n,
                header == status_header(settings.dev),
                texts(lines@) == header + Seq::new(
                    i as nat,
                    |k: int| status_entry(e[k].0@, e[k].1@, repo_binary_path(settings.dev, e[k].1@, e[k].0@, windows), exists@[k]),
                ),
            decreases n - i,
        {
            let (binary, repo) = settings.dev.repo_map.entry_at(i);
            let path = resolve_repo_binary(settings, repo.as_str(), binary.as_str(), windows);
            let line = status_entry_line(binary.as_str(), repo.as_str(), &path, exists[i]);
            let ghost before = lines@;
            lines.push(line);
            proof {
                assert(texts(lines@) =~= texts(before).push(line@));
                assert(texts(lines@) =~= header + Seq::new(
                    (i + 1) as nat,
                    |k: int| status_entry(e[k].0@, e[k].1@, repo_binary_path(settings.dev, e[k].1@, e[k].0@, windows), exists@[k]),
                ));
            }
            i += 1;
        }
        lines
    }
}

/// The lines of `dev map ls`: one `binary -> repo` per entry in binary order, or a note that
/// the map is empty.
pub open spec fn list_lines(e: Seq<(String, String)>) -> Seq<Seq<char>> {
    if e.len() == 0 {
        seq!["repo_map: (empty)"@]
    } else {
        e.map_values(|p: (String, String)| p.0@ + " -> "@ + p.1@)
    }
}

impl DevModeMapListArgs {
    /// The lines of `dev map ls`.
    pub fn run(self, settings: &OperatorSettings) -> (r: Vec<String>)
        ensures
            texts(r@) == list_lines(settings.dev.repo_map.entries()),
    {
        let n = settings.dev.repo_map.len();
        let ghost e = settings.dev.repo_map.entries();
        let mut lines: Vec<String> = Vec::new();
        if n == 0 {
            lines.push(owned("repo_map: (empty)"));
            proof {
                assert(texts(lines@) =~= seq!["repo_map: (empty)"@]);
            }
            return lines;
        }
        let mut i: usize = 0;
        while i < n
            invariant
                i <= n,
                n == e.len(),
                e == settings.dev.repo_map.entries(),
                texts(lines@) == e.take(i as int).map_values(|p: (String, String)| p.0@ + " -> "@ + p.1@),
            decreases n - i,
        {
            let (binary, repo) = settings.dev.repo_map.entry_at(i);
            let line = concat3(binary.as_str(), " -> ", repo.as_str());
            let ghost before = lines@;
            lines.push(line);
            proof {
                assert(e.take(i + 1) =~= e.take(i as int).push(e[i as int]));
                assert(texts(lines@) =~= texts(before).push(line@));
                assert(texts(lines@) =~= e.take(i + 1).map_values(|p: (String, String)| p.0@ + " -> "@ + p.1@));
            }
            i += 1;
        }
        proof {
            assert(e.take(n as int) =~= e);
        }
        lines
    }
}

impl DevModeMapSetArgs {
    /// Maps the binary to the repository, replacing any earlier mapping.
    pub fn run(self, settings: OperatorSettings) -> (r: OperatorSettings)
        ensures
            with_repo_map(settings.dev, r.dev, settings.dev.repo_map@.insert(self.binary@, self.repo)),
    {
        let mut dev = settings.dev;
        let mut repo_map = TextMap::new();
        std::mem::swap(&mut repo_map, &mut dev.repo_map);
        repo_map.insert(self.binary, self.repo);
        dev.repo_map = repo_map;
        OperatorSettings { dev }
    }
}

impl DevModeMapRmArgs {
    /// Removes the binary's mapping, if there is one.
    pub fn run(self, settings: OperatorSettings) -> (r: OperatorSettings)
        ensures
            with_repo_map(settings.dev, r.dev, settings.dev.repo_map@.remove(self.binary@)),
    {
        let mut dev = settings.dev;
        let mut repo_map = TextMap::new();
        std::mem::swap(&mut repo_map, &mut dev.repo_map);
        repo_map.remove(self.binary.as_str());
        dev.repo_map = repo_map;
        OperatorSettings { dev }
    }
}

impl DevModeMapCommand {
    /// Runs the subcommand: the new settings, and the lines it prints.
    pub fn run(self, settings: OperatorSettings) -> (r: (OperatorSettings, Vec<String>))
        ensures
            match self.command {
                DevModeMapSubcommand::SetEntry(args) => with_repo_map(
                    settings.dev,
                    r.0.dev,
                    settings.dev.repo_map@.insert(args.binary@, args.repo),
                ) && r.1@.len() == 0,
                DevModeMapSubcommand::Rm(args) => with_repo_map(
                    settings.dev,
                    r.0.dev,
                    settings.dev.repo_map@.remove(args.binary@),
                ) && r.1@.len() == 0,
                DevModeMapSubcommand::Ls(_) => r.0 == settings && texts(r.1@) == list_lines(
                    settings.dev.repo_map.entries(),
                ),
            },
    {
        match self.command {
            DevModeMapSubcommand::SetEntry(args) => (args.run(settings), Vec::new()),
            DevModeMapSubcommand::Rm(args) => (args.run(settings), Vec::new()),
            DevModeMapSubcommand::Ls(args) => {
                let lines = args.run(&settings);
                (settings, lines)
            },
        }
    }
}

impl DevModeDetectArgs {
    /// Merges a detection into the repo map; with `dry_run` the settings are kept as they are
    /// and only the summary tells what would change. Refused when the root does not exist.
    pub fn run(self, settings: OperatorSettings, root_exists: bool, detection: &DetectResult) -> (r: Result<
        (OperatorSettings, MergeSummary),
        DevCommandError,
    >)
        ensures
            !root_exists ==> r == Err::<(OperatorSettings, MergeSummary), DevCommandError>(
                DevCommandError::MissingRoot(self.root),
            ),
            root_exists ==> r is Ok && {
                let out = r->Ok_0;
                let merged = detection.unambiguous@.union_prefer_right(settings.dev.repo_map@);
                &&& merge_outcome(settings.dev.repo_map@, merged, *detection, out.1)
                &&& with_repo_map(
                    settings.dev,
                    out.0.dev,
                    if self.dry_run { settings.dev.repo_map@ } else { merged },
                )
            },
    {
        if !root_exists {
            return Err(DevCommandError::MissingRoot(self.root));
        }
        let mut repo_map = settings.dev.repo_map.duplicate();
        let summary = merge_repo_map(&mut repo_map, detection, self.detect_all);
        let mut dev = settings.dev;
        if !self.dry_run {
            dev.repo_map = repo_map;
        }
        Ok((OperatorSettings { dev }, summary))
    }
}


/// Removing a binary's mapping undoes setting it: `map rm` after `map set` leaves the repo map
/// as `map rm` alone would.
pub proof fn law_map_rm_undoes_set(m: Map<Seq<char>, String>, binary: Seq<char>, repo: String)
    ensures
        m.insert(binary, repo).remove(binary) == m.remove(binary),
        !m.contains_key(binary) ==> m.insert(binary, repo).remove(binary) == m,
{
    assert(m.insert(binary, repo).remove(binary) =~= m.remove(binary));
    if !m.contains_key(binary) {
        assert(m.remove(binary) =~= m);
    }
}

} // verus!
