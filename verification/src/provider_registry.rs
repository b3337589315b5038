//! Where the provider registry catalog comes from: a file given directly, a local path, or a
//! remote reference cached in the bundle. The lookup is a sequence of decisions between
//! probes of the file system and a fetch, which the caller performs.
use vstd::prelude::*;
use crate::paths::{join, path_join};
use crate::slug::{slug_of, slug_text};
use crate::text::{
    concat2, concat3, concat4, opt_text, owned, contains_text, strip_prefix, text_contains, text_strip_prefix,
    text_trim, trimmed,
};
use crate::textmap::TextMap;

verus! {

/// The registry reference given, trimmed, unless it is blank.
pub open spec fn registry_ref_of(r: Option<Seq<char>>) -> Option<Seq<char>> {
    match r {
        Some(v) => if trimmed(v).len() > 0 {
            Some(trimmed(v))
        } else {
            None
        },
        None => None,
    }
}

/// The local path a registry reference names: what follows `file://` (trimmed, unless blank),
/// or the reference itself when it has no scheme. None for other schemes.
pub open spec fn local_registry_path(reference: Seq<char>) -> Option<Seq<char>> {
    match strip_prefix(reference, "file://"@) {
        Some(rest) => if trimmed(rest).len() > 0 {
            Some(trimmed(rest))
        } else {
            None
        },
        None => if contains_text(reference, "://"@) {
            None
        } else {
            Some(reference)
        },
    }
}

/// The file name of a cache entry: the slug, or `registry` when the slug is empty.
pub open spec fn cache_slug(value: Seq<char>) -> Seq<char> {
    if slug_of(value).len() == 0 {
        "registry"@
    } else {
        slug_of(value)
    }
}

/// The provider registry cache directory of a bundle.
pub open spec fn registry_cache_dir(bundle: Seq<char>) -> Seq<char> {
    join(join(join(bundle, ".greentic"@), "cache"@), "provider-registry"@)
}

/// Where a reference's copy is cached.
pub open spec fn ref_cache_path(bundle: Seq<char>, reference: Seq<char>) -> Seq<char> {
    join(registry_cache_dir(bundle), cache_slug(reference) + ".json"@)
}

/// Where a digest's copy is cached.
pub open spec fn digest_cache_path(bundle: Seq<char>, digest: Seq<char>) -> Seq<char> {
    join(join(registry_cache_dir(bundle), "by-digest"@), cache_slug(digest) + ".json"@)
}

/// The cache index of a bundle.
pub open spec fn cache_index_file(bundle: Seq<char>) -> Seq<char> {
    join(registry_cache_dir(bundle), "index.json"@)
}

/// The registry reference given, trimmed, unless it is blank.
pub fn registry_ref(r: Option<&str>) -> (out: Option<String>)
    ensures
        opt_text(out) == registry_ref_of(match r {
            Some(v) => Some(v@),
            None => None,
        }),
{
    match r {
        Some(v) => {
            let t = text_trim(v);
            if t.as_str().unicode_len() > 0 {
                Some(t)
            } else {
                None
            }
        },
        None => None,
    }
}

/// The local path a registry reference names (see `local_registry_path`).
pub fn parse_local_registry_ref(reference: &str) -> (r: Option<String>)
    ensures
        opt_text(r) == local_registry_path(reference@),
{
    proof {
        reveal_strlit("file://");
    }
    match text_strip_prefix(reference, "file://") {
        Some(rest) => {
            let t = text_trim(rest.as_str());
            if t.as_str().unicode_len() > 0 {
                Some(t)
            } else {
                None
            }
        },
        None => {
            if text_contains(reference, "://") {
                None
            } else {
                Some(owned(reference))
            }
        },
    }
}

/// The file name of a cache entry (see `cache_slug`).
pub fn registry_slug(value: &str) -> (r: String)
    ensures
        r@ == cache_slug(value@),
{
    let s = slug_text(value);
    if s.as_str().unicode_len() == 0 {
        owned("registry")
    } else {
        s
    }
}

fn registry_cache_dir_path(bundle: &str) -> (r: String)
    ensures
        r@ == registry_cache_dir(bundle@),
{
    let a = path_join(bundle, ".greentic");
    let b = path_join(a.as_str(), "cache");
    path_join(b.as_str(), "provider-registry")
}

/// Where a reference's copy is cached.
pub fn cache_path_for_ref(bundle: &str, reference: &str) -> (r: String)
    ensures
        r@ == ref_cache_path(bundle@, reference@),
{
    let dir = registry_cache_dir_path(bundle);
    let slug = registry_slug(reference);
    let name = concat2(slug.as_str(), ".json");
    path_join(dir.as_str(), name.as_str())
}

/// Where a digest's copy is cached.
pub fn cache_path_for_digest(bundle: &str, digest: &str) -> (r: String)
    ensures
        r@ == digest_cache_path(bundle@, digest@),
{
    let dir = registry_cache_dir_path(bundle);
    let by_digest = path_join(dir.as_str(), "by-digest");
    let slug = registry_slug(digest);
    let name = concat2(slug.as_str(), ".json");
    path_join(by_digest.as_str(), name.as_str())
}

/// The cache index of a bundle.
pub fn cache_index_path(bundle: &str) -> (r: String)
    ensures
        r@ == cache_index_file(bundle@),
{
    let dir = registry_cache_dir_path(bundle);
    path_join(dir.as_str(), "index.json")
}

/// The cached copy of a reference by its digest: the digest the index records for it, as a
/// cache path. None when the index does not know the reference.
pub fn digest_path_for_ref(bundle: &str, index: &TextMap<String>, reference: &str) -> (r: Option<String>)
    ensures
        opt_text(r) == if index@.contains_key(reference@) {
            Some(digest_cache_path(bundle@, index@[reference@]@))
        } else {
            None
        },
{
    match index.get(reference) {
        Some(digest) => Some(cache_path_for_digest(bundle, digest.as_str())),
        None => None,
    }
}

/// Why the provider registry could not be found.
#[derive(Clone, Debug)]
pub enum CatalogError {
    /// A local registry path that does not exist.
    MissingLocal(String),
    /// The cache index could not be read; the message says why.
    IndexUnreadable(String),
    /// Offline, and no cached copy.
    Offline,
    /// The fetch failed, and no cached copy.
    Unavailable { reference: String, cached: String, cause: String },
    /// A remote reference with a scheme other than `oci://`.
    UnsupportedScheme(String),
}

/// The message of a catalog error.
pub open spec fn catalog_error_text(e: CatalogError) -> Seq<char> {
    match e {
        CatalogError::MissingLocal(p) => "provider registry path "@ + p@ + " does not exist"@,
        CatalogError::IndexUnreadable(m) => m@,
        CatalogError::Offline => "Provider registry unavailable and no cached copy found. Re-run without --offline or set GTC_PROVIDER_REGISTRY_REF to a local file."@,
        CatalogError::Unavailable { reference, cached, cause } => "provider registry "@ + reference@
            + " unavailable and no cached copy found at "@ + cached@ + " (cause: "@ + cause@
            + "). Use --provider-registry file://<path> or local path."@,
        CatalogError::UnsupportedScheme(r) => "unsupported provider registry scheme for "@ + r@
            + "; expected oci://, file://, or local path"@,
    }
}

impl CatalogError {
    /// The message shown for the error.
    pub fn message(&self) -> (r: String)
        ensures
            r@ == catalog_error_text(*self),
    {
        match self {
            CatalogError::MissingLocal(p) => concat3("provider registry path ", p.as_str(), " does not exist"),
            CatalogError::IndexUnreadable(m) => m.clone(),
            CatalogError::Offline => owned(
                "Provider registry unavailable and no cached copy found. Re-run without --offline or set GTC_PROVIDER_REGISTRY_REF to a local file.",
            ),
            CatalogError::Unavailable { reference, cached, cause } => {
                let a = concat4("provider registry ", reference.as_str(), " unavailable and no cached copy found at ", cached.as_str());
                let b = concat3(" (cause: ", cause.as_str(), "). Use --provider-registry file://<path> or local path.");
                concat2(a.as_str(), b.as_str())
            },
            CatalogError::UnsupportedScheme(r) => concat3(
                "unsupported provider registry scheme for ",
                r.as_str(),
                "; expected oci://, file://, or local path",
            ),
        }
    }
}

/// The OCI reference a remote registry reference is fetched from: the trimmed reference
/// without `oci://`. None when it has another scheme.
pub open spec fn remote_registry_target(reference: Seq<char>) -> Option<Seq<char>> {
    let t = trimmed(reference);
    match strip_prefix(t, "oci://"@) {
        Some(rest) => Some(rest),
        None => if contains_text(t, "://"@) {
            None
        } else {
            Some(t)
        },
    }
}

/// The OCI reference a remote registry reference is fetched from; other schemes than `oci://`
/// are refused.
pub fn map_remote_registry_ref(reference: &str) -> (r: Result<String, CatalogError>)
    ensures
        match remote_registry_target(reference@) {
            Some(t) => r is Ok && r->Ok_0@ == t,
            None => r matches Err(CatalogError::UnsupportedScheme(x)) && x@ == reference@,
        },
{
    proof {
        reveal_strlit("oci://");
    }
    let t = text_trim(reference);
    match text_strip_prefix(t.as_str(), "oci://") {
        Some(rest) => Ok(rest),
        None => {
            if text_contains(t.as_str(), "://") {
                Err(CatalogError::UnsupportedScheme(owned(reference)))
            } else {
                Ok(t)
            }
        },
    }
}

/// What is known so far of the file system and the network while the registry is looked up.
/// Each field is None until the caller has found it out.
#[derive(Debug)]
pub struct CatalogFacts {
    /// Whether the local registry path exists.
    pub local_exists: Option<bool>,
    /// Whether the reference's cached copy exists.
    pub cached_exists: Option<bool>,
    /// The digest-cached copy of the reference, when the index names one that exists; or why
    /// the index could not be read.
    pub digest_cached: Option<Result<Option<String>, String>>,
    /// The path the fetched registry was cached at, or why the fetch failed.
    pub fetched: Option<Result<String, String>>,
}

/// What the caller does next.
#[derive(Debug)]
pub enum CatalogAction {
    /// The lookup is over: the catalog path (none when no registry is configured), or why it
    /// failed.
    Finish(Result<Option<String>, CatalogError>),
    /// Find out whether this local path exists.
    ProbeLocal(String),
    /// Find out whether this cached copy exists.
    ProbeCached(String),
    /// Read the cache index and find out whether the digest-cached copy it names exists.
    LookupDigest,
    /// Fetch the registry and cache it.
    Fetch(String),
}

/// The next step of the lookup, as a view.
pub enum CatalogStep {
    Found(Option<Seq<char>>),
    MissingLocal(Seq<char>),
    IndexUnreadable(Seq<char>),
    Offline,
    Unavailable(Seq<char>, Seq<char>, Seq<char>),
    ProbeLocal(Seq<char>),
    ProbeCached(Seq<char>),
    LookupDigest,
    Fetch(Seq<char>),
}

/// The view of an action.
pub open spec fn action_step(a: CatalogAction) -> CatalogStep {
    match a {
        CatalogAction::Finish(Ok(p)) => CatalogStep::Found(opt_text(p)),
        CatalogAction::Finish(Err(CatalogError::MissingLocal(p))) => CatalogStep::MissingLocal(p@),
        CatalogAction::Finish(Err(CatalogError::IndexUnreadable(m))) => CatalogStep::IndexUnreadable(m@),
        CatalogAction::Finish(Err(CatalogError::Offline)) => CatalogStep::Offline,
        CatalogAction::Finish(Err(CatalogError::Unavailable { reference, cached, cause })) => CatalogStep::Unavailable(
            reference@,
            cached@,
            cause@,
        ),
        CatalogAction::Finish(Err(CatalogError::UnsupportedScheme(r))) => CatalogStep::Unavailable(r@, r@, r@),
        CatalogAction::ProbeLocal(p) => CatalogStep::ProbeLocal(p@),
        CatalogAction::ProbeCached(p) => CatalogStep::ProbeCached(p@),
        CatalogAction::LookupDigest => CatalogStep::LookupDigest,
        CatalogAction::Fetch(r) => CatalogStep::Fetch(r@),
    }
}

/// The lookup: a catalog file given wins; without a registry reference there is no catalog;
/// a local reference must exist; a remote one is taken from its cached copy, else from the
/// copy cached under the digest the index records, else (unless offline) fetched.
pub open spec fn catalog_step(
    catalog_file: Option<Seq<char>>,
    registry: Option<Seq<char>>,
    offline: bool,
    bundle: Seq<char>,
    facts: CatalogFacts,
) -> CatalogStep {
    match catalog_file {
        Some(f) => CatalogStep::Found(Some(f)),
        None => match registry_ref_of(registry) {
            None => CatalogStep::Found(None),
            Some(reference) => match local_registry_path(reference) {
                Some(path) => match facts.local_exists {
                    None => CatalogStep::ProbeLocal(path),
                    Some(true) => CatalogStep::Found(Some(path)),
                    Some(false) => CatalogStep::MissingLocal(path),
                },
                None => {
                    let cached = ref_cache_path(bundle, reference);
                    match facts.cached_exists {
                        None => CatalogStep::ProbeCached(cached),
                        Some(true) => CatalogStep::Found(Some(cached)),
                        Some(false) => match facts.digest_cached {
                            None => CatalogStep::LookupDigest,
                            Some(Err(m)) => CatalogStep::IndexUnreadable(m@),
                            Some(Ok(Some(p))) => CatalogStep::Found(Some(p@)),
                            Some(Ok(None)) => if offline {
                                CatalogStep::Offline
                            } else {
                                match facts.fetched {
                                    None => CatalogStep::Fetch(reference),
                                    Some(Ok(p)) => CatalogStep::Found(Some(p@)),
                                    Some(Err(cause)) => CatalogStep::Unavailable(reference, cached, cause@),
                                }
                            },
                        },
                    }
                },
            },
        },
    }
}

/// The next step of looking up the provider registry catalog, given what is known so far
/// (see `catalog_step`). The caller performs the probe or fetch asked for, records the answer
/// in the facts, and asks again until the lookup finishes.
pub fn resolve_catalog_path(
    catalog_file: Option<String>,
    provider_registry_ref: Option<&str>,
    offline: bool,
    bundle: &str,
    facts: &CatalogFacts,
) -> (r: CatalogAction)
    ensures
        action_step(r) == catalog_step(
            opt_text(catalog_file),
            match provider_registry_ref {
                Some(v) => Some(v@),
                None => None,
            },
            offline,
            bundle@,
            *facts,
        ),
        r matches CatalogAction::Finish(Err(e)) ==> !(e is UnsupportedScheme),
{
    if let Some(path) = catalog_file {
        return CatalogAction::Finish(Ok(Some(path)));
    }
    let reference = match registry_ref(provider_registry_ref) {
        Some(r) => r,
        None => return CatalogAction::Finish(Ok(None)),
    };
    if let Some(path) = parse_local_registry_ref(reference.as_str()) {
        return match facts.local_exists {
            None => CatalogAction::ProbeLocal(path),
            Some(true) => CatalogAction::Finish(Ok(Some(path))),
            Some(false) => CatalogAction::Finish(Err(CatalogError::MissingLocal(path))),
        };
    }
    let cached = cache_path_for_ref(bundle, reference.as_str());
    match facts.cached_exists {
        None => return CatalogAction::ProbeCached(cached),
        Some(true) => return CatalogAction::Finish(Ok(Some(cached))),
        Some(false) => {},
    }
    match &facts.digest_cached {
        None => CatalogAction::LookupDigest,
        Some(Err(m)) => CatalogAction::Finish(Err(CatalogError::IndexUnreadable(m.clone()))),
        Some(Ok(Some(p))) => CatalogAction::Finish(Ok(Some(p.clone()))),
        Some(Ok(None)) => {
            if offline {
                CatalogAction::Finish(Err(CatalogError::Offline))
            } else {
                match &facts.fetched {
                    None => CatalogAction::Fetch(reference),
                    Some(Ok(p)) => CatalogAction::Finish(Ok(Some(p.clone()))),
                    Some(Err(cause)) => CatalogAction::Finish(
                        Err(CatalogError::Unavailable { reference, cached, cause: cause.clone() }),
                    ),
                }
            }
        },
    }
}

/// Offline, the lookup never fetches; and it fetches only after both caches were found
/// missing. A configured catalog file is always taken as it is.
pub proof fn law_offline_never_fetches(
    catalog_file: Option<Seq<char>>,
    registry: Option<Seq<char>>,
    bundle: Seq<char>,
    facts: CatalogFacts,
)
    ensures
        !(catalog_step(catalog_file, registry, true, bundle, facts) is Fetch),
        catalog_step(catalog_file, registry, false, bundle, facts) is Fetch ==> facts.cached_exists == Some(false)
            && facts.digest_cached == Some(Ok::<Option<String>, String>(None)),
        catalog_file is Some ==> catalog_step(catalog_file, registry, false, bundle, facts) == CatalogStep::Found(catalog_file),
{
}

/// The files a fetched registry is cached in: the digest's copy and the reference's copy; the
/// index then records the digest for the reference.
pub fn registry_cache_files(bundle: &str, reference: &str, digest: &str) -> (r: (String, String))
    ensures
        r.0@ == digest_cache_path(bundle@, digest@),
        r.1@ == ref_cache_path(bundle@, reference@),
{
    (cache_path_for_digest(bundle, digest), cache_path_for_ref(bundle, reference))
}


/// Media types of the layer that holds a registry, in the order they are looked for together.
pub open spec fn registry_media(m: Seq<char>) -> bool {
    m == "application/json"@ || m == "application/octet-stream"@ || m == "application/vnd.greentic.pack+json"@
}

/// The layer a registry image is read from, given the media types of its layers.
pub fn choose_registry_layer(media_types: &Vec<String>) -> (r: Option<usize>)
    ensures
        match r {
            Some(i) => i < media_types@.len() && ((registry_media(media_types@[i as int]@) && (forall|k: int| 0 <= k < i ==> !registry_media(#[trigger] media_types@[k]@)))
                || (i == 0 && (forall|k: int| 0 <= k < media_types@.len() ==> !registry_media(#[trigger] media_types@[k]@)))),
            None => media_types@.len() == 0,
        },
{
    let mut i: usize = 0;
    while i < media_types.len()
        invariant
            i <= media_types@.len(),
            forall|k: int| 0 <= k < i ==> !registry_media(#[trigger] media_types@[k]@),
        decreases media_types@.len() - i,
    {
        let m = media_types[i].as_str();
        if crate::text::text_eq(m, "application/json") || crate::text::text_eq(m, "application/octet-stream")
            || crate::text::text_eq(m, "application/vnd.greentic.pack+json") {
            return Some(i);
        }
        i += 1;
    }
    if media_types.len() > 0 {
        Some(0)
    } else {
        None
    }
}

/// The digest a fetched registry is cached under: the image's, else the layer's SHA-256.
pub fn registry_digest(image_digest: Option<String>, layer_sha256: &str) -> (r: String)
    ensures
        r@ == match image_digest {
            Some(d) => d@,
            None => "sha256:"@ + layer_sha256@,
        },
{
    match image_digest {
        Some(d) => d,
        None => concat2("sha256:", layer_sha256),
    }
}

} // verus!
