use greentic_operator_core::provider_registry::{
    cache_index_path, cache_path_for_digest, cache_path_for_ref, choose_registry_layer, digest_path_for_ref,
    map_remote_registry_ref, parse_local_registry_ref, registry_digest, registry_slug, resolve_catalog_path,
    CatalogAction, CatalogError, CatalogFacts,
};
use greentic_operator_core::textmap::TextMap;

fn facts() -> CatalogFacts {
    CatalogFacts { local_exists: None, cached_exists: None, digest_cached: None, fetched: None }
}

#[test]
fn catalog_file_wins_and_blank_ref_means_none() {
    match resolve_catalog_path(Some("/c.json".to_string()), Some("oci://x"), false, "/b", &facts()) {
        CatalogAction::Finish(Ok(Some(p))) => assert_eq!(p, "/c.json"),
        other => panic!("unexpected {other:?}"),
    }
    match resolve_catalog_path(None, Some("   "), false, "/b", &facts()) {
        CatalogAction::Finish(Ok(None)) => {}
        other => panic!("unexpected {other:?}"),
    }
}

#[test]
fn local_file_ref_resolves() {
    let mut f = facts();
    match resolve_catalog_path(None, Some("file:///tmp/registry.json"), false, "/b", &f) {
        CatalogAction::ProbeLocal(p) => assert_eq!(p, "/tmp/registry.json"),
        other => panic!("unexpected {other:?}"),
    }
    f.local_exists = Some(true);
    match resolve_catalog_path(None, Some("file:///tmp/registry.json"), false, "/b", &f) {
        CatalogAction::Finish(Ok(Some(p))) => assert_eq!(p, "/tmp/registry.json"),
        other => panic!("unexpected {other:?}"),
    }
    f.local_exists = Some(false);
    match resolve_catalog_path(None, Some("./registry.json"), false, "/b", &f) {
        CatalogAction::Finish(Err(e)) => {
            assert_eq!(e.message(), "provider registry path ./registry.json does not exist")
        }
        other => panic!("unexpected {other:?}"),
    }
}

#[test]
fn remote_ref_uses_cache() {
    let reference = "oci://ghcr.io/greentic/providers:latest";
    let mut f = facts();
    let cached = match resolve_catalog_path(None, Some(reference), false, "/b", &f) {
        CatalogAction::ProbeCached(p) => p,
        other => panic!("unexpected {other:?}"),
    };
    assert_eq!(cached, "/b/.greentic/cache/provider-registry/oci-ghcr-io-greentic-providers-latest.json");
    f.cached_exists = Some(true);
    match resolve_catalog_path(None, Some(reference), true, "/b", &f) {
        CatalogAction::Finish(Ok(Some(p))) => assert_eq!(p, cached),
        other => panic!("unexpected {other:?}"),
    }
}

#[test]
fn offline_uses_digest_index_when_ref_cache_missing() {
    let reference = "oci://ghcr.io/greentic/providers:latest";
    let mut f = facts();
    f.cached_exists = Some(false);
    assert!(matches!(resolve_catalog_path(None, Some(reference), true, "/b", &f), CatalogAction::LookupDigest));
    let mut index = TextMap::new();
    index.insert(reference.to_string(), "sha256:abc".to_string());
    let digest_path = digest_path_for_ref("/b", &index, reference).unwrap();
    assert_eq!(digest_path, "/b/.greentic/cache/provider-registry/by-digest/sha256-abc.json");
    f.digest_cached = Some(Ok(Some(digest_path.clone())));
    match resolve_catalog_path(None, Some(reference), true, "/b", &f) {
        CatalogAction::Finish(Ok(Some(p))) => assert_eq!(p, digest_path),
        other => panic!("unexpected {other:?}"),
    }
    f.digest_cached = Some(Ok(None));
    match resolve_catalog_path(None, Some(reference), true, "/b", &f) {
        CatalogAction::Finish(Err(e)) => {
            assert!(matches!(e, CatalogError::Offline));
            assert!(e.message().starts_with("Provider registry unavailable"));
        }
        other => panic!("unexpected {other:?}"),
    }
}

#[test]
fn online_fetches_and_reports_failures() {
    let reference = "oci://ghcr.io/x/y:1";
    let mut f = facts();
    f.cached_exists = Some(false);
    f.digest_cached = Some(Ok(None));
    match resolve_catalog_path(None, Some(reference), false, "/b", &f) {
        CatalogAction::Fetch(r) => assert_eq!(r, reference),
        other => panic!("unexpected {other:?}"),
    }
    f.fetched = Some(Err("timeout".to_string()));
    match resolve_catalog_path(None, Some(reference), false, "/b", &f) {
        CatalogAction::Finish(Err(e)) => assert_eq!(
            e.message(),
            "provider registry oci://ghcr.io/x/y:1 unavailable and no cached copy found at /b/.greentic/cache/provider-registry/oci-ghcr-io-x-y-1.json (cause: timeout). Use --provider-registry file://<path> or local path."
        ),
        other => panic!("unexpected {other:?}"),
    }
    f.digest_cached = Some(Err("parse provider registry cache index".to_string()));
    match resolve_catalog_path(None, Some(reference), false, "/b", &f) {
        CatalogAction::Finish(Err(CatalogError::IndexUnreadable(m))) => assert!(m.contains("cache index")),
        other => panic!("unexpected {other:?}"),
    }
}

#[test]
fn registry_references_and_cache_paths() {
    assert_eq!(parse_local_registry_ref("file://  /x.json "), Some("/x.json".to_string()));
    assert_eq!(parse_local_registry_ref("file://   "), None);
    assert_eq!(parse_local_registry_ref("https://x"), None);
    assert_eq!(parse_local_registry_ref("rel/path.json"), Some("rel/path.json".to_string()));
    assert_eq!(map_remote_registry_ref(" oci://reg/x:1 ").unwrap(), "reg/x:1");
    assert_eq!(map_remote_registry_ref("reg/x:1").unwrap(), "reg/x:1");
    let err = map_remote_registry_ref("https://reg/x").unwrap_err();
    assert_eq!(
        err.message(),
        "unsupported provider registry scheme for https://reg/x; expected oci://, file://, or local path"
    );
    assert_eq!(registry_slug("--!!--"), "registry");
    assert_eq!(registry_slug("A..B"), "a-b");
    assert_eq!(cache_path_for_ref("b", "X"), "b/.greentic/cache/provider-registry/x.json");
    assert_eq!(cache_path_for_digest("b", ""), "b/.greentic/cache/provider-registry/by-digest/registry.json");
    assert_eq!(cache_index_path("b"), "b/.greentic/cache/provider-registry/index.json");
}

#[test]
fn registry_layer_and_digest() {
    let media = vec!["application/vnd.oci.image.config.v1+json".to_string(), "application/json".to_string()];
    assert_eq!(choose_registry_layer(&media), Some(1));
    assert_eq!(choose_registry_layer(&vec!["text/plain".to_string()]), Some(0));
    assert_eq!(choose_registry_layer(&vec![]), None);
    assert_eq!(registry_digest(None, "abc"), "sha256:abc");
    assert_eq!(registry_digest(Some("sha256:def".to_string()), "abc"), "sha256:def");
}
