use greentic_operator_core::dev_detect::{detect_repo_map, merge_repo_map, FoundBinary};
use greentic_operator_core::dev_mode::{effective_dev_settings, merge_settings, DevCliOverrides, DevMode, DevProfile, DevSettings};
use greentic_operator_core::secrets::canonical_secret_name;
use greentic_operator_core::settings::DevSettingsGlobal;
use greentic_operator_core::textmap::TextMap;
use greentic_operator_core::wizard::{apply, TenantSelection, WizardCreateRequest, WizardMode};

fn no_cli() -> DevCliOverrides {
    DevCliOverrides { mode: None, root: None, profile: None, target_dir: None }
}

#[test]
fn disabled_global_settings_resolve_to_none() {
    let mut global = DevSettingsGlobal::default();
    global.root = Some("/ws".to_string());
    let resolved = effective_dev_settings(no_cli(), Some(global.to_dev_settings()), "/cfg").unwrap();
    assert!(resolved.is_none());
    global.enabled = true;
    let resolved = effective_dev_settings(no_cli(), Some(global.to_dev_settings()), "/cfg").unwrap().unwrap();
    assert_eq!(resolved.root, "/ws");
    assert_eq!(resolved.profile, DevProfile::Debug);
    let err = effective_dev_settings(
        DevCliOverrides { mode: Some(DevMode::On), root: None, profile: None, target_dir: None },
        None,
        "/cfg",
    )
    .unwrap_err();
    assert_eq!(err.message(), "dev mode is on but no dev root was provided");
    let relative = effective_dev_settings(
        DevCliOverrides { mode: Some(DevMode::On), root: Some("ws".to_string()), profile: None, target_dir: Some("t".to_string()) },
        None,
        "/cfg",
    )
    .unwrap()
    .unwrap();
    assert_eq!(relative.root, "/cfg/ws");
    assert_eq!(relative.target_dir.as_deref(), Some("/cfg/t"));
}

#[test]
fn merging_a_detection_twice_changes_nothing() {
    let detection = detect_repo_map(vec![
        FoundBinary { bin: "a".to_string(), repo: "r1".to_string(), path: "p".to_string() },
        FoundBinary { bin: "b".to_string(), repo: "r1".to_string(), path: "p".to_string() },
        FoundBinary { bin: "b".to_string(), repo: "r2".to_string(), path: "p".to_string() },
    ]);
    let mut map = TextMap::new();
    map.insert("a".to_string(), "mine".to_string());
    let first = merge_repo_map(&mut map, &detection, false);
    assert_eq!(first.added, 0);
    assert_eq!(first.skipped_mapped, 1);
    assert_eq!(first.ambiguous.get("b").unwrap(), &vec!["r1".to_string(), "r2".to_string()]);
    let snapshot: Vec<(String, String)> = (0..map.len()).map(|i| {
        let (k, v) = map.entry_at(i);
        (k.clone(), v.clone())
    }).collect();
    let second = merge_repo_map(&mut map, &detection, false);
    assert_eq!(second.added, 0);
    let again: Vec<(String, String)> = (0..map.len()).map(|i| {
        let (k, v) = map.entry_at(i);
        (k.clone(), v.clone())
    }).collect();
    assert_eq!(snapshot, again);
    assert_eq!(map.get("a").map(String::as_str), Some("mine"));
}

fn settings(mode: Option<DevMode>, root: Option<&str>) -> DevSettings {
    DevSettings { mode, root: root.map(String::from), profile: None, target_dir: None, repo_map: TextMap::new() }
}

#[test]
fn layered_settings_group_either_way() {
    let a = || Some(settings(None, Some("/a")));
    let b = || Some(settings(Some(DevMode::On), Some("/b")));
    let c = || Some(settings(Some(DevMode::Off), None));
    let left = merge_settings(merge_settings(a(), b()), c()).unwrap();
    let right = merge_settings(a(), merge_settings(b(), c())).unwrap();
    assert_eq!(left.mode, right.mode);
    assert_eq!(left.root, right.root);
    assert_eq!(left.mode, Some(DevMode::On));
    assert_eq!(left.root.as_deref(), Some("/a"));
    assert!(merge_settings(None, None).is_none());
}

#[test]
fn plan_ignores_request_order_and_repeats() {
    let t1 = TenantSelection { tenant: "b".to_string(), team: None, allow_paths: vec!["y".to_string(), "x".to_string()] };
    let t2 = TenantSelection { tenant: "a".to_string(), team: Some("t".to_string()), allow_paths: vec![] };
    let r1 = WizardCreateRequest {
        bundle: "bundle".to_string(),
        pack_refs: vec!["oci://z".to_string(), "oci://a".to_string(), "oci://z".to_string()],
        tenants: vec![t1.clone(), t2.clone()],
    };
    let r2 = WizardCreateRequest {
        bundle: "bundle".to_string(),
        pack_refs: vec![" oci://a ".to_string(), "oci://z".to_string()],
        tenants: vec![t2, t1],
    };
    for mode in [WizardMode::Create, WizardMode::Update, WizardMode::Remove] {
        let p1 = apply(mode, &r1, true).unwrap();
        let p2 = apply(mode, &r2, true).unwrap();
        assert_eq!(p1.metadata.pack_refs, p2.metadata.pack_refs);
        assert_eq!(p1.steps.len(), p2.steps.len());
        for (s1, s2) in p1.steps.iter().zip(p2.steps.iter()) {
            assert_eq!(s1.description, s2.description);
            assert_eq!(s1.details, s2.details);
        }
        let names1: Vec<&str> = p1.metadata.tenants.iter().map(|t| t.tenant.as_str()).collect();
        let names2: Vec<&str> = p2.metadata.tenants.iter().map(|t| t.tenant.as_str()).collect();
        assert_eq!(names1, names2);
    }
}

#[test]
fn canonical_secret_names_are_fixed_points() {
    for raw in ["TELEGRAM_BOT_TOKEN", "a--b..c", "__x__", "", "Ünïcode-Key"] {
        let once = canonical_secret_name(raw);
        assert_eq!(canonical_secret_name(&once), once);
    }
    assert_eq!(canonical_secret_name("Ünïcode-Key"), "ncode_key");
}

#[test]
fn plan_ignores_permuted_allow_paths() {
    let r1 = WizardCreateRequest {
        bundle: "b".to_string(),
        pack_refs: vec!["p1".to_string(), "p2".to_string()],
        tenants: vec![
            TenantSelection { tenant: "demo".to_string(), team: None, allow_paths: vec!["x".to_string(), "y".to_string(), "x".to_string()] },
            TenantSelection { tenant: "acme".to_string(), team: Some("ops".to_string()), allow_paths: vec!["q".to_string()] },
        ],
    };
    let r2 = WizardCreateRequest {
        bundle: "b".to_string(),
        pack_refs: vec!["p2".to_string(), "p1".to_string()],
        tenants: vec![
            TenantSelection { tenant: "acme".to_string(), team: Some("ops".to_string()), allow_paths: vec!["q".to_string()] },
            TenantSelection { tenant: "demo".to_string(), team: None, allow_paths: vec!["x".to_string(), "x".to_string(), "y".to_string()] },
        ],
    };
    for mode in [WizardMode::Create, WizardMode::Update, WizardMode::Remove] {
        let p1 = apply(mode, &r1, false).unwrap();
        let p2 = apply(mode, &r2, false).unwrap();
        assert_eq!(p1.metadata.pack_refs, p2.metadata.pack_refs);
        assert_eq!(p1.steps.len(), p2.steps.len());
        for (t1, t2) in p1.metadata.tenants.iter().zip(p2.metadata.tenants.iter()) {
            assert_eq!(t1.tenant, t2.tenant);
            assert_eq!(t1.team, t2.team);
            assert_eq!(t1.allow_paths, t2.allow_paths);
        }
        assert_eq!(p1.metadata.tenants[1].allow_paths, vec!["x".to_string(), "y".to_string()]);
    }
    let empty1 = WizardCreateRequest { bundle: "b".to_string(), pack_refs: vec!["p1".to_string()], tenants: vec![] };
    let empty2 = WizardCreateRequest { bundle: "b".to_string(), pack_refs: vec!["p1".to_string()], tenants: vec![] };
    assert!(apply(WizardMode::Create, &empty1, false).is_err());
    assert!(apply(WizardMode::Create, &empty2, false).is_err());
}
