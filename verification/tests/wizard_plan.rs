use greentic_operator_core::wizard::{
    apply_create, apply_remove, apply_update, execute_create_plan, execute_remove_plan,
    execute_update_plan, manifest_copy_paths, resolved_manifest_filename, tenant_rule_writes,
    BundleProbe, Policy, TenantSelection, WizardCreateRequest,
};

#[test]
fn plan_is_deterministic() {
    let req = WizardCreateRequest {
        bundle: "bundle".to_string(),
        pack_refs: vec![
            "repo://zeta/pack@1".to_string(),
            "repo://alpha/pack@1".to_string(),
            "repo://alpha/pack@1".to_string(),
        ],
        tenants: vec![
            TenantSelection {
                tenant: "demo".to_string(),
                team: Some("default".to_string()),
                allow_paths: vec!["pack/b".to_string(), "pack/a".to_string()],
            },
            TenantSelection {
                tenant: "alpha".to_string(),
                team: None,
                allow_paths: vec!["x".to_string()],
            },
        ],
    };
    let plan = apply_create(&req, true).unwrap();
    assert_eq!(
        plan.metadata.pack_refs,
        vec![
            "repo://alpha/pack@1".to_string(),
            "repo://zeta/pack@1".to_string()
        ]
    );
    assert_eq!(plan.metadata.tenants[0].tenant, "alpha");
    assert_eq!(
        plan.metadata.tenants[1].allow_paths,
        vec!["pack/a".to_string(), "pack/b".to_string()]
    );
}

fn demo_request(bundle: &str, team: Option<&str>, allow: &str) -> WizardCreateRequest {
    WizardCreateRequest {
        bundle: bundle.to_string(),
        pack_refs: Vec::new(),
        tenants: vec![TenantSelection {
            tenant: "demo".to_string(),
            team: team.map(|t| t.to_string()),
            allow_paths: vec![allow.to_string()],
        }],
    }
}

#[test]
fn dry_run_does_not_create_files() {
    let bundle = "target/wizard-dry-run/demo-bundle";
    let req = demo_request(bundle, Some("default"), "packs/default");
    let plan = apply_create(&req, true).unwrap();
    assert!(plan.dry_run);
    assert!(!std::path::Path::new(bundle).exists());
}

#[test]
fn execute_creates_bundle_and_resolved_manifest() {
    let bundle = "tmp/demo-bundle";
    let req = demo_request(bundle, Some("default"), "packs/default");
    let plan = apply_create(&req, false).unwrap();
    let work = execute_create_plan(&plan, BundleProbe { exists: false, has_demo_config: false }).unwrap();
    assert_eq!(work.bundle, bundle);
    assert_eq!(work.directories[0], "tmp/demo-bundle/");
    let name = resolved_manifest_filename("demo", Some("default"));
    assert_eq!(name, "demo.default.yaml");
    let (src, dst) = manifest_copy_paths(bundle, &name);
    assert_eq!(src, "tmp/demo-bundle/state/resolved/demo.default.yaml");
    assert_eq!(dst, "tmp/demo-bundle/resolved/demo.default.yaml");
    let rules = tenant_rule_writes(bundle, &work.tenants[0], true, work.policy);
    assert_eq!(rules.manifest, "demo.default.yaml");
}

#[test]
fn update_mode_executes() {
    let bundle = "tmp/demo-bundle";
    let create_plan = apply_create(&demo_request(bundle, None, "packs/default"), false).unwrap();
    let _ = execute_create_plan(&create_plan, BundleProbe { exists: false, has_demo_config: false }).unwrap();
    let plan = apply_update(&demo_request(bundle, None, "packs/new"), false).unwrap();
    assert_eq!(plan.mode, "update");
    let work = execute_update_plan(&plan, BundleProbe { exists: true, has_demo_config: true }).unwrap();
    assert_eq!(work.bundle, bundle);
    assert_eq!(work.tenants[0].allow_paths, vec!["packs/new".to_string()]);
}

#[test]
fn remove_mode_forbids_rule() {
    let bundle = "tmp/demo-bundle";
    let create_plan = apply_create(&demo_request(bundle, None, "packs/default"), false).unwrap();
    let _ = execute_create_plan(&create_plan, BundleProbe { exists: false, has_demo_config: false }).unwrap();
    let remove_plan = apply_remove(&demo_request(bundle, None, "packs/default"), false).unwrap();
    let work = execute_remove_plan(&remove_plan, BundleProbe { exists: true, has_demo_config: true }).unwrap();
    assert_eq!(work.policy, Policy::Forbidden);
    let rules = tenant_rule_writes(bundle, &work.tenants[0], true, work.policy);
    assert_eq!(rules.gmap_path, "tmp/demo-bundle/tenants/demo/teams/default/team.gmap");
    assert_eq!(rules.rules, vec!["packs/default".to_string()]);
    assert_eq!(rules.policy, Policy::Forbidden);
}
