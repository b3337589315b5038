use greentic_operator_core::json::Json;
use greentic_operator_core::secrets::{canonical_secret_name, canonical_secret_uri, canonical_team_segment};
use greentic_operator_core::wizard::{
    apply, deterministic_pack_file_name, execute_plan, map_pack_reference, map_registry_target, spec, BundleProbe,
    Policy, TenantSelection, WizardCreateRequest, WizardError, WizardMode, WizardStepKind,
};
use greentic_operator_core::wizard_executor::{execute, resolved_pack_info};
use greentic_operator_core::wizard_plan_builder::build_plan;
use greentic_operator_core::wizard_spec_builder::{build_spec, build_validation_form, build_validation_form_with_providers};

fn request(bundle: &str) -> WizardCreateRequest {
    WizardCreateRequest {
        bundle: bundle.to_string(),
        pack_refs: vec![" repo://b@1 ".to_string(), "".to_string(), "oci://a@1".to_string()],
        tenants: vec![TenantSelection { tenant: "demo".to_string(), team: None, allow_paths: vec!["p".to_string()] }],
    }
}

#[test]
fn plan_requires_a_tenant() {
    let mut req = request("b");
    req.tenants.clear();
    let err = build_plan(WizardMode::Create, &req, true).unwrap_err();
    assert!(matches!(err, WizardError::NoTenantSelection));
    assert_eq!(err.message(), "at least one tenant selection is required");
}

#[test]
fn plan_steps_per_mode() {
    let req = request("bundle");
    let create = build_plan(WizardMode::Create, &req, false).unwrap();
    assert_eq!(create.mode, "create");
    assert_eq!(create.metadata.pack_refs, vec!["oci://a@1".to_string(), "repo://b@1".to_string()]);
    assert_eq!(create.steps[0].kind, WizardStepKind::ResolvePacks);
    assert_eq!(create.steps[1].kind, WizardStepKind::CreateBundle);
    let update = apply(WizardMode::Update, &req, true).unwrap();
    assert_eq!(update.mode, "update");
    let remove = apply(WizardMode::Remove, &req, true).unwrap();
    assert_eq!(remove.mode, "remove");
    assert!(remove.metadata.pack_refs.is_empty());
    assert_eq!(build_spec(WizardMode::Update).mode, "update");
    assert_eq!(spec(WizardMode::Create).questions.len(), 4);
}

#[test]
fn execution_refusals_and_work() {
    let req = request("bundle");
    let plan = apply(WizardMode::Create, &req, false).unwrap();
    let err = execute(WizardMode::Create, &plan, BundleProbe { exists: true, has_demo_config: false }).unwrap_err();
    assert_eq!(err.message(), "bundle path bundle already exists");
    let work = execute_plan(WizardMode::Create, &plan, BundleProbe { exists: false, has_demo_config: false }).unwrap();
    assert_eq!(work.directories.len(), 21);
    assert_eq!(work.directories[1], "bundle/providers");
    assert_eq!(work.seed_files[0].0, "bundle/greentic.demo.yaml");
    assert_eq!(work.policy, Policy::Public);
    let err = execute(WizardMode::Update, &plan, BundleProbe { exists: true, has_demo_config: true }).unwrap_err();
    assert_eq!(err.message(), "unsupported wizard mode: create");
    let remove = apply(WizardMode::Remove, &req, false).unwrap();
    let err = execute(WizardMode::Remove, &remove, BundleProbe { exists: false, has_demo_config: false }).unwrap_err();
    assert_eq!(err.message(), "bundle path bundle does not exist");
    let err = execute(WizardMode::Remove, &remove, BundleProbe { exists: true, has_demo_config: false }).unwrap_err();
    assert_eq!(err.message(), "bundle bundle missing greentic.demo.yaml");
    let work = execute(WizardMode::Remove, &remove, BundleProbe { exists: true, has_demo_config: true }).unwrap();
    assert_eq!(work.policy, Policy::Forbidden);
    assert!(work.directories.is_empty());
}

#[test]
fn pack_references_map_to_oci() {
    assert_eq!(map_pack_reference(" oci://ghcr.io/x@1 ", None, None).unwrap(), "ghcr.io/x@1");
    assert_eq!(
        map_pack_reference("repo://messaging/providers/slack@latest", None, None).unwrap(),
        "messaging/providers/slack@latest"
    );
    assert_eq!(
        map_pack_reference("repo://slack", Some("ghcr.io/greentic/".to_string()), None).unwrap(),
        "ghcr.io/greentic/slack"
    );
    assert_eq!(
        map_pack_reference("store://slack", None, None).unwrap_err(),
        "store:// reference store://slack requires GREENTIC_STORE_REGISTRY_BASE to map to OCI"
    );
    assert_eq!(map_registry_target("/x", Some("base//".to_string())).as_deref(), Some("base/x"));
    assert_eq!(
        deterministic_pack_file_name("repo://messaging/providers/messaging-telegram@latest", "sha256:0123456789abcdef"),
        "repo-messaging-providers-messaging-teleg-0123456789ab.gtpack"
    );
    let info = resolved_pack_info("oci://x@1", "x@1".to_string(), "sha256:abc".to_string(), "x".to_string(), vec![], "/cache/x".to_string());
    assert_eq!(info.output_path, "packs/oci-x-1-abc.gtpack");
}

#[test]
fn validation_forms_by_mode() {
    match build_validation_form(WizardMode::Create) {
        Json::Object(fields) => {
            assert!(matches!(&fields[0].1, Json::Str(id) if id == "operator.wizard.create"));
            match &fields[4].1 {
                Json::Array(questions) => assert_eq!(questions.len(), 9),
                _ => panic!("questions"),
            }
            match &fields[5].1 {
                Json::Array(rules) => assert_eq!(rules.len(), 1),
                _ => panic!("validations"),
            }
        }
        _ => panic!("form"),
    }
    match build_validation_form(WizardMode::Remove) {
        Json::Object(fields) => match &fields[4].1 {
            Json::Array(questions) => assert_eq!(questions.len(), 6),
            _ => panic!("questions"),
        },
        _ => panic!("form"),
    }
    let form = build_validation_form_with_providers(WizardMode::Update, &vec!["messaging-slack".to_string()]);
    let rendered = format!("{form:?}");
    assert!(rendered.contains("messaging-slack"));
    assert!(rendered.contains("enum"));
}

#[test]
fn secret_names_are_canonical() {
    assert_eq!(canonical_secret_name("TELEGRAM_BOT_TOKEN"), "telegram_bot_token");
    assert_eq!(canonical_secret_name("--Bot.Token//x__"), "bot_token_x");
    assert_eq!(canonical_secret_name("!!!"), "secret");
    assert_eq!(canonical_team_segment(Some(" Default ")), "_");
    assert_eq!(canonical_team_segment(Some("3point")), "3point");
    assert_eq!(
        canonical_secret_uri("demo", "3point", Some("core"), "messaging-telegram", "TELEGRAM_BOT_TOKEN"),
        "secrets://demo/3point/core/messaging-telegram/telegram_bot_token"
    );
    assert_eq!(
        canonical_secret_uri("demo", "acme", None, "", "key"),
        "secrets://demo/acme/_/messaging/key"
    );
}
