use greentic_operator_core::demo::doctor::{doctor_outcome, doctor_packs, is_gtpack_name, DoctorError};
use greentic_operator_core::operator_i18n::{current_locale, set_locale, tr, LocaleState};
use greentic_operator_core::operator_i18n::{catalog_from_text, env_locale, load_cli, locale_candidates, tr_for_locale, trf};
use greentic_operator_core::project::listing::{DirEntryInfo, ProviderDir, TenantDir};
use greentic_operator_core::project::resolve::resolve;
use greentic_operator_core::project::scan::{report_lines, scan, PackKind};
use greentic_operator_core::textmap::TextMap;

fn dir(name: &str) -> DirEntryInfo {
    DirEntryInfo { name: name.to_string(), is_dir: true, is_file: false }
}

fn file(name: &str) -> DirEntryInfo {
    DirEntryInfo { name: name.to_string(), is_dir: false, is_file: true }
}

#[test]
fn locale_candidates_dedup_and_fall_back_to_english() {
    assert_eq!(
        locale_candidates(" de-DE ", "de"),
        vec!["de-DE.json".to_string(), "de.json".to_string(), "en.json".to_string()]
    );
    assert_eq!(locale_candidates("en", "en"), vec!["en.json".to_string()]);
    assert_eq!(locale_candidates("   ", "x"), vec!["en.json".to_string()]);
}

#[test]
fn env_locale_takes_first_set_variable() {
    assert_eq!(env_locale(None, Some("fr_FR.UTF-8".to_string()), Some("de".to_string())).as_deref(), Some("fr_FR.UTF-8"));
    assert_eq!(env_locale(Some("C".to_string()), None, Some("de".to_string())), None);
    assert_eq!(env_locale(Some(" POSIX ".to_string()), None, None), None);
    assert_eq!(env_locale(None, None, None), None);
}

#[test]
fn translations_fall_back_and_fill_placeholders() {
    let mut catalog = TextMap::new();
    catalog.insert("cli.common.answer_yes_no".to_string(), "bitte mit y oder n antworten".to_string());
    catalog.insert("greet".to_string(), "Hallo {} und {}".to_string());
    let catalog = Some(catalog);
    assert_eq!(tr_for_locale("cli.common.answer_yes_no", "answer y or n", &catalog), "bitte mit y oder n antworten");
    assert_eq!(tr_for_locale("missing", "fallback", &catalog), "fallback");
    assert_eq!(tr_for_locale("greet", "fallback", &None), "fallback");
    assert_eq!(
        trf("greet", "Hi {}", &vec!["Ann".to_string(), "Bo".to_string(), "extra".to_string()], &catalog),
        "Hallo Ann und Bo"
    );
    assert_eq!(trf("x", "{} {} {}", &vec!["a".to_string()], &None), "a {} {}");
}

fn project_listing() -> (Vec<ProviderDir>, Vec<DirEntryInfo>, Vec<TenantDir>) {
    let providers = vec![
        ProviderDir {
            entry: dir("messaging"),
            files: vec![file("slack.gtpack"), file("readme.md"), file("telegram.gtpack"), dir("sub.gtpack")],
        },
        ProviderDir { entry: dir("events"), files: vec![] },
        ProviderDir { entry: file("notes.txt"), files: vec![] },
    ];
    let packs = vec![file("b.gtpack"), dir("a"), file("c.txt")];
    let tenants = vec![
        TenantDir { entry: dir("demo"), teams: vec![dir("default"), dir("alpha"), file("x")] },
        TenantDir { entry: dir("acme"), teams: vec![] },
        TenantDir { entry: file("stray"), teams: vec![] },
    ];
    (providers, packs, tenants)
}

#[test]
fn scan_sorts_and_filters() {
    let (providers, packs, tenants) = project_listing();
    let report = scan(&providers, &packs, &tenants);
    assert_eq!(report.providers.len(), 2);
    assert_eq!(
        report.providers.get("messaging").unwrap(),
        &vec!["messaging/slack.gtpack".to_string(), "messaging/telegram.gtpack".to_string()]
    );
    assert!(report.providers.get("events").unwrap().is_empty());
    assert_eq!(report.packs.len(), 2);
    assert_eq!(report.packs[0].path, "a");
    assert_eq!(report.packs[0].kind, PackKind::Dir);
    assert_eq!(report.packs[1].kind, PackKind::Gtpack);
    assert_eq!(report.tenants[0].name, "acme");
    assert_eq!(report.tenants[1].teams, vec!["alpha".to_string(), "default".to_string()]);
    assert_eq!(
        report_lines(&report),
        vec![
            "Providers:", "  events:", "    (none)", "  messaging:", "    messaging/slack.gtpack",
            "    messaging/telegram.gtpack", "", "Packs:", "  dir a", "  gtpack b.gtpack", "", "Tenants:",
            "  acme", "  demo:", "    alpha", "    default",
        ]
        .into_iter()
        .map(String::from)
        .collect::<Vec<_>>()
    );
}

#[test]
fn empty_scan_renders_none() {
    let report = scan(&vec![], &vec![], &vec![]);
    assert_eq!(
        report_lines(&report),
        vec!["Providers:", "  (none)", "", "Packs:", "  (none)", "", "Tenants:", "  (none)"]
            .into_iter()
            .map(String::from)
            .collect::<Vec<_>>()
    );
}

#[test]
fn resolve_manifests_for_tenants_and_teams() {
    let (providers, packs, tenants) = project_listing();
    let manifests = resolve("/proj", &providers, &packs, &tenants);
    let files: Vec<&str> = manifests.iter().map(|(f, _)| f.as_str()).collect();
    assert_eq!(
        files,
        vec![
            "/proj/state/resolved/acme.yaml",
            "/proj/state/resolved/demo.alpha.yaml",
            "/proj/state/resolved/demo.default.yaml",
        ]
    );
    let (_, acme) = &manifests[0];
    assert_eq!(acme.version, "1");
    assert_eq!(acme.team, None);
    assert_eq!(acme.project_root, "/proj");
    assert_eq!(acme.packs, vec!["packs/a".to_string(), "packs/b.gtpack".to_string()]);
    assert_eq!(
        acme.providers.get("messaging").unwrap(),
        &vec!["providers/messaging/slack.gtpack".to_string(), "providers/messaging/telegram.gtpack".to_string()]
    );
    assert_eq!(acme.policy.source.tenant_gmap, "tenants/acme/tenant.gmap");
    assert_eq!(acme.policy.source.team_gmap, None);
    assert_eq!(acme.policy.default, "forbidden");
    assert_eq!(
        acme.env_passthrough,
        vec!["OTEL_EXPORTER_OTLP_ENDPOINT", "OTEL_RESOURCE_ATTRIBUTES", "RUST_LOG"]
    );
    let (_, team) = &manifests[1];
    assert_eq!(team.team.as_deref(), Some("alpha"));
    assert_eq!(team.policy.source.team_gmap.as_deref(), Some("tenants/demo/teams/alpha/team.gmap"));
}

#[test]
fn locale_state_translates_with_its_catalog() {
    let mut state = LocaleState::new();
    assert_eq!(current_locale(&state), "en");
    assert_eq!(tr(&state, "k", "fallback"), "fallback");
    let mut catalog = TextMap::new();
    catalog.insert("k".to_string(), "Wert".to_string());
    set_locale(&mut state, "de".to_string(), Some(catalog));
    assert_eq!(current_locale(&state), "de");
    assert_eq!(tr(&state, "k", "fallback"), "Wert");
}

#[test]
fn doctor_needs_packs_and_reports_first_failure() {
    assert!(matches!(doctor_packs(false, vec![]), Err(DoctorError::NoPacksDir)));
    let err = doctor_packs(true, vec![]).unwrap_err();
    assert_eq!(err.message(), "No .gtpack files found in bundle.");
    let packs = doctor_packs(true, vec!["a.gtpack".to_string(), "b.gtpack".to_string()]).unwrap();
    assert!(doctor_outcome(&packs, &vec![true, true]).is_ok());
    let err = doctor_outcome(&packs, &vec![true, false]).unwrap_err();
    assert_eq!(err.message(), "greentic-pack doctor failed for b.gtpack");
    assert!(is_gtpack_name("x.gtpack"));
    assert!(!is_gtpack_name(".gtpack"));
    assert!(!is_gtpack_name("x.gtpack.bak"));
}

#[test]
fn catalogs_are_read_from_text() {
    let c = catalog_from_text(r#"{"cli.common.answer_yes_no": "bitte mit y oder n antworten", "b": "x"}"#).unwrap();
    assert_eq!(c.get("cli.common.answer_yes_no").map(String::as_str), Some("bitte mit y oder n antworten"));
    assert_eq!(c.len(), 2);
    assert_eq!(catalog_from_text(r#"{"a": 1}"#).unwrap_err(), "expected a map of strings");
    assert_eq!(catalog_from_text("[]").unwrap_err(), "expected a map of strings");
    assert!(!catalog_from_text("{not json").unwrap_err().is_empty());
    assert_eq!(catalog_from_text("{}").unwrap().len(), 0);
}

#[test]
fn load_cli_takes_the_first_candidate_present() {
    let mut files = TextMap::new();
    files.insert("en.json".to_string(), r#"{"k": "english"}"#.to_string());
    files.insert("de.json".to_string(), r#"{"k": "deutsch"}"#.to_string());
    let de = load_cli("de-DE", "de", &files).unwrap();
    assert_eq!(de.get("k").map(String::as_str), Some("deutsch"));
    let fr = load_cli("fr", "fr", &files).unwrap();
    assert_eq!(fr.get("k").map(String::as_str), Some("english"));
    let none = load_cli("fr", "fr", &TextMap::new()).unwrap();
    assert!(none.is_empty());
    files.insert("it.json".to_string(), "{oops".to_string());
    let err = load_cli("it", "it", &files).unwrap_err();
    assert!(err.starts_with("parse embedded operator cli i18n map it.json: "));
    assert_eq!(tr_for_locale("k", "fallback", &Some(de)), "deutsch");
}
