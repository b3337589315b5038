use greentic_operator_core::cli::dev_mode_cmd::{
    detect_counts, resolve_repo_binary, retry_profile, DevCommandError, DevModeDetectArgs, DevModeMapCommand,
    DevModeMapListArgs, DevModeMapRmArgs, DevModeMapSetArgs, DevModeMapSubcommand, DevModeOffArgs, DevModeOnArgs,
    DevModeStatusArgs,
};
use greentic_operator_core::dev_detect::{detect_repo_map, FoundBinary};
use greentic_operator_core::dev_mode::DevProfile;
use greentic_operator_core::settings::OperatorSettings;

fn found(bin: &str, repo: &str) -> FoundBinary {
    FoundBinary { bin: bin.to_string(), repo: repo.to_string(), path: format!("/ws/{repo}/target/debug/{bin}") }
}

#[test]
fn dev_on_refuses_missing_root() {
    let args = DevModeOnArgs {
        root: "/nowhere".to_string(),
        profile: DevProfile::Debug,
        target_dir: None,
        no_detect: false,
        detect_all: false,
    };
    let detection = detect_repo_map(Vec::new());
    let err = args.run(OperatorSettings::default(), false, &detection).unwrap_err();
    assert_eq!(err.message(), "dev root does not exist: /nowhere");
    assert!(matches!(err, DevCommandError::MissingRoot(_)));
}

#[test]
fn dev_on_enables_and_merges_detection() {
    let mut settings = OperatorSettings::default();
    settings.dev.repo_map.insert("runner".to_string(), "mine".to_string());
    let args = DevModeOnArgs {
        root: "/ws".to_string(),
        profile: DevProfile::Release,
        target_dir: Some("/tmp/target".to_string()),
        no_detect: false,
        detect_all: false,
    };
    let detection = detect_repo_map(vec![found("runner", "greentic-runner"), found("cli", "greentic-cli")]);
    let (settings, summary) = args.run(settings, true, &detection).unwrap();
    let summary = summary.unwrap();
    assert!(settings.dev.enabled);
    assert_eq!(settings.dev.root.as_deref(), Some("/ws"));
    assert_eq!(settings.dev.profile, DevProfile::Release);
    assert_eq!(settings.dev.target_dir.as_deref(), Some("/tmp/target"));
    assert_eq!(settings.dev.repo_map.get("runner").map(String::as_str), Some("mine"));
    assert_eq!(settings.dev.repo_map.get("cli").map(String::as_str), Some("greentic-cli"));
    assert_eq!(summary.added, 1);
    assert_eq!(summary.skipped_mapped, 1);
    assert_eq!(summary.skipped_mapped_bins, vec!["runner".to_string()]);
}

#[test]
fn dev_on_without_detection_keeps_repo_map() {
    let mut settings = OperatorSettings::default();
    settings.dev.repo_map.insert("a".to_string(), "b".to_string());
    let args = DevModeOnArgs {
        root: "/ws".to_string(),
        profile: DevProfile::Debug,
        target_dir: None,
        no_detect: true,
        detect_all: false,
    };
    let detection = detect_repo_map(vec![found("x", "y")]);
    let (settings, summary) = args.run(settings, true, &detection).unwrap();
    assert!(summary.is_none());
    assert_eq!(settings.dev.repo_map.len(), 1);
}

#[test]
fn dev_off_disables_only() {
    let mut settings = OperatorSettings::default();
    settings.dev.enabled = true;
    settings.dev.root = Some("/ws".to_string());
    let settings = DevModeOffArgs {}.run(settings);
    assert!(!settings.dev.enabled);
    assert_eq!(settings.dev.root.as_deref(), Some("/ws"));
}

#[test]
fn map_set_then_rm() {
    let settings = OperatorSettings::default();
    let settings = DevModeMapSetArgs { binary: "gtc".to_string(), repo: "greentic".to_string() }.run(settings);
    assert_eq!(settings.dev.repo_map.get("gtc").map(String::as_str), Some("greentic"));
    let settings = DevModeMapSetArgs { binary: "gtc".to_string(), repo: "other".to_string() }.run(settings);
    assert_eq!(settings.dev.repo_map.get("gtc").map(String::as_str), Some("other"));
    let settings = DevModeMapRmArgs { binary: "gtc".to_string() }.run(settings);
    assert!(settings.dev.repo_map.is_empty());
}

#[test]
fn map_list_lines() {
    let settings = OperatorSettings::default();
    assert_eq!(DevModeMapListArgs {}.run(&settings), vec!["repo_map: (empty)".to_string()]);
    let cmd = DevModeMapCommand {
        command: DevModeMapSubcommand::SetEntry(DevModeMapSetArgs { binary: "b".to_string(), repo: "r2".to_string() }),
    };
    let (settings, lines) = cmd.run(settings);
    assert!(lines.is_empty());
    let cmd = DevModeMapCommand {
        command: DevModeMapSubcommand::SetEntry(DevModeMapSetArgs { binary: "a".to_string(), repo: "r1".to_string() }),
    };
    let (settings, _) = cmd.run(settings);
    let cmd = DevModeMapCommand { command: DevModeMapSubcommand::Ls(DevModeMapListArgs {}) };
    let (settings, lines) = cmd.run(settings);
    assert_eq!(lines, vec!["a -> r1".to_string(), "b -> r2".to_string()]);
    let cmd = DevModeMapCommand { command: DevModeMapSubcommand::Rm(DevModeMapRmArgs { binary: "a".to_string() }) };
    let (settings, _) = cmd.run(settings);
    assert_eq!(settings.dev.repo_map.len(), 1);
}

#[test]
fn detect_dry_run_keeps_settings() {
    let settings = OperatorSettings::default();
    let detection = detect_repo_map(vec![found("x", "repo-x")]);
    let args = DevModeDetectArgs { root: "/ws".to_string(), profile: DevProfile::Debug, dry_run: true, detect_all: false };
    let (settings, summary) = args.run(settings, true, &detection).unwrap();
    assert!(settings.dev.repo_map.is_empty());
    assert_eq!(summary.added, 1);
    let args = DevModeDetectArgs { root: "/ws".to_string(), profile: DevProfile::Debug, dry_run: false, detect_all: false };
    let (settings, _) = args.run(settings, true, &detection).unwrap();
    assert_eq!(settings.dev.repo_map.get("x").map(String::as_str), Some("repo-x"));
    let args = DevModeDetectArgs { root: "/nope".to_string(), profile: DevProfile::Debug, dry_run: false, detect_all: false };
    assert!(args.run(settings, false, &detection).is_err());
}

#[test]
fn detection_retries_with_the_other_profile() {
    let empty = detect_repo_map(Vec::new());
    assert_eq!(retry_profile(DevProfile::Debug, &empty), Some(DevProfile::Release));
    assert_eq!(retry_profile(DevProfile::Release, &empty), Some(DevProfile::Debug));
    let some = detect_repo_map(vec![found("x", "r")]);
    assert_eq!(retry_profile(DevProfile::Debug, &some), None);
}

#[test]
fn detection_counts_distinct_repos() {
    let result = detect_repo_map(vec![found("a", "r1"), found("b", "r1"), found("c", "r2")]);
    assert_eq!(detect_counts(&result), (3, 2));
}

#[test]
fn status_lines_and_binary_paths() {
    let mut settings = OperatorSettings::default();
    assert_eq!(
        DevModeStatusArgs {}.run(&settings, &Vec::new(), false),
        vec![
            "enabled: false".to_string(),
            "root: unset".to_string(),
            "profile: debug".to_string(),
            "target_dir: unset".to_string(),
            "repo_map entries: 0".to_string(),
        ]
    );
    settings.dev.repo_map.insert("gtc".to_string(), "greentic".to_string());
    let lines = DevModeStatusArgs {}.run(&settings, &vec![false], false);
    assert_eq!(lines[5], "repo_map:");
    assert_eq!(lines[6], "  gtc -> greentic (root unset)");
    settings.dev.root = Some("/ws".to_string());
    settings.dev.profile = DevProfile::Release;
    assert_eq!(
        resolve_repo_binary(&settings, "greentic", "gtc", false).as_deref(),
        Some("/ws/greentic/target/release/gtc")
    );
    assert_eq!(
        resolve_repo_binary(&settings, "greentic", "gtc", true).as_deref(),
        Some("/ws/greentic/target/release/gtc.exe")
    );
    assert_eq!(
        resolve_repo_binary(&settings, "greentic", "gtc.exe", true).as_deref(),
        Some("/ws/greentic/target/release/gtc.exe")
    );
    let lines = DevModeStatusArgs {}.run(&settings, &vec![true], false);
    assert_eq!(lines[6], "  gtc -> greentic (ok /ws/greentic/target/release/gtc)");
    settings.dev.target_dir = Some("/t".to_string());
    assert_eq!(resolve_repo_binary(&settings, "greentic", "gtc", false).as_deref(), Some("/t/release/gtc"));
}
