//! Operator settings persisted in the user's configuration directory.
use vstd::prelude::*;
use crate::dev_mode::{DevMode, DevProfile, DevSettings};
use crate::text::{copy_opt, opt_text};
use crate::textmap::TextMap;

verus! {

/// The operator settings.
#[derive(Debug)]
pub struct OperatorSettings {
    pub dev: DevSettingsGlobal,
}

impl Default for OperatorSettings {
    fn default() -> (r: Self)
        ensures
            !r.dev.enabled,
            r.dev.root is None,
            r.dev.profile == DevProfile::Debug,
            r.dev.target_dir is None,
            r.dev.repo_map@ == Map::<Seq<char>, String>::empty(),
    {
        OperatorSettings { dev: DevSettingsGlobal::default() }
    }
}

/// Global dev mode settings.
#[derive(Debug)]
pub struct DevSettingsGlobal {
    pub enabled: bool,
    pub root: Option<String>,
    pub profile: DevProfile,
    pub target_dir: Option<String>,
    pub repo_map: TextMap<String>,
}

impl Default for DevSettingsGlobal {
    fn default() -> (r: Self)
        ensures
            !r.enabled,
            r.root is None,
            r.profile == DevProfile::Debug,
            r.target_dir is None,
            r.repo_map@ == Map::<Seq<char>, String>::empty(),
    {
        DevSettingsGlobal { enabled: false, root: None, profile: DevProfile::Debug, target_dir: None, repo_map: TextMap::new() }
    }
}

impl DevSettingsGlobal {
    /// These settings as dev settings: the mode is on when enabled and off otherwise.
    pub fn to_dev_settings(&self) -> (r: DevSettings)
        ensures
            r.mode == Some(if self.enabled { DevMode::On } else { DevMode::Off }),
            opt_text(r.root) == opt_text(self.root),
            r.profile == Some(self.profile),
            opt_text(r.target_dir) == opt_text(self.target_dir),
            r.repo_map@ == self.repo_map@,
    {
        DevSettings {
            mode: Some(if self.enabled { DevMode::On } else { DevMode::Off }),
            root: copy_opt(&self.root),
            profile: Some(self.profile),
            target_dir: copy_opt(&self.target_dir),
            repo_map: self.repo_map.duplicate(),
        }
    }
}


/// Disabled global settings turn dev mode off: unless the command line sets a mode, settings
/// whose mode is `Off` (what disabled global settings give) resolve to no dev settings.
pub proof fn law_disabled_settings_resolve_to_off(cli: crate::dev_mode::DevCliOverrides, config: DevSettings)
    requires
        cli.mode is None,
        config.mode == Some(DevMode::Off),
    ensures
        crate::dev_mode::effective_mode(cli, Some(config)) == DevMode::Off,
{
}

} // verus!
