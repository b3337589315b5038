//! Dev mode: resolving binaries from local builds of sibling repositories.
use vstd::prelude::*;
use crate::paths::{is_absolute, join, path_join};
use crate::text::{opt_text, owned};
use crate::textmap::TextMap;

verus! {

/// Whether dev mode is forced on, off, or used when a root is known.
#[derive(Clone, Copy, Debug, PartialEq, Eq, Structural)]
pub enum DevMode {
    Auto,
    On,
    Off,
}

/// The cargo build profile whose binaries are used.
#[derive(Clone, Copy, Debug, PartialEq, Eq, Structural)]
pub enum DevProfile {
    Debug,
    Release,
}

impl Default for DevProfile {
    fn default() -> (r: Self)
        ensures
            r == DevProfile::Debug,
    {
        DevProfile::Debug
    }
}

/// Dev settings as configured; every field may be left unset.
#[derive(Debug)]
pub struct DevSettings {
    pub mode: Option<DevMode>,
    pub root: Option<String>,
    pub profile: Option<DevProfile>,
    pub target_dir: Option<String>,
    pub repo_map: TextMap<String>,
}

impl Default for DevSettings {
    fn default() -> (r: Self)
        ensures
            r.mode is None,
            r.root is None,
            r.profile is None,
            r.target_dir is None,
            r.repo_map@ == Map::<Seq<char>, String>::empty(),
    {
        DevSettings { mode: None, root: None, profile: None, target_dir: None, repo_map: TextMap::new() }
    }
}

/// Dev settings given on the command line.
#[derive(Clone, Debug)]
pub struct DevCliOverrides {
    pub mode: Option<DevMode>,
    pub root: Option<String>,
    pub profile: Option<DevProfile>,
    pub target_dir: Option<String>,
}

/// Dev settings in effect: a root is known.
#[derive(Debug)]
pub struct DevSettingsResolved {
    pub root: String,
    pub profile: DevProfile,
    pub target_dir: Option<String>,
    pub repo_map: TextMap<String>,
}

/// Why dev settings could not be put in effect.
#[derive(Clone, Copy, Debug, PartialEq, Eq, Structural)]
pub enum DevModeError {
    MissingDevRoot,
}

impl DevModeError {
    /// The message shown for the error.
    pub fn message(&self) -> (r: String)
        ensures
            r@ == "dev mode is on but no dev root was provided"@,
    {
        owned("dev mode is on but no dev root was provided")
    }
}

/// The first value that is set.
pub open spec fn first_set<T>(a: Option<T>, b: Option<T>) -> Option<T> {
    match a {
        Some(x) => Some(x),
        None => b,
    }
}

/// A configured path made absolute against the configuration directory.
pub open spec fn relative_to(base: Seq<char>, path: Seq<char>) -> Seq<char> {
    if is_absolute(path) {
        path
    } else {
        join(base, path)
    }
}

/// A path made absolute against a base directory, unless it already is.
pub fn resolve_relative(base: &str, path: String) -> (r: String)
    ensures
        r@ == relative_to(base@, path@),
{
    let abs = {
        let v = crate::text::chars_of(path.as_str());
        v.len() > 0 && v[0] == '/'
    };
    if abs {
        path
    } else {
        path_join(base, path.as_str())
    }
}

/// The effective mode: the command line's, else the configuration's, else `Auto`.
pub open spec fn effective_mode(cli: DevCliOverrides, config: Option<DevSettings>) -> DevMode {
    match first_set(cli.mode, match config { Some(c) => c.mode, None => None }) {
        Some(m) => m,
        None => DevMode::Auto,
    }
}

/// The effective root, before it is made absolute.
pub open spec fn effective_root(cli: DevCliOverrides, config: Option<DevSettings>) -> Option<Seq<char>> {
    opt_text(first_set(cli.root, match config { Some(c) => c.root, None => None }))
}

pub open spec fn effective_profile(cli: DevCliOverrides, config: Option<DevSettings>) -> DevProfile {
    match first_set(cli.profile, match config { Some(c) => c.profile, None => None }) {
        Some(p) => p,
        None => DevProfile::Debug,
    }
}

pub open spec fn effective_target_dir(cli: DevCliOverrides, config: Option<DevSettings>) -> Option<Seq<char>> {
    opt_text(first_set(cli.target_dir, match config { Some(c) => c.target_dir, None => None }))
}

/// The dev settings in effect: none when the mode is off, or when it is automatic and no root
/// is known; an error when it is on and no root is known. The command line wins over the
/// configuration, field by field; relative paths are taken from the configuration directory.
pub fn effective_dev_settings(
    cli: DevCliOverrides,
    config: Option<DevSettings>,
    config_dir: &str,
) -> (r: Result<Option<DevSettingsResolved>, DevModeError>)
    ensures
        effective_mode(cli, config) == DevMode::Off ==> r == Ok::<Option<DevSettingsResolved>, DevModeError>(None),
        effective_mode(cli, config) != DevMode::Off && effective_root(cli, config) is None ==> r == if effective_mode(cli, config) == DevMode::On {
            Err::<Option<DevSettingsResolved>, DevModeError>(DevModeError::MissingDevRoot)
        } else {
            Ok::<Option<DevSettingsResolved>, DevModeError>(None)
        },
        effective_mode(cli, config) != DevMode::Off && effective_root(cli, config) is Some ==> (r matches Ok(Some(s)) && {
            &&& s.root@ == relative_to(config_dir@, effective_root(cli, config)->0)
            &&& s.profile == effective_profile(cli, config)
            &&& opt_text(s.target_dir) == match effective_target_dir(cli, config) {
                Some(t) => Some(relative_to(config_dir@, t)),
                None => None,
            }
            &&& s.repo_map@ == match config { Some(c) => c.repo_map@, None => Map::<Seq<char>, String>::empty() }
        }),
        cli.profile matches Some(p) ==> (r matches Ok(Some(s)) ==> s.profile == p),
        cli.profile is None ==> (r matches Ok(Some(s)) ==> s.profile == match config {
            Some(c) => match c.profile {
                Some(q) => q,
                None => DevProfile::Debug,
            },
            None => DevProfile::Debug,
        }),
        cli.mode == Some(DevMode::Off) ==> r == Ok::<Option<DevSettingsResolved>, DevModeError>(None),
        cli.root matches Some(root) ==> (r matches Ok(Some(s)) ==> s.root@ == relative_to(config_dir@, root@)),
        cli.mode == Some(DevMode::On) && cli.root is Some ==> r matches Ok(Some(_)),
{
    let ghost cli0 = cli;
    let ghost config0 = config;
    let config = match config {
        Some(c) => c,
        None => DevSettings::default(),
    };
    let mode = match cli.mode {
        Some(m) => m,
        None => match config.mode {
            Some(m) => m,
            None => DevMode::Auto,
        },
    };
    let root = match cli.root {
        Some(r) => Some(r),
        None => config.root,
    };
    let profile = match cli.profile {
        Some(p) => p,
        None => match config.profile {
            Some(p) => p,
            None => DevProfile::Debug,
        },
    };
    let target_dir = match cli.target_dir {
        Some(t) => Some(t),
        None => config.target_dir,
    };
    let repo_map = config.repo_map;
    match mode {
        DevMode::Off => Ok(None),
        DevMode::Auto | DevMode::On => {
            let root = match root {
                Some(root) => root,
                None => {
                    if mode == DevMode::On {
                        return Err(DevModeError::MissingDevRoot);
                    }
                    return Ok(None);
                },
            };
            let root = resolve_relative(config_dir, root);
            let target_dir = match target_dir {
                Some(t) => Some(resolve_relative(config_dir, t)),
                None => None,
            };
            Ok(Some(DevSettingsResolved { root, profile, target_dir, repo_map }))
        },
    }
}

/// The directory of a build profile under a cargo target directory.
pub fn profile_dir(profile: DevProfile) -> (r: &'static str)
    ensures
        r@ == profile_dir_name(profile),
{
    match profile {
        DevProfile::Debug => "debug",
        DevProfile::Release => "release",
    }
}

pub open spec fn profile_dir_name(profile: DevProfile) -> Seq<char> {
    match profile {
        DevProfile::Debug => "debug"@,
        DevProfile::Release => "release"@,
    }
}

/// The repo map that wins a merge: the primary one unless it is empty.
pub open spec fn preferred_map(primary: TextMap<String>, fallback: TextMap<String>) -> TextMap<String> {
    if primary@.dom().len() == 0 {
        fallback
    } else {
        primary
    }
}

/// Two settings merged: the primary's fields where set, else the fallback's.
pub open spec fn merged(primary: Option<DevSettings>, fallback: Option<DevSettings>) -> Option<DevSettings> {
    match (primary, fallback) {
        (None, None) => None,
        (Some(p), None) => Some(p),
        (None, Some(f)) => Some(f),
        (Some(p), Some(f)) => Some(DevSettings {
            mode: first_set(p.mode, f.mode),
            root: first_set(p.root, f.root),
            profile: first_set(p.profile, f.profile),
            target_dir: first_set(p.target_dir, f.target_dir),
            repo_map: preferred_map(p.repo_map, f.repo_map),
        }),
    }
}

/// Merges two settings: the primary's fields where set, else the fallback's; the primary's repo
/// map unless it is empty.
pub fn merge_settings(primary: Option<DevSettings>, fallback: Option<DevSettings>) -> (r: Option<DevSettings>)
    ensures
        r == merged(primary, fallback),
{
    match (primary, fallback) {
        (None, None) => None,
        (Some(primary), None) => Some(primary),
        (None, Some(fallback)) => Some(fallback),
        (Some(primary), Some(fallback)) => {
            let repo_map = if primary.repo_map.is_empty() {
                fallback.repo_map
            } else {
                primary.repo_map
            };
            Some(DevSettings {
                mode: match primary.mode { Some(m) => Some(m), None => fallback.mode },
                root: match primary.root { Some(r) => Some(r), None => fallback.root },
                profile: match primary.profile { Some(p) => Some(p), None => fallback.profile },
                target_dir: match primary.target_dir { Some(t) => Some(t), None => fallback.target_dir },
                repo_map,
            })
        },
    }
}

/// The command line wins over the configuration, field by field: a mode, root, profile or
/// target directory given on the command line is the one in effect, whatever the configuration
/// says; only a field the command line leaves unset is taken from the configuration, and the
/// profile is `Debug` when neither sets one.
pub proof fn law_cli_overrides_config(cli: DevCliOverrides, config: Option<DevSettings>)
    ensures
        cli.mode matches Some(m) ==> effective_mode(cli, config) == m,
        cli.root matches Some(x) ==> effective_root(cli, config) == Some(x@),
        cli.profile matches Some(p) ==> effective_profile(cli, config) == p,
        cli.target_dir matches Some(t) ==> effective_target_dir(cli, config) == Some(t@),
        cli.profile is None && config is Some && config->0.profile is Some ==> effective_profile(cli, config) == config->0.profile->0,
        cli.profile is None && (config is None || config->0.profile is None) ==> effective_profile(cli, config) == DevProfile::Debug,
        cli.mode is None && config is Some && config->0.mode is Some ==> effective_mode(cli, config) == config->0.mode->0,
{
}

/// Merging settings is associative, and absent settings are its identity: layering project,
/// user and default settings gives the same result however the layers are grouped.
pub proof fn law_merge_settings_associative(a: Option<DevSettings>, b: Option<DevSettings>, c: Option<DevSettings>)
    ensures
        merged(merged(a, b), c) == merged(a, merged(b, c)),
        merged(a, None) == a,
        merged(None, a) == a,
{
}

} // verus!
