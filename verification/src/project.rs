//! Project layout: tenants, teams and the gmap files seeded for them.
use vstd::prelude::*;

pub mod listing;
pub mod scan;
pub mod resolve;
use crate::paths::{join, path_join};
use crate::text::owned;
use crate::wizard::SeedDir;

verus! {

/// The tenant directory layout: `tenants/{tenant}/teams` and `tenants/{tenant}/tenant.gmap`,
/// seeded with `_ = forbidden` when missing.
pub fn add_tenant(root: &str, tenant: &str) -> (r: SeedDir)
    ensures
        r.dir@ == join(join(join(root@, "tenants"@), tenant@), "teams"@),
        r.gmap_file@ == join(join(join(root@, "tenants"@), tenant@), "tenant.gmap"@),
        r.gmap_contents@ == "_ = forbidden\n"@,
{
    let tenants = path_join(root, "tenants");
    let tenant_dir = path_join(tenants.as_str(), tenant);
    SeedDir {
        dir: path_join(tenant_dir.as_str(), "teams"),
        gmap_file: path_join(tenant_dir.as_str(), "tenant.gmap"),
        gmap_contents: owned("_ = forbidden\n"),
    }
}

/// The team directory layout: `tenants/{tenant}/teams/{team}` and its `team.gmap`, seeded with
/// `_ = forbidden` when missing.
pub fn add_team(root: &str, tenant: &str, team: &str) -> (r: SeedDir)
    ensures
        r.dir@ == join(join(join(join(root@, "tenants"@), tenant@), "teams"@), team@),
        r.gmap_file@ == join(r.dir@, "team.gmap"@),
        r.gmap_contents@ == "_ = forbidden\n"@,
{
    let tenants = path_join(root, "tenants");
    let tenant_dir = path_join(tenants.as_str(), tenant);
    let teams = path_join(tenant_dir.as_str(), "teams");
    let dir = path_join(teams.as_str(), team);
    let gmap_file = path_join(dir.as_str(), "team.gmap");
    SeedDir { dir, gmap_file, gmap_contents: owned("_ = forbidden\n") }
}


/// The directory of a tenant, removed with everything in it by `remove_tenant`.
pub fn remove_tenant(root: &str, tenant: &str) -> (r: String)
    ensures
        r@ == join(join(root@, "tenants"@), tenant@),
{
    let tenants = path_join(root, "tenants");
    path_join(tenants.as_str(), tenant)
}

/// The directory of a team, removed with everything in it by `remove_team`.
pub fn remove_team(root: &str, tenant: &str, team: &str) -> (r: String)
    ensures
        r@ == join(join(join(join(root@, "tenants"@), tenant@), "teams"@), team@),
{
    let tenants = path_join(root, "tenants");
    let tenant_dir = path_join(tenants.as_str(), tenant);
    let teams = path_join(tenant_dir.as_str(), "teams");
    path_join(teams.as_str(), team)
}

/// The tenants of a project: the directories of its `tenants` listing (empty when missing),
/// sorted.
pub fn list_tenants(entries: &Vec<crate::project::listing::DirEntryInfo>) -> (r: Vec<String>)
    ensures
        crate::text::texts(r@) == crate::text::sorted_texts(crate::project::listing::dir_names(entries@)),
{
    crate::text::sort_texts(crate::project::listing::dir_name_list(entries))
}

/// The teams of a tenant: the directories of its `teams` listing (empty when missing), sorted.
pub fn list_teams(entries: &Vec<crate::project::listing::DirEntryInfo>) -> (r: Vec<String>)
    ensures
        crate::text::texts(r@) == crate::text::sorted_texts(crate::project::listing::dir_names(entries@)),
{
    crate::text::sort_texts(crate::project::listing::dir_name_list(entries))
}

} // verus!
