//! The resolved manifests of a project: one per tenant, or per team of a tenant with teams.
use vstd::prelude::*;
use crate::paths::{join, path_join};
use crate::project::listing::{DirEntryInfo, ProviderDir, TenantDir, entry_is_gtpack, is_gtpack, map_texts, provider_map, provider_packs, sorted_tenants, tenant_entries};
use crate::text::{concat3, concat5, copy_texts, opt_text, owned, sort_texts, sorted_texts, texts};
use crate::order::views;
use crate::textmap::TextMap;

verus! {

/// Where the policy of a manifest comes from, relative to the project root.
#[derive(Debug)]
pub struct PolicySource {
    pub tenant_gmap: String,
    pub team_gmap: Option<String>,
}

/// The policy of a manifest.
#[derive(Debug)]
pub struct PolicySection {
    pub source: PolicySource,
    pub default: String,
}

/// The resolved manifest of a tenant, or of a team of it.
#[derive(Debug)]
pub struct ResolvedManifest {
    pub version: String,
    pub tenant: String,
    pub team: Option<String>,
    pub project_root: String,
    pub providers: TextMap<Vec<String>>,
    pub packs: Vec<String>,
    pub env_passthrough: Vec<String>,
    pub policy: PolicySection,
}

/// The environment variables passed through to the runtime.
pub open spec fn passthrough_vars() -> Seq<Seq<char>> {
    seq!["OTEL_EXPORTER_OTLP_ENDPOINT"@, "OTEL_RESOURCE_ATTRIBUTES"@, "RUST_LOG"@]
}

/// The gmap of a tenant, relative to the project root.
pub open spec fn tenant_gmap_path(tenant: Seq<char>) -> Seq<char> {
    join(join("tenants"@, tenant), "tenant.gmap"@)
}

/// The gmap of a team, relative to the project root.
pub open spec fn team_gmap_path(tenant: Seq<char>, team: Seq<char>) -> Seq<char> {
    join(join(join(join("tenants"@, tenant), "teams"@), team), "team.gmap"@)
}

/// `m` is the manifest of `tenant` (and `team`) with these providers and packs.
pub open spec fn is_manifest(
    m: ResolvedManifest,
    tenant: Seq<char>,
    team: Option<Seq<char>>,
    project_root: Seq<char>,
    providers: Map<Seq<char>, Seq<Seq<char>>>,
    packs: Seq<Seq<char>>,
) -> bool {
    &&& m.version@ == "1"@
    &&& m.tenant@ == tenant
    &&& opt_text(m.team) == team
    &&& m.project_root@ == project_root
    &&& map_texts(m.providers@) == providers
    &&& texts(m.packs@) == packs
    &&& texts(m.env_passthrough@) == passthrough_vars()
    &&& m.policy.source.tenant_gmap@ == tenant_gmap_path(tenant)
    &&& opt_text(m.policy.source.team_gmap) == match team {
        Some(t) => Some(team_gmap_path(tenant, t)),
        None => None,
    }
    &&& m.policy.default@ == "forbidden"@
}

/// Builds the manifest of a tenant, or of one of its teams.
pub fn build_manifest(
    tenant: &str,
    team: Option<&str>,
    project_root: &str,
    providers: &TextMap<Vec<String>>,
    packs: &Vec<String>,
) -> (r: ResolvedManifest)
    ensures
        is_manifest(
            r,
            tenant@,
            match team {
                Some(t) => Some(t@),
                None => None,
            },
            project_root@,
            map_texts(providers@),
            texts(packs@),
        ),
{
    let tenants = owned("tenants");
    let tenant_dir = path_join(tenants.as_str(), tenant);
    let tenant_gmap = path_join(tenant_dir.as_str(), "tenant.gmap");
    let team_gmap = match team {
        Some(t) => {
            let teams = path_join(tenant_dir.as_str(), "teams");
            let team_dir = path_join(teams.as_str(), t);
            Some(path_join(team_dir.as_str(), "team.gmap"))
        },
        None => None,
    };
    let mut env: Vec<String> = Vec::new();
    env.push(owned("OTEL_EXPORTER_OTLP_ENDPOINT"));
    env.push(owned("OTEL_RESOURCE_ATTRIBUTES"));
    env.push(owned("RUST_LOG"));
    let copied = providers.duplicate();
    proof {
        assert(texts(env@) =~= passthrough_vars());
        assert(map_texts(copied@) =~= map_texts(providers@));
    }
    ResolvedManifest {
        version: owned("1"),
        tenant: owned(tenant),
        team: crate::text::owned_opt(team),
        project_root: owned(project_root),
        providers: copied,
        packs: copy_texts(packs),
        env_passthrough: env,
        policy: PolicySection {
            source: PolicySource { tenant_gmap, team_gmap },
            default: owned("forbidden"),
        },
    }
}

/// The packs of a project, by their path under the project root, in listing order.
pub open spec fn project_pack_paths(entries: Seq<DirEntryInfo>) -> Seq<Seq<char>>
    decreases entries.len(),
{
    if entries.len() == 0 {
        Seq::empty()
    } else {
        let r = project_pack_paths(entries.drop_last());
        let e = entries.last();
        if e.is_dir || is_gtpack(e) {
            r.push(join("packs"@, e.name@))
        } else {
            r
        }
    }
}

fn project_packs(entries: &Vec<DirEntryInfo>) -> (r: Vec<String>)
    ensures
        texts(r@) == sorted_texts(project_pack_paths(entries@)),
{
    let mut out: Vec<String> = Vec::new();
    let mut i: usize = 0;
    while i < entries.len()
        invariant
            i <= entries@.len(),
            texts(out@) == project_pack_paths(entries@.take(i as int)),
        decreases entries@.len() - i,
    {
        proof {
            assert(entries@.take(i + 1).drop_last() =~= entries@.take(i as int));
        }
        let e = &entries[i];
        if e.is_dir || entry_is_gtpack(e) {
            let ghost before = out@;
            out.push(path_join("packs", e.name.as_str()));
            proof {
                assert(texts(out@) =~= texts(before).push(join("packs"@, e.name@)));
            }
        }
        i += 1;
    }
    proof {
        assert(entries@.take(i as int) =~= entries@);
    }
    sort_texts(out)
}

/// The tenants and teams that get a manifest, in order: a tenant without teams gets one, a
/// tenant with teams one per team.
pub open spec fn manifest_targets(tenants: Seq<(Seq<char>, Seq<Seq<char>>)>) -> Seq<(Seq<char>, Option<Seq<char>>)>
    decreases tenants.len(),
{
    if tenants.len() == 0 {
        Seq::empty()
    } else {
        let t = tenants.last();
        manifest_targets(tenants.drop_last()) + if t.1.len() == 0 {
            seq![(t.0, None::<Seq<char>>)]
        } else {
            t.1.map_values(|team: Seq<char>| (t.0, Some(team)))
        }
    }
}

/// The file a manifest is written to, under `state/resolved` of the project.
pub open spec fn manifest_file(project_root: Seq<char>, target: (Seq<char>, Option<Seq<char>>)) -> Seq<char> {
    join(
        join(join(project_root, "state"@), "resolved"@),
        match target.1 {
            Some(team) => target.0 + "."@ + team + ".yaml"@,
            None => target.0 + ".yaml"@,
        },
    )
}

/// The manifests of a project, with the files they are written to, from the listings of its
/// `providers`, `packs` and `tenants` directories.
pub fn resolve(project_root: &str, providers: &Vec<ProviderDir>, packs: &Vec<DirEntryInfo>, tenants: &Vec<TenantDir>) -> (r: Vec<
    (String, ResolvedManifest),
>)
    ensures
        r@.len() == manifest_targets(sorted_tenants(tenants@)).len(),
        forall|i: int| 0 <= i < r@.len() ==> {
            let target = #[trigger] manifest_targets(sorted_tenants(tenants@))[i];
            &&& r@[i].0@ == manifest_file(project_root@, target)
            &&& is_manifest(
                r@[i].1,
                target.0,
                target.1,
                project_root@,
                provider_map("providers"@, providers@),
                sorted_texts(project_pack_paths(packs@)),
            )
        },
{
    let provider_lists = provider_packs("providers", providers);
    let pack_list = project_packs(packs);
    let entries = tenant_entries(tenants);
    let state = path_join(project_root, "state");
    let resolved_dir = path_join(state.as_str(), "resolved");
    let ghost tv = views(entries@);
    let ghost pm = provider_map("providers"@, providers@);
    let ghost pk = sorted_texts(project_pack_paths(packs@));
    let mut out: Vec<(String, ResolvedManifest)> = Vec::new();
    let mut i: usize = 0;
    proof {
        assert(tv.take(0) =~= Seq::<(Seq<char>, Seq<Seq<char>>)>::empty());
    }
    while i < entries.len()
        invariant
            i <= entries@.len(),
            tv == views(entries@),
            map_texts(provider_lists@) == pm,
            texts(pack_list@) == pk,
            resolved_dir@ == join(join(project_root@, "state"@), "resolved"@),
            out@.len() == manifest_targets(tv.take(i as int)).len(),
            forall|k: int| 0 <= k < out@.len() ==> {
                let target = #[trigger] manifest_targets(tv.take(i as int))[k];
                &&& out@[k].0@ == manifest_file(project_root@, target)
                &&& is_manifest(out@[k].1, target.0, target.1, project_root@, pm, pk)
            },
        decreases entries@.len() - i,
    {
        let t = &entries[i];
        let ghost before = out@;
        let ghost prev = manifest_targets(tv.take(i as int));
        proof {
            assert(tv.take(i + 1).drop_last() =~= tv.take(i as int));
            assert(tv.take(i + 1).last() == t@);
        }
        if t.teams.len() == 0 {
            let m = build_manifest(t.name.as_str(), None, project_root, &provider_lists, &pack_list);
            let file_name = concat3("", t.name.as_str(), ".yaml");
            let file = path_join(resolved_dir.as_str(), file_name.as_str());
            out.push((file, m));
            proof {
                reveal_strlit("");
                assert(file_name@ =~= t.name@ + ".yaml"@);
                assert(manifest_targets(tv.take(i + 1)) =~= prev + seq![(t.name@, None::<Seq<char>>)]);
            }
        } else {
            let mut j: usize = 0;
            while j < t.teams.len()
                invariant
                    j <= t.teams@.len(),
                    t.teams@.len() > 0,
                    map_texts(provider_lists@) == pm,
                    texts(pack_list@) == pk,
                    resolved_dir@ == join(join(project_root@, "state"@), "resolved"@),
                    out@.len() == prev.len() + j,
                    forall|k: int| 0 <= k < prev.len() ==> #[trigger] out@[k] == before[k],
                    forall|k: int| 0 <= k < prev.len() ==> {
                        let target = #[trigger] prev[k];
                        &&& before[k].0@ == manifest_file(project_root@, target)
                        &&& is_manifest(before[k].1, target.0, target.1, project_root@, pm, pk)
                    },
                    forall|k: int| 0 <= k < j ==> {
                        let target = (t.name@, Some(#[trigger] t.teams@[k]@));
                        &&& out@[prev.len() + k].0@ == manifest_file(project_root@, target)
                        &&& is_manifest(out@[prev.len() + k].1, target.0, target.1, project_root@, pm, pk)
                    },
                decreases t.teams@.len() - j,
            {
                let team = &t.teams[j];
                let m = build_manifest(t.name.as_str(), Some(team.as_str()), project_root, &provider_lists, &pack_list);
                let file_name = concat5("", t.name.as_str(), ".", team.as_str(), ".yaml");
                let file = path_join(resolved_dir.as_str(), file_name.as_str());
                proof {
                    reveal_strlit("");
                    assert(file_name@ =~= t.name@ + "."@ + team@ + ".yaml"@);
                }
                out.push((file, m));
                j += 1;
            }
            proof {
                let added = texts(t.teams@).map_values(|team: Seq<char>| (t.name@, Some(team)));
                assert(manifest_targets(tv.take(i + 1)) =~= prev + added);
            }
        }
        proof {
            let cur = manifest_targets(tv.take(i + 1));
            assert forall|k: int| 0 <= k < out@.len() implies {
                let target = #[trigger] cur[k];
                &&& out@[k].0@ == manifest_file(project_root@, target)
                &&& is_manifest(out@[k].1, target.0, target.1, project_root@, pm, pk)
            } by {
                if k < prev.len() {
                    assert(cur[k] == prev[k]);
                } else {
                    assert(cur[k] == (t.name@, if t.teams@.len() == 0 { None } else { Some(t.teams@[k - prev.len()]@) }));
                }
            }
        }
        i += 1;
    }
    proof {
        assert(tv.take(i as int) =~= tv);
    }
    out
}

} // verus!
