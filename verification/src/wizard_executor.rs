//! Executing a wizard plan: the work the plan asks for, and the report of what was done.
use vstd::prelude::*;
use crate::paths::{join, path_join};

use crate::wizard::{deterministic_pack_file_name, execute_plan, pack_file_name, plan_refusal, planned_work, BundleProbe, BundleWork, Policy, ResolvedPackInfo, WizardError, WizardExecutionReport, WizardMode, WizardPlan};

verus! {

/// The work of executing a plan in a mode (see `execute_plan`).
pub fn execute(mode: WizardMode, plan: &WizardPlan, probe: BundleProbe) -> (r: Result<BundleWork, WizardError>)
    ensures
        match plan_refusal(mode, *plan, probe) {
            Some(e) => r == Err::<BundleWork, WizardError>(e),
            None => r is Ok && r->Ok_0@ == planned_work(
                plan@,
                mode == WizardMode::Create,
                if mode == WizardMode::Remove { Policy::Forbidden } else { Policy::Public },
            ),
        },
{
    execute_plan(mode, plan, probe)
}

/// The record of a fetched pack: it goes to `packs/` in the bundle under its deterministic
/// file name.
pub fn resolved_pack_info(
    source_ref: &str,
    mapped_ref: String,
    resolved_digest: String,
    pack_id: String,
    entry_flows: Vec<String>,
    cached_path: String,
) -> (r: ResolvedPackInfo)
    ensures
        r.source_ref@ == source_ref@,
        r.mapped_ref == mapped_ref,
        r.resolved_digest == resolved_digest,
        r.pack_id == pack_id,
        r.entry_flows == entry_flows,
        r.cached_path == cached_path,
        r.output_path@ == join("packs"@, pack_file_name(source_ref@, resolved_digest@)),
{
    let name = deterministic_pack_file_name(source_ref, resolved_digest.as_str());
    let output_path = path_join("packs", name.as_str());
    ResolvedPackInfo {
        source_ref: crate::text::owned(source_ref),
        mapped_ref,
        resolved_digest,
        pack_id,
        entry_flows,
        cached_path,
        output_path,
    }
}

/// Where a fetched pack is copied to in the bundle.
pub fn pack_destination(bundle: &str, pack: &ResolvedPackInfo) -> (r: String)
    ensures
        r@ == join(bundle@, pack.output_path@),
{
    path_join(bundle, pack.output_path.as_str())
}

/// The report of an executed plan.
pub fn execution_report(work: &BundleWork, resolved_packs: Vec<ResolvedPackInfo>, resolved_manifests: Vec<String>) -> (r:
    WizardExecutionReport)
    ensures
        r.bundle@ == work.bundle@,
        r.resolved_packs == resolved_packs,
        r.resolved_manifests == resolved_manifests,
{
    WizardExecutionReport { bundle: work.bundle.clone(), resolved_packs, resolved_manifests }
}

} // verus!
