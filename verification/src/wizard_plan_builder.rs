//! Building a wizard plan from a request.
use vstd::prelude::*;
use crate::wizard::{apply, planned, WizardCreateRequest, WizardError, WizardMode, WizardPlan};

verus! {

/// The plan of a request in a mode: refused without a tenant selection, otherwise the
/// deterministic plan of `planned`.
pub fn build_plan(mode: WizardMode, request: &WizardCreateRequest, dry_run: bool) -> (r: Result<WizardPlan, WizardError>)
    ensures
        request.tenants@.len() == 0 ==> r == Err::<WizardPlan, WizardError>(WizardError::NoTenantSelection),
        request.tenants@.len() > 0 ==> r is Ok && r->Ok_0@ == planned(mode, request@, dry_run),
{
    apply(mode, request, dry_run)
}

} // verus!
