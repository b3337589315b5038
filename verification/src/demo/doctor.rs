//! Checking the packs of a bundle with `greentic-pack doctor`.
use vstd::prelude::*;
use crate::dev_detect::{extension_of, file_extension};
use crate::text::{concat2, owned, text_eq};

verus! {

/// Why the doctor stopped.
#[derive(Clone, Debug)]
pub enum DoctorError {
    /// The bundle has no `packs` directory.
    NoPacksDir,
    /// No gtpack file was found under it.
    NoPacks,
    /// The doctor failed for a pack.
    Failed(String),
}

/// The message of a doctor error.
pub open spec fn doctor_error_text(e: DoctorError) -> Seq<char> {
    match e {
        DoctorError::NoPacksDir => "Bundle packs directory not found."@,
        DoctorError::NoPacks => "No .gtpack files found in bundle."@,
        DoctorError::Failed(p) => "greentic-pack doctor failed for "@ + p@,
    }
}

impl DoctorError {
    /// The message shown for the error.
    pub fn message(&self) -> (r: String)
        ensures
            r@ == doctor_error_text(*self),
    {
        match self {
            DoctorError::NoPacksDir => owned("Bundle packs directory not found."),
            DoctorError::NoPacks => owned("No .gtpack files found in bundle."),
            DoctorError::Failed(p) => concat2("greentic-pack doctor failed for ", p.as_str()),
        }
    }
}

/// Whether a file name has the `gtpack` extension.
pub fn is_gtpack_name(name: &str) -> (r: bool)
    ensures
        r == (file_extension(name@) == Some("gtpack"@)),
{
    match extension_of(name) {
        Some(ext) => text_eq(ext.as_str(), "gtpack"),
        None => false,
    }
}

/// The packs the doctor checks: refused without a `packs` directory or without packs in it.
pub fn doctor_packs(packs_dir_exists: bool, packs: Vec<String>) -> (r: Result<Vec<String>, DoctorError>)
    ensures
        !packs_dir_exists ==> r matches Err(DoctorError::NoPacksDir),
        packs_dir_exists && packs@.len() == 0 ==> r matches Err(DoctorError::NoPacks),
        packs_dir_exists && packs@.len() > 0 ==> r == Ok::<Vec<String>, DoctorError>(packs),
{
    if !packs_dir_exists {
        return Err(DoctorError::NoPacksDir);
    }
    if packs.len() == 0 {
        return Err(DoctorError::NoPacks);
    }
    Ok(packs)
}

/// What the doctor's exit statuses give: the first pack for which it failed, else success.
pub fn doctor_outcome(packs: &Vec<String>, succeeded: &Vec<bool>) -> (r: Result<(), DoctorError>)
    requires
        succeeded@.len() == packs@.len(),
    ensures
        r is Ok <==> (forall|i: int| 0 <= i < packs@.len() ==> succeeded@[i]),
        r matches Err(DoctorError::Failed(p)) ==> exists|i: int| 0 <= i < packs@.len() && !succeeded@[i]
            && p@ == packs@[i]@ && forall|k: int| 0 <= k < i ==> succeeded@[k],
        r is Err ==> r matches Err(DoctorError::Failed(_)),
{
    let mut i: usize = 0;
    while i < packs.len()
        invariant
            i <= packs@.len(),
            succeeded@.len() == packs@.len(),
            forall|k: int| 0 <= k < i ==> succeeded@[k],
        decreases packs@.len() - i,
    {
        if !succeeded[i] {
            return Err(DoctorError::Failed(packs[i].clone()));
        }
        i += 1;
    }
    Ok(())
}

} // verus!
