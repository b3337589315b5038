//! The provider domains.
use vstd::prelude::*;
use crate::text::{lower_all, text_eq, text_lower};

verus! {

/// A provider domain.
#[derive(Clone, Copy, Debug, PartialEq, Eq, Structural)]
pub enum Domain {
    Messaging,
    Events,
    Secrets,
}

/// The domain a name stands for exactly.
pub open spec fn domain_named(s: Seq<char>) -> Option<Domain> {
    if s == "messaging"@ {
        Some(Domain::Messaging)
    } else if s == "events"@ {
        Some(Domain::Events)
    } else if s == "secrets"@ {
        Some(Domain::Secrets)
    } else {
        None
    }
}

/// The domain a name stands for exactly.
pub fn domain_from_name(s: &str) -> (r: Option<Domain>)
    ensures
        r == domain_named(s@),
{
    if text_eq(s, "messaging") {
        Some(Domain::Messaging)
    } else if text_eq(s, "events") {
        Some(Domain::Events)
    } else if text_eq(s, "secrets") {
        Some(Domain::Secrets)
    } else {
        None
    }
}

/// The domain a name stands for, whatever the case of its ASCII letters. (Lowercasing the
/// name in full Unicode gives the same answer: no other character lowercases to a letter of
/// these names.)
pub fn domain_from_name_any_case(s: &str) -> (r: Option<Domain>)
    ensures
        r == domain_named(lower_all(s@)),
{
    let l = text_lower(s);
    domain_from_name(l.as_str())
}

} // verus!
