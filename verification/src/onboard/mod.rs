//! Onboarding of providers through the operator's HTTP API.
pub mod wizard;
