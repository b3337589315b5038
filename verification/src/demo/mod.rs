//! The demo runner: packs and their flows, user input, and the card history.
pub mod pack_resolve;
pub mod input;
pub mod history;
pub mod card;
pub mod http_ingress;
pub mod doctor;
