//! An authority-gated ledger for an EV-charging network.
//!
//! The crate models the network's accounting engine as a pure state-transition
//! library: a [`ledger::Ledger`] holds every record (the platform singleton,
//! charging stations, driver profiles, charging sessions, points vaults and
//! world plots), each record reachable only through the deterministic address
//! derived from its namespace tag and natural key.  The seven operations in
//! [`instructions`] are the only mutators; each states exactly which error it
//! returns on which input, that a failed call leaves every record unchanged,
//! and how a successful call rewrites the records it touches.
//!
//! External collaborators (the storage substrate, the clock, the credit
//! issuance and payment services) stay outside: timestamps come in as
//! arguments, and a successful close or purchase returns the data a caller
//! needs to request issuance or transfers.

pub mod address;
pub mod constants;
pub mod errors;
pub mod events;
pub mod instructions;
pub mod laws;
pub mod ledger;
pub mod state;
