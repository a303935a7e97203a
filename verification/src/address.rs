//! The record address scheme.
//!
//! Every record is stored under an address derived deterministically from a
//! namespace tag and the record's natural key, with nothing else in the
//! derivation.  The scheme is injective: two derivations coincide only when
//! both the tag and the key coincide, so "does this record already exist" is
//! answerable from the key alone, and creation against an occupied address is
//! the sole mechanism that enforces uniqueness of stations, profiles,
//! sessions, vaults and plots.
//!
//! Addresses are specification-level values: the executable ledger keys each
//! record collection by the same natural keys, and the lemmas in
//! [`crate::laws`] connect the two views.

use vstd::prelude::*;

use crate::state::AccountId;

verus! {

/// A derived storage address: one namespace tag per record kind, paired with
/// the record's natural key.
pub enum RecordAddress {
    /// The platform singleton.  Its namespace needs no key.
    Platform,
    /// The session-ordinal counter, created with the platform singleton.
    Counter,
    /// A charging station, keyed by its station code.
    Station { code: Seq<u8> },
    /// A driver profile, keyed by the driver identity.
    Driver { driver: AccountId },
    /// A charging session, keyed by its ordinal.
    Session { ordinal: u64 },
    /// A points vault, keyed by the driver identity it escrows for.
    Vault { driver: AccountId },
    /// A world plot, keyed by its region key.
    Plot { region_key: Seq<u8> },
}

/// Derives the address of the station registered under `code`.
pub open spec fn station_address(code: Seq<u8>) -> RecordAddress {
    RecordAddress::Station { code }
}

/// Derives the address of `driver`'s profile.
pub open spec fn driver_address(driver: AccountId) -> RecordAddress {
    RecordAddress::Driver { driver }
}

/// Derives the address of the session with ordinal `ordinal`.
pub open spec fn session_address(ordinal: u64) -> RecordAddress {
    RecordAddress::Session { ordinal }
}

/// Derives the address of `driver`'s points vault.
pub open spec fn vault_address(driver: AccountId) -> RecordAddress {
    RecordAddress::Vault { driver }
}

/// Derives the address of the plot claimed under `region_key`.
pub open spec fn plot_address(region_key: Seq<u8>) -> RecordAddress {
    RecordAddress::Plot { region_key }
}

/// The derivation is injective: within a namespace, equal addresses force
/// equal natural keys, and addresses from different namespaces never
/// coincide.  Distinct keys therefore always reach distinct records.
pub proof fn lemma_derivation_injective()
    ensures
        forall|c1: Seq<u8>, c2: Seq<u8>| station_address(c1) == station_address(c2) ==> c1 == c2,
        forall|d1: AccountId, d2: AccountId| driver_address(d1) == driver_address(d2) ==> d1 == d2,
        forall|n1: u64, n2: u64| session_address(n1) == session_address(n2) ==> n1 == n2,
        forall|d1: AccountId, d2: AccountId| vault_address(d1) == vault_address(d2) ==> d1 == d2,
        forall|k1: Seq<u8>, k2: Seq<u8>| plot_address(k1) == plot_address(k2) ==> k1 == k2,
        forall|c: Seq<u8>, d: AccountId| station_address(c) != driver_address(d),
        forall|c: Seq<u8>, n: u64| station_address(c) != session_address(n),
        forall|c: Seq<u8>, d: AccountId| station_address(c) != vault_address(d),
        forall|c: Seq<u8>, k: Seq<u8>| station_address(c) != plot_address(k),
        forall|d: AccountId, n: u64| driver_address(d) != session_address(n),
        forall|d1: AccountId, d2: AccountId| driver_address(d1) != vault_address(d2),
        forall|d: AccountId, k: Seq<u8>| driver_address(d) != plot_address(k),
        forall|n: u64, d: AccountId| session_address(n) != vault_address(d),
        forall|n: u64, k: Seq<u8>| session_address(n) != plot_address(k),
        forall|d: AccountId, k: Seq<u8>| vault_address(d) != plot_address(k),
{
}

} // verus!
