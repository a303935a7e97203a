//! The record types the ledger stores, and the fixed-width buffer discipline.

use vstd::prelude::*;

use crate::constants::{MAX_CITY_LEN, MAX_NAME_LEN, MAX_URI_LEN};

verus! {

/// An opaque 32-byte external identity: a signer, a treasury, a mint or a
/// credit-holding account.  The engine only ever compares identities for
/// equality; it never inspects their bytes.
#[derive(Clone, Copy, Debug, PartialEq, Eq, Structural)]
pub struct AccountId {
    pub hi: u128,
    pub lo: u128,
}

impl AccountId {
    /// Builds an identity from its two 16-byte halves.
    pub fn new(hi: u128, lo: u128) -> (id: AccountId)
        ensures
            id.hi == hi,
            id.lo == lo,
    {
        AccountId { hi, lo }
    }
}

/// The lifecycle state of a charging session.  `Closed` is terminal: no
/// operation transitions a session out of it.
#[derive(Clone, Copy, Debug, PartialEq, Eq, Structural)]
pub enum SessionStatus {
    Active,
    Closed,
}

/// The platform singleton: the two privileged roles, the pricing-conversion
/// rate, and the external treasuries and credit mint the engine reports to
/// its callers.
#[derive(Clone, Copy, Debug, PartialEq, Eq, Structural)]
pub struct PlatformConfig {
    pub admin: AccountId,
    pub oracle: AccountId,
    pub point_mint: AccountId,
    pub point_rate_microunits: u64,
    pub payment_treasury: AccountId,
    pub world_treasury: AccountId,
}

/// The monotonic session-ordinal generator, created together with the
/// platform singleton and incremented exactly once per session start.
#[derive(Clone, Copy, Debug, PartialEq, Eq, Structural)]
pub struct SessionCounter {
    pub next_session: u64,
}

/// One registered charging station.  The variable-length fields are stored
/// as fixed-width zero-padded buffers; the station's natural key (its code)
/// lives in the address the record is stored under.
#[derive(Clone, Debug)]
pub struct ChargingStation {
    pub operator: AccountId,
    pub city: Vec<u8>,
    pub name: Vec<u8>,
    pub latitude_micro: i32,
    pub longitude_micro: i32,
    pub max_kw: u32,
    pub active: bool,
    pub pricing_energy_microunits: u64,
    pub pricing_time_microunits: u64,
    pub uri: Vec<u8>,
}

impl ChargingStation {
    /// The buffers have their fixed widths.
    pub open spec fn wf(self) -> bool {
        &&& self.name@.len() == MAX_NAME_LEN
        &&& self.city@.len() == MAX_CITY_LEN
        &&& self.uri@.len() == MAX_URI_LEN
    }
}

/// A station record together with the natural key it is stored under.
#[derive(Clone, Debug)]
pub struct StationEntry {
    /// The station code: the natural key from which the record's address is
    /// derived.
    pub code: Vec<u8>,
    pub station: ChargingStation,
}

/// One driver's lifetime totals and currently redeemable point balance.
/// The profile is stored under the address derived from the driver identity,
/// so at most one profile per driver can exist.
#[derive(Clone, Copy, Debug, PartialEq, Eq, Structural)]
pub struct DriverProfile {
    pub driver: AccountId,
    pub total_sessions: u64,
    pub total_energy_wh: u64,
    pub total_points_earned: u64,
    pub outstanding_points: u64,
}

/// One charging session: telemetry accumulation while `Active`, the computed
/// price and points once `Closed`.  Stored under the address derived from its
/// ordinal, so each session is globally unique.
#[derive(Clone, Debug)]
pub struct ChargingSession {
    /// The code of the station the session runs against.
    pub station: Vec<u8>,
    pub driver: AccountId,
    pub session_counter: u64,
    pub energy_wh: u64,
    pub seconds_elapsed: u64,
    pub status: SessionStatus,
    pub price_microunits: u64,
    pub points_earned: u64,
    pub telemetry_hash: Vec<u8>,
    pub opened_at: i64,
    pub closed_at: i64,
}

/// The per-driver escrow binding: exactly one external credit-holding
/// account per driver, fixed once written.
#[derive(Clone, Copy, Debug, PartialEq, Eq, Structural)]
pub struct PointsVault {
    pub driver: AccountId,
    pub token_account: AccountId,
}

/// One claimed world plot, stored under the address derived from its region
/// key.
#[derive(Clone, Debug)]
pub struct WorldPlot {
    pub owner: AccountId,
    pub region_key: Vec<u8>,
    pub slot_capacity: u32,
    pub upgrade_level: u8,
    pub last_reward_time: i64,
}

/// The bytes of `input` laid into a buffer of width `n`: truncated past `n`,
/// zero-padded up to it.
pub open spec fn fitted(input: Seq<u8>, n: nat) -> Seq<u8> {
    Seq::new(n, |i: int| if i < input.len() { input[i] } else { 0u8 })
}

/// Copies `input` into a fixed-width zero-padded buffer of length `n`.
/// Callers check the length bound first; the copy itself truncates.
pub fn fit_to_array(input: &Vec<u8>, n: usize) -> (buffer: Vec<u8>)
    ensures
        buffer@ == fitted(input@, n as nat),
{
    let mut buffer: Vec<u8> = Vec::new();
    let mut i: usize = 0;
    while i < n
        invariant
            i <= n,
            buffer@.len() == i,
            forall|j: int|
                0 <= j < i ==> buffer@[j] == (if j < input@.len() {
                    input@[j]
                } else {
                    0u8
                }),
        decreases n - i,
    {
        if i < input.len() {
            let b = input[i];
            buffer.push(b);
        } else {
            buffer.push(0);
        }
        i = i + 1;
    }
    proof {
        assert(buffer@ =~= fitted(input@, n as nat));
    }
    buffer
}

/// Copies a byte string.
pub fn copy_bytes(v: &Vec<u8>) -> (r: Vec<u8>)
    ensures
        r@ == v@,
{
    let mut r: Vec<u8> = Vec::new();
    let mut i: usize = 0;
    while i < v.len()
        invariant
            i <= v@.len(),
            r@ == v@.subrange(0, i as int),
        decreases v@.len() - i,
    {
        let b = v[i];
        r.push(b);
        i = i + 1;
        proof {
            assert(r@ =~= v@.subrange(0, i as int));
        }
    }
    proof {
        assert(r@ =~= v@);
    }
    r
}

/// Compares two byte strings for equality of contents.
pub fn bytes_eq(a: &Vec<u8>, b: &Vec<u8>) -> (r: bool)
    ensures
        r == (a@ == b@),
{
    if a.len() != b.len() {
        return false;
    }
    let mut i: usize = 0;
    while i < a.len()
        invariant
            i <= a@.len(),
            a@.len() == b@.len(),
            forall|j: int| 0 <= j < i ==> a@[j] == b@[j],
        decreases a@.len() - i,
    {
        if a[i] != b[i] {
            return false;
        }
        i = i + 1;
    }
    proof {
        assert(a@ =~= b@);
    }
    true
}

} // verus!
