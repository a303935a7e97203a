//! The engine's global guarantees, proved from the invariant and the
//! operations' contracts.

use vstd::prelude::*;

use crate::address::{
    RecordAddress, driver_address, plot_address, session_address, station_address, vault_address,
};
use crate::errors::DechargeError;
use crate::instructions::{
    CloseSessionArgs, PurchasePointsArgs, RegisterStationArgs, TelemetryArgs,
    close_session_outcome, points_fit, points_of, price_fits, profile_update_fits,
    purchase_points_outcome, record_telemetry_outcome, register_station_outcome,
    start_session_outcome,
};
use crate::ledger::Ledger;
use crate::state::{AccountId, SessionStatus};

verus! {

/// How many records a ledger holds.
pub open spec fn record_count(l: Ledger) -> int {
    (if l.platform is Some {
        1int
    } else {
        0int
    }) + (if l.session_counter is Some {
        1int
    } else {
        0int
    }) + l.stations@.len() + l.drivers@.len() + l.sessions@.len() + l.vaults@.len()
        + l.plots@.len()
}

/// The derived address of the `i`-th record of the ledger, the records laid
/// out namespace by namespace.
pub open spec fn record_address_at(l: Ledger, i: int) -> RecordAddress {
    let np: int = if l.platform is Some {
        1
    } else {
        0
    };
    let nc: int = if l.session_counter is Some {
        1
    } else {
        0
    };
    let ns = l.stations@.len() as int;
    let nd = l.drivers@.len() as int;
    let nq = l.sessions@.len() as int;
    let nv = l.vaults@.len() as int;
    if i < np {
        RecordAddress::Platform
    } else if i < np + nc {
        RecordAddress::Counter
    } else if i < np + nc + ns {
        station_address(l.stations@[i - np - nc].code@)
    } else if i < np + nc + ns + nd {
        driver_address(l.drivers@[i - np - nc - ns].driver)
    } else if i < np + nc + ns + nd + nq {
        session_address(l.sessions@[i - np - nc - ns - nd].session_counter)
    } else if i < np + nc + ns + nd + nq + nv {
        vault_address(l.vaults@[i - np - nc - ns - nd - nq].driver)
    } else {
        plot_address(l.plots@[i - np - nc - ns - nd - nq - nv].region_key@)
    }
}

/// The derived addresses of all records of the ledger.
pub open spec fn record_addresses(l: Ledger) -> Seq<RecordAddress> {
    Seq::new(record_count(l) as nat, |i: int| record_address_at(l, i))
}

/// Uniqueness: in a well-formed ledger, no two records share a derived
/// address.  Within a namespace the natural keys are pairwise distinct and
/// the derivation is injective; across namespaces the tags already differ.
/// Together with each creation contract — a create against an occupied
/// address fails and changes nothing — at most one record can ever be
/// created per derived address.
pub proof fn lemma_at_most_one_record_per_address(l: Ledger)
    requires
        l.wf(),
    ensures
        forall|i: int, j: int|
            0 <= i < j < record_addresses(l).len() ==> record_addresses(l)[i]
                != record_addresses(l)[j],
{
    let a = record_addresses(l);
    let np: int = if l.platform is Some {
        1
    } else {
        0
    };
    let nc: int = if l.session_counter is Some {
        1
    } else {
        0
    };
    let ns = l.stations@.len() as int;
    let nd = l.drivers@.len() as int;
    let nq = l.sessions@.len() as int;
    let nv = l.vaults@.len() as int;
    assert forall|i: int, j: int| 0 <= i < j < a.len() implies a[i] != a[j] by {
        assert(a[i] == record_address_at(l, i));
        assert(a[j] == record_address_at(l, j));
        if np + nc <= i && j < np + nc + ns {
            assert(l.stations@[i - np - nc].code@ != l.stations@[j - np - nc].code@);
        }
        if np + nc + ns <= i && j < np + nc + ns + nd {
            assert(l.drivers@[i - np - nc - ns].driver != l.drivers@[j - np - nc - ns].driver);
        }
        if np + nc + ns + nd <= i && j < np + nc + ns + nd + nq {
            assert(l.sessions@[i - np - nc - ns - nd].session_counter == i - np - nc - ns - nd);
            assert(l.sessions@[j - np - nc - ns - nd].session_counter == j - np - nc - ns - nd);
        }
        if np + nc + ns + nd + nq <= i && j < np + nc + ns + nd + nq + nv {
            assert(l.vaults@[i - np - nc - ns - nd - nq].driver != l.vaults@[j - np - nc - ns - nd
                - nq].driver);
        }
        if np + nc + ns + nd + nq + nv <= i {
            assert(l.plots@[i - np - nc - ns - nd - nq - nv].region_key@ != l.plots@[j - np - nc
                - ns - nd - nq - nv].region_key@);
        }
    }
}

/// Whether the ledger holds a session that was assigned ordinal `n`.
pub open spec fn has_session_ordinal(l: Ledger, n: u64) -> bool {
    exists|i: int| 0 <= i < l.sessions@.len() && (#[trigger] l.sessions@[i].session_counter) == n
}

/// Monotonic ordinals: in a well-formed initialized ledger, a session with
/// ordinal `n` exists exactly when `n` is below the counter, so the ordinals
/// ever assigned are `0, 1, 2, …` with no gap and no reuse.  `start_session`
/// assigns the counter's value and raises the counter by exactly one.
pub proof fn lemma_session_ordinals_contiguous(l: Ledger)
    requires
        l.wf(),
        l.initialized(),
    ensures
        forall|n: u64| #[trigger] has_session_ordinal(l, n) <==> n < l.next_session(),
{
    assert forall|n: u64| #[trigger] has_session_ordinal(l, n) <==> n < l.next_session() by {
        if n < l.next_session() {
            assert(l.sessions@[n as int].session_counter == n);
        }
    }
}

/// Irreversibility: against a closed session, a further telemetry update or
/// close from the oracle fails with `SessionClosed`; with the operations'
/// contracts — an error changes nothing, and no operation writes any other
/// status than `Active` into a fresh session and `Closed` into an active one
/// — a session that reached `Closed` stays `Closed`.
pub proof fn lemma_closed_session_terminal(
    l: Ledger,
    session_ordinal: u64,
    vault_token_account: AccountId,
    targs: TelemetryArgs,
    cargs: CloseSessionArgs,
)
    requires
        l.wf(),
        l.initialized(),
        session_ordinal < l.sessions@.len(),
        l.sessions@[session_ordinal as int].status == SessionStatus::Closed,
    ensures
        record_telemetry_outcome(l, l.config().oracle, session_ordinal, targs) == Some(
            DechargeError::SessionClosed,
        ),
        close_session_outcome(l, l.config().oracle, session_ordinal, vault_token_account, cargs)
            == Some(DechargeError::SessionClosed),
{
}

/// Authorization gating: a registration from any identity but the
/// administrator, and a session start, telemetry update or close from any
/// identity but the oracle, fails with `Unauthorized` before anything else
/// is looked at.
pub proof fn lemma_authorization_gating(
    l: Ledger,
    caller: AccountId,
    rargs: RegisterStationArgs,
    station_code: Seq<u8>,
    session_ordinal: u64,
    vault_token_account: AccountId,
    targs: TelemetryArgs,
    cargs: CloseSessionArgs,
)
    ensures
        caller != l.config().admin ==> register_station_outcome(l, caller, rargs) == Some(
            DechargeError::Unauthorized,
        ),
        caller != l.config().oracle ==> start_session_outcome(l, caller, station_code) == Some(
            DechargeError::Unauthorized,
        ),
        caller != l.config().oracle ==> record_telemetry_outcome(
            l,
            caller,
            session_ordinal,
            targs,
        ) == Some(DechargeError::Unauthorized),
        caller != l.config().oracle ==> close_session_outcome(
            l,
            caller,
            session_ordinal,
            vault_token_account,
            cargs,
        ) == Some(DechargeError::Unauthorized),
{
}

/// Vault binding stability: once a driver's vault is bound, a close that
/// passes every earlier check but supplies a different credit account, and
/// any purchase that supplies one, fail with `PointsVaultMismatch`; the
/// operations' contracts add that an existing vault record is never
/// rewritten.
pub proof fn lemma_vault_binding_enforced(
    l: Ledger,
    session_ordinal: u64,
    account: AccountId,
    cargs: CloseSessionArgs,
    pargs: PurchasePointsArgs,
)
    requires
        l.wf(),
        l.initialized(),
        session_ordinal < l.sessions@.len(),
        l.sessions@[session_ordinal as int].status == SessionStatus::Active,
        l.has_vault(l.sessions@[session_ordinal as int].driver),
        account != l.vault_at(l.sessions@[session_ordinal as int].driver).token_account,
        price_fits(
            cargs.final_energy_wh,
            cargs.final_seconds,
            l.station_at(l.sessions@[session_ordinal as int].station@).pricing_energy_microunits,
            l.station_at(l.sessions@[session_ordinal as int].station@).pricing_time_microunits,
        ),
        points_fit(cargs.final_energy_wh, l.config().point_rate_microunits),
        profile_update_fits(
            l.driver_at(l.sessions@[session_ordinal as int].driver),
            cargs.final_energy_wh,
            points_of(cargs.final_energy_wh, l.config().point_rate_microunits),
        ),
    ensures
        close_session_outcome(l, l.config().oracle, session_ordinal, account, cargs) == Some(
            DechargeError::PointsVaultMismatch,
        ),
        purchase_points_outcome(l, l.sessions@[session_ordinal as int].driver, account, pargs)
            == Some(DechargeError::PointsVaultMismatch),
{
}

/// One step in a driver profile's point accounting: what a successful close
/// or purchase does to the earned and outstanding counters.
pub enum PointsFlow {
    /// A close credited this many points to both counters.
    Earn { points: u64 },
    /// A purchase redeemed this many points from the outstanding counter.
    Redeem { amount: u64 },
}

/// The lifetime points earned after a history, starting from a fresh
/// profile.
pub open spec fn earned_after(h: Seq<PointsFlow>) -> int
    decreases h.len(),
{
    if h.len() == 0 {
        0
    } else {
        match h.last() {
            PointsFlow::Earn { points } => earned_after(h.drop_last()) + points,
            PointsFlow::Redeem { amount } => earned_after(h.drop_last()),
        }
    }
}

/// The outstanding points after a history, starting from a fresh profile.
pub open spec fn outstanding_after(h: Seq<PointsFlow>) -> int
    decreases h.len(),
{
    if h.len() == 0 {
        0
    } else {
        match h.last() {
            PointsFlow::Earn { points } => outstanding_after(h.drop_last()) + points,
            PointsFlow::Redeem { amount } => outstanding_after(h.drop_last()) - amount,
        }
    }
}

/// The total points redeemed over a history.
pub open spec fn redeemed_after(h: Seq<PointsFlow>) -> int
    decreases h.len(),
{
    if h.len() == 0 {
        0
    } else {
        match h.last() {
            PointsFlow::Earn { points } => redeemed_after(h.drop_last()),
            PointsFlow::Redeem { amount } => redeemed_after(h.drop_last()) + amount,
        }
    }
}

/// A history every step of which passed the guard its operation enforces:
/// a close's overflow checks on the two point counters, and a purchase's
/// balance check.
pub open spec fn admissible(h: Seq<PointsFlow>) -> bool
    decreases h.len(),
{
    if h.len() == 0 {
        true
    } else {
        admissible(h.drop_last()) && match h.last() {
            PointsFlow::Earn { points } => earned_after(h.drop_last()) + points <= u64::MAX
                && outstanding_after(h.drop_last()) + points <= u64::MAX,
            PointsFlow::Redeem { amount } => amount <= outstanding_after(h.drop_last()),
        }
    }
}

/// A fresh profile — the zeroed record `start_session` creates on a
/// driver's first session — matches the empty history.
pub proof fn lemma_fresh_profile_history()
    ensures
        earned_after(Seq::<PointsFlow>::empty()) == 0,
        outstanding_after(Seq::<PointsFlow>::empty()) == 0,
        redeemed_after(Seq::<PointsFlow>::empty()) == 0,
        admissible(Seq::<PointsFlow>::empty()),
{
}

/// A successful close extends a matching history by one `Earn` step: its
/// contract adds `points` to both counters, under exactly the overflow
/// guards an admissible step records.
pub proof fn lemma_earn_step(h: Seq<PointsFlow>, earned: u64, outstanding: u64, points: u64)
    requires
        admissible(h),
        earned_after(h) == earned,
        outstanding_after(h) == outstanding,
        earned + points <= u64::MAX,
        outstanding + points <= u64::MAX,
    ensures
        admissible(h.push(PointsFlow::Earn { points })),
        earned_after(h.push(PointsFlow::Earn { points })) == earned + points,
        outstanding_after(h.push(PointsFlow::Earn { points })) == outstanding + points,
        redeemed_after(h.push(PointsFlow::Earn { points })) == redeemed_after(h),
{
    let t = h.push(PointsFlow::Earn { points });
    assert(t.drop_last() =~= h);
    assert(t.last() == (PointsFlow::Earn { points }));
}

/// A successful purchase extends a matching history by one `Redeem` step:
/// its contract subtracts `amount` from the outstanding balance alone,
/// under exactly the balance guard an admissible step records.
pub proof fn lemma_redeem_step(h: Seq<PointsFlow>, outstanding: u64, amount: u64)
    requires
        admissible(h),
        outstanding_after(h) == outstanding,
        amount <= outstanding,
    ensures
        admissible(h.push(PointsFlow::Redeem { amount })),
        earned_after(h.push(PointsFlow::Redeem { amount })) == earned_after(h),
        outstanding_after(h.push(PointsFlow::Redeem { amount })) == outstanding - amount,
        redeemed_after(h.push(PointsFlow::Redeem { amount })) == redeemed_after(h) + amount,
{
    let t = h.push(PointsFlow::Redeem { amount });
    assert(t.drop_last() =~= h);
    assert(t.last() == (PointsFlow::Redeem { amount }));
}

/// Balance conservation: after any admissible sequence of closes and
/// purchases, the outstanding balance equals the points earned minus the
/// points redeemed, and never falls below zero nor above the lifetime
/// total.  `close_session` performs exactly an `Earn` step on the profile it
/// credits, `purchase_points` exactly a `Redeem` step, each under the guard
/// `admissible` records, and a profile is created zeroed — the base case.
pub proof fn lemma_balance_conservation(h: Seq<PointsFlow>)
    requires
        admissible(h),
    ensures
        outstanding_after(h) == earned_after(h) - redeemed_after(h),
        0 <= outstanding_after(h),
        outstanding_after(h) <= earned_after(h),
        0 <= redeemed_after(h),
    decreases h.len(),
{
    if h.len() > 0 {
        lemma_balance_conservation(h.drop_last());
    }
}

} // verus!
