//! The seven operations: the only mutators of a [`Ledger`].
//!
//! Each operation is a total state transition: it validates authority,
//! record state and arithmetic, and either commits all of its writes or
//! returns the first applicable error with every record unchanged.  The
//! order in which conditions are checked — and so which error a call with
//! several defects returns — is pinned by an `*_outcome` specification
//! function per operation.

use vstd::prelude::*;

use crate::constants::{MAX_CITY_LEN, MAX_NAME_LEN, MAX_URI_LEN, MICROS_PER_POINT, REGION_KEY_LEN};
use crate::errors::DechargeError;
use crate::events::{PlotClaimed, PointsPurchased, SessionClosed, SessionStarted, StationRegistered};
use crate::ledger::{
    Ledger, lemma_driver_index, lemma_driver_push, lemma_driver_update, lemma_plot_push,
    lemma_station_index, lemma_station_push, lemma_vault_index, lemma_vault_push, seq_has_driver,
    seq_has_station,
};
use crate::state::{
    AccountId, ChargingSession, ChargingStation, DriverProfile, PlatformConfig, PointsVault,
    SessionCounter, SessionStatus, StationEntry, WorldPlot, fit_to_array, fitted,
};

verus! {

/// The price of a session: energy times the energy unit price plus duration
/// times the time unit price, in micro-units, with no rounding.
pub open spec fn session_price(
    energy_wh: u64,
    seconds: u64,
    price_energy: u64,
    price_time: u64,
) -> int {
    energy_wh * price_energy + seconds * price_time
}

/// Whether the price computation stays representable: both products and
/// their sum fit in the unsigned 64-bit range.
pub open spec fn price_fits(
    energy_wh: u64,
    seconds: u64,
    price_energy: u64,
    price_time: u64,
) -> bool {
    &&& energy_wh * price_energy <= u64::MAX
    &&& seconds * price_time <= u64::MAX
    &&& energy_wh * price_energy + seconds * price_time <= u64::MAX
}

/// The points a session earns: energy times the platform's point rate,
/// scaled down by [`MICROS_PER_POINT`] with integer division, rounding
/// toward zero.
pub open spec fn points_of(energy_wh: u64, rate: u64) -> int {
    (energy_wh * rate) / (MICROS_PER_POINT as int)
}

/// Whether the scaled point product fits in the unsigned 64-bit range.
pub open spec fn points_fit(energy_wh: u64, rate: u64) -> bool {
    energy_wh * rate <= u64::MAX
}

/// Whether a close can credit `points` and `energy_wh` to `p` without any
/// of the profile's four counters wrapping.
pub open spec fn profile_update_fits(p: DriverProfile, energy_wh: u64, points: int) -> bool {
    &&& p.total_sessions + 1 <= u64::MAX
    &&& p.total_energy_wh + energy_wh <= u64::MAX
    &&& p.total_points_earned + points <= u64::MAX
    &&& p.outstanding_points + points <= u64::MAX
}

/// Arguments of [`initialize_platform`].
#[derive(Clone, Copy, Debug, PartialEq, Eq, Structural)]
pub struct InitializePlatformArgs {
    pub oracle: AccountId,
    pub point_rate_microunits: u64,
}

/// Creates the platform singleton and the session counter at ordinal zero.
///
/// Fails with `AlreadyExists` when the singleton address already holds a
/// record, and changes nothing then.
pub fn initialize_platform(
    l: &mut Ledger,
    admin: AccountId,
    point_mint: AccountId,
    payment_treasury: AccountId,
    world_treasury: AccountId,
    args: InitializePlatformArgs,
) -> (r: Result<(), DechargeError>)
    requires
        old(l).wf(),
    ensures
        final(l).wf(),
        old(l).initialized() ==> (r matches Err(e) && e == DechargeError::AlreadyExists
            && *final(l) == *old(l)),
        !old(l).initialized() ==> {
            &&& r is Ok
            &&& final(l).platform == Some(
                (PlatformConfig {
                    admin,
                    oracle: args.oracle,
                    point_mint,
                    point_rate_microunits: args.point_rate_microunits,
                    payment_treasury,
                    world_treasury,
                }),
            )
            &&& final(l).session_counter == Some((SessionCounter { next_session: 0 }))
            &&& final(l).stations == old(l).stations
            &&& final(l).drivers == old(l).drivers
            &&& final(l).sessions == old(l).sessions
            &&& final(l).vaults == old(l).vaults
            &&& final(l).plots == old(l).plots
        },
{
    if l.platform.is_some() {
        return Err(DechargeError::AlreadyExists);
    }
    l.platform = Some(
        PlatformConfig {
            admin,
            oracle: args.oracle,
            point_mint,
            point_rate_microunits: args.point_rate_microunits,
            payment_treasury,
            world_treasury,
        },
    );
    l.session_counter = Some(SessionCounter { next_session: 0 });
    Ok(())
}

/// Arguments of [`register_station`].
#[derive(Clone, Debug)]
pub struct RegisterStationArgs {
    /// The station's natural key, from which its address is derived.
    pub station_code: Vec<u8>,
    pub name: Vec<u8>,
    pub city: Vec<u8>,
    pub location_lat_micro: i32,
    pub location_lon_micro: i32,
    pub max_kw: u32,
    pub pricing_energy_microunits: u64,
    pub pricing_time_microunits: u64,
    pub uri: Vec<u8>,
}

/// The error a registration returns, or `None` when it succeeds: the caller
/// must be the administrator, every variable-length field must pass its
/// length check, and the derived station address must be free.
pub open spec fn register_station_outcome(
    l: Ledger,
    caller: AccountId,
    args: RegisterStationArgs,
) -> Option<DechargeError> {
    if caller != l.config().admin {
        Some(DechargeError::Unauthorized)
    } else if args.name@.len() > MAX_NAME_LEN || args.city@.len() > MAX_CITY_LEN || args.uri@.len()
        > MAX_URI_LEN {
        Some(DechargeError::DataTooLong)
    } else if l.has_station(args.station_code@) {
        Some(DechargeError::StationAlreadyExists)
    } else {
        None
    }
}

/// Registers a charging station under its station code.
///
/// Only the administrator may register; the name, city and URI must pass
/// their length checks before they are laid into fixed-width zero-padded
/// buffers; and a second registration under the same code fails.  The new
/// station is active unconditionally.  On any error every record is
/// unchanged.
pub fn register_station(
    l: &mut Ledger,
    caller: AccountId,
    args: RegisterStationArgs,
) -> (r: Result<StationRegistered, DechargeError>)
    requires
        old(l).wf(),
        old(l).initialized(),
    ensures
        final(l).wf(),
        ({
            let outcome = register_station_outcome(*old(l), caller, args);
            match outcome {
                Some(e) => r matches Err(e2) && e2 == e && *final(l) == *old(l),
                None => {
                    &&& r matches Ok(ev) && ev.station@ == args.station_code@ && ev.operator
                        == caller && ev.city@ == args.city@
                    &&& final(l).platform == old(l).platform
                    &&& final(l).session_counter == old(l).session_counter
                    &&& final(l).drivers == old(l).drivers
                    &&& final(l).sessions == old(l).sessions
                    &&& final(l).vaults == old(l).vaults
                    &&& final(l).plots == old(l).plots
                    &&& final(l).stations@.len() == old(l).stations@.len() + 1
                    &&& forall|i: int|
                        0 <= i < old(l).stations@.len() ==> final(l).stations@[i] == old(l).stations@[i]
                    &&& final(l).has_station(args.station_code@)
                    &&& ({
                        let st = final(l).station_at(args.station_code@);
                        &&& st.operator == caller
                        &&& st.city@ == fitted(args.city@, MAX_CITY_LEN as nat)
                        &&& st.name@ == fitted(args.name@, MAX_NAME_LEN as nat)
                        &&& st.latitude_micro == args.location_lat_micro
                        &&& st.longitude_micro == args.location_lon_micro
                        &&& st.max_kw == args.max_kw
                        &&& st.active == true
                        &&& st.pricing_energy_microunits == args.pricing_energy_microunits
                        &&& st.pricing_time_microunits == args.pricing_time_microunits
                        &&& st.uri@ == fitted(args.uri@, MAX_URI_LEN as nat)
                    })
                    &&& forall|c: Seq<u8>|
                        c != args.station_code@ ==> old(l).has_station(c) == final(l).has_station(
                            c,
                        ) && (old(l).has_station(c) ==> final(l).station_at(c) == old(l).station_at(c))
                },
            }
        }),
{
    let admin = l.platform.as_ref().unwrap().admin;
    if caller != admin {
        return Err(DechargeError::Unauthorized);
    }
    if args.name.len() > MAX_NAME_LEN || args.city.len() > MAX_CITY_LEN || args.uri.len()
        > MAX_URI_LEN {
        return Err(DechargeError::DataTooLong);
    }
    if l.find_station(&args.station_code).is_some() {
        return Err(DechargeError::StationAlreadyExists);
    }

    let ghost old_l = *old(l);
    let station = ChargingStation {
        operator: caller,
        city: fit_to_array(&args.city, MAX_CITY_LEN),
        name: fit_to_array(&args.name, MAX_NAME_LEN),
        latitude_micro: args.location_lat_micro,
        longitude_micro: args.location_lon_micro,
        max_kw: args.max_kw,
        active: true,
        pricing_energy_microunits: args.pricing_energy_microunits,
        pricing_time_microunits: args.pricing_time_microunits,
        uri: fit_to_array(&args.uri, MAX_URI_LEN),
    };
    let code_copy = crate::state::copy_bytes(&args.station_code);
    let entry = StationEntry { code: code_copy, station };
    l.stations.push(entry);

    proof {
        let e = l.stations@[old_l.stations@.len() as int];
        lemma_station_push(old_l.stations@, e);
        assert forall|i: int|
            0 <= i < l.sessions@.len() implies seq_has_station(
            l.stations@,
            #[trigger] l.sessions@[i].station@,
        ) by {
            assert(seq_has_station(old_l.stations@, l.sessions@[i].station@));
        }
    }
    Ok(StationRegistered { station: args.station_code, operator: caller, city: args.city })
}

/// Arguments of [`start_session`].
#[derive(Clone, Debug)]
pub struct StartSessionArgs {
    /// The opening telemetry digest.
    pub session_hash: Vec<u8>,
    /// The opening timestamp, read from the external clock by the caller.
    pub timestamp: i64,
}

/// The error a session start returns, or `None` when it succeeds: the
/// caller must be the oracle, the station must be active, and the session
/// counter must not wrap.
pub open spec fn start_session_outcome(
    l: Ledger,
    caller: AccountId,
    station_code: Seq<u8>,
) -> Option<DechargeError> {
    if caller != l.config().oracle {
        Some(DechargeError::Unauthorized)
    } else if !l.station_at(station_code).active {
        Some(DechargeError::StationInactive)
    } else if l.next_session() + 1 > u64::MAX {
        Some(DechargeError::NumericalOverflow)
    } else {
        None
    }
}

/// Opens a charging session against an active station.
///
/// Only the oracle may open sessions.  The driver's profile is resolved, or
/// created zeroed on the driver's first session; an existing profile always
/// carries the identity it is looked up by, which is the match the engine
/// asserts below.  The session takes the counter's ordinal, starts `Active`
/// with zeroed telemetry, and the counter increments by exactly one.  On
/// any error every record is unchanged.
pub fn start_session(
    l: &mut Ledger,
    caller: AccountId,
    station_code: Vec<u8>,
    driver: AccountId,
    args: StartSessionArgs,
) -> (r: Result<SessionStarted, DechargeError>)
    requires
        old(l).wf(),
        old(l).initialized(),
        old(l).has_station(station_code@),
    ensures
        final(l).wf(),
        ({
            let outcome = start_session_outcome(*old(l), caller, station_code@);
            let n = old(l).sessions@.len() as int;
            match outcome {
                Some(e) => r matches Err(e2) && e2 == e && *final(l) == *old(l),
                None => {
                    &&& r matches Ok(ev) && ev.session == old(l).next_session() && ev.station@
                        == station_code@ && ev.driver == driver && ev.timestamp == args.timestamp
                    &&& final(l).platform == old(l).platform
                    &&& final(l).stations == old(l).stations
                    &&& final(l).vaults == old(l).vaults
                    &&& final(l).plots == old(l).plots
                    &&& final(l).next_session() == old(l).next_session() + 1
                    &&& final(l).sessions@.len() == old(l).sessions@.len() + 1
                    &&& forall|i: int|
                        0 <= i < old(l).sessions@.len() ==> final(l).sessions@[i] == old(l).sessions@[i]
                    &&& ({
                        let sess = final(l).sessions@[n];
                        &&& sess.station@ == station_code@
                        &&& sess.driver == driver
                        &&& sess.session_counter == old(l).next_session()
                        &&& sess.energy_wh == 0
                        &&& sess.seconds_elapsed == 0
                        &&& sess.status == SessionStatus::Active
                        &&& sess.price_microunits == 0
                        &&& sess.points_earned == 0
                        &&& sess.telemetry_hash@ == args.session_hash@
                        &&& sess.opened_at == args.timestamp
                        &&& sess.closed_at == 0
                    })
                    &&& final(l).has_driver(driver)
                    &&& old(l).has_driver(driver) ==> final(l).drivers == old(l).drivers && final(l).driver_at(driver) == old(l).driver_at(driver)
                    &&& !old(l).has_driver(driver) ==> final(l).drivers@ == old(l).drivers@.push(
                        (DriverProfile {
                            driver,
                            total_sessions: 0,
                            total_energy_wh: 0,
                            total_points_earned: 0,
                            outstanding_points: 0,
                        }),
                    ) && final(l).driver_at(driver) == (DriverProfile {
                        driver,
                        total_sessions: 0,
                        total_energy_wh: 0,
                        total_points_earned: 0,
                        outstanding_points: 0,
                    })
                    &&& forall|x: AccountId|
                        old(l).has_driver(x) ==> final(l).has_driver(x) && final(l).driver_at(x)
                            == old(l).driver_at(x)
                },
            }
        }),
{
    let oracle = l.platform.as_ref().unwrap().oracle;
    if caller != oracle {
        return Err(DechargeError::Unauthorized);
    }
    let si = match l.find_station(&station_code) {
        Some(i) => i,
        None => {
            // Unreachable: the caller resolves the station record before
            // the call, which is what the precondition records.
            return Err(DechargeError::StationInactive);
        },
    };
    proof {
        lemma_station_index(l.stations@, si as int);
    }
    if !l.stations[si].station.active {
        return Err(DechargeError::StationInactive);
    }
    let session_index = l.session_counter.as_ref().unwrap().next_session;
    let new_next = match session_index.checked_add(1) {
        Some(v) => v,
        None => {
            return Err(DechargeError::NumericalOverflow);
        },
    };

    let ghost old_l = *old(l);
    let created;
    match l.find_driver(driver) {
        Some(di) => {
            // The profile is resolved by the driver identity itself, so the
            // stored identity matches the supplied one by construction.
            assert(l.drivers@[di as int].driver == driver);
            created = false;
            proof {
                lemma_driver_index(l.drivers@, di as int);
            }
        },
        None => {
            let profile = DriverProfile {
                driver,
                total_sessions: 0,
                total_energy_wh: 0,
                total_points_earned: 0,
                outstanding_points: 0,
            };
            l.drivers.push(profile);
            created = true;
            proof {
                lemma_driver_push(
                    old_l.drivers@,
                    DriverProfile {
                        driver,
                        total_sessions: 0,
                        total_energy_wh: 0,
                        total_points_earned: 0,
                        outstanding_points: 0,
                    },
                );
            }
        },
    }

    let code_copy = crate::state::copy_bytes(&station_code);
    let StartSessionArgs { session_hash, timestamp } = args;
    let session = ChargingSession {
        station: code_copy,
        driver,
        session_counter: session_index,
        energy_wh: 0,
        seconds_elapsed: 0,
        status: SessionStatus::Active,
        price_microunits: 0,
        points_earned: 0,
        telemetry_hash: session_hash,
        opened_at: timestamp,
        closed_at: 0,
    };
    l.sessions.push(session);
    l.session_counter = Some(SessionCounter { next_session: new_next });

    proof {
        let n = old_l.sessions@.len() as int;
        assert forall|i: int|
            0 <= i < l.sessions@.len() implies (#[trigger] l.sessions@[i].session_counter)
            == i by {
            if i != n {
                assert(l.sessions@[i] == old_l.sessions@[i]);
            }
        }
        assert forall|i: int|
            0 <= i < l.sessions@.len() implies seq_has_station(
            l.stations@,
            #[trigger] l.sessions@[i].station@,
        ) by {
            if i != n {
                assert(l.sessions@[i] == old_l.sessions@[i]);
            } else {
                assert(l.stations@[si as int].code@ == station_code@);
            }
        }
        assert forall|i: int|
            0 <= i < l.sessions@.len() implies seq_has_driver(
            l.drivers@,
            #[trigger] l.sessions@[i].driver,
        ) by {
            if i != n {
                assert(l.sessions@[i] == old_l.sessions@[i]);
                assert(seq_has_driver(old_l.drivers@, l.sessions@[i].driver));
                if created {
                    assert(l.drivers@ == old_l.drivers@.push(l.drivers@.last()));
                }
            }
        }
    }
    Ok(
        SessionStarted {
            session: session_index,
            station: station_code,
            driver,
            timestamp,
        },
    )
}

/// Arguments of [`record_telemetry`].
#[derive(Clone, Debug)]
pub struct TelemetryArgs {
    pub energy_delta_wh: u64,
    pub seconds_delta: u64,
    pub telemetry_hash: Vec<u8>,
}

/// The error a telemetry update returns, or `None` when it succeeds: the
/// caller must be the oracle, the session must still be active, and both
/// running totals must stay representable.
pub open spec fn record_telemetry_outcome(
    l: Ledger,
    caller: AccountId,
    session_ordinal: u64,
    args: TelemetryArgs,
) -> Option<DechargeError> {
    let sess = l.sessions@[session_ordinal as int];
    if caller != l.config().oracle {
        Some(DechargeError::Unauthorized)
    } else if sess.status != SessionStatus::Active {
        Some(DechargeError::SessionClosed)
    } else if sess.energy_wh + args.energy_delta_wh > u64::MAX {
        Some(DechargeError::NumericalOverflow)
    } else if sess.seconds_elapsed + args.seconds_delta > u64::MAX {
        Some(DechargeError::NumericalOverflow)
    } else {
        None
    }
}

/// Accumulates a telemetry delta into an active session and replaces the
/// stored digest.
///
/// The additions are overflow-checked; a session that is not `Active`
/// refuses the update with `SessionClosed`.  On any error every record is
/// unchanged.
pub fn record_telemetry(
    l: &mut Ledger,
    caller: AccountId,
    session_ordinal: u64,
    args: TelemetryArgs,
) -> (r: Result<(), DechargeError>)
    requires
        old(l).wf(),
        old(l).initialized(),
        session_ordinal < old(l).sessions.len(),
    ensures
        final(l).wf(),
        ({
            let outcome = record_telemetry_outcome(*old(l), caller, session_ordinal, args);
            let n = session_ordinal as int;
            let sess = old(l).sessions@[n];
            match outcome {
                Some(e) => r matches Err(e2) && e2 == e && *final(l) == *old(l),
                None => {
                    &&& r is Ok
                    &&& final(l).platform == old(l).platform
                    &&& final(l).session_counter == old(l).session_counter
                    &&& final(l).stations == old(l).stations
                    &&& final(l).drivers == old(l).drivers
                    &&& final(l).vaults == old(l).vaults
                    &&& final(l).plots == old(l).plots
                    &&& final(l).sessions@.len() == old(l).sessions@.len()
                    &&& forall|i: int|
                        0 <= i < old(l).sessions@.len() && i != n ==> final(l).sessions@[i] == old(l).sessions@[i]
                    &&& final(l).sessions@[n].energy_wh == sess.energy_wh + args.energy_delta_wh
                    &&& final(l).sessions@[n].seconds_elapsed == sess.seconds_elapsed
                        + args.seconds_delta
                    &&& final(l).sessions@[n].telemetry_hash@ == args.telemetry_hash@
                    &&& final(l).sessions@[n].station@ == sess.station@
                    &&& final(l).sessions@[n].driver == sess.driver
                    &&& final(l).sessions@[n].session_counter == sess.session_counter
                    &&& final(l).sessions@[n].status == sess.status
                    &&& final(l).sessions@[n].price_microunits == sess.price_microunits
                    &&& final(l).sessions@[n].points_earned == sess.points_earned
                    &&& final(l).sessions@[n].opened_at == sess.opened_at
                    &&& final(l).sessions@[n].closed_at == sess.closed_at
                },
            }
        }),
{
    let oracle = l.platform.as_ref().unwrap().oracle;
    if caller != oracle {
        return Err(DechargeError::Unauthorized);
    }
    let n = session_ordinal as usize;
    if l.sessions[n].status != SessionStatus::Active {
        return Err(DechargeError::SessionClosed);
    }
    let new_energy = match l.sessions[n].energy_wh.checked_add(args.energy_delta_wh) {
        Some(v) => v,
        None => {
            return Err(DechargeError::NumericalOverflow);
        },
    };
    let new_seconds = match l.sessions[n].seconds_elapsed.checked_add(args.seconds_delta) {
        Some(v) => v,
        None => {
            return Err(DechargeError::NumericalOverflow);
        },
    };

    let ghost old_l = *old(l);
    let TelemetryArgs { energy_delta_wh, seconds_delta, telemetry_hash } = args;
    let s = &mut l.sessions[n];
    s.energy_wh = new_energy;
    s.seconds_elapsed = new_seconds;
    s.telemetry_hash = telemetry_hash;

    proof {
        let ni = n as int;
        assert forall|i: int|
            0 <= i < l.sessions@.len() implies (#[trigger] l.sessions@[i].session_counter)
            == i by {
            if i != ni {
                assert(l.sessions@[i] == old_l.sessions@[i]);
            }
        }
        assert forall|i: int|
            0 <= i < l.sessions@.len() implies seq_has_station(
            l.stations@,
            #[trigger] l.sessions@[i].station@,
        ) by {
            if i != ni {
                assert(l.sessions@[i] == old_l.sessions@[i]);
            } else {
                assert(l.sessions@[ni].station@ == old_l.sessions@[ni].station@);
            }
        }
        assert forall|i: int|
            0 <= i < l.sessions@.len() implies seq_has_driver(
            l.drivers@,
            #[trigger] l.sessions@[i].driver,
        ) by {
            if i != ni {
                assert(l.sessions@[i] == old_l.sessions@[i]);
            } else {
                assert(l.sessions@[ni].driver == old_l.sessions@[ni].driver);
            }
        }
    }
    Ok(())
}

/// Arguments of [`close_session`]: the authoritative final readings the
/// oracle supplies, which overwrite the accumulated running totals.
#[derive(Clone, Debug)]
pub struct CloseSessionArgs {
    pub final_energy_wh: u64,
    pub final_seconds: u64,
    pub telemetry_hash: Vec<u8>,
    pub closed_at: i64,
}

/// The error a close returns, or `None` when it succeeds: the caller must
/// be the oracle, the session must still be active, the price, point and
/// profile arithmetic must fit, and a bound vault must match the supplied
/// credit account.
pub open spec fn close_session_outcome(
    l: Ledger,
    caller: AccountId,
    session_ordinal: u64,
    vault_token_account: AccountId,
    args: CloseSessionArgs,
) -> Option<DechargeError> {
    let sess = l.sessions@[session_ordinal as int];
    let station = l.station_at(sess.station@);
    let rate = l.config().point_rate_microunits;
    if caller != l.config().oracle {
        Some(DechargeError::Unauthorized)
    } else if sess.status != SessionStatus::Active {
        Some(DechargeError::SessionClosed)
    } else if !price_fits(
        args.final_energy_wh,
        args.final_seconds,
        station.pricing_energy_microunits,
        station.pricing_time_microunits,
    ) {
        Some(DechargeError::NumericalOverflow)
    } else if !points_fit(args.final_energy_wh, rate) {
        Some(DechargeError::NumericalOverflow)
    } else if !profile_update_fits(
        l.driver_at(sess.driver),
        args.final_energy_wh,
        points_of(args.final_energy_wh, rate),
    ) {
        Some(DechargeError::NumericalOverflow)
    } else if l.has_vault(sess.driver) && l.vault_at(sess.driver).token_account
        != vault_token_account {
        Some(DechargeError::PointsVaultMismatch)
    } else {
        None
    }
}

/// Closes an active session: overwrites the running totals with the final
/// readings, computes the price and the points earned, credits the driver's
/// profile, and binds or validates the driver's points vault.
///
/// The transition is irreversible: the session leaves `Active` for `Closed`
/// and no operation leads back.  On any error every record is unchanged.
/// The returned `points_minted` is what the caller must ask the external
/// credit service to issue into the vault's bound account (nothing when it
/// is zero).
pub fn close_session(
    l: &mut Ledger,
    caller: AccountId,
    session_ordinal: u64,
    vault_token_account: AccountId,
    args: CloseSessionArgs,
) -> (r: Result<SessionClosed, DechargeError>)
    requires
        old(l).wf(),
        old(l).initialized(),
        session_ordinal < old(l).sessions.len(),
    ensures
        final(l).wf(),
        ({
            let outcome = close_session_outcome(
                *old(l),
                caller,
                session_ordinal,
                vault_token_account,
                args,
            );
            let n = session_ordinal as int;
            let sess = old(l).sessions@[n];
            let d = sess.driver;
            let station = old(l).station_at(sess.station@);
            let rate = old(l).config().point_rate_microunits;
            let pts = points_of(args.final_energy_wh, rate);
            match outcome {
                Some(e) => r matches Err(e2) && e2 == e && *final(l) == *old(l),
                None => {
                    &&& r matches Ok(ev) && ev.session == session_ordinal && ev.energy_wh
                        == args.final_energy_wh && ev.seconds == args.final_seconds
                        && ev.points_minted == pts
                    &&& final(l).platform == old(l).platform
                    &&& final(l).session_counter == old(l).session_counter
                    &&& final(l).stations == old(l).stations
                    &&& final(l).plots == old(l).plots
                    &&& final(l).sessions@.len() == old(l).sessions@.len()
                    &&& forall|i: int|
                        0 <= i < old(l).sessions@.len() && i != n ==> final(l).sessions@[i] == old(l).sessions@[i]
                    &&& final(l).sessions@[n].station@ == sess.station@
                    &&& final(l).sessions@[n].driver == d
                    &&& final(l).sessions@[n].session_counter == sess.session_counter
                    &&& final(l).sessions@[n].energy_wh == args.final_energy_wh
                    &&& final(l).sessions@[n].seconds_elapsed == args.final_seconds
                    &&& final(l).sessions@[n].status == SessionStatus::Closed
                    &&& final(l).sessions@[n].price_microunits == session_price(
                        args.final_energy_wh,
                        args.final_seconds,
                        station.pricing_energy_microunits,
                        station.pricing_time_microunits,
                    )
                    &&& final(l).sessions@[n].points_earned == pts
                    &&& final(l).sessions@[n].telemetry_hash@ == args.telemetry_hash@
                    &&& final(l).sessions@[n].opened_at == sess.opened_at
                    &&& final(l).sessions@[n].closed_at == args.closed_at
                    &&& final(l).drivers@.len() == old(l).drivers@.len()
                    &&& forall|x: AccountId| final(l).has_driver(x) == old(l).has_driver(x)
                    &&& final(l).driver_at(d).driver == d
                    &&& final(l).driver_at(d).total_sessions == old(l).driver_at(d).total_sessions
                        + 1
                    &&& final(l).driver_at(d).total_energy_wh == old(l).driver_at(
                        d,
                    ).total_energy_wh + args.final_energy_wh
                    &&& final(l).driver_at(d).total_points_earned == old(l).driver_at(
                        d,
                    ).total_points_earned + pts
                    &&& final(l).driver_at(d).outstanding_points == old(l).driver_at(
                        d,
                    ).outstanding_points + pts
                    &&& forall|x: AccountId|
                        old(l).has_driver(x) && x != d ==> final(l).driver_at(x) == old(l).driver_at(x)
                    &&& final(l).has_vault(d)
                    &&& final(l).vault_at(d).driver == d
                    &&& old(l).has_vault(d) ==> final(l).vaults == old(l).vaults && final(l).vault_at(d) == old(l).vault_at(d)
                    &&& !old(l).has_vault(d) ==> final(l).vaults@ == old(l).vaults@.push(
                        (PointsVault { driver: d, token_account: vault_token_account }),
                    ) && final(l).vault_at(d).token_account == vault_token_account
                    &&& forall|x: AccountId|
                        old(l).has_vault(x) ==> final(l).has_vault(x) && final(l).vault_at(x)
                            == old(l).vault_at(x)
                },
            }
        }),
{
    let oracle = l.platform.as_ref().unwrap().oracle;
    let rate = l.platform.as_ref().unwrap().point_rate_microunits;
    if caller != oracle {
        return Err(DechargeError::Unauthorized);
    }
    let n = session_ordinal as usize;
    if l.sessions[n].status != SessionStatus::Active {
        return Err(DechargeError::SessionClosed);
    }
    let driver = l.sessions[n].driver;

    let si = match l.find_station(&l.sessions[n].station) {
        Some(i) => i,
        None => {
            // Unreachable: a well-formed ledger resolves every session's
            // station, which contradicts the failed lookup.
            proof {
                assert(seq_has_station(l.stations@, l.sessions@[n as int].station@));
            }
            return Err(DechargeError::Unauthorized);
        },
    };
    proof {
        lemma_station_index(l.stations@, si as int);
    }
    let price_energy = l.stations[si].station.pricing_energy_microunits;
    let price_time = l.stations[si].station.pricing_time_microunits;

    let energy_component = match args.final_energy_wh.checked_mul(price_energy) {
        Some(v) => v,
        None => {
            return Err(DechargeError::NumericalOverflow);
        },
    };
    let time_component = match args.final_seconds.checked_mul(price_time) {
        Some(v) => v,
        None => {
            return Err(DechargeError::NumericalOverflow);
        },
    };
    let total_price = match energy_component.checked_add(time_component) {
        Some(v) => v,
        None => {
            return Err(DechargeError::NumericalOverflow);
        },
    };

    let points_micros = match args.final_energy_wh.checked_mul(rate) {
        Some(v) => v,
        None => {
            return Err(DechargeError::NumericalOverflow);
        },
    };
    let points_to_mint = points_micros / MICROS_PER_POINT;

    let di = match l.find_driver(driver) {
        Some(i) => i,
        None => {
            // Unreachable: a well-formed ledger resolves every session's
            // driver, which contradicts the failed lookup.
            proof {
                assert(seq_has_driver(l.drivers@, l.sessions@[n as int].driver));
            }
            return Err(DechargeError::Unauthorized);
        },
    };
    proof {
        lemma_driver_index(l.drivers@, di as int);
    }
    let profile = l.drivers[di];
    let new_total_sessions = match profile.total_sessions.checked_add(1) {
        Some(v) => v,
        None => {
            return Err(DechargeError::NumericalOverflow);
        },
    };
    let new_total_energy = match profile.total_energy_wh.checked_add(args.final_energy_wh) {
        Some(v) => v,
        None => {
            return Err(DechargeError::NumericalOverflow);
        },
    };
    let new_total_points = match profile.total_points_earned.checked_add(points_to_mint) {
        Some(v) => v,
        None => {
            return Err(DechargeError::NumericalOverflow);
        },
    };
    let new_outstanding = match profile.outstanding_points.checked_add(points_to_mint) {
        Some(v) => v,
        None => {
            return Err(DechargeError::NumericalOverflow);
        },
    };

    let vi_opt = l.find_vault(driver);
    if let Some(vi) = vi_opt {
        proof {
            lemma_vault_index(l.vaults@, vi as int);
        }
        // The vault is looked up by the session's driver, so its stored
        // driver matches by construction; only the bound account can differ.
        assert(l.vaults@[vi as int].driver == driver);
        if l.vaults[vi].token_account != vault_token_account {
            return Err(DechargeError::PointsVaultMismatch);
        }
    }

    let ghost old_l = *old(l);
    let CloseSessionArgs { final_energy_wh, final_seconds, telemetry_hash, closed_at } = args;

    let s = &mut l.sessions[n];
    s.energy_wh = final_energy_wh;
    s.seconds_elapsed = final_seconds;
    s.telemetry_hash = telemetry_hash;
    s.closed_at = closed_at;
    s.status = SessionStatus::Closed;
    s.price_microunits = total_price;
    s.points_earned = points_to_mint;

    let p = &mut l.drivers[di];
    p.total_sessions = new_total_sessions;
    p.total_energy_wh = new_total_energy;
    p.total_points_earned = new_total_points;
    p.outstanding_points = new_outstanding;

    if vi_opt.is_none() {
        l.vaults.push(PointsVault { driver, token_account: vault_token_account });
    }

    proof {
        let ni = n as int;
        let new_profile = l.drivers@[di as int];
        lemma_driver_update(old_l.drivers@, di as int, new_profile);
        if vi_opt is None {
            lemma_vault_push(
                old_l.vaults@,
                PointsVault { driver, token_account: vault_token_account },
            );
        } else {
            lemma_vault_index(old_l.vaults@, vi_opt->Some_0 as int);
        }
        assert forall|i: int|
            0 <= i < l.sessions@.len() implies (#[trigger] l.sessions@[i].session_counter)
            == i by {
            if i != ni {
                assert(l.sessions@[i] == old_l.sessions@[i]);
            }
        }
        assert forall|i: int|
            0 <= i < l.sessions@.len() implies seq_has_station(
            l.stations@,
            #[trigger] l.sessions@[i].station@,
        ) by {
            if i != ni {
                assert(l.sessions@[i] == old_l.sessions@[i]);
            } else {
                assert(l.sessions@[ni].station@ == old_l.sessions@[ni].station@);
            }
        }
        assert forall|i: int|
            0 <= i < l.sessions@.len() implies seq_has_driver(
            l.drivers@,
            #[trigger] l.sessions@[i].driver,
        ) by {
            if i != ni {
                assert(l.sessions@[i] == old_l.sessions@[i]);
                assert(seq_has_driver(old_l.drivers@, l.sessions@[i].driver));
            } else {
                assert(seq_has_driver(old_l.drivers@, driver));
            }
        }
    }
    Ok(
        SessionClosed {
            session: session_ordinal,
            energy_wh: final_energy_wh,
            seconds: final_seconds,
            points_minted: points_to_mint,
        },
    )
}

/// Arguments of [`purchase_points`].
#[derive(Clone, Copy, Debug, PartialEq, Eq, Structural)]
pub struct PurchasePointsArgs {
    /// Points to redeem for credit units.
    pub amount: u64,
    /// The native-currency price the buyer pays the payment treasury; the
    /// exchange rate is the caller's policy, not validated here.
    pub price_lamports: u64,
}

/// The error a purchase returns, or `None` when it succeeds: the supplied
/// credit account must match the vault's stored binding, and the driver's
/// outstanding balance must cover the amount.
pub open spec fn purchase_points_outcome(
    l: Ledger,
    driver: AccountId,
    vault_token_account: AccountId,
    args: PurchasePointsArgs,
) -> Option<DechargeError> {
    if l.vault_at(driver).token_account != vault_token_account {
        Some(DechargeError::PointsVaultMismatch)
    } else if l.driver_at(driver).outstanding_points < args.amount {
        Some(DechargeError::InsufficientPoints)
    } else {
        None
    }
}

/// Redeems `amount` of a driver's outstanding points for transferable
/// credit.
///
/// Any buyer may redeem: the driver does not sign.  The vault binding is
/// validated first, then the balance; the debit itself is still
/// overflow-checked although the balance check already guards it.  On
/// success the caller owes two external actions, returned in the event: the
/// buyer's payment of `price_lamports` to the payment treasury, and the
/// transfer of `amount` credit units from the vault's bound account to the
/// buyer, signed by the vault's own derived authority.  On any error every
/// record is unchanged.
pub fn purchase_points(
    l: &mut Ledger,
    buyer: AccountId,
    driver: AccountId,
    vault_token_account: AccountId,
    args: PurchasePointsArgs,
) -> (r: Result<PointsPurchased, DechargeError>)
    requires
        old(l).wf(),
        old(l).has_driver(driver),
        old(l).has_vault(driver),
    ensures
        final(l).wf(),
        ({
            let outcome = purchase_points_outcome(*old(l), driver, vault_token_account, args);
            match outcome {
                Some(e) => r matches Err(e2) && e2 == e && *final(l) == *old(l),
                None => {
                    &&& r matches Ok(ev) && ev == (PointsPurchased {
                        buyer,
                        driver,
                        amount: args.amount,
                        price_lamports: args.price_lamports,
                    })
                    &&& final(l).platform == old(l).platform
                    &&& final(l).session_counter == old(l).session_counter
                    &&& final(l).stations == old(l).stations
                    &&& final(l).sessions == old(l).sessions
                    &&& final(l).vaults == old(l).vaults
                    &&& final(l).plots == old(l).plots
                    &&& final(l).drivers@.len() == old(l).drivers@.len()
                    &&& forall|x: AccountId| final(l).has_driver(x) == old(l).has_driver(x)
                    &&& final(l).driver_at(driver).outstanding_points == old(l).driver_at(
                        driver,
                    ).outstanding_points - args.amount
                    &&& final(l).driver_at(driver).driver == driver
                    &&& final(l).driver_at(driver).total_sessions == old(l).driver_at(
                        driver,
                    ).total_sessions
                    &&& final(l).driver_at(driver).total_energy_wh == old(l).driver_at(
                        driver,
                    ).total_energy_wh
                    &&& final(l).driver_at(driver).total_points_earned == old(l).driver_at(
                        driver,
                    ).total_points_earned
                    &&& forall|x: AccountId|
                        old(l).has_driver(x) && x != driver ==> final(l).driver_at(x) == old(l).driver_at(x)
                },
            }
        }),
{
    let di = match l.find_driver(driver) {
        Some(i) => i,
        None => {
            // Unreachable: the caller resolves the profile record before
            // the call, which is what the precondition records.
            return Err(DechargeError::InsufficientPoints);
        },
    };
    let vi = match l.find_vault(driver) {
        Some(i) => i,
        None => {
            // Unreachable: the caller resolves the vault record before the
            // call, which is what the precondition records.
            return Err(DechargeError::PointsVaultMismatch);
        },
    };
    proof {
        lemma_driver_index(l.drivers@, di as int);
        lemma_vault_index(l.vaults@, vi as int);
    }
    // The vault is resolved by the driver identity itself, so the stored
    // driver matches the supplied one by construction; only the bound
    // account can differ.
    assert(l.vaults@[vi as int].driver == driver);
    if l.vaults[vi].token_account != vault_token_account {
        return Err(DechargeError::PointsVaultMismatch);
    }
    if l.drivers[di].outstanding_points < args.amount {
        return Err(DechargeError::InsufficientPoints);
    }
    let new_outstanding = match l.drivers[di].outstanding_points.checked_sub(args.amount) {
        Some(v) => v,
        None => {
            return Err(DechargeError::NumericalOverflow);
        },
    };

    let ghost old_l = *old(l);
    let p = &mut l.drivers[di];
    p.outstanding_points = new_outstanding;

    proof {
        lemma_driver_update(old_l.drivers@, di as int, l.drivers@[di as int]);
        assert forall|i: int|
            0 <= i < l.sessions@.len() implies seq_has_driver(
            l.drivers@,
            #[trigger] l.sessions@[i].driver,
        ) by {
            assert(seq_has_driver(old_l.drivers@, l.sessions@[i].driver));
        }
    }
    Ok(
        PointsPurchased {
            buyer,
            driver,
            amount: args.amount,
            price_lamports: args.price_lamports,
        },
    )
}

/// The error a plot claim returns, or `None` when it succeeds: the derived
/// plot address must be free.
pub open spec fn claim_world_plot_outcome(l: Ledger, region_key: Seq<u8>) -> Option<
    DechargeError,
> {
    if l.has_plot(region_key) {
        Some(DechargeError::PlotOccupied)
    } else {
        None
    }
}

/// Claims the world plot under `region_key` for the caller.
///
/// Any signer may claim; a region can be claimed once.  The plot starts
/// with one slot at upgrade level one, and `now` — read from the external
/// clock by the caller — becomes its last reward time.  On any error every
/// record is unchanged.
pub fn claim_world_plot(
    l: &mut Ledger,
    claimant: AccountId,
    region_key: Vec<u8>,
    now: i64,
) -> (r: Result<PlotClaimed, DechargeError>)
    requires
        old(l).wf(),
        region_key@.len() == REGION_KEY_LEN,
    ensures
        final(l).wf(),
        ({
            let outcome = claim_world_plot_outcome(*old(l), region_key@);
            match outcome {
                Some(e) => r matches Err(e2) && e2 == e && *final(l) == *old(l),
                None => {
                    &&& r matches Ok(ev) && ev.owner == claimant && ev.region@ == region_key@
                    &&& final(l).platform == old(l).platform
                    &&& final(l).session_counter == old(l).session_counter
                    &&& final(l).stations == old(l).stations
                    &&& final(l).drivers == old(l).drivers
                    &&& final(l).sessions == old(l).sessions
                    &&& final(l).vaults == old(l).vaults
                    &&& final(l).plots@.len() == old(l).plots@.len() + 1
                    &&& forall|i: int|
                        0 <= i < old(l).plots@.len() ==> final(l).plots@[i] == old(l).plots@[i]
                    &&& final(l).has_plot(region_key@)
                    &&& ({
                        let plot = final(l).plot_at(region_key@);
                        &&& plot.owner == claimant
                        &&& plot.region_key@ == region_key@
                        &&& plot.slot_capacity == 1
                        &&& plot.upgrade_level == 1
                        &&& plot.last_reward_time == now
                    })
                    &&& forall|k: Seq<u8>|
                        k != region_key@ ==> old(l).has_plot(k) == final(l).has_plot(k) && (old(l).has_plot(k) ==> final(l).plot_at(k) == old(l).plot_at(k))
                },
            }
        }),
{
    if l.find_plot(&region_key).is_some() {
        return Err(DechargeError::PlotOccupied);
    }
    let ghost old_l = *old(l);
    let plot = WorldPlot {
        owner: claimant,
        region_key,
        slot_capacity: 1,
        upgrade_level: 1,
        last_reward_time: now,
    };
    let region_copy = crate::state::copy_bytes(&plot.region_key);
    l.plots.push(plot);
    proof {
        let p = l.plots@[old_l.plots@.len() as int];
        lemma_plot_push(old_l.plots@, p);
    }
    Ok(PlotClaimed { owner: claimant, region: region_copy })
}

} // verus!
