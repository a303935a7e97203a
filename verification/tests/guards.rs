//! Authorization, uniqueness, length and overflow guards.

use decharge::errors::DechargeError;
use decharge::instructions::{
    claim_world_plot, close_session, initialize_platform, record_telemetry, register_station,
    start_session, CloseSessionArgs, InitializePlatformArgs, RegisterStationArgs,
    StartSessionArgs, TelemetryArgs,
};
use decharge::ledger::Ledger;
use decharge::state::{AccountId, SessionStatus};

fn account(n: u128) -> AccountId {
    AccountId::new(0, n)
}

fn admin() -> AccountId {
    account(1)
}

fn oracle() -> AccountId {
    account(2)
}

fn station_args(code: &str) -> RegisterStationArgs {
    RegisterStationArgs {
        station_code: code.as_bytes().to_vec(),
        name: "Depot".as_bytes().to_vec(),
        city: "Lisbon".as_bytes().to_vec(),
        location_lat_micro: 38_722_252,
        location_lon_micro: -9_139_337,
        max_kw: 50,
        pricing_energy_microunits: 2,
        pricing_time_microunits: 1,
        uri: "ipfs://station-depot".as_bytes().to_vec(),
    }
}

fn setup() -> Ledger {
    let mut l = Ledger::new();
    initialize_platform(
        &mut l,
        admin(),
        account(3),
        account(4),
        account(5),
        InitializePlatformArgs { oracle: oracle(), point_rate_microunits: 1_000_000 },
    )
    .unwrap();
    register_station(&mut l, admin(), station_args("ST1")).unwrap();
    l
}

fn start(l: &mut Ledger, driver: AccountId) -> u64 {
    start_session(
        l,
        oracle(),
        "ST1".as_bytes().to_vec(),
        driver,
        StartSessionArgs { session_hash: vec![0u8; 32], timestamp: 1 },
    )
    .unwrap()
    .session
}

#[test]
fn platform_initializes_once() {
    let mut l = setup();
    let again = initialize_platform(
        &mut l,
        account(9),
        account(3),
        account(4),
        account(5),
        InitializePlatformArgs { oracle: oracle(), point_rate_microunits: 7 },
    );
    assert_eq!(again.unwrap_err(), DechargeError::AlreadyExists);
    // The singleton keeps its original contents.
    let config = l.platform.as_ref().unwrap();
    assert_eq!(config.admin, admin());
    assert_eq!(config.point_rate_microunits, 1_000_000);
}

#[test]
fn duplicate_station_code_is_rejected() {
    let mut l = setup();
    let again = register_station(&mut l, admin(), station_args("ST1"));
    assert_eq!(again.unwrap_err(), DechargeError::StationAlreadyExists);
    assert_eq!(l.stations.len(), 1);

    register_station(&mut l, admin(), station_args("ST2")).unwrap();
    assert_eq!(l.stations.len(), 2);
}

#[test]
fn register_station_requires_admin() {
    let mut l = setup();
    let r = register_station(&mut l, oracle(), station_args("ST2"));
    assert_eq!(r.unwrap_err(), DechargeError::Unauthorized);
    assert_eq!(l.stations.len(), 1);
}

#[test]
fn session_operations_require_oracle() {
    let mut l = setup();
    let intruder = account(66);

    let s = start_session(
        &mut l,
        intruder,
        "ST1".as_bytes().to_vec(),
        account(10),
        StartSessionArgs { session_hash: vec![0u8; 32], timestamp: 1 },
    );
    assert_eq!(s.unwrap_err(), DechargeError::Unauthorized);
    assert_eq!(l.sessions.len(), 0);

    let ordinal = start(&mut l, account(10));
    let t = record_telemetry(
        &mut l,
        intruder,
        ordinal,
        TelemetryArgs { energy_delta_wh: 1, seconds_delta: 1, telemetry_hash: vec![0u8; 32] },
    );
    assert_eq!(t.unwrap_err(), DechargeError::Unauthorized);
    assert_eq!(l.sessions[0].energy_wh, 0);

    let c = close_session(
        &mut l,
        intruder,
        ordinal,
        account(20),
        CloseSessionArgs {
            final_energy_wh: 1,
            final_seconds: 1,
            telemetry_hash: vec![0u8; 32],
            closed_at: 2,
        },
    );
    assert_eq!(c.unwrap_err(), DechargeError::Unauthorized);
    assert!(matches!(l.sessions[0].status, SessionStatus::Active));
}

#[test]
fn overlong_fields_are_rejected() {
    let mut l = setup();
    let mut args = station_args("ST2");
    args.name = vec![b'x'; 65];
    assert_eq!(
        register_station(&mut l, admin(), args).unwrap_err(),
        DechargeError::DataTooLong
    );

    let mut args = station_args("ST2");
    args.city = vec![b'x'; 49];
    assert_eq!(
        register_station(&mut l, admin(), args).unwrap_err(),
        DechargeError::DataTooLong
    );

    let mut args = station_args("ST2");
    args.uri = vec![b'x'; 129];
    assert_eq!(
        register_station(&mut l, admin(), args).unwrap_err(),
        DechargeError::DataTooLong
    );
    assert_eq!(l.stations.len(), 1);
}

#[test]
fn station_fields_are_padded_to_width() {
    let l = setup();
    let station = &l.stations[0].station;
    assert_eq!(station.name.len(), 64);
    assert_eq!(station.city.len(), 48);
    assert_eq!(station.uri.len(), 128);
    assert_eq!(&station.city[..6], "Lisbon".as_bytes());
    assert!(station.city[6..].iter().all(|b| *b == 0));
    assert!(station.active);
}

#[test]
fn inactive_station_refuses_sessions() {
    let mut l = setup();
    l.stations[0].station.active = false;
    let r = start_session(
        &mut l,
        oracle(),
        "ST1".as_bytes().to_vec(),
        account(10),
        StartSessionArgs { session_hash: vec![0u8; 32], timestamp: 1 },
    );
    assert_eq!(r.unwrap_err(), DechargeError::StationInactive);
    assert_eq!(l.sessions.len(), 0);
}

#[test]
fn telemetry_overflow_is_rejected_atomically() {
    let mut l = setup();
    let ordinal = start(&mut l, account(10));
    record_telemetry(
        &mut l,
        oracle(),
        ordinal,
        TelemetryArgs { energy_delta_wh: 10, seconds_delta: 20, telemetry_hash: vec![1u8; 32] },
    )
    .unwrap();

    let r = record_telemetry(
        &mut l,
        oracle(),
        ordinal,
        TelemetryArgs {
            energy_delta_wh: u64::MAX,
            seconds_delta: 1,
            telemetry_hash: vec![2u8; 32],
        },
    );
    assert_eq!(r.unwrap_err(), DechargeError::NumericalOverflow);
    // Neither total moved and the digest stayed.
    assert_eq!(l.sessions[0].energy_wh, 10);
    assert_eq!(l.sessions[0].seconds_elapsed, 20);
    assert_eq!(l.sessions[0].telemetry_hash, vec![1u8; 32]);

    // A seconds overflow is caught even when the energy addition fits.
    let r = record_telemetry(
        &mut l,
        oracle(),
        ordinal,
        TelemetryArgs {
            energy_delta_wh: 1,
            seconds_delta: u64::MAX,
            telemetry_hash: vec![3u8; 32],
        },
    );
    assert_eq!(r.unwrap_err(), DechargeError::NumericalOverflow);
    assert_eq!(l.sessions[0].energy_wh, 10);
}

#[test]
fn close_price_overflow_is_rejected_atomically() {
    let mut l = setup();
    let ordinal = start(&mut l, account(10));
    let r = close_session(
        &mut l,
        oracle(),
        ordinal,
        account(20),
        CloseSessionArgs {
            final_energy_wh: u64::MAX,
            final_seconds: 1,
            telemetry_hash: vec![0u8; 32],
            closed_at: 2,
        },
    );
    assert_eq!(r.unwrap_err(), DechargeError::NumericalOverflow);
    assert!(matches!(l.sessions[0].status, SessionStatus::Active));
    assert_eq!(l.sessions[0].energy_wh, 0);
    assert_eq!(l.drivers[0].total_sessions, 0);
    assert_eq!(l.vaults.len(), 0);
}

#[test]
fn profile_totals_overflow_is_rejected_atomically() {
    let mut l = setup();
    let driver = account(10);
    let ordinal = start(&mut l, driver);
    // Pre-load the profile so the next credit would wrap its lifetime total.
    l.drivers[0].total_points_earned = u64::MAX;
    l.drivers[0].outstanding_points = u64::MAX;
    let r = close_session(
        &mut l,
        oracle(),
        ordinal,
        account(20),
        CloseSessionArgs {
            final_energy_wh: 1_000_000,
            final_seconds: 0,
            telemetry_hash: vec![0u8; 32],
            closed_at: 2,
        },
    );
    assert_eq!(r.unwrap_err(), DechargeError::NumericalOverflow);
    assert!(matches!(l.sessions[0].status, SessionStatus::Active));
    assert_eq!(l.drivers[0].total_sessions, 0);
    assert_eq!(l.drivers[0].total_energy_wh, 0);
}

#[test]
fn driver_profile_is_created_once_per_driver() {
    let mut l = setup();
    let driver = account(10);
    start(&mut l, driver);
    start(&mut l, driver);
    assert_eq!(l.drivers.len(), 1);
    start(&mut l, account(11));
    assert_eq!(l.drivers.len(), 2);
}

#[test]
fn world_plot_claims_once_per_region() {
    let mut l = Ledger::new();
    let region = vec![42u8; 64];
    let ev = claim_world_plot(&mut l, account(7), region.clone(), 1_700_000_000).unwrap();
    assert_eq!(ev.owner, account(7));
    assert_eq!(ev.region, region);
    assert_eq!(l.plots[0].slot_capacity, 1);
    assert_eq!(l.plots[0].upgrade_level, 1);
    assert_eq!(l.plots[0].last_reward_time, 1_700_000_000);

    let again = claim_world_plot(&mut l, account(8), region, 1_700_000_999);
    assert_eq!(again.unwrap_err(), DechargeError::PlotOccupied);
    assert_eq!(l.plots.len(), 1);
    assert_eq!(l.plots[0].owner, account(7));

    let other = vec![43u8; 64];
    claim_world_plot(&mut l, account(8), other, 1_700_001_000).unwrap();
    assert_eq!(l.plots.len(), 2);
}
