//! End-to-end scenarios for the session lifecycle and points accounting.

use decharge::errors::DechargeError;
use decharge::instructions::{
    close_session, initialize_platform, purchase_points, record_telemetry, register_station,
    start_session, CloseSessionArgs, InitializePlatformArgs, PurchasePointsArgs,
    RegisterStationArgs, StartSessionArgs, TelemetryArgs,
};
use decharge::ledger::Ledger;
use decharge::state::{AccountId, SessionStatus};

fn account(n: u128) -> AccountId {
    AccountId::new(0, n)
}

fn admin() -> AccountId {
    account(1)
}

fn oracle() -> AccountId {
    account(2)
}

fn station_args(code: &str) -> RegisterStationArgs {
    RegisterStationArgs {
        station_code: code.as_bytes().to_vec(),
        name: "Main Street Fast Charger".as_bytes().to_vec(),
        city: "Austin".as_bytes().to_vec(),
        location_lat_micro: 30_266_666,
        location_lon_micro: -97_733_330,
        max_kw: 150,
        pricing_energy_microunits: 3,
        pricing_time_microunits: 5,
        uri: "https://example.com/station".as_bytes().to_vec(),
    }
}

/// A ledger with the platform initialized at the given point rate and one
/// station registered under code "ST1".
fn setup(rate: u64) -> Ledger {
    let mut l = Ledger::new();
    initialize_platform(
        &mut l,
        admin(),
        account(3),
        account(4),
        account(5),
        InitializePlatformArgs { oracle: oracle(), point_rate_microunits: rate },
    )
    .unwrap();
    register_station(&mut l, admin(), station_args("ST1")).unwrap();
    l
}

fn start(l: &mut Ledger, driver: AccountId) -> u64 {
    let ev = start_session(
        l,
        oracle(),
        "ST1".as_bytes().to_vec(),
        driver,
        StartSessionArgs { session_hash: vec![7u8; 32], timestamp: 1_700_000_000 },
    )
    .unwrap();
    assert_eq!(ev.station, "ST1".as_bytes().to_vec());
    assert_eq!(ev.driver, driver);
    assert_eq!(ev.timestamp, 1_700_000_000);
    ev.session
}

fn close(l: &mut Ledger, ordinal: u64, vault: AccountId, energy: u64, seconds: u64) -> u64 {
    let ev = close_session(
        l,
        oracle(),
        ordinal,
        vault,
        CloseSessionArgs {
            final_energy_wh: energy,
            final_seconds: seconds,
            telemetry_hash: vec![9u8; 32],
            closed_at: 1_700_003_600,
        },
    )
    .unwrap();
    ev.points_minted
}

#[test]
fn full_session_lifecycle() {
    let mut l = setup(2_000_000);
    let driver = account(10);
    let ordinal = start(&mut l, driver);
    assert_eq!(ordinal, 0);

    record_telemetry(
        &mut l,
        oracle(),
        ordinal,
        TelemetryArgs { energy_delta_wh: 500, seconds_delta: 60, telemetry_hash: vec![8u8; 32] },
    )
    .unwrap();
    assert_eq!(l.sessions[0].energy_wh, 500);
    assert_eq!(l.sessions[0].seconds_elapsed, 60);
    // The update replaced the stored digest.
    assert_eq!(l.sessions[0].telemetry_hash, vec![8u8; 32]);

    let minted = close(&mut l, ordinal, account(20), 1_500_000, 3_600);
    assert_eq!(minted, 3_000_000);
    assert!(matches!(l.sessions[0].status, SessionStatus::Closed));
    // Final readings overwrite the accumulated telemetry.
    assert_eq!(l.sessions[0].energy_wh, 1_500_000);
    assert_eq!(l.sessions[0].seconds_elapsed, 3_600);

    let p = &l.drivers[0];
    assert_eq!(p.total_sessions, 1);
    assert_eq!(p.total_energy_wh, 1_500_000);
    assert_eq!(p.total_points_earned, 3_000_000);
    assert_eq!(p.outstanding_points, 3_000_000);
    assert_eq!(l.vaults[0].driver, driver);
    assert_eq!(l.vaults[0].token_account, account(20));
}

#[test]
fn pricing_is_exact() {
    let mut l = setup(0);
    let ordinal = start(&mut l, account(10));
    close(&mut l, ordinal, account(20), 1_234, 567);
    // price = E * pE + S * pT with pE = 3 and pT = 5.
    assert_eq!(l.sessions[0].price_microunits, 1_234 * 3 + 567 * 5);
}

#[test]
fn points_round_toward_zero() {
    let mut l = setup(1);
    let ordinal = start(&mut l, account(10));
    // floor(1 * 1 / 1_000_000) = 0: a sub-unit fraction earns nothing.
    let minted = close(&mut l, ordinal, account(20), 1, 0);
    assert_eq!(minted, 0);
    assert_eq!(l.drivers[0].outstanding_points, 0);
}

#[test]
fn points_cross_the_unit_boundary() {
    // One micro-unit short of a point earns nothing; the exact scale earns
    // one.
    let mut l = setup(1);
    let o1 = start(&mut l, account(10));
    assert_eq!(close(&mut l, o1, account(20), 999_999, 0), 0);
    let o2 = start(&mut l, account(11));
    assert_eq!(close(&mut l, o2, account(21), 1_000_000, 0), 1);
}

#[test]
fn points_example_exact() {
    let mut l = setup(2_000_000);
    let ordinal = start(&mut l, account(10));
    let minted = close(&mut l, ordinal, account(20), 1_500_000, 0);
    assert_eq!(minted, 3_000_000);
}

#[test]
fn close_prices_against_the_sessions_own_station() {
    let mut l = setup(0);
    let mut second = station_args("ST2");
    second.pricing_energy_microunits = 11;
    second.pricing_time_microunits = 13;
    register_station(&mut l, admin(), second).unwrap();

    let ev = start_session(
        &mut l,
        oracle(),
        "ST2".as_bytes().to_vec(),
        account(10),
        StartSessionArgs { session_hash: vec![0u8; 32], timestamp: 5 },
    )
    .unwrap();
    assert_eq!(l.sessions[0].station, "ST2".as_bytes().to_vec());

    close(&mut l, ev.session, account(20), 100, 10);
    // The second station's prices apply, not the first's.
    assert_eq!(l.sessions[0].price_microunits, 100 * 11 + 10 * 13);
}

#[test]
fn driver_balances_stay_separate() {
    let mut l = setup(1_000_000);
    let (alice, bob) = (account(10), account(11));
    let o1 = start(&mut l, alice);
    close(&mut l, o1, account(20), 500, 0);
    let o2 = start(&mut l, bob);
    close(&mut l, o2, account(21), 900, 0);

    purchase_points(
        &mut l,
        account(30),
        alice,
        account(20),
        PurchasePointsArgs { amount: 200, price_lamports: 1 },
    )
    .unwrap();

    let alice_profile = &l.drivers[0];
    let bob_profile = &l.drivers[1];
    assert_eq!(alice_profile.driver, alice);
    assert_eq!(alice_profile.outstanding_points, 300);
    assert_eq!(bob_profile.driver, bob);
    assert_eq!(bob_profile.outstanding_points, 900);
    assert_eq!(l.vaults.len(), 2);
}

#[test]
fn session_ordinals_increase_by_one() {
    let mut l = setup(1_000_000);
    assert_eq!(start(&mut l, account(10)), 0);
    assert_eq!(start(&mut l, account(11)), 1);
    assert_eq!(start(&mut l, account(10)), 2);
    assert_eq!(l.session_counter.as_ref().unwrap().next_session, 3);
    for (i, s) in l.sessions.iter().enumerate() {
        assert_eq!(s.session_counter, i as u64);
    }
}

#[test]
fn closed_session_is_terminal() {
    let mut l = setup(1_000_000);
    let ordinal = start(&mut l, account(10));
    close(&mut l, ordinal, account(20), 100, 10);

    let again = close_session(
        &mut l,
        oracle(),
        ordinal,
        account(20),
        CloseSessionArgs {
            final_energy_wh: 1,
            final_seconds: 1,
            telemetry_hash: vec![0u8; 32],
            closed_at: 0,
        },
    );
    assert_eq!(again.unwrap_err(), DechargeError::SessionClosed);

    let telemetry = record_telemetry(
        &mut l,
        oracle(),
        ordinal,
        TelemetryArgs { energy_delta_wh: 1, seconds_delta: 1, telemetry_hash: vec![0u8; 32] },
    );
    assert_eq!(telemetry.unwrap_err(), DechargeError::SessionClosed);
    // The failed calls changed nothing.
    assert!(matches!(l.sessions[0].status, SessionStatus::Closed));
    assert_eq!(l.sessions[0].energy_wh, 100);
    assert_eq!(l.drivers[0].total_sessions, 1);
}

#[test]
fn balance_conservation_over_closes_and_purchases() {
    let mut l = setup(1_000_000);
    let driver = account(10);
    let vault = account(20);
    let o1 = start(&mut l, driver);
    close(&mut l, o1, vault, 700, 5);
    let o2 = start(&mut l, driver);
    close(&mut l, o2, vault, 300, 5);
    assert_eq!(l.drivers[0].total_points_earned, 1_000);
    assert_eq!(l.drivers[0].outstanding_points, 1_000);

    purchase_points(
        &mut l,
        account(30),
        driver,
        vault,
        PurchasePointsArgs { amount: 250, price_lamports: 10 },
    )
    .unwrap();
    purchase_points(
        &mut l,
        account(31),
        driver,
        vault,
        PurchasePointsArgs { amount: 150, price_lamports: 4 },
    )
    .unwrap();
    // outstanding = earned - sum of purchases.
    assert_eq!(l.drivers[0].outstanding_points, 1_000 - 250 - 150);
    assert_eq!(l.drivers[0].total_points_earned, 1_000);

    let too_much = purchase_points(
        &mut l,
        account(30),
        driver,
        vault,
        PurchasePointsArgs { amount: 601, price_lamports: 1 },
    );
    assert_eq!(too_much.unwrap_err(), DechargeError::InsufficientPoints);
    assert_eq!(l.drivers[0].outstanding_points, 600);
    assert_eq!(l.drivers[0].total_points_earned, 1_000);
}

#[test]
fn vault_binding_is_stable() {
    let mut l = setup(1_000_000);
    let driver = account(10);
    let o1 = start(&mut l, driver);
    close(&mut l, o1, account(20), 100, 1);

    // A later close for the same driver must present the bound account.
    let o2 = start(&mut l, driver);
    let wrong = close_session(
        &mut l,
        oracle(),
        o2,
        account(21),
        CloseSessionArgs {
            final_energy_wh: 50,
            final_seconds: 1,
            telemetry_hash: vec![0u8; 32],
            closed_at: 0,
        },
    );
    assert_eq!(wrong.unwrap_err(), DechargeError::PointsVaultMismatch);
    assert!(matches!(l.sessions[1].status, SessionStatus::Active));
    assert_eq!(l.vaults.len(), 1);
    assert_eq!(l.vaults[0].token_account, account(20));
    assert_eq!(l.drivers[0].total_sessions, 1);

    // A purchase through a different account fails the same way.
    let wrong_purchase = purchase_points(
        &mut l,
        account(30),
        driver,
        account(21),
        PurchasePointsArgs { amount: 1, price_lamports: 1 },
    );
    assert_eq!(wrong_purchase.unwrap_err(), DechargeError::PointsVaultMismatch);
    assert_eq!(l.drivers[0].outstanding_points, 100);

    // The bound account still works.
    close(&mut l, o2, account(20), 50, 1);
    assert_eq!(l.drivers[0].total_sessions, 2);
}
