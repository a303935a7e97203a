//! The ledger: every record of one platform instance, keyed by the natural
//! keys the address scheme derives addresses from.
//!
//! The well-formedness predicate [`Ledger::wf`] carries the structural
//! guarantees the operations rely on and re-establish: at most one record
//! per natural key in every namespace, session ordinals dense and equal to
//! their position, every session's station and driver resolvable, fixed
//! buffer widths, and each driver's outstanding balance within the lifetime
//! total.

use vstd::prelude::*;

use crate::constants::REGION_KEY_LEN;
use crate::state::{
    AccountId, ChargingSession, ChargingStation, DriverProfile, PlatformConfig, PointsVault,
    SessionCounter, StationEntry, WorldPlot,
};

verus! {

/// Whether some station in `s` carries `code`.
pub open spec fn seq_has_station(s: Seq<StationEntry>, code: Seq<u8>) -> bool {
    exists|i: int| 0 <= i < s.len() && (#[trigger] s[i].code@) == code
}

/// The position in `s` of the station carrying `code`.
pub open spec fn seq_station_index(s: Seq<StationEntry>, code: Seq<u8>) -> int {
    choose|i: int| 0 <= i < s.len() && (#[trigger] s[i].code@) == code
}

/// Whether some profile in `s` belongs to `driver`.
pub open spec fn seq_has_driver(s: Seq<DriverProfile>, driver: AccountId) -> bool {
    exists|i: int| 0 <= i < s.len() && (#[trigger] s[i].driver) == driver
}

/// The position in `s` of `driver`'s profile.
pub open spec fn seq_driver_index(s: Seq<DriverProfile>, driver: AccountId) -> int {
    choose|i: int| 0 <= i < s.len() && (#[trigger] s[i].driver) == driver
}

/// Whether some vault in `s` belongs to `driver`.
pub open spec fn seq_has_vault(s: Seq<PointsVault>, driver: AccountId) -> bool {
    exists|i: int| 0 <= i < s.len() && (#[trigger] s[i].driver) == driver
}

/// The position in `s` of `driver`'s vault.
pub open spec fn seq_vault_index(s: Seq<PointsVault>, driver: AccountId) -> int {
    choose|i: int| 0 <= i < s.len() && (#[trigger] s[i].driver) == driver
}

/// Whether some plot in `s` carries `region_key`.
pub open spec fn seq_has_plot(s: Seq<WorldPlot>, region_key: Seq<u8>) -> bool {
    exists|i: int| 0 <= i < s.len() && (#[trigger] s[i].region_key@) == region_key
}

/// The position in `s` of the plot carrying `region_key`.
pub open spec fn seq_plot_index(s: Seq<WorldPlot>, region_key: Seq<u8>) -> int {
    choose|i: int| 0 <= i < s.len() && (#[trigger] s[i].region_key@) == region_key
}

/// At most one station per code, each with its buffers at fixed width.
pub open spec fn stations_wf(s: Seq<StationEntry>) -> bool {
    &&& forall|i: int, j: int|
        0 <= i < j < s.len() ==> (#[trigger] s[i].code@) != (#[trigger] s[j].code@)
    &&& forall|i: int| 0 <= i < s.len() ==> (#[trigger] s[i].station).wf()
}

/// At most one profile per driver, and no profile with more outstanding
/// points than it ever earned.
pub open spec fn drivers_wf(s: Seq<DriverProfile>) -> bool {
    &&& forall|i: int, j: int|
        0 <= i < j < s.len() ==> (#[trigger] s[i].driver) != (#[trigger] s[j].driver)
    &&& forall|i: int|
        0 <= i < s.len() ==> (#[trigger] s[i].outstanding_points) <= s[i].total_points_earned
}

/// Session ordinals are dense — the session at position `i` carries ordinal
/// `i` — and every session's station and driver resolve.
pub open spec fn sessions_wf(
    sessions: Seq<ChargingSession>,
    stations: Seq<StationEntry>,
    drivers: Seq<DriverProfile>,
) -> bool {
    &&& forall|i: int|
        0 <= i < sessions.len() ==> (#[trigger] sessions[i].session_counter) == i
    &&& forall|i: int|
        0 <= i < sessions.len() ==> seq_has_station(stations, #[trigger] sessions[i].station@)
    &&& forall|i: int|
        0 <= i < sessions.len() ==> seq_has_driver(drivers, #[trigger] sessions[i].driver)
}

/// At most one vault per driver.
pub open spec fn vaults_wf(s: Seq<PointsVault>) -> bool {
    forall|i: int, j: int|
        0 <= i < j < s.len() ==> (#[trigger] s[i].driver) != (#[trigger] s[j].driver)
}

/// At most one plot per region key, each key at its fixed width.
pub open spec fn plots_wf(s: Seq<WorldPlot>) -> bool {
    &&& forall|i: int, j: int|
        0 <= i < j < s.len() ==> (#[trigger] s[i].region_key@) != (#[trigger] s[j].region_key@)
    &&& forall|i: int| 0 <= i < s.len() ==> (#[trigger] s[i].region_key@).len() == REGION_KEY_LEN
}

/// All records of one platform instance.
pub struct Ledger {
    /// The platform singleton; `None` until `initialize_platform` creates it.
    pub platform: Option<PlatformConfig>,
    /// The session-ordinal counter, created together with the singleton.
    pub session_counter: Option<SessionCounter>,
    /// Station records, each under its station code.
    pub stations: Vec<StationEntry>,
    /// Driver profiles, each under its driver identity.
    pub drivers: Vec<DriverProfile>,
    /// Sessions, the one with ordinal `n` at position `n`.
    pub sessions: Vec<ChargingSession>,
    /// Points vaults, each under the driver identity it escrows for.
    pub vaults: Vec<PointsVault>,
    /// World plots, each under its region key.
    pub plots: Vec<WorldPlot>,
}

impl Ledger {
    /// Whether the platform singleton exists.
    pub open spec fn initialized(self) -> bool {
        self.platform is Some
    }

    /// The platform singleton's contents.
    pub open spec fn config(self) -> PlatformConfig {
        self.platform->Some_0
    }

    /// The ordinal the next session will take.
    pub open spec fn next_session(self) -> u64 {
        self.session_counter->Some_0.next_session
    }

    /// Whether a station is registered under `code`.
    pub open spec fn has_station(self, code: Seq<u8>) -> bool {
        seq_has_station(self.stations@, code)
    }

    /// The station registered under `code`.
    pub open spec fn station_at(self, code: Seq<u8>) -> ChargingStation {
        self.stations@[seq_station_index(self.stations@, code)].station
    }

    /// Whether `driver` has a profile.
    pub open spec fn has_driver(self, driver: AccountId) -> bool {
        seq_has_driver(self.drivers@, driver)
    }

    /// `driver`'s profile.
    pub open spec fn driver_at(self, driver: AccountId) -> DriverProfile {
        self.drivers@[seq_driver_index(self.drivers@, driver)]
    }

    /// Whether `driver` has a points vault.
    pub open spec fn has_vault(self, driver: AccountId) -> bool {
        seq_has_vault(self.vaults@, driver)
    }

    /// `driver`'s vault.
    pub open spec fn vault_at(self, driver: AccountId) -> PointsVault {
        self.vaults@[seq_vault_index(self.vaults@, driver)]
    }

    /// Whether a plot is claimed under `region_key`.
    pub open spec fn has_plot(self, region_key: Seq<u8>) -> bool {
        seq_has_plot(self.plots@, region_key)
    }

    /// The plot claimed under `region_key`.
    pub open spec fn plot_at(self, region_key: Seq<u8>) -> WorldPlot {
        self.plots@[seq_plot_index(self.plots@, region_key)]
    }

    /// The ledger's invariant: every operation requires it and re-establishes
    /// it.
    pub open spec fn wf(self) -> bool {
        &&& (self.platform is Some <==> self.session_counter is Some)
        &&& (self.platform is None ==> self.sessions.len() == 0 && self.stations.len() == 0
            && self.drivers.len() == 0 && self.vaults.len() == 0)
        &&& (self.session_counter is Some ==> self.sessions.len() == self.next_session())
        &&& stations_wf(self.stations@)
        &&& drivers_wf(self.drivers@)
        &&& sessions_wf(self.sessions@, self.stations@, self.drivers@)
        &&& vaults_wf(self.vaults@)
        &&& plots_wf(self.plots@)
    }

    /// An empty ledger: no platform, no records.
    pub fn new() -> (l: Ledger)
        ensures
            l.wf(),
            !l.initialized(),
            l.stations.len() == 0,
            l.drivers.len() == 0,
            l.sessions.len() == 0,
            l.vaults.len() == 0,
            l.plots.len() == 0,
    {
        Ledger {
            platform: None,
            session_counter: None,
            stations: Vec::new(),
            drivers: Vec::new(),
            sessions: Vec::new(),
            vaults: Vec::new(),
            plots: Vec::new(),
        }
    }

    /// Finds the position of the station registered under `code`.
    pub fn find_station(&self, code: &Vec<u8>) -> (r: Option<usize>)
        ensures
            match r {
                Some(i) => i < self.stations.len() && self.stations@[i as int].code@ == code@
                    && self.has_station(code@),
                None => !self.has_station(code@),
            },
    {
        let mut i: usize = 0;
        while i < self.stations.len()
            invariant
                i <= self.stations.len(),
                forall|j: int| 0 <= j < i ==> (#[trigger] self.stations@[j].code@) != code@,
            decreases self.stations.len() - i,
        {
            if crate::state::bytes_eq(&self.stations[i].code, code) {
                return Some(i);
            }
            i = i + 1;
        }
        None
    }

    /// Finds the position of `driver`'s profile.
    pub fn find_driver(&self, driver: AccountId) -> (r: Option<usize>)
        ensures
            match r {
                Some(i) => i < self.drivers.len() && self.drivers@[i as int].driver == driver
                    && self.has_driver(driver),
                None => !self.has_driver(driver),
            },
    {
        let mut i: usize = 0;
        while i < self.drivers.len()
            invariant
                i <= self.drivers.len(),
                forall|j: int| 0 <= j < i ==> (#[trigger] self.drivers@[j].driver) != driver,
            decreases self.drivers.len() - i,
        {
            if self.drivers[i].driver == driver {
                return Some(i);
            }
            i = i + 1;
        }
        None
    }

    /// Finds the position of `driver`'s vault.
    pub fn find_vault(&self, driver: AccountId) -> (r: Option<usize>)
        ensures
            match r {
                Some(i) => i < self.vaults.len() && self.vaults@[i as int].driver == driver
                    && self.has_vault(driver),
                None => !self.has_vault(driver),
            },
    {
        let mut i: usize = 0;
        while i < self.vaults.len()
            invariant
                i <= self.vaults.len(),
                forall|j: int| 0 <= j < i ==> (#[trigger] self.vaults@[j].driver) != driver,
            decreases self.vaults.len() - i,
        {
            if self.vaults[i].driver == driver {
                return Some(i);
            }
            i = i + 1;
        }
        None
    }

    /// Finds the position of the plot claimed under `region_key`.
    pub fn find_plot(&self, region_key: &Vec<u8>) -> (r: Option<usize>)
        ensures
            match r {
                Some(i) => i < self.plots.len() && self.plots@[i as int].region_key@
                    == region_key@ && self.has_plot(region_key@),
                None => !self.has_plot(region_key@),
            },
    {
        let mut i: usize = 0;
        while i < self.plots.len()
            invariant
                i <= self.plots.len(),
                forall|j: int| 0 <= j < i ==> (#[trigger] self.plots@[j].region_key@)
                    != region_key@,
            decreases self.plots.len() - i,
        {
            if crate::state::bytes_eq(&self.plots[i].region_key, region_key) {
                return Some(i);
            }
            i = i + 1;
        }
        None
    }
}

/// Replacing a profile by one for the same driver keeps the profile map
/// intact: every lookup but the updated driver's is unchanged.
pub proof fn lemma_driver_update(s: Seq<DriverProfile>, i: int, p: DriverProfile)
    requires
        drivers_wf(s),
        0 <= i < s.len(),
        p.driver == s[i].driver,
        p.outstanding_points <= p.total_points_earned,
    ensures
        drivers_wf(s.update(i, p)),
        forall|x: AccountId| seq_has_driver(s.update(i, p), x) == seq_has_driver(s, x),
        seq_driver_index(s.update(i, p), p.driver) == i,
        forall|x: AccountId|
            seq_has_driver(s, x) && x != p.driver ==> s.update(i, p)[seq_driver_index(
                s.update(i, p),
                x,
            )] == s[seq_driver_index(s, x)],
{
    let t = s.update(i, p);
    assert(forall|j: int| 0 <= j < s.len() ==> (#[trigger] t[j].driver) == s[j].driver);
    assert forall|x: AccountId| seq_has_driver(t, x) == seq_has_driver(s, x) by {
        if seq_has_driver(s, x) {
            let j = seq_driver_index(s, x);
            assert(t[j].driver == x);
        }
        if seq_has_driver(t, x) {
            let j = seq_driver_index(t, x);
            assert(s[j].driver == x);
        }
    }
    lemma_driver_index(t, i);
    assert forall|x: AccountId|
        seq_has_driver(s, x) && x != p.driver implies t[seq_driver_index(t, x)] == s[
        seq_driver_index(s, x)] by {
        let j = seq_driver_index(s, x);
        assert(0 <= j < s.len() && s[j].driver == x);
        assert(j != i);
        assert(t[j] == s[j]);
        lemma_driver_index(t, j);
    }
}

/// Appending a profile for a fresh driver keeps every existing lookup
/// unchanged and makes the new driver resolvable.
pub proof fn lemma_driver_push(s: Seq<DriverProfile>, p: DriverProfile)
    requires
        drivers_wf(s),
        !seq_has_driver(s, p.driver),
        p.outstanding_points <= p.total_points_earned,
    ensures
        drivers_wf(s.push(p)),
        seq_has_driver(s.push(p), p.driver),
        seq_driver_index(s.push(p), p.driver) == s.len(),
        forall|x: AccountId|
            x != p.driver ==> seq_has_driver(s.push(p), x) == seq_has_driver(s, x),
        forall|x: AccountId|
            seq_has_driver(s, x) ==> s.push(p)[seq_driver_index(s.push(p), x)] == s[
                seq_driver_index(s, x)
            ],
{
    let t = s.push(p);
    assert(forall|j: int| 0 <= j < s.len() ==> (#[trigger] t[j].driver) == s[j].driver);
    assert(t[s.len() as int] == p);
    assert forall|i: int, j: int| 0 <= i < j < t.len() implies (#[trigger] t[i].driver) != (
    #[trigger] t[j].driver) by {
        if j < s.len() {
            assert(s[i].driver != s[j].driver);
        } else {
            assert(t[i].driver == s[i].driver);
            if t[i].driver == p.driver {
                assert(seq_has_driver(s, p.driver));
            }
        }
    }
    lemma_driver_index(t, s.len() as int);
    assert forall|x: AccountId|
        x != p.driver implies seq_has_driver(t, x) == seq_has_driver(s, x) by {
        if seq_has_driver(s, x) {
            let j = seq_driver_index(s, x);
            assert(t[j].driver == x);
        }
        if seq_has_driver(t, x) {
            let j = seq_driver_index(t, x);
            assert(0 <= j < t.len() && t[j].driver == x);
            assert(j != s.len());
            assert(s[j].driver == x);
        }
    }
    assert forall|x: AccountId|
        seq_has_driver(s, x) implies t[seq_driver_index(t, x)] == s[seq_driver_index(s, x)] by {
        let j = seq_driver_index(s, x);
        assert(0 <= j < s.len() && s[j].driver == x);
        assert(t[j] == s[j]);
        lemma_driver_index(t, j);
    }
}

/// Appending a vault for a fresh driver keeps every existing binding
/// unchanged and makes the new binding resolvable.
pub proof fn lemma_vault_push(s: Seq<PointsVault>, v: PointsVault)
    requires
        vaults_wf(s),
        !seq_has_vault(s, v.driver),
    ensures
        vaults_wf(s.push(v)),
        seq_has_vault(s.push(v), v.driver),
        seq_vault_index(s.push(v), v.driver) == s.len(),
        forall|x: AccountId| x != v.driver ==> seq_has_vault(s.push(v), x) == seq_has_vault(s, x),
        forall|x: AccountId|
            seq_has_vault(s, x) ==> s.push(v)[seq_vault_index(s.push(v), x)] == s[seq_vault_index(
                s,
                x,
            )],
{
    let t = s.push(v);
    assert(forall|j: int| 0 <= j < s.len() ==> (#[trigger] t[j].driver) == s[j].driver);
    assert(t[s.len() as int] == v);
    assert forall|i: int, j: int| 0 <= i < j < t.len() implies (#[trigger] t[i].driver) != (
    #[trigger] t[j].driver) by {
        if j < s.len() {
            assert(s[i].driver != s[j].driver);
        } else {
            assert(t[i].driver == s[i].driver);
            if t[i].driver == v.driver {
                assert(seq_has_vault(s, v.driver));
            }
        }
    }
    lemma_vault_index(t, s.len() as int);
    assert forall|x: AccountId|
        x != v.driver implies seq_has_vault(t, x) == seq_has_vault(s, x) by {
        if seq_has_vault(s, x) {
            let j = seq_vault_index(s, x);
            assert(t[j].driver == x);
        }
        if seq_has_vault(t, x) {
            let j = seq_vault_index(t, x);
            assert(0 <= j < t.len() && t[j].driver == x);
            assert(j != s.len());
            assert(s[j].driver == x);
        }
    }
    assert forall|x: AccountId|
        seq_has_vault(s, x) implies t[seq_vault_index(t, x)] == s[seq_vault_index(s, x)] by {
        let j = seq_vault_index(s, x);
        assert(0 <= j < s.len() && s[j].driver == x);
        assert(t[j] == s[j]);
        lemma_vault_index(t, j);
    }
}

/// Appending a station under a fresh code keeps every existing lookup
/// unchanged and makes the new code resolvable.
pub proof fn lemma_station_push(s: Seq<StationEntry>, e: StationEntry)
    requires
        stations_wf(s),
        !seq_has_station(s, e.code@),
        e.station.wf(),
    ensures
        stations_wf(s.push(e)),
        seq_has_station(s.push(e), e.code@),
        seq_station_index(s.push(e), e.code@) == s.len(),
        forall|c: Seq<u8>| c != e.code@ ==> seq_has_station(s.push(e), c) == seq_has_station(s, c),
        forall|c: Seq<u8>|
            seq_has_station(s, c) ==> s.push(e)[seq_station_index(s.push(e), c)] == s[
                seq_station_index(s, c)
            ],
{
    let t = s.push(e);
    assert(forall|j: int| 0 <= j < s.len() ==> (#[trigger] t[j].code@) == s[j].code@);
    assert(t[s.len() as int] == e);
    assert forall|i: int, j: int| 0 <= i < j < t.len() implies (#[trigger] t[i].code@) != (
    #[trigger] t[j].code@) by {
        if j < s.len() {
            assert(s[i].code@ != s[j].code@);
        } else {
            assert(t[i].code@ == s[i].code@);
            if t[i].code@ == e.code@ {
                assert(seq_has_station(s, e.code@));
            }
        }
    }
    lemma_station_index(t, s.len() as int);
    assert forall|c: Seq<u8>|
        c != e.code@ implies seq_has_station(t, c) == seq_has_station(s, c) by {
        if seq_has_station(s, c) {
            let j = seq_station_index(s, c);
            assert(t[j].code@ == c);
        }
        if seq_has_station(t, c) {
            let j = seq_station_index(t, c);
            assert(0 <= j < t.len() && t[j].code@ == c);
            assert(j != s.len());
            assert(s[j].code@ == c);
        }
    }
    assert forall|c: Seq<u8>|
        seq_has_station(s, c) implies t[seq_station_index(t, c)] == s[seq_station_index(s, c)] by {
        let j = seq_station_index(s, c);
        assert(0 <= j < s.len() && s[j].code@ == c);
        assert(t[j] == s[j]);
        lemma_station_index(t, j);
    }
}

/// Appending a plot under a fresh region key keeps every existing lookup
/// unchanged and makes the new key resolvable.
pub proof fn lemma_plot_push(s: Seq<WorldPlot>, p: WorldPlot)
    requires
        plots_wf(s),
        !seq_has_plot(s, p.region_key@),
        p.region_key@.len() == REGION_KEY_LEN,
    ensures
        plots_wf(s.push(p)),
        seq_has_plot(s.push(p), p.region_key@),
        seq_plot_index(s.push(p), p.region_key@) == s.len(),
        forall|k: Seq<u8>|
            k != p.region_key@ ==> seq_has_plot(s.push(p), k) == seq_has_plot(s, k),
        forall|k: Seq<u8>|
            seq_has_plot(s, k) ==> s.push(p)[seq_plot_index(s.push(p), k)] == s[seq_plot_index(
                s,
                k,
            )],
{
    let t = s.push(p);
    assert(forall|j: int| 0 <= j < s.len() ==> (#[trigger] t[j].region_key@) == s[j].region_key@);
    assert(t[s.len() as int] == p);
    assert forall|i: int, j: int| 0 <= i < j < t.len() implies (#[trigger] t[i].region_key@) != (
    #[trigger] t[j].region_key@) by {
        if j < s.len() {
            assert(s[i].region_key@ != s[j].region_key@);
        } else {
            assert(t[i].region_key@ == s[i].region_key@);
            if t[i].region_key@ == p.region_key@ {
                assert(seq_has_plot(s, p.region_key@));
            }
        }
    }
    lemma_plot_index(t, s.len() as int);
    assert forall|k: Seq<u8>|
        k != p.region_key@ implies seq_has_plot(t, k) == seq_has_plot(s, k) by {
        if seq_has_plot(s, k) {
            let j = seq_plot_index(s, k);
            assert(t[j].region_key@ == k);
        }
        if seq_has_plot(t, k) {
            let j = seq_plot_index(t, k);
            assert(0 <= j < t.len() && t[j].region_key@ == k);
            assert(j != s.len());
            assert(s[j].region_key@ == k);
        }
    }
    assert forall|k: Seq<u8>|
        seq_has_plot(s, k) implies t[seq_plot_index(t, k)] == s[seq_plot_index(s, k)] by {
        let j = seq_plot_index(s, k);
        assert(0 <= j < s.len() && s[j].region_key@ == k);
        assert(t[j] == s[j]);
        lemma_plot_index(t, j);
    }
}

/// A station position determines the lookup by its own code.
pub proof fn lemma_station_index(s: Seq<StationEntry>, i: int)
    requires
        stations_wf(s),
        0 <= i < s.len(),
    ensures
        seq_has_station(s, s[i].code@),
        seq_station_index(s, s[i].code@) == i,
{
    assert(seq_has_station(s, s[i].code@));
    let j = seq_station_index(s, s[i].code@);
    if j < i {
        assert(s[j].code@ != s[i].code@);
    } else if i < j {
        assert(s[i].code@ != s[j].code@);
    }
}

/// A profile position determines the lookup by its own driver identity.
pub proof fn lemma_driver_index(s: Seq<DriverProfile>, i: int)
    requires
        drivers_wf(s),
        0 <= i < s.len(),
    ensures
        seq_has_driver(s, s[i].driver),
        seq_driver_index(s, s[i].driver) == i,
{
    assert(seq_has_driver(s, s[i].driver));
    let j = seq_driver_index(s, s[i].driver);
    if j < i {
        assert(s[j].driver != s[i].driver);
    } else if i < j {
        assert(s[i].driver != s[j].driver);
    }
}

/// A vault position determines the lookup by its own driver identity.
pub proof fn lemma_vault_index(s: Seq<PointsVault>, i: int)
    requires
        vaults_wf(s),
        0 <= i < s.len(),
    ensures
        seq_has_vault(s, s[i].driver),
        seq_vault_index(s, s[i].driver) == i,
{
    assert(seq_has_vault(s, s[i].driver));
    let j = seq_vault_index(s, s[i].driver);
    if j < i {
        assert(s[j].driver != s[i].driver);
    } else if i < j {
        assert(s[i].driver != s[j].driver);
    }
}

/// A plot position determines the lookup by its own region key.
pub proof fn lemma_plot_index(s: Seq<WorldPlot>, i: int)
    requires
        plots_wf(s),
        0 <= i < s.len(),
    ensures
        seq_has_plot(s, s[i].region_key@),
        seq_plot_index(s, s[i].region_key@) == i,
{
    assert(seq_has_plot(s, s[i].region_key@));
    let j = seq_plot_index(s, s[i].region_key@);
    if j < i {
        assert(s[j].region_key@ != s[i].region_key@);
    } else if i < j {
        assert(s[i].region_key@ != s[j].region_key@);
    }
}

} // verus!
