//! What the Monitoring API answers.

use vstd::prelude::*;

use crate::reading::Reading;

verus! {

/// Answer to a query for the overview of a site.
#[derive(Debug, Clone, Copy)]
pub struct OverviewResponse {
    /// The overview.
    pub overview: Overview,
}

/// Overview of a site.
#[derive(Debug, Clone, Copy)]
pub struct Overview {
    /// Energy since the site was built.
    pub life_time_data: EnergyValue,
}

/// An energy.
#[derive(Debug, Clone, Copy)]
pub struct EnergyValue {
    /// The energy in watt hours.
    pub energy: Option<Reading>,
}

impl OverviewResponse {
    /// PV energy since the site was built, in watt hours.
    pub open spec fn lifetime_energy(self) -> Option<Reading> {
        self.overview.life_time_data.energy
    }
}

/// Answer to a query for the meters of a site.
#[derive(Debug)]
pub struct MetersResponse {
    /// The meters.
    pub meter_energy_details: MeterEnergyDetails,
}

/// The meters of a site.
#[derive(Debug)]
pub struct MeterEnergyDetails {
    /// The meters.
    pub meters: Vec<Meter>,
}

/// A meter.
#[derive(Debug)]
pub struct Meter {
    /// Serial number.
    pub meter_serial_number: String,
    /// Serial number of the inverter.
    pub connected_solaredge_device_sn: String,
    /// What the meter counts.
    pub meter_type: String,
    /// Lifetime readings, the oldest first.
    pub values: Vec<MeterValue>,
}

/// A lifetime reading.
#[derive(Debug, Clone, Copy)]
pub struct MeterValue {
    /// The energy in watt hours.
    pub value: Option<Reading>,
}

/// The last value that is there.
pub open spec fn last_present<T>(values: Seq<Option<T>>) -> Option<T>
    decreases values.len(),
{
    if values.len() == 0 {
        None
    } else if values.last() is Some {
        values.last()
    } else {
        last_present(values.drop_last())
    }
}

proof fn lemma_last_present<T>(values: Seq<Option<T>>, n: int)
    requires
        0 <= n <= values.len(),
        forall|i: int| n <= i < values.len() ==> #[trigger] values[i] is None,
    ensures
        last_present(values) == last_present(values.take(n)),
    decreases values.len(),
{
    if n == values.len() {
        assert(values.take(n) =~= values);
    } else {
        assert(values[values.len() - 1] is None);
        assert(values.drop_last().take(n) =~= values.take(n));
        lemma_last_present(values.drop_last(), n);
    }
}

impl Meter {
    /// The latest reading that is there.
    pub open spec fn latest_reading(self) -> Option<Reading> {
        last_present(Seq::new(self.values@.len(), |i: int| self.values@[i].value))
    }

    /// The latest reading that is there; entries without one are passed over.
    pub fn latest_value(&self) -> (r: Option<Reading>)
        ensures
            r == self.latest_reading(),
    {
        let ghost all = Seq::new(self.values@.len(), |i: int| self.values@[i].value);
        let mut i: usize = self.values.len();
        while i > 0
            invariant
                i <= self.values.len(),
                all == Seq::new(self.values@.len(), |i: int| self.values@[i].value),
                forall|k: int| i <= k < all.len() ==> #[trigger] all[k] is None,
            decreases i,
        {
            let value = self.values[i - 1].value;
            if value.is_some() {
                proof {
                    lemma_last_present(all, i as int);
                    assert(all.take(i as int).last() == value);
                }
                return value;
            }
            assert(all[i - 1] is None);
            i -= 1;
        }
        proof {
            lemma_last_present(all, 0);
        }
        None
    }
}

/// Answer to a query for the batteries of a site.
#[derive(Debug)]
pub struct StorageDataResponse {
    /// The batteries.
    pub storage_data: StorageData,
}

/// The batteries of a site.
#[derive(Debug)]
pub struct StorageData {
    /// The batteries.
    pub batteries: Vec<Battery>,
}

/// A battery.
#[derive(Debug)]
pub struct Battery {
    /// Serial number.
    pub serial_number: String,
    /// Model.
    pub model_number: String,
    /// What was measured, the oldest first.
    pub telemetries: Vec<BatteryTelemetry>,
}

/// What was measured of a battery at one time.
#[derive(Debug, Clone, Copy)]
pub struct BatteryTelemetry {
    /// State, as the API numbers it.
    pub battery_state: Option<i64>,
    /// Energy that the battery can hold, in watt hours.
    pub full_pack_energy_available: Option<Reading>,
    /// Energy charged from the grid in the queried time, in watt hours.
    pub ac_grid_charging: Option<Reading>,
}

/// True of the latest value of a field over telemetries: `field` gives it for
/// one of them, and gives nothing for any later one.
pub open spec fn latest_of<T, F: Fn(&BatteryTelemetry) -> Option<T>>(
    field: F,
    telemetries: Seq<BatteryTelemetry>,
    r: Option<T>,
) -> bool {
    match r {
        Some(v) => exists|i: int|
            0 <= i < telemetries.len() && field.ensures((&#[trigger] telemetries[i],), Some(v))
                && forall|j: int|
                i < j < telemetries.len() ==> field.ensures((&#[trigger] telemetries[j],), None),
        None => forall|j: int|
            0 <= j < telemetries.len() ==> field.ensures((&#[trigger] telemetries[j],), None),
    }
}

impl Battery {
    /// The latest value of a field that is there. A field may be absent from
    /// the last telemetries though earlier ones have it.
    pub fn latest<T: Copy, F: Fn(&BatteryTelemetry) -> Option<T>>(&self, field: F) -> (r: Option<T>)
        requires
            forall|i: int|
                0 <= i < self.telemetries@.len() ==> field.requires(
                    (&#[trigger] self.telemetries@[i],),
                ),
        ensures
            latest_of(field, self.telemetries@, r),
    {
        let mut i: usize = self.telemetries.len();
        while i > 0
            invariant
                i <= self.telemetries.len(),
                forall|k: int|
                    0 <= k < self.telemetries@.len() ==> field.requires(
                        (&#[trigger] self.telemetries@[k],),
                    ),
                forall|k: int|
                    i <= k < self.telemetries@.len() ==> field.ensures(
                        (&#[trigger] self.telemetries@[k],),
                        None,
                    ),
            decreases i,
        {
            let telemetry = &self.telemetries[i - 1];
            assert(self.telemetries@[i - 1] == *telemetry);
            let value = field(telemetry);
            if value.is_some() {
                return value;
            }
            i -= 1;
        }
        None
    }

    /// The latest energy charged from the grid.
    pub open spec fn grid_charging(self) -> Option<Reading> {
        last_present(
            Seq::new(self.telemetries@.len(), |i: int| self.telemetries@[i].ac_grid_charging),
        )
    }

    /// The latest energy that the battery can hold.
    pub open spec fn full_pack_energy(self) -> Option<Reading> {
        last_present(
            Seq::new(
                self.telemetries@.len(),
                |i: int| self.telemetries@[i].full_pack_energy_available,
            ),
        )
    }

    /// The latest state.
    pub open spec fn state(self) -> Option<i64> {
        last_present(Seq::new(self.telemetries@.len(), |i: int| self.telemetries@[i].battery_state))
    }

    /// The latest energy charged from the grid.
    pub fn latest_grid_charging(&self) -> (r: Option<Reading>)
        ensures
            r == self.grid_charging(),
    {
        let r = self.latest(ac_grid_charging_of);
        proof {
            let get = |t: BatteryTelemetry| t.ac_grid_charging;
            lemma_latest(ac_grid_charging_of, self.telemetries@, get, r);
            assert(self.telemetries@.map_values(get) =~= Seq::new(
                self.telemetries@.len(),
                |i: int| self.telemetries@[i].ac_grid_charging,
            ));
        }
        r
    }

    /// The latest energy that the battery can hold.
    pub fn latest_full_pack_energy(&self) -> (r: Option<Reading>)
        ensures
            r == self.full_pack_energy(),
    {
        let r = self.latest(full_pack_energy_available_of);
        proof {
            let get = |t: BatteryTelemetry| t.full_pack_energy_available;
            lemma_latest(full_pack_energy_available_of, self.telemetries@, get, r);
            assert(self.telemetries@.map_values(get) =~= Seq::new(
                self.telemetries@.len(),
                |i: int| self.telemetries@[i].full_pack_energy_available,
            ));
        }
        r
    }

    /// The latest state.
    pub fn latest_state(&self) -> (r: Option<i64>)
        ensures
            r == self.state(),
    {
        let r = self.latest(battery_state_of);
        proof {
            let get = |t: BatteryTelemetry| t.battery_state;
            lemma_latest(battery_state_of, self.telemetries@, get, r);
            assert(self.telemetries@.map_values(get) =~= Seq::new(
                self.telemetries@.len(),
                |i: int| self.telemetries@[i].battery_state,
            ));
        }
        r
    }
}

fn ac_grid_charging_of(t: &BatteryTelemetry) -> (r: Option<Reading>)
    ensures
        r == t.ac_grid_charging,
{
    t.ac_grid_charging
}

fn full_pack_energy_available_of(t: &BatteryTelemetry) -> (r: Option<Reading>)
    ensures
        r == t.full_pack_energy_available,
{
    t.full_pack_energy_available
}

fn battery_state_of(t: &BatteryTelemetry) -> (r: Option<i64>)
    ensures
        r == t.battery_state,
{
    t.battery_state
}

/// The latest value of a field that `get` describes is the last one that is
/// there.
proof fn lemma_latest<T, F: Fn(&BatteryTelemetry) -> Option<T>>(
    field: F,
    telemetries: Seq<BatteryTelemetry>,
    get: spec_fn(BatteryTelemetry) -> Option<T>,
    r: Option<T>,
)
    requires
        latest_of(field, telemetries, r),
        forall|t: BatteryTelemetry, v: Option<T>| #[trigger] field.ensures((&t,), v) ==> v == get(t),
    ensures
        r == last_present(telemetries.map_values(get)),
{
    let values = telemetries.map_values(get);
    match r {
        Some(v) => {
            let i = choose|i: int|
                0 <= i < telemetries.len() && field.ensures((&#[trigger] telemetries[i],), Some(v))
                    && forall|j: int|
                    i < j < telemetries.len() ==> field.ensures((&#[trigger] telemetries[j],), None);
            assert forall|j: int| i + 1 <= j < values.len() implies #[trigger] values[j] is None by {
                assert(field.ensures((&telemetries[j],), None));
            }
            lemma_last_present(values, i + 1);
            assert(values.take(i + 1).last() == Some(v));
        },
        None => {
            assert forall|j: int| 0 <= j < values.len() implies #[trigger] values[j] is None by {
                assert(field.ensures((&telemetries[j],), None));
            }
            lemma_last_present(values, 0);
        },
    }
}

/// A value that is there and has none behind it is the last one.
proof fn lemma_last_is_latest<T>(values: Seq<Option<T>>, i: int)
    requires
        0 <= i < values.len(),
        values[i] is Some,
        forall|j: int| i < j < values.len() ==> #[trigger] values[j] is None,
    ensures
        last_present(values) == values[i],
{
    lemma_last_present(values, i + 1);
    assert(values.take(i + 1).last() == values[i]);
}

/// The reading of a meter is the newest one that is there: the entries behind it
/// have none.
pub proof fn lemma_newest_reading(meter: Meter, i: int)
    requires
        0 <= i < meter.values@.len(),
        meter.values@[i].value is Some,
        forall|j: int| i < j < meter.values@.len() ==> (#[trigger] meter.values@[j]).value is None,
    ensures
        meter.latest_reading() == meter.values@[i].value,
{
    let values = Seq::new(meter.values@.len(), |i: int| meter.values@[i].value);
    assert forall|j: int| i < j < values.len() implies #[trigger] values[j] is None by {
        assert(meter.values@[j].value is None);
    }
    lemma_last_is_latest(values, i);
}

/// A meter of which no entry has a reading has none.
pub proof fn lemma_no_reading(meter: Meter)
    requires
        forall|j: int| 0 <= j < meter.values@.len() ==> (#[trigger] meter.values@[j]).value is None,
    ensures
        meter.latest_reading() is None,
{
    let values = Seq::new(meter.values@.len(), |i: int| meter.values@[i].value);
    assert forall|j: int| 0 <= j < values.len() implies #[trigger] values[j] is None by {
        assert(meter.values@[j].value is None);
    }
    lemma_last_present(values, 0);
}

/// The energy that a battery was charged with from the grid is the newest one
/// that is there.
pub proof fn lemma_newest_grid_charging(battery: Battery, i: int)
    requires
        0 <= i < battery.telemetries@.len(),
        battery.telemetries@[i].ac_grid_charging is Some,
        forall|j: int|
            i < j < battery.telemetries@.len() ==> (#[trigger] battery.telemetries@[j]).ac_grid_charging is None,
    ensures
        battery.grid_charging() == battery.telemetries@[i].ac_grid_charging,
{
    let values = Seq::new(battery.telemetries@.len(), |i: int| battery.telemetries@[i].ac_grid_charging);
    assert forall|j: int| i < j < values.len() implies #[trigger] values[j] is None by {
        assert(battery.telemetries@[j].ac_grid_charging is None);
    }
    lemma_last_is_latest(values, i);
}

/// The energy that a battery can hold is the newest one that is there.
pub proof fn lemma_newest_full_pack_energy(battery: Battery, i: int)
    requires
        0 <= i < battery.telemetries@.len(),
        battery.telemetries@[i].full_pack_energy_available is Some,
        forall|j: int|
            i < j < battery.telemetries@.len() ==> (#[trigger] battery.telemetries@[j]).full_pack_energy_available is None,
    ensures
        battery.full_pack_energy() == battery.telemetries@[i].full_pack_energy_available,
{
    let values = Seq::new(battery.telemetries@.len(), |i: int| battery.telemetries@[i].full_pack_energy_available);
    assert forall|j: int| i < j < values.len() implies #[trigger] values[j] is None by {
        assert(battery.telemetries@[j].full_pack_energy_available is None);
    }
    lemma_last_is_latest(values, i);
}

/// The state of a battery is the newest one that is there.
pub proof fn lemma_newest_state(battery: Battery, i: int)
    requires
        0 <= i < battery.telemetries@.len(),
        battery.telemetries@[i].battery_state is Some,
        forall|j: int|
            i < j < battery.telemetries@.len() ==> (#[trigger] battery.telemetries@[j]).battery_state is None,
    ensures
        battery.state() == battery.telemetries@[i].battery_state,
{
    let values = Seq::new(battery.telemetries@.len(), |i: int| battery.telemetries@[i].battery_state);
    assert forall|j: int| i < j < values.len() implies #[trigger] values[j] is None by {
        assert(battery.telemetries@[j].battery_state is None);
    }
    lemma_last_is_latest(values, i);
}

/// Of a field that no telemetry of a battery has there is no value.
pub proof fn lemma_nothing_measured(battery: Battery)
    ensures
        (forall|j: int|
            0 <= j < battery.telemetries@.len() ==> (
            #[trigger] battery.telemetries@[j]).ac_grid_charging is None)
            ==> battery.grid_charging() is None,
        (forall|j: int|
            0 <= j < battery.telemetries@.len() ==> (
            #[trigger] battery.telemetries@[j]).full_pack_energy_available is None)
            ==> battery.full_pack_energy() is None,
        (forall|j: int|
            0 <= j < battery.telemetries@.len() ==> (
            #[trigger] battery.telemetries@[j]).battery_state is None) ==> battery.state() is None,
{
    let all = battery.telemetries@;
    let a = Seq::new(all.len(), |i: int| all[i].ac_grid_charging);
    let b = Seq::new(all.len(), |i: int| all[i].full_pack_energy_available);
    let c = Seq::new(all.len(), |i: int| all[i].battery_state);
    if forall|j: int| 0 <= j < all.len() ==> (#[trigger] all[j]).ac_grid_charging is None {
        lemma_last_present(a, 0);
    }
    if forall|j: int| 0 <= j < all.len() ==> (#[trigger] all[j]).full_pack_energy_available is None {
        lemma_last_present(b, 0);
    }
    if forall|j: int| 0 <= j < all.len() ==> (#[trigger] all[j]).battery_state is None {
        lemma_last_present(c, 0);
    }
}

/// The reading that a meter is asked for is the newest one that is there, and
/// there is none exactly where no entry has one.
pub proof fn lemma_latest_value(meter: &Meter, r: Option<Reading>)
    requires
        call_ensures(Meter::latest_value, (meter,), r),
    ensures
        match r {
            Some(v) => exists|i: int|
                0 <= i < meter.values@.len() && (#[trigger] meter.values@[i]).value == Some(v)
                    && forall|j: int|
                    i < j < meter.values@.len() ==> (#[trigger] meter.values@[j]).value is None,
            None => forall|j: int|
                0 <= j < meter.values@.len() ==> (#[trigger] meter.values@[j]).value is None,
        },
{
    let values = Seq::new(meter.values@.len(), |i: int| meter.values@[i].value);
    let n = lemma_last_place(values);
    if n >= 0 {
        assert(meter.values@[n].value == values[n]);
    }
    assert forall|j: int| n < j < meter.values@.len() implies (
    #[trigger] meter.values@[j]).value is None by {
        assert(values[j] is None);
    }
}

/// The place of the last value that is there, or -1.
proof fn lemma_last_place<T>(values: Seq<Option<T>>) -> (n: int)
    ensures
        -1 <= n < values.len(),
        n >= 0 ==> values[n] is Some && last_present(values) == values[n],
        n < 0 ==> last_present(values) is None,
        forall|j: int| n < j < values.len() ==> #[trigger] values[j] is None,
    decreases values.len(),
{
    if values.len() == 0 {
        -1
    } else if values.last() is Some {
        values.len() - 1
    } else {
        let n = lemma_last_place(values.drop_last());
        assert forall|j: int| n < j < values.len() implies #[trigger] values[j] is None by {
            if j < values.len() - 1 {
                assert(values.drop_last()[j] == values[j]);
            }
        }
        n
    }
}

/// The energy from the grid that a battery is asked for is the newest one that
/// is there, and there is none exactly where no telemetry has one.
pub proof fn lemma_latest_grid_charging(battery: &Battery, r: Option<Reading>)
    requires
        call_ensures(Battery::latest_grid_charging, (battery,), r),
    ensures
        match r {
            Some(v) => exists|i: int|
                0 <= i < battery.telemetries@.len() && (
                #[trigger] battery.telemetries@[i]).ac_grid_charging == Some(v) && forall|j: int|
                    i < j < battery.telemetries@.len() ==> (
                    #[trigger] battery.telemetries@[j]).ac_grid_charging is None,
            None => forall|j: int|
                0 <= j < battery.telemetries@.len() ==> (
                #[trigger] battery.telemetries@[j]).ac_grid_charging is None,
        },
{
    let all = battery.telemetries@;
    let values = Seq::new(all.len(), |i: int| all[i].ac_grid_charging);
    let n = lemma_last_place(values);
    if n >= 0 {
        assert(all[n].ac_grid_charging == values[n]);
    }
    assert forall|j: int| n < j < all.len() implies (#[trigger] all[j]).ac_grid_charging is None by {
        assert(values[j] is None);
    }
}

/// The capacity that a battery is asked for is the newest one that is there, and
/// there is none exactly where no telemetry has one.
pub proof fn lemma_latest_full_pack_energy(battery: &Battery, r: Option<Reading>)
    requires
        call_ensures(Battery::latest_full_pack_energy, (battery,), r),
    ensures
        match r {
            Some(v) => exists|i: int|
                0 <= i < battery.telemetries@.len() && (
                #[trigger] battery.telemetries@[i]).full_pack_energy_available == Some(v)
                    && forall|j: int|
                    i < j < battery.telemetries@.len() ==> (
                    #[trigger] battery.telemetries@[j]).full_pack_energy_available is None,
            None => forall|j: int|
                0 <= j < battery.telemetries@.len() ==> (
                #[trigger] battery.telemetries@[j]).full_pack_energy_available is None,
        },
{
    let all = battery.telemetries@;
    let values = Seq::new(all.len(), |i: int| all[i].full_pack_energy_available);
    let n = lemma_last_place(values);
    if n >= 0 {
        assert(all[n].full_pack_energy_available == values[n]);
    }
    assert forall|j: int| n < j < all.len() implies (
    #[trigger] all[j]).full_pack_energy_available is None by {
        assert(values[j] is None);
    }
}

/// The state that a battery is asked for is the newest one that is there, and
/// there is none exactly where no telemetry has one.
pub proof fn lemma_latest_state(battery: &Battery, r: Option<i64>)
    requires
        call_ensures(Battery::latest_state, (battery,), r),
    ensures
        match r {
            Some(v) => exists|i: int|
                0 <= i < battery.telemetries@.len() && (
                #[trigger] battery.telemetries@[i]).battery_state == Some(v) && forall|j: int|
                    i < j < battery.telemetries@.len() ==> (
                    #[trigger] battery.telemetries@[j]).battery_state is None,
            None => forall|j: int|
                0 <= j < battery.telemetries@.len() ==> (
                #[trigger] battery.telemetries@[j]).battery_state is None,
        },
{
    let all = battery.telemetries@;
    let values = Seq::new(all.len(), |i: int| all[i].battery_state);
    let n = lemma_last_place(values);
    if n >= 0 {
        assert(all[n].battery_state == values[n]);
    }
    assert forall|j: int| n < j < all.len() implies (#[trigger] all[j]).battery_state is None by {
        assert(values[j] is None);
    }
}

/// Of any field, where each telemetry has one value or none, the newest value
/// is given.
pub proof fn lemma_latest_field<T, F: Fn(&BatteryTelemetry) -> Option<T>>(
    field: F,
    telemetries: Seq<BatteryTelemetry>,
    value: spec_fn(BatteryTelemetry) -> Option<T>,
    i: int,
    r: Option<T>,
)
    requires
        forall|t: &BatteryTelemetry, v: Option<T>| #[trigger] field.ensures((t,), v) ==> v == value(*t),
        latest_of(field, telemetries, r),
        0 <= i < telemetries.len(),
        value(telemetries[i]) is Some,
        forall|j: int| i < j < telemetries.len() ==> value(#[trigger] telemetries[j]) is None,
    ensures
        r == value(telemetries[i]),
{
    match r {
        Some(v) => {
            let k = choose|k: int|
                0 <= k < telemetries.len() && field.ensures((&#[trigger] telemetries[k],), Some(v))
                    && forall|j: int|
                    k < j < telemetries.len() ==> field.ensures((&#[trigger] telemetries[j],), None);
            assert(value(telemetries[k]) == Some(v));
            if k < i {
                assert(field.ensures((&telemetries[i],), None));
            } else if i < k {
                assert(value(telemetries[k]) is None);
            }
        },
        None => {
            assert(field.ensures((&telemetries[i],), None));
        },
    }
}

} // verus!
