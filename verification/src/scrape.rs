//! A refresh from the portal: what was fetched, and what becomes of it.

use vstd::prelude::*;

use crate::config;
use crate::config::Config;
use crate::lists;
use crate::measurement;
use crate::measurement::parse_last_measurement_in;
use crate::metrics;
use crate::metrics::{
    append_updates, push_update, Change, Key, LabelTexts, NoLabels, OptimizerLabels, RefreshKind,
    Update, UpdateView, Value,
};
use crate::portal::client::PortalError;
use crate::portal::models;
use crate::portal::models::{
    flatten_layout_v2, DashboardEnergyResponse, FlatOptimizer, FlatOptimizerView, LayoutNodeV2,
    LiveData, OptimizersInfoResponse,
};
use crate::reading::Reading;
use crate::serial_map;
use crate::serial_map::SerialMap;
use crate::series::Series;
use crate::text;

verus! {

/// What was read of an optimizer. What is absent leaves its gauge as it is.
#[derive(Debug, Clone, Copy)]
pub struct OptimizerReading {
    /// Power in watts.
    pub power: Option<Reading>,
    /// Voltage of the module, in volts.
    pub module_voltage: Option<Reading>,
    /// Voltage at the output, in volts.
    pub dc_voltage: Option<Reading>,
    /// Current in amperes.
    pub current: Option<Reading>,
    /// Energy in watt hours.
    pub energy_today: Option<Reading>,
    /// When the values were measured, in Unix seconds.
    pub last_measurement: Option<i64>,
}

impl OptimizerReading {
    /// True where at least one electrical value was read.
    pub open spec fn electrical(self) -> bool {
        self.power is Some || self.module_voltage is Some || self.dc_voltage is Some
            || self.current is Some
    }
}

/// An optimizer with what was read of it.
#[derive(Debug)]
pub struct OptimizerRow {
    /// Labels of the optimizer.
    pub labels: OptimizerLabels,
    /// What was read.
    pub reading: OptimizerReading,
    /// True where live telemetry came, but not of this optimizer, though it is
    /// active.
    pub missing: bool,
}

/// An optimizer with what was read of it, in texts.
#[verifier::ext_equal]
pub struct OptimizerRowView {
    /// Labels of the optimizer.
    pub labels: LabelTexts,
    /// What was read.
    pub reading: OptimizerReading,
    /// True where an active optimizer is missing from live telemetry.
    pub missing: bool,
}

impl View for OptimizerRow {
    type V = OptimizerRowView;

    open spec fn view(&self) -> OptimizerRowView {
        OptimizerRowView {
            labels: metrics::optimizer_labels(
                self.labels.optimizer@,
                self.labels.display_name@,
                self.labels.inverter@,
                self.labels.field@,
            ),
            reading: self.reading,
            missing: self.missing,
        }
    }
}

/// The rows of a vector, in texts.
pub open spec fn row_views(v: Seq<OptimizerRow>) -> Seq<OptimizerRowView> {
    Seq::new(v.len(), |i: int| v[i]@)
}

/// The outcome of a fetch of the energy of one optimizer.
#[derive(Debug)]
pub enum EnergyFetch {
    /// An answer came, with the energy or without it.
    Fetched {
        /// The optimizer.
        serial: String,
        /// Its energy in watt hours.
        watt_hours: Option<Reading>,
    },
    /// No answer came.
    Failed,
}

/// How many optimizers are asked for their energy at the same time.
pub const ENERGY_CONCURRENCY: usize = 6;

/// A count of further failures of a kind.
pub open spec fn errors_update(kind: Seq<char>, n: u64) -> UpdateView {
    metrics::update(Series::PortalRefreshErrors, metrics::kind_label(kind), Change::Count(n))
}

/// A kind of data is fresh as of some Unix second.
pub open spec fn fresh_update(kind: Seq<char>, now: i64) -> UpdateView {
    metrics::update(
        Series::PortalLastRefresh,
        metrics::kind_label(kind),
        Change::Assign(Value::Integer(now)),
    )
}

/// A refresh of a kind of data took some seconds.
pub open spec fn duration_update(kind: Seq<char>, elapsed: Reading) -> UpdateView {
    metrics::update(
        Series::PortalRefreshDuration,
        metrics::kind_label(kind),
        Change::Assign(Value::Reading(elapsed)),
    )
}

fn push_errors(out: &mut Vec<Update>, kind: &str, n: u64)
    ensures
        metrics::update_views(final(out)@) == metrics::update_views(old(out)@).push(
            errors_update(kind@, n),
        ),
{
    push_update(
        out,
        Series::PortalRefreshErrors,
        RefreshKind::of(kind).pairs(),
        Change::Count(n),
    );
}

fn push_fresh(out: &mut Vec<Update>, kind: &str, now: i64)
    ensures
        metrics::update_views(final(out)@) == metrics::update_views(old(out)@).push(
            fresh_update(kind@, now),
        ),
{
    push_update(
        out,
        Series::PortalLastRefresh,
        RefreshKind::of(kind).pairs(),
        Change::Assign(Value::Integer(now)),
    );
}

fn push_duration(out: &mut Vec<Update>, kind: &str, elapsed: Reading)
    ensures
        metrics::update_views(final(out)@) == metrics::update_views(old(out)@).push(
            duration_update(kind@, elapsed),
        ),
{
    push_update(
        out,
        Series::PortalRefreshDuration,
        RefreshKind::of(kind).pairs(),
        Change::Assign(Value::Reading(elapsed)),
    );
}

fn no_updates() -> (r: Vec<Update>)
    ensures
        metrics::update_views(r@) == Seq::<UpdateView>::empty(),
{
    let r: Vec<Update> = Vec::new();
    assert(metrics::update_views(r@) =~= Seq::<UpdateView>::empty());
    r
}

/// Takes in the outcome of the layout fetch at the start. Where it failed, the
/// exporter goes on without optimizers, and the failure is counted.
pub fn layout_outcome(outcome: &Result<LayoutNodeV2, PortalError>) -> (r: (
    Vec<FlatOptimizer>,
    Vec<Update>,
))
    ensures
        match *outcome {
            Ok(layout) => {
                &&& models::flat_views(r.0@) == models::site_entries(layout)
                &&& metrics::update_views(r.1@) == Seq::<UpdateView>::empty()
            },
            Err(_) => {
                &&& r.0@.len() == 0
                &&& metrics::update_views(r.1@) == seq![errors_update("layout"@, 1)]
            },
        },
{
    let mut updates = no_updates();
    match outcome {
        Ok(layout) => (flatten_layout_v2(layout), updates),
        Err(_) => {
            push_errors(&mut updates, "layout", 1);
            assert(metrics::update_views(updates@) =~= seq![errors_update("layout"@, 1)]);
            (Vec::new(), updates)
        },
    }
}

/// Takes in the outcome of warming up the token: a login is counted only where
/// one was made.
pub fn login_updates(fresh_login: &Result<bool, PortalError>) -> (r: Vec<Update>)
    ensures
        metrics::update_views(r@) == login_changes(*fresh_login),
{
    let mut updates = no_updates();
    match fresh_login {
        Ok(true) => {
            let none = NoLabels {  };
            push_update(&mut updates, Series::PortalLogin, none.pairs(), Change::Count(1));
            assert(metrics::update_views(updates@) =~= seq![
                metrics::update(Series::PortalLogin, LabelTexts::empty(), Change::Count(1)),
            ]);
        },
        _ => {},
    }
    updates
}

/// The serial numbers of optimizers.
pub fn serials(optimizers: &Vec<FlatOptimizer>) -> (r: Vec<String>)
    ensures
        text::strings(r@) == Seq::new(
            optimizers@.len(),
            |i: int| optimizers@[i].serial_number@,
        ),
{
    let mut r: Vec<String> = Vec::new();
    let mut i: usize = 0;
    while i < optimizers.len()
        invariant
            i <= optimizers.len(),
            r.len() == i,
            forall|k: int| 0 <= k < i ==> #[trigger] r@[k]@ == optimizers@[k].serial_number@,
        decreases optimizers.len() - i,
    {
        r.push(optimizers[i].serial_number.clone());
        i += 1;
    }
    assert(text::strings(r@) =~= Seq::new(
        optimizers@.len(),
        |i: int| optimizers@[i].serial_number@,
    ));
    r
}

/// Takes in the outcome of the fetch of live telemetry. A failure is counted
/// once for all optimizers.
pub fn live_outcome(outcome: Result<OptimizersInfoResponse, PortalError>) -> (r: (
    Option<OptimizersInfoResponse>,
    Vec<Update>,
))
    ensures
        match outcome {
            Ok(live) => {
                &&& r.0 == Some(live)
                &&& metrics::update_views(r.1@) == Seq::<UpdateView>::empty()
            },
            Err(_) => {
                &&& r.0 is None
                &&& metrics::update_views(r.1@) == seq![errors_update("optimizer"@, 1)]
            },
        },
{
    let mut updates = no_updates();
    match outcome {
        Ok(live) => (Some(live), updates),
        Err(_) => {
            push_errors(&mut updates, "optimizer", 1);
            assert(metrics::update_views(updates@) =~= seq![errors_update("optimizer"@, 1)]);
            (None, updates)
        },
    }
}

/// Takes in the outcome of the fetch of battery energy.
pub fn battery_energy_outcome(outcome: Result<DashboardEnergyResponse, PortalError>) -> (r: (
    Option<DashboardEnergyResponse>,
    Vec<Update>,
))
    ensures
        match outcome {
            Ok(energy) => {
                &&& r.0 == Some(energy)
                &&& metrics::update_views(r.1@) == Seq::<UpdateView>::empty()
            },
            Err(_) => {
                &&& r.0 is None
                &&& metrics::update_views(r.1@) == seq![errors_update("battery_energy"@, 1)]
            },
        },
{
    let mut updates = no_updates();
    match outcome {
        Ok(energy) => (Some(energy), updates),
        Err(_) => {
            push_errors(&mut updates, "battery_energy", 1);
            assert(metrics::update_views(updates@) =~= seq![errors_update("battery_energy"@, 1)]);
            (None, updates)
        },
    }
}

/// The energies that were fetched, by serial number; of two for one optimizer,
/// the later.
pub open spec fn fetched_energy(outcomes: Seq<EnergyFetch>) -> Map<Seq<char>, Option<Reading>>
    decreases outcomes.len(),
{
    if outcomes.len() == 0 {
        Map::empty()
    } else {
        let before = fetched_energy(outcomes.drop_last());
        match outcomes.last() {
            EnergyFetch::Fetched { serial, watt_hours } => before.insert(serial@, watt_hours),
            EnergyFetch::Failed => before,
        }
    }
}

/// How many fetches failed.
pub open spec fn failed_fetches(outcomes: Seq<EnergyFetch>) -> nat
    decreases outcomes.len(),
{
    if outcomes.len() == 0 {
        0
    } else {
        failed_fetches(outcomes.drop_last()) + if outcomes.last() is Failed {
            1nat
        } else {
            0
        }
    }
}

/// True where the energy of at least one optimizer is known.
pub open spec fn any_energy(energy: Map<Seq<char>, Option<Reading>>) -> bool {
    exists|serial: Seq<char>| #[trigger] energy.contains_key(serial) && energy[serial] is Some
}

/// What the fetches of energy change: failures are counted, and the data is
/// fresh only where at least one optimizer reported.
pub open spec fn energy_updates(
    outcomes: Seq<EnergyFetch>,
    now: i64,
    elapsed: Reading,
) -> Seq<UpdateView> {
    let errors = if failed_fetches(outcomes) > 0 {
        seq![errors_update("energy"@, failed_fetches(outcomes) as u64)]
    } else {
        Seq::empty()
    };
    let fresh = if any_energy(fetched_energy(outcomes)) {
        seq![fresh_update("energy"@, now), duration_update("energy"@, elapsed)]
    } else {
        Seq::empty()
    };
    errors + fresh
}

proof fn lemma_failed_fetches(outcomes: Seq<EnergyFetch>)
    ensures
        failed_fetches(outcomes) <= outcomes.len(),
    decreases outcomes.len(),
{
    if outcomes.len() > 0 {
        lemma_failed_fetches(outcomes.drop_last());
    }
}

fn has_energy(energy: &SerialMap<Option<Reading>>) -> (r: bool)
    ensures
        r == any_energy(energy@),
{
    let entries = energy.entries();
    let mut i: usize = 0;
    while i < entries.len()
        invariant
            i <= entries.len(),
            serial_map::distinct_serials(entries@),
            energy@ == serial_map::map_of(entries@),
            forall|k: int| 0 <= k < i ==> (#[trigger] entries@[k]).1 is None,
        decreases entries.len() - i,
    {
        if entries[i].1.is_some() {
            proof {
                serial_map::lemma_entry(entries@, i as int);
            }
            return true;
        }
        i += 1;
    }
    proof {
        if any_energy(energy@) {
            let serial = choose|serial: Seq<char>| #[trigger]
                energy@.contains_key(serial) && energy@[serial] is Some;
            let k = choose|k: int| 0 <= k < entries@.len() && #[trigger] entries@[k].0@ == serial;
            serial_map::lemma_entry(entries@, k);
            assert(entries@[k].1 is None);
        }
    }
    false
}

/// Takes in the outcomes of the fetches of energy, one for each optimizer, at
/// some Unix second and after some seconds.
pub fn energy_outcome(outcomes: &Vec<EnergyFetch>, now: i64, elapsed: Reading) -> (r: (
    SerialMap<Option<Reading>>,
    Vec<Update>,
))
    ensures
        r.0@ == fetched_energy(outcomes@),
        metrics::update_views(r.1@) == energy_updates(outcomes@, now, elapsed),
{
    let mut energy: SerialMap<Option<Reading>> = SerialMap::new();
    let mut failures: usize = 0;
    let mut i: usize = 0;
    assert(outcomes@.take(0) =~= Seq::<EnergyFetch>::empty());
    while i < outcomes.len()
        invariant
            i <= outcomes.len(),
            energy@ == fetched_energy(outcomes@.take(i as int)),
            failures == failed_fetches(outcomes@.take(i as int)),
            failures <= i,
        decreases outcomes.len() - i,
    {
        proof {
            assert(outcomes@.take(i + 1).drop_last() =~= outcomes@.take(i as int));
            assert(outcomes@.take(i + 1).last() == outcomes@[i as int]);
        }
        match &outcomes[i] {
            EnergyFetch::Fetched { serial, watt_hours } => {
                energy.insert(serial.clone(), *watt_hours);
            },
            EnergyFetch::Failed => {
                failures += 1;
            },
        }
        i += 1;
    }
    assert(outcomes@.take(i as int) =~= outcomes@);
    let mut updates = no_updates();
    if failures > 0 {
        push_errors(&mut updates, "energy", failures as u64);
    }
    if has_energy(&energy) {
        push_fresh(&mut updates, "energy", now);
        push_duration(&mut updates, "energy", elapsed);
    }
    assert(metrics::update_views(updates@) =~= energy_updates(outcomes@, now, elapsed));
    (energy, updates)
}

/// The labels of an optimizer.
pub open spec fn labels_for(opt: FlatOptimizerView, fields: Seq<config::Field>) -> LabelTexts {
    metrics::optimizer_labels(
        opt.serial_number,
        opt.display_name,
        opt.inverter_serial,
        config::assigned_field(fields, opt.serial_number),
    )
}

/// Makes the labels of an optimizer.
pub fn make_labels(opt: &FlatOptimizer, config: &Config) -> (r: OptimizerLabels)
    ensures
        r.optimizer@ == opt.serial_number@,
        r.display_name@ == opt.display_name@,
        r.inverter@ == opt.inverter_serial@,
        r.field@ == config::assigned_field(config.fields@, opt.serial_number@),
{
    OptimizerLabels {
        optimizer: opt.serial_number.clone(),
        display_name: opt.display_name.clone(),
        inverter: opt.inverter_serial.clone(),
        field: config.field_for(opt.serial_number.as_str()).to_owned(),
    }
}

/// The live telemetry of an optimizer, where it came.
pub open spec fn live_entry(
    live: Option<OptimizersInfoResponse>,
    serial: Seq<char>,
) -> Option<LiveData> {
    match live {
        Some(live) => if live.serial_to_live_data@.contains_key(serial) {
            Some(live.serial_to_live_data@[serial])
        } else {
            None
        },
        None => None,
    }
}

/// The energy of an optimizer, where it is known.
pub open spec fn energy_entry(
    energy: Map<Seq<char>, Option<Reading>>,
    serial: Seq<char>,
) -> Option<Reading> {
    if energy.contains_key(serial) {
        energy[serial]
    } else {
        None
    }
}

/// What was read of an optimizer, with the time of measurement already read
/// from its text.
pub open spec fn reading_of(
    data: Option<LiveData>,
    energy: Option<Reading>,
    stamp: Option<i64>,
) -> OptimizerReading {
    match data {
        Some(data) => OptimizerReading {
            power: data.power_w,
            module_voltage: data.voltage_v,
            dc_voltage: data.optimizer_voltage_v,
            current: data.current_a,
            energy_today: energy,
            last_measurement: stamp,
        },
        None => OptimizerReading {
            power: None,
            module_voltage: None,
            dc_voltage: None,
            current: None,
            energy_today: energy,
            last_measurement: None,
        },
    }
}

/// An optimizer with what was read of it. It is missing where live telemetry
/// came without it though it is active.
pub open spec fn row_of(
    opt: FlatOptimizerView,
    fields: Seq<config::Field>,
    live: Option<OptimizersInfoResponse>,
    energy: Map<Seq<char>, Option<Reading>>,
    stamp: Option<i64>,
) -> OptimizerRowView {
    let data = live_entry(live, opt.serial_number);
    OptimizerRowView {
        labels: labels_for(opt, fields),
        reading: reading_of(data, energy_entry(energy, opt.serial_number), stamp),
        missing: live is Some && data is None && opt.active(),
    }
}

fn live_data<'a>(live: &'a Option<OptimizersInfoResponse>, serial: &str) -> (r: Option<&'a LiveData>)
    ensures
        match r {
            Some(data) => live_entry(*live, serial@) == Some(*data),
            None => live_entry(*live, serial@) is None,
        },
{
    match live {
        Some(live) => live.serial_to_live_data.get(serial),
        None => None,
    }
}

/// The time of measurement of an optimizer, read in a time zone.
pub open spec fn stamp_of(
    opt: FlatOptimizerView,
    live: Option<OptimizersInfoResponse>,
    zone: jiff::tz::TimeZone,
) -> Option<i64> {
    match live_entry(live, opt.serial_number) {
        Some(data) => measurement::measurement_reading(zone, data.last_measurement@),
        None => None,
    }
}

/// Reads the times of measurement of optimizers from their texts. A text
/// without an offset is read in the time zone.
pub fn measurement_stamps(
    optimizers: &Vec<FlatOptimizer>,
    live: &Option<OptimizersInfoResponse>,
    zone: &jiff::tz::TimeZone,
) -> (r: Vec<Option<i64>>)
    ensures
        r@ == Seq::new(optimizers@.len(), |i: int| stamp_of(optimizers@[i]@, *live, *zone)),
        texts_read(optimizers@, *live, *zone),
{
    let mut r: Vec<Option<i64>> = Vec::new();
    let mut i: usize = 0;
    while i < optimizers.len()
        invariant
            i <= optimizers.len(),
            r.len() == i,
            forall|k: int|
                0 <= k < i ==> #[trigger] r@[k] == stamp_of(optimizers@[k]@, *live, *zone),
            forall|k: int|
                0 <= k < i ==> text_read((#[trigger] optimizers@[k])@, *live, *zone),
        decreases optimizers.len() - i,
    {
        let stamp = match live_data(live, optimizers[i].serial_number.as_str()) {
            Some(data) => parse_last_measurement_in(data.last_measurement.as_str(), zone),
            None => None,
        };
        r.push(stamp);
        i += 1;
    }
    assert(r@ =~= Seq::new(optimizers@.len(), |i: int| stamp_of(optimizers@[i]@, *live, *zone)));
    r
}

/// Puts together what was read of every optimizer, with the times of
/// measurement already read from their texts.
pub fn optimizer_rows(
    optimizers: &Vec<FlatOptimizer>,
    config: &Config,
    live: &Option<OptimizersInfoResponse>,
    energy: &SerialMap<Option<Reading>>,
    stamps: &Vec<Option<i64>>,
) -> (r: Vec<OptimizerRow>)
    requires
        stamps@.len() == optimizers@.len(),
    ensures
        row_views(r@) == Seq::new(
            optimizers@.len(),
            |i: int| row_of(optimizers@[i]@, config.fields@, *live, energy@, stamps@[i]),
        ),
{
    let ghost all = Seq::new(
        optimizers@.len(),
        |i: int| row_of(optimizers@[i]@, config.fields@, *live, energy@, stamps@[i]),
    );
    let mut r: Vec<OptimizerRow> = Vec::new();
    let mut i: usize = 0;
    while i < optimizers.len()
        invariant
            i <= optimizers.len(),
            stamps@.len() == optimizers@.len(),
            r.len() == i,
            all == Seq::new(
                optimizers@.len(),
                |i: int| row_of(optimizers@[i]@, config.fields@, *live, energy@, stamps@[i]),
            ),
            forall|k: int| 0 <= k < i ==> (#[trigger] r@[k])@ == all[k],
        decreases optimizers.len() - i,
    {
        let opt = &optimizers[i];
        let serial = opt.serial_number.as_str();
        let energy_today = match energy.get(serial) {
            Some(wh) => *wh,
            None => None,
        };
        let (reading, missing) = match live_data(live, serial) {
            Some(data) => (
                OptimizerReading {
                    power: data.power_w,
                    module_voltage: data.voltage_v,
                    dc_voltage: data.optimizer_voltage_v,
                    current: data.current_a,
                    energy_today,
                    last_measurement: stamps[i],
                },
                false,
            ),
            None => (
                OptimizerReading {
                    power: None,
                    module_voltage: None,
                    dc_voltage: None,
                    current: None,
                    energy_today,
                    last_measurement: None,
                },
                live.is_some() && opt.is_active(),
            ),
        };
        r.push(OptimizerRow { labels: make_labels(opt, config), reading, missing });
        assert(r@[i as int]@ == all[i as int]);
        i += 1;
    }
    assert(row_views(r@) =~= all);
    r
}

/// Every active optimizer that is missing from live telemetry is counted.
pub open spec fn missing_updates(rows: Seq<OptimizerRowView>) -> Seq<UpdateView> {
    lists::gather(
        rows,
        |row: OptimizerRowView|
            if row.missing {
                seq![errors_update("optimizer"@, 1)]
            } else {
                Seq::empty()
            },
    )
}

/// Counts the active optimizers that are missing from live telemetry.
pub fn count_missing(rows: &Vec<OptimizerRow>) -> (r: Vec<Update>)
    ensures
        metrics::update_views(r@) == missing_updates(row_views(rows@)),
{
    let ghost all = row_views(rows@);
    let ghost f = |row: OptimizerRowView|
        if row.missing {
            seq![errors_update("optimizer"@, 1)]
        } else {
            Seq::empty()
        };
    let mut updates = no_updates();
    let mut i: usize = 0;
    assert(metrics::update_views(updates@) =~= lists::gather(all.take(0), f));
    while i < rows.len()
        invariant
            i <= rows.len(),
            all == row_views(rows@),
            f == (|row: OptimizerRowView|
                if row.missing {
                    seq![errors_update("optimizer"@, 1)]
                } else {
                    Seq::empty()
                }),
            metrics::update_views(updates@) == lists::gather(all.take(i as int), f),
        decreases rows.len() - i,
    {
        let ghost before = metrics::update_views(updates@);
        if rows[i].missing {
            push_errors(&mut updates, "optimizer", 1);
        }
        proof {
            lists::lemma_gather_step(all, f, i as int);
            assert(metrics::update_views(updates@) =~= before + f(all[i as int]));
        }
        i += 1;
    }
    assert(all.take(i as int) =~= all);
    updates
}

/// A gauge takes a value where there is one.
pub open spec fn assign_if(series: Series, labels: LabelTexts, v: Option<Reading>) -> Seq<
    UpdateView,
> {
    match v {
        Some(v) => seq![metrics::update(series, labels, Change::Assign(Value::Reading(v)))],
        None => Seq::empty(),
    }
}

/// A lifetime gauge is raised to a value where there is one that is a number.
pub open spec fn raise_if(series: Series, labels: LabelTexts, v: Option<Reading>) -> Seq<
    UpdateView,
> {
    match v {
        Some(v) => if v.is_nan() {
            Seq::empty()
        } else {
            seq![metrics::update(series, labels, Change::Raise(v))]
        },
        None => Seq::empty(),
    }
}

/// A gauge takes a whole number where there is one.
pub open spec fn assign_integer_if(series: Series, labels: LabelTexts, v: Option<i64>) -> Seq<
    UpdateView,
> {
    match v {
        Some(v) => seq![metrics::update(series, labels, Change::Assign(Value::Integer(v)))],
        None => Seq::empty(),
    }
}

/// What was read of an optimizer, as changes. The energy is a lifetime total
/// and is never lowered.
pub open spec fn row_updates(row: OptimizerRowView) -> Seq<UpdateView> {
    let labels = row.labels;
    let reading = row.reading;
    assign_if(Series::OptimizerPower, labels, reading.power) + assign_if(
        Series::OptimizerModuleVoltage,
        labels,
        reading.module_voltage,
    ) + assign_if(Series::OptimizerDcVoltage, labels, reading.dc_voltage) + assign_if(
        Series::OptimizerCurrent,
        labels,
        reading.current,
    ) + raise_if(Series::OptimizerEnergyToday, labels, reading.energy_today) + assign_integer_if(
        Series::OptimizerLastMeasurement,
        labels,
        reading.last_measurement,
    )
}

/// What battery energy changes: two lifetime totals, and its freshness.
pub open spec fn battery_updates(energy: Option<DashboardEnergyResponse>, now: i64) -> Seq<
    UpdateView,
> {
    match energy {
        Some(energy) => raise_if(
            Series::BatteryEnergyCharged,
            LabelTexts::empty(),
            energy.charged(),
        ) + raise_if(
            Series::BatteryEnergyDischarged,
            LabelTexts::empty(),
            energy.discharged(),
        ) + seq![fresh_update("battery_energy"@, now)],
        None => Seq::empty(),
    }
}

/// True where at least one electrical value was read of any optimizer.
pub open spec fn any_telemetry(rows: Seq<OptimizerRowView>) -> bool {
    exists|i: int| 0 <= i < rows.len() && (#[trigger] rows[i]).reading.electrical()
}

/// What a refresh changes. Telemetry is fresh only where at least one
/// electrical value was read.
pub open spec fn refresh_updates(
    rows: Seq<OptimizerRowView>,
    energy: Option<DashboardEnergyResponse>,
    now: i64,
) -> Seq<UpdateView> {
    let fresh = if any_telemetry(rows) {
        seq![fresh_update("telemetry"@, now)]
    } else {
        Seq::empty()
    };
    lists::gather(rows, |row: OptimizerRowView| row_updates(row)) + battery_updates(energy, now)
        + fresh
}

fn push_assign_if(
    out: &mut Vec<Update>,
    series: Series,
    labels: &OptimizerLabels,
    v: Option<Reading>,
)
    ensures
        metrics::update_views(final(out)@) == metrics::update_views(old(out)@) + assign_if(
            series,
            metrics::optimizer_labels(
                labels.optimizer@,
                labels.display_name@,
                labels.inverter@,
                labels.field@,
            ),
            v,
        ),
{
    let ghost before = metrics::update_views(out@);
    let ghost texts = metrics::optimizer_labels(
        labels.optimizer@,
        labels.display_name@,
        labels.inverter@,
        labels.field@,
    );
    match v {
        Some(v) => push_update(out, series, labels.pairs(), Change::Assign(Value::Reading(v))),
        None => {},
    }
    assert(metrics::update_views(out@) =~= before + assign_if(series, texts, v));
}

fn push_raise_if(
    out: &mut Vec<Update>,
    series: Series,
    labels: Vec<(String, String)>,
    v: Option<Reading>,
)
    ensures
        metrics::update_views(final(out)@) == metrics::update_views(old(out)@) + raise_if(
            series,
            metrics::label_texts(labels@),
            v,
        ),
{
    let ghost before = metrics::update_views(out@);
    let ghost texts = metrics::label_texts(labels@);
    match v {
        Some(v) => {
            if v.is_number() {
                push_update(out, series, labels, Change::Raise(v));
            }
        },
        None => {},
    }
    assert(metrics::update_views(out@) =~= before + raise_if(series, texts, v));
}

fn push_row(out: &mut Vec<Update>, row: &OptimizerRow)
    ensures
        metrics::update_views(final(out)@) == metrics::update_views(old(out)@) + row_updates(row@),
{
    let ghost before = metrics::update_views(out@);
    let labels = &row.labels;
    let reading = &row.reading;
    push_assign_if(out, Series::OptimizerPower, labels, reading.power);
    push_assign_if(out, Series::OptimizerModuleVoltage, labels, reading.module_voltage);
    push_assign_if(out, Series::OptimizerDcVoltage, labels, reading.dc_voltage);
    push_assign_if(out, Series::OptimizerCurrent, labels, reading.current);
    push_raise_if(out, Series::OptimizerEnergyToday, labels.pairs(), reading.energy_today);
    match reading.last_measurement {
        Some(at) => push_update(
            out,
            Series::OptimizerLastMeasurement,
            labels.pairs(),
            Change::Assign(Value::Integer(at)),
        ),
        None => {},
    }
    assert(metrics::update_views(out@) =~= before + row_updates(row@));
}

/// Tests whether at least one electrical value was read of any optimizer.
pub fn telemetry_read(rows: &Vec<OptimizerRow>) -> (r: bool)
    ensures
        r == any_telemetry(row_views(rows@)),
{
    let ghost all = row_views(rows@);
    let mut i: usize = 0;
    while i < rows.len()
        invariant
            i <= rows.len(),
            all == row_views(rows@),
            forall|k: int| 0 <= k < i ==> !(#[trigger] all[k]).reading.electrical(),
        decreases rows.len() - i,
    {
        let reading = &rows[i].reading;
        if reading.power.is_some() || reading.module_voltage.is_some()
            || reading.dc_voltage.is_some() || reading.current.is_some() {
            assert(all[i as int].reading.electrical());
            return true;
        }
        assert(all[i as int].reading == *reading);
        i += 1;
    }
    false
}

/// Turns all that was read in a refresh into changes, as of some Unix second.
pub fn plan_refresh(
    rows: &Vec<OptimizerRow>,
    energy: &Option<DashboardEnergyResponse>,
    now: i64,
) -> (r: Vec<Update>)
    ensures
        metrics::update_views(r@) == refresh_updates(row_views(rows@), *energy, now),
{
    let ghost all = row_views(rows@);
    let ghost f = |row: OptimizerRowView| row_updates(row);
    let mut updates = no_updates();
    let mut i: usize = 0;
    assert(metrics::update_views(updates@) =~= lists::gather(all.take(0), f));
    while i < rows.len()
        invariant
            i <= rows.len(),
            all == row_views(rows@),
            f == (|row: OptimizerRowView| row_updates(row)),
            metrics::update_views(updates@) == lists::gather(all.take(i as int), f),
        decreases rows.len() - i,
    {
        push_row(&mut updates, &rows[i]);
        proof {
            lists::lemma_gather_step(all, f, i as int);
        }
        i += 1;
    }
    assert(all.take(i as int) =~= all);
    let ghost of_rows = metrics::update_views(updates@);
    match energy {
        Some(energy) => {
            let none = NoLabels {  };
            push_raise_if(
                &mut updates,
                Series::BatteryEnergyCharged,
                none.pairs(),
                energy.charged_watt_hours(),
            );
            push_raise_if(
                &mut updates,
                Series::BatteryEnergyDischarged,
                none.pairs(),
                energy.discharged_watt_hours(),
            );
            push_fresh(&mut updates, "battery_energy", now);
        },
        None => {},
    }
    assert(metrics::update_views(updates@) =~= of_rows + battery_updates(*energy, now));
    if telemetry_read(rows) {
        push_fresh(&mut updates, "telemetry", now);
    }
    assert(metrics::update_views(updates@) =~= refresh_updates(all, *energy, now));
    updates
}

/// Records how long a whole refresh took.
pub fn cycle_updates(elapsed: Reading) -> (r: Vec<Update>)
    ensures
        metrics::update_views(r@) == seq![duration_update("telemetry"@, elapsed)],
{
    let mut updates = no_updates();
    push_duration(&mut updates, "telemetry", elapsed);
    assert(metrics::update_views(updates@) =~= seq![duration_update("telemetry"@, elapsed)]);
    updates
}

/// What a refresh fetches next.
#[derive(Debug, Clone, Copy, PartialEq, Eq, Structural)]
pub enum Stage {
    /// The token, with a login if one is due.
    Login,
    /// Live telemetry of all optimizers.
    Live,
    /// The energy of every optimizer.
    Energy,
    /// The energy of the battery.
    BatteryEnergy,
    /// Nothing more.
    Finished,
}

/// What came of a fetch.
#[derive(Debug)]
pub enum Fetched {
    /// Whether a login was made.
    Login(Result<bool, PortalError>),
    /// Live telemetry.
    Live(Result<OptimizersInfoResponse, PortalError>),
    /// The energy of every optimizer.
    Energy {
        /// One outcome for each optimizer.
        outcomes: Vec<EnergyFetch>,
        /// When the last of them came, in Unix seconds.
        now: i64,
        /// How many seconds they took.
        elapsed: Reading,
    },
    /// The energy of the battery.
    BatteryEnergy {
        /// The outcome.
        outcome: Result<DashboardEnergyResponse, PortalError>,
        /// When it came, in Unix seconds.
        now: i64,
    },
}

/// What a step of a refresh has to tell.
#[derive(Debug)]
pub struct StepReport {
    /// The lifetime values that were held back.
    pub held: Vec<metrics::Held>,
    /// The optimizers with what was read of them, at the end of the refresh.
    pub rows: Vec<OptimizerRow>,
}

/// A refresh that goes on.
#[derive(Debug)]
pub struct Refresh {
    /// What is fetched next.
    pub stage: Stage,
    /// Live telemetry, where it came.
    pub live: Option<OptimizersInfoResponse>,
    /// Energies by serial number, as far as they came.
    pub energy: SerialMap<Option<Reading>>,
}

/// What is fetched after a stage. Without optimizers there is nothing to ask
/// of them.
pub open spec fn next_stage(stage: Stage, any_optimizers: bool) -> Stage {
    match stage {
        Stage::Login => if any_optimizers {
            Stage::Live
        } else {
            Stage::BatteryEnergy
        },
        Stage::Live => Stage::Energy,
        Stage::Energy => Stage::BatteryEnergy,
        Stage::BatteryEnergy | Stage::Finished => Stage::Finished,
    }
}

/// True where what came is what a stage fetches.
pub open spec fn answers(fetched: Fetched, stage: Stage) -> bool {
    match fetched {
        Fetched::Login(_) => stage is Login,
        Fetched::Live(_) => stage is Live,
        Fetched::Energy { .. } => stage is Energy,
        Fetched::BatteryEnergy { .. } => stage is BatteryEnergy,
    }
}

/// True where the text of an optimizer's last measurement, if one came, is read
/// in a time zone as `measurement` says.
pub open spec fn text_read(
    opt: FlatOptimizerView,
    live: Option<OptimizersInfoResponse>,
    zone: jiff::tz::TimeZone,
) -> bool {
    live_entry(live, opt.serial_number) matches Some(data) ==> measurement::measurement_read(
        zone,
        data.last_measurement@,
        stamp_of(opt, live, zone),
    )
}

/// True where the texts of all last measurements are read so.
pub open spec fn texts_read(
    optimizers: Seq<FlatOptimizer>,
    live: Option<OptimizersInfoResponse>,
    zone: jiff::tz::TimeZone,
) -> bool {
    forall|i: int| 0 <= i < optimizers.len() ==> text_read((#[trigger] optimizers[i])@, live, zone)
}

/// What was read of every optimizer, with times of measurement in a time zone.
pub open spec fn rows_of(
    optimizers: Seq<FlatOptimizer>,
    fields: Seq<config::Field>,
    live: Option<OptimizersInfoResponse>,
    energy: Map<Seq<char>, Option<Reading>>,
    zone: jiff::tz::TimeZone,
) -> Seq<OptimizerRowView> {
    Seq::new(
        optimizers.len(),
        |i: int|
            row_of(
                optimizers[i]@,
                fields,
                live,
                energy,
                stamp_of(optimizers[i]@, live, zone),
            ),
    )
}

/// What the last step of a refresh changes.
pub open spec fn closing_updates(
    rows: Seq<OptimizerRowView>,
    outcome: Result<DashboardEnergyResponse, PortalError>,
    now: i64,
) -> Seq<UpdateView> {
    match outcome {
        Ok(energy) => missing_updates(rows) + refresh_updates(rows, Some(energy), now),
        Err(_) => seq![errors_update("battery_energy"@, 1)] + missing_updates(rows)
            + refresh_updates(rows, None, now),
    }
}

/// What the token changes.
pub open spec fn login_changes(fresh_login: Result<bool, PortalError>) -> Seq<UpdateView> {
    if fresh_login == Ok::<bool, PortalError>(true) {
        seq![metrics::update(Series::PortalLogin, LabelTexts::empty(), Change::Count(1))]
    } else {
        Seq::empty()
    }
}

/// What live telemetry changes before it is put together with the rest.
pub open spec fn live_changes(outcome: Result<OptimizersInfoResponse, PortalError>) -> Seq<
    UpdateView,
> {
    match outcome {
        Ok(_) => Seq::empty(),
        Err(_) => seq![errors_update("optimizer"@, 1)],
    }
}

impl Refresh {
    /// A refresh that has fetched nothing yet.
    pub fn begin() -> (r: Refresh)
        ensures
            r.stage == Stage::Login,
            r.live is None,
            r.energy@ == Map::<Seq<char>, Option<Reading>>::empty(),
    {
        Refresh { stage: Stage::Login, live: None, energy: SerialMap::new() }
    }

    /// Takes in what came of the fetch that is due. Failures and logins are
    /// counted at once; all else is published together at the end, so that no
    /// half of a refresh is ever seen. Anything that was not due is passed
    /// over. Times of measurement without an offset are read in the time zone.
    pub fn step(
        &mut self,
        fetched: Fetched,
        optimizers: &Vec<FlatOptimizer>,
        config: &Config,
        published: &mut metrics::AppMetrics,
        zone: &jiff::tz::TimeZone,
    ) -> (r: StepReport)
        ensures
            final(self).stage == if answers(fetched, old(self).stage) {
                next_stage(old(self).stage, optimizers@.len() > 0)
            } else {
                old(self).stage
            },
            !answers(fetched, old(self).stage) ==> *final(self) == *old(self) && final(published)@
                == old(published)@ && r.held@.len() == 0 && r.rows@.len() == 0,
            answers(fetched, old(self).stage) ==> match fetched {
                Fetched::Login(outcome) => {
                    &&& final(self).live == old(self).live
                    &&& final(self).energy == old(self).energy
                    &&& final(published)@ == metrics::all_applied(
                        old(published)@,
                        login_changes(outcome),
                    )
                    &&& metrics::held_views(r.held@) == metrics::all_held(
                        old(published)@,
                        login_changes(outcome),
                    )
                    &&& r.rows@.len() == 0
                },
                Fetched::Live(outcome) => {
                    &&& final(self).live == match outcome {
                        Ok(live) => Some(live),
                        Err(_) => None,
                    }
                    &&& final(self).energy == old(self).energy
                    &&& final(published)@ == metrics::all_applied(
                        old(published)@,
                        live_changes(outcome),
                    )
                    &&& metrics::held_views(r.held@) == metrics::all_held(
                        old(published)@,
                        live_changes(outcome),
                    )
                    &&& r.rows@.len() == 0
                },
                Fetched::Energy { outcomes, now, elapsed } => {
                    &&& final(self).live == old(self).live
                    &&& final(self).energy@ == fetched_energy(outcomes@)
                    &&& final(published)@ == metrics::all_applied(
                        old(published)@,
                        energy_updates(outcomes@, now, elapsed),
                    )
                    &&& metrics::held_views(r.held@) == metrics::all_held(
                        old(published)@,
                        energy_updates(outcomes@, now, elapsed),
                    )
                    &&& r.rows@.len() == 0
                },
                Fetched::BatteryEnergy { outcome, now } => {
                    let updates = closing_updates(row_views(r.rows@), outcome, now);
                    &&& final(self).live == old(self).live
                    &&& final(self).energy == old(self).energy
                    &&& texts_read(optimizers@, old(self).live, *zone)
                    &&& row_views(r.rows@) == rows_of(
                        optimizers@,
                        config.fields@,
                        old(self).live,
                        old(self).energy@,
                        *zone,
                    )
                    &&& final(published)@ == metrics::all_applied(old(published)@, updates)
                    &&& metrics::held_views(r.held@) == metrics::all_held(
                        old(published)@,
                        updates,
                    )
                },
            },
    {
        let rows: Vec<OptimizerRow> = Vec::new();
        match (self.stage, fetched) {
            (Stage::Login, Fetched::Login(outcome)) => {
                self.stage = if optimizers.len() > 0 {
                    Stage::Live
                } else {
                    Stage::BatteryEnergy
                };
                let held = published.commit(&login_updates(&outcome));
                StepReport { held, rows }
            },
            (Stage::Live, Fetched::Live(outcome)) => {
                let (live, updates) = live_outcome(outcome);
                self.stage = Stage::Energy;
                self.live = live;
                let held = published.commit(&updates);
                StepReport { held, rows }
            },
            (Stage::Energy, Fetched::Energy { outcomes, now, elapsed }) => {
                let (energy, updates) = energy_outcome(&outcomes, now, elapsed);
                self.stage = Stage::BatteryEnergy;
                self.energy = energy;
                let held = published.commit(&updates);
                StepReport { held, rows }
            },
            (Stage::BatteryEnergy, Fetched::BatteryEnergy { outcome, now }) => {
                let ghost came = outcome;
                let (energy, mut updates) = battery_energy_outcome(outcome);
                let stamps = measurement_stamps(optimizers, &self.live, zone);
                let rows = optimizer_rows(optimizers, config, &self.live, &self.energy, &stamps);
                append_updates(&mut updates, count_missing(&rows));
                append_updates(&mut updates, plan_refresh(&rows, &energy, now));
                assert(row_views(rows@) =~= rows_of(
                    optimizers@,
                    config.fields@,
                    self.live,
                    self.energy@,
                    *zone,
                ));
                assert(metrics::update_views(updates@) =~= closing_updates(
                    row_views(rows@),
                    came,
                    now,
                ));
                self.stage = Stage::Finished;
                let held = published.commit(&updates);
                StepReport { held, rows }
            },
            _ => StepReport { held: Vec::new(), rows },
        }
    }
}

/// A property that every change of a row, of battery energy, of a failure and
/// of freshness has is one of every change of the last step.
proof fn lemma_each_closing(
    rows: Seq<OptimizerRowView>,
    outcome: Result<DashboardEnergyResponse, PortalError>,
    now: i64,
    p: spec_fn(UpdateView) -> bool,
)
    requires
        forall|i: int| 0 <= i < rows.len() ==> lists::each(row_updates(#[trigger] rows[i]), p),
        p(errors_update("battery_energy"@, 1)),
        (exists|i: int| 0 <= i < rows.len() && (#[trigger] rows[i]).missing) ==> p(
            errors_update("optimizer"@, 1),
        ),
        any_telemetry(rows) ==> p(fresh_update("telemetry"@, now)),
        outcome matches Ok(energy) ==> lists::each(battery_updates(Some(energy), now), p),
    ensures
        lists::each(closing_updates(rows, outcome, now), p),
{
    let missing = |row: OptimizerRowView|
        if row.missing {
            seq![errors_update("optimizer"@, 1)]
        } else {
            Seq::empty()
        };
    let reads = |row: OptimizerRowView| row_updates(row);
    assert forall|i: int| 0 <= i < rows.len() implies lists::each(missing(#[trigger] rows[i]), p) by {
        assert(rows[i].missing ==> p(errors_update("optimizer"@, 1)));
    }
    lists::lemma_each_gathered(rows, missing, p);
    assert forall|i: int| 0 <= i < rows.len() implies lists::each(reads(#[trigger] rows[i]), p) by {
        assert(lists::each(row_updates(rows[i]), p));
    }
    lists::lemma_each_gathered(rows, reads, p);
    let energy = match outcome {
        Ok(energy) => Some(energy),
        Err(_) => None,
    };
    let battery = battery_updates(energy, now);
    assert(lists::each(battery, p));
    let fresh = if any_telemetry(rows) {
        seq![fresh_update("telemetry"@, now)]
    } else {
        Seq::empty()
    };
    let of_rows = lists::gather(rows, reads);
    lists::lemma_each_concat(of_rows, battery, p);
    lists::lemma_each_concat(of_rows + battery, fresh, p);
    let refreshed = refresh_updates(rows, energy, now);
    assert(refreshed =~= of_rows + battery + fresh);
    let counted = missing_updates(rows);
    lists::lemma_each_concat(counted, refreshed, p);
    let failed = seq![errors_update("battery_energy"@, 1)];
    lists::lemma_each_concat(failed, counted, p);
    lists::lemma_each_concat(failed + counted, refreshed, p);
}

proof fn lemma_each_of_battery(
    energy: DashboardEnergyResponse,
    now: i64,
    p: spec_fn(UpdateView) -> bool,
)
    requires
        lists::each(
            raise_if(Series::BatteryEnergyCharged, LabelTexts::empty(), energy.charged()),
            p,
        ),
        lists::each(
            raise_if(Series::BatteryEnergyDischarged, LabelTexts::empty(), energy.discharged()),
            p,
        ),
        p(fresh_update("battery_energy"@, now)),
    ensures
        lists::each(battery_updates(Some(energy), now), p),
{
    let a = raise_if(Series::BatteryEnergyCharged, LabelTexts::empty(), energy.charged());
    let b = raise_if(Series::BatteryEnergyDischarged, LabelTexts::empty(), energy.discharged());
    let c = seq![fresh_update("battery_energy"@, now)];
    lists::lemma_each_concat(a, b, p);
    lists::lemma_each_concat(a + b, c, p);
}

proof fn lemma_each_of_row(row: OptimizerRowView, p: spec_fn(UpdateView) -> bool)
    requires
        lists::each(assign_if(Series::OptimizerPower, row.labels, row.reading.power), p),
        lists::each(
            assign_if(Series::OptimizerModuleVoltage, row.labels, row.reading.module_voltage),
            p,
        ),
        lists::each(assign_if(Series::OptimizerDcVoltage, row.labels, row.reading.dc_voltage), p),
        lists::each(assign_if(Series::OptimizerCurrent, row.labels, row.reading.current), p),
        lists::each(raise_if(Series::OptimizerEnergyToday, row.labels, row.reading.energy_today), p),
        lists::each(
            assign_integer_if(
                Series::OptimizerLastMeasurement,
                row.labels,
                row.reading.last_measurement,
            ),
            p,
        ),
    ensures
        lists::each(row_updates(row), p),
{
    let labels = row.labels;
    let reading = row.reading;
    let a = assign_if(Series::OptimizerPower, labels, reading.power);
    let b = assign_if(Series::OptimizerModuleVoltage, labels, reading.module_voltage);
    let c = assign_if(Series::OptimizerDcVoltage, labels, reading.dc_voltage);
    let d = assign_if(Series::OptimizerCurrent, labels, reading.current);
    let e = raise_if(Series::OptimizerEnergyToday, labels, reading.energy_today);
    let f = assign_integer_if(Series::OptimizerLastMeasurement, labels, reading.last_measurement);
    lists::lemma_each_concat(a, b, p);
    lists::lemma_each_concat(a + b, c, p);
    lists::lemma_each_concat(a + b + c, d, p);
    lists::lemma_each_concat(a + b + c + d, e, p);
    lists::lemma_each_concat(a + b + c + d + e, f, p);
}

/// A refresh never lowers a lifetime total: not where the portal sums up anew
/// and reports less for a while, not where it reports nothing, and not where it
/// reports what is no number. A total stays a number once it is one, and one
/// that is absent starts at a number.
pub proof fn lemma_refresh_keeps_lifetime(
    samples: Map<Key, Value>,
    rows: Seq<OptimizerRowView>,
    outcome: Result<DashboardEnergyResponse, PortalError>,
    now: i64,
    key: Key,
)
    requires
        key.0.lifetime(),
        metrics::measured_or_absent(metrics::sample_at(samples, key)),
    ensures
        ({
            let before = metrics::sample_at(samples, key);
            let after = metrics::sample_at(
                metrics::all_applied(samples, closing_updates(rows, outcome, now)),
                key,
            );
            metrics::kept_up(before, after)
        }),
{
    let p = |u: UpdateView|
        u.key.0.lifetime() ==> (u.change matches Change::Raise(v) && !v.is_nan());
    assert forall|i: int| 0 <= i < rows.len() implies lists::each(
        row_updates(#[trigger] rows[i]),
        p,
    ) by {
        lemma_each_of_row(rows[i], p);
    }
    if let Ok(energy) = outcome {
        lemma_each_of_battery(energy, now, p);
    }
    lemma_each_closing(rows, outcome, now, p);
    let updates = closing_updates(rows, outcome, now);
    assert forall|i: int| 0 <= i < updates.len() && (#[trigger] updates[i]).key == key implies
        updates[i].change is Raise by {
        assert(p(updates[i]));
    }
    metrics::lemma_lifetime_never_decreases(samples, updates, key);
}

/// True where a row has a value for a series; for a lifetime total that is a
/// number.
pub open spec fn row_has(row: OptimizerRowView, series: Series) -> bool {
    match series {
        Series::OptimizerPower => row.reading.power is Some,
        Series::OptimizerModuleVoltage => row.reading.module_voltage is Some,
        Series::OptimizerDcVoltage => row.reading.dc_voltage is Some,
        Series::OptimizerCurrent => row.reading.current is Some,
        Series::OptimizerEnergyToday => row.reading.energy_today matches Some(v) && !v.is_nan(),
        Series::OptimizerLastMeasurement => row.reading.last_measurement is Some,
        _ => false,
    }
}

/// True of the series that an optimizer has.
pub open spec fn of_optimizer(series: Series) -> bool {
    series is OptimizerPower || series is OptimizerModuleVoltage || series is OptimizerDcVoltage
        || series is OptimizerCurrent || series is OptimizerEnergyToday
        || series is OptimizerLastMeasurement
}

/// What was not read of an optimizer leaves its gauge as it was: not zero, and
/// not gone.
pub proof fn lemma_absent_value_keeps_gauge(
    samples: Map<Key, Value>,
    rows: Seq<OptimizerRowView>,
    outcome: Result<DashboardEnergyResponse, PortalError>,
    now: i64,
    key: Key,
)
    requires
        of_optimizer(key.0),
        forall|i: int|
            0 <= i < rows.len() && (#[trigger] rows[i]).labels == key.1 ==> !row_has(
                rows[i],
                key.0,
            ),
    ensures
        metrics::sample_at(
            metrics::all_applied(samples, closing_updates(rows, outcome, now)),
            key,
        ) == metrics::sample_at(samples, key),
{
    let p = |u: UpdateView| u.key != key;
    assert forall|i: int| 0 <= i < rows.len() implies lists::each(
        row_updates(#[trigger] rows[i]),
        p,
    ) by {
        assert(rows[i].labels == key.1 ==> !row_has(rows[i], key.0));
        lemma_each_of_row(rows[i], p);
    }
    if let Ok(energy) = outcome {
        lemma_each_of_battery(energy, now, p);
    }
    lemma_each_closing(rows, outcome, now, p);
    let updates = closing_updates(rows, outcome, now);
    assert forall|i: int| 0 <= i < updates.len() implies (#[trigger] updates[i]).key != key by {
        assert(p(updates[i]));
    }
    metrics::lemma_untouched(samples, updates, key);
}

/// Telemetry counts as fresh exactly where an electrical value was read: an
/// answer that can be decoded but holds none leaves the time of the last
/// refresh as it was, so that the data is seen to be stale.
pub proof fn lemma_telemetry_freshness(
    samples: Map<Key, Value>,
    rows: Seq<OptimizerRowView>,
    outcome: Result<DashboardEnergyResponse, PortalError>,
    now: i64,
)
    ensures
        metrics::sample_at(
            metrics::all_applied(samples, closing_updates(rows, outcome, now)),
            fresh_update("telemetry"@, now).key,
        ) == if any_telemetry(rows) {
            Some(Value::Integer(now))
        } else {
            metrics::sample_at(samples, fresh_update("telemetry"@, now).key)
        },
{
    let key = fresh_update("telemetry"@, now).key;
    let updates = closing_updates(rows, outcome, now);
    if any_telemetry(rows) {
        assert(updates.last() == fresh_update("telemetry"@, now));
    } else {
        let p = |u: UpdateView| u.key != key;
        assert forall|i: int| 0 <= i < rows.len() implies lists::each(
            row_updates(#[trigger] rows[i]),
            p,
        ) by {
            lemma_each_of_row(rows[i], p);
        }
        lemma_kinds_differ();
        if let Ok(energy) = outcome {
            lemma_each_of_battery(energy, now, p);
        }
        lemma_each_closing(rows, outcome, now, p);
        assert forall|i: int| 0 <= i < updates.len() implies (#[trigger] updates[i]).key != key by {
            assert(p(updates[i]));
        }
        metrics::lemma_untouched(samples, updates, key);
    }
}

proof fn lemma_kinds_differ()
    ensures
        metrics::kind_label("telemetry"@) != metrics::kind_label("battery_energy"@),
{
    reveal_strlit("telemetry");
    reveal_strlit("battery_energy");
    assert(metrics::kind_label("telemetry"@)[0].1.len() == 9);
    assert(metrics::kind_label("battery_energy"@)[0].1.len() == 14);
}

/// Battery energy counts as fresh exactly where it was fetched.
pub proof fn lemma_battery_energy_freshness(
    samples: Map<Key, Value>,
    rows: Seq<OptimizerRowView>,
    outcome: Result<DashboardEnergyResponse, PortalError>,
    now: i64,
)
    ensures
        metrics::sample_at(
            metrics::all_applied(samples, closing_updates(rows, outcome, now)),
            fresh_update("battery_energy"@, now).key,
        ) == if outcome is Ok {
            Some(Value::Integer(now))
        } else {
            metrics::sample_at(samples, fresh_update("battery_energy"@, now).key)
        },
{
    let key = fresh_update("battery_energy"@, now).key;
    let updates = closing_updates(rows, outcome, now);
    lemma_kinds_differ();
    if outcome is Ok {
        reveal_with_fuel(metrics::all_applied, 2);
        if any_telemetry(rows) {
            let head = updates.drop_last();
            assert(updates.last() == fresh_update("telemetry"@, now));
            assert(head.last() == fresh_update("battery_energy"@, now));
        } else {
            assert(updates.last() == fresh_update("battery_energy"@, now));
        }
    } else {
        let p = |u: UpdateView| u.key != key;
        assert forall|i: int| 0 <= i < rows.len() implies lists::each(
            row_updates(#[trigger] rows[i]),
            p,
        ) by {
            lemma_each_of_row(rows[i], p);
        }
        lemma_each_closing(rows, outcome, now, p);
        assert forall|i: int| 0 <= i < updates.len() implies (#[trigger] updates[i]).key != key by {
            assert(p(updates[i]));
        }
        metrics::lemma_untouched(samples, updates, key);
    }
}

/// How a value that was read of an optimizer changes its sample.
pub open spec fn row_change(row: OptimizerRowView, series: Series) -> Change {
    let reading = row.reading;
    match series {
        Series::OptimizerPower => Change::Assign(Value::Reading(reading.power->0)),
        Series::OptimizerModuleVoltage => Change::Assign(Value::Reading(reading.module_voltage->0)),
        Series::OptimizerDcVoltage => Change::Assign(Value::Reading(reading.dc_voltage->0)),
        Series::OptimizerCurrent => Change::Assign(Value::Reading(reading.current->0)),
        Series::OptimizerEnergyToday => Change::Raise(reading.energy_today->0),
        _ => Change::Assign(Value::Integer(reading.last_measurement->0)),
    }
}

/// Every value that was read of an optimizer is published under its labels,
/// whether a field lists it or not: afterwards the sample is there, and where no
/// other row has the same labels it has that value, or, as a lifetime total, the
/// highest one so far.
pub proof fn lemma_every_value_published(
    samples: Map<Key, Value>,
    rows: Seq<OptimizerRowView>,
    outcome: Result<DashboardEnergyResponse, PortalError>,
    now: i64,
    i: int,
    series: Series,
)
    requires
        0 <= i < rows.len(),
        row_has(rows[i], series),
    ensures
        ({
            let key = (series, rows[i].labels);
            let after = metrics::sample_at(
                metrics::all_applied(samples, closing_updates(rows, outcome, now)),
                key,
            );
            &&& after is Some
            &&& (forall|j: int|
                0 <= j < rows.len() && j != i ==> (#[trigger] rows[j]).labels != rows[i].labels)
                ==> after == Some(
                metrics::changed(metrics::sample_at(samples, key), row_change(rows[i], series)),
            )
        }),
{
    let key = (series, rows[i].labels);
    let reads = |row: OptimizerRowView| row_updates(row);
    let energy = match outcome {
        Ok(energy) => Some(energy),
        Err(_) => None,
    };
    let front = match outcome {
        Ok(_) => missing_updates(rows),
        Err(_) => seq![errors_update("battery_energy"@, 1)] + missing_updates(rows),
    };
    let earlier = lists::gather(rows.take(i), reads);
    let own = row_updates(rows[i]);
    let later = lists::gather(rows.skip(i + 1), reads);
    let battery = battery_updates(energy, now);
    let fresh = if any_telemetry(rows) {
        seq![fresh_update("telemetry"@, now)]
    } else {
        Seq::empty()
    };
    let head = front + earlier;
    let tail = later + battery + fresh;
    lists::lemma_gather_split(rows, reads, i);
    lists::lemma_regrouped(front, earlier, own, later, battery, fresh);
    let before = metrics::all_applied(samples, head);
    metrics::lemma_applied_in_two(samples, head, own);
    metrics::lemma_applied_in_two(samples, head + own, tail);
    lemma_row_applied(before, rows[i], series);
    metrics::lemma_sample_stays(metrics::all_applied(before, own), tail, key);
    if forall|j: int|
        0 <= j < rows.len() && j != i ==> (#[trigger] rows[j]).labels != rows[i].labels {
        let p = |v: UpdateView| v.key != key;
        lemma_front_differs(rows, outcome, key);
        lemma_each_read(rows.take(i), key);
        lemma_each_read(rows.skip(i + 1), key);
        lists::lemma_each_concat(front, earlier, p);
        lemma_back_differs(outcome, now, key);
        lists::lemma_each_concat(later, battery, p);
        lists::lemma_each_concat(later + battery, fresh, p);
        metrics::lemma_unnamed(samples, head, key);
        metrics::lemma_unnamed(metrics::all_applied(before, own), tail, key);
    }
}

/// What battery energy changes is not what was read of an optimizer.
proof fn lemma_back_differs(
    outcome: Result<DashboardEnergyResponse, PortalError>,
    now: i64,
    key: Key,
)
    requires
        of_optimizer(key.0),
    ensures
        lists::each(
            battery_updates(
                match outcome {
                    Ok(energy) => Some(energy),
                    Err(_) => None,
                },
                now,
            ),
            |u: UpdateView| u.key != key,
        ),
{
    if let Ok(energy) = outcome {
        lemma_each_of_battery(energy, now, |u: UpdateView| u.key != key);
    }
}

/// What counts failures does not change what was read of an optimizer.
proof fn lemma_front_differs(
    rows: Seq<OptimizerRowView>,
    outcome: Result<DashboardEnergyResponse, PortalError>,
    key: Key,
)
    requires
        of_optimizer(key.0),
    ensures
        lists::each(
            match outcome {
                Ok(_) => missing_updates(rows),
                Err(_) => seq![errors_update("battery_energy"@, 1)] + missing_updates(rows),
            },
            |u: UpdateView| u.key != key,
        ),
{
    let p = |u: UpdateView| u.key != key;
    lemma_each_missing(rows, p);
    lists::lemma_each_concat(seq![errors_update("battery_energy"@, 1)], missing_updates(rows), p);
}

proof fn lemma_each_missing(rows: Seq<OptimizerRowView>, p: spec_fn(UpdateView) -> bool)
    requires
        p(errors_update("optimizer"@, 1)),
    ensures
        lists::each(missing_updates(rows), p),
{
    let missing = |row: OptimizerRowView|
        if row.missing {
            seq![errors_update("optimizer"@, 1)]
        } else {
            Seq::empty()
        };
    lists::lemma_each_gathered(rows, missing, p);
}

/// Rows with other labels do not change a sample.
proof fn lemma_each_read(rows: Seq<OptimizerRowView>, key: Key)
    requires
        forall|j: int| 0 <= j < rows.len() ==> (#[trigger] rows[j]).labels != key.1,
    ensures
        lists::each(
            lists::gather(rows, |row: OptimizerRowView| row_updates(row)),
            |u: UpdateView| u.key != key,
        ),
{
    let reads = |row: OptimizerRowView| row_updates(row);
    let p = |u: UpdateView| u.key != key;
    assert forall|j: int| 0 <= j < rows.len() implies lists::each(reads(#[trigger] rows[j]), p) by {
        lemma_each_of_row(rows[j], p);
    }
    lists::lemma_each_gathered(rows, reads, p);
}

/// What a list of at most one change makes of a sample.
proof fn lemma_few_applied(samples: Map<Key, Value>, updates: Seq<UpdateView>, key: Key)
    requires
        updates.len() <= 1,
    ensures
        metrics::sample_at(metrics::all_applied(samples, updates), key) == if updates.len() == 1
            && updates[0].key == key {
            Some(metrics::changed(metrics::sample_at(samples, key), updates[0].change))
        } else {
            metrics::sample_at(samples, key)
        },
{
    reveal_with_fuel(metrics::all_applied, 2);
    if updates.len() == 1 {
        assert(updates.drop_last() =~= Seq::<UpdateView>::empty());
    }
}

/// What the changes of a row make of the sample of a series.
proof fn lemma_row_applied(samples: Map<Key, Value>, row: OptimizerRowView, series: Series)
    requires
        row_has(row, series),
    ensures
        ({
            let key = (series, row.labels);
            metrics::sample_at(metrics::all_applied(samples, row_updates(row)), key) == Some(
                metrics::changed(metrics::sample_at(samples, key), row_change(row, series)),
            )
        }),
{
    let labels = row.labels;
    let reading = row.reading;
    let key = (series, labels);
    let a = assign_if(Series::OptimizerPower, labels, reading.power);
    let b = assign_if(Series::OptimizerModuleVoltage, labels, reading.module_voltage);
    let c = assign_if(Series::OptimizerDcVoltage, labels, reading.dc_voltage);
    let d = assign_if(Series::OptimizerCurrent, labels, reading.current);
    let e = raise_if(Series::OptimizerEnergyToday, labels, reading.energy_today);
    let f = assign_integer_if(Series::OptimizerLastMeasurement, labels, reading.last_measurement);
    metrics::lemma_applied_in_two(samples, a, b);
    metrics::lemma_applied_in_two(samples, a + b, c);
    metrics::lemma_applied_in_two(samples, a + b + c, d);
    metrics::lemma_applied_in_two(samples, a + b + c + d, e);
    metrics::lemma_applied_in_two(samples, a + b + c + d + e, f);
    lemma_few_applied(samples, a, key);
    lemma_few_applied(metrics::all_applied(samples, a), b, key);
    lemma_few_applied(metrics::all_applied(samples, a + b), c, key);
    lemma_few_applied(metrics::all_applied(samples, a + b + c), d, key);
    lemma_few_applied(metrics::all_applied(samples, a + b + c + d), e, key);
    lemma_few_applied(metrics::all_applied(samples, a + b + c + d + e), f, key);
}

/// True of the series that tell how refreshes from the portal go.
pub open spec fn operational(series: Series) -> bool {
    series is PortalLastRefresh || series is PortalRefreshDuration || series is PortalRefreshErrors
        || series is PortalLogin
}

/// No half of a refresh is ever seen: before its last step a refresh changes
/// nothing but the series that tell how refreshes go.
pub proof fn lemma_published_together(
    samples: Map<Key, Value>,
    login: Result<bool, PortalError>,
    live: Result<OptimizersInfoResponse, PortalError>,
    outcomes: Seq<EnergyFetch>,
    now: i64,
    elapsed: Reading,
    key: Key,
)
    requires
        !operational(key.0),
    ensures
        metrics::sample_at(metrics::all_applied(samples, login_changes(login)), key)
            == metrics::sample_at(samples, key),
        metrics::sample_at(metrics::all_applied(samples, live_changes(live)), key)
            == metrics::sample_at(samples, key),
        metrics::sample_at(
            metrics::all_applied(samples, energy_updates(outcomes, now, elapsed)),
            key,
        ) == metrics::sample_at(samples, key),
{
    metrics::lemma_untouched(samples, login_changes(login), key);
    metrics::lemma_untouched(samples, live_changes(live), key);
    metrics::lemma_untouched(samples, energy_updates(outcomes, now, elapsed), key);
}

/// Energy counts as fresh exactly where at least one optimizer reported it.
pub proof fn lemma_energy_freshness(
    samples: Map<Key, Value>,
    outcomes: Seq<EnergyFetch>,
    now: i64,
    elapsed: Reading,
)
    ensures
        metrics::sample_at(
            metrics::all_applied(samples, energy_updates(outcomes, now, elapsed)),
            fresh_update("energy"@, now).key,
        ) == if any_energy(fetched_energy(outcomes)) {
            Some(Value::Integer(now))
        } else {
            metrics::sample_at(samples, fresh_update("energy"@, now).key)
        },
{
    let updates = energy_updates(outcomes, now, elapsed);
    let key = fresh_update("energy"@, now).key;
    if any_energy(fetched_energy(outcomes)) {
        reveal_with_fuel(metrics::all_applied, 2);
        let head = updates.drop_last();
        assert(updates.last() == duration_update("energy"@, elapsed));
        assert(head.last() == fresh_update("energy"@, now));
    } else {
        metrics::lemma_untouched(samples, updates, key);
    }
}

/// An optimizer that the layout says is not active is never missed.
pub proof fn lemma_inactive_never_missing(
    opt: FlatOptimizerView,
    fields: Seq<config::Field>,
    live: Option<OptimizersInfoResponse>,
    energy: Map<Seq<char>, Option<Reading>>,
    stamp: Option<i64>,
)
    requires
        !opt.active(),
    ensures
        !row_of(opt, fields, live, energy, stamp).missing,
{
}

/// Two optimizers with different serial numbers have different labels.
proof fn lemma_labels_by_serial(
    a: FlatOptimizerView,
    b: FlatOptimizerView,
    fields: Seq<config::Field>,
)
    requires
        a.serial_number != b.serial_number,
    ensures
        labels_for(a, fields) != labels_for(b, fields),
{
    assert(labels_for(a, fields)[0].1 == a.serial_number);
    assert(labels_for(b, fields)[0].1 == b.serial_number);
}

/// What the last step makes of a gauge of an optimizer.
proof fn lemma_optimizer_gauge(
    samples: Map<Key, Value>,
    optimizers: Seq<FlatOptimizer>,
    fields: Seq<config::Field>,
    live: Option<OptimizersInfoResponse>,
    energy: Map<Seq<char>, Option<Reading>>,
    outcome: Result<DashboardEnergyResponse, PortalError>,
    now: i64,
    zone: jiff::tz::TimeZone,
    i: int,
    series: Series,
)
    requires
        0 <= i < optimizers.len(),
        of_optimizer(series),
        forall|j: int|
            0 <= j < optimizers.len() && j != i ==> (#[trigger] optimizers[j]).serial_number@
                != optimizers[i].serial_number@,
    ensures
        ({
            let rows = rows_of(optimizers, fields, live, energy, zone);
            let key = (series, labels_for(optimizers[i]@, fields));
            let after = metrics::sample_at(
                metrics::all_applied(samples, closing_updates(rows, outcome, now)),
                key,
            );
            after == if row_has(rows[i], series) {
                Some(
                    metrics::changed(
                        metrics::sample_at(samples, key),
                        row_change(rows[i], series),
                    ),
                )
            } else {
                metrics::sample_at(samples, key)
            }
        }),
{
    let rows = rows_of(optimizers, fields, live, energy, zone);
    let key = (series, labels_for(optimizers[i]@, fields));
    assert(rows[i].labels == key.1);
    assert forall|j: int| 0 <= j < rows.len() && j != i implies (#[trigger] rows[j]).labels
        != rows[i].labels by {
        assert(optimizers[j].serial_number@ != optimizers[i].serial_number@);
        lemma_labels_by_serial(optimizers[j]@, optimizers[i]@, fields);
        assert(rows[j].labels == labels_for(optimizers[j]@, fields));
    }
    if row_has(rows[i], series) {
        lemma_every_value_published(samples, rows, outcome, now, i, series);
    } else {
        lemma_absent_value_keeps_gauge(samples, rows, outcome, now, key);
    }
}

/// What live telemetry says of an optimizer is what is published of it: power,
/// voltage of the module, voltage at the output and current are those of its
/// entry, and the time of measurement is that of its text. What the entry does
/// not have, or has no entry, stays as it was.
pub proof fn lemma_telemetry_published(
    samples: Map<Key, Value>,
    optimizers: Seq<FlatOptimizer>,
    fields: Seq<config::Field>,
    live: Option<OptimizersInfoResponse>,
    energy: Map<Seq<char>, Option<Reading>>,
    outcome: Result<DashboardEnergyResponse, PortalError>,
    now: i64,
    zone: jiff::tz::TimeZone,
    i: int,
)
    requires
        0 <= i < optimizers.len(),
        forall|j: int|
            0 <= j < optimizers.len() && j != i ==> (#[trigger] optimizers[j]).serial_number@
                != optimizers[i].serial_number@,
    ensures
        ({
            let opt = optimizers[i];
            let serial = opt.serial_number@;
            let labels = seq![
                ("optimizer"@, serial),
                ("display_name"@, opt.display_name@),
                ("inverter"@, opt.inverter_serial@),
                ("field"@, config::assigned_field(fields, serial)),
            ];
            let after = metrics::all_applied(
                samples,
                closing_updates(rows_of(optimizers, fields, live, energy, zone), outcome, now),
            );
            let came = live is Some && live->0.serial_to_live_data@.contains_key(serial);
            let data = live->0.serial_to_live_data@[serial];
            let published = |series: Series, value: Option<Reading>|
                metrics::shows(
                    samples,
                    after,
                    (series, labels),
                    if came && value is Some {
                        Some(Value::Reading(value->0))
                    } else {
                        None
                    },
                );
            let measured = measurement::measurement_reading(zone, data.last_measurement@);
            &&& published(Series::OptimizerPower, data.power_w)
            &&& published(Series::OptimizerModuleVoltage, data.voltage_v)
            &&& published(Series::OptimizerDcVoltage, data.optimizer_voltage_v)
            &&& published(Series::OptimizerCurrent, data.current_a)
            &&& metrics::shows(
                samples,
                after,
                (Series::OptimizerLastMeasurement, labels),
                if came && measured is Some {
                    Some(Value::Integer(measured->0))
                } else {
                    None
                },
            )
        }),
{
    let opt = optimizers[i];
    let serial = opt.serial_number@;
    let labels = seq![
        ("optimizer"@, serial),
        ("display_name"@, opt.display_name@),
        ("inverter"@, opt.inverter_serial@),
        ("field"@, config::assigned_field(fields, serial)),
    ];
    assert(labels == labels_for(opt@, fields));
    let rows = rows_of(optimizers, fields, live, energy, zone);
    assert(rows[i] == row_of(opt@, fields, live, energy, stamp_of(opt@, live, zone)));
    lemma_optimizer_gauge(
        samples,
        optimizers,
        fields,
        live,
        energy,
        outcome,
        now,
        zone,
        i,
        Series::OptimizerPower,
    );
    lemma_optimizer_gauge(
        samples,
        optimizers,
        fields,
        live,
        energy,
        outcome,
        now,
        zone,
        i,
        Series::OptimizerModuleVoltage,
    );
    lemma_optimizer_gauge(
        samples,
        optimizers,
        fields,
        live,
        energy,
        outcome,
        now,
        zone,
        i,
        Series::OptimizerDcVoltage,
    );
    lemma_optimizer_gauge(
        samples,
        optimizers,
        fields,
        live,
        energy,
        outcome,
        now,
        zone,
        i,
        Series::OptimizerCurrent,
    );
    lemma_optimizer_gauge(
        samples,
        optimizers,
        fields,
        live,
        energy,
        outcome,
        now,
        zone,
        i,
        Series::OptimizerLastMeasurement,
    );
}

/// The energy that was fetched for an optimizer is published of it, as a
/// lifetime total, whether live telemetry has the optimizer or not.
pub proof fn lemma_energy_published(
    samples: Map<Key, Value>,
    optimizers: Seq<FlatOptimizer>,
    fields: Seq<config::Field>,
    live: Option<OptimizersInfoResponse>,
    energy: Map<Seq<char>, Option<Reading>>,
    outcome: Result<DashboardEnergyResponse, PortalError>,
    now: i64,
    zone: jiff::tz::TimeZone,
    i: int,
)
    requires
        0 <= i < optimizers.len(),
        forall|j: int|
            0 <= j < optimizers.len() && j != i ==> (#[trigger] optimizers[j]).serial_number@
                != optimizers[i].serial_number@,
    ensures
        ({
            let opt = optimizers[i];
            let serial = opt.serial_number@;
            let labels = seq![
                ("optimizer"@, serial),
                ("display_name"@, opt.display_name@),
                ("inverter"@, opt.inverter_serial@),
                ("field"@, config::assigned_field(fields, serial)),
            ];
            let after = metrics::all_applied(
                samples,
                closing_updates(rows_of(optimizers, fields, live, energy, zone), outcome, now),
            );
            metrics::shows_highest(
                samples,
                after,
                (Series::OptimizerEnergyToday, labels),
                if energy.contains_key(serial) {
                    energy[serial]
                } else {
                    None
                },
            )
        }),
{
    let opt = optimizers[i];
    let serial = opt.serial_number@;
    let labels = seq![
        ("optimizer"@, serial),
        ("display_name"@, opt.display_name@),
        ("inverter"@, opt.inverter_serial@),
        ("field"@, config::assigned_field(fields, serial)),
    ];
    assert(labels == labels_for(opt@, fields));
    let rows = rows_of(optimizers, fields, live, energy, zone);
    assert(rows[i] == row_of(opt@, fields, live, energy, stamp_of(opt@, live, zone)));
    lemma_optimizer_gauge(
        samples,
        optimizers,
        fields,
        live,
        energy,
        outcome,
        now,
        zone,
        i,
        Series::OptimizerEnergyToday,
    );
}

/// An energy that was fetched is known under its serial number, unless a later
/// fetch for the same one takes its place.
pub proof fn lemma_fetched_energy_known(outcomes: Seq<EnergyFetch>, i: int)
    requires
        0 <= i < outcomes.len(),
        outcomes[i] is Fetched,
        forall|j: int|
            i < j < outcomes.len() ==> ((#[trigger] outcomes[j]) is Fetched
                ==> outcomes[j]->serial@ != outcomes[i]->serial@),
    ensures
        fetched_energy(outcomes).contains_pair(
            outcomes[i]->serial@,
            outcomes[i]->watt_hours,
        ),
    decreases outcomes.len(),
{
    if i < outcomes.len() - 1 {
        let fewer = outcomes.drop_last();
        assert(fewer[i] == outcomes[i]);
        assert forall|j: int| i < j < fewer.len() implies ((#[trigger] fewer[j]) is Fetched
            ==> fewer[j]->serial@ != fewer[i]->serial@) by {
            assert(outcomes[j] == fewer[j]);
        }
        lemma_fetched_energy_known(fewer, i);
        assert(outcomes[outcomes.len() - 1] == outcomes.last());
    }
}

/// No energy is known but what was fetched.
pub proof fn lemma_only_fetched_energy_known(outcomes: Seq<EnergyFetch>, serial: Seq<char>)
    requires
        fetched_energy(outcomes).contains_key(serial),
    ensures
        exists|i: int|
            0 <= i < outcomes.len() && (#[trigger] outcomes[i]) is Fetched && outcomes[i]->serial@
                == serial && outcomes[i]->watt_hours == fetched_energy(outcomes)[serial],
    decreases outcomes.len(),
{
    if outcomes.len() > 0 {
        let fewer = outcomes.drop_last();
        let last = outcomes[outcomes.len() - 1];
        if last is Fetched && last->serial@ == serial {
        } else {
            lemma_only_fetched_energy_known(fewer, serial);
            let i = choose|i: int|
                0 <= i < fewer.len() && (#[trigger] fewer[i]) is Fetched && fewer[i]->serial@
                    == serial && fewer[i]->watt_hours == fetched_energy(fewer)[serial];
            assert(outcomes[i] == fewer[i]);
        }
    }
}

proof fn lemma_failures(outcomes: Seq<EnergyFetch>)
    ensures
        failed_fetches(outcomes) == lists::how_many(outcomes, |o: EnergyFetch| o is Failed),
    decreases outcomes.len(),
{
    if outcomes.len() > 0 {
        lemma_failures(outcomes.drop_last());
    }
}

/// Every fetch of energy that failed is counted, and the energies count as fresh
/// where one was reported for an optimizer, and no later answer for it was
/// without one.
pub proof fn lemma_energy_told(
    samples: Map<Key, Value>,
    outcomes: Seq<EnergyFetch>,
    now: i64,
    elapsed: Reading,
)
    requires
        outcomes.len() <= u64::MAX,
    ensures
        ({
            let labels = seq![("kind"@, "energy"@)];
            let after = metrics::all_applied(samples, energy_updates(outcomes, now, elapsed));
            let reported = exists|i: int|
                {
                    &&& 0 <= i < outcomes.len()
                    &&& (#[trigger] outcomes[i]) is Fetched
                    &&& outcomes[i]->watt_hours is Some
                    &&& forall|j: int|
                        i < j < outcomes.len() ==> ((#[trigger] outcomes[j]) is Fetched
                            ==> outcomes[j]->serial@ != outcomes[i]->serial@)
                };
            &&& metrics::shows_more(
                samples,
                after,
                (Series::PortalRefreshErrors, labels),
                lists::how_many(outcomes, |o: EnergyFetch| o is Failed),
            )
            &&& metrics::shows(
                samples,
                after,
                (Series::PortalLastRefresh, labels),
                if reported {
                    Some(Value::Integer(now))
                } else {
                    None
                },
            )
            &&& metrics::shows(
                samples,
                after,
                (Series::PortalRefreshDuration, labels),
                if reported {
                    Some(Value::Reading(elapsed))
                } else {
                    None
                },
            )
        }),
{
    let labels = seq![("kind"@, "energy"@)];
    assert(labels == metrics::kind_label("energy"@));
    let updates = energy_updates(outcomes, now, elapsed);
    lemma_failures(outcomes);
    lemma_failed_fetches(outcomes);
    let energy = fetched_energy(outcomes);
    let reported = exists|i: int|
        {
            &&& 0 <= i < outcomes.len()
            &&& (#[trigger] outcomes[i]) is Fetched
            &&& outcomes[i]->watt_hours is Some
            &&& forall|j: int|
                i < j < outcomes.len() ==> ((#[trigger] outcomes[j]) is Fetched
                    ==> outcomes[j]->serial@ != outcomes[i]->serial@)
        };
    if reported {
        let i = choose|i: int|
            {
                &&& 0 <= i < outcomes.len()
                &&& (#[trigger] outcomes[i]) is Fetched
                &&& outcomes[i]->watt_hours is Some
                &&& forall|j: int|
                    i < j < outcomes.len() ==> ((#[trigger] outcomes[j]) is Fetched
                        ==> outcomes[j]->serial@ != outcomes[i]->serial@)
            };
        lemma_fetched_energy_known(outcomes, i);
        assert(energy.contains_key(outcomes[i]->serial@));
        assert(any_energy(energy));
    }
    if any_energy(energy) {
        let serial = choose|serial: Seq<char>| #[trigger]
            energy.contains_key(serial) && energy[serial] is Some;
        let i = lemma_last_fetch(outcomes, serial);
        assert(outcomes[i] is Fetched);
    }
    assert(reported == any_energy(energy));
    let failed = if failed_fetches(outcomes) > 0 {
        1int
    } else {
        0int
    };
    if failed == 1 {
        metrics::lemma_only_change(samples, updates, 0);
    } else {
        metrics::lemma_nothing_else_changes(samples, updates, (Series::PortalRefreshErrors, labels));
    }
    if reported {
        metrics::lemma_only_change(samples, updates, failed);
        metrics::lemma_only_change(samples, updates, failed + 1);
    } else {
        metrics::lemma_nothing_else_changes(samples, updates, (Series::PortalLastRefresh, labels));
        metrics::lemma_nothing_else_changes(
            samples,
            updates,
            (Series::PortalRefreshDuration, labels),
        );
    }
}

proof fn lemma_last_fetch(outcomes: Seq<EnergyFetch>, serial: Seq<char>) -> (i: int)
    requires
        fetched_energy(outcomes).contains_key(serial),
    ensures
        0 <= i < outcomes.len(),
        outcomes[i] is Fetched,
        outcomes[i]->serial@ == serial,
        outcomes[i]->watt_hours == fetched_energy(outcomes)[serial],
        forall|j: int|
            i < j < outcomes.len() ==> ((#[trigger] outcomes[j]) is Fetched
                ==> outcomes[j]->serial@ != serial),
    decreases outcomes.len(),
{
    let fewer = outcomes.drop_last();
    let last = outcomes[outcomes.len() - 1];
    if last is Fetched && last->serial@ == serial {
        outcomes.len() - 1
    } else {
        let i = lemma_last_fetch(fewer, serial);
        assert(fewer[i] == outcomes[i]);
        assert forall|j: int| i < j < outcomes.len() implies ((#[trigger] outcomes[j]) is Fetched
            ==> outcomes[j]->serial@ != serial) by {
            if j < fewer.len() {
                assert(fewer[j] == outcomes[j]);
            }
        }
        i
    }
}

/// Battery energy is published as it was reported: what was charged from what
/// production gave to the battery, what was discharged from what consumption
/// took from it, both as lifetime totals. A fetch that failed is counted and
/// leaves them as they were.
pub proof fn lemma_battery_energy_published(
    samples: Map<Key, Value>,
    rows: Seq<OptimizerRowView>,
    outcome: Result<DashboardEnergyResponse, PortalError>,
    now: i64,
)
    ensures
        ({
            let after = metrics::all_applied(samples, closing_updates(rows, outcome, now));
            let labels = seq![("kind"@, "battery_energy"@)];
            let summary = outcome->Ok_0.summary;
            &&& metrics::shows_highest(
                samples,
                after,
                (Series::BatteryEnergyCharged, LabelTexts::empty()),
                if outcome is Ok {
                    summary.production_distribution.production_to_battery
                } else {
                    None
                },
            )
            &&& metrics::shows_highest(
                samples,
                after,
                (Series::BatteryEnergyDischarged, LabelTexts::empty()),
                if outcome is Ok {
                    summary.consumption_distribution.consumption_from_battery
                } else {
                    None
                },
            )
            &&& metrics::shows(
                samples,
                after,
                (Series::PortalLastRefresh, labels),
                if outcome is Ok {
                    Some(Value::Integer(now))
                } else {
                    None
                },
            )
        }),
{
    let labels = seq![("kind"@, "battery_energy"@)];
    assert(labels == metrics::kind_label("battery_energy"@));
    lemma_battery_energy_freshness(samples, rows, outcome, now);
    let charged = (Series::BatteryEnergyCharged, LabelTexts::empty());
    let discharged = (Series::BatteryEnergyDischarged, LabelTexts::empty());
    lemma_battery_total(samples, rows, outcome, now, charged);
    lemma_battery_total(samples, rows, outcome, now, discharged);
}

/// What the last step makes of a lifetime total of the battery.
proof fn lemma_battery_total(
    samples: Map<Key, Value>,
    rows: Seq<OptimizerRowView>,
    outcome: Result<DashboardEnergyResponse, PortalError>,
    now: i64,
    key: Key,
)
    requires
        key.1.len() == 0,
        key.0 == Series::BatteryEnergyCharged || key.0 == Series::BatteryEnergyDischarged,
    ensures
        ({
            let after = metrics::all_applied(samples, closing_updates(rows, outcome, now));
            let value = match outcome {
                Ok(energy) => if key.0 == Series::BatteryEnergyCharged {
                    energy.charged()
                } else {
                    energy.discharged()
                },
                Err(_) => None,
            };
            metrics::sample_at(after, key) == if value is Some && !value->0.is_nan() {
                Some(metrics::changed(metrics::sample_at(samples, key), Change::Raise(value->0)))
            } else {
                metrics::sample_at(samples, key)
            }
        }),
{
    assert(key.1 =~= LabelTexts::empty());
    let p = |u: UpdateView| u.key != key;
    let reads = |row: OptimizerRowView| row_updates(row);
    let front = match outcome {
        Ok(_) => missing_updates(rows),
        Err(_) => seq![errors_update("battery_energy"@, 1)] + missing_updates(rows),
    };
    lemma_each_missing(rows, p);
    lists::lemma_each_concat(seq![errors_update("battery_energy"@, 1)], missing_updates(rows), p);
    let of_rows = lists::gather(rows, reads);
    assert forall|j: int| 0 <= j < rows.len() implies lists::each(reads(#[trigger] rows[j]), p) by {
        lemma_each_of_row(rows[j], p);
    }
    lists::lemma_each_gathered(rows, reads, p);
    let fresh = if any_telemetry(rows) {
        seq![fresh_update("telemetry"@, now)]
    } else {
        Seq::empty()
    };
    let energy = match outcome {
        Ok(energy) => Some(energy),
        Err(_) => None,
    };
    let battery = battery_updates(energy, now);
    let updates = closing_updates(rows, outcome, now);
    let head = front + of_rows;
    lists::lemma_each_concat(front, of_rows, p);
    assert(updates =~= head + battery + fresh);
    metrics::lemma_applied_in_two(samples, head, battery);
    metrics::lemma_applied_in_two(samples, head + battery, fresh);
    let before = metrics::all_applied(samples, head);
    metrics::lemma_unnamed(samples, head, key);
    metrics::lemma_unnamed(metrics::all_applied(before, battery), fresh, key);
    match energy {
        Some(energy) => {
            let a = raise_if(Series::BatteryEnergyCharged, LabelTexts::empty(), energy.charged());
            let b = raise_if(
                Series::BatteryEnergyDischarged,
                LabelTexts::empty(),
                energy.discharged(),
            );
            let c = seq![fresh_update("battery_energy"@, now)];
            metrics::lemma_applied_in_two(before, a, b);
            metrics::lemma_applied_in_two(before, a + b, c);
            lemma_few_applied(before, a, key);
            lemma_few_applied(metrics::all_applied(before, a), b, key);
            lemma_few_applied(metrics::all_applied(before, a + b), c, key);
        },
        None => {},
    }
}

/// Telemetry counts as fresh exactly where live telemetry has an entry with at
/// least one electrical value for a listed optimizer.
pub proof fn lemma_telemetry_told(
    samples: Map<Key, Value>,
    optimizers: Seq<FlatOptimizer>,
    fields: Seq<config::Field>,
    live: Option<OptimizersInfoResponse>,
    energy: Map<Seq<char>, Option<Reading>>,
    outcome: Result<DashboardEnergyResponse, PortalError>,
    now: i64,
    zone: jiff::tz::TimeZone,
)
    ensures
        ({
            let after = metrics::all_applied(
                samples,
                closing_updates(rows_of(optimizers, fields, live, energy, zone), outcome, now),
            );
            let measured = live is Some && exists|i: int|
                {
                    let data = live->0.serial_to_live_data@[(
                    #[trigger] optimizers[i]).serial_number@];
                    &&& 0 <= i < optimizers.len()
                    &&& live->0.serial_to_live_data@.contains_key(optimizers[i].serial_number@)
                    &&& data.power_w is Some || data.voltage_v is Some || data.optimizer_voltage_v
                        is Some || data.current_a is Some
                };
            metrics::shows(
                samples,
                after,
                (Series::PortalLastRefresh, seq![("kind"@, "telemetry"@)]),
                if measured {
                    Some(Value::Integer(now))
                } else {
                    None
                },
            )
        }),
{
    let rows = rows_of(optimizers, fields, live, energy, zone);
    lemma_telemetry_freshness(samples, rows, outcome, now);
    assert(metrics::kind_label("telemetry"@) =~= seq![("kind"@, "telemetry"@)]);
    let measured = live is Some && exists|i: int|
        {
            let data = live->0.serial_to_live_data@[(#[trigger] optimizers[i]).serial_number@];
            &&& 0 <= i < optimizers.len()
            &&& live->0.serial_to_live_data@.contains_key(optimizers[i].serial_number@)
            &&& data.power_w is Some || data.voltage_v is Some || data.optimizer_voltage_v is Some
                || data.current_a is Some
        };
    if measured {
        let i = choose|i: int|
            {
                let data = live->0.serial_to_live_data@[(#[trigger] optimizers[i]).serial_number@];
                &&& 0 <= i < optimizers.len()
                &&& live->0.serial_to_live_data@.contains_key(optimizers[i].serial_number@)
                &&& data.power_w is Some || data.voltage_v is Some || data.optimizer_voltage_v
                    is Some || data.current_a is Some
            };
        assert(rows[i].reading.electrical());
    }
    if any_telemetry(rows) {
        let i = choose|i: int| 0 <= i < rows.len() && (#[trigger] rows[i]).reading.electrical();
        let serial = optimizers[i].serial_number@;
    }
}

/// Every active optimizer that live telemetry does not have is counted as a
/// failure, once each refresh; without live telemetry, and for those that are
/// gone, none is.
pub proof fn lemma_missing_told(
    samples: Map<Key, Value>,
    optimizers: Seq<FlatOptimizer>,
    fields: Seq<config::Field>,
    live: Option<OptimizersInfoResponse>,
    energy: Map<Seq<char>, Option<Reading>>,
    outcome: Result<DashboardEnergyResponse, PortalError>,
    now: i64,
    zone: jiff::tz::TimeZone,
)
    ensures
        ({
            let after = metrics::all_applied(
                samples,
                closing_updates(rows_of(optimizers, fields, live, energy, zone), outcome, now),
            );
            metrics::shows_more(
                samples,
                after,
                (Series::PortalRefreshErrors, seq![("kind"@, "optimizer"@)]),
                lists::how_many(
                    optimizers,
                    |opt: FlatOptimizer|
                        live is Some && !live->0.serial_to_live_data@.contains_key(
                            opt.serial_number@,
                        ) && !text::equal_ignoring_case(text::trim(opt.status@), "REPLACED"@)
                            && !text::equal_ignoring_case(text::trim(opt.status@), "INACTIVE"@),
                ),
            )
        }),
{
    let rows = rows_of(optimizers, fields, live, energy, zone);
    let labels = seq![("kind"@, "optimizer"@)];
    let key = (Series::PortalRefreshErrors, labels);
    assert(metrics::kind_label("optimizer"@) =~= labels);
    let missed = |opt: FlatOptimizer|
        live is Some && !live->0.serial_to_live_data@.contains_key(opt.serial_number@)
            && !text::equal_ignoring_case(text::trim(opt.status@), "REPLACED"@)
            && !text::equal_ignoring_case(text::trim(opt.status@), "INACTIVE"@);
    let named = |u: UpdateView| u.key == key;
    let p = |u: UpdateView| u.key == key ==> u.change == Change::Count(1);
    let updates = closing_updates(rows, outcome, now);
    assert(metrics::kind_label("battery_energy"@) != labels) by {
        reveal_strlit("optimizer");
        reveal_strlit("battery_energy");
        assert(metrics::kind_label("battery_energy"@)[0].1.len() == 14);
        assert(labels[0].1.len() == 9);
    }
    assert forall|i: int| 0 <= i < rows.len() implies lists::each(
        row_updates(#[trigger] rows[i]),
        p,
    ) by {
        lemma_each_of_row(rows[i], p);
    }
    if let Ok(energy) = outcome {
        lemma_each_of_battery(energy, now, p);
    }
    lemma_each_closing(rows, outcome, now, p);
    assert forall|i: int| 0 <= i < updates.len() && (#[trigger] updates[i]).key == key implies
        updates[i].change == Change::Count(1) by {
        assert(p(updates[i]));
    }
    metrics::lemma_counted_all(samples, updates, key);
    let missing = |row: OptimizerRowView|
        if row.missing {
            seq![errors_update("optimizer"@, 1)]
        } else {
            Seq::empty()
        };
    let failed = match outcome {
        Ok(_) => Seq::empty(),
        Err(_) => seq![errors_update("battery_energy"@, 1)],
    };
    let counted = missing_updates(rows);
    let rest = refresh_updates(
        rows,
        match outcome {
            Ok(energy) => Some(energy),
            Err(_) => None,
        },
        now,
    );
    assert(updates =~= failed + counted + rest);
    lists::lemma_how_many_in_two(failed, counted, named);
    lists::lemma_how_many_in_two(failed + counted, rest, named);
    lists::lemma_none(failed, named);
    lemma_rest_counts_nothing(rows, outcome, now, key);
    assert forall|i: int| 0 <= i < rows.len() implies lists::how_many(
        missing(#[trigger] rows[i]),
        named,
    ) == if rows[i].missing {
        1nat
    } else {
        0
    } by {
        reveal_with_fuel(lists::how_many, 2);
    }
    let gone = |row: OptimizerRowView| row.missing;
    lists::lemma_how_many_gathered(rows, missing, named, gone);
    lemma_as_many(optimizers, rows, missed, gone);
}

/// As many rows have a property as optimizers have one, where each row has it
/// with its optimizer.
proof fn lemma_as_many(
    optimizers: Seq<FlatOptimizer>,
    rows: Seq<OptimizerRowView>,
    p: spec_fn(FlatOptimizer) -> bool,
    q: spec_fn(OptimizerRowView) -> bool,
)
    requires
        optimizers.len() == rows.len(),
        forall|i: int| 0 <= i < rows.len() ==> q(#[trigger] rows[i]) == p(optimizers[i]),
    ensures
        lists::how_many(rows, q) == lists::how_many(optimizers, p),
    decreases rows.len(),
{
    if rows.len() > 0 {
        let (a, b) = (optimizers.drop_last(), rows.drop_last());
        assert forall|i: int| 0 <= i < b.len() implies q(#[trigger] b[i]) == p(a[i]) by {
            assert(b[i] == rows[i]);
        }
        lemma_as_many(a, b, p, q);
        assert(q(rows[rows.len() - 1]) == p(optimizers.last()));
    }
}

proof fn lemma_rest_counts_nothing(
    rows: Seq<OptimizerRowView>,
    outcome: Result<DashboardEnergyResponse, PortalError>,
    now: i64,
    key: Key,
)
    requires
        key.0 == Series::PortalRefreshErrors,
    ensures
        lists::how_many(
            refresh_updates(
                rows,
                match outcome {
                    Ok(energy) => Some(energy),
                    Err(_) => None,
                },
                now,
            ),
            |u: UpdateView| u.key == key,
        ) == 0,
{
    let p = |u: UpdateView| u.key != key;
    let named = |u: UpdateView| u.key == key;
    let reads = |row: OptimizerRowView| row_updates(row);
    let energy = match outcome {
        Ok(energy) => Some(energy),
        Err(_) => None,
    };
    let of_rows = lists::gather(rows, reads);
    assert forall|j: int| 0 <= j < rows.len() implies lists::each(reads(#[trigger] rows[j]), p) by {
        lemma_each_of_row(rows[j], p);
    }
    lists::lemma_each_gathered(rows, reads, p);
    let battery = battery_updates(energy, now);
    if let Ok(energy) = outcome {
        lemma_each_of_battery(energy, now, p);
    }
    let fresh = if any_telemetry(rows) {
        seq![fresh_update("telemetry"@, now)]
    } else {
        Seq::empty()
    };
    lists::lemma_each_concat(of_rows, battery, p);
    lists::lemma_each_concat(of_rows + battery, fresh, p);
    let all = refresh_updates(rows, energy, now);
    assert(all == of_rows + battery + fresh);
    assert forall|i: int| 0 <= i < all.len() implies !named(#[trigger] all[i]) by {
        assert(p(all[i]));
    }
    lists::lemma_none(all, named);
}

/// What else a refresh tells: a login is counted where one was made, a failed
/// fetch of live telemetry once for all optimizers, a failed fetch of battery
/// energy once, and a failed fetch of the layout once, each under its kind; and
/// how long a whole refresh took.
pub proof fn lemma_refresh_told(
    samples: Map<Key, Value>,
    login: Result<bool, PortalError>,
    live: Result<OptimizersInfoResponse, PortalError>,
    elapsed: Reading,
)
    ensures
        metrics::shows_more(
            samples,
            metrics::all_applied(samples, login_changes(login)),
            (Series::PortalLogin, LabelTexts::empty()),
            if login is Ok && login->Ok_0 {
                1
            } else {
                0
            },
        ),
        metrics::shows_more(
            samples,
            metrics::all_applied(samples, live_changes(live)),
            (Series::PortalRefreshErrors, seq![("kind"@, "optimizer"@)]),
            if live is Err {
                1
            } else {
                0
            },
        ),
        metrics::shows_more(
            samples,
            metrics::all_applied(samples, seq![errors_update("layout"@, 1)]),
            (Series::PortalRefreshErrors, seq![("kind"@, "layout"@)]),
            1,
        ),
        metrics::shows(
            samples,
            metrics::all_applied(samples, seq![duration_update("telemetry"@, elapsed)]),
            (Series::PortalRefreshDuration, seq![("kind"@, "telemetry"@)]),
            Some(Value::Reading(elapsed)),
        ),
{
    assert(metrics::kind_label("optimizer"@) =~= seq![("kind"@, "optimizer"@)]);
    assert(metrics::kind_label("layout"@) =~= seq![("kind"@, "layout"@)]);
    assert(metrics::kind_label("telemetry"@) =~= seq![("kind"@, "telemetry"@)]);
    let a = login_changes(login);
    if a.len() > 0 {
        metrics::lemma_only_change(samples, a, 0);
    }
    let b = live_changes(live);
    if b.len() > 0 {
        metrics::lemma_only_change(samples, b, 0);
    }
    metrics::lemma_only_change(samples, seq![errors_update("layout"@, 1)], 0);
    metrics::lemma_only_change(samples, seq![duration_update("telemetry"@, elapsed)], 0);
}

/// A failed fetch of battery energy is counted, once, under its kind; one that
/// came is not.
#[verifier::rlimit(40)]
pub proof fn lemma_battery_failure_told(
    samples: Map<Key, Value>,
    rows: Seq<OptimizerRowView>,
    outcome: Result<DashboardEnergyResponse, PortalError>,
    now: i64,
)
    ensures
        metrics::shows_more(
            samples,
            metrics::all_applied(samples, closing_updates(rows, outcome, now)),
            (Series::PortalRefreshErrors, seq![("kind"@, "battery_energy"@)]),
            if outcome is Err {
                1
            } else {
                0
            },
        ),
{
    let labels = seq![("kind"@, "battery_energy"@)];
    let key = (Series::PortalRefreshErrors, labels);
    assert(metrics::kind_label("battery_energy"@) =~= labels);
    assert(metrics::kind_label("optimizer"@) != labels) by {
        reveal_strlit("optimizer");
        reveal_strlit("battery_energy");
        assert(metrics::kind_label("optimizer"@)[0].1.len() == 9);
        assert(labels[0].1.len() == 14);
    }
    let named = |u: UpdateView| u.key == key;
    let p = |u: UpdateView| u.key != key;
    let q = |u: UpdateView| u.key == key ==> u.change == Change::Count(1);
    let updates = closing_updates(rows, outcome, now);
    let failed = match outcome {
        Ok(_) => Seq::empty(),
        Err(_) => seq![errors_update("battery_energy"@, 1)],
    };
    let counted = missing_updates(rows);
    let rest = refresh_updates(
        rows,
        match outcome {
            Ok(energy) => Some(energy),
            Err(_) => None,
        },
        now,
    );
    assert(updates =~= failed + counted + rest);
    lists::lemma_how_many_in_two(failed, counted, named);
    lists::lemma_how_many_in_two(failed + counted, rest, named);
    lemma_rest_counts_nothing(rows, outcome, now, key);
    lemma_each_missing(rows, p);
    assert forall|i: int| 0 <= i < counted.len() implies !named(#[trigger] counted[i]) by {
        assert(p(counted[i]));
    }
    lists::lemma_none(counted, named);
    reveal_with_fuel(lists::how_many, 2);
    assert forall|i: int| 0 <= i < rows.len() implies lists::each(
        row_updates(#[trigger] rows[i]),
        q,
    ) by {
        lemma_each_of_row(rows[i], q);
    }
    if let Ok(energy) = outcome {
        lemma_each_of_battery(energy, now, q);
    }
    lemma_each_closing(rows, outcome, now, q);
    assert forall|i: int| 0 <= i < updates.len() && (#[trigger] updates[i]).key == key implies
        updates[i].change == Change::Count(1) by {
        assert(q(updates[i]));
    }
    metrics::lemma_counted_all(samples, updates, key);
}

/// A refresh asks for everything once, in one order: the token, live telemetry,
/// the energy of the optimizers and that of the battery. Where there are no
/// optimizers it asks for the token and the battery alone.
pub proof fn lemma_stages_in_order()
    ensures
        next_stage(Stage::Login, true) == Stage::Live,
        next_stage(next_stage(Stage::Login, true), true) == Stage::Energy,
        next_stage(next_stage(next_stage(Stage::Login, true), true), true) == Stage::BatteryEnergy,
        next_stage(Stage::Login, false) == Stage::BatteryEnergy,
        forall|any: bool| next_stage(Stage::BatteryEnergy, any) == Stage::Finished,
        forall|any: bool| next_stage(Stage::Finished, any) == Stage::Finished,
{
}

/// What is put together of an optimizer has its own labels, the telemetry and
/// the energy that came for its serial number, each value in its own place, and
/// the time that was read for it. It is missing where telemetry came, but none
/// of it, though it is active.
pub proof fn lemma_row_put_together(
    optimizers: &Vec<FlatOptimizer>,
    config: &Config,
    live: &Option<OptimizersInfoResponse>,
    energy: &SerialMap<Option<Reading>>,
    stamps: &Vec<Option<i64>>,
    r: Vec<OptimizerRow>,
    i: int,
)
    requires
        stamps@.len() == optimizers@.len(),
        call_ensures(optimizer_rows, (optimizers, config, live, energy, stamps), r),
        0 <= i < optimizers@.len(),
    ensures
        r@.len() == optimizers@.len(),
        ({
            let opt = optimizers@[i];
            let serial = opt.serial_number@;
            let row = r@[i];
            &&& metrics::optimizer_labels(
                row.labels.optimizer@,
                row.labels.display_name@,
                row.labels.inverter@,
                row.labels.field@,
            ) == seq![
                ("optimizer"@, serial),
                ("display_name"@, opt.display_name@),
                ("inverter"@, opt.inverter_serial@),
                ("field"@, config::assigned_field(config.fields@, serial)),
            ]
            &&& row.reading.energy_today == if energy@.contains_key(serial) {
                energy@[serial]
            } else {
                None
            }
            &&& match *live {
                Some(came) => if came.serial_to_live_data@.contains_key(serial) {
                    let data = came.serial_to_live_data@[serial];
                    &&& row.reading.power == data.power_w
                    &&& row.reading.current == data.current_a
                    &&& row.reading.module_voltage == data.voltage_v
                    &&& row.reading.dc_voltage == data.optimizer_voltage_v
                    &&& row.reading.last_measurement == stamps@[i]
                    &&& !row.missing
                } else {
                    &&& row.reading.power is None
                    &&& row.reading.current is None
                    &&& row.reading.module_voltage is None
                    &&& row.reading.dc_voltage is None
                    &&& row.reading.last_measurement is None
                    &&& row.missing == opt@.active()
                },
                None => {
                    &&& row.reading.power is None
                    &&& row.reading.current is None
                    &&& row.reading.module_voltage is None
                    &&& row.reading.dc_voltage is None
                    &&& row.reading.last_measurement is None
                    &&& !row.missing
                },
            }
        }),
{
    let all = row_views(r@);
    assert(all.len() == r@.len());
    assert(all[i] == r@[i]@);
}

/// An optimizer is asked for by every serial number of the list, in its order.
pub proof fn lemma_serials_asked(optimizers: &Vec<FlatOptimizer>, r: Vec<String>, i: int)
    requires
        call_ensures(serials, (optimizers,), r),
        0 <= i < optimizers@.len(),
    ensures
        r@.len() == optimizers@.len(),
        r@[i]@ == optimizers@[i].serial_number@,
{
    let all = text::strings(r@);
    assert(all.len() == r@.len());
    assert(all[i] == r@[i]@);
}

/// The labels of an optimizer are its own and those of its inverter and its
/// field.
pub proof fn lemma_labels_made(opt: &FlatOptimizer, config: &Config, r: OptimizerLabels)
    requires
        call_ensures(make_labels, (opt, config), r),
    ensures
        r.optimizer@ == opt.serial_number@,
        r.display_name@ == opt.display_name@,
        r.inverter@ == opt.inverter_serial@,
        forall|i: int, j: int|
            config.fault() is None && 0 <= i < config.fields@.len() && 0 <= j
                < config.fields@[i].optimizer_serials@.len()
                && #[trigger] config.fields@[i].optimizer_serials@[j]@ == opt.serial_number@
                ==> r.field@ == config.fields@[i].name@,
{
    assert forall|i: int, j: int|
        config.fault() is None && 0 <= i < config.fields@.len() && 0 <= j
            < config.fields@[i].optimizer_serials@.len()
            && #[trigger] config.fields@[i].optimizer_serials@[j]@
            == opt.serial_number@ implies r.field@ == config.fields@[i].name@ by {
        config::lemma_every_serial_assigned(*config, i, j);
    }
}

/// Telemetry was read exactly where one of the four electrical values of one of
/// the optimizers is there.
pub proof fn lemma_telemetry_seen(rows: &Vec<OptimizerRow>, r: bool)
    requires
        call_ensures(telemetry_read, (rows,), r),
    ensures
        r <==> exists|i: int|
            0 <= i < rows@.len() && ((#[trigger] rows@[i]).reading.power is Some
                || rows@[i].reading.module_voltage is Some || rows@[i].reading.dc_voltage is Some
                || rows@[i].reading.current is Some),
{
    let all = row_views(rows@);
    assert forall|i: int| 0 <= i < rows@.len() implies (#[trigger] all[i]).reading
        == rows@[i].reading by {}
    if r {
        let i = choose|i: int| 0 <= i < all.len() && (#[trigger] all[i]).reading.electrical();
        assert(rows@[i].reading.electrical());
    }
    if exists|i: int|
        0 <= i < rows@.len() && ((#[trigger] rows@[i]).reading.power is Some
            || rows@[i].reading.module_voltage is Some || rows@[i].reading.dc_voltage is Some
            || rows@[i].reading.current is Some) {
        let i = choose|i: int|
            0 <= i < rows@.len() && ((#[trigger] rows@[i]).reading.power is Some
                || rows@[i].reading.module_voltage is Some || rows@[i].reading.dc_voltage is Some
                || rows@[i].reading.current is Some);
        assert(all[i].reading.electrical());
    }
}

/// From whichever stage a refresh goes on to the next one, and it takes in only
/// what that stage has asked for.
pub proof fn lemma_only_due_taken(fetched: Fetched, stage: Stage, any: bool)
    ensures
        next_stage(Stage::Live, any) == Stage::Energy,
        next_stage(Stage::Energy, any) == Stage::BatteryEnergy,
        fetched is Login ==> (answers(fetched, stage) <==> stage == Stage::Login),
        fetched is Live ==> (answers(fetched, stage) <==> stage == Stage::Live),
        fetched is Energy ==> (answers(fetched, stage) <==> stage == Stage::Energy),
        fetched is BatteryEnergy ==> (answers(fetched, stage) <==> stage == Stage::BatteryEnergy),
{
}

/// A layout that came is listed, and nothing is counted; one that did not leaves
/// the exporter without optimizers, and that is counted once.
pub proof fn lemma_layout_taken(
    samples: Map<Key, Value>,
    outcome: &Result<LayoutNodeV2, PortalError>,
    r: (Vec<FlatOptimizer>, Vec<Update>),
)
    requires
        call_ensures(layout_outcome, (outcome,), r),
    ensures
        *outcome is Ok ==> models::flat_views(r.0@) == models::site_entries(outcome->Ok_0),
        *outcome is Err ==> r.0@.len() == 0,
        metrics::shows_more(
            samples,
            metrics::all_applied(samples, metrics::update_views(r.1@)),
            (Series::PortalRefreshErrors, seq![("kind"@, "layout"@)]),
            if *outcome is Err {
                1
            } else {
                0
            },
        ),
{
    if *outcome is Err {
        assert(metrics::kind_label("layout"@) =~= seq![("kind"@, "layout"@)]);
        metrics::lemma_only_change(samples, seq![errors_update("layout"@, 1)], 0);
    }
}

/// Live telemetry and battery energy that came are handed on as they are, and
/// what did not come is nothing.
pub proof fn lemma_outcomes_handed_on(
    live: Result<OptimizersInfoResponse, PortalError>,
    energy: Result<DashboardEnergyResponse, PortalError>,
    a: (Option<OptimizersInfoResponse>, Vec<Update>),
    b: (Option<DashboardEnergyResponse>, Vec<Update>),
)
    requires
        call_ensures(live_outcome, (live,), a),
        call_ensures(battery_energy_outcome, (energy,), b),
    ensures
        live matches Ok(came) ==> a.0 == Some(came) && a.1@.len() == 0,
        live is Err ==> a.0 is None && a.1@.len() == 1,
        energy matches Ok(came) ==> b.0 == Some(came) && b.1@.len() == 0,
        energy is Err ==> b.0 is None && b.1@.len() == 1,
{
    assert(metrics::update_views(a.1@).len() == a.1@.len());
    assert(metrics::update_views(b.1@).len() == b.1@.len());
}

/// The last step of a refresh publishes nothing else: no sample under labels
/// that none of the optimizers has, none of another kind, and none of the
/// Monitoring API.
pub proof fn lemma_nothing_else_published(
    samples: Map<Key, Value>,
    rows: Seq<OptimizerRowView>,
    outcome: Result<DashboardEnergyResponse, PortalError>,
    now: i64,
    key: Key,
)
    requires
        match key.0 {
            Series::OptimizerPower
            | Series::OptimizerModuleVoltage
            | Series::OptimizerDcVoltage
            | Series::OptimizerCurrent
            | Series::OptimizerEnergyToday
            | Series::OptimizerLastMeasurement => forall|i: int|
                0 <= i < rows.len() ==> (#[trigger] rows[i]).labels != key.1,
            Series::PortalLastRefresh => key.1 != seq![("kind"@, "telemetry"@)] && key.1 != seq![
                ("kind"@, "battery_energy"@),
            ],
            Series::PortalRefreshErrors => key.1 != seq![("kind"@, "optimizer"@)] && key.1 != seq![
                ("kind"@, "battery_energy"@),
            ],
            Series::BatteryEnergyCharged | Series::BatteryEnergyDischarged => key.1.len() > 0,
            _ => true,
        },
    ensures
        metrics::shows(
            samples,
            metrics::all_applied(samples, closing_updates(rows, outcome, now)),
            key,
            None,
        ),
{
    let p = |u: UpdateView| u.key != key;
    assert(metrics::kind_label("telemetry"@) =~= seq![("kind"@, "telemetry"@)]);
    assert(metrics::kind_label("battery_energy"@) =~= seq![("kind"@, "battery_energy"@)]);
    assert(metrics::kind_label("optimizer"@) =~= seq![("kind"@, "optimizer"@)]);
    assert(LabelTexts::empty().len() == 0);
    assert forall|i: int| 0 <= i < rows.len() implies lists::each(
        row_updates(#[trigger] rows[i]),
        p,
    ) by {
        lemma_each_of_row(rows[i], p);
    }
    if let Ok(energy) = outcome {
        lemma_each_of_battery(energy, now, p);
    }
    lemma_each_closing(rows, outcome, now, p);
    let updates = closing_updates(rows, outcome, now);
    metrics::lemma_unnamed(samples, updates, key);
    assert(metrics::sample_at(metrics::all_applied(samples, updates), key) == metrics::sample_at(
        samples,
        key,
    ));
}

/// The steps before it publish what is counted, and how fresh the energies are,
/// and nothing else.
pub proof fn lemma_nothing_else_told(
    samples: Map<Key, Value>,
    login: Result<bool, PortalError>,
    live: Result<OptimizersInfoResponse, PortalError>,
    outcomes: Seq<EnergyFetch>,
    now: i64,
    elapsed: Reading,
    key: Key,
)
    ensures
        key != (Series::PortalLogin, LabelTexts::empty()) ==> metrics::shows(
            samples,
            metrics::all_applied(samples, login_changes(login)),
            key,
            None,
        ),
        key != (Series::PortalRefreshErrors, seq![("kind"@, "optimizer"@)]) ==> metrics::shows(
            samples,
            metrics::all_applied(samples, live_changes(live)),
            key,
            None,
        ),
        key.1 != seq![("kind"@, "energy"@)] || !(key.0 is PortalRefreshErrors
            || key.0 is PortalLastRefresh || key.0 is PortalRefreshDuration) ==> metrics::shows(
            samples,
            metrics::all_applied(samples, energy_updates(outcomes, now, elapsed)),
            key,
            None,
        ),
{
    assert(metrics::kind_label("optimizer"@) =~= seq![("kind"@, "optimizer"@)]);
    assert(metrics::kind_label("energy"@) =~= seq![("kind"@, "energy"@)]);
    let a = login_changes(login);
    let b = live_changes(live);
    let c = energy_updates(outcomes, now, elapsed);
    if key != (Series::PortalLogin, LabelTexts::empty()) {
        metrics::lemma_nothing_else_changes(samples, a, key);
    }
    if key != (Series::PortalRefreshErrors, seq![("kind"@, "optimizer"@)]) {
        metrics::lemma_nothing_else_changes(samples, b, key);
    }
    if key.1 != seq![("kind"@, "energy"@)] || !(key.0 is PortalRefreshErrors
        || key.0 is PortalLastRefresh || key.0 is PortalRefreshDuration) {
        metrics::lemma_nothing_else_changes(samples, c, key);
    }
}

/// The last step of a refresh publishes of every optimizer what live telemetry
/// has of it, under its labels, and tells what was read of it.
pub proof fn lemma_step_publishes(
    refresh: &mut Refresh,
    outcome: Result<DashboardEnergyResponse, PortalError>,
    now: i64,
    optimizers: &Vec<FlatOptimizer>,
    config: &Config,
    published: &mut metrics::AppMetrics,
    zone: &jiff::tz::TimeZone,
    r: StepReport,
    i: int,
)
    requires
        call_ensures(
            Refresh::step,
            (refresh, Fetched::BatteryEnergy { outcome, now }, optimizers, config, published, zone),
            r,
        ),
        old(refresh).stage == Stage::BatteryEnergy,
        0 <= i < optimizers@.len(),
        forall|j: int|
            0 <= j < optimizers@.len() && j != i ==> (#[trigger] optimizers@[j]).serial_number@
                != optimizers@[i].serial_number@,
    ensures
        final(refresh).stage == Stage::Finished,
        r.rows@.len() == optimizers@.len(),
        r.rows@[i].labels.optimizer@ == optimizers@[i].serial_number@,
        ({
            let opt = optimizers@[i];
            let serial = opt.serial_number@;
            let labels = seq![
                ("optimizer"@, serial),
                ("display_name"@, opt.display_name@),
                ("inverter"@, opt.inverter_serial@),
                ("field"@, config::assigned_field(config.fields@, serial)),
            ];
            let live = old(refresh).live;
            let came = live is Some && live->0.serial_to_live_data@.contains_key(serial);
            let data = live->0.serial_to_live_data@[serial];
            let shown = |series: Series, value: Option<Reading>|
                metrics::shows(
                    old(published)@,
                    final(published)@,
                    (series, labels),
                    if came && value is Some {
                        Some(Value::Reading(value->0))
                    } else {
                        None
                    },
                );
            &&& shown(Series::OptimizerPower, data.power_w)
            &&& shown(Series::OptimizerModuleVoltage, data.voltage_v)
            &&& shown(Series::OptimizerDcVoltage, data.optimizer_voltage_v)
            &&& shown(Series::OptimizerCurrent, data.current_a)
            &&& metrics::shows_highest(
                old(published)@,
                final(published)@,
                (Series::OptimizerEnergyToday, labels),
                if old(refresh).energy@.contains_key(serial) {
                    old(refresh).energy@[serial]
                } else {
                    None
                },
            )
        }),
{
    let (live, energy) = (old(refresh).live, old(refresh).energy@);
    lemma_telemetry_published(
        old(published)@,
        optimizers@,
        config.fields@,
        live,
        energy,
        outcome,
        now,
        *zone,
        i,
    );
    lemma_energy_published(
        old(published)@,
        optimizers@,
        config.fields@,
        live,
        energy,
        outcome,
        now,
        *zone,
        i,
    );
    let all = row_views(r.rows@);
    assert(all.len() == r.rows@.len());
    assert(all[i] == r.rows@[i]@);
    assert(all[i].labels[0].1 == optimizers@[i].serial_number@);
}

/// A fetch that is not due changes nothing and tells nothing.
pub proof fn lemma_not_due(
    refresh: &mut Refresh,
    fetched: Fetched,
    optimizers: &Vec<FlatOptimizer>,
    config: &Config,
    published: &mut metrics::AppMetrics,
    zone: &jiff::tz::TimeZone,
    r: StepReport,
)
    requires
        call_ensures(
            Refresh::step,
            (refresh, fetched, optimizers, config, published, zone),
            r,
        ),
        match old(refresh).stage {
            Stage::Login => !(fetched is Login),
            Stage::Live => !(fetched is Live),
            Stage::Energy => !(fetched is Energy),
            Stage::BatteryEnergy => !(fetched is BatteryEnergy),
            Stage::Finished => true,
        },
    ensures
        *final(refresh) == *old(refresh),
        final(published)@ == old(published)@,
        r.held@.len() == 0,
        r.rows@.len() == 0,
{
}

} // verus!
