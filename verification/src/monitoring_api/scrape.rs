//! A refresh from the Monitoring API: what was fetched, and what becomes of it.

use vstd::prelude::*;

use crate::lists;
use crate::metrics;
use crate::metrics::{
    append_updates, push_update, AppMetrics, BatteryLabels, Change, Growth, GrowthView, Held, Key, LabelTexts, MeterLabels,
    MonitoringEndpoint, NoLabels, Update, UpdateView, Value,
};
use crate::monitoring_api::client;
use crate::monitoring_api::client::{
    BatteryTotal, MonitoringApiClient, MonitoringApiClientView, MonitoringApiError,
};
use crate::monitoring_api::models;
use crate::monitoring_api::models::{
    Battery, Meter, MetersResponse, OverviewResponse, StorageDataResponse,
};
use crate::monitoring_api::state::{PersistentState, TotalView};
use crate::reading::Reading;
use crate::serial_map;
use crate::series::Series;

verus! {

/// Requests that a refresh makes.
pub const REQUESTS_PER_REFRESH: u64 = 3;

/// Requests a day above which the limit of the API is near.
pub const BUDGET: u64 = 250;

/// How many requests a day refreshes at an interval of some seconds make.
pub open spec fn daily_requests(refresh_seconds: u64) -> int {
    let seconds: int = if refresh_seconds == 0 {
        1
    } else {
        refresh_seconds as int
    };
    (REQUESTS_PER_REFRESH * 86_400) / seconds
}

/// Estimates how many requests a day refreshes at an interval make.
pub fn requests_per_day(refresh_seconds: u64) -> (r: u64)
    ensures
        r == daily_requests(refresh_seconds),
{
    let seconds: u64 = if refresh_seconds == 0 {
        1
    } else {
        refresh_seconds
    };
    REQUESTS_PER_REFRESH * 86_400 / seconds
}

/// Tests whether refreshes at an interval come near the limit of the API.
pub fn over_budget(refresh_seconds: u64) -> (r: bool)
    ensures
        r == (daily_requests(refresh_seconds) > BUDGET),
{
    requests_per_day(refresh_seconds) > BUDGET
}

/// A request to an endpoint is counted.
pub open spec fn request_update(endpoint: Seq<char>) -> UpdateView {
    metrics::update(
        Series::MonitoringApiRequests,
        metrics::endpoint_label(endpoint),
        Change::Count(1),
    )
}

/// What the outcome of a request changes: on success the endpoint is fresh as
/// of some Unix second, after some seconds; a failure is counted.
pub open spec fn outcome_updates(
    endpoint: Seq<char>,
    success: bool,
    now: i64,
    elapsed: Reading,
) -> Seq<UpdateView> {
    let labels = metrics::endpoint_label(endpoint);
    if success {
        seq![
            metrics::update(
                Series::MonitoringApiLastRefresh,
                labels,
                Change::Assign(Value::Integer(now)),
            ),
            metrics::update(
                Series::MonitoringApiRefreshDuration,
                labels,
                Change::Assign(Value::Reading(elapsed)),
            ),
        ]
    } else {
        seq![metrics::update(Series::MonitoringApiRefreshErrors, labels, Change::Count(1))]
    }
}

/// Records the outcome of a request.
fn record_outcome(endpoint: &str, success: bool, now: i64, elapsed: Reading) -> (r: Vec<Update>)
    ensures
        metrics::update_views(r@) == outcome_updates(endpoint@, success, now, elapsed),
{
    let labels = MonitoringEndpoint::of(endpoint);
    let mut updates: Vec<Update> = Vec::new();
    if success {
        push_update(
            &mut updates,
            Series::MonitoringApiLastRefresh,
            labels.pairs(),
            Change::Assign(Value::Integer(now)),
        );
        push_update(
            &mut updates,
            Series::MonitoringApiRefreshDuration,
            labels.pairs(),
            Change::Assign(Value::Reading(elapsed)),
        );
    } else {
        push_update(
            &mut updates,
            Series::MonitoringApiRefreshErrors,
            labels.pairs(),
            Change::Count(1),
        );
    }
    assert(metrics::update_views(updates@) =~= outcome_updates(endpoint@, success, now, elapsed));
    updates
}

/// What the overview changes: the lifetime total of the site, where it has one
/// that is a number.
pub open spec fn overview_updates(overview: Option<OverviewResponse>) -> Seq<UpdateView> {
    match overview {
        Some(response) => match response.lifetime_energy() {
            Some(wh) => if wh.is_nan() {
                Seq::empty()
            } else {
                seq![
                    metrics::update(
                        Series::SitePvLifetimeEnergy,
                        LabelTexts::empty(),
                        Change::Raise(wh),
                    ),
                ]
            },
            None => Seq::empty(),
        },
        None => Seq::empty(),
    }
}

/// What a meter changes: its lifetime total, where it has a reading that is a
/// number.
pub open spec fn meter_updates(meter: Meter) -> Seq<UpdateView> {
    match meter.latest_reading() {
        Some(v) => if v.is_nan() {
            Seq::empty()
        } else {
            seq![
                metrics::update(
                    Series::MeterLifetimeEnergy,
                    metrics::meter_labels(
                        meter.meter_serial_number@,
                        meter.connected_solaredge_device_sn@,
                        meter.meter_type@,
                    ),
                    Change::Raise(v),
                ),
            ]
        },
        None => Seq::empty(),
    }
}

/// What all meters change.
pub open spec fn meters_updates(meters: Option<MetersResponse>) -> Seq<UpdateView> {
    match meters {
        Some(response) => lists::gather(
            response.meter_energy_details.meters@,
            |meter: Meter| meter_updates(meter),
        ),
        None => Seq::empty(),
    }
}

/// The labels of a battery.
pub open spec fn labels_of(battery: Battery) -> LabelTexts {
    metrics::battery_labels(battery.serial_number@, battery.model_number@)
}

/// What a battery changes besides its counter.
pub open spec fn battery_updates(battery: Battery) -> Seq<UpdateView> {
    let full = match battery.full_pack_energy() {
        Some(v) => seq![
            metrics::update(
                Series::BatteryFullPackEnergy,
                labels_of(battery),
                Change::Assign(Value::Reading(v)),
            ),
        ],
        None => Seq::empty(),
    };
    let state = match battery.state() {
        Some(v) => seq![
            metrics::update(
                Series::BatteryState,
                labels_of(battery),
                Change::Assign(Value::Integer(v)),
            ),
        ],
        None => Seq::empty(),
    };
    full + state
}

/// What all batteries change besides their counters.
pub open spec fn batteries_updates(batteries: Seq<Battery>) -> Seq<UpdateView> {
    lists::gather(batteries, |battery: Battery| battery_updates(battery))
}

/// The energy that is to be added to the counter of a battery: what was
/// charged from the grid, unless that is below zero or no number.
pub open spec fn charge_of(battery: Battery) -> Option<Reading> {
    match battery.grid_charging() {
        Some(v) => if v.non_negative() {
            Some(v)
        } else {
            None
        },
        None => None,
    }
}

/// How the counter of a battery grows.
pub open spec fn battery_growth(battery: Battery) -> Seq<GrowthView> {
    match charge_of(battery) {
        Some(v) => seq![GrowthView { labels: labels_of(battery), amount: v }],
        None => Seq::empty(),
    }
}

/// How the counters of batteries grow.
pub open spec fn batteries_growth(batteries: Seq<Battery>) -> Seq<GrowthView> {
    lists::gather(batteries, |battery: Battery| battery_growth(battery))
}

/// The remembered counters after storage data came.
pub open spec fn totals_after<F: Fn(Reading, Reading) -> Reading>(
    plus: F,
    totals: Map<Seq<char>, TotalView>,
    batteries: Seq<Battery>,
) -> Map<Seq<char>, TotalView>
    decreases batteries.len(),
{
    if batteries.len() == 0 {
        totals
    } else {
        let before = totals_after(plus, totals, batteries.drop_last());
        let battery = batteries.last();
        let serial = battery.serial_number@;
        match charge_of(battery) {
            Some(v) => before.insert(
                serial,
                client::recorded(
                    plus,
                    client::total_at(before, serial),
                    battery.model_number@,
                    v,
                ),
            ),
            None => before,
        }
    }
}

/// What a refresh changes at its end besides counters.
pub open spec fn closing_updates(
    overview: Option<OverviewResponse>,
    meters: Option<MetersResponse>,
    storage: Result<StorageDataResponse, MonitoringApiError>,
    now: i64,
    elapsed: Reading,
) -> Seq<UpdateView> {
    outcome_updates("storage"@, storage is Ok, now, elapsed) + overview_updates(overview)
        + meters_updates(meters) + match storage {
        Ok(response) => batteries_updates(response.storage_data.batteries@),
        Err(_) => Seq::empty(),
    }
}

/// The samples after the last step of a refresh.
pub open spec fn published_after<F: Fn(Reading, Reading) -> Reading>(
    plus: F,
    samples: Map<Key, Value>,
    overview: Option<OverviewResponse>,
    meters: Option<MetersResponse>,
    storage: Result<StorageDataResponse, MonitoringApiError>,
    now: i64,
    elapsed: Reading,
) -> Map<Key, Value> {
    let set = metrics::all_applied(
        samples,
        closing_updates(overview, meters, storage, now, elapsed),
    );
    match storage {
        Ok(response) => metrics::all_grown(
            plus,
            set,
            Series::BatteryAcGridCharging,
            batteries_growth(response.storage_data.batteries@),
        ),
        Err(_) => set,
    }
}

fn plan_overview(overview: &Option<OverviewResponse>) -> (r: Vec<Update>)
    ensures
        metrics::update_views(r@) == overview_updates(*overview),
{
    let mut updates: Vec<Update> = Vec::new();
    match overview {
        Some(response) => match response.overview.life_time_data.energy {
            Some(wh) => {
                if wh.is_number() {
                    let none = NoLabels {  };
                    push_update(
                        &mut updates,
                        Series::SitePvLifetimeEnergy,
                        none.pairs(),
                        Change::Raise(wh),
                    );
                }
            },
            None => {},
        },
        None => {},
    }
    assert(metrics::update_views(updates@) =~= overview_updates(*overview));
    updates
}

fn plan_meters(meters: &Option<MetersResponse>) -> (r: Vec<Update>)
    ensures
        metrics::update_views(r@) == meters_updates(*meters),
{
    let mut updates: Vec<Update> = Vec::new();
    let response = match meters {
        Some(response) => response,
        None => {
            assert(metrics::update_views(updates@) =~= Seq::<UpdateView>::empty());
            return updates;
        },
    };
    let list = &response.meter_energy_details.meters;
    let ghost f = |meter: Meter| meter_updates(meter);
    let mut i: usize = 0;
    assert(metrics::update_views(updates@) =~= lists::gather(list@.take(0), f));
    while i < list.len()
        invariant
            i <= list.len(),
            f == (|meter: Meter| meter_updates(meter)),
            metrics::update_views(updates@) == lists::gather(list@.take(i as int), f),
        decreases list.len() - i,
    {
        let meter = &list[i];
        let ghost before = metrics::update_views(updates@);
        match meter.latest_value() {
            Some(v) => {
                if v.is_number() {
                    let labels = MeterLabels {
                        meter: meter.meter_serial_number.clone(),
                        inverter: meter.connected_solaredge_device_sn.clone(),
                        meter_type: meter.meter_type.clone(),
                    };
                    push_update(
                        &mut updates,
                        Series::MeterLifetimeEnergy,
                        labels.pairs(),
                        Change::Raise(v),
                    );
                }
            },
            None => {},
        }
        proof {
            lists::lemma_gather_step(list@, f, i as int);
            assert(metrics::update_views(updates@) =~= before + f(list@[i as int]));
        }
        i += 1;
    }
    assert(list@.take(i as int) =~= list@);
    updates
}

fn battery_label_pairs(battery: &Battery) -> (r: Vec<(String, String)>)
    ensures
        metrics::label_texts(r@) == labels_of(*battery),
{
    let labels = BatteryLabels {
        battery: battery.serial_number.clone(),
        model: battery.model_number.clone(),
    };
    labels.pairs()
}

fn plan_batteries(batteries: &Vec<Battery>) -> (r: Vec<Update>)
    ensures
        metrics::update_views(r@) == batteries_updates(batteries@),
{
    let mut updates: Vec<Update> = Vec::new();
    let ghost f = |battery: Battery| battery_updates(battery);
    let mut i: usize = 0;
    assert(metrics::update_views(updates@) =~= lists::gather(batteries@.take(0), f));
    while i < batteries.len()
        invariant
            i <= batteries.len(),
            f == (|battery: Battery| battery_updates(battery)),
            metrics::update_views(updates@) == lists::gather(batteries@.take(i as int), f),
        decreases batteries.len() - i,
    {
        let battery = &batteries[i];
        let ghost before = metrics::update_views(updates@);
        match battery.latest_full_pack_energy() {
            Some(v) => push_update(
                &mut updates,
                Series::BatteryFullPackEnergy,
                battery_label_pairs(battery),
                Change::Assign(Value::Reading(v)),
            ),
            None => {},
        }
        match battery.latest_state() {
            Some(v) => push_update(
                &mut updates,
                Series::BatteryState,
                battery_label_pairs(battery),
                Change::Assign(Value::Integer(v)),
            ),
            None => {},
        }
        proof {
            lists::lemma_gather_step(batteries@, f, i as int);
            assert(metrics::update_views(updates@) =~= before + f(batteries@[i as int]));
        }
        i += 1;
    }
    assert(batteries@.take(i as int) =~= batteries@);
    updates
}

/// Adds what batteries were charged from the grid to the remembered counters,
/// and gives by how much the published ones grow.
fn record_batteries<F: Fn(Reading, Reading) -> Reading>(
    batteries: &Vec<Battery>,
    remembered: &mut MonitoringApiClient,
    plus: &F,
) -> (r: Vec<Growth>)
    requires
        metrics::is_addition(*plus),
    ensures
        metrics::growth_views(r@) == batteries_growth(batteries@),
        final(remembered)@ == (MonitoringApiClientView {
            totals: totals_after(*plus, old(remembered)@.totals, batteries@),
            ..old(remembered)@
        }),
{
    let ghost start = remembered@;
    let ghost f = |battery: Battery| battery_growth(battery);
    let mut growths: Vec<Growth> = Vec::new();
    let mut i: usize = 0;
    assert(metrics::growth_views(growths@) =~= lists::gather(batteries@.take(0), f));
    assert(batteries@.take(0) =~= Seq::<Battery>::empty());
    while i < batteries.len()
        invariant
            i <= batteries.len(),
            metrics::is_addition(*plus),
            f == (|battery: Battery| battery_growth(battery)),
            metrics::growth_views(growths@) == lists::gather(batteries@.take(i as int), f),
            remembered@ == (MonitoringApiClientView {
                totals: totals_after(*plus, start.totals, batteries@.take(i as int)),
                ..start
            }),
        decreases batteries.len() - i,
    {
        let battery = &batteries[i];
        let ghost before = metrics::growth_views(growths@);
        proof {
            assert(batteries@.take(i + 1).drop_last() =~= batteries@.take(i as int));
            assert(batteries@.take(i + 1).last() == *battery);
        }
        match battery.latest_grid_charging() {
            Some(v) => {
                if v.at_least_zero() {
                    remembered.record_grid_charging(
                        battery.serial_number.as_str(),
                        battery.model_number.as_str(),
                        v,
                        plus,
                    );
                    growths.push(Growth { labels: battery_label_pairs(battery), amount: v });
                }
            },
            None => {},
        }
        proof {
            lists::lemma_gather_step(batteries@, f, i as int);
            assert(metrics::growth_views(growths@) =~= before + f(batteries@[i as int]));
        }
        i += 1;
    }
    assert(batteries@.take(i as int) =~= batteries@);
    growths
}

/// What a refresh fetches next.
#[derive(Debug, Clone, Copy, PartialEq, Eq, Structural)]
pub enum Stage {
    /// The overview of the site.
    Overview,
    /// The meters of the site.
    Meters,
    /// Storage data.
    Storage,
    /// Nothing more.
    Finished,
}

impl Stage {
    /// The endpoint that a stage asks.
    pub open spec fn endpoint_text(self) -> Option<Seq<char>> {
        match self {
            Stage::Overview => Some("overview"@),
            Stage::Meters => Some("meters"@),
            Stage::Storage => Some("storage"@),
            Stage::Finished => None,
        }
    }

    /// What is fetched after a stage.
    pub open spec fn after(self) -> Stage {
        match self {
            Stage::Overview => Stage::Meters,
            Stage::Meters => Stage::Storage,
            Stage::Storage | Stage::Finished => Stage::Finished,
        }
    }
}

/// What came of a fetch.
#[derive(Debug)]
pub enum Fetched {
    /// The overview of the site.
    Overview(Result<OverviewResponse, MonitoringApiError>),
    /// The meters of the site.
    Meters(Result<MetersResponse, MonitoringApiError>),
    /// Storage data.
    Storage(Result<StorageDataResponse, MonitoringApiError>),
}

/// What a step of a refresh has to tell.
#[derive(Debug)]
pub struct StepReport {
    /// The lifetime values that were held back.
    pub held: Vec<Held>,
    /// What is to be saved, and where.
    pub save: Option<(String, PersistentState)>,
}

/// A refresh that goes on.
#[derive(Debug)]
pub struct Refresh {
    /// What is fetched next.
    pub stage: Stage,
    /// The overview of the site, where it came.
    pub overview: Option<OverviewResponse>,
    /// The meters of the site, where they came.
    pub meters: Option<MetersResponse>,
}

/// True where what came is what a stage fetches.
pub open spec fn answers(fetched: Fetched, stage: Stage) -> bool {
    match fetched {
        Fetched::Overview(_) => stage is Overview,
        Fetched::Meters(_) => stage is Meters,
        Fetched::Storage(_) => stage is Storage,
    }
}

/// An outcome without its error.
pub open spec fn success<T>(outcome: Result<T, MonitoringApiError>) -> Option<T> {
    match outcome {
        Ok(value) => Some(value),
        Err(_) => None,
    }
}

impl Refresh {
    /// A refresh that has fetched nothing yet.
    pub fn begin() -> (r: Refresh)
        ensures
            r.stage == Stage::Overview,
            r.overview is None,
            r.meters is None,
    {
        Refresh { stage: Stage::Overview, overview: None, meters: None }
    }

    /// Counts the request that is due, before it is made.
    pub fn count_request(&self, published: &mut AppMetrics)
        ensures
            final(published)@ == match self.stage.endpoint_text() {
                Some(endpoint) => metrics::applied(old(published)@, request_update(endpoint)),
                None => old(published)@,
            },
    {
        let endpoint = match self.stage {
            Stage::Overview => "overview",
            Stage::Meters => "meters",
            Stage::Storage => "storage",
            Stage::Finished => {
                return;
            },
        };
        let mut updates: Vec<Update> = Vec::new();
        push_update(
            &mut updates,
            Series::MonitoringApiRequests,
            MonitoringEndpoint::of(endpoint).pairs(),
            Change::Count(1),
        );
        let ghost all = metrics::update_views(updates@);
        proof {
            reveal_with_fuel(metrics::all_applied, 2);
            assert(all =~= seq![request_update(endpoint@)]);
            assert(all.drop_last() =~= Seq::<UpdateView>::empty());
        }
        let _held = published.commit(&updates);
    }

    /// Takes in what came of the request that is due, at some Unix second and
    /// after some seconds. The outcome is recorded at once; all else is
    /// published together at the end. With storage data the counters grow, the
    /// published and the remembered ones alike, and are to be saved. Anything
    /// that was not due is passed over.
    pub fn step<F: Fn(Reading, Reading) -> Reading>(
        &mut self,
        fetched: Fetched,
        now: i64,
        elapsed: Reading,
        remembered: &mut MonitoringApiClient,
        published: &mut AppMetrics,
        plus: &F,
    ) -> (r: StepReport)
        requires
            metrics::is_addition(*plus),
        ensures
            final(self).stage == if answers(fetched, old(self).stage) {
                old(self).stage.after()
            } else {
                old(self).stage
            },
            !answers(fetched, old(self).stage) ==> *final(self) == *old(self) && final(published)@
                == old(published)@ && final(remembered)@ == old(remembered)@ && r.held@.len() == 0
                && r.save is None,
            answers(fetched, old(self).stage) ==> match fetched {
                Fetched::Overview(outcome) => {
                    let updates = outcome_updates("overview"@, outcome is Ok, now, elapsed);
                    &&& final(self).overview == success(outcome)
                    &&& final(self).meters == old(self).meters
                    &&& final(published)@ == metrics::all_applied(old(published)@, updates)
                    &&& metrics::held_views(r.held@) == metrics::all_held(
                        old(published)@,
                        updates,
                    )
                    &&& final(remembered)@ == old(remembered)@
                    &&& r.save is None
                },
                Fetched::Meters(outcome) => {
                    let updates = outcome_updates("meters"@, outcome is Ok, now, elapsed);
                    &&& final(self).overview == old(self).overview
                    &&& final(self).meters == success(outcome)
                    &&& final(published)@ == metrics::all_applied(old(published)@, updates)
                    &&& metrics::held_views(r.held@) == metrics::all_held(
                        old(published)@,
                        updates,
                    )
                    &&& final(remembered)@ == old(remembered)@
                    &&& r.save is None
                },
                Fetched::Storage(outcome) => {
                    let updates = closing_updates(
                        old(self).overview,
                        old(self).meters,
                        outcome,
                        now,
                        elapsed,
                    );
                    let set = metrics::all_applied(old(published)@, updates);
                    &&& final(published)@ == published_after(
                        *plus,
                        old(published)@,
                        old(self).overview,
                        old(self).meters,
                        outcome,
                        now,
                        elapsed,
                    )
                    &&& final(self).overview == old(self).overview
                    &&& final(self).meters == old(self).meters
                    &&& metrics::held_views(r.held@) == metrics::all_held(
                        old(published)@,
                        updates,
                    )
                    &&& match outcome {
                        Ok(response) => {
                            let batteries = response.storage_data.batteries@;
                            &&& final(published)@ == metrics::all_grown(
                                *plus,
                                set,
                                Series::BatteryAcGridCharging,
                                batteries_growth(batteries),
                            )
                            &&& final(remembered)@ == (MonitoringApiClientView {
                                totals: totals_after(
                                    *plus,
                                    old(remembered)@.totals,
                                    batteries,
                                ),
                                ..old(remembered)@
                            })
                            &&& match final(remembered)@.state_file {
                                Some(path) => {
                                    &&& r.save matches Some((file, state))
                                    &&& file@ == path
                                    &&& client::persists(final(remembered)@, state)
                                },
                                None => r.save is None,
                            }
                        },
                        Err(_) => {
                            &&& final(published)@ == set
                            &&& final(remembered)@ == old(remembered)@
                            &&& r.save is None
                        },
                    }
                },
            },
    {
        match (self.stage, fetched) {
            (Stage::Overview, Fetched::Overview(outcome)) => {
                let updates = record_outcome("overview", outcome.is_ok(), now, elapsed);
                self.stage = Stage::Meters;
                self.overview = match outcome {
                    Ok(response) => Some(response),
                    Err(_) => None,
                };
                StepReport { held: published.commit(&updates), save: None }
            },
            (Stage::Meters, Fetched::Meters(outcome)) => {
                let updates = record_outcome("meters", outcome.is_ok(), now, elapsed);
                self.stage = Stage::Storage;
                self.meters = match outcome {
                    Ok(response) => Some(response),
                    Err(_) => None,
                };
                StepReport { held: published.commit(&updates), save: None }
            },
            (Stage::Storage, Fetched::Storage(outcome)) => {
                let mut updates = record_outcome("storage", outcome.is_ok(), now, elapsed);
                append_updates(&mut updates, plan_overview(&self.overview));
                append_updates(&mut updates, plan_meters(&self.meters));
                self.stage = Stage::Finished;
                match outcome {
                    Ok(response) => {
                        let batteries = &response.storage_data.batteries;
                        append_updates(&mut updates, plan_batteries(batteries));
                        let growths = record_batteries(batteries, remembered, plus);
                        let held = published.commit(&updates);
                        published.grow(Series::BatteryAcGridCharging, &growths, plus);
                        StepReport { held, save: remembered.persist_state() }
                    },
                    Err(_) => {
                        let ghost before = metrics::update_views(updates@);
                        assert(before =~= before + Seq::<UpdateView>::empty());
                        let held = published.commit(&updates);
                        StepReport { held, save: None }
                    },
                }
            },
            _ => StepReport { held: Vec::new(), save: None },
        }
    }
}

/// The sample of the counter of a battery.
pub open spec fn counter_key(serial: Seq<char>, model: Seq<char>) -> Key {
    (Series::BatteryAcGridCharging, metrics::battery_labels(serial, model))
}

/// True of the sample of the counter of one of several batteries.
pub open spec fn counts_one_of(totals: Map<Seq<char>, TotalView>, key: Key) -> bool {
    exists|serial: Seq<char>| #[trigger]
        totals.contains_key(serial) && key == counter_key(serial, totals[serial].model)
}

/// True of samples to which remembered counters were added: each counter to
/// the sample of its battery, and nothing else changed.
pub open spec fn seeded<F: Fn(Reading, Reading) -> Reading>(
    plus: F,
    before: Map<Key, Value>,
    totals: Map<Seq<char>, TotalView>,
    after: Map<Key, Value>,
) -> bool {
    &&& forall|serial: Seq<char>| #[trigger]
        totals.contains_key(serial) ==> {
            let key = counter_key(serial, totals[serial].model);
            metrics::sample_at(after, key) == Some(
                Value::Reading(
                    metrics::sum(
                        plus,
                        metrics::reading_or_zero(metrics::sample_at(before, key)),
                        totals[serial].watt_hours,
                    ),
                ),
            )
        }
    &&& forall|key: Key|
        !counts_one_of(totals, key) ==> #[trigger] metrics::sample_at(after, key)
            == metrics::sample_at(before, key)
}

/// Adds the remembered counters to the published ones, once, before anything
/// is served.
pub fn seed_counter_from_state<F: Fn(Reading, Reading) -> Reading>(
    remembered: &MonitoringApiClient,
    published: &mut AppMetrics,
    plus: &F,
)
    requires
        metrics::is_addition(*plus),
    ensures
        seeded(*plus, old(published)@, remembered@.totals, final(published)@),
{
    let totals = remembered.persisted_battery_totals();
    let entries = totals.entries();
    let ghost before = published@;
    let mut growths: Vec<Growth> = Vec::new();
    let mut i: usize = 0;
    while i < entries.len()
        invariant
            i <= entries.len(),
            growths.len() == i,
            forall|k: int|
                0 <= k < i ==> (#[trigger] growths@[k])@ == seed_growth(entries@[k]),
        decreases entries.len() - i,
    {
        let labels = BatteryLabels {
            battery: entries[i].0.clone(),
            model: entries[i].1.model.clone(),
        };
        let amount = entries[i].1.ac_grid_charging_watt_hours;
        growths.push(Growth { labels: labels.pairs(), amount });
        assert(growths@[i as int]@ == seed_growth(entries@[i as int]));
        i += 1;
    }
    published.grow(Series::BatteryAcGridCharging, &growths, plus);
    proof {
        let all = metrics::growth_views(growths@);
        assert(all =~= entries@.map_values(|entry: (String, BatteryTotal)| seed_growth(entry)));
        lemma_seeded(*plus, before, entries@);
    }
}

/// How a remembered counter is added.
pub open spec fn seed_growth(entry: (String, BatteryTotal)) -> GrowthView {
    GrowthView {
        labels: metrics::battery_labels(entry.0@, entry.1.model@),
        amount: entry.1.ac_grid_charging_watt_hours,
    }
}

proof fn lemma_battery_labels(a: Seq<char>, m: Seq<char>, b: Seq<char>, n: Seq<char>)
    ensures
        metrics::battery_labels(a, m) == metrics::battery_labels(b, n) <==> a == b && m == n,
{
    let x = metrics::battery_labels(a, m);
    let y = metrics::battery_labels(b, n);
    assert(x[0].1 == a && y[0].1 == b);
    assert(x[1].1 == m && y[1].1 == n);
}

proof fn lemma_seeded<F: Fn(Reading, Reading) -> Reading>(
    plus: F,
    before: Map<Key, Value>,
    entries: Seq<(String, BatteryTotal)>,
)
    requires
        serial_map::distinct_serials(entries),
    ensures
        seeded(
            plus,
            before,
            client::totals_view(serial_map::map_of(entries)),
            metrics::all_grown(
                plus,
                before,
                Series::BatteryAcGridCharging,
                entries.map_values(|entry: (String, BatteryTotal)| seed_growth(entry)),
            ),
        ),
{
    let f = |entry: (String, BatteryTotal)| seed_growth(entry);
    let growths = entries.map_values(f);
    let series = Series::BatteryAcGridCharging;
    let totals = client::totals_view(serial_map::map_of(entries));
    let after = metrics::all_grown(plus, before, series, growths);
    assert forall|i: int, j: int| 0 <= i < j < growths.len() implies (#[trigger] growths[i]).labels
        != (#[trigger] growths[j]).labels by {
        assert(entries[i].0@ != entries[j].0@);
        lemma_battery_labels(
            entries[i].0@,
            entries[i].1.model@,
            entries[j].0@,
            entries[j].1.model@,
        );
    }
    assert forall|serial: Seq<char>| #[trigger] totals.contains_key(serial) implies {
        let key = counter_key(serial, totals[serial].model);
        metrics::sample_at(after, key) == Some(
            Value::Reading(
                metrics::sum(
                    plus,
                    metrics::reading_or_zero(metrics::sample_at(before, key)),
                    totals[serial].watt_hours,
                ),
            ),
        )
    } by {
        let i = choose|i: int| 0 <= i < entries.len() && #[trigger] entries[i].0@ == serial;
        serial_map::lemma_entry(entries, i);
        metrics::lemma_grown_once(plus, before, series, growths, i);
        assert(growths[i] == seed_growth(entries[i]));
    }
    assert forall|key: Key| !counts_one_of(totals, key) implies #[trigger] metrics::sample_at(
        after,
        key,
    ) == metrics::sample_at(before, key) by {
        assert forall|i: int| 0 <= i < growths.len() implies (
            series,
            (#[trigger] growths[i]).labels,
        ) != key by {
            serial_map::lemma_entry(entries, i);
            assert(totals.contains_key(entries[i].0@));
            assert(growths[i] == seed_growth(entries[i]));
        }
        metrics::lemma_not_grown(plus, before, series, growths, key);
    }
}

/// True where the published counters are the remembered ones: every battery
/// that is remembered has its counter published under its model, and no other
/// counter is.
pub open spec fn in_step(samples: Map<Key, Value>, totals: Map<Seq<char>, TotalView>) -> bool {
    forall|serial: Seq<char>, model: Seq<char>| #[trigger]
        metrics::sample_at(samples, counter_key(serial, model)) == match client::total_at(
            totals,
            serial,
        ) {
            Some(total) => if total.model == model {
                Some(Value::Reading(total.watt_hours))
            } else {
                None
            },
            None => None,
        }
}

/// After the remembered counters were added to samples that had none, the
/// published counters are the remembered ones, given that adding to zero
/// changes none of them.
pub proof fn lemma_seed_in_step<F: Fn(Reading, Reading) -> Reading>(
    plus: F,
    before: Map<Key, Value>,
    totals: Map<Seq<char>, TotalView>,
    after: Map<Key, Value>,
)
    requires
        seeded(plus, before, totals, after),
        forall|serial: Seq<char>, model: Seq<char>| #[trigger]
            metrics::sample_at(before, counter_key(serial, model)) is None,
        forall|serial: Seq<char>| #[trigger]
            totals.contains_key(serial) ==> metrics::sum(
                plus,
                Reading::spec_zero(),
                totals[serial].watt_hours,
            ) == totals[serial].watt_hours,
    ensures
        in_step(after, totals),
{
    assert forall|serial: Seq<char>, model: Seq<char>| #[trigger]
        metrics::sample_at(after, counter_key(serial, model)) == match client::total_at(
            totals,
            serial,
        ) {
            Some(total) => if total.model == model {
                Some(Value::Reading(total.watt_hours))
            } else {
                None
            },
            None => None,
        } by {
        let key = counter_key(serial, model);
        assert(metrics::sample_at(before, key) is None);
        if counts_one_of(totals, key) {
            let other = choose|other: Seq<char>| #[trigger]
                totals.contains_key(other) && key == counter_key(other, totals[other].model);
            lemma_battery_labels(serial, model, other, totals[other].model);
        } else if totals.contains_key(serial) && totals[serial].model == model {
            assert(counts_one_of(totals, key));
        }
    }
}

/// True where the model of a battery does not change: it is the one that is
/// remembered, and the same wherever the battery is listed.
pub open spec fn models_agree(totals: Map<Seq<char>, TotalView>, batteries: Seq<Battery>) -> bool {
    &&& forall|i: int|
        0 <= i < batteries.len() ==> (client::total_at(
            totals,
            (#[trigger] batteries[i]).serial_number@,
        ) matches Some(total) ==> total.model == batteries[i].model_number@)
    &&& forall|i: int, j: int|
        0 <= i < batteries.len() && 0 <= j < batteries.len() && (
        #[trigger] batteries[i]).serial_number@ == (#[trigger] batteries[j]).serial_number@
            ==> batteries[i].model_number@ == batteries[j].model_number@
}

proof fn lemma_in_step_upto<F: Fn(Reading, Reading) -> Reading>(
    plus: F,
    samples: Map<Key, Value>,
    totals: Map<Seq<char>, TotalView>,
    batteries: Seq<Battery>,
    n: int,
)
    requires
        0 <= n <= batteries.len(),
        in_step(samples, totals),
        models_agree(totals, batteries),
    ensures
        in_step(
            metrics::all_grown(
                plus,
                samples,
                Series::BatteryAcGridCharging,
                batteries_growth(batteries.take(n)),
            ),
            totals_after(plus, totals, batteries.take(n)),
        ),
        models_agree(totals_after(plus, totals, batteries.take(n)), batteries),
    decreases n,
{
    let series = Series::BatteryAcGridCharging;
    let f = |battery: Battery| battery_growth(battery);
    if n == 0 {
        assert(batteries.take(0) =~= Seq::<Battery>::empty());
    } else {
        let m = n - 1;
        lemma_in_step_upto(plus, samples, totals, batteries, m);
        lists::lemma_gather_step(batteries, f, m);
        assert(batteries.take(n).drop_last() =~= batteries.take(m));
        assert(batteries.take(n).last() == batteries[m]);
        let battery = batteries[m];
        let serial = battery.serial_number@;
        let model = battery.model_number@;
        let grown = batteries_growth(batteries.take(m));
        let samples_m = metrics::all_grown(plus, samples, series, grown);
        let totals_m = totals_after(plus, totals, batteries.take(m));
        let totals_n = totals_after(plus, totals, batteries.take(n));
        match charge_of(battery) {
            None => {
                assert(batteries_growth(batteries.take(n)) =~= grown);
            },
            Some(v) => {
                let g = GrowthView { labels: labels_of(battery), amount: v };
                let more = batteries_growth(batteries.take(n));
                assert(more =~= grown.push(g));
                assert(more.drop_last() =~= grown);
                let samples_n = metrics::all_grown(plus, samples, series, more);
                assert(samples_n == metrics::grown(plus, samples_m, series, g));
                let key = counter_key(serial, model);
                assert(metrics::sample_at(samples_m, key) == match client::total_at(
                    totals_m,
                    serial,
                ) {
                    Some(total) => Some(Value::Reading(total.watt_hours)),
                    None => None,
                }) by {
                    assert(client::total_at(totals_m, batteries[m].serial_number@) matches Some(
                        total,
                    ) ==> total.model == model);
                }
                assert forall|s: Seq<char>, w: Seq<char>| #[trigger]
                    metrics::sample_at(samples_n, counter_key(s, w)) == match client::total_at(
                        totals_n,
                        s,
                    ) {
                        Some(total) => if total.model == w {
                            Some(Value::Reading(total.watt_hours))
                        } else {
                            None
                        },
                        None => None,
                    } by {
                    lemma_battery_labels(s, w, serial, model);
                    assert(metrics::sample_at(samples_m, counter_key(s, w)) == match client::total_at(
                        totals_m,
                        s,
                    ) {
                        Some(total) => if total.model == w {
                            Some(Value::Reading(total.watt_hours))
                        } else {
                            None
                        },
                        None => None,
                    });
                    assert(client::total_at(totals_m, batteries[m].serial_number@) matches Some(
                        total,
                    ) ==> total.model == model);
                }
                assert forall|i: int| 0 <= i < batteries.len() implies (client::total_at(
                    totals_n,
                    (#[trigger] batteries[i]).serial_number@,
                ) matches Some(total) ==> total.model == batteries[i].model_number@) by {
                    assert(client::total_at(totals_m, batteries[i].serial_number@) matches Some(
                        total,
                    ) ==> total.model == batteries[i].model_number@);
                    assert(batteries[m].serial_number@ == batteries[i].serial_number@
                        ==> batteries[m].model_number@ == batteries[i].model_number@);
                }
            },
        }
    }
}

/// The last step of a refresh keeps the published counters the same as the
/// remembered ones, which are saved, as long as no battery changes its model.
pub proof fn lemma_counters_in_step<F: Fn(Reading, Reading) -> Reading>(
    plus: F,
    samples: Map<Key, Value>,
    totals: Map<Seq<char>, TotalView>,
    overview: Option<OverviewResponse>,
    meters: Option<MetersResponse>,
    response: StorageDataResponse,
    now: i64,
    elapsed: Reading,
)
    requires
        in_step(samples, totals),
        models_agree(totals, response.storage_data.batteries@),
    ensures
        ({
            let batteries = response.storage_data.batteries@;
            let updates = closing_updates(overview, meters, Ok(response), now, elapsed);
            in_step(
                metrics::all_grown(
                    plus,
                    metrics::all_applied(samples, updates),
                    Series::BatteryAcGridCharging,
                    batteries_growth(batteries),
                ),
                totals_after(plus, totals, batteries),
            )
        }),
{
    let batteries = response.storage_data.batteries@;
    let updates = closing_updates(overview, meters, Ok(response), now, elapsed);
    let set = metrics::all_applied(samples, updates);
    let p = |u: UpdateView| u.key.0 != Series::BatteryAcGridCharging;
    lemma_each_closing(overview, meters, Ok(response), now, elapsed, p);
    assert forall|serial: Seq<char>, model: Seq<char>| #[trigger]
        metrics::sample_at(set, counter_key(serial, model)) == metrics::sample_at(
            samples,
            counter_key(serial, model),
        ) by {
        let key = counter_key(serial, model);
        assert forall|i: int| 0 <= i < updates.len() implies (#[trigger] updates[i]).key != key by {
            assert(p(updates[i]));
        }
        metrics::lemma_untouched(samples, updates, key);
    }
    assert forall|serial: Seq<char>, model: Seq<char>| #[trigger]
        metrics::sample_at(set, counter_key(serial, model)) == match client::total_at(
            totals,
            serial,
        ) {
            Some(total) => if total.model == model {
                Some(Value::Reading(total.watt_hours))
            } else {
                None
            },
            None => None,
        } by {
        assert(metrics::sample_at(samples, counter_key(serial, model)) == metrics::sample_at(
            set,
            counter_key(serial, model),
        ));
    }
    lemma_in_step_upto(plus, set, totals, batteries, batteries.len() as int);
    assert(batteries.take(batteries.len() as int) =~= batteries);
}

/// A property that every change of an outcome, of the overview, of a meter and
/// of a battery has is one of every change of the last step.
proof fn lemma_each_closing(
    overview: Option<OverviewResponse>,
    meters: Option<MetersResponse>,
    storage: Result<StorageDataResponse, MonitoringApiError>,
    now: i64,
    elapsed: Reading,
    p: spec_fn(UpdateView) -> bool,
)
    requires
        lists::each(outcome_updates("storage"@, storage is Ok, now, elapsed), p),
        lists::each(overview_updates(overview), p),
        meters matches Some(response) ==> forall|i: int|
            0 <= i < response.meter_energy_details.meters@.len() ==> lists::each(
                meter_updates(#[trigger] response.meter_energy_details.meters@[i]),
                p,
            ),
        storage matches Ok(response) ==> forall|i: int|
            0 <= i < response.storage_data.batteries@.len() ==> lists::each(
                battery_updates(#[trigger] response.storage_data.batteries@[i]),
                p,
            ),
    ensures
        lists::each(closing_updates(overview, meters, storage, now, elapsed), p),
{
    let a = outcome_updates("storage"@, storage is Ok, now, elapsed);
    let b = overview_updates(overview);
    let c = meters_updates(meters);
    let d = match storage {
        Ok(response) => batteries_updates(response.storage_data.batteries@),
        Err(_) => Seq::empty(),
    };
    if let Some(response) = meters {
        let list = response.meter_energy_details.meters@;
        let f = |meter: Meter| meter_updates(meter);
        assert forall|i: int| 0 <= i < list.len() implies lists::each(f(#[trigger] list[i]), p) by {
            assert(lists::each(meter_updates(response.meter_energy_details.meters@[i]), p));
        }
        lists::lemma_each_gathered(list, f, p);
    }
    if let Ok(response) = storage {
        let list = response.storage_data.batteries@;
        let f = |battery: Battery| battery_updates(battery);
        assert forall|i: int| 0 <= i < list.len() implies lists::each(f(#[trigger] list[i]), p) by {
            assert(lists::each(battery_updates(response.storage_data.batteries@[i]), p));
        }
        lists::lemma_each_gathered(list, f, p);
    }
    lists::lemma_each_concat(a, b, p);
    lists::lemma_each_concat(a + b, c, p);
    lists::lemma_each_concat(a + b + c, d, p);
}

/// A refresh never lowers a lifetime total, whatever the API reports. A total
/// stays a number once it is one, and one that is absent starts at a number.
pub proof fn lemma_refresh_keeps_lifetime(
    samples: Map<Key, Value>,
    overview: Option<OverviewResponse>,
    meters: Option<MetersResponse>,
    storage: Result<StorageDataResponse, MonitoringApiError>,
    now: i64,
    elapsed: Reading,
    key: Key,
)
    requires
        key.0.lifetime(),
        metrics::measured_or_absent(metrics::sample_at(samples, key)),
    ensures
        ({
            let updates = closing_updates(overview, meters, storage, now, elapsed);
            let after = metrics::sample_at(metrics::all_applied(samples, updates), key);
            metrics::kept_up(metrics::sample_at(samples, key), after)
        }),
{
    let updates = closing_updates(overview, meters, storage, now, elapsed);
    let p = |u: UpdateView|
        u.key.0.lifetime() ==> (u.change matches Change::Raise(v) && !v.is_nan());
    lemma_each_closing(overview, meters, storage, now, elapsed, p);
    assert forall|i: int| 0 <= i < updates.len() && (#[trigger] updates[i]).key == key implies
        updates[i].change is Raise by {
        assert(p(updates[i]));
    }
    metrics::lemma_lifetime_never_decreases(samples, updates, key);
}

/// Counters only ever grow by numbers that are not below zero.
pub proof fn lemma_growths_not_negative(batteries: Seq<Battery>)
    ensures
        lists::each(batteries_growth(batteries), |g: GrowthView| g.amount.non_negative()),
{
    let f = |battery: Battery| battery_growth(battery);
    let p = |g: GrowthView| g.amount.non_negative();
    lists::lemma_each_gathered(batteries, f, p);
}

/// An endpoint counts as fresh exactly where a request to it succeeded.
pub proof fn lemma_endpoint_freshness(
    samples: Map<Key, Value>,
    endpoint: Seq<char>,
    success: bool,
    now: i64,
    elapsed: Reading,
)
    ensures
        ({
            let key = (Series::MonitoringApiLastRefresh, metrics::endpoint_label(endpoint));
            let after = metrics::all_applied(
                samples,
                outcome_updates(endpoint, success, now, elapsed),
            );
            metrics::sample_at(after, key) == if success {
                Some(Value::Integer(now))
            } else {
                metrics::sample_at(samples, key)
            }
        }),
{
    reveal_with_fuel(metrics::all_applied, 3);
    let updates = outcome_updates(endpoint, success, now, elapsed);
    if success {
        assert(updates.drop_last() =~= seq![updates[0]]);
        assert(updates.drop_last().drop_last() =~= Seq::<UpdateView>::empty());
    } else {
        assert(updates.drop_last() =~= Seq::<UpdateView>::empty());
    }
}

/// Growing counters leave every other series as it is.
proof fn lemma_growth_apart<F: Fn(Reading, Reading) -> Reading>(
    plus: F,
    samples: Map<Key, Value>,
    overview: Option<OverviewResponse>,
    meters: Option<MetersResponse>,
    storage: Result<StorageDataResponse, MonitoringApiError>,
    now: i64,
    elapsed: Reading,
    key: Key,
)
    requires
        key.0 != Series::BatteryAcGridCharging,
    ensures
        ({
            let after = published_after(plus, samples, overview, meters, storage, now, elapsed);
            let set = metrics::all_applied(
                samples,
                closing_updates(overview, meters, storage, now, elapsed),
            );
            &&& after.contains_key(key) == set.contains_key(key)
            &&& set.contains_key(key) ==> after[key] == set[key]
        }),
{
    let set = metrics::all_applied(
        samples,
        closing_updates(overview, meters, storage, now, elapsed),
    );
    if let Ok(response) = storage {
        metrics::lemma_growth_moves_nothing_else(
            plus,
            set,
            Series::BatteryAcGridCharging,
            batteries_growth(response.storage_data.batteries@),
            key,
        );
    }
}

/// A change between others that name other samples is the only one that names
/// its own.
proof fn lemma_alone(head: Seq<UpdateView>, u: UpdateView, tail: Seq<UpdateView>)
    requires
        lists::each(head, |v: UpdateView| v.key != u.key),
        lists::each(tail, |v: UpdateView| v.key != u.key),
    ensures
        ({
            let all = head + seq![u] + tail;
            &&& all[head.len() as int] == u
            &&& forall|j: int|
                0 <= j < all.len() && j != head.len() ==> (#[trigger] all[j]).key != u.key
        }),
{
    let p = |v: UpdateView| v.key != u.key;
    let all = head + seq![u] + tail;
    assert forall|j: int| 0 <= j < all.len() && j != head.len() implies (#[trigger] all[j]).key
        != u.key by {
        if j < head.len() {
            assert(p(head[j]));
            assert(all[j] == head[j]);
        } else {
            assert(p(tail[j - head.len() - 1]));
            assert(all[j] == tail[j - head.len() - 1]);
        }
    }
}

proof fn lemma_meter_labels(a: Meter, b: Meter)
    ensures
        metrics::meter_labels(
            a.meter_serial_number@,
            a.connected_solaredge_device_sn@,
            a.meter_type@,
        ) == metrics::meter_labels(
            b.meter_serial_number@,
            b.connected_solaredge_device_sn@,
            b.meter_type@,
        ) ==> a.meter_serial_number@ == b.meter_serial_number@ && a.connected_solaredge_device_sn@
            == b.connected_solaredge_device_sn@ && a.meter_type@ == b.meter_type@,
{
    let x = metrics::meter_labels(
        a.meter_serial_number@,
        a.connected_solaredge_device_sn@,
        a.meter_type@,
    );
    let y = metrics::meter_labels(
        b.meter_serial_number@,
        b.connected_solaredge_device_sn@,
        b.meter_type@,
    );
    assert(x[0].1 == a.meter_serial_number@ && y[0].1 == b.meter_serial_number@);
    assert(x[1].1 == a.connected_solaredge_device_sn@ && y[1].1
        == b.connected_solaredge_device_sn@);
    assert(x[2].1 == a.meter_type@ && y[2].1 == b.meter_type@);
}

/// Where the change of a meter stands among those of the last step.
proof fn lemma_meter_place(
    overview: Option<OverviewResponse>,
    response: MetersResponse,
    storage: Result<StorageDataResponse, MonitoringApiError>,
    now: i64,
    elapsed: Reading,
    i: int,
    v: Reading,
) -> (at: int)
    requires
        0 <= i < response.meter_energy_details.meters@.len(),
        response.meter_energy_details.meters@[i].latest_reading() == Some(v),
        !v.is_nan(),
    ensures
        ({
            let updates = closing_updates(overview, Some(response), storage, now, elapsed);
            let list = response.meter_energy_details.meters@;
            let meter = list[i];
            &&& 0 <= at < updates.len()
            &&& updates[at] == metrics::update(
                Series::MeterLifetimeEnergy,
                metrics::meter_labels(
                    meter.meter_serial_number@,
                    meter.connected_solaredge_device_sn@,
                    meter.meter_type@,
                ),
                Change::Raise(v),
            )
            &&& (forall|j: int|
                0 <= j < list.len() && j != i ==> (#[trigger] list[j]).meter_serial_number@
                    != meter.meter_serial_number@ || list[j].connected_solaredge_device_sn@
                    != meter.connected_solaredge_device_sn@ || list[j].meter_type@
                    != meter.meter_type@) ==> forall|j: int|
                0 <= j < updates.len() && j != at ==> (#[trigger] updates[j]).key
                    != updates[at].key
        }),
{
    let updates = closing_updates(overview, Some(response), storage, now, elapsed);
    let list = response.meter_energy_details.meters@;
    let meter = list[i];
    let f = |meter: Meter| meter_updates(meter);
    let u = metrics::update(
        Series::MeterLifetimeEnergy,
        metrics::meter_labels(
            meter.meter_serial_number@,
            meter.connected_solaredge_device_sn@,
            meter.meter_type@,
        ),
        Change::Raise(v),
    );
    let outcome = outcome_updates("storage"@, storage is Ok, now, elapsed);
    let site = overview_updates(overview);
    let front = outcome + site;
    let back = match storage {
        Ok(response) => batteries_updates(response.storage_data.batteries@),
        Err(_) => Seq::empty(),
    };
    let earlier = lists::gather(list.take(i), f);
    let later = lists::gather(list.skip(i + 1), f);
    lists::lemma_gather_split(list, f, i);
    assert(f(meter) =~= seq![u]);
    lists::lemma_regrouped_within(front, earlier, seq![u], later, back);
    let head = front + earlier;
    let tail = later + back;
    assert(updates == head + seq![u] + tail);
    assert(updates[head.len() as int] == u);
    if forall|j: int|
        0 <= j < list.len() && j != i ==> (#[trigger] list[j]).meter_serial_number@
            != meter.meter_serial_number@ || list[j].connected_solaredge_device_sn@
            != meter.connected_solaredge_device_sn@ || list[j].meter_type@ != meter.meter_type@ {
        let p = |w: UpdateView| w.key != u.key;
        lemma_other_meters(list.take(i), meter);
        lemma_other_meters(list.skip(i + 1), meter);
        lists::lemma_each_concat(outcome, site, p);
        lists::lemma_each_concat(front, earlier, p);
        lemma_batteries_apart(storage, u.key);
        lists::lemma_each_concat(later, back, p);
        lemma_alone(head, u, tail);
    }
    head.len() as int
}

proof fn lemma_other_meters(list: Seq<Meter>, meter: Meter)
    requires
        forall|j: int|
            0 <= j < list.len() ==> (#[trigger] list[j]).meter_serial_number@
                != meter.meter_serial_number@ || list[j].connected_solaredge_device_sn@
                != meter.connected_solaredge_device_sn@ || list[j].meter_type@ != meter.meter_type@,
    ensures
        lists::each(
            lists::gather(list, |meter: Meter| meter_updates(meter)),
            |u: UpdateView|
                u.key != (
                    Series::MeterLifetimeEnergy,
                    metrics::meter_labels(
                        meter.meter_serial_number@,
                        meter.connected_solaredge_device_sn@,
                        meter.meter_type@,
                    ),
                ),
        ),
{
    let f = |meter: Meter| meter_updates(meter);
    let p = |u: UpdateView|
        u.key != (
            Series::MeterLifetimeEnergy,
            metrics::meter_labels(
                meter.meter_serial_number@,
                meter.connected_solaredge_device_sn@,
                meter.meter_type@,
            ),
        );
    assert forall|j: int| 0 <= j < list.len() implies lists::each(f(#[trigger] list[j]), p) by {
        lemma_meter_labels(list[j], meter);
    }
    lists::lemma_each_gathered(list, f, p);
}

/// What batteries change is none of the other series.
proof fn lemma_batteries_apart(
    storage: Result<StorageDataResponse, MonitoringApiError>,
    key: Key,
)
    requires
        key.0 != Series::BatteryFullPackEnergy,
        key.0 != Series::BatteryState,
    ensures
        lists::each(
            match storage {
                Ok(response) => batteries_updates(response.storage_data.batteries@),
                Err(_) => Seq::empty(),
            },
            |u: UpdateView| u.key != key,
        ),
{
    let p = |u: UpdateView| u.key != key;
    if let Ok(response) = storage {
        let f = |battery: Battery| battery_updates(battery);
        lists::lemma_each_gathered(response.storage_data.batteries@, f, p);
    }
}

/// Every meter of an answer is published: where its newest reading is a number,
/// its lifetime total is there after the last step, and not below that reading.
pub proof fn lemma_every_meter_published<F: Fn(Reading, Reading) -> Reading>(
    plus: F,
    samples: Map<Key, Value>,
    overview: Option<OverviewResponse>,
    response: MetersResponse,
    storage: Result<StorageDataResponse, MonitoringApiError>,
    now: i64,
    elapsed: Reading,
    i: int,
    k: int,
)
    requires
        0 <= i < response.meter_energy_details.meters@.len(),
        0 <= k < response.meter_energy_details.meters@[i].values@.len(),
        response.meter_energy_details.meters@[i].values@[k].value matches Some(v) && !v.is_nan(),
        forall|j: int|
            k < j < response.meter_energy_details.meters@[i].values@.len() ==> (
            #[trigger] response.meter_energy_details.meters@[i].values@[j]).value is None,
        ({
            let meter = response.meter_energy_details.meters@[i];
            let key = (
                Series::MeterLifetimeEnergy,
                seq![
                    ("meter"@, meter.meter_serial_number@),
                    ("inverter"@, meter.connected_solaredge_device_sn@),
                    ("type"@, meter.meter_type@),
                ],
            );
            samples.contains_key(key) ==> samples[key] is Reading
        }),
    ensures
        ({
            let meter = response.meter_energy_details.meters@[i];
            let key = (
                Series::MeterLifetimeEnergy,
                seq![
                    ("meter"@, meter.meter_serial_number@),
                    ("inverter"@, meter.connected_solaredge_device_sn@),
                    ("type"@, meter.meter_type@),
                ],
            );
            let after = published_after(
                plus,
                samples,
                overview,
                Some(response),
                storage,
                now,
                elapsed,
            );
            &&& after.contains_key(key)
            &&& after[key] matches Value::Reading(x) && !x.is_nan() && !x.less_than(
                meter.values@[k].value->0,
            )
        }),
{
    let meter = response.meter_energy_details.meters@[i];
    let v = meter.values@[k].value->0;
    models::lemma_newest_reading(meter, k);
    let at = lemma_meter_place(overview, response, storage, now, elapsed, i, v);
    let updates = closing_updates(overview, Some(response), storage, now, elapsed);
    let key = (
        Series::MeterLifetimeEnergy,
        seq![
            ("meter"@, meter.meter_serial_number@),
            ("inverter"@, meter.connected_solaredge_device_sn@),
            ("type"@, meter.meter_type@),
        ],
    );
    assert(updates[at].key == key);
    let p = |u: UpdateView| u.key.0.lifetime() ==> u.change is Raise;
    lemma_each_closing(overview, Some(response), storage, now, elapsed, p);
    assert forall|j: int| 0 <= j < updates.len() && (#[trigger] updates[j]).key == key implies
        updates[j].change is Raise by {
        assert(p(updates[j]));
    }
    metrics::lemma_lifetime_never_decreases(samples, updates, key);
    metrics::lemma_named_sample_exists(samples, updates, at);
    lemma_growth_apart(plus, samples, overview, Some(response), storage, now, elapsed, key);
    let set = metrics::all_applied(samples, updates);
    assert(metrics::sample_at(set, key) is Some);
    assert(updates[at].change == Change::Raise(v));
}

/// A meter that stands alone with its labels is published with its newest
/// reading, where that is above what was published before, or above zero where
/// nothing was.
pub proof fn lemma_meter_value<F: Fn(Reading, Reading) -> Reading>(
    plus: F,
    samples: Map<Key, Value>,
    overview: Option<OverviewResponse>,
    response: MetersResponse,
    storage: Result<StorageDataResponse, MonitoringApiError>,
    now: i64,
    elapsed: Reading,
    i: int,
    k: int,
)
    requires
        0 <= i < response.meter_energy_details.meters@.len(),
        0 <= k < response.meter_energy_details.meters@[i].values@.len(),
        response.meter_energy_details.meters@[i].values@[k].value matches Some(v) && !v.is_nan(),
        forall|j: int|
            k < j < response.meter_energy_details.meters@[i].values@.len() ==> (
            #[trigger] response.meter_energy_details.meters@[i].values@[j]).value is None,
        forall|j: int|
            0 <= j < response.meter_energy_details.meters@.len() && j != i ==> {
                let meter = response.meter_energy_details.meters@[i];
                let other = #[trigger] response.meter_energy_details.meters@[j];
                other.meter_serial_number@ != meter.meter_serial_number@
                    || other.connected_solaredge_device_sn@ != meter.connected_solaredge_device_sn@
                    || other.meter_type@ != meter.meter_type@
            },
    ensures
        ({
            let meter = response.meter_energy_details.meters@[i];
            let v = meter.values@[k].value->0;
            let key = (
                Series::MeterLifetimeEnergy,
                seq![
                    ("meter"@, meter.meter_serial_number@),
                    ("inverter"@, meter.connected_solaredge_device_sn@),
                    ("type"@, meter.meter_type@),
                ],
            );
            let before = if samples.contains_key(key) && samples[key] is Reading {
                samples[key]->Reading_0
            } else {
                Reading { bits: 0 }
            };
            let after = published_after(
                plus,
                samples,
                overview,
                Some(response),
                storage,
                now,
                elapsed,
            );
            &&& after.contains_key(key)
            &&& before.less_than(v) ==> after[key] == Value::Reading(v)
            &&& v.less_than(before) ==> after[key] == Value::Reading(before)
        }),
{
    let list = response.meter_energy_details.meters@;
    let meter = list[i];
    let v = meter.values@[k].value->0;
    models::lemma_newest_reading(meter, k);
    let at = lemma_meter_place(overview, response, storage, now, elapsed, i, v);
    let updates = closing_updates(overview, Some(response), storage, now, elapsed);
    let key = (
        Series::MeterLifetimeEnergy,
        seq![
            ("meter"@, meter.meter_serial_number@),
            ("inverter"@, meter.connected_solaredge_device_sn@),
            ("type"@, meter.meter_type@),
        ],
    );
    assert forall|j: int| 0 <= j < list.len() && j != i implies (
    #[trigger] list[j]).meter_serial_number@ != meter.meter_serial_number@
        || list[j].connected_solaredge_device_sn@ != meter.connected_solaredge_device_sn@
        || list[j].meter_type@ != meter.meter_type@ by {
        let other = response.meter_energy_details.meters@[j];
    }
    assert(updates[at].key == key);
    metrics::lemma_only_change(samples, updates, at);
    lemma_growth_apart(plus, samples, overview, Some(response), storage, now, elapsed, key);
}

/// The lifetime energy of the site is published: it is that of the overview,
/// where that is above what was published before, or above zero where nothing
/// was. Without an overview it stays.
pub proof fn lemma_site_energy_published<F: Fn(Reading, Reading) -> Reading>(
    plus: F,
    samples: Map<Key, Value>,
    overview: Option<OverviewResponse>,
    meters: Option<MetersResponse>,
    storage: Result<StorageDataResponse, MonitoringApiError>,
    now: i64,
    elapsed: Reading,
)
    ensures
        ({
            let key = (Series::SitePvLifetimeEnergy, LabelTexts::empty());
            let before = if samples.contains_key(key) && samples[key] is Reading {
                samples[key]->Reading_0
            } else {
                Reading { bits: 0 }
            };
            let after = published_after(plus, samples, overview, meters, storage, now, elapsed);
            let reported = match overview {
                Some(response) => response.overview.life_time_data.energy,
                None => None,
            };
            match reported {
                Some(v) => if v.is_nan() {
                    &&& after.contains_key(key) == samples.contains_key(key)
                    &&& samples.contains_key(key) ==> after[key] == samples[key]
                } else {
                    &&& after.contains_key(key)
                    &&& before.less_than(v) ==> after[key] == Value::Reading(v)
                    &&& v.less_than(before) ==> after[key] == Value::Reading(before)
                    &&& after[key] matches Value::Reading(x) && !x.less_than(v)
                },
                None => {
                    &&& after.contains_key(key) == samples.contains_key(key)
                    &&& samples.contains_key(key) ==> after[key] == samples[key]
                },
            }
        }),
{
    let key = (Series::SitePvLifetimeEnergy, LabelTexts::empty());
    let p = |u: UpdateView| u.key != key;
    let updates = closing_updates(overview, meters, storage, now, elapsed);
    let outcome = outcome_updates("storage"@, storage is Ok, now, elapsed);
    let site = overview_updates(overview);
    let counted = meters_updates(meters);
    let back = match storage {
        Ok(response) => batteries_updates(response.storage_data.batteries@),
        Err(_) => Seq::empty(),
    };
    if let Some(response) = meters {
        let f = |meter: Meter| meter_updates(meter);
        lists::lemma_each_gathered(response.meter_energy_details.meters@, f, p);
    }
    lemma_batteries_apart(storage, key);
    lists::lemma_each_concat(counted, back, p);
    lemma_growth_apart(plus, samples, overview, meters, storage, now, elapsed, key);
    if site.len() == 1 {
        assert(site =~= seq![site[0]]);
        assert(updates =~= outcome + seq![site[0]] + (counted + back));
        lemma_alone(outcome, site[0], counted + back);
        metrics::lemma_only_change(samples, updates, outcome.len() as int);
    } else {
        assert(site =~= Seq::empty());
        assert(updates =~= outcome + (counted + back));
        lists::lemma_each_concat(outcome, counted + back, p);
        metrics::lemma_unnamed(samples, updates, key);
        let set = metrics::all_applied(samples, updates);
        assert(metrics::sample_at(set, key) == metrics::sample_at(samples, key));
    }
}

/// Storage data taken in in two goes comes to the same as all of it in one: the
/// counters grow battery by battery.
pub proof fn lemma_totals_in_two<F: Fn(Reading, Reading) -> Reading>(
    plus: F,
    totals: Map<Seq<char>, TotalView>,
    first: Seq<Battery>,
    second: Seq<Battery>,
)
    ensures
        totals_after(plus, totals, first + second) == totals_after(
            plus,
            totals_after(plus, totals, first),
            second,
        ),
    decreases second.len(),
{
    if second.len() == 0 {
        assert(first + second =~= first);
    } else {
        lemma_totals_in_two(plus, totals, first, second.drop_last());
        assert((first + second).drop_last() =~= first + second.drop_last());
        assert((first + second).last() == second.last());
    }
}

/// The remembered counter of a battery stays as long as no answer names the
/// battery.
pub proof fn lemma_other_totals_stay<F: Fn(Reading, Reading) -> Reading>(
    plus: F,
    totals: Map<Seq<char>, TotalView>,
    batteries: Seq<Battery>,
    serial: Seq<char>,
)
    requires
        forall|i: int|
            0 <= i < batteries.len() ==> (#[trigger] batteries[i]).serial_number@ != serial,
    ensures
        totals_after(plus, totals, batteries).contains_key(serial) == totals.contains_key(serial),
        totals.contains_key(serial) ==> totals_after(plus, totals, batteries)[serial]
            == totals[serial],
    decreases batteries.len(),
{
    if batteries.len() > 0 {
        let fewer = batteries.drop_last();
        assert forall|i: int| 0 <= i < fewer.len() implies (#[trigger] fewer[i]).serial_number@
            != serial by {
            assert(batteries[i].serial_number@ != serial);
        }
        lemma_other_totals_stay(plus, totals, fewer, serial);
        assert(batteries[batteries.len() - 1].serial_number@ != serial);
    }
}

proof fn lemma_other_growths(list: Seq<Battery>, serial: Seq<char>, model: Seq<char>)
    requires
        forall|j: int| 0 <= j < list.len() ==> (#[trigger] list[j]).serial_number@ != serial,
    ensures
        lists::each(
            batteries_growth(list),
            |g: GrowthView| g.labels != metrics::battery_labels(serial, model),
        ),
{
    let f = |battery: Battery| battery_growth(battery);
    let p = |g: GrowthView| g.labels != metrics::battery_labels(serial, model);
    assert forall|j: int| 0 <= j < list.len() implies lists::each(f(#[trigger] list[j]), p) by {
        lemma_battery_labels(
            list[j].serial_number@,
            list[j].model_number@,
            serial,
            model,
        );
    }
    lists::lemma_each_gathered(list, f, p);
}

proof fn lemma_counters_apart(
    overview: Option<OverviewResponse>,
    meters: Option<MetersResponse>,
    storage: Result<StorageDataResponse, MonitoringApiError>,
    now: i64,
    elapsed: Reading,
    samples: Map<Key, Value>,
    key: Key,
)
    requires
        key.0 == Series::BatteryAcGridCharging,
    ensures
        metrics::sample_at(
            metrics::all_applied(samples, closing_updates(overview, meters, storage, now, elapsed)),
            key,
        ) == metrics::sample_at(samples, key),
{
    let p = |u: UpdateView| u.key != key;
    lemma_each_closing(overview, meters, storage, now, elapsed, p);
    metrics::lemma_unnamed(
        samples,
        closing_updates(overview, meters, storage, now, elapsed),
        key,
    );
}

/// What a battery was charged with from the grid is counted once, by the newest
/// value that its telemetries have: where that is not below zero, the published
/// counter of the battery and the remembered one both grow by it, from zero
/// where there was none.
pub proof fn lemma_charge_counted<F: Fn(Reading, Reading) -> Reading>(
    plus: F,
    samples: Map<Key, Value>,
    totals: Map<Seq<char>, TotalView>,
    overview: Option<OverviewResponse>,
    meters: Option<MetersResponse>,
    response: StorageDataResponse,
    now: i64,
    elapsed: Reading,
    b: int,
    i: int,
    published: Reading,
    remembered: Reading,
)
    requires
        metrics::is_addition(plus),
        0 <= b < response.storage_data.batteries@.len(),
        0 <= i < response.storage_data.batteries@[b].telemetries@.len(),
        response.storage_data.batteries@[b].telemetries@[i].ac_grid_charging matches Some(v) && (
        v.bits <= 0x7ff0_0000_0000_0000 || v.bits == 0x8000_0000_0000_0000),
        forall|j: int|
            i < j < response.storage_data.batteries@[b].telemetries@.len() ==> (
            #[trigger] response.storage_data.batteries@[b].telemetries@[j]).ac_grid_charging is None,
        forall|c: int|
            0 <= c < response.storage_data.batteries@.len() && c != b ==> (
            #[trigger] response.storage_data.batteries@[c]).serial_number@
                != response.storage_data.batteries@[b].serial_number@,
        ({
            let battery = response.storage_data.batteries@[b];
            let v = battery.telemetries@[i].ac_grid_charging->0;
            let key = (
                Series::BatteryAcGridCharging,
                seq![("battery"@, battery.serial_number@), ("model"@, battery.model_number@)],
            );
            let counted = if samples.contains_key(key) && samples[key] is Reading {
                samples[key]->Reading_0
            } else {
                Reading { bits: 0 }
            };
            let kept = if totals.contains_key(battery.serial_number@) {
                totals[battery.serial_number@].watt_hours
            } else {
                Reading { bits: 0 }
            };
            plus.ensures((counted, v), published) && plus.ensures((kept, v), remembered)
        }),
    ensures
        ({
            let battery = response.storage_data.batteries@[b];
            let serial = battery.serial_number@;
            let key = (
                Series::BatteryAcGridCharging,
                seq![("battery"@, serial), ("model"@, battery.model_number@)],
            );
            let after = published_after(plus, samples, overview, meters, Ok(response), now, elapsed);
            let kept = totals_after(plus, totals, response.storage_data.batteries@);
            &&& after.contains_pair(key, Value::Reading(published))
            &&& kept.contains_key(serial)
            &&& kept[serial].watt_hours == remembered
            &&& battery.model_number@.len() > 0 || !totals.contains_key(serial)
                ==> kept[serial].model == battery.model_number@
            &&& battery.model_number@.len() == 0 && totals.contains_key(serial)
                ==> kept[serial].model == totals[serial].model
        }),
{
    let batteries = response.storage_data.batteries@;
    let battery = batteries[b];
    let serial = battery.serial_number@;
    let model = battery.model_number@;
    let v = battery.telemetries@[i].ac_grid_charging->0;
    let f = |battery: Battery| battery_growth(battery);
    let series = Series::BatteryAcGridCharging;
    let key = (series, seq![("battery"@, serial), ("model"@, model)]);
    let g = GrowthView { labels: metrics::battery_labels(serial, model), amount: v };
    let updates = closing_updates(overview, meters, Ok(response), now, elapsed);
    let set = metrics::all_applied(samples, updates);
    models::lemma_newest_grid_charging(battery, i);
    assert(key == (series, g.labels));
    lemma_counters_apart(overview, meters, Ok(response), now, elapsed, samples, key);
    let head = batteries.take(b);
    let tail = batteries.skip(b + 1);
    lists::lemma_gather_split(batteries, f, b);
    assert(f(battery) =~= seq![g]);
    lemma_other_growths(head, serial, model);
    lemma_other_growths(tail, serial, model);
    metrics::lemma_grown_alone(
        plus,
        set,
        series,
        batteries_growth(head),
        g,
        batteries_growth(tail),
    );
    metrics::lemma_sum(plus, metrics::reading_or_zero(metrics::sample_at(samples, key)), v, published);
    let after = published_after(plus, samples, overview, meters, Ok(response), now, elapsed);
    assert(metrics::sample_at(after, key) == Some(Value::Reading(published)));
    let before = totals_after(plus, totals, head);
    let middle = totals_after(plus, totals, head + seq![battery]);
    assert(batteries =~= (head + seq![battery]) + tail);
    lemma_totals_in_two(plus, totals, head + seq![battery], tail);
    assert((head + seq![battery]).drop_last() =~= head);
    lemma_other_totals_stay(plus, totals, head, serial);
    lemma_other_totals_stay(plus, middle, tail, serial);
    assert(middle == before.insert(
        serial,
        client::recorded(plus, client::total_at(before, serial), model, v),
    ));
    let kept = if totals.contains_key(serial) {
        totals[serial].watt_hours
    } else {
        Reading { bits: 0 }
    };
    metrics::lemma_sum(plus, kept, v, remembered);
}

/// A battery whose newest value is below zero or no number, or that has none,
/// keeps its counters: the published one of its labels and the remembered one.
pub proof fn lemma_no_charge_counted<F: Fn(Reading, Reading) -> Reading>(
    plus: F,
    samples: Map<Key, Value>,
    totals: Map<Seq<char>, TotalView>,
    overview: Option<OverviewResponse>,
    meters: Option<MetersResponse>,
    response: StorageDataResponse,
    now: i64,
    elapsed: Reading,
    serial: Seq<char>,
    model: Seq<char>,
)
    requires
        forall|b: int|
            0 <= b < response.storage_data.batteries@.len() && (
            #[trigger] response.storage_data.batteries@[b]).serial_number@ == serial ==> {
                let telemetries = response.storage_data.batteries@[b].telemetries@;
                ||| forall|j: int|
                    0 <= j < telemetries.len() ==> (#[trigger] telemetries[j]).ac_grid_charging
                        is None
                ||| exists|i: int|
                    {
                        &&& 0 <= i < telemetries.len()
                        &&& (#[trigger] telemetries[i]).ac_grid_charging matches Some(v)
                        &&& v.bits > 0x7ff0_0000_0000_0000
                        &&& v.bits != 0x8000_0000_0000_0000
                        &&& forall|j: int|
                            i < j < telemetries.len() ==> (
                            #[trigger] telemetries[j]).ac_grid_charging is None
                    }
            },
    ensures
        ({
            let key = (
                Series::BatteryAcGridCharging,
                seq![("battery"@, serial), ("model"@, model)],
            );
            let after = published_after(plus, samples, overview, meters, Ok(response), now, elapsed);
            let kept = totals_after(plus, totals, response.storage_data.batteries@);
            &&& after.contains_key(key) == samples.contains_key(key)
            &&& samples.contains_key(key) ==> after[key] == samples[key]
            &&& kept.contains_key(serial) == totals.contains_key(serial)
            &&& totals.contains_key(serial) ==> kept[serial] == totals[serial]
        }),
{
    let batteries = response.storage_data.batteries@;
    let series = Series::BatteryAcGridCharging;
    let key = (series, seq![("battery"@, serial), ("model"@, model)]);
    let updates = closing_updates(overview, meters, Ok(response), now, elapsed);
    let set = metrics::all_applied(samples, updates);
    lemma_counters_apart(overview, meters, Ok(response), now, elapsed, samples, key);
    assert forall|b: int| 0 <= b < batteries.len() && (
    #[trigger] batteries[b]).serial_number@ == serial implies charge_of(batteries[b]) is None by {
        let battery = response.storage_data.batteries@[b];
        let telemetries = battery.telemetries@;
        if forall|j: int|
            0 <= j < telemetries.len() ==> (#[trigger] telemetries[j]).ac_grid_charging is None {
            models::lemma_nothing_measured(battery);
        } else {
            let i = choose|i: int|
                {
                    &&& 0 <= i < telemetries.len()
                    &&& (#[trigger] telemetries[i]).ac_grid_charging matches Some(v)
                    &&& v.bits > 0x7ff0_0000_0000_0000
                    &&& v.bits != 0x8000_0000_0000_0000
                    &&& forall|j: int|
                        i < j < telemetries.len() ==> (
                        #[trigger] telemetries[j]).ac_grid_charging is None
                };
            models::lemma_newest_grid_charging(battery, i);
        }
    }
    lemma_uncharged(plus, totals, batteries, serial, model);
    let growths = batteries_growth(batteries);
    let p = |g: GrowthView| g.labels != metrics::battery_labels(serial, model);
    assert forall|j: int| 0 <= j < growths.len() implies (#[trigger] growths[j]).labels != key.1 by {
        assert(p(growths[j]));
    }
    metrics::lemma_growth_moves_nothing_else(plus, set, series, growths, key);
    assert(metrics::sample_at(set, key) == metrics::sample_at(samples, key));
}

proof fn lemma_uncharged<F: Fn(Reading, Reading) -> Reading>(
    plus: F,
    totals: Map<Seq<char>, TotalView>,
    batteries: Seq<Battery>,
    serial: Seq<char>,
    model: Seq<char>,
)
    requires
        forall|b: int|
            0 <= b < batteries.len() && (#[trigger] batteries[b]).serial_number@ == serial
                ==> charge_of(batteries[b]) is None,
    ensures
        lists::each(
            batteries_growth(batteries),
            |g: GrowthView| g.labels != metrics::battery_labels(serial, model),
        ),
        totals_after(plus, totals, batteries).contains_key(serial) == totals.contains_key(serial),
        totals.contains_key(serial) ==> totals_after(plus, totals, batteries)[serial]
            == totals[serial],
    decreases batteries.len(),
{
    let f = |battery: Battery| battery_growth(battery);
    let p = |g: GrowthView| g.labels != metrics::battery_labels(serial, model);
    assert forall|j: int| 0 <= j < batteries.len() implies lists::each(f(#[trigger] batteries[j]), p) by {
        lemma_battery_labels(
            batteries[j].serial_number@,
            batteries[j].model_number@,
            serial,
            model,
        );
    }
    lists::lemma_each_gathered(batteries, f, p);
    if batteries.len() > 0 {
        let fewer = batteries.drop_last();
        assert forall|b: int| 0 <= b < fewer.len() && (#[trigger] fewer[b]).serial_number@
            == serial implies charge_of(fewer[b]) is None by {
            assert(batteries[b] == fewer[b]);
        }
        lemma_uncharged(plus, totals, fewer, serial, model);
        assert(batteries[batteries.len() - 1] == batteries.last());
    }
}

proof fn lemma_other_batteries(list: Seq<Battery>, serial: Seq<char>, key: Key)
    requires
        forall|j: int| 0 <= j < list.len() ==> (#[trigger] list[j]).serial_number@ != serial,
        key.1.len() == 2,
        key.1[0].1 == serial,
    ensures
        lists::each(
            lists::gather(list, |battery: Battery| battery_updates(battery)),
            |u: UpdateView| u.key != key,
        ),
{
    let f = |battery: Battery| battery_updates(battery);
    let p = |u: UpdateView| u.key != key;
    assert forall|j: int| 0 <= j < list.len() implies lists::each(f(#[trigger] list[j]), p) by {
        assert(labels_of(list[j])[0].1 == list[j].serial_number@);
    }
    lists::lemma_each_gathered(list, f, p);
}

/// What else is measured of a battery is published under its labels, by the
/// newest values that its telemetries have: the energy that it can hold, and its
/// state. A value that none of them has leaves its gauge as it was.
pub proof fn lemma_battery_gauges<F: Fn(Reading, Reading) -> Reading>(
    plus: F,
    samples: Map<Key, Value>,
    overview: Option<OverviewResponse>,
    meters: Option<MetersResponse>,
    response: StorageDataResponse,
    now: i64,
    elapsed: Reading,
    b: int,
)
    requires
        0 <= b < response.storage_data.batteries@.len(),
        forall|c: int|
            0 <= c < response.storage_data.batteries@.len() && c != b ==> (
            #[trigger] response.storage_data.batteries@[c]).serial_number@
                != response.storage_data.batteries@[b].serial_number@,
    ensures
        ({
            let battery = response.storage_data.batteries@[b];
            let telemetries = battery.telemetries@;
            let labels = seq![
                ("battery"@, battery.serial_number@),
                ("model"@, battery.model_number@),
            ];
            let full = (Series::BatteryFullPackEnergy, labels);
            let state = (Series::BatteryState, labels);
            let after = published_after(plus, samples, overview, meters, Ok(response), now, elapsed);
            &&& forall|i: int|
                {
                    &&& 0 <= i < telemetries.len()
                    &&& (#[trigger] telemetries[i]).full_pack_energy_available is Some
                    &&& forall|j: int|
                        i < j < telemetries.len() ==> (
                        #[trigger] telemetries[j]).full_pack_energy_available is None
                } ==> after.contains_pair(
                    full,
                    Value::Reading(telemetries[i].full_pack_energy_available->0),
                )
            &&& forall|i: int|
                {
                    &&& 0 <= i < telemetries.len()
                    &&& (#[trigger] telemetries[i]).battery_state is Some
                    &&& forall|j: int|
                        i < j < telemetries.len() ==> (
                        #[trigger] telemetries[j]).battery_state is None
                } ==> after.contains_pair(state, Value::Integer(telemetries[i].battery_state->0))
            &&& (forall|j: int|
                0 <= j < telemetries.len() ==> (
                #[trigger] telemetries[j]).full_pack_energy_available is None) ==> {
                &&& after.contains_key(full) == samples.contains_key(full)
                &&& samples.contains_key(full) ==> after[full] == samples[full]
            }
            &&& (forall|j: int|
                0 <= j < telemetries.len() ==> (#[trigger] telemetries[j]).battery_state is None)
                ==> {
                &&& after.contains_key(state) == samples.contains_key(state)
                &&& samples.contains_key(state) ==> after[state] == samples[state]
            }
        }),
{
    let batteries = response.storage_data.batteries@;
    let battery = batteries[b];
    let telemetries = battery.telemetries@;
    let labels = seq![("battery"@, battery.serial_number@), ("model"@, battery.model_number@)];
    let full = (Series::BatteryFullPackEnergy, labels);
    let state = (Series::BatteryState, labels);
    let storage = Ok::<StorageDataResponse, MonitoringApiError>(response);
    assert(labels == labels_of(battery));
    lemma_gauge_of_battery(plus, samples, overview, meters, response, now, elapsed, b, full);
    lemma_gauge_of_battery(plus, samples, overview, meters, response, now, elapsed, b, state);
    let after = published_after(plus, samples, overview, meters, storage, now, elapsed);
    assert forall|i: int|
        {
            &&& 0 <= i < telemetries.len()
            &&& (#[trigger] telemetries[i]).full_pack_energy_available is Some
            &&& forall|j: int|
                i < j < telemetries.len() ==> (
                #[trigger] telemetries[j]).full_pack_energy_available is None
        } implies after.contains_pair(
        full,
        Value::Reading(telemetries[i].full_pack_energy_available->0),
    ) by {
        models::lemma_newest_full_pack_energy(battery, i);
    }
    assert forall|i: int|
        {
            &&& 0 <= i < telemetries.len()
            &&& (#[trigger] telemetries[i]).battery_state is Some
            &&& forall|j: int|
                i < j < telemetries.len() ==> (#[trigger] telemetries[j]).battery_state is None
        } implies after.contains_pair(state, Value::Integer(telemetries[i].battery_state->0)) by {
        models::lemma_newest_state(battery, i);
    }
    models::lemma_nothing_measured(battery);
}

/// What the last step makes of a gauge of a battery.
proof fn lemma_gauge_of_battery<F: Fn(Reading, Reading) -> Reading>(
    plus: F,
    samples: Map<Key, Value>,
    overview: Option<OverviewResponse>,
    meters: Option<MetersResponse>,
    response: StorageDataResponse,
    now: i64,
    elapsed: Reading,
    b: int,
    key: Key,
)
    requires
        0 <= b < response.storage_data.batteries@.len(),
        key.0 == Series::BatteryFullPackEnergy || key.0 == Series::BatteryState,
        key.1 == labels_of(response.storage_data.batteries@[b]),
        forall|c: int|
            0 <= c < response.storage_data.batteries@.len() && c != b ==> (
            #[trigger] response.storage_data.batteries@[c]).serial_number@
                != response.storage_data.batteries@[b].serial_number@,
    ensures
        ({
            let battery = response.storage_data.batteries@[b];
            let value = if key.0 == Series::BatteryFullPackEnergy {
                match battery.full_pack_energy() {
                    Some(v) => Some(Value::Reading(v)),
                    None => None,
                }
            } else {
                match battery.state() {
                    Some(v) => Some(Value::Integer(v)),
                    None => None,
                }
            };
            let after = published_after(plus, samples, overview, meters, Ok(response), now, elapsed);
            match value {
                Some(v) => after.contains_pair(key, v),
                None => {
                    &&& after.contains_key(key) == samples.contains_key(key)
                    &&& samples.contains_key(key) ==> after[key] == samples[key]
                },
            }
        }),
{
    let storage = Ok::<StorageDataResponse, MonitoringApiError>(response);
    let batteries = response.storage_data.batteries@;
    let battery = batteries[b];
    let f = |battery: Battery| battery_updates(battery);
    let p = |u: UpdateView| u.key != key;
    let updates = closing_updates(overview, meters, storage, now, elapsed);
    let outcome = outcome_updates("storage"@, true, now, elapsed);
    let site = overview_updates(overview);
    let counted = meters_updates(meters);
    let front = outcome + site + counted;
    let earlier = lists::gather(batteries.take(b), f);
    let own = f(battery);
    let later = lists::gather(batteries.skip(b + 1), f);
    lists::lemma_gather_split(batteries, f, b);
    lists::lemma_regrouped_within(front, earlier, own, later, Seq::empty());
    assert(updates =~= front + (earlier + own + later) + Seq::empty());
    let head = front + earlier;
    let tail = later + Seq::empty();
    if let Some(response) = meters {
        let g = |meter: Meter| meter_updates(meter);
        lists::lemma_each_gathered(response.meter_energy_details.meters@, g, p);
    }
    lists::lemma_each_concat(outcome, site, p);
    lists::lemma_each_concat(outcome + site, counted, p);
    lemma_other_batteries(batteries.take(b), battery.serial_number@, key);
    lemma_other_batteries(batteries.skip(b + 1), battery.serial_number@, key);
    lists::lemma_each_concat(front, earlier, p);
    lists::lemma_each_concat(later, Seq::empty(), p);
    metrics::lemma_applied_in_two(samples, head, own);
    metrics::lemma_applied_in_two(samples, head + own, tail);
    let before = metrics::all_applied(samples, head);
    let middle = metrics::all_applied(before, own);
    metrics::lemma_unnamed(samples, head, key);
    metrics::lemma_unnamed(middle, tail, key);
    lemma_growth_apart(plus, samples, overview, meters, storage, now, elapsed, key);
    let set = metrics::all_applied(samples, updates);
    assert(metrics::sample_at(set, key) == metrics::sample_at(middle, key));
    assert(metrics::sample_at(before, key) == metrics::sample_at(samples, key));
    reveal_with_fuel(metrics::all_applied, 3);
    if own.len() == 2 {
        assert(own.drop_last() =~= seq![own[0]]);
        assert(own.drop_last().drop_last() =~= Seq::<UpdateView>::empty());
    } else if own.len() == 1 {
        assert(own.drop_last() =~= Seq::<UpdateView>::empty());
    }
}

/// How the outcome of a request is told: a success makes the endpoint fresh as
/// of now and tells how long it took, a failure is counted, and neither moves
/// what the other does.
pub proof fn lemma_outcome_told(
    samples: Map<Key, Value>,
    endpoint: Seq<char>,
    success: bool,
    now: i64,
    elapsed: Reading,
)
    ensures
        ({
            let labels = seq![("endpoint"@, endpoint)];
            let fresh = (Series::MonitoringApiLastRefresh, labels);
            let took = (Series::MonitoringApiRefreshDuration, labels);
            let failed = (Series::MonitoringApiRefreshErrors, labels);
            let count: int = if samples.contains_key(failed) && samples[failed] is Count {
                samples[failed]->Count_0 as int
            } else {
                0
            };
            let after = metrics::all_applied(
                samples,
                outcome_updates(endpoint, success, now, elapsed),
            );
            &&& success ==> after.contains_pair(fresh, Value::Integer(now))
            &&& success ==> after.contains_pair(took, Value::Reading(elapsed))
            &&& success ==> after.contains_key(failed) == samples.contains_key(failed)
            &&& success && samples.contains_key(failed) ==> after[failed] == samples[failed]
            &&& !success ==> after.contains_pair(
                failed,
                Value::Count(((count + 1) % 0x1_0000_0000_0000_0000) as u64),
            )
            &&& !success ==> after.contains_key(fresh) == samples.contains_key(fresh)
            &&& !success && samples.contains_key(fresh) ==> after[fresh] == samples[fresh]
            &&& !success ==> after.contains_key(took) == samples.contains_key(took)
            &&& !success && samples.contains_key(took) ==> after[took] == samples[took]
        }),
{
    let labels = seq![("endpoint"@, endpoint)];
    let fresh = (Series::MonitoringApiLastRefresh, labels);
    let took = (Series::MonitoringApiRefreshDuration, labels);
    let failed = (Series::MonitoringApiRefreshErrors, labels);
    let updates = outcome_updates(endpoint, success, now, elapsed);
    assert(metrics::endpoint_label(endpoint) =~= labels);
    if success {
        metrics::lemma_only_change(samples, updates, 0);
        metrics::lemma_only_change(samples, updates, 1);
        metrics::lemma_nothing_else_changes(samples, updates, failed);
    } else {
        metrics::lemma_only_change(samples, updates, 0);
        metrics::lemma_nothing_else_changes(samples, updates, fresh);
        metrics::lemma_nothing_else_changes(samples, updates, took);
    }
}

/// Every request is counted, under its endpoint, and a refresh makes three: for
/// the overview, for the meters and for storage data, in this order.
pub proof fn lemma_requests_counted(samples: Map<Key, Value>, stage: Stage)
    ensures
        ({
            let endpoint = stage.endpoint_text()->0;
            let key = (Series::MonitoringApiRequests, seq![("endpoint"@, endpoint)]);
            let count: int = if samples.contains_key(key) && samples[key] is Count {
                samples[key]->Count_0 as int
            } else {
                0
            };
            stage.endpoint_text() is Some ==> metrics::applied(samples, request_update(endpoint))
                == samples.insert(
                key,
                Value::Count(((count + 1) % 0x1_0000_0000_0000_0000) as u64),
            )
        }),
        stage.endpoint_text() is None <==> stage is Finished,
        Stage::Overview.endpoint_text() == Some("overview"@),
        Stage::Overview.after().endpoint_text() == Some("meters"@),
        Stage::Overview.after().after().endpoint_text() == Some("storage"@),
        Stage::Overview.after().after().after() is Finished,
{
}

/// What the last step publishes of a source does not hang on another source:
/// without storage data, meters and the site are published all the same.
pub proof fn lemma_sources_apart<F: Fn(Reading, Reading) -> Reading>(
    plus: F,
    samples: Map<Key, Value>,
    overview: Option<OverviewResponse>,
    meters: Option<MetersResponse>,
    response: StorageDataResponse,
    e: MonitoringApiError,
    now: i64,
    elapsed: Reading,
    key: Key,
)
    requires
        key.0 == Series::MeterLifetimeEnergy || key.0 == Series::SitePvLifetimeEnergy,
    ensures
        ({
            let with = published_after(plus, samples, overview, meters, Ok(response), now, elapsed);
            let without = published_after(plus, samples, overview, meters, Err(e), now, elapsed);
            &&& with.contains_key(key) == without.contains_key(key)
            &&& with.contains_key(key) ==> with[key] == without[key]
        }),
{
    let p = |u: UpdateView| u.key != key;
    let read = overview_updates(overview) + meters_updates(meters);
    let told = outcome_updates("storage"@, true, now, elapsed);
    let failed = outcome_updates("storage"@, false, now, elapsed);
    let back = batteries_updates(response.storage_data.batteries@);
    lemma_batteries_apart(Ok(response), key);
    lemma_growth_apart(plus, samples, overview, meters, Ok(response), now, elapsed, key);
    let a = closing_updates(overview, meters, Ok(response), now, elapsed);
    let b = closing_updates(overview, meters, Err(e), now, elapsed);
    assert(a =~= told + read + back);
    assert(b =~= failed + read + Seq::empty());
    metrics::lemma_applied_in_two(samples, told, read);
    metrics::lemma_applied_in_two(samples, told + read, back);
    metrics::lemma_applied_in_two(samples, failed, read);
    assert(b =~= failed + read);
    metrics::lemma_unnamed(samples, told, key);
    metrics::lemma_unnamed(samples, failed, key);
    let x = metrics::all_applied(samples, told);
    let y = metrics::all_applied(samples, failed);
    lemma_same_made(x, y, read, key);
    metrics::lemma_unnamed(metrics::all_applied(samples, told + read), back, key);
    assert(metrics::sample_at(metrics::all_applied(samples, a), key) == metrics::sample_at(
        metrics::all_applied(samples, b),
        key,
    ));
}

/// What changes make of a sample hangs on what it was alone.
proof fn lemma_same_made(
    a: Map<Key, Value>,
    b: Map<Key, Value>,
    updates: Seq<UpdateView>,
    key: Key,
)
    requires
        metrics::sample_at(a, key) == metrics::sample_at(b, key),
    ensures
        metrics::sample_at(metrics::all_applied(a, updates), key) == metrics::sample_at(
            metrics::all_applied(b, updates),
            key,
        ),
    decreases updates.len(),
{
    if updates.len() > 0 {
        lemma_same_made(a, b, updates.drop_last(), key);
    }
}

/// How many requests a day are made: three for every time that the interval
/// goes into a day, and the limit is near above 250 of them.
pub proof fn lemma_budget(refresh_seconds: u64)
    requires
        refresh_seconds > 0,
    ensures
        daily_requests(refresh_seconds) * refresh_seconds <= 259_200,
        259_200 < (daily_requests(refresh_seconds) + 1) * refresh_seconds,
        refresh_seconds >= 1_033 <==> daily_requests(refresh_seconds) <= 250,
        daily_requests(refresh_seconds) > BUDGET <==> refresh_seconds < 1_033,
{
    let d = refresh_seconds as int;
    let q = 259_200int / d;
    assert(daily_requests(refresh_seconds) == q);
    vstd::arithmetic::div_mod::lemma_fundamental_div_mod(259_200, d);
    let m = 259_200int % d;
    assert(d * q == q * d) by (nonlinear_arith);
    assert((q + 1) * d == q * d + d) by (nonlinear_arith);
    if d >= 1_033 {
        assert(q <= 250) by (nonlinear_arith)
            requires
                q * d <= 259_200,
                d >= 1_033,
        ;
    } else {
        assert(q > 250) by (nonlinear_arith)
            requires
                259_200 < (q + 1) * d,
                0 < d <= 1_032,
        ;
    }
}

/// After a restart the published counter of every battery is what was published
/// before, or zero, and the remembered one added to it; no other sample moves.
pub proof fn lemma_seed_published<F: Fn(Reading, Reading) -> Reading>(
    plus: F,
    before: Map<Key, Value>,
    totals: Map<Seq<char>, TotalView>,
    after: Map<Key, Value>,
    serial: Seq<char>,
    x: Reading,
)
    requires
        metrics::is_addition(plus),
        seeded(plus, before, totals, after),
        totals.contains_key(serial),
        ({
            let key = (
                Series::BatteryAcGridCharging,
                seq![("battery"@, serial), ("model"@, totals[serial].model)],
            );
            plus.ensures(
                (
                    if before.contains_key(key) && before[key] is Reading {
                        before[key]->Reading_0
                    } else {
                        Reading { bits: 0 }
                    },
                    totals[serial].watt_hours,
                ),
                x,
            )
        }),
    ensures
        after.contains_pair(
            (
                Series::BatteryAcGridCharging,
                seq![("battery"@, serial), ("model"@, totals[serial].model)],
            ),
            Value::Reading(x),
        ),
        forall|key: Key|
            key.0 != Series::BatteryAcGridCharging ==> #[trigger] metrics::shows(
                before,
                after,
                key,
                None,
            ),
{
    let key = counter_key(serial, totals[serial].model);
    assert(key.1 =~= seq![("battery"@, serial), ("model"@, totals[serial].model)]);
    metrics::lemma_sum(
        plus,
        metrics::reading_or_zero(metrics::sample_at(before, key)),
        totals[serial].watt_hours,
        x,
    );
    assert(metrics::sample_at(after, key) == Some(Value::Reading(x)));
    assert forall|key: Key| key.0 != Series::BatteryAcGridCharging implies #[trigger] metrics::shows(
        before,
        after,
        key,
        None,
    ) by {
        assert(!counts_one_of(totals, key));
        assert(metrics::sample_at(after, key) == metrics::sample_at(before, key));
    }
}

/// The outcome of the query for storage data is told with what is published at
/// the end: it is fresh where it came, and its failure is counted where it did
/// not.
pub proof fn lemma_storage_told<F: Fn(Reading, Reading) -> Reading>(
    plus: F,
    samples: Map<Key, Value>,
    overview: Option<OverviewResponse>,
    meters: Option<MetersResponse>,
    storage: Result<StorageDataResponse, MonitoringApiError>,
    now: i64,
    elapsed: Reading,
)
    ensures
        ({
            let labels = seq![("endpoint"@, "storage"@)];
            let after = published_after(plus, samples, overview, meters, storage, now, elapsed);
            &&& metrics::shows(
                samples,
                after,
                (Series::MonitoringApiLastRefresh, labels),
                if storage is Ok {
                    Some(Value::Integer(now))
                } else {
                    None
                },
            )
            &&& metrics::shows(
                samples,
                after,
                (Series::MonitoringApiRefreshDuration, labels),
                if storage is Ok {
                    Some(Value::Reading(elapsed))
                } else {
                    None
                },
            )
            &&& metrics::shows_more(
                samples,
                after,
                (Series::MonitoringApiRefreshErrors, labels),
                if storage is Err {
                    1
                } else {
                    0
                },
            )
        }),
{
    let labels = seq![("endpoint"@, "storage"@)];
    let fresh = (Series::MonitoringApiLastRefresh, labels);
    let took = (Series::MonitoringApiRefreshDuration, labels);
    let failed = (Series::MonitoringApiRefreshErrors, labels);
    lemma_outcome_told(samples, "storage"@, storage is Ok, now, elapsed);
    lemma_outcome_first(plus, samples, overview, meters, storage, now, elapsed, fresh);
    lemma_outcome_first(plus, samples, overview, meters, storage, now, elapsed, took);
    lemma_outcome_first(plus, samples, overview, meters, storage, now, elapsed, failed);
}

/// What is told of a request is not touched by what else is published.
proof fn lemma_outcome_first<F: Fn(Reading, Reading) -> Reading>(
    plus: F,
    samples: Map<Key, Value>,
    overview: Option<OverviewResponse>,
    meters: Option<MetersResponse>,
    storage: Result<StorageDataResponse, MonitoringApiError>,
    now: i64,
    elapsed: Reading,
    key: Key,
)
    requires
        key.0 == Series::MonitoringApiLastRefresh || key.0 == Series::MonitoringApiRefreshDuration
            || key.0 == Series::MonitoringApiRefreshErrors,
    ensures
        ({
            let told = metrics::all_applied(
                samples,
                outcome_updates("storage"@, storage is Ok, now, elapsed),
            );
            let after = published_after(plus, samples, overview, meters, storage, now, elapsed);
            &&& after.contains_key(key) == told.contains_key(key)
            &&& told.contains_key(key) ==> after[key] == told[key]
        }),
{
    let p = |u: UpdateView| u.key != key;
    let updates = closing_updates(overview, meters, storage, now, elapsed);
    let outcome = outcome_updates("storage"@, storage is Ok, now, elapsed);
    let site = overview_updates(overview);
    let counted = meters_updates(meters);
    let back = match storage {
        Ok(response) => batteries_updates(response.storage_data.batteries@),
        Err(_) => Seq::empty(),
    };
    if let Some(response) = meters {
        let f = |meter: Meter| meter_updates(meter);
        lists::lemma_each_gathered(response.meter_energy_details.meters@, f, p);
    }
    lemma_batteries_apart(storage, key);
    lists::lemma_each_concat(site, counted, p);
    lists::lemma_each_concat(site + counted, back, p);
    let rest = site + counted + back;
    assert(updates =~= outcome + rest);
    metrics::lemma_applied_in_two(samples, outcome, rest);
    let told = metrics::all_applied(samples, outcome);
    metrics::lemma_unnamed(told, rest, key);
    let set = metrics::all_applied(samples, updates);
    assert(metrics::sample_at(set, key) == metrics::sample_at(told, key));
    lemma_growth_apart(plus, samples, overview, meters, storage, now, elapsed, key);
}

/// The total of a meter stays as long as no meter of its labels has a reading
/// that is a number, and without an answer the totals of all meters stay.
pub proof fn lemma_unread_meter_stays<F: Fn(Reading, Reading) -> Reading>(
    plus: F,
    samples: Map<Key, Value>,
    overview: Option<OverviewResponse>,
    meters: Option<MetersResponse>,
    storage: Result<StorageDataResponse, MonitoringApiError>,
    now: i64,
    elapsed: Reading,
    labels: LabelTexts,
)
    requires
        meters matches Some(response) ==> forall|i: int|
            0 <= i < response.meter_energy_details.meters@.len() ==> {
                let meter = #[trigger] response.meter_energy_details.meters@[i];
                ||| labels != seq![
                    ("meter"@, meter.meter_serial_number@),
                    ("inverter"@, meter.connected_solaredge_device_sn@),
                    ("type"@, meter.meter_type@),
                ]
                ||| meter.latest_reading() is None
                ||| meter.latest_reading()->0.is_nan()
            },
    ensures
        metrics::shows(
            samples,
            published_after(plus, samples, overview, meters, storage, now, elapsed),
            (Series::MeterLifetimeEnergy, labels),
            None,
        ),
{
    let key = (Series::MeterLifetimeEnergy, labels);
    let p = |u: UpdateView| u.key != key;
    if let Some(response) = meters {
        assert forall|i: int| 0 <= i < response.meter_energy_details.meters@.len() implies lists::each(
            meter_updates(#[trigger] response.meter_energy_details.meters@[i]),
            p,
        ) by {
            let meter = response.meter_energy_details.meters@[i];
            assert(metrics::meter_labels(
                meter.meter_serial_number@,
                meter.connected_solaredge_device_sn@,
                meter.meter_type@,
            ) =~= seq![
                ("meter"@, meter.meter_serial_number@),
                ("inverter"@, meter.connected_solaredge_device_sn@),
                ("type"@, meter.meter_type@),
            ]);
        }
    }
    lemma_left_alone(plus, samples, overview, meters, storage, now, elapsed, key);
}

/// A sample that no change of the last step names stays.
proof fn lemma_left_alone<F: Fn(Reading, Reading) -> Reading>(
    plus: F,
    samples: Map<Key, Value>,
    overview: Option<OverviewResponse>,
    meters: Option<MetersResponse>,
    storage: Result<StorageDataResponse, MonitoringApiError>,
    now: i64,
    elapsed: Reading,
    key: Key,
)
    requires
        key.0 != Series::BatteryAcGridCharging,
        ({
            let p = |u: UpdateView| u.key != key;
            &&& lists::each(outcome_updates("storage"@, storage is Ok, now, elapsed), p)
            &&& lists::each(overview_updates(overview), p)
            &&& meters matches Some(response) ==> forall|i: int|
                0 <= i < response.meter_energy_details.meters@.len() ==> lists::each(
                    meter_updates(#[trigger] response.meter_energy_details.meters@[i]),
                    p,
                )
            &&& storage matches Ok(response) ==> forall|i: int|
                0 <= i < response.storage_data.batteries@.len() ==> lists::each(
                    battery_updates(#[trigger] response.storage_data.batteries@[i]),
                    p,
                )
        }),
    ensures
        metrics::shows(
            samples,
            published_after(plus, samples, overview, meters, storage, now, elapsed),
            key,
            None,
        ),
{
    let p = |u: UpdateView| u.key != key;
    let updates = closing_updates(overview, meters, storage, now, elapsed);
    lemma_each_closing(overview, meters, storage, now, elapsed, p);
    metrics::lemma_unnamed(samples, updates, key);
    let set = metrics::all_applied(samples, updates);
    assert(metrics::sample_at(set, key) == metrics::sample_at(samples, key));
    lemma_growth_apart(plus, samples, overview, meters, storage, now, elapsed, key);
}

/// Without storage data nothing of any battery changes.
pub proof fn lemma_batteries_stay<F: Fn(Reading, Reading) -> Reading>(
    plus: F,
    samples: Map<Key, Value>,
    overview: Option<OverviewResponse>,
    meters: Option<MetersResponse>,
    e: MonitoringApiError,
    now: i64,
    elapsed: Reading,
    key: Key,
)
    requires
        key.0 == Series::BatteryAcGridCharging || key.0 == Series::BatteryFullPackEnergy || key.0
            == Series::BatteryState,
    ensures
        metrics::shows(
            samples,
            published_after(plus, samples, overview, meters, Err(e), now, elapsed),
            key,
            None,
        ),
{
    let storage = Err::<StorageDataResponse, MonitoringApiError>(e);
    if key.0 == Series::BatteryAcGridCharging {
        lemma_counters_apart(overview, meters, storage, now, elapsed, samples, key);
        let set = metrics::all_applied(
            samples,
            closing_updates(overview, meters, storage, now, elapsed),
        );
        assert(metrics::sample_at(set, key) == metrics::sample_at(samples, key));
    } else {
        lemma_left_alone(plus, samples, overview, meters, storage, now, elapsed, key);
    }
}

/// The last step publishes nothing else: no sample of the portal moves, none of
/// the other endpoints, and no count of requests; and of a battery that no
/// answer names, and of a site under labels, nothing does.
pub proof fn lemma_nothing_else_published<F: Fn(Reading, Reading) -> Reading>(
    plus: F,
    samples: Map<Key, Value>,
    overview: Option<OverviewResponse>,
    meters: Option<MetersResponse>,
    storage: Result<StorageDataResponse, MonitoringApiError>,
    now: i64,
    elapsed: Reading,
    key: Key,
)
    requires
        match key.0 {
            Series::MonitoringApiLastRefresh
            | Series::MonitoringApiRefreshDuration
            | Series::MonitoringApiRefreshErrors => key.1 != seq![("endpoint"@, "storage"@)],
            Series::SitePvLifetimeEnergy => key.1.len() > 0,
            Series::BatteryAcGridCharging | Series::MeterLifetimeEnergy => false,
            Series::BatteryFullPackEnergy | Series::BatteryState => storage matches Ok(response)
                ==> forall|b: int|
                0 <= b < response.storage_data.batteries@.len() ==> key.1 != seq![
                    ("battery"@, (#[trigger] response.storage_data.batteries@[b]).serial_number@),
                    ("model"@, response.storage_data.batteries@[b].model_number@),
                ],
            _ => true,
        },
    ensures
        metrics::shows(
            samples,
            published_after(plus, samples, overview, meters, storage, now, elapsed),
            key,
            None,
        ),
{
    let p = |u: UpdateView| u.key != key;
    assert(metrics::endpoint_label("storage"@) =~= seq![("endpoint"@, "storage"@)]);
    assert(LabelTexts::empty().len() == 0);
    if let Ok(response) = storage {
        assert forall|b: int| 0 <= b < response.storage_data.batteries@.len() implies lists::each(
            battery_updates(#[trigger] response.storage_data.batteries@[b]),
            p,
        ) by {
            let battery = response.storage_data.batteries@[b];
            assert(labels_of(battery) =~= seq![
                ("battery"@, battery.serial_number@),
                ("model"@, battery.model_number@),
            ]);
        }
    }
    lemma_left_alone(plus, samples, overview, meters, storage, now, elapsed, key);
}

/// An answer is taken in at the stage that asked for it alone, and what is kept
/// of it until the end is the answer itself, where there is one.
pub proof fn lemma_only_due_taken(fetched: Fetched, stage: Stage)
    ensures
        fetched is Overview ==> (answers(fetched, stage) <==> stage == Stage::Overview),
        fetched is Meters ==> (answers(fetched, stage) <==> stage == Stage::Meters),
        fetched is Storage ==> (answers(fetched, stage) <==> stage == Stage::Storage),
        fetched matches Fetched::Overview(Ok(response)) ==> success(fetched->Overview_0) == Some(
            response,
        ),
        fetched matches Fetched::Overview(Err(_)) ==> success(fetched->Overview_0) is None,
        fetched matches Fetched::Meters(Ok(response)) ==> success(fetched->Meters_0) == Some(
            response,
        ),
        fetched matches Fetched::Meters(Err(_)) ==> success(fetched->Meters_0) is None,
{
}

/// An interval of no length counts as one of a second.
pub proof fn lemma_no_interval(r: u64, near: bool)
    requires
        call_ensures(requests_per_day, (0u64,), r),
        call_ensures(over_budget, (0u64,), near),
    ensures
        r == 259_200,
        near,
{
}

/// The limit of the API comes near exactly where refreshes come more often than
/// every 1033 seconds.
pub proof fn lemma_limit_near(refresh_seconds: u64, r: u64, near: bool)
    requires
        refresh_seconds > 0,
        call_ensures(requests_per_day, (refresh_seconds,), r),
        call_ensures(over_budget, (refresh_seconds,), near),
    ensures
        r * refresh_seconds <= 259_200,
        259_200 < (r + 1) * refresh_seconds,
        near <==> refresh_seconds < 1_033,
{
    lemma_budget(refresh_seconds);
}

/// The last step of a refresh publishes every meter: where its newest reading is
/// a number, its lifetime total is there afterwards, and not below that reading.
pub proof fn lemma_step_publishes<F: Fn(Reading, Reading) -> Reading>(
    refresh: &mut Refresh,
    outcome: Result<StorageDataResponse, MonitoringApiError>,
    now: i64,
    elapsed: Reading,
    remembered: &mut MonitoringApiClient,
    published: &mut AppMetrics,
    plus: &F,
    r: StepReport,
    i: int,
    k: int,
)
    requires
        metrics::is_addition(*plus),
        call_ensures(
            Refresh::step::<F>,
            (refresh, Fetched::Storage(outcome), now, elapsed, remembered, published, plus),
            r,
        ),
        old(refresh).stage == Stage::Storage,
        old(refresh).meters is Some,
        0 <= i < old(refresh).meters->0.meter_energy_details.meters@.len(),
        0 <= k < old(refresh).meters->0.meter_energy_details.meters@[i].values@.len(),
        old(refresh).meters->0.meter_energy_details.meters@[i].values@[k].value matches Some(v) && !v.is_nan(),
        forall|j: int|
            k < j < old(refresh).meters->0.meter_energy_details.meters@[i].values@.len() ==> (
            #[trigger] old(refresh).meters->0.meter_energy_details.meters@[i].values@[j]).value is None,
        forall|key: Key| #[trigger]
            old(published)@.contains_key(key) && key.0 == Series::MeterLifetimeEnergy ==> old(published)@[key] is Reading,
    ensures
        ({
            let meter = old(refresh).meters->0.meter_energy_details.meters@[i];
            let key = (
                Series::MeterLifetimeEnergy,
                seq![
                    ("meter"@, meter.meter_serial_number@),
                    ("inverter"@, meter.connected_solaredge_device_sn@),
                    ("type"@, meter.meter_type@),
                ],
            );
            &&& final(published)@.contains_key(key)
            &&& final(published)@[key] matches Value::Reading(x) && !x.is_nan() && !x.less_than(
                meter.values@[k].value->0,
            )
        }),
        final(refresh).stage == Stage::Finished,
        outcome is Err ==> r.save is None && final(remembered)@ == old(remembered)@,
        outcome is Ok ==> (r.save is Some <==> old(remembered)@.state_file is Some),
        r.save matches Some((file, _)) ==> file@ == old(remembered)@.state_file->0,
{
    lemma_every_meter_published(
        *plus,
        old(published)@,
        old(refresh).overview,
        old(refresh).meters->0,
        outcome,
        now,
        elapsed,
        i,
        k,
    );
}

/// What is to be saved after storage data came holds the counter of every
/// battery as it is remembered from then on.
pub proof fn lemma_step_saves<F: Fn(Reading, Reading) -> Reading>(
    refresh: &mut Refresh,
    response: StorageDataResponse,
    now: i64,
    elapsed: Reading,
    remembered: &mut MonitoringApiClient,
    published: &mut AppMetrics,
    plus: &F,
    r: StepReport,
    serial: Seq<char>,
)
    requires
        metrics::is_addition(*plus),
        call_ensures(
            Refresh::step::<F>,
            (refresh, Fetched::Storage(Ok(response)), now, elapsed, remembered, published, plus),
            r,
        ),
        old(refresh).stage == Stage::Storage,
        old(remembered)@.state_file is Some,
    ensures
        r.save is Some,
        ({
            let (file, state) = r.save->0;
            let kept = final(remembered)@.totals;
            &&& file@ == old(remembered)@.state_file->0
            &&& state.version == 1
            &&& state.batteries@.contains_key(serial) <==> kept.contains_key(serial)
            &&& kept.contains_key(serial) ==> state.batteries@[serial].model@ == kept[serial].model
                && state.batteries@[serial].ac_grid_charging_watt_hours == kept[serial].watt_hours
        }),
{
    let (_, state) = r.save->0;
    client::lemma_saved(final(remembered)@, state, serial);
}

} // verus!
