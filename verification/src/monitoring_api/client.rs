//! Requests to the Monitoring API, what its answers come to, and what is
//! remembered between them.

use vstd::prelude::*;

use crate::metrics;
use crate::metrics::added;
use crate::monitoring_api::models::{MetersResponse, OverviewResponse, StorageDataResponse};
use crate::monitoring_api::state;
use crate::monitoring_api::state::{
    BatteryState, PersistentState, StateError, TotalView, CURRENT_VERSION,
};
use crate::portal::client;
use crate::portal::client::{truncate, Secret};
use crate::reading::Reading;
use crate::serial_map;
use crate::serial_map::SerialMap;
use crate::text;
use crate::text::decimal;
use crate::time;
use crate::time::{
    checked_sub_hours, local_civil, parse_instant, print_civil, print_instant, Timestamp,
};

verus! {

/// Where the Monitoring API is.
pub const BASE: &'static str = "https://monitoringapi.solaredge.com";

/// How the client names itself.
pub const USER_AGENT: &'static str = "solaredge_exporter/0.1.0";

/// How the API wants times to be written.
pub const TIME_FORMAT: &'static str = "%Y-%m-%d %H:%M:%S";

/// What can go wrong with the Monitoring API.
#[derive(Debug)]
pub enum MonitoringApiError {
    /// A request did not get through.
    Http(String),
    /// The answer has a status that tells of a failure.
    Status {
        /// The endpoint.
        endpoint: &'static str,
        /// The status.
        status: u16,
        /// The beginning of the body.
        body: String,
    },
    /// The answer cannot be decoded.
    Json {
        /// The endpoint.
        endpoint: &'static str,
        /// What went wrong.
        message: String,
    },
    /// The answer can be decoded but holds nothing of use.
    EmptyResponse {
        /// The endpoint.
        endpoint: &'static str,
        /// The beginning of the body.
        body: String,
    },
    /// The HTTP client cannot be built.
    BuildClient(String),
    /// A time lies out of range.
    Time(String),
}

/// What can go wrong with the Monitoring API, in texts.
#[verifier::ext_equal]
pub enum MonitoringApiErrorView {
    /// A request did not get through.
    Http(Seq<char>),
    /// The answer has a status that tells of a failure.
    Status {
        /// The endpoint.
        endpoint: Seq<char>,
        /// The status.
        status: u16,
        /// The beginning of the body.
        body: Seq<char>,
    },
    /// The answer cannot be decoded.
    Json {
        /// The endpoint.
        endpoint: Seq<char>,
        /// What went wrong.
        message: Seq<char>,
    },
    /// The answer can be decoded but holds nothing of use.
    EmptyResponse {
        /// The endpoint.
        endpoint: Seq<char>,
        /// The beginning of the body.
        body: Seq<char>,
    },
    /// The HTTP client cannot be built.
    BuildClient(Seq<char>),
    /// A time lies out of range.
    Time(Seq<char>),
}

impl View for MonitoringApiError {
    type V = MonitoringApiErrorView;

    open spec fn view(&self) -> MonitoringApiErrorView {
        match *self {
            MonitoringApiError::Http(m) => MonitoringApiErrorView::Http(m@),
            MonitoringApiError::Status { endpoint, status, body } => {
                MonitoringApiErrorView::Status { endpoint: endpoint@, status, body: body@ }
            },
            MonitoringApiError::Json { endpoint, message } => MonitoringApiErrorView::Json {
                endpoint: endpoint@,
                message: message@,
            },
            MonitoringApiError::EmptyResponse { endpoint, body } => {
                MonitoringApiErrorView::EmptyResponse { endpoint: endpoint@, body: body@ }
            },
            MonitoringApiError::BuildClient(m) => MonitoringApiErrorView::BuildClient(m@),
            MonitoringApiError::Time(m) => MonitoringApiErrorView::Time(m@),
        }
    }
}

/// The counter of a battery.
#[derive(Debug, Clone)]
pub struct BatteryTotal {
    /// Model.
    pub model: String,
    /// Energy charged from the grid, in watt hours.
    pub ac_grid_charging_watt_hours: Reading,
}

impl View for BatteryTotal {
    type V = TotalView;

    open spec fn view(&self) -> TotalView {
        TotalView { model: self.model@, watt_hours: self.ac_grid_charging_watt_hours }
    }
}

/// Counters by serial number, in texts.
pub open spec fn totals_view(totals: Map<Seq<char>, BatteryTotal>) -> Map<Seq<char>, TotalView> {
    Map::new(|serial: Seq<char>| totals.contains_key(serial), |serial: Seq<char>| totals[serial]@)
}

/// The counter of a battery after some energy was added. A counter that is not
/// there yet starts at zero; a model that came is taken over.
pub open spec fn recorded<F: Fn(Reading, Reading) -> Reading>(
    plus: F,
    current: Option<TotalView>,
    model: Seq<char>,
    delta: Reading,
) -> TotalView {
    match current {
        Some(total) => TotalView {
            model: if model.len() > 0 {
                model
            } else {
                total.model
            },
            watt_hours: metrics::sum(plus, total.watt_hours, delta),
        },
        None => TotalView {
            model,
            watt_hours: metrics::sum(plus, Reading::spec_zero(), delta),
        },
    }
}

/// The counter of a battery, where there is one.
pub open spec fn total_at(totals: Map<Seq<char>, TotalView>, serial: Seq<char>) -> Option<
    TotalView,
> {
    if totals.contains_key(serial) {
        Some(totals[serial])
    } else {
        None
    }
}

/// A file of counters, and what came of loading it.
#[derive(Debug)]
pub struct StateFile {
    /// The file.
    pub path: String,
    /// Its content.
    pub loaded: Result<PersistentState, StateError>,
}

/// A request: an address and the parameters of the query.
pub struct ApiRequest {
    /// The address.
    pub url: String,
    /// Names and values of the parameters.
    pub params: Vec<(String, String)>,
}

/// The client of a site.
pub struct MonitoringApiClient {
    site_id: u64,
    api_key: Secret,
    state_file: Option<String>,
    last_storage_end: Option<Timestamp>,
    battery_totals: SerialMap<BatteryTotal>,
}

/// The client of a site, in texts.
#[verifier::ext_equal]
pub struct MonitoringApiClientView {
    /// The site.
    pub site_id: u64,
    /// The key of the API.
    pub api_key: Seq<char>,
    /// Where counters are kept over a restart.
    pub state_file: Option<Seq<char>>,
    /// End of the last window that storage data was queried for, in
    /// nanoseconds since the Unix epoch.
    pub last_storage_end: Option<int>,
    /// Counters by the serial number of the battery.
    pub totals: Map<Seq<char>, TotalView>,
}

impl View for MonitoringApiClient {
    type V = MonitoringApiClientView;

    closed spec fn view(&self) -> MonitoringApiClientView {
        MonitoringApiClientView {
            site_id: self.site_id,
            api_key: self.api_key@,
            state_file: match self.state_file {
                Some(path) => Some(path@),
                None => None,
            },
            last_storage_end: match self.last_storage_end {
                Some(t) => Some(t@),
                None => None,
            },
            totals: totals_view(self.battery_totals@),
        }
    }
}

/// The instant that a text in a file of counters names, if it names one.
pub open spec fn resumed_end(last_storage_end: Option<String>) -> Option<int> {
    match last_storage_end {
        Some(s) => match time::parsed_instant(s@) {
            Some(nanos) => Some(nanos as int),
            None => None,
        },
        None => None,
    }
}

/// The client as it starts. From a file that was loaded it goes on where the
/// file left off; a file that cannot be used is not written either, so that
/// counters are kept in memory for as long as the process lives.
pub open spec fn started(
    site_id: u64,
    api_key: Seq<char>,
    state_file: Option<StateFile>,
) -> MonitoringApiClientView {
    match state_file {
        Some(StateFile { path, loaded: Ok(state) }) => MonitoringApiClientView {
            site_id,
            api_key,
            state_file: Some(path@),
            last_storage_end: resumed_end(state.last_storage_end),
            totals: state::state_totals(state.batteries@),
        },
        _ => MonitoringApiClientView {
            site_id,
            api_key,
            state_file: None,
            last_storage_end: None,
            totals: Map::empty(),
        },
    }
}

/// True of a content of the file that holds all that a client remembers.
pub open spec fn persists(client: MonitoringApiClientView, state: PersistentState) -> bool {
    &&& state.version == CURRENT_VERSION
    &&& match client.last_storage_end {
        Some(nanos) => {
            &&& time::in_range(nanos)
            &&& state.last_storage_end matches Some(s)
            &&& s@ == time::instant_text(nanos as i128)
            &&& time::parsed_instant(s@) == Some(nanos as i128)
        },
        None => state.last_storage_end is None,
    }
    &&& state::state_totals(state.batteries@) == client.totals
}

/// An instant some hours earlier.
pub open spec fn hours_before(nanos: int, hours: int) -> int {
    nanos - hours * 3_600 * time::NANOS_PER_SECOND
}

/// True of an instant in the API's format, as a clock at an offset from UTC
/// shows it.
pub open spec fn shown_with(s: Seq<char>, nanos: int, offset: int) -> bool {
    exists|dt: time::CivilDateTime| #[trigger]
        dt.shown_with(nanos, offset) && dt.wf() && s == time::datetime_text(dt)
}

/// True of an instant in the API's format, as a clock in a time zone shows it.
pub open spec fn shown_in(s: Seq<char>, nanos: int, zone: jiff::tz::TimeZone) -> bool {
    shown_with(s, nanos, time::offset_at(zone, nanos))
}

/// Writes an instant in the API's format, as a clock in a time zone shows it.
fn show(t: &Timestamp, zone: &jiff::tz::TimeZone) -> (r: String)
    ensures
        shown_in(r@, t@, *zone),
{
    let dt = local_civil(t.as_nanosecond(), zone);
    let r = print_civil(dt, TIME_FORMAT);
    assert(dt.shown_with(t@, time::offset_at(*zone, t@)));
    r
}

/// Takes hours from an instant.
fn earlier(now: &Timestamp, hours: i64) -> (r: Result<Timestamp, MonitoringApiError>)
    ensures
        r is Ok == time::in_range(hours_before(now@, hours as int)),
        r matches Ok(t) ==> t@ == hours_before(now@, hours as int),
        r matches Err(e) ==> e@ == MonitoringApiErrorView::Time(
            time::sub_hours_error(now@ as i128, hours),
        ),
{
    let nanos = now.as_nanosecond();
    match checked_sub_hours(nanos, hours) {
        Ok(t) => Ok(Timestamp::at(t)),
        Err(message) => Err(MonitoringApiError::Time(message)),
    }
}

/// The longest time that storage data can be queried for, in hours.
pub const MAX_WINDOW_HOURS: i64 = 168;

/// The time that storage data is queried for at first, in hours.
pub const FIRST_WINDOW_HOURS: i64 = 24;

/// Where the next window begins: at the end of the last one, but no earlier
/// than the API allows.
pub open spec fn capped(last_end: int, now: int) -> int {
    let earliest = hours_before(now, MAX_WINDOW_HOURS as int);
    if last_end < earliest {
        earliest
    } else {
        last_end
    }
}

/// Begins the next window at the end of the last one, but no earlier than the
/// API allows.
pub fn cap_to_seven_days(last_end: &Timestamp, now: &Timestamp) -> (r: Result<
    Timestamp,
    MonitoringApiError,
>)
    ensures
        r is Ok == time::in_range(hours_before(now@, MAX_WINDOW_HOURS as int)),
        r matches Ok(t) ==> t@ == capped(last_end@, now@),
        r matches Err(e) ==> e@ == MonitoringApiErrorView::Time(
            time::sub_hours_error(now@ as i128, MAX_WINDOW_HOURS),
        ),
{
    match earlier(now, MAX_WINDOW_HOURS) {
        Ok(earliest) => {
            if last_end.as_nanosecond() < earliest.as_nanosecond() {
                Ok(earliest)
            } else {
                Ok(*last_end)
            }
        },
        Err(e) => Err(e),
    }
}

/// The last days up to an instant, as the API wants them, both ends in one time
/// zone.
pub fn time_window_days(now: &Timestamp, days: i64, zone: &jiff::tz::TimeZone) -> (r: Result<
    (String, String),
    MonitoringApiError,
>)
    requires
        i64::MIN <= days * 24 <= i64::MAX,
    ensures
        r is Ok == time::in_range(hours_before(now@, days * 24)),
        r matches Ok(window) ==> {
            &&& shown_in(window.0@, hours_before(now@, days * 24), *zone)
            &&& shown_in(window.1@, now@, *zone)
        },
        r matches Err(e) ==> e@ == MonitoringApiErrorView::Time(
            time::sub_hours_error(now@ as i128, (days * 24) as i64),
        ),
{
    match earlier(now, days * 24) {
        Ok(start) => Ok((show(&start, zone), show(now, zone))),
        Err(e) => Err(e),
    }
}

/// Where the next window of storage data begins.
pub open spec fn storage_start(last_end: Option<int>, now: int) -> int {
    match last_end {
        Some(end) => capped(end, now),
        None => hours_before(now, FIRST_WINDOW_HOURS as int),
    }
}

/// How many hours before an instant must lie in range for a window of storage
/// data.
pub open spec fn storage_hours(last_end: Option<int>) -> i64 {
    match last_end {
        Some(_) => MAX_WINDOW_HOURS,
        None => FIRST_WINDOW_HOURS,
    }
}

/// True of the parameters of a query for storage data at an instant: the key,
/// and both ends of the window in one time zone.
pub open spec fn storage_query(
    client: MonitoringApiClientView,
    now: int,
    zone: jiff::tz::TimeZone,
    params: Seq<(Seq<char>, Seq<char>)>,
) -> bool {
    exists|start: Seq<char>, end: Seq<char>| #[trigger]
        shown_in(start, storage_start(client.last_storage_end, now), zone) && #[trigger] shown_in(
            end,
            now,
            zone,
        ) && params == seq![
            key_param(client.api_key),
            ("startTime"@, start),
            ("endTime"@, end),
        ]
}

/// The client after a query for storage data at an instant: the next window
/// begins at that instant only where the query succeeded.
pub open spec fn after_storage(
    client: MonitoringApiClientView,
    success: bool,
    now: int,
) -> MonitoringApiClientView {
    if success {
        MonitoringApiClientView { last_storage_end: Some(now), ..client }
    } else {
        client
    }
}

/// The client after queries for storage data that failed, at some instants.
pub open spec fn after_failures(client: MonitoringApiClientView, times: Seq<int>) ->
    MonitoringApiClientView
    decreases times.len(),
{
    if times.len() == 0 {
        client
    } else {
        after_storage(after_failures(client, times.drop_last()), false, times.last())
    }
}

/// What an answer comes to: its error, or what `decode` makes of its body.
pub open spec fn answered<T, F: FnOnce(&str) -> Result<T, String>>(
    decode: F,
    endpoint: Seq<char>,
    status: u16,
    body: &str,
    r: Result<T, MonitoringApiError>,
) -> bool {
    if !client::successful(status) {
        r is Err && r->Err_0@ == (MonitoringApiErrorView::Status {
            endpoint,
            status,
            body: client::truncated(body@),
        })
    } else {
        match r {
            Ok(value) => decode.ensures((body,), Ok(value)),
            Err(e) => exists|message: String| #[trigger]
                decode.ensures((body,), Err(message)) && e@ == (MonitoringApiErrorView::Json {
                    endpoint,
                    message: message@,
                }),
        }
    }
}

/// What a decoded answer comes to: one that holds nothing of use is an error.
pub open spec fn usable_answer<T>(
    endpoint: Seq<char>,
    body: Seq<char>,
    usable: bool,
    whole: Result<T, MonitoringApiError>,
    r: Result<T, MonitoringApiError>,
) -> bool {
    if whole is Ok && !usable {
        r is Err && r->Err_0@ == (MonitoringApiErrorView::EmptyResponse {
            endpoint,
            body: client::truncated(body),
        })
    } else {
        r == whole
    }
}

/// Makes sense of an answer of the API.
pub fn get_json<T, F: FnOnce(&str) -> Result<T, String>>(
    status: u16,
    body: &str,
    endpoint: &'static str,
    decode: F,
) -> (r: Result<T, MonitoringApiError>)
    requires
        decode.requires((body,)),
    ensures
        answered(decode, endpoint@, status, body, r),
{
    if !(200 <= status && status < 300) {
        return Err(MonitoringApiError::Status { endpoint, status, body: truncate(body) });
    }
    match decode(body) {
        Ok(value) => Ok(value),
        Err(message) => Err(MonitoringApiError::Json { endpoint, message }),
    }
}

/// True of meters of which at least one has a reading.
pub open spec fn any_meter(response: MetersResponse) -> bool {
    exists|i: int|
        0 <= i < response.meter_energy_details.meters@.len() && (
        #[trigger] response.meter_energy_details.meters@[i]).latest_reading() is Some
}

/// True of batteries of which at least one has a value.
pub open spec fn any_battery(response: StorageDataResponse) -> bool {
    exists|i: int|
        0 <= i < response.storage_data.batteries@.len() && battery_has_value(
            #[trigger] response.storage_data.batteries@[i],
        )
}

/// True of a battery that has a value.
pub open spec fn battery_has_value(battery: crate::monitoring_api::models::Battery) -> bool {
    battery.grid_charging() is Some || battery.full_pack_energy() is Some || battery.state() is Some
}

fn has_meter(response: &MetersResponse) -> (r: bool)
    ensures
        r == any_meter(*response),
{
    let meters = &response.meter_energy_details.meters;
    let mut i: usize = 0;
    while i < meters.len()
        invariant
            i <= meters.len(),
            meters == response.meter_energy_details.meters,
            forall|k: int|
                0 <= k < i ==> (
                #[trigger] response.meter_energy_details.meters@[k]).latest_reading() is None,
        decreases meters.len() - i,
    {
        if meters[i].latest_value().is_some() {
            assert(response.meter_energy_details.meters@[i as int].latest_reading() is Some);
            return true;
        }
        i += 1;
    }
    false
}

fn has_battery(response: &StorageDataResponse) -> (r: bool)
    ensures
        r == any_battery(*response),
{
    let batteries = &response.storage_data.batteries;
    let mut i: usize = 0;
    while i < batteries.len()
        invariant
            i <= batteries.len(),
            batteries == response.storage_data.batteries,
            forall|k: int|
                0 <= k < i ==> !battery_has_value(
                    #[trigger] response.storage_data.batteries@[k],
                ),
        decreases batteries.len() - i,
    {
        let battery = &batteries[i];
        if battery.latest_grid_charging().is_some() || battery.latest_full_pack_energy().is_some()
            || battery.latest_state().is_some() {
            assert(battery_has_value(response.storage_data.batteries@[i as int]));
            return true;
        }
        i += 1;
    }
    false
}

/// Makes sense of the answer to a query for the overview. One without the
/// lifetime energy is an error, so that it does not go unnoticed.
pub fn overview_answer<F: FnOnce(&str) -> Result<OverviewResponse, String>>(
    status: u16,
    body: &str,
    decode: F,
) -> (r: Result<OverviewResponse, MonitoringApiError>)
    requires
        decode.requires((body,)),
    ensures
        exists|whole: Result<OverviewResponse, MonitoringApiError>| #[trigger]
            answered(decode, "overview"@, status, body, whole) && usable_answer(
                "overview"@,
                body@,
                whole is Ok && whole->Ok_0.lifetime_energy() is Some,
                whole,
                r,
            ),
{
    let whole = get_json(status, body, "overview", decode);
    let ghost kept = whole;
    assert(answered(decode, "overview"@, status, body, kept));
    match whole {
        Ok(response) => {
            if response.overview.life_time_data.energy.is_none() {
                Err(
                    MonitoringApiError::EmptyResponse {
                        endpoint: "overview",
                        body: truncate(body),
                    },
                )
            } else {
                Ok(response)
            }
        },
        Err(e) => Err(e),
    }
}

/// Makes sense of the answer to a query for the meters. One without any
/// reading is an error.
pub fn meters_answer<F: FnOnce(&str) -> Result<MetersResponse, String>>(
    status: u16,
    body: &str,
    decode: F,
) -> (r: Result<MetersResponse, MonitoringApiError>)
    requires
        decode.requires((body,)),
    ensures
        exists|whole: Result<MetersResponse, MonitoringApiError>| #[trigger]
            answered(decode, "meters"@, status, body, whole) && usable_answer(
                "meters"@,
                body@,
                whole is Ok && any_meter(whole->Ok_0),
                whole,
                r,
            ),
{
    let whole = get_json(status, body, "meters", decode);
    let ghost kept = whole;
    assert(answered(decode, "meters"@, status, body, kept));
    match whole {
        Ok(response) => {
            if !has_meter(&response) {
                Err(
                    MonitoringApiError::EmptyResponse {
                        endpoint: "meters",
                        body: truncate(body),
                    },
                )
            } else {
                Ok(response)
            }
        },
        Err(e) => Err(e),
    }
}

proof fn lemma_total_inserted(
    totals: Map<Seq<char>, BatteryTotal>,
    serial: Seq<char>,
    total: BatteryTotal,
)
    ensures
        totals_view(totals.insert(serial, total)) == totals_view(totals).insert(serial, total@),
{
    assert(totals_view(totals.insert(serial, total)) =~= totals_view(totals).insert(
        serial,
        total@,
    ));
}

proof fn lemma_state_inserted(
    batteries: Map<Seq<char>, BatteryState>,
    serial: Seq<char>,
    total: BatteryState,
)
    ensures
        state::state_totals(batteries.insert(serial, total)) == state::state_totals(
            batteries,
        ).insert(serial, total@),
{
    assert(state::state_totals(batteries.insert(serial, total)) =~= state::state_totals(
        batteries,
    ).insert(serial, total@));
}

/// Copies counters.
fn copied_totals(totals: &SerialMap<BatteryTotal>) -> (r: SerialMap<BatteryTotal>)
    ensures
        totals_view(r@) == totals_view(totals@),
{
    let entries = totals.entries();
    let mut r: SerialMap<BatteryTotal> = SerialMap::new();
    let mut i: usize = 0;
    assert(totals_view(r@) =~= totals_view(serial_map::map_of(entries@.take(0))));
    while i < entries.len()
        invariant
            i <= entries.len(),
            serial_map::distinct_serials(entries@),
            totals_view(r@) == totals_view(serial_map::map_of(entries@.take(i as int))),
        decreases entries.len() - i,
    {
        let total = BatteryTotal {
            model: entries[i].1.model.clone(),
            ac_grid_charging_watt_hours: entries[i].1.ac_grid_charging_watt_hours,
        };
        proof {
            let serial = entries@[i as int].0@;
            serial_map::lemma_map_of_prefix(entries@, i as int);
            lemma_total_inserted(r@, serial, total);
            lemma_total_inserted(
                serial_map::map_of(entries@.take(i as int)),
                serial,
                entries@[i as int].1,
            );
        }
        r.insert(entries[i].0.clone(), total);
        i += 1;
    }
    assert(entries@.take(i as int) =~= entries@);
    r
}

/// Writes counters down for the file.
fn written_totals(totals: &SerialMap<BatteryTotal>) -> (r: SerialMap<BatteryState>)
    ensures
        state::state_totals(r@) == totals_view(totals@),
{
    let entries = totals.entries();
    let mut r: SerialMap<BatteryState> = SerialMap::new();
    let mut i: usize = 0;
    assert(state::state_totals(r@) =~= totals_view(serial_map::map_of(entries@.take(0))));
    while i < entries.len()
        invariant
            i <= entries.len(),
            serial_map::distinct_serials(entries@),
            state::state_totals(r@) == totals_view(serial_map::map_of(entries@.take(i as int))),
        decreases entries.len() - i,
    {
        let total = BatteryState {
            model: entries[i].1.model.clone(),
            ac_grid_charging_watt_hours: entries[i].1.ac_grid_charging_watt_hours,
        };
        proof {
            let serial = entries@[i as int].0@;
            serial_map::lemma_map_of_prefix(entries@, i as int);
            lemma_state_inserted(r@, serial, total);
            lemma_total_inserted(
                serial_map::map_of(entries@.take(i as int)),
                serial,
                entries@[i as int].1,
            );
        }
        r.insert(entries[i].0.clone(), total);
        i += 1;
    }
    assert(entries@.take(i as int) =~= entries@);
    r
}

/// Takes counters over from the file.
fn loaded_totals(batteries: &SerialMap<BatteryState>) -> (r: SerialMap<BatteryTotal>)
    ensures
        totals_view(r@) == state::state_totals(batteries@),
{
    let entries = batteries.entries();
    let mut r: SerialMap<BatteryTotal> = SerialMap::new();
    let mut i: usize = 0;
    assert(totals_view(r@) =~= state::state_totals(serial_map::map_of(entries@.take(0))));
    while i < entries.len()
        invariant
            i <= entries.len(),
            serial_map::distinct_serials(entries@),
            totals_view(r@) == state::state_totals(serial_map::map_of(entries@.take(i as int))),
        decreases entries.len() - i,
    {
        let total = BatteryTotal {
            model: entries[i].1.model.clone(),
            ac_grid_charging_watt_hours: entries[i].1.ac_grid_charging_watt_hours,
        };
        proof {
            let serial = entries@[i as int].0@;
            serial_map::lemma_map_of_prefix(entries@, i as int);
            lemma_total_inserted(r@, serial, total);
            lemma_state_inserted(
                serial_map::map_of(entries@.take(i as int)),
                serial,
                entries@[i as int].1,
            );
        }
        r.insert(entries[i].0.clone(), total);
        i += 1;
    }
    assert(entries@.take(i as int) =~= entries@);
    r
}

/// What a file of counters leaves a client with: where it writes, the end of
/// the last window, and the counters.
fn load_state(state_file: Option<StateFile>) -> (r: (
    Option<String>,
    Option<Timestamp>,
    SerialMap<BatteryTotal>,
))
    ensures
        match state_file {
            Some(StateFile { path, loaded: Ok(state) }) => {
                &&& r.0 == Some(path)
                &&& r.1 is Some == resumed_end(state.last_storage_end) is Some
                &&& r.1 matches Some(t) ==> Some(t@) == resumed_end(state.last_storage_end)
                &&& totals_view(r.2@) == state::state_totals(state.batteries@)
            },
            _ => {
                &&& r.0 is None
                &&& r.1 is None
                &&& totals_view(r.2@) == Map::<Seq<char>, TotalView>::empty()
            },
        },
{
    match state_file {
        Some(StateFile { path, loaded: Ok(state) }) => {
            let last_end = match &state.last_storage_end {
                Some(s) => match parse_instant(s.as_str()) {
                    Some(nanos) => Some(Timestamp::at(nanos)),
                    None => None,
                },
                None => None,
            };
            (Some(path), last_end, loaded_totals(&state.batteries))
        },
        _ => {
            let totals: SerialMap<BatteryTotal> = SerialMap::new();
            assert(totals_view(totals@) =~= Map::<Seq<char>, TotalView>::empty());
            (None, None, totals)
        },
    }
}

/// Where the overview of a site is.
pub open spec fn site_address(site_id: u64, what: Seq<char>) -> Seq<char> {
    BASE@ + "/site/"@ + text::decimal_digits(site_id as nat) + what
}

/// The parameter that carries the key of the API, in texts.
pub open spec fn key_param(api_key: Seq<char>) -> (Seq<char>, Seq<char>) {
    ("api_key"@, api_key)
}

fn push_param(params: &mut Vec<(String, String)>, name: &str, value: String)
    ensures
        metrics::label_texts(final(params)@) == metrics::label_texts(old(params)@).push(
            (name@, value@),
        ),
{
    let ghost before = metrics::label_texts(params@);
    let ghost pair = (name@, value@);
    params.push((name.to_owned(), value));
    assert(metrics::label_texts(params@) =~= before.push(pair));
}

impl MonitoringApiClient {
    /// A client that goes on where its file of counters left off.
    pub fn new(site_id: u64, api_key: Secret, state_file: Option<StateFile>) -> (r:
        MonitoringApiClient)
        ensures
            r@ == started(site_id, api_key@, state_file),
    {
        let (state_file, last_storage_end, battery_totals) = load_state(state_file);
        MonitoringApiClient { site_id, api_key, state_file, last_storage_end, battery_totals }
    }

    fn address(&self, what: &str) -> (r: String)
        ensures
            r@ == site_address(self@.site_id, what@),
    {
        let mut r = BASE.to_owned();
        r.append("/site/");
        r.append(decimal(self.site_id).as_str());
        r.append(what);
        r
    }

    fn keyed(&self) -> (r: Vec<(String, String)>)
        ensures
            metrics::label_texts(r@) == seq![key_param(self@.api_key)],
    {
        let r = vec![("api_key".to_owned(), self.api_key.expose().to_owned())];
        assert(metrics::label_texts(r@) =~= seq![key_param(self@.api_key)]);
        r
    }

    /// The query for the overview of the site.
    pub fn overview_request(&self) -> (r: ApiRequest)
        ensures
            r.url@ == site_address(self@.site_id, "/overview"@),
            metrics::label_texts(r.params@) == seq![key_param(self@.api_key)],
    {
        ApiRequest { url: self.address("/overview"), params: self.keyed() }
    }

    /// The query for the meters of the site over the last two days, in a time
    /// zone.
    pub fn meters_request(&self, now: &Timestamp, zone: &jiff::tz::TimeZone) -> (r: Result<
        ApiRequest,
        MonitoringApiError,
    >)
        ensures
            r is Ok == time::in_range(hours_before(now@, 48)),
            r matches Ok(request) ==> {
                &&& request.url@ == site_address(self@.site_id, "/meters"@)
                &&& exists|start: Seq<char>, end: Seq<char>| #[trigger]
                    shown_in(start, hours_before(now@, 48), *zone) && #[trigger] shown_in(
                        end,
                        now@,
                        *zone,
                    ) && metrics::label_texts(request.params@) == seq![
                        key_param(self@.api_key),
                        ("startTime"@, start),
                        ("endTime"@, end),
                        ("timeUnit"@, "DAY"@),
                        ("meters"@, "Production,Consumption,FeedIn,Purchased"@),
                    ]
            },
            r matches Err(e) ==> e@ == MonitoringApiErrorView::Time(
                time::sub_hours_error(now@ as i128, 48),
            ),
    {
        let (start, end) = match time_window_days(now, 2, zone) {
            Ok(window) => window,
            Err(e) => {
                return Err(e);
            },
        };
        let ghost (from, to) = (start@, end@);
        let mut params = self.keyed();
        push_param(&mut params, "startTime", start);
        push_param(&mut params, "endTime", end);
        push_param(&mut params, "timeUnit", "DAY".to_owned());
        push_param(&mut params, "meters", "Production,Consumption,FeedIn,Purchased".to_owned());
        assert(shown_in(from, hours_before(now@, 48), *zone) && shown_in(to, now@, *zone));
        assert(metrics::label_texts(params@) =~= seq![
            key_param(self@.api_key),
            ("startTime"@, from),
            ("endTime"@, to),
            ("timeUnit"@, "DAY"@),
            ("meters"@, "Production,Consumption,FeedIn,Purchased"@),
        ]);
        Ok(ApiRequest { url: self.address("/meters"), params })
    }

    /// The end of the last window of storage data, where there was one.
    pub fn last_storage_end(&self) -> (r: Option<Timestamp>)
        ensures
            match r {
                Some(t) => self@.last_storage_end == Some(t@),
                None => self@.last_storage_end is None,
            },
    {
        self.last_storage_end
    }

    /// Where the next window of storage data begins: at the end of the last
    /// one, or a day ago where there was none.
    pub fn storage_window(&self, now: &Timestamp) -> (r: Result<Timestamp, MonitoringApiError>)
        ensures
            r is Ok == time::in_range(
                hours_before(now@, storage_hours(self@.last_storage_end) as int),
            ),
            r matches Ok(start) ==> start@ == storage_start(self@.last_storage_end, now@),
            r matches Err(e) ==> e@ == MonitoringApiErrorView::Time(
                time::sub_hours_error(now@ as i128, storage_hours(self@.last_storage_end)),
            ),
    {
        match &self.last_storage_end {
            Some(end) => cap_to_seven_days(end, now),
            None => earlier(now, FIRST_WINDOW_HOURS),
        }
    }

    /// The query for storage data from the end of the last window on, in a time
    /// zone.
    pub fn storage_request(&self, now: &Timestamp, zone: &jiff::tz::TimeZone) -> (r: Result<
        ApiRequest,
        MonitoringApiError,
    >)
        ensures
            r is Ok == time::in_range(
                hours_before(now@, storage_hours(self@.last_storage_end) as int),
            ),
            r matches Ok(request) ==> {
                &&& request.url@ == site_address(self@.site_id, "/storageData"@)
                &&& storage_query(self@, now@, *zone, metrics::label_texts(request.params@))
            },
            r matches Err(e) ==> e@ == MonitoringApiErrorView::Time(
                time::sub_hours_error(now@ as i128, storage_hours(self@.last_storage_end)),
            ),
    {
        let begin = match self.storage_window(now) {
            Ok(begin) => begin,
            Err(e) => {
                return Err(e);
            },
        };
        let start = show(&begin, zone);
        let end = show(now, zone);
        let ghost (from, to) = (start@, end@);
        let mut params = self.keyed();
        push_param(&mut params, "startTime", start);
        push_param(&mut params, "endTime", end);
        assert(shown_in(from, begin@, *zone) && shown_in(to, now@, *zone));
        assert(metrics::label_texts(params@) =~= seq![
            key_param(self@.api_key),
            ("startTime"@, from),
            ("endTime"@, to),
        ]);
        Ok(ApiRequest { url: self.address("/storageData"), params })
    }

    /// Makes sense of the answer to a query for storage data that was made at
    /// an instant. Only where it holds something of use does the next window
    /// begin at that instant.
    pub fn storage_answer<F: FnOnce(&str) -> Result<StorageDataResponse, String>>(
        &mut self,
        status: u16,
        body: &str,
        decode: F,
        now: &Timestamp,
    ) -> (r: Result<StorageDataResponse, MonitoringApiError>)
        requires
            decode.requires((body,)),
        ensures
            exists|whole: Result<StorageDataResponse, MonitoringApiError>| #[trigger]
                answered(decode, "storage"@, status, body, whole) && usable_answer(
                    "storage"@,
                    body@,
                    whole is Ok && any_battery(whole->Ok_0),
                    whole,
                    r,
                ),
            final(self)@ == after_storage(old(self)@, r is Ok, now@),
    {
        let whole = get_json(status, body, "storage", decode);
        let ghost kept = whole;
        assert(answered(decode, "storage"@, status, body, kept));
        match whole {
            Ok(response) => {
                if !has_battery(&response) {
                    Err(
                        MonitoringApiError::EmptyResponse {
                            endpoint: "storage",
                            body: truncate(body),
                        },
                    )
                } else {
                    self.last_storage_end = Some(*now);
                    Ok(response)
                }
            },
            Err(e) => Err(e),
        }
    }

    /// Adds energy to the counter of a battery.
    pub fn record_grid_charging<F: Fn(Reading, Reading) -> Reading>(
        &mut self,
        serial: &str,
        model: &str,
        delta: Reading,
        plus: &F,
    )
        requires
            metrics::is_addition(*plus),
        ensures
            final(self)@ == (MonitoringApiClientView {
                totals: old(self)@.totals.insert(
                    serial@,
                    recorded(*plus, total_at(old(self)@.totals, serial@), model@, delta),
                ),
                ..old(self)@
            }),
    {
        let total = match self.battery_totals.get(serial) {
            Some(current) => BatteryTotal {
                model: if model.is_empty() {
                    current.model.clone()
                } else {
                    model.to_owned()
                },
                ac_grid_charging_watt_hours: added(
                    plus,
                    current.ac_grid_charging_watt_hours,
                    delta,
                ),
            },
            None => BatteryTotal {
                model: model.to_owned(),
                ac_grid_charging_watt_hours: added(plus, Reading::zero(), delta),
            },
        };
        let ghost before = self@;
        self.battery_totals.insert(serial.to_owned(), total);
        assert(self@.totals =~= before.totals.insert(serial@, total@));
    }

    /// The counters.
    pub fn persisted_battery_totals(&self) -> (r: SerialMap<BatteryTotal>)
        ensures
            totals_view(r@) == self@.totals,
    {
        copied_totals(&self.battery_totals)
    }

    /// What is to be saved and where, if counters are kept over a restart.
    pub fn persist_state(&self) -> (r: Option<(String, PersistentState)>)
        ensures
            match self@.state_file {
                Some(path) => r matches Some((file, state)) && file@ == path && persists(
                    self@,
                    state,
                ),
                None => r is None,
            },
    {
        match &self.state_file {
            None => None,
            Some(path) => {
                let last_storage_end = match &self.last_storage_end {
                    Some(t) => Some(print_instant(t.as_nanosecond())),
                    None => None,
                };
                let state = PersistentState {
                    version: CURRENT_VERSION,
                    last_storage_end,
                    batteries: written_totals(&self.battery_totals),
                };
                Some((path.clone(), state))
            },
        }
    }
}

/// A restart loses nothing: a client that starts from what another one saved
/// has its counters, and its next window begins where the last one of the
/// other ended.
pub proof fn lemma_restart_resumes(
    client: MonitoringApiClientView,
    path: String,
    state: PersistentState,
)
    requires
        client.state_file == Some(path@),
        persists(client, state),
    ensures
        started(
            client.site_id,
            client.api_key,
            Some(StateFile { path, loaded: Ok(state) }),
        ) == client,
{
}

/// Windows of storage data leave no gap and do not overlap: after an answer to
/// a query at one instant the next window begins at that instant, unless it
/// lies longer ago than the API allows.
pub proof fn lemma_windows_meet(before: int, now: int)
    requires
        hours_before(now, MAX_WINDOW_HOURS as int) <= before,
    ensures
        storage_start(Some(before), now) == before,
{
}

/// An instant has one text at one offset from UTC.
pub proof fn lemma_one_text_shown(a: Seq<char>, b: Seq<char>, nanos: int, offset: int)
    requires
        shown_with(a, nanos, offset),
        shown_with(b, nanos, offset),
    ensures
        a == b,
{
    let x = choose|dt: time::CivilDateTime| #[trigger]
        dt.shown_with(nanos, offset) && dt.wf() && a == time::datetime_text(dt);
    let y = choose|dt: time::CivilDateTime| #[trigger]
        dt.shown_with(nanos, offset) && dt.wf() && b == time::datetime_text(dt);
    time::lemma_one_time_shown(x, y, nanos, offset);
}

proof fn lemma_failures_change_nothing(client: MonitoringApiClientView, times: Seq<int>)
    ensures
        after_failures(client, times) == client,
    decreases times.len(),
{
    if times.len() > 0 {
        lemma_failures_change_nothing(client, times.drop_last());
    }
}

/// The texts of windows meet too: after a query that succeeded and any number
/// of queries that failed, the next one, made in the same time zone, begins with
/// the text that the successful one ended with, unless that lies longer ago than
/// the API allows.
pub proof fn lemma_window_texts_meet(
    client: MonitoringApiClientView,
    before: int,
    failed: Seq<int>,
    now: int,
    zone: jiff::tz::TimeZone,
    first: Seq<(Seq<char>, Seq<char>)>,
    second: Seq<(Seq<char>, Seq<char>)>,
)
    requires
        hours_before(now, MAX_WINDOW_HOURS as int) <= before,
        storage_query(client, before, zone, first),
        storage_query(
            after_failures(after_storage(client, true, before), failed),
            now,
            zone,
            second,
        ),
    ensures
        first[2].0 == "endTime"@,
        second[1].0 == "startTime"@,
        second[1].1 == first[2].1,
{
    lemma_failures_change_nothing(after_storage(client, true, before), failed);
    lemma_windows_meet(before, now);
    lemma_one_text_shown(second[1].1, first[2].1, before, time::offset_at(zone, before));
}

/// A window of storage data is never longer than the API allows, and never
/// ends before it begins.
pub proof fn lemma_window_bounded(last_end: Option<int>, now: int)
    requires
        last_end matches Some(end) ==> end <= now,
    ensures
        hours_before(now, MAX_WINDOW_HOURS as int) <= storage_start(last_end, now) <= now,
{
}

/// The next window of storage data begins at the end of the last one, but no
/// more than seven days ago; the first one begins a day ago. All in nanoseconds.
pub proof fn lemma_window_begins(last_end: int, now: int)
    ensures
        storage_start(None, now) == now - 86_400_000_000_000,
        now - 604_800_000_000_000 <= last_end ==> storage_start(Some(last_end), now) == last_end,
        last_end < now - 604_800_000_000_000 ==> storage_start(Some(last_end), now) == now
            - 604_800_000_000_000,
{
}

/// The window that is asked for lies in range wherever seven days before it do;
/// the first one wherever a day before it does.
pub proof fn lemma_window_in_range(last_end: Option<int>, now: int)
    ensures
        time::in_range(hours_before(now, storage_hours(last_end) as int)) == time::in_range(
            if last_end is Some {
                now - 604_800_000_000_000
            } else {
                now - 86_400_000_000_000
            },
        ),
{
}

/// An answer with a status below 200, or of 300 and above, is an error that
/// tells the endpoint, the status and the body, whatever the body would decode
/// to. Any other is what its body decodes to, and an error that tells the
/// endpoint where it does not decode.
pub proof fn lemma_answer_told<T, F: FnOnce(&str) -> Result<T, String>>(
    decode: F,
    endpoint: Seq<char>,
    status: u16,
    body: &str,
    r: Result<T, MonitoringApiError>,
)
    requires
        answered(decode, endpoint, status, body, r),
    ensures
        status <= 199 || 300 <= status ==> r is Err && r->Err_0@ == (
        MonitoringApiErrorView::Status { endpoint, status, body: client::truncated(body@) }),
        200 <= status <= 299 ==> match r {
            Ok(value) => decode.ensures((body,), Ok(value)),
            Err(e) => exists|message: String| #[trigger]
                decode.ensures((body,), Err(message)) && e@ == (MonitoringApiErrorView::Json {
                    endpoint,
                    message: message@,
                }),
        },
{
}

/// What can be used is taken as it is, what cannot is an error that tells the
/// endpoint and the body, and an error stays the error that it was.
pub proof fn lemma_useless_told<T>(
    endpoint: Seq<char>,
    body: Seq<char>,
    usable: bool,
    whole: Result<T, MonitoringApiError>,
    r: Result<T, MonitoringApiError>,
)
    requires
        usable_answer(endpoint, body, usable, whole, r),
    ensures
        whole is Err ==> r == whole,
        whole is Ok && usable ==> r == whole,
        whole is Ok && !usable ==> r is Err && r->Err_0@ == (
        MonitoringApiErrorView::EmptyResponse { endpoint, body: client::truncated(body) }),
{
}

/// Meters are of use where one entry of one of them has a value, and of none
/// where no entry of any has one.
pub proof fn lemma_meters_of_use(response: MetersResponse)
    ensures
        any_meter(response) <==> exists|i: int, j: int|
            0 <= i < response.meter_energy_details.meters@.len() && 0 <= j
                < response.meter_energy_details.meters@[i].values@.len() && (
            #[trigger] response.meter_energy_details.meters@[i].values@[j]).value is Some,
{
    let meters = response.meter_energy_details.meters@;
    if any_meter(response) {
        let i = choose|i: int|
            0 <= i < meters.len() && (#[trigger] meters[i]).latest_reading() is Some;
        if forall|j: int|
            0 <= j < meters[i].values@.len() ==> (#[trigger] meters[i].values@[j]).value is None {
            crate::monitoring_api::models::lemma_no_reading(meters[i]);
        }
    }
    if exists|i: int, j: int|
        0 <= i < meters.len() && 0 <= j < meters[i].values@.len() && (
        #[trigger] meters[i].values@[j]).value is Some {
        let (i, j) = choose|i: int, j: int|
            0 <= i < meters.len() && 0 <= j < meters[i].values@.len() && (
            #[trigger] meters[i].values@[j]).value is Some;
        lemma_some_reading(meters[i], j);
    }
}

proof fn lemma_some_reading(meter: crate::monitoring_api::models::Meter, j: int)
    requires
        0 <= j < meter.values@.len(),
        meter.values@[j].value is Some,
    ensures
        meter.latest_reading() is Some,
    decreases meter.values@.len() - j,
{
    if exists|k: int| j < k < meter.values@.len() && (#[trigger] meter.values@[k]).value is Some {
        let k = choose|k: int|
            j < k < meter.values@.len() && (#[trigger] meter.values@[k]).value is Some;
        lemma_some_reading(meter, k);
    } else {
        crate::monitoring_api::models::lemma_newest_reading(meter, j);
    }
}

/// Storage data is of use where one telemetry of one battery has one of its
/// three values, and of none where no telemetry of any has one.
pub proof fn lemma_batteries_of_use(response: StorageDataResponse)
    ensures
        any_battery(response) <==> exists|i: int, j: int|
            0 <= i < response.storage_data.batteries@.len() && 0 <= j
                < response.storage_data.batteries@[i].telemetries@.len() && ((
            #[trigger] response.storage_data.batteries@[i].telemetries@[j]).ac_grid_charging is Some
                || response.storage_data.batteries@[i].telemetries@[j].full_pack_energy_available is Some
                || response.storage_data.batteries@[i].telemetries@[j].battery_state is Some),
{
    let batteries = response.storage_data.batteries@;
    if any_battery(response) {
        let i = choose|i: int| 0 <= i < batteries.len() && battery_has_value(#[trigger] batteries[i]);
        let all = batteries[i].telemetries@;
        if !(exists|j: int|
            0 <= j < all.len() && ((#[trigger] all[j]).ac_grid_charging is Some
                || all[j].full_pack_energy_available is Some || all[j].battery_state is Some)) {
            crate::monitoring_api::models::lemma_nothing_measured(batteries[i]);
        }
        let j = choose|j: int|
            0 <= j < all.len() && ((#[trigger] all[j]).ac_grid_charging is Some
                || all[j].full_pack_energy_available is Some || all[j].battery_state is Some);
        assert(batteries[i].telemetries@[j] == all[j]);
    }
    if exists|i: int, j: int|
        0 <= i < batteries.len() && 0 <= j < batteries[i].telemetries@.len() && ((
        #[trigger] batteries[i].telemetries@[j]).ac_grid_charging is Some
            || batteries[i].telemetries@[j].full_pack_energy_available is Some
            || batteries[i].telemetries@[j].battery_state is Some) {
        let (i, j) = choose|i: int, j: int|
            0 <= i < batteries.len() && 0 <= j < batteries[i].telemetries@.len() && ((
            #[trigger] batteries[i].telemetries@[j]).ac_grid_charging is Some
                || batteries[i].telemetries@[j].full_pack_energy_available is Some
                || batteries[i].telemetries@[j].battery_state is Some);
        lemma_some_value(batteries[i], j);
        assert(battery_has_value(batteries[i]));
    }
}

proof fn lemma_some_value(battery: crate::monitoring_api::models::Battery, j: int)
    requires
        0 <= j < battery.telemetries@.len(),
        battery.telemetries@[j].ac_grid_charging is Some
            || battery.telemetries@[j].full_pack_energy_available is Some
            || battery.telemetries@[j].battery_state is Some,
    ensures
        battery_has_value(battery),
    decreases battery.telemetries@.len() - j,
{
    let all = battery.telemetries@;
    if exists|k: int|
        j < k < all.len() && ((#[trigger] all[k]).ac_grid_charging is Some
            || all[k].full_pack_energy_available is Some || all[k].battery_state is Some) {
        let k = choose|k: int|
            j < k < all.len() && ((#[trigger] all[k]).ac_grid_charging is Some
                || all[k].full_pack_energy_available is Some || all[k].battery_state is Some);
        lemma_some_value(battery, k);
    } else {
        assert forall|k: int| j < k < all.len() implies (
        #[trigger] all[k]).ac_grid_charging is None && all[k].full_pack_energy_available is None
            && all[k].battery_state is None by {}
        if all[j].ac_grid_charging is Some {
            crate::monitoring_api::models::lemma_newest_grid_charging(battery, j);
        } else if all[j].full_pack_energy_available is Some {
            crate::monitoring_api::models::lemma_newest_full_pack_energy(battery, j);
        } else {
            crate::monitoring_api::models::lemma_newest_state(battery, j);
        }
    }
}

/// What is saved holds every counter that is remembered, with its model and its
/// energy, and no other; and the end of the last window, where there was one.
pub proof fn lemma_saved(client: MonitoringApiClientView, state: PersistentState, serial: Seq<char>)
    requires
        persists(client, state),
    ensures
        state.version == 1,
        state.batteries@.contains_key(serial) <==> client.totals.contains_key(serial),
        client.totals.contains_key(serial) ==> state.batteries@[serial].model@
            == client.totals[serial].model && state.batteries@[serial].ac_grid_charging_watt_hours
            == client.totals[serial].watt_hours,
        client.last_storage_end is None <==> state.last_storage_end is None,
        client.last_storage_end matches Some(nanos) ==> time::parsed_instant(
            state.last_storage_end->0@,
        ) == Some(nanos as i128),
{
    let saved = state::state_totals(state.batteries@);
    assert(saved.contains_key(serial) == client.totals.contains_key(serial));
    if saved.contains_key(serial) {
        assert(saved[serial] == state.batteries@[serial]@);
    }
}

/// A client that starts from a file has every counter of the file, with its
/// model and its energy, and no other, and goes on writing to the file; one that
/// starts from none, or from one that cannot be used, has no counter and writes
/// nowhere.
pub proof fn lemma_started(
    site_id: u64,
    api_key: Seq<char>,
    state_file: Option<StateFile>,
    serial: Seq<char>,
)
    ensures
        ({
            let client = started(site_id, api_key, state_file);
            &&& client.site_id == site_id
            &&& client.api_key == api_key
            &&& (state_file is None || state_file->0.loaded is Err) ==> client.state_file is None
                && client.last_storage_end is None && !client.totals.contains_key(serial)
            &&& (state_file is Some && state_file->0.loaded is Ok) ==> {
                let state = state_file->0.loaded->Ok_0;
                &&& client.state_file == Some(state_file->0.path@)
                &&& client.totals.contains_key(serial) <==> state.batteries@.contains_key(serial)
                &&& client.totals.contains_key(serial) ==> client.totals[serial].model
                    == state.batteries@[serial].model@ && client.totals[serial].watt_hours
                    == state.batteries@[serial].ac_grid_charging_watt_hours
                &&& client.last_storage_end == match state.last_storage_end {
                    Some(s) => match time::parsed_instant(s@) {
                        Some(nanos) => Some(nanos as int),
                        None => None,
                    },
                    None => None,
                }
            }
        }),
{
    if state_file is Some && state_file->0.loaded is Ok {
        let state = state_file->0.loaded->Ok_0;
        let client = started(site_id, api_key, state_file);
        assert(client.totals == state::state_totals(state.batteries@));
        if client.totals.contains_key(serial) {
            assert(client.totals[serial] == state.batteries@[serial]@);
        }
    }
}

/// Energy that is recorded is added to the counter of its battery, which starts
/// at zero. The counter goes under the model that came last, unless none came.
pub proof fn lemma_recorded<F: Fn(Reading, Reading) -> Reading>(
    plus: F,
    current: Option<TotalView>,
    model: Seq<char>,
    delta: Reading,
    total: Reading,
)
    requires
        metrics::is_addition(plus),
        match current {
            Some(before) => plus.ensures((before.watt_hours, delta), total),
            None => plus.ensures((Reading { bits: 0 }, delta), total),
        },
    ensures
        ({
            let after = recorded(plus, current, model, delta);
            &&& after.watt_hours == total
            &&& model.len() > 0 ==> after.model == model
            &&& model.len() == 0 && current is Some ==> after.model == current->0.model
            &&& model.len() == 0 && current is None ==> after.model.len() == 0
        }),
{
    match current {
        Some(before) => metrics::lemma_sum(plus, before.watt_hours, delta, total),
        None => metrics::lemma_sum(plus, Reading { bits: 0 }, delta, total),
    }
}

/// A query for storage data that succeeds moves the end of the last window to
/// its instant, and one that fails leaves it; neither changes anything else.
pub proof fn lemma_window_moved(client: MonitoringApiClientView, success: bool, now: int)
    ensures
        success ==> after_storage(client, success, now).last_storage_end == Some(now),
        !success ==> after_storage(client, success, now).last_storage_end == client.last_storage_end,
        after_storage(client, success, now).totals == client.totals,
        after_storage(client, success, now).site_id == client.site_id,
        after_storage(client, success, now).api_key == client.api_key,
        after_storage(client, success, now).state_file == client.state_file,
{
}

/// A query for storage data carries the key and both ends of the window, each
/// under its own name, as a clock in the time zone shows them.
pub proof fn lemma_storage_asked(
    client: MonitoringApiClientView,
    now: int,
    zone: jiff::tz::TimeZone,
    params: Seq<(Seq<char>, Seq<char>)>,
)
    requires
        storage_query(client, now, zone, params),
    ensures
        params.len() == 3,
        params[0] == ("api_key"@, client.api_key),
        params[1].0 == "startTime"@,
        params[2].0 == "endTime"@,
        shown_in(params[2].1, now, zone),
        client.last_storage_end is None ==> shown_in(params[1].1, now - 86_400_000_000_000, zone),
        client.last_storage_end matches Some(end) ==> shown_in(
            params[1].1,
            if end < now - 604_800_000_000_000 {
                now - 604_800_000_000_000
            } else {
                end
            },
            zone,
        ),
{
}

/// A site is asked about under its own number, and the key goes by one name.
pub proof fn lemma_address(site_id: u64, what: Seq<char>)
    ensures
        site_address(site_id, what) == "https://monitoringapi.solaredge.com"@ + "/site/"@
            + text::decimal_digits(site_id as nat) + what,
        key_param(what) == ("api_key"@, what),
{
}

/// What is written of an instant is the date and time of day that are as far
/// from the Unix epoch as the instant and the offset of the time zone together.
pub proof fn lemma_shown(s: Seq<char>, nanos: int, zone: jiff::tz::TimeZone)
    requires
        shown_in(s, nanos, zone),
    ensures
        exists|dt: time::CivilDateTime|
            dt.wf() && s == #[trigger] time::datetime_text(dt) && dt.utc_nanos() == nanos
                + time::offset_at(zone, nanos) * 1_000_000_000,
{
    let offset = time::offset_at(zone, nanos);
    let dt = choose|dt: time::CivilDateTime| #[trigger]
        dt.shown_with(nanos, offset) && dt.wf() && s == time::datetime_text(dt);
    assert(s == time::datetime_text(dt));
}

/// Remembered counters in texts are those of the map, one for one.
pub proof fn lemma_totals(totals: Map<Seq<char>, BatteryTotal>, serial: Seq<char>)
    ensures
        totals_view(totals).contains_key(serial) <==> totals.contains_key(serial),
        totals.contains_key(serial) ==> totals_view(totals)[serial].model == totals[serial].model@
            && totals_view(totals)[serial].watt_hours == totals[serial].ac_grid_charging_watt_hours,
        totals.contains_key(serial) ==> total_at(totals_view(totals), serial) == Some(
            totals[serial]@,
        ),
        !totals.contains_key(serial) ==> total_at(totals_view(totals), serial) is None,
{
}

/// An overview and meters are taken where the answer has a status of success and
/// decodes to one with the lifetime energy, or with a reading.
pub proof fn lemma_answers_taken<
    F: FnOnce(&str) -> Result<OverviewResponse, String>,
    G: FnOnce(&str) -> Result<MetersResponse, String>,
>(
    status: u16,
    body: &str,
    of_overview: F,
    of_meters: G,
    a: Result<OverviewResponse, MonitoringApiError>,
    b: Result<MetersResponse, MonitoringApiError>,
)
    requires
        call_ensures(overview_answer::<F>, (status, body, of_overview), a),
        call_ensures(meters_answer::<G>, (status, body, of_meters), b),
    ensures
        a matches Ok(response) ==> 200 <= status <= 299 && of_overview.ensures(
            (body,),
            Ok(response),
        ) && response.overview.life_time_data.energy is Some,
        b matches Ok(response) ==> 200 <= status <= 299 && of_meters.ensures((body,), Ok(response))
            && any_meter(response),
{
}

/// Energy that is recorded moves the counter of its battery alone, and nothing
/// else that the client remembers.
pub proof fn lemma_only_own_counter<F: Fn(Reading, Reading) -> Reading>(
    remembered: &mut MonitoringApiClient,
    serial: &str,
    model: &str,
    delta: Reading,
    plus: &F,
    other: Seq<char>,
)
    requires
        call_ensures(
            MonitoringApiClient::record_grid_charging::<F>,
            (remembered, serial, model, delta, plus),
            (),
        ),
        metrics::is_addition(*plus),
    ensures
        final(remembered)@.totals.contains_key(serial@),
        other != serial@ ==> final(remembered)@.totals.contains_key(other) == old(remembered)@.totals.contains_key(other),
        other != serial@ && old(remembered)@.totals.contains_key(other) ==> final(remembered)@.totals[other] == old(remembered)@.totals[other],
        final(remembered)@.last_storage_end == old(remembered)@.last_storage_end,
        final(remembered)@.state_file == old(remembered)@.state_file,
        final(remembered)@.site_id == old(remembered)@.site_id,
        final(remembered)@.api_key == old(remembered)@.api_key,
{
}

/// Storage data is taken where the answer has a status of success and decodes to
/// one of use, and only that moves the end of the last window, to the instant of
/// the query.
pub proof fn lemma_storage_taken<F: FnOnce(&str) -> Result<StorageDataResponse, String>>(
    remembered: &mut MonitoringApiClient,
    status: u16,
    body: &str,
    decode: F,
    now: &Timestamp,
    r: Result<StorageDataResponse, MonitoringApiError>,
)
    requires
        call_ensures(
            MonitoringApiClient::storage_answer::<F>,
            (remembered, status, body, decode, now),
            r,
        ),
    ensures
        r matches Ok(response) ==> 200 <= status <= 299 && decode.ensures((body,), Ok(response))
            && any_battery(response),
        r is Ok ==> final(remembered)@.last_storage_end == Some(now@),
        r is Err ==> final(remembered)@.last_storage_end == old(remembered)@.last_storage_end,
        final(remembered)@.totals == old(remembered)@.totals,
        final(remembered)@.state_file == old(remembered)@.state_file,
{
}

/// What is to be saved goes to the file of the client, and nothing is to be
/// saved where it has none.
pub proof fn lemma_saved_where(
    remembered: &MonitoringApiClient,
    r: Option<(String, PersistentState)>,
)
    requires
        call_ensures(MonitoringApiClient::persist_state, (remembered,), r),
    ensures
        r is Some <==> remembered@.state_file is Some,
        r matches Some((file, state)) ==> file@ == remembered@.state_file->0 && persists(
            remembered@,
            state,
        ),
{
}

} // verus!
