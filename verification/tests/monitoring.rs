//! The Monitoring API: its answers, its requests, and what is remembered.

use jiff::tz::TimeZone;
use serde_json::Value as Json;

use solaredge_exporter::metrics::{
    AppMetrics, BatteryLabels, MeterLabels, MonitoringEndpoint, NoLabels, Value,
};
use solaredge_exporter::monitoring_api::client::{
    cap_to_seven_days, get_json, meters_answer, overview_answer, time_window_days,
    MonitoringApiClient, MonitoringApiError, StateFile,
};
use solaredge_exporter::monitoring_api::models::{
    Battery, BatteryTelemetry, EnergyValue, Meter, MeterEnergyDetails, MeterValue, MetersResponse,
    Overview, OverviewResponse, StorageData, StorageDataResponse,
};
use solaredge_exporter::monitoring_api::scrape::{
    over_budget, requests_per_day, seed_counter_from_state, Fetched, Refresh, Stage,
};
use solaredge_exporter::monitoring_api::state::{
    sibling_tempfile, BatteryState, FileRead, PersistentState, Save, SaveAction, SaveStage,
    StateError, CURRENT_VERSION,
};
use solaredge_exporter::portal::Secret;
use solaredge_exporter::reading::Reading;
use solaredge_exporter::serial_map::SerialMap;
use solaredge_exporter::series::Series;
use solaredge_exporter::time::{local_zone, Timestamp};

fn reading(v: f64) -> Reading {
    Reading { bits: v.to_bits() }
}

fn plus(a: Reading, b: Reading) -> Reading {
    reading(f64::from_bits(a.bits) + f64::from_bits(b.bits))
}

fn decoded(body: &str) -> Result<Json, String> {
    serde_json::from_str(body).map_err(|e| e.to_string())
}

fn text(v: &Json, key: &str) -> String {
    v[key].as_str().unwrap_or_default().to_string()
}

fn optional(v: &Json, key: &str) -> Option<Reading> {
    v[key].as_f64().map(reading)
}

fn overview(body: &str) -> Result<OverviewResponse, String> {
    let v = decoded(body)?;
    Ok(OverviewResponse {
        overview: Overview {
            life_time_data: EnergyValue {
                energy: optional(&v["overview"]["lifeTimeData"], "energy"),
            },
        },
    })
}

fn meters(body: &str) -> Result<MetersResponse, String> {
    let v = decoded(body)?;
    let mut meters = Vec::new();
    let list = v["meterEnergyDetails"]["meters"].as_array().cloned();
    for meter in list.unwrap_or_default() {
        let mut values = Vec::new();
        for value in meter["values"].as_array().cloned().unwrap_or_default() {
            values.push(MeterValue {
                value: optional(&value, "value"),
            });
        }
        meters.push(Meter {
            meter_serial_number: text(&meter, "meterSerialNumber"),
            connected_solaredge_device_sn: text(&meter, "connectedSolaredgeDeviceSN"),
            meter_type: text(&meter, "meterType"),
            values,
        });
    }
    Ok(MetersResponse {
        meter_energy_details: MeterEnergyDetails { meters },
    })
}

fn storage(body: &str) -> Result<StorageDataResponse, String> {
    let v = decoded(body)?;
    let mut batteries = Vec::new();
    let list = v["storageData"]["batteries"].as_array().cloned();
    for battery in list.unwrap_or_default() {
        let mut telemetries = Vec::new();
        for t in battery["telemetries"].as_array().cloned().unwrap_or_default() {
            telemetries.push(BatteryTelemetry {
                battery_state: t["batteryState"].as_i64(),
                full_pack_energy_available: optional(&t, "fullPackEnergyAvailable"),
                ac_grid_charging: optional(&t, "ACGridCharging"),
            });
        }
        batteries.push(Battery {
            serial_number: text(&battery, "serialNumber"),
            model_number: text(&battery, "modelNumber"),
            telemetries,
        });
    }
    Ok(StorageDataResponse {
        storage_data: StorageData { batteries },
    })
}

fn state_json(state: &PersistentState) -> String {
    let mut batteries = serde_json::Map::new();
    for (serial, battery) in state.batteries.entries() {
        let mut fields = serde_json::Map::new();
        fields.insert("model".to_string(), Json::String(battery.model.clone()));
        let wh = f64::from_bits(battery.ac_grid_charging_watt_hours.bits);
        fields.insert("ac_grid_charging_watt_hours".to_string(), Json::from(wh));
        batteries.insert(serial.clone(), Json::Object(fields));
    }
    let mut all = serde_json::Map::new();
    all.insert("version".to_string(), Json::from(state.version));
    let end = state.last_storage_end.clone();
    all.insert("last_storage_end".to_string(), Json::from(end));
    all.insert("batteries".to_string(), Json::Object(batteries));
    Json::Object(all).to_string()
}

fn state_from(body: &str) -> Result<PersistentState, String> {
    let v = decoded(body)?;
    let mut batteries = SerialMap::new();
    for (serial, b) in v["batteries"].as_object().cloned().unwrap_or_default() {
        batteries.insert(
            serial,
            BatteryState {
                model: text(&b, "model"),
                ac_grid_charging_watt_hours: optional(&b, "ac_grid_charging_watt_hours")
                    .unwrap_or(reading(0.0)),
            },
        );
    }
    Ok(PersistentState {
        version: v["version"].as_u64().unwrap_or(CURRENT_VERSION as u64) as u32,
        last_storage_end: v["last_storage_end"].as_str().map(|s| s.to_string()),
        batteries,
    })
}

fn now() -> Timestamp {
    stamp(jiff::Timestamp::now())
}

fn stamp(t: jiff::Timestamp) -> Timestamp {
    Timestamp::from_nanosecond(t.as_nanosecond()).expect("in range")
}

fn hours_before(t: &Timestamp, hours: i128) -> Timestamp {
    Timestamp::from_nanosecond(t.as_nanosecond() - hours * 3_600_000_000_000).expect("in range")
}

fn client(state_file: Option<StateFile>) -> MonitoringApiClient {
    MonitoringApiClient::new(1, Secret::new("k".to_string()), state_file)
}

fn kept(path: &str, state: PersistentState) -> Option<StateFile> {
    Some(StateFile {
        path: path.to_string(),
        loaded: Ok(state),
    })
}

fn error_text<T: std::fmt::Debug>(r: Result<T, MonitoringApiError>) -> String {
    format!("{:?}", r.expect_err("error"))
}

#[test]
fn time_window_is_well_formed() {
    let (start, end) = time_window_days(&now(), 1, &local_zone()).expect("window");
    assert_eq!(start.len(), 19, "YYYY-MM-DD HH:MM:SS");
    assert_eq!(end.len(), 19);
    assert!(start < end, "start < end: {start} < {end}");
}

#[test]
fn cap_to_seven_days_clamps_old_timestamps() {
    let now = jiff::Timestamp::now();
    let ten_days_ago = now
        .checked_sub(jiff::Span::new().try_hours(10 * 24).unwrap())
        .unwrap();
    let capped = cap_to_seven_days(&stamp(ten_days_ago), &stamp(now)).expect("cap");
    let seven_days_ago = now
        .checked_sub(jiff::Span::new().try_hours(7 * 24).unwrap())
        .unwrap();
    assert_eq!(capped, stamp(seven_days_ago));
}

#[test]
fn cap_to_seven_days_preserves_recent_timestamps() {
    let now = jiff::Timestamp::now();
    let two_days_ago = now
        .checked_sub(jiff::Span::new().try_hours(2 * 24).unwrap())
        .unwrap();
    let capped = cap_to_seven_days(&stamp(two_days_ago), &stamp(now)).expect("cap");
    assert_eq!(capped, stamp(two_days_ago));
}

#[test]
fn record_grid_charging_accumulates() {
    let mut client = client(None);
    client.record_grid_charging("B1", "M", reading(100.0), &plus);
    client.record_grid_charging("B1", "M", reading(50.5), &plus);
    client.record_grid_charging("B2", "M2", reading(10.0), &plus);
    let totals = client.persisted_battery_totals();
    let total = |serial: &str| totals.get(serial).expect("battery");
    assert_eq!(total("B1").ac_grid_charging_watt_hours, reading(150.5));
    assert_eq!(total("B2").ac_grid_charging_watt_hours, reading(10.0));
    assert_eq!(total("B2").model, "M2");
}

#[test]
fn parses_overview_response() {
    let json = r#"{
            "overview": {
                "lastUpdateTime": "2026-04-23 10:00:00",
                "lifeTimeData": {"energy": 74353.0, "revenue": 0.0},
                "lastYearData": {"energy": 0.0},
                "lastMonthData": {"energy": 0.0},
                "lastDayData": {"energy": 0.0},
                "currentPower": {"power": 123.4}
            }
        }"#;
    let r = overview_answer(200, json, overview).expect("overview");
    assert_eq!(r.overview.life_time_data.energy, Some(reading(74353.0)));
}

const METERS: &str = r#"{
            "meterEnergyDetails": {
                "timeUnit": "DAY",
                "unit": "Wh",
                "meters": [
                    {
                        "meterSerialNumber": "S1",
                        "connectedSolaredgeDeviceSN": "INV1",
                        "model": "X",
                        "meterType": "Production",
                        "values": [
                            {"date": "2026-04-22 00:00:00", "value": 100.0},
                            {"date": "2026-04-23 00:00:00", "value": 200.0},
                            {"date": "2026-04-24 00:00:00"}
                        ]
                    }
                ]
            }
        }"#;

#[test]
fn parses_meters_response_and_picks_latest() {
    let r = meters_answer(200, METERS, meters).expect("meters");
    let m = &r.meter_energy_details.meters[0];
    assert_eq!(m.meter_type, "Production");
    assert_eq!(m.latest_value(), Some(reading(200.0)));
}

#[test]
fn parses_storage_response() {
    let json = r#"{
            "storageData": {
                "batteryCount": 1,
                "batteries": [{
                    "serialNumber": "BAT1",
                    "modelNumber": "LGXXXXX",
                    "telemetryCount": 2,
                    "telemetries": [
                        {"timeStamp":"2026-04-23 09:00:00","power":0,"batteryState":3,"fullPackEnergyAvailable":8950,"internalTemp":25,"ACGridCharging":50},
                        {"timeStamp":"2026-04-23 09:05:00","power":120,"batteryState":3,"fullPackEnergyAvailable":8950,"internalTemp":26,"ACGridCharging":60}
                    ]
                }]
            }
        }"#;
    let r = storage(json).expect("storage");
    let b = &r.storage_data.batteries[0];
    assert_eq!(b.serial_number, "BAT1");
    assert_eq!(b.latest(|t| t.full_pack_energy_available), Some(reading(8950.0)));
    assert_eq!(b.latest(|t| t.ac_grid_charging), Some(reading(60.0)));
}

const WALK_BACK: &str = r#"{
            "storageData": {
                "batteries": [{
                    "serialNumber": "BAT1",
                    "modelNumber": "SolarEdge Home Battery 48V (W) ",
                    "telemetries": [
                        {"timeStamp":"2026-04-23 09:00:00","power":0,"batteryState":3,
                         "ACGridCharging":120,
                         "fullPackEnergyAvailable":8950,
                         "internalTemp":25},
                        {"timeStamp":"2026-04-23 09:05:00","power":120,"batteryState":3,
                         "internalTemp":26,"fullPackEnergyAvailable":8950}
                    ]
                }]
            }
        }"#;

#[test]
fn battery_walks_back_to_latest_non_null_per_field() {
    let r = storage(WALK_BACK).expect("storage");
    let b = &r.storage_data.batteries[0];
    assert_eq!(b.latest(|t| t.ac_grid_charging), Some(reading(120.0)));
    assert_eq!(b.latest(|t| t.battery_state), Some(3));
    assert_eq!(b.latest(|t| t.full_pack_energy_available), Some(reading(8950.0)));
    assert_eq!(b.latest_grid_charging(), Some(reading(120.0)));
    assert_eq!(b.latest_state(), Some(3));
    assert_eq!(b.latest_full_pack_energy(), Some(reading(8950.0)));
}

#[test]
fn tolerates_missing_fields() {
    let r = overview(r#"{"overview":{}}"#).expect("empty");
    assert_eq!(r.overview.life_time_data.energy, None);
    let r = storage(r#"{"storageData":{"batteries":[]}}"#).expect("no batts");
    assert!(r.storage_data.batteries.is_empty());
    let r = overview_answer(200, r#"{"overview":{}}"#, overview);
    assert!(matches!(r, Err(MonitoringApiError::EmptyResponse { endpoint: "overview", .. })));
    let no_batteries = r#"{"storageData":{"batteries":[]}}"#;
    let r = client(None).storage_answer(200, no_batteries, storage, &now());
    assert!(matches!(r, Err(MonitoringApiError::EmptyResponse { endpoint: "storage", .. })));
}

#[test]
fn a_window_begins_with_the_text_that_the_last_one_ended_with() {
    let mut client = client(None);
    let first = stamp("2026-07-28T10:15:00Z".parse().expect("instant"));
    let failed = stamp("2026-07-28T10:45:00Z".parse().expect("instant"));
    let second = stamp("2026-07-28T11:15:00Z".parse().expect("instant"));
    let param = |client: &MonitoringApiClient, t: &Timestamp, i: usize| {
        client.storage_request(t, &local_zone()).expect("request").params[i].1.clone()
    };
    let end = param(&client, &first, 2);
    assert!(client.storage_answer(200, WALK_BACK, storage, &first).is_ok());
    assert!(client.storage_answer(500, "", storage, &failed).is_err());
    assert_eq!(client.last_storage_end(), Some(first));
    assert_eq!(param(&client, &second, 1), end);
}

#[test]
fn load_missing_file_yields_empty_state() {
    let state = PersistentState::load("missing.json", FileRead::Missing, state_from)
        .expect("missing = empty");
    assert_eq!(state.version, CURRENT_VERSION);
    assert!(state.last_storage_end.is_none());
    assert!(state.batteries.is_empty());
}

#[test]
fn round_trip_preserves_fields() {
    let mut batteries = SerialMap::new();
    batteries.insert(
        "BAT1".to_string(),
        BatteryState {
            model: "SolarEdge Home Battery 48V".to_string(),
            ac_grid_charging_watt_hours: reading(12345.5),
        },
    );
    let state = PersistentState {
        version: CURRENT_VERSION,
        last_storage_end: Some("2026-04-24T10:30:00Z".to_string()),
        batteries,
    };
    let saved = FileRead::Body(state_json(&state));
    let reloaded = PersistentState::load("state.json", saved, state_from).expect("load");
    assert_eq!(
        reloaded.last_storage_end.as_deref(),
        Some("2026-04-24T10:30:00Z")
    );
    let battery = reloaded.batteries.get("BAT1").expect("BAT1");
    assert_eq!(battery.ac_grid_charging_watt_hours, reading(12345.5));
    assert_eq!(battery.model, "SolarEdge Home Battery 48V");
}

#[test]
fn rejects_unknown_version() {
    let body = FileRead::Body(r#"{"version": 9999, "batteries": {}}"#.to_string());
    let err = PersistentState::load("future.json", body, state_from).expect_err("reject");
    assert!(matches!(
        err,
        StateError::VersionMismatch { version: 9999, .. }
    ));
}

#[test]
fn a_state_file_that_cannot_be_read_or_parsed_is_named() {
    match PersistentState::load("s.json", FileRead::Failed("denied".to_string()), state_from) {
        Err(StateError::Read { path, message }) => {
            assert_eq!(path, "s.json");
            assert_eq!(message, "denied");
        }
        other => panic!("{other:?}"),
    }
    match PersistentState::load("s.json", FileRead::Body("{".to_string()), state_from) {
        Err(StateError::Parse { path, .. }) => assert_eq!(path, "s.json"),
        other => panic!("{other:?}"),
    }
}

#[test]
fn a_state_file_is_written_beside_its_place() {
    assert_eq!(sibling_tempfile("/state/state.json"), "/state/state.json.tmp");
    assert_eq!(sibling_tempfile("state.json"), "state.json.tmp");
    assert_eq!(sibling_tempfile("/"), "/.tmp");
}

#[test]
fn a_save_renames_only_what_was_written() {
    let mut save = Save::begin("/state/s.json");
    assert!(matches!(save.action(), SaveAction::Write { to } if to == "/state/s.json.tmp"));
    save.step(Ok(()));
    assert!(matches!(save.action(), SaveAction::Rename { from, to }
        if from == "/state/s.json.tmp" && to == "/state/s.json"));
    save.step(Ok(()));
    assert!(matches!(save.action(), SaveAction::Done));
    assert!(matches!(save.stage, SaveStage::Done(Ok(()))));

    let mut unwritten = Save::begin("/state/s.json");
    unwritten.step(Err("full".to_string()));
    match unwritten.stage {
        SaveStage::Done(Err(StateError::Write { path, message })) => {
            assert_eq!(path, "/state/s.json.tmp");
            assert_eq!(message, "full");
        }
        other => panic!("{other:?}"),
    }

    let mut stuck = Save::begin("/state/s.json");
    stuck.step(Ok(()));
    stuck.step(Err("busy".to_string()));
    assert!(matches!(stuck.action(), SaveAction::Remove { path } if path == "/state/s.json.tmp"));
    stuck.step(Err("also busy".to_string()));
    match stuck.stage {
        SaveStage::Done(Err(StateError::Write { path, message })) => {
            assert_eq!(path, "/state/s.json");
            assert_eq!(message, "busy");
        }
        other => panic!("{other:?}"),
    }
}

#[test]
fn requests_carry_the_key_and_the_window() {
    let client = client(None);
    let plain = client.overview_request();
    assert_eq!(plain.url, "https://monitoringapi.solaredge.com/site/1/overview");
    assert_eq!(plain.params, vec![("api_key".to_string(), "k".to_string())]);

    let now = now();
    let request = client.meters_request(&now, &local_zone()).expect("meters");
    assert_eq!(request.url, "https://monitoringapi.solaredge.com/site/1/meters");
    let names: Vec<&str> = request.params.iter().map(|p| p.0.as_str()).collect();
    assert_eq!(
        names,
        vec!["api_key", "startTime", "endTime", "timeUnit", "meters"]
    );
    let (start, end) = time_window_days(&now, 2, &local_zone()).expect("window");
    assert_eq!(request.params[1].1, start);
    assert_eq!(request.params[2].1, end);
    assert_eq!(request.params[3].1, "DAY");
    assert_eq!(request.params[4].1, "Production,Consumption,FeedIn,Purchased");

    let request = client.storage_request(&now, &local_zone()).expect("storage");
    assert_eq!(
        request.url,
        "https://monitoringapi.solaredge.com/site/1/storageData"
    );
    let (start, end) = time_window_days(&now, 1, &local_zone()).expect("window");
    assert_eq!(request.params[1].1, start);
    assert_eq!(request.params[2].1, end);
}

#[test]
fn times_are_written_as_the_clock_of_the_machine_shows_them() {
    let t = jiff::Timestamp::from_second(1_785_233_700).expect("ts");
    let (_, end) = time_window_days(&stamp(t), 1, &local_zone()).expect("window");
    let shown = t
        .to_zoned(jiff::tz::TimeZone::system())
        .strftime("%Y-%m-%d %H:%M:%S")
        .to_string();
    assert_eq!(end, shown);
}

#[test]
fn a_window_is_written_in_one_time_zone() {
    let zone = TimeZone::posix("CET-1CEST,M3.5.0,M10.5.0/3").expect("zone");
    let t = stamp("2026-03-29T10:00:00Z".parse().expect("instant"));
    assert_eq!(
        time_window_days(&t, 1, &zone).expect("window"),
        ("2026-03-28 11:00:00".to_string(), "2026-03-29 12:00:00".to_string())
    );
    let mut client = client(None);
    let request = client.storage_request(&t, &zone).expect("request");
    assert_eq!(request.params[2].1, "2026-03-29 12:00:00");
    assert!(client.storage_answer(200, WALK_BACK, storage, &t).is_ok());
    let later = stamp("2026-03-30T10:00:00Z".parse().expect("instant"));
    let request = client.storage_request(&later, &zone).expect("request");
    assert_eq!(request.params[1].1, "2026-03-29 12:00:00");
    assert_eq!(request.params[2].1, "2026-03-30 12:00:00");
}

#[test]
fn years_before_year_zero_have_a_sign() {
    for year in [-5, -123, -1234, 0, 7] {
        let t = jiff::civil::date(year, 3, 1)
            .at(12, 0, 0, 0)
            .to_zoned(jiff::tz::TimeZone::UTC)
            .expect("zoned")
            .timestamp();
        let (_, end) = time_window_days(&stamp(t), 1, &local_zone()).expect("window");
        let shown = t
            .to_zoned(jiff::tz::TimeZone::system())
            .strftime("%Y-%m-%d %H:%M:%S")
            .to_string();
        assert_eq!(end, shown);
    }
}

#[test]
fn a_window_that_begins_before_time_is_an_error() {
    let first = stamp(jiff::Timestamp::MIN);
    assert!(error_text(time_window_days(&first, 1, &local_zone())).starts_with("Time("));
    assert!(error_text(cap_to_seven_days(&first, &first)).starts_with("Time("));
    let request = client(None).storage_request(&first, &local_zone());
    assert!(matches!(request, Err(MonitoringApiError::Time(_))));
    let request = client(None).meters_request(&first, &local_zone());
    assert!(matches!(request, Err(MonitoringApiError::Time(_))));
}

#[test]
fn the_next_window_begins_where_the_last_one_ended() {
    let mut client = client(None);
    let first = hours_before(&now(), 30);
    assert_eq!(
        client.storage_window(&first).expect("window"),
        hours_before(&first, 24)
    );
    client
        .storage_answer(200, WALK_BACK, storage, &first)
        .expect("storage");
    let second = now();
    assert_eq!(client.storage_window(&second).expect("window"), first);
    assert!(client.storage_answer(500, "", storage, &second).is_err());
    assert_eq!(client.storage_window(&second).expect("window"), first);
    let empty = r#"{"storageData":{"batteries":[]}}"#;
    assert!(client.storage_answer(200, empty, storage, &second).is_err());
    assert_eq!(client.storage_window(&second).expect("window"), first);
}

#[test]
fn answers_without_anything_of_use_are_errors() {
    match overview_answer(200, r#"{"overview":{}}"#, overview) {
        Err(MonitoringApiError::EmptyResponse { endpoint, body }) => {
            assert_eq!(endpoint, "overview");
            assert_eq!(body, r#"{"overview":{}}"#);
        }
        other => panic!("{other:?}"),
    }
    assert!(matches!(
        meters_answer(200, "{}", meters),
        Err(MonitoringApiError::EmptyResponse {
            endpoint: "meters",
            ..
        })
    ));
    let bare = r#"{"storageData":{"batteries":[{"serialNumber":"B","telemetries":[{}]}]}}"#;
    assert!(matches!(
        client(None).storage_answer(200, bare, storage, &now()),
        Err(MonitoringApiError::EmptyResponse {
            endpoint: "storage",
            ..
        })
    ));
    assert!(matches!(
        get_json(403, "no", "overview", overview),
        Err(MonitoringApiError::Status {
            endpoint: "overview",
            status: 403,
            ..
        })
    ));
    assert!(matches!(
        get_json(200, "{", "overview", overview),
        Err(MonitoringApiError::Json {
            endpoint: "overview",
            ..
        })
    ));
}

#[test]
fn a_model_is_taken_over_unless_it_is_empty() {
    let mut client = client(None);
    client.record_grid_charging("B", "old", reading(1.0), &plus);
    client.record_grid_charging("B", "", reading(1.0), &plus);
    let model = |c: &MonitoringApiClient| {
        let totals = c.persisted_battery_totals();
        totals.get("B").expect("battery").model.clone()
    };
    assert_eq!(model(&client), "old");
    client.record_grid_charging("B", "new", reading(1.0), &plus);
    assert_eq!(model(&client), "new");
}

#[test]
fn a_restart_goes_on_where_the_last_run_stopped() {
    let mut before = client(kept("/state/s.json", PersistentState::default()));
    let end = hours_before(&now(), 1);
    before
        .storage_answer(200, WALK_BACK, storage, &end)
        .expect("storage");
    before.record_grid_charging("BAT1", "M", reading(12.5), &plus);
    let (path, state) = before.persist_state().expect("state");
    assert_eq!(path, "/state/s.json");
    let body = FileRead::Body(state_json(&state));
    let loaded = PersistentState::load(&path, body, state_from).expect("load");
    let after = client(kept(&path, loaded));
    assert_eq!(after.storage_window(&now()).expect("window"), end);
    let totals = after.persisted_battery_totals();
    let battery = totals.get("BAT1").expect("battery");
    assert_eq!(battery.ac_grid_charging_watt_hours, reading(12.5));
    assert_eq!(battery.model, "M");
}

#[test]
fn a_state_file_that_cannot_be_used_is_not_written() {
    let broken = Some(StateFile {
        path: "/state/s.json".to_string(),
        loaded: Err(StateError::VersionMismatch {
            path: "/state/s.json".to_string(),
            version: 2,
        }),
    });
    let mut client = client(broken);
    client.record_grid_charging("B", "M", reading(1.0), &plus);
    assert!(client.persist_state().is_none());
    assert!(!client.persisted_battery_totals().is_empty());
}

#[test]
fn an_unreadable_end_of_the_last_window_counts_as_a_first_run() {
    let mut state = PersistentState::default();
    state.last_storage_end = Some("yesterday".to_string());
    let client = client(kept("/state/s.json", state));
    assert_eq!(client.last_storage_end(), None);
    let now = now();
    assert_eq!(
        client.storage_window(&now).expect("window"),
        hours_before(&now, 24)
    );
}

fn battery_pairs(serial: &str, model: &str) -> Vec<(String, String)> {
    BatteryLabels {
        battery: serial.to_string(),
        model: model.to_string(),
    }
    .pairs()
}

fn number(metrics: &AppMetrics, series: Series, labels: &Vec<(String, String)>) -> Option<f64> {
    metrics.get(series, labels).map(|v| match v {
        Value::Reading(r) => f64::from_bits(r.bits),
        Value::Integer(n) => n as f64,
        Value::Count(n) => n as f64,
    })
}

#[test]
fn counters_are_seeded_from_the_state() {
    let mut client = client(None);
    client.record_grid_charging("B1", "M", reading(100.0), &plus);
    client.record_grid_charging("B2", "N", reading(5.5), &plus);
    let mut metrics = AppMetrics::new();
    seed_counter_from_state(&client, &mut metrics, &plus);
    let series = Series::BatteryAcGridCharging;
    assert_eq!(number(&metrics, series, &battery_pairs("B1", "M")), Some(100.0));
    assert_eq!(number(&metrics, series, &battery_pairs("B2", "N")), Some(5.5));
    assert_eq!(number(&metrics, series, &battery_pairs("B1", "N")), None);
    assert_eq!(metrics.samples().len(), 3);
}

#[test]
fn a_refresh_publishes_all_and_saves_the_counters() {
    let mut client = client(kept("/state/s.json", PersistentState::default()));
    let mut metrics = AppMetrics::new();
    let mut refresh = Refresh::begin();
    let elapsed = reading(0.25);
    let energy = r#"{"overview":{"lifeTimeData":{"energy":74353.0}}}"#;

    assert_eq!(refresh.stage, Stage::Overview);
    refresh.count_request(&mut metrics);
    let fetched = Fetched::Overview(overview_answer(200, energy, overview));
    refresh.step(fetched, 10, elapsed, &mut client, &mut metrics, &plus);
    assert_eq!(refresh.stage, Stage::Meters);
    assert_eq!(number(&metrics, Series::SitePvLifetimeEnergy, &Vec::new()), None);
    refresh.count_request(&mut metrics);
    let fetched = Fetched::Meters(meters_answer(200, METERS, meters));
    refresh.step(fetched, 11, elapsed, &mut client, &mut metrics, &plus);
    assert_eq!(refresh.stage, Stage::Storage);
    refresh.count_request(&mut metrics);
    let answer = client.storage_answer(200, WALK_BACK, storage, &now());
    let fetched = Fetched::Storage(answer);
    let report = refresh.step(fetched, 12, elapsed, &mut client, &mut metrics, &plus);
    assert_eq!(refresh.stage, Stage::Finished);
    assert!(report.held.is_empty());

    let none = NoLabels {}.pairs();
    assert_eq!(
        number(&metrics, Series::SitePvLifetimeEnergy, &none),
        Some(74353.0)
    );
    let meter = MeterLabels {
        meter: "S1".to_string(),
        inverter: "INV1".to_string(),
        meter_type: "Production".to_string(),
    };
    assert_eq!(
        number(&metrics, Series::MeterLifetimeEnergy, &meter.pairs()),
        Some(200.0)
    );
    let battery = battery_pairs("BAT1", "SolarEdge Home Battery 48V (W) ");
    assert_eq!(
        number(&metrics, Series::BatteryAcGridCharging, &battery),
        Some(120.0)
    );
    assert_eq!(
        number(&metrics, Series::BatteryFullPackEnergy, &battery),
        Some(8950.0)
    );
    assert_eq!(number(&metrics, Series::BatteryState, &battery), Some(3.0));
    for (endpoint, second) in [("overview", 10.0), ("meters", 11.0), ("storage", 12.0)] {
        let labels = MonitoringEndpoint::of(endpoint).pairs();
        assert_eq!(
            number(&metrics, Series::MonitoringApiLastRefresh, &labels),
            Some(second)
        );
        assert_eq!(
            number(&metrics, Series::MonitoringApiRefreshDuration, &labels),
            Some(0.25)
        );
        assert_eq!(
            number(&metrics, Series::MonitoringApiRequests, &labels),
            Some(1.0)
        );
        assert_eq!(
            number(&metrics, Series::MonitoringApiRefreshErrors, &labels),
            None
        );
    }
    let (path, state) = report.save.expect("state");
    assert_eq!(path, "/state/s.json");
    let kept = state.batteries.get("BAT1").expect("BAT1");
    assert_eq!(kept.ac_grid_charging_watt_hours, reading(120.0));
    assert!(state.last_storage_end.is_some());
}

#[test]
fn failed_requests_are_counted_and_nothing_else_changes() {
    let mut client = client(kept("/state/s.json", PersistentState::default()));
    let mut metrics = AppMetrics::new();
    let mut refresh = Refresh::begin();
    let elapsed = reading(1.0);
    let gone = || MonitoringApiError::Http("gone".to_string());
    let early = Fetched::Storage(Err(gone()));
    let report = refresh.step(early, 1, elapsed, &mut client, &mut metrics, &plus);
    assert_eq!(refresh.stage, Stage::Overview);
    assert!(report.save.is_none());
    assert_eq!(metrics.samples().len(), 1);
    let all = vec![
        Fetched::Overview(Err(gone())),
        Fetched::Meters(Err(gone())),
        Fetched::Storage(Err(gone())),
    ];
    for fetched in all {
        let report = refresh.step(fetched, 1, elapsed, &mut client, &mut metrics, &plus);
        assert!(report.save.is_none());
    }
    assert_eq!(refresh.stage, Stage::Finished);
    refresh.count_request(&mut metrics);
    assert_eq!(metrics.samples().len(), 4);
    for endpoint in ["overview", "meters", "storage"] {
        let labels = MonitoringEndpoint::of(endpoint).pairs();
        assert_eq!(
            number(&metrics, Series::MonitoringApiRefreshErrors, &labels),
            Some(1.0)
        );
    }
}

#[test]
fn lifetime_totals_and_counters_do_not_go_down() {
    let mut client = client(None);
    let mut metrics = AppMetrics::new();
    let elapsed = reading(1.0);
    let battery = |wh: f64| StorageDataResponse {
        storage_data: StorageData {
            batteries: vec![Battery {
                serial_number: "B".to_string(),
                model_number: "M".to_string(),
                telemetries: vec![BatteryTelemetry {
                    battery_state: None,
                    full_pack_energy_available: None,
                    ac_grid_charging: Some(reading(wh)),
                }],
            }],
        },
    };
    let mut held = 0;
    for (energy, wh) in [(10.0, 2.0), (9.0, -1.0), (11.0, 0.0)] {
        let mut refresh = Refresh::begin();
        let response = OverviewResponse {
            overview: Overview {
                life_time_data: EnergyValue {
                    energy: Some(reading(energy)),
                },
            },
        };
        let lost = MonitoringApiError::Http("lost".to_string());
        for fetched in [
            Fetched::Overview(Ok(response)),
            Fetched::Meters(Err(lost)),
            Fetched::Storage(Ok(battery(wh))),
        ] {
            let report = refresh.step(fetched, 1, elapsed, &mut client, &mut metrics, &plus);
            held += report.held.len();
        }
        let none = NoLabels {}.pairs();
        let total = number(&metrics, Series::SitePvLifetimeEnergy, &none);
        assert!(total >= Some(10.0));
    }
    assert_eq!(held, 1);
    let none = NoLabels {}.pairs();
    assert_eq!(
        number(&metrics, Series::SitePvLifetimeEnergy, &none),
        Some(11.0)
    );
    let labels = battery_pairs("B", "M");
    assert_eq!(
        number(&metrics, Series::BatteryAcGridCharging, &labels),
        Some(2.0)
    );
    let totals = client.persisted_battery_totals();
    let total = totals.get("B").expect("battery");
    assert_eq!(total.ac_grid_charging_watt_hours, reading(2.0));
}

#[test]
fn the_budget_is_estimated() {
    assert_eq!(requests_per_day(1800), 144);
    assert_eq!(requests_per_day(0), 259_200);
    assert!(!over_budget(1800));
    assert!(!over_budget(1036));
    assert!(over_budget(900));
    assert!(over_budget(1032));
}
