//! A refresh from the portal, and the HTTP server.

use jiff::tz::TimeZone;

use solaredge_exporter::config::{
    Config, Field, MonitoringApiConfig, RefreshConfig, ServerConfig,
};
use solaredge_exporter::metrics::{AppMetrics, NoLabels, RefreshKind, Value};
use solaredge_exporter::portal::client::PortalError;
use solaredge_exporter::portal::models::{
    ConsumptionDistribution, DashboardEnergyResponse, EnergySummary, FlatOptimizer, LayoutNodeV2,
    LiveData, OptimizersInfoResponse, ProductionDistribution,
};
use solaredge_exporter::reading::Reading;
use solaredge_exporter::scrape::{
    cycle_updates, layout_outcome, make_labels, serials, telemetry_read, EnergyFetch, Fetched,
    Refresh, Stage,
};
use solaredge_exporter::serial_map::SerialMap;
use solaredge_exporter::series::Series;
use solaredge_exporter::server::{metrics_reply, root_reply};

fn zone() -> TimeZone {
    TimeZone::fixed(jiff::tz::offset(2))
}

fn reading(v: f64) -> Reading {
    Reading { bits: v.to_bits() }
}

fn config() -> Config {
    Config {
        site_id: 1,
        server: ServerConfig::default(),
        refresh: RefreshConfig::default(),
        monitoring_api: MonitoringApiConfig::default(),
        fields: vec![Field {
            name: "east".to_string(),
            optimizer_serials: vec!["OPT1".to_string()],
        }],
    }
}

fn optimizer(serial: &str, status: &str) -> FlatOptimizer {
    FlatOptimizer {
        serial_number: serial.to_string(),
        display_name: format!("panel {serial}"),
        inverter_serial: "INV1".to_string(),
        inverter_display_name: "Inverter".to_string(),
        status: status.to_string(),
    }
}

fn live(entries: Vec<(&str, LiveData)>) -> OptimizersInfoResponse {
    let mut serial_to_live_data = SerialMap::new();
    for (serial, data) in entries {
        serial_to_live_data.insert(serial.to_string(), data);
    }
    OptimizersInfoResponse {
        serial_to_live_data,
    }
}

fn data(power: Option<f64>, last_measurement: &str) -> LiveData {
    LiveData {
        power_w: power.map(reading),
        current_a: None,
        voltage_v: power.map(|_| reading(40.0)),
        optimizer_voltage_v: None,
        last_measurement: last_measurement.to_string(),
    }
}

fn battery(charged: Option<f64>, discharged: Option<f64>) -> DashboardEnergyResponse {
    DashboardEnergyResponse {
        summary: EnergySummary {
            production_distribution: ProductionDistribution {
                production_to_battery: charged.map(reading),
            },
            consumption_distribution: ConsumptionDistribution {
                consumption_from_battery: discharged.map(reading),
            },
        },
    }
}

fn lost() -> PortalError {
    PortalError::Http("lost".to_string())
}

fn number(metrics: &AppMetrics, series: Series, labels: &Vec<(String, String)>) -> Option<f64> {
    metrics.get(series, labels).map(|v| match v {
        Value::Reading(r) => f64::from_bits(r.bits),
        Value::Integer(n) => n as f64,
        Value::Count(n) => n as f64,
    })
}

fn kind(metrics: &AppMetrics, series: Series, kind: &str) -> Option<f64> {
    number(metrics, series, &RefreshKind::of(kind).pairs())
}

#[test]
fn a_refresh_publishes_what_was_read() {
    let config = config();
    let optimizers = vec![
        optimizer("OPT1", "ACTIVE"),
        optimizer("OPT2", ""),
        optimizer("OPT3", "REPLACED"),
    ];
    assert_eq!(serials(&optimizers), vec!["OPT1", "OPT2", "OPT3"]);
    let mut metrics = AppMetrics::new();
    let mut refresh = Refresh::begin();
    assert_eq!(refresh.stage, Stage::Login);
    refresh.step(Fetched::Login(Ok(true)), &optimizers, &config, &mut metrics, &zone());
    assert_eq!(refresh.stage, Stage::Live);
    let telemetry = live(vec![("OPT1", data(Some(252.19), "2026-07-28T10:15:00Z"))]);
    refresh.step(Fetched::Live(Ok(telemetry)), &optimizers, &config, &mut metrics, &zone());
    assert_eq!(refresh.stage, Stage::Energy);
    let outcomes = vec![
        EnergyFetch::Fetched {
            serial: "OPT1".to_string(),
            watt_hours: Some(reading(74138.0)),
        },
        EnergyFetch::Fetched {
            serial: "OPT2".to_string(),
            watt_hours: None,
        },
        EnergyFetch::Failed,
    ];
    let fetched = Fetched::Energy {
        outcomes,
        now: 100,
        elapsed: reading(1.5),
    };
    refresh.step(fetched, &optimizers, &config, &mut metrics, &zone());
    assert_eq!(refresh.stage, Stage::BatteryEnergy);
    let early = make_labels(&optimizers[0], &config).pairs();
    assert_eq!(number(&metrics, Series::OptimizerPower, &early), None);
    assert_eq!(number(&metrics, Series::OptimizerEnergyToday, &early), None);
    let fetched = Fetched::BatteryEnergy {
        outcome: Ok(battery(Some(7.0), None)),
        now: 101,
    };
    let report = refresh.step(fetched, &optimizers, &config, &mut metrics, &zone());
    assert_eq!(refresh.stage, Stage::Finished);
    assert!(report.held.is_empty());
    assert_eq!(report.rows.len(), 3);
    assert!(telemetry_read(&report.rows));
    assert!(!report.rows[0].missing);
    assert!(report.rows[1].missing);
    assert!(!report.rows[2].missing);

    let first = make_labels(&optimizers[0], &config).pairs();
    assert_eq!(first[3].1, "east");
    assert_eq!(number(&metrics, Series::OptimizerPower, &first), Some(252.19));
    assert_eq!(
        number(&metrics, Series::OptimizerModuleVoltage, &first),
        Some(40.0)
    );
    assert_eq!(number(&metrics, Series::OptimizerCurrent, &first), None);
    assert_eq!(
        number(&metrics, Series::OptimizerEnergyToday, &first),
        Some(74138.0)
    );
    assert_eq!(
        number(&metrics, Series::OptimizerLastMeasurement, &first),
        Some(1785233700.0)
    );
    assert_eq!(
        number(&metrics, Series::BatteryEnergyCharged, &NoLabels {}.pairs()),
        Some(7.0)
    );
    assert_eq!(
        number(&metrics, Series::BatteryEnergyDischarged, &NoLabels {}.pairs()),
        None
    );
    assert_eq!(
        number(&metrics, Series::PortalLogin, &NoLabels {}.pairs()),
        Some(1.0)
    );
    assert_eq!(
        kind(&metrics, Series::PortalRefreshErrors, "optimizer"),
        Some(1.0)
    );
    assert_eq!(
        kind(&metrics, Series::PortalRefreshErrors, "energy"),
        Some(1.0)
    );
    assert_eq!(
        kind(&metrics, Series::PortalLastRefresh, "energy"),
        Some(100.0)
    );
    assert_eq!(
        kind(&metrics, Series::PortalRefreshDuration, "energy"),
        Some(1.5)
    );
    assert_eq!(
        kind(&metrics, Series::PortalLastRefresh, "telemetry"),
        Some(101.0)
    );
    assert_eq!(
        kind(&metrics, Series::PortalLastRefresh, "battery_energy"),
        Some(101.0)
    );
}

fn refreshed(
    metrics: &mut AppMetrics,
    optimizers: &Vec<FlatOptimizer>,
    watt_hours: f64,
    charged: f64,
) {
    let config = config();
    let mut refresh = Refresh::begin();
    refresh.step(Fetched::Login(Ok(false)), optimizers, &config, metrics, &zone());
    refresh.step(Fetched::Live(Err(lost())), optimizers, &config, metrics, &zone());
    let fetched = Fetched::Energy {
        outcomes: vec![EnergyFetch::Fetched {
            serial: "OPT1".to_string(),
            watt_hours: Some(reading(watt_hours)),
        }],
        now: 1,
        elapsed: reading(0.0),
    };
    refresh.step(fetched, optimizers, &config, metrics, &zone());
    let fetched = Fetched::BatteryEnergy {
        outcome: Ok(battery(Some(charged), None)),
        now: 2,
    };
    refresh.step(fetched, optimizers, &config, metrics, &zone());
}

#[test]
fn lifetime_totals_that_are_no_numbers_change_nothing() {
    let optimizers = vec![optimizer("OPT1", "ACTIVE")];
    let labels = make_labels(&optimizers[0], &config()).pairs();
    let none = NoLabels {}.pairs();
    let mut metrics = AppMetrics::new();
    refreshed(&mut metrics, &optimizers, f64::NAN, f64::NAN);
    assert_eq!(number(&metrics, Series::OptimizerEnergyToday, &labels), None);
    assert_eq!(number(&metrics, Series::BatteryEnergyCharged, &none), None);
    for (watt_hours, charged) in [(100.0, 7.0), (f64::NAN, f64::NAN), (1.0, 2.0)] {
        refreshed(&mut metrics, &optimizers, watt_hours, charged);
        assert_eq!(
            number(&metrics, Series::OptimizerEnergyToday, &labels),
            Some(100.0)
        );
        assert_eq!(
            number(&metrics, Series::BatteryEnergyCharged, &none),
            Some(7.0)
        );
    }
}

#[test]
fn only_units_marked_as_gone_are_not_missed() {
    for status in ["ACTIVE", "active", "", "  ", "UNKNOWN", "DISCONNECTED", "REPLACED BY"] {
        assert!(optimizer("O", status).is_active(), "{status}");
    }
    for status in ["REPLACED", "replaced", " Replaced ", "INACTIVE", "inactive\n"] {
        assert!(!optimizer("O", status).is_active(), "{status}");
    }
    let optimizers = vec![optimizer("OPT1", "UNKNOWN"), optimizer("OPT2", "INACTIVE")];
    let config = config();
    let mut metrics = AppMetrics::new();
    let mut refresh = Refresh::begin();
    refresh.step(Fetched::Login(Ok(false)), &optimizers, &config, &mut metrics, &zone());
    let telemetry = live(Vec::new());
    refresh.step(Fetched::Live(Ok(telemetry)), &optimizers, &config, &mut metrics, &zone());
    let fetched = Fetched::Energy {
        outcomes: Vec::new(),
        now: 1,
        elapsed: reading(0.0),
    };
    refresh.step(fetched, &optimizers, &config, &mut metrics, &zone());
    let fetched = Fetched::BatteryEnergy {
        outcome: Err(lost()),
        now: 2,
    };
    let report = refresh.step(fetched, &optimizers, &config, &mut metrics, &zone());
    assert!(report.rows[0].missing);
    assert!(!report.rows[1].missing);
}

#[test]
fn an_unlisted_optimizer_is_published_as_unassigned() {
    let config = config();
    let optimizers = vec![optimizer("OPT9", "ACTIVE")];
    let mut metrics = AppMetrics::new();
    let mut refresh = Refresh::begin();
    refresh.step(Fetched::Login(Ok(false)), &optimizers, &config, &mut metrics, &zone());
    let telemetry = live(vec![("OPT9", data(Some(1.0), ""))]);
    refresh.step(Fetched::Live(Ok(telemetry)), &optimizers, &config, &mut metrics, &zone());
    let fetched = Fetched::Energy {
        outcomes: Vec::new(),
        now: 1,
        elapsed: reading(0.0),
    };
    refresh.step(fetched, &optimizers, &config, &mut metrics, &zone());
    let fetched = Fetched::BatteryEnergy {
        outcome: Err(lost()),
        now: 2,
    };
    refresh.step(fetched, &optimizers, &config, &mut metrics, &zone());
    let labels = make_labels(&optimizers[0], &config).pairs();
    assert_eq!(labels[3], ("field".to_string(), "unassigned".to_string()));
    assert_eq!(number(&metrics, Series::OptimizerPower, &labels), Some(1.0));
    assert_eq!(
        number(&metrics, Series::OptimizerLastMeasurement, &labels),
        None
    );
    assert_eq!(
        number(&metrics, Series::PortalLogin, &NoLabels {}.pairs()),
        Some(0.0)
    );
    assert_eq!(
        kind(&metrics, Series::PortalRefreshErrors, "battery_energy"),
        Some(1.0)
    );
    assert_eq!(
        kind(&metrics, Series::PortalLastRefresh, "battery_energy"),
        None
    );
    assert_eq!(kind(&metrics, Series::PortalLastRefresh, "energy"), None);
}

#[test]
fn a_refresh_without_values_leaves_gauges_and_their_age() {
    let config = config();
    let optimizers = vec![optimizer("OPT1", "ACTIVE")];
    let mut metrics = AppMetrics::new();
    let values = [(Some(5.0), Some(100.0)), (None, Some(90.0)), (None, None)];
    let mut held = 0;
    for (second, (power, energy)) in values.into_iter().enumerate() {
        let mut refresh = Refresh::begin();
        refresh.step(Fetched::Login(Ok(false)), &optimizers, &config, &mut metrics, &zone());
        let telemetry = live(vec![("OPT1", data(power, ""))]);
        refresh.step(Fetched::Live(Ok(telemetry)), &optimizers, &config, &mut metrics, &zone());
        let outcomes = vec![EnergyFetch::Fetched {
            serial: "OPT1".to_string(),
            watt_hours: energy.map(reading),
        }];
        let fetched = Fetched::Energy {
            outcomes,
            now: second as i64,
            elapsed: reading(0.0),
        };
        refresh.step(fetched, &optimizers, &config, &mut metrics, &zone());
        let fetched = Fetched::BatteryEnergy {
            outcome: Ok(battery(None, Some(1.0))),
            now: second as i64,
        };
        let report = refresh.step(fetched, &optimizers, &config, &mut metrics, &zone());
        held += report.held.len();
        let labels = make_labels(&optimizers[0], &config).pairs();
        assert_eq!(number(&metrics, Series::OptimizerPower, &labels), Some(5.0));
        assert_eq!(
            number(&metrics, Series::OptimizerEnergyToday, &labels),
            Some(100.0)
        );
        assert_eq!(
            kind(&metrics, Series::PortalLastRefresh, "telemetry"),
            Some(0.0)
        );
    }
    assert_eq!(held, 1);
    assert_eq!(kind(&metrics, Series::PortalLastRefresh, "energy"), Some(1.0));
    assert_eq!(
        kind(&metrics, Series::PortalLastRefresh, "battery_energy"),
        Some(2.0)
    );
}

#[test]
fn a_failed_batch_is_counted_once_and_nobody_is_missing() {
    let config = config();
    let optimizers = vec![optimizer("OPT1", ""), optimizer("OPT2", "")];
    let mut metrics = AppMetrics::new();
    let mut refresh = Refresh::begin();
    refresh.step(Fetched::Login(Err(lost())), &optimizers, &config, &mut metrics, &zone());
    refresh.step(Fetched::Live(Err(lost())), &optimizers, &config, &mut metrics, &zone());
    let fetched = Fetched::Energy {
        outcomes: vec![EnergyFetch::Failed, EnergyFetch::Failed],
        now: 1,
        elapsed: reading(0.0),
    };
    refresh.step(fetched, &optimizers, &config, &mut metrics, &zone());
    let fetched = Fetched::BatteryEnergy {
        outcome: Err(lost()),
        now: 1,
    };
    let report = refresh.step(fetched, &optimizers, &config, &mut metrics, &zone());
    assert!(report.rows.iter().all(|row| !row.missing));
    assert!(!telemetry_read(&report.rows));
    assert_eq!(
        kind(&metrics, Series::PortalRefreshErrors, "optimizer"),
        Some(1.0)
    );
    assert_eq!(
        kind(&metrics, Series::PortalRefreshErrors, "energy"),
        Some(2.0)
    );
}

#[test]
fn without_optimizers_only_the_battery_is_asked_for() {
    let config = config();
    let optimizers = Vec::new();
    let mut metrics = AppMetrics::new();
    let mut refresh = Refresh::begin();
    let early = Fetched::Live(Err(lost()));
    refresh.step(early, &optimizers, &config, &mut metrics, &zone());
    assert_eq!(refresh.stage, Stage::Login);
    assert_eq!(metrics.samples().len(), 1);
    refresh.step(Fetched::Login(Ok(false)), &optimizers, &config, &mut metrics, &zone());
    assert_eq!(refresh.stage, Stage::BatteryEnergy);
}

#[test]
fn a_failed_layout_fetch_leaves_no_optimizers_and_is_counted() {
    let (optimizers, updates) = layout_outcome(&Err(lost()));
    assert!(optimizers.is_empty());
    let mut metrics = AppMetrics::new();
    metrics.commit(&updates);
    assert_eq!(
        kind(&metrics, Series::PortalRefreshErrors, "layout"),
        Some(1.0)
    );
    let (optimizers, updates) = layout_outcome(&Ok(LayoutNodeV2::default()));
    assert!(optimizers.is_empty());
    assert!(updates.is_empty());
}

#[test]
fn the_length_of_a_refresh_is_published() {
    let mut metrics = AppMetrics::new();
    metrics.commit(&cycle_updates(reading(12.5)));
    assert_eq!(
        kind(&metrics, Series::PortalRefreshDuration, "telemetry"),
        Some(12.5)
    );
}

#[test]
fn the_server_answers() {
    let good = metrics_reply(Ok("# EOF\n".to_string()));
    assert_eq!(good.status, 200);
    assert_eq!(
        good.content_type,
        "application/openmetrics-text; version=1.0.0; charset=utf-8"
    );
    assert_eq!(good.body, "# EOF\n");
    let bad = metrics_reply(Err("no".to_string()));
    assert_eq!(bad.status, 500);
    assert_eq!(bad.body, "encode failure");
    let root = root_reply();
    assert_eq!(root.status, 200);
    assert_eq!(root.content_type, "text/plain; charset=utf-8");
    assert_eq!(root.body, "solaredge_exporter — metrics at /metrics\n");
}
