//! The published samples.

use std::sync::atomic::AtomicU64;

use prometheus_client::encoding::text::encode;
use prometheus_client::metrics::counter::Counter;
use prometheus_client::metrics::family::Family;
use prometheus_client::metrics::gauge::Gauge;
use prometheus_client::registry::Registry;

use solaredge_exporter::metrics::{
    set_lifetime_monotonic, AppMetrics, BatteryLabels, Change, Growth, MeterLabels,
    MonitoringEndpoint, NoLabels, OptimizerLabels, RefreshKind, Update, Value,
};
use solaredge_exporter::reading::Reading;
use solaredge_exporter::series::{Series, SeriesKind, PREFIX};

type Pairs = Vec<(String, String)>;

fn reading(v: f64) -> Reading {
    Reading { bits: v.to_bits() }
}

fn plus(a: Reading, b: Reading) -> Reading {
    reading(f64::from_bits(a.bits) + f64::from_bits(b.bits))
}

fn number(value: Value) -> f64 {
    match value {
        Value::Reading(r) => f64::from_bits(r.bits),
        Value::Integer(n) => n as f64,
        Value::Count(n) => n as f64,
    }
}

fn encoded(metrics: &AppMetrics) -> String {
    let mut registry = Registry::with_prefix(PREFIX);
    for series in Series::all() {
        let gauge: Family<Pairs, Gauge<f64, AtomicU64>> = Family::default();
        let counter: Family<Pairs, Counter> = Family::default();
        let quantity: Family<Pairs, Counter<f64, AtomicU64>> = Family::default();
        for sample in metrics.samples() {
            if sample.series != series {
                continue;
            }
            match (series.kind(), sample.value) {
                (SeriesKind::Gauge, value) => {
                    gauge.get_or_create(&sample.labels).set(number(value));
                }
                (SeriesKind::Counter, Value::Count(n)) => {
                    counter.get_or_create(&sample.labels).inc_by(n);
                }
                (_, value) => {
                    quantity.get_or_create(&sample.labels).inc_by(number(value));
                }
            }
        }
        match series.kind() {
            SeriesKind::Gauge => registry.register(series.name(), series.help(), gauge),
            SeriesKind::Counter => registry.register(series.name(), series.help(), counter),
            SeriesKind::ReadingCounter => registry.register(series.name(), series.help(), quantity),
        }
    }
    let mut buf = String::new();
    encode(&mut buf, &registry).expect("encode");
    buf
}

fn set(metrics: &mut AppMetrics, series: Series, labels: Pairs, v: f64) {
    let change = Change::Assign(Value::Reading(reading(v)));
    let held = metrics.commit(&vec![Update {
        series,
        labels,
        change,
    }]);
    assert!(held.is_empty());
}

fn raise(metrics: &mut AppMetrics, series: Series, labels: Pairs, v: f64) -> bool {
    let change = Change::Raise(reading(v));
    !metrics
        .commit(&vec![Update {
            series,
            labels,
            change,
        }])
        .is_empty()
}

fn value(metrics: &AppMetrics, series: Series, labels: &Pairs) -> f64 {
    number(metrics.get(series, labels).expect("sample"))
}

fn labels(optimizer: &str, display_name: &str, inverter: &str, field: &str) -> Pairs {
    OptimizerLabels {
        optimizer: optimizer.to_string(),
        display_name: display_name.to_string(),
        inverter: inverter.to_string(),
        field: field.to_string(),
    }
    .pairs()
}

#[test]
fn encode_contains_metric_names() {
    let mut m = AppMetrics::new();
    set(&mut m, Series::OptimizerPower, labels("x", "x", "x", "unassigned"), 0.0);
    m.commit(&vec![Update {
        series: Series::PortalLogin,
        labels: NoLabels {}.pairs(),
        change: Change::Count(1),
    }]);
    let out = encoded(&m);
    assert!(
        out.contains("solaredge_optimizer_power_watts"),
        "actual output:\n{out}"
    );
    assert!(
        out.contains("solaredge_portal_login_total"),
        "actual output:\n{out}"
    );
}

#[test]
fn lifetime_gauges_absent_until_set() {
    let mut m = AppMetrics::new();
    let before = encoded(&m);
    assert!(
        !before.contains("solaredge_battery_energy_charged_watt_hours 0"),
        "lifetime gauge must not emit a 0 sample before first set:\n{before}"
    );
    assert!(
        !before.lines().any(
            |l| l.starts_with("solaredge_battery_energy_charged_watt_hours ")
                || l.starts_with("solaredge_battery_energy_charged_watt_hours{")
        ),
        "lifetime gauge must be absent before first set:\n{before}"
    );

    set(
        &mut m,
        Series::BatteryEnergyCharged,
        NoLabels {}.pairs(),
        123.0,
    );
    let after = encoded(&m);
    assert!(
        after.contains("solaredge_battery_energy_charged_watt_hours"),
        "metric name must appear after set:\n{after}"
    );
    assert!(
        after.contains("123"),
        "value must appear after set:\n{after}"
    );
}

#[test]
fn lifetime_clamp_holds_on_downward_step() {
    let mut g = Reading::zero();

    assert!(!set_lifetime_monotonic(&mut g, reading(350_000.0)));
    assert_eq!(g, reading(350_000.0), "first value should set");

    assert!(set_lifetime_monotonic(&mut g, reading(349_000.0)));
    assert_eq!(g, reading(350_000.0), "downward step must be held at the max");

    assert!(!set_lifetime_monotonic(&mut g, reading(351_000.0)));
    assert_eq!(g, reading(351_000.0), "a higher value must be accepted");
}

#[test]
fn lifetime_clamp_is_per_label_set() {
    let mut m = AppMetrics::new();
    let labels_a = labels("OPT1", "1.1.1", "INV1", "Carport");
    let labels_b = labels("OPT2", "1.1.2", "INV1", "Carport");
    let series = Series::OptimizerEnergyToday;

    raise(&mut m, series, labels_a.clone(), 500_000.0);
    raise(&mut m, series, labels_b.clone(), 1_000.0);
    assert_eq!(value(&m, series, &labels_a), 500_000.0);
    assert_eq!(
        value(&m, series, &labels_b),
        1_000.0,
        "a low reading on one optimizer must not be clamped by another's max"
    );

    assert!(raise(&mut m, series, labels_b.clone(), 900.0));
    assert_eq!(
        value(&m, series, &labels_b),
        1_000.0,
        "downward step held for this label set"
    );
    assert_eq!(
        value(&m, series, &labels_a),
        500_000.0,
        "unrelated label set untouched"
    );
}

#[test]
fn gauge_values_round_trip() {
    let mut m = AppMetrics::new();
    set(
        &mut m,
        Series::OptimizerPower,
        labels("OPT1", "1.1.1", "INV1", "east"),
        123.4,
    );
    let out = encoded(&m);
    assert!(out.contains("123.4"));
    assert!(out.contains("optimizer=\"OPT1\""));
    assert!(out.contains("field=\"east\""));
}

#[test]
fn nothing_but_the_login_count_is_published_at_first() {
    let m = AppMetrics::new();
    assert_eq!(m.samples().len(), 1);
    assert_eq!(
        m.get(Series::PortalLogin, &NoLabels {}.pairs()),
        Some(Value::Count(0))
    );
}

#[test]
fn a_held_value_is_reported_with_both_values() {
    let mut m = AppMetrics::new();
    let series = Series::SitePvLifetimeEnergy;
    raise(&mut m, series, Vec::new(), 10.0);
    let held = m.commit(&vec![Update {
        series,
        labels: Vec::new(),
        change: Change::Raise(reading(9.0)),
    }]);
    assert_eq!(held.len(), 1);
    assert_eq!(held[0].series, series);
    assert_eq!(held[0].current, reading(10.0));
    assert_eq!(held[0].incoming, reading(9.0));
}

#[test]
fn what_is_no_number_is_never_stored() {
    let mut g = Reading::zero();
    assert!(!set_lifetime_monotonic(&mut g, reading(350_000.0)));
    assert!(set_lifetime_monotonic(&mut g, reading(f64::NAN)));
    assert_eq!(g, reading(350_000.0));
    assert!(set_lifetime_monotonic(&mut g, reading(1_000.0)));
    assert_eq!(g, reading(350_000.0));
    assert!(!set_lifetime_monotonic(&mut g, reading(350_001.0)));
    assert_eq!(g, reading(350_001.0));
    assert!(reading(-0.0).is_number());
    assert!(reading(f64::INFINITY).is_number());
    assert!(!reading(f64::NAN).is_number());
    assert!(!reading(-f64::NAN).is_number());
}

#[test]
fn a_first_value_below_zero_leaves_zero() {
    let mut m = AppMetrics::new();
    assert!(raise(&mut m, Series::SitePvLifetimeEnergy, Vec::new(), -1.0));
    assert_eq!(value(&m, Series::SitePvLifetimeEnergy, &Vec::new()), 0.0);
}

#[test]
fn counts_wrap_around() {
    let mut m = AppMetrics::new();
    let labels = RefreshKind::of("energy").pairs();
    for n in [u64::MAX, 3] {
        m.commit(&vec![Update {
            series: Series::PortalRefreshErrors,
            labels: labels.clone(),
            change: Change::Count(n),
        }]);
    }
    assert_eq!(
        m.get(Series::PortalRefreshErrors, &labels),
        Some(Value::Count(2))
    );
}

#[test]
fn quantities_add_up_for_each_label_set() {
    let mut m = AppMetrics::new();
    let series = Series::BatteryAcGridCharging;
    let battery = |serial: &str| BatteryLabels {
        battery: serial.to_string(),
        model: "M".to_string(),
    };
    let growth = |serial: &str, amount: f64| Growth {
        labels: battery(serial).pairs(),
        amount: reading(amount),
    };
    m.grow(
        series,
        &vec![growth("B1", 100.0), growth("B2", 1.0), growth("B1", 50.5)],
        &plus,
    );
    assert_eq!(value(&m, series, &battery("B1").pairs()), 150.5);
    assert_eq!(value(&m, series, &battery("B2").pairs()), 1.0);
    assert!(encoded(&m).contains("solaredge_battery_ac_grid_charging_watt_hours_total"));
}

#[test]
fn labels_have_their_names() {
    let names = |pairs: Pairs| pairs.into_iter().map(|p| p.0).collect::<Vec<_>>();
    assert_eq!(
        names(labels("a", "b", "c", "d")),
        vec!["optimizer", "display_name", "inverter", "field"]
    );
    let meter = MeterLabels {
        meter: "m".to_string(),
        inverter: "i".to_string(),
        meter_type: "Purchased".to_string(),
    };
    assert_eq!(names(meter.pairs()), vec!["meter", "inverter", "type"]);
    assert_eq!(meter.pairs()[2].1, "Purchased");
    assert_eq!(
        MonitoringEndpoint::of("overview").pairs(),
        vec![("endpoint".to_string(), "overview".to_string())]
    );
}

#[test]
fn series_have_distinct_names_and_the_published_kinds() {
    let all = Series::all();
    assert_eq!(all.len(), 21);
    for a in &all {
        for b in &all {
            assert_eq!(a == b, a.name() == b.name());
        }
        assert!(!a.help().is_empty());
    }
    assert_eq!(Series::PortalRefreshErrors.kind(), SeriesKind::Counter);
    assert_eq!(
        Series::BatteryAcGridCharging.kind(),
        SeriesKind::ReadingCounter
    );
    assert_eq!(Series::BatteryState.kind(), SeriesKind::Gauge);
    assert_eq!(
        Series::MeterLifetimeEnergy.name(),
        "monitoring_meter_lifetime_energy_watt_hours"
    );
}
