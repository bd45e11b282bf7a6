//! The series that the exporter publishes.

use vstd::prelude::*;

verus! {

/// What a series is to Prometheus.
#[derive(Debug, Clone, Copy, PartialEq, Eq, Structural)]
pub enum SeriesKind {
    /// A value that may go up and down.
    Gauge,
    /// A count of events.
    Counter,
    /// A counter of a measured quantity.
    ReadingCounter,
}

/// A series.
#[derive(Debug, Clone, Copy, PartialEq, Eq, Structural)]
pub enum Series {
    /// Power of an optimizer, in watts.
    OptimizerPower,
    /// Voltage at the terminals of a PV module, in volts.
    OptimizerModuleVoltage,
    /// Voltage at the output of an optimizer, in volts.
    OptimizerDcVoltage,
    /// Current through an optimizer, in amperes.
    OptimizerCurrent,
    /// Energy that an optimizer produced, in watt hours. A lifetime total.
    OptimizerEnergyToday,
    /// When an optimizer last measured, in Unix seconds.
    OptimizerLastMeasurement,
    /// When a kind of portal data last came, in Unix seconds.
    PortalLastRefresh,
    /// How long a portal refresh took, in seconds.
    PortalRefreshDuration,
    /// How many portal refreshes failed.
    PortalRefreshErrors,
    /// How many logins the portal has seen.
    PortalLogin,
    /// Energy charged into the battery from PV, in watt hours. A lifetime total.
    BatteryEnergyCharged,
    /// Energy discharged from the battery, in watt hours. A lifetime total.
    BatteryEnergyDischarged,
    /// Energy charged into a battery from the grid, in watt hours.
    BatteryAcGridCharging,
    /// Energy that a battery can hold now, in watt hours.
    BatteryFullPackEnergy,
    /// State of a battery, as the API numbers it.
    BatteryState,
    /// Reading of a site meter, in watt hours. A lifetime total.
    MeterLifetimeEnergy,
    /// PV energy of the site, in watt hours. A lifetime total.
    SitePvLifetimeEnergy,
    /// When an endpoint of the Monitoring API last answered, in Unix seconds.
    MonitoringApiLastRefresh,
    /// How long an endpoint of the Monitoring API took to answer, in seconds.
    MonitoringApiRefreshDuration,
    /// How many calls of an endpoint failed.
    MonitoringApiRefreshErrors,
    /// How many calls of an endpoint were made.
    MonitoringApiRequests,
}

/// What stands before every name.
pub const PREFIX: &'static str = "solaredge";

impl Series {
    /// The name, without the prefix.
    pub open spec fn name_text(self) -> Seq<char> {
        match self {
            Series::OptimizerPower => "optimizer_power_watts"@,
            Series::OptimizerModuleVoltage => "optimizer_module_voltage_volts"@,
            Series::OptimizerDcVoltage => "optimizer_dc_voltage_volts"@,
            Series::OptimizerCurrent => "optimizer_current_amperes"@,
            Series::OptimizerEnergyToday => "optimizer_energy_today_watt_hours"@,
            Series::OptimizerLastMeasurement => "optimizer_last_measurement_timestamp_seconds"@,
            Series::PortalLastRefresh => "portal_last_refresh_timestamp_seconds"@,
            Series::PortalRefreshDuration => "portal_refresh_duration_seconds"@,
            Series::PortalRefreshErrors => "portal_refresh_errors"@,
            Series::PortalLogin => "portal_login"@,
            Series::BatteryEnergyCharged => "battery_energy_charged_watt_hours"@,
            Series::BatteryEnergyDischarged => "battery_energy_discharged_watt_hours"@,
            Series::BatteryAcGridCharging => "battery_ac_grid_charging_watt_hours"@,
            Series::BatteryFullPackEnergy => "battery_full_pack_energy_watt_hours"@,
            Series::BatteryState => "battery_state"@,
            Series::MeterLifetimeEnergy => "monitoring_meter_lifetime_energy_watt_hours"@,
            Series::SitePvLifetimeEnergy => "site_pv_lifetime_energy_watt_hours"@,
            Series::MonitoringApiLastRefresh => "monitoring_api_last_refresh_timestamp_seconds"@,
            Series::MonitoringApiRefreshDuration => "monitoring_api_refresh_duration_seconds"@,
            Series::MonitoringApiRefreshErrors => "monitoring_api_refresh_errors"@,
            Series::MonitoringApiRequests => "monitoring_api_requests"@,
        }
    }

    /// The text that explains the series.
    pub open spec fn help_text(self) -> Seq<char> {
        match self {
            Series::OptimizerPower => "Instantaneous AC power reported by the optimizer"@,
            Series::OptimizerModuleVoltage => "Voltage at the PV module terminals"@,
            Series::OptimizerDcVoltage => "DC voltage at the optimizer output"@,
            Series::OptimizerCurrent => "DC current through the optimizer"@,
            Series::OptimizerEnergyToday => "Energy produced by the optimizer since the start of the current day, in Wh"@,
            Series::OptimizerLastMeasurement => "Unix timestamp of the optimizer's most recent measurement"@,
            Series::PortalLastRefresh => "Unix timestamp of the last successful portal refresh"@,
            Series::PortalRefreshDuration => "Wall-clock duration of the last portal refresh"@,
            Series::PortalRefreshErrors => "Count of failed portal refresh attempts"@,
            Series::PortalLogin => "Count of Cognito SRP logins for the portal /services/ API (token lives ~24h)"@,
            Series::BatteryEnergyCharged => "Site lifetime energy charged into the battery from PV, in Wh (from the portal dashboard energy endpoint; excludes grid charging — see battery_ac_grid_charging_watt_hours)"@,
            Series::BatteryEnergyDischarged => "Site lifetime energy discharged from the battery to the home, in Wh (from the portal dashboard energy endpoint)"@,
            Series::BatteryAcGridCharging => "Cumulative AC energy used to charge the battery from the grid (Wh, monotonic counter). Accumulated from non-overlapping API query windows and persisted to monitoring_api.state_file across exporter restarts"@,
            Series::BatteryFullPackEnergy => "Current maximum energy storable in the battery, in Wh (divide by nameplate for State-of-Health)"@,
            Series::BatteryState => "Raw batteryState value reported by the API. The public docs list 0=Invalid/1=Standby/2=ThermalMgmt/3=Enabled/4=Fault, but that mapping is stale for newer SolarEdge Home Battery families (value 4 has been observed on healthy discharging batteries) — interpret in conjunction with the portal UI"@,
            Series::MeterLifetimeEnergy => "Lifetime energy reading from a site meter (Production/Consumption/FeedIn/Purchased)"@,
            Series::SitePvLifetimeEnergy => "Lifetime PV energy produced at the site, in Wh"@,
            Series::MonitoringApiLastRefresh => "Unix timestamp of the last successful public Monitoring API call per endpoint"@,
            Series::MonitoringApiRefreshDuration => "Wall-clock duration of the last successful public Monitoring API call per endpoint"@,
            Series::MonitoringApiRefreshErrors => "Count of failed public Monitoring API calls per endpoint"@,
            Series::MonitoringApiRequests => "Count of public Monitoring API calls per endpoint (watch against the 300/day cap)"@,
        }
    }

    /// What the series is to Prometheus.
    pub open spec fn spec_kind(self) -> SeriesKind {
        match self {
            Series::PortalRefreshErrors
            | Series::PortalLogin
            | Series::MonitoringApiRefreshErrors
            | Series::MonitoringApiRequests => SeriesKind::Counter,
            Series::BatteryAcGridCharging => SeriesKind::ReadingCounter,
            _ => SeriesKind::Gauge,
        }
    }

    /// True of the gauges that hold a lifetime total.
    pub open spec fn lifetime(self) -> bool {
        self is OptimizerEnergyToday || self is BatteryEnergyCharged
            || self is BatteryEnergyDischarged || self is MeterLifetimeEnergy
            || self is SitePvLifetimeEnergy
    }

    /// The name, without the prefix.
    pub fn name(&self) -> (r: &'static str)
        ensures
            r@ == self.name_text(),
    {
        match self {
            Series::OptimizerPower => "optimizer_power_watts",
            Series::OptimizerModuleVoltage => "optimizer_module_voltage_volts",
            Series::OptimizerDcVoltage => "optimizer_dc_voltage_volts",
            Series::OptimizerCurrent => "optimizer_current_amperes",
            Series::OptimizerEnergyToday => "optimizer_energy_today_watt_hours",
            Series::OptimizerLastMeasurement => "optimizer_last_measurement_timestamp_seconds",
            Series::PortalLastRefresh => "portal_last_refresh_timestamp_seconds",
            Series::PortalRefreshDuration => "portal_refresh_duration_seconds",
            Series::PortalRefreshErrors => "portal_refresh_errors",
            Series::PortalLogin => "portal_login",
            Series::BatteryEnergyCharged => "battery_energy_charged_watt_hours",
            Series::BatteryEnergyDischarged => "battery_energy_discharged_watt_hours",
            Series::BatteryAcGridCharging => "battery_ac_grid_charging_watt_hours",
            Series::BatteryFullPackEnergy => "battery_full_pack_energy_watt_hours",
            Series::BatteryState => "battery_state",
            Series::MeterLifetimeEnergy => "monitoring_meter_lifetime_energy_watt_hours",
            Series::SitePvLifetimeEnergy => "site_pv_lifetime_energy_watt_hours",
            Series::MonitoringApiLastRefresh => "monitoring_api_last_refresh_timestamp_seconds",
            Series::MonitoringApiRefreshDuration => "monitoring_api_refresh_duration_seconds",
            Series::MonitoringApiRefreshErrors => "monitoring_api_refresh_errors",
            Series::MonitoringApiRequests => "monitoring_api_requests",
        }
    }

    /// The text that explains the series.
    pub fn help(&self) -> (r: &'static str)
        ensures
            r@ == self.help_text(),
    {
        match self {
            Series::OptimizerPower => "Instantaneous AC power reported by the optimizer",
            Series::OptimizerModuleVoltage => "Voltage at the PV module terminals",
            Series::OptimizerDcVoltage => "DC voltage at the optimizer output",
            Series::OptimizerCurrent => "DC current through the optimizer",
            Series::OptimizerEnergyToday => "Energy produced by the optimizer since the start of the current day, in Wh",
            Series::OptimizerLastMeasurement => "Unix timestamp of the optimizer's most recent measurement",
            Series::PortalLastRefresh => "Unix timestamp of the last successful portal refresh",
            Series::PortalRefreshDuration => "Wall-clock duration of the last portal refresh",
            Series::PortalRefreshErrors => "Count of failed portal refresh attempts",
            Series::PortalLogin => "Count of Cognito SRP logins for the portal /services/ API (token lives ~24h)",
            Series::BatteryEnergyCharged => "Site lifetime energy charged into the battery from PV, in Wh (from the portal dashboard energy endpoint; excludes grid charging — see battery_ac_grid_charging_watt_hours)",
            Series::BatteryEnergyDischarged => "Site lifetime energy discharged from the battery to the home, in Wh (from the portal dashboard energy endpoint)",
            Series::BatteryAcGridCharging => "Cumulative AC energy used to charge the battery from the grid (Wh, monotonic counter). Accumulated from non-overlapping API query windows and persisted to monitoring_api.state_file across exporter restarts",
            Series::BatteryFullPackEnergy => "Current maximum energy storable in the battery, in Wh (divide by nameplate for State-of-Health)",
            Series::BatteryState => "Raw batteryState value reported by the API. The public docs list 0=Invalid/1=Standby/2=ThermalMgmt/3=Enabled/4=Fault, but that mapping is stale for newer SolarEdge Home Battery families (value 4 has been observed on healthy discharging batteries) — interpret in conjunction with the portal UI",
            Series::MeterLifetimeEnergy => "Lifetime energy reading from a site meter (Production/Consumption/FeedIn/Purchased)",
            Series::SitePvLifetimeEnergy => "Lifetime PV energy produced at the site, in Wh",
            Series::MonitoringApiLastRefresh => "Unix timestamp of the last successful public Monitoring API call per endpoint",
            Series::MonitoringApiRefreshDuration => "Wall-clock duration of the last successful public Monitoring API call per endpoint",
            Series::MonitoringApiRefreshErrors => "Count of failed public Monitoring API calls per endpoint",
            Series::MonitoringApiRequests => "Count of public Monitoring API calls per endpoint (watch against the 300/day cap)",
        }
    }

    /// What the series is to Prometheus.
    pub fn kind(&self) -> (r: SeriesKind)
        ensures
            r == self.spec_kind(),
    {
        match self {
            Series::PortalRefreshErrors
            | Series::PortalLogin
            | Series::MonitoringApiRefreshErrors
            | Series::MonitoringApiRequests => SeriesKind::Counter,
            Series::BatteryAcGridCharging => SeriesKind::ReadingCounter,
            _ => SeriesKind::Gauge,
        }
    }

    /// Every series, in the order in which they are published.
    pub open spec fn listing() -> Seq<Series> {
        seq![
            Series::OptimizerPower,
            Series::OptimizerModuleVoltage,
            Series::OptimizerDcVoltage,
            Series::OptimizerCurrent,
            Series::OptimizerEnergyToday,
            Series::OptimizerLastMeasurement,
            Series::PortalLastRefresh,
            Series::PortalRefreshDuration,
            Series::PortalRefreshErrors,
            Series::PortalLogin,
            Series::BatteryEnergyCharged,
            Series::BatteryEnergyDischarged,
            Series::BatteryAcGridCharging,
            Series::BatteryFullPackEnergy,
            Series::BatteryState,
            Series::MeterLifetimeEnergy,
            Series::SitePvLifetimeEnergy,
            Series::MonitoringApiLastRefresh,
            Series::MonitoringApiRefreshDuration,
            Series::MonitoringApiRefreshErrors,
            Series::MonitoringApiRequests,
        ]
    }

    /// Every series, in the order in which they are published.
    pub fn all() -> (r: Vec<Series>)
        ensures
            r@ == Series::listing(),
    {
        let r = vec![
            Series::OptimizerPower,
            Series::OptimizerModuleVoltage,
            Series::OptimizerDcVoltage,
            Series::OptimizerCurrent,
            Series::OptimizerEnergyToday,
            Series::OptimizerLastMeasurement,
            Series::PortalLastRefresh,
            Series::PortalRefreshDuration,
            Series::PortalRefreshErrors,
            Series::PortalLogin,
            Series::BatteryEnergyCharged,
            Series::BatteryEnergyDischarged,
            Series::BatteryAcGridCharging,
            Series::BatteryFullPackEnergy,
            Series::BatteryState,
            Series::MeterLifetimeEnergy,
            Series::SitePvLifetimeEnergy,
            Series::MonitoringApiLastRefresh,
            Series::MonitoringApiRefreshDuration,
            Series::MonitoringApiRefreshErrors,
            Series::MonitoringApiRequests,
        ];
        assert(r@ =~= Series::listing());
        r
    }
}

/// Every series is listed.
pub proof fn lemma_every_series_listed(s: Series)
    ensures
        Series::listing().contains(s),
{
    let all = Series::listing();
    match s {
        Series::OptimizerPower => assert(all[0] == s),
        Series::OptimizerModuleVoltage => assert(all[1] == s),
        Series::OptimizerDcVoltage => assert(all[2] == s),
        Series::OptimizerCurrent => assert(all[3] == s),
        Series::OptimizerEnergyToday => assert(all[4] == s),
        Series::OptimizerLastMeasurement => assert(all[5] == s),
        Series::PortalLastRefresh => assert(all[6] == s),
        Series::PortalRefreshDuration => assert(all[7] == s),
        Series::PortalRefreshErrors => assert(all[8] == s),
        Series::PortalLogin => assert(all[9] == s),
        Series::BatteryEnergyCharged => assert(all[10] == s),
        Series::BatteryEnergyDischarged => assert(all[11] == s),
        Series::BatteryAcGridCharging => assert(all[12] == s),
        Series::BatteryFullPackEnergy => assert(all[13] == s),
        Series::BatteryState => assert(all[14] == s),
        Series::MeterLifetimeEnergy => assert(all[15] == s),
        Series::SitePvLifetimeEnergy => assert(all[16] == s),
        Series::MonitoringApiLastRefresh => assert(all[17] == s),
        Series::MonitoringApiRefreshDuration => assert(all[18] == s),
        Series::MonitoringApiRefreshErrors => assert(all[19] == s),
        Series::MonitoringApiRequests => assert(all[20] == s),
    }
}

/// No two series have the same name.
pub proof fn lemma_names_distinct(a: Series, b: Series)
    requires
        a.name_text() == b.name_text(),
    ensures
        a == b,
{
    reveal_strlit("optimizer_power_watts");
    reveal_strlit("optimizer_module_voltage_volts");
    reveal_strlit("optimizer_dc_voltage_volts");
    reveal_strlit("optimizer_current_amperes");
    reveal_strlit("optimizer_energy_today_watt_hours");
    reveal_strlit("optimizer_last_measurement_timestamp_seconds");
    reveal_strlit("portal_last_refresh_timestamp_seconds");
    reveal_strlit("portal_refresh_duration_seconds");
    reveal_strlit("portal_refresh_errors");
    reveal_strlit("portal_login");
    reveal_strlit("battery_energy_charged_watt_hours");
    reveal_strlit("battery_energy_discharged_watt_hours");
    reveal_strlit("battery_ac_grid_charging_watt_hours");
    reveal_strlit("battery_full_pack_energy_watt_hours");
    reveal_strlit("battery_state");
    reveal_strlit("monitoring_meter_lifetime_energy_watt_hours");
    reveal_strlit("site_pv_lifetime_energy_watt_hours");
    reveal_strlit("monitoring_api_last_refresh_timestamp_seconds");
    reveal_strlit("monitoring_api_refresh_duration_seconds");
    reveal_strlit("monitoring_api_refresh_errors");
    reveal_strlit("monitoring_api_requests");
    // The lengths and the characters at one place tell all names apart.
    let name = a.name_text();
    assert(name[8] == b.name_text()[8]);
    assert(name.len() == b.name_text().len());
}

/// Each name that is published is that of one series, and each series has its
/// name.
pub proof fn lemma_names(s: Series)
    ensures
        s.name_text() == "optimizer_power_watts"@ <==> s == Series::OptimizerPower,
        s.name_text() == "optimizer_module_voltage_volts"@ <==> s == Series::OptimizerModuleVoltage,
        s.name_text() == "optimizer_dc_voltage_volts"@ <==> s == Series::OptimizerDcVoltage,
        s.name_text() == "optimizer_current_amperes"@ <==> s == Series::OptimizerCurrent,
        s.name_text() == "optimizer_energy_today_watt_hours"@ <==> s
            == Series::OptimizerEnergyToday,
        s.name_text() == "optimizer_last_measurement_timestamp_seconds"@ <==> s
            == Series::OptimizerLastMeasurement,
        s.name_text() == "portal_last_refresh_timestamp_seconds"@ <==> s
            == Series::PortalLastRefresh,
        s.name_text() == "portal_refresh_duration_seconds"@ <==> s == Series::PortalRefreshDuration,
        s.name_text() == "portal_refresh_errors"@ <==> s == Series::PortalRefreshErrors,
        s.name_text() == "portal_login"@ <==> s == Series::PortalLogin,
        s.name_text() == "battery_energy_charged_watt_hours"@ <==> s
            == Series::BatteryEnergyCharged,
        s.name_text() == "battery_energy_discharged_watt_hours"@ <==> s
            == Series::BatteryEnergyDischarged,
        s.name_text() == "battery_ac_grid_charging_watt_hours"@ <==> s
            == Series::BatteryAcGridCharging,
        s.name_text() == "battery_full_pack_energy_watt_hours"@ <==> s
            == Series::BatteryFullPackEnergy,
        s.name_text() == "battery_state"@ <==> s == Series::BatteryState,
        s.name_text() == "monitoring_meter_lifetime_energy_watt_hours"@ <==> s
            == Series::MeterLifetimeEnergy,
        s.name_text() == "site_pv_lifetime_energy_watt_hours"@ <==> s
            == Series::SitePvLifetimeEnergy,
        s.name_text() == "monitoring_api_last_refresh_timestamp_seconds"@ <==> s
            == Series::MonitoringApiLastRefresh,
        s.name_text() == "monitoring_api_refresh_duration_seconds"@ <==> s
            == Series::MonitoringApiRefreshDuration,
        s.name_text() == "monitoring_api_refresh_errors"@ <==> s
            == Series::MonitoringApiRefreshErrors,
        s.name_text() == "monitoring_api_requests"@ <==> s == Series::MonitoringApiRequests,
{
    let all = Series::listing();
    assert forall|t: Series| #[trigger] t.name_text() == s.name_text() implies t == s by {
        lemma_names_distinct(t, s);
    }
    assert(Series::OptimizerPower.name_text() == "optimizer_power_watts"@);
    assert(Series::OptimizerModuleVoltage.name_text() == "optimizer_module_voltage_volts"@);
    assert(Series::OptimizerDcVoltage.name_text() == "optimizer_dc_voltage_volts"@);
    assert(Series::OptimizerCurrent.name_text() == "optimizer_current_amperes"@);
    assert(Series::OptimizerEnergyToday.name_text() == "optimizer_energy_today_watt_hours"@);
    assert(Series::OptimizerLastMeasurement.name_text()
        == "optimizer_last_measurement_timestamp_seconds"@);
    assert(Series::PortalLastRefresh.name_text() == "portal_last_refresh_timestamp_seconds"@);
    assert(Series::PortalRefreshDuration.name_text() == "portal_refresh_duration_seconds"@);
    assert(Series::PortalRefreshErrors.name_text() == "portal_refresh_errors"@);
    assert(Series::PortalLogin.name_text() == "portal_login"@);
    assert(Series::BatteryEnergyCharged.name_text() == "battery_energy_charged_watt_hours"@);
    assert(Series::BatteryEnergyDischarged.name_text() == "battery_energy_discharged_watt_hours"@);
    assert(Series::BatteryAcGridCharging.name_text() == "battery_ac_grid_charging_watt_hours"@);
    assert(Series::BatteryFullPackEnergy.name_text() == "battery_full_pack_energy_watt_hours"@);
    assert(Series::BatteryState.name_text() == "battery_state"@);
    assert(Series::MeterLifetimeEnergy.name_text()
        == "monitoring_meter_lifetime_energy_watt_hours"@);
    assert(Series::SitePvLifetimeEnergy.name_text() == "site_pv_lifetime_energy_watt_hours"@);
    assert(Series::MonitoringApiLastRefresh.name_text()
        == "monitoring_api_last_refresh_timestamp_seconds"@);
    assert(Series::MonitoringApiRefreshDuration.name_text()
        == "monitoring_api_refresh_duration_seconds"@);
    assert(Series::MonitoringApiRefreshErrors.name_text() == "monitoring_api_refresh_errors"@);
    assert(Series::MonitoringApiRequests.name_text() == "monitoring_api_requests"@);
}

/// Only what counts is a counter: failures, requests, logins, and the energy
/// charged from the grid, which is counted as a measured quantity. Lifetime
/// totals, which may be held but never lowered, are gauges.
pub proof fn lemma_kinds(s: Series)
    ensures
        s.spec_kind() is Counter <==> s.name_text() == "portal_refresh_errors"@ || s.name_text()
            == "portal_login"@ || s.name_text() == "monitoring_api_refresh_errors"@ || s.name_text()
            == "monitoring_api_requests"@,
        s.spec_kind() is ReadingCounter <==> s.name_text() == "battery_ac_grid_charging_watt_hours"@,
        s.lifetime() <==> s.name_text() == "optimizer_energy_today_watt_hours"@ || s.name_text()
            == "battery_energy_charged_watt_hours"@ || s.name_text()
            == "battery_energy_discharged_watt_hours"@ || s.name_text()
            == "monitoring_meter_lifetime_energy_watt_hours"@ || s.name_text()
            == "site_pv_lifetime_energy_watt_hours"@,
        s.lifetime() ==> s.spec_kind() is Gauge,
{
    lemma_names(s);
}

/// What every series says of itself: what is measured and in which unit, and
/// where that is not plain, where it comes from.
pub proof fn lemma_explained(s: &Series, h: &'static str)
    requires
        call_ensures(Series::help, (s,), h),
    ensures
        s is OptimizerPower ==> h@ == "Instantaneous AC power reported by the optimizer"@,
        s is OptimizerModuleVoltage ==> h@ == "Voltage at the PV module terminals"@,
        s is OptimizerDcVoltage ==> h@ == "DC voltage at the optimizer output"@,
        s is OptimizerCurrent ==> h@ == "DC current through the optimizer"@,
        s is OptimizerEnergyToday ==> h@ == "Energy produced by the optimizer since the start of the current day, in Wh"@,
        s is OptimizerLastMeasurement ==> h@ == "Unix timestamp of the optimizer's most recent measurement"@,
        s is PortalLastRefresh ==> h@ == "Unix timestamp of the last successful portal refresh"@,
        s is PortalRefreshDuration ==> h@ == "Wall-clock duration of the last portal refresh"@,
        s is PortalRefreshErrors ==> h@ == "Count of failed portal refresh attempts"@,
        s is PortalLogin ==> h@ == "Count of Cognito SRP logins for the portal /services/ API (token lives ~24h)"@,
        s is BatteryEnergyCharged ==> h@ == "Site lifetime energy charged into the battery from PV, in Wh (from the portal dashboard energy endpoint; excludes grid charging — see battery_ac_grid_charging_watt_hours)"@,
        s is BatteryEnergyDischarged ==> h@ == "Site lifetime energy discharged from the battery to the home, in Wh (from the portal dashboard energy endpoint)"@,
        s is BatteryAcGridCharging ==> h@ == "Cumulative AC energy used to charge the battery from the grid (Wh, monotonic counter). Accumulated from non-overlapping API query windows and persisted to monitoring_api.state_file across exporter restarts"@,
        s is BatteryFullPackEnergy ==> h@ == "Current maximum energy storable in the battery, in Wh (divide by nameplate for State-of-Health)"@,
        s is BatteryState ==> h@ == "Raw batteryState value reported by the API. The public docs list 0=Invalid/1=Standby/2=ThermalMgmt/3=Enabled/4=Fault, but that mapping is stale for newer SolarEdge Home Battery families (value 4 has been observed on healthy discharging batteries) — interpret in conjunction with the portal UI"@,
        s is MeterLifetimeEnergy ==> h@ == "Lifetime energy reading from a site meter (Production/Consumption/FeedIn/Purchased)"@,
        s is SitePvLifetimeEnergy ==> h@ == "Lifetime PV energy produced at the site, in Wh"@,
        s is MonitoringApiLastRefresh ==> h@ == "Unix timestamp of the last successful public Monitoring API call per endpoint"@,
        s is MonitoringApiRefreshDuration ==> h@ == "Wall-clock duration of the last successful public Monitoring API call per endpoint"@,
        s is MonitoringApiRefreshErrors ==> h@ == "Count of failed public Monitoring API calls per endpoint"@,
        s is MonitoringApiRequests ==> h@ == "Count of public Monitoring API calls per endpoint (watch against the 300/day cap)"@,
{
}

} // verus!
