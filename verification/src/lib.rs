//! The logic of a Prometheus exporter for SolarEdge sites: what is asked of
//! the portal and of the public Monitoring API, what their answers come to,
//! and how the published samples change.

pub mod config;
pub mod lists;
pub mod measurement;
pub mod metrics;
pub mod monitoring_api;
pub mod portal;
pub mod reading;
pub mod scrape;
pub mod serial_map;
pub mod series;
pub mod server;
pub mod startup;
pub mod text;
pub mod time;
