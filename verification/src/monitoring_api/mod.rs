//! The public Monitoring API.

pub mod client;
pub mod models;
pub mod scrape;
pub mod state;

pub use client::MonitoringApiClient;
