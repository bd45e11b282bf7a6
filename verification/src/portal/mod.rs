//! The SolarEdge portal.

pub mod client;
pub mod cognito;
pub mod models;

pub use client::{Credentials, PortalClient, Secret};
pub use models::{flatten_layout_v2, FlatOptimizer};
