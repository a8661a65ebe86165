//! Polls Enphase Envoy gateways and republishes what they report as
//! Prometheus gauges.
//!
//! The crate holds the decisions of the exporter: how a device's two JSON
//! replies become one snapshot, how snapshots and failures are written into
//! the gauge registry, and which response a request gets. Sockets and files
//! are left to the caller, who hands over the bytes it read.

pub mod assoc;

pub mod config;

pub mod envoy_reader;

pub mod exporter;

pub mod exposition;

pub mod gauges;

pub mod json;

