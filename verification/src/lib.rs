//! Exporter core for a UniFi network controller: a validated configuration,
//! a canonical model of devices, clients and sites, the session and retry
//! rules for talking to the controller, and a metrics registry that is
//! rebuilt from each fetched collection and rendered in the text exposition
//! format.

pub mod config;
pub mod family;
pub mod metrics;
pub mod render;
pub mod sample;
pub mod strutil;
pub mod unifi;
pub mod unifi_integration;
