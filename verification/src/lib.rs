//! Keeps a fleet of local proxy engines in line with a subscription feed:
//! decodes the feed, merges the saved settings into the fetched servers,
//! assigns local ports, and decides what a reconciliation cycle stops and
//! starts. Fetching, spawning and persistence are the caller's.

pub mod config;
pub mod feed;
pub mod metadata;
pub mod ports;
pub mod reconcile;
pub mod registry;
pub mod server;
pub mod table;
pub mod text;
pub mod vpn;
pub mod xray_manager;
