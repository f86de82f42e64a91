//! Uptime monitoring engine for a dashboard of bookmarked sites.
//!
//! The crate holds the rules of the dashboard, each with a contract that is
//! proved:
//!
//! - `uptime`: status samples, the bounded history of a site, its
//!   availability and the classification of a probe;
//! - `uptime_proofs`: what holds of a history under every sequence of checks;
//! - `store`: the timeline store, one history per site;
//! - `bus`: the update bus, which fans events out to subscribers;
//! - `scheduler`: the tick cycle and its concurrency limiter;
//! - `engine`: the engine, which ties store, bus and scheduler together;
//! - `config`, `settings`, `telemetry`, `index`, `server`, `sites`, `error`,
//!   `text`: the configuration, the settings form and what surrounds them.
//!
//! The engine decides and never waits: a caller fires its ticks, runs the
//! probes it hands out and carries its events to the clients.

pub mod bus;
pub mod config;
pub mod engine;
pub mod error;
pub mod index;
pub mod scheduler;
pub mod server;
pub mod settings;
pub mod sites;
pub mod store;
pub mod telemetry;
pub mod text;
pub mod uptime;
pub mod uptime_proofs;
