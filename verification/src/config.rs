//! The configuration that the scheduler is built from.

use vstd::prelude::*;

verus! {

/// Where counters are sent.
#[derive(Debug, PartialEq, Eq)]
pub struct Metrics {
    pub endpoint: String,
    pub labels: Vec<(String, String)>,
}

/// Settings of the outbound channel, as the channel names them.
#[derive(Debug, PartialEq, Eq)]
pub struct Transmitter {
    pub settings: Vec<(String, String)>,
}

/// Parameters of the outbound transport, as the transport names them.
#[derive(Debug, PartialEq, Eq)]
pub struct Transport {
    pub parameters: Vec<(String, String)>,
}

/// How to reach a persistent repository.
#[derive(Debug, PartialEq, Eq)]
pub struct Persistent {
    pub name: String,
    pub host: String,
    pub port: u16,
    pub user: String,
    pub password: String,
    pub ssl: bool,
}

/// Which repository keeps the schedules.
#[derive(Debug, PartialEq, Eq)]
pub enum Repository {
    Persistent(Persistent),
    InMemory,
}

#[derive(Debug, PartialEq, Eq)]
pub struct Config {
    /// Apply schema migrations to a persistent repository on boot.
    pub automigrate: bool,
    pub log_level: String,
    pub metrics: Metrics,
    pub repository: Repository,
    /// Clear all stored schedules on boot.
    pub reset_state: bool,
    pub transmitter: Transmitter,
    pub transport: Transport,
}

} // verus!
