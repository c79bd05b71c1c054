//! A durable message scheduler: schedules with a temporal pattern are stored,
//! claimed when due, handed to a transmitter and advanced or completed.

pub mod config;
pub mod contract;
pub mod cron_expr;
pub mod laws;
pub mod load_config;
pub mod model;
pub mod record;
pub mod repository_in_memory;
pub mod scheduler;
pub mod time;
