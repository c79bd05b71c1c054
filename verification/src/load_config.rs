//! From what the configuration file and the environment hold to a `Config`.
//!
//! The file names everything but the password of a persistent repository, which
//! comes from the environment.

use vstd::prelude::*;
use crate::config;

verus! {

/// A persistent repository as the file describes it: without its password.
#[derive(Debug, PartialEq, Eq)]
pub struct Persistent {
    pub name: String,
    pub host: String,
    pub port: u16,
    pub user: String,
    pub ssl: bool,
}

#[derive(Debug, PartialEq, Eq)]
pub enum Repository {
    Persistent(Persistent),
    InMemory,
}

/// The contents of the configuration file.
#[derive(Debug, PartialEq, Eq)]
pub struct FileConfig {
    pub automigrate: bool,
    pub log_level: String,
    pub metrics: config::Metrics,
    pub repository: Repository,
    pub reset_state: bool,
    pub transmitter: config::Transmitter,
    pub transport: config::Transport,
}

/// What the environment holds: the repository password, where it is set.
#[derive(Debug, PartialEq, Eq)]
pub struct EnvConfig {
    pub store_password: Option<String>,
}

#[derive(Debug, PartialEq, Eq)]
pub enum ConfigError {
    /// A persistent repository is configured and the environment holds no password
    /// for it.
    MissingPassword,
}

/// The configuration that a file and an environment give: the file's values, with
/// the password added to a persistent repository. A persistent repository without a
/// password is an error; an in-memory repository needs none.
pub open spec fn derived(config: FileConfig, secrets: EnvConfig) -> Result<
    config::Config,
    ConfigError,
> {
    match config.repository {
        Repository::InMemory => Ok(
            config::Config {
                automigrate: config.automigrate,
                log_level: config.log_level,
                metrics: config.metrics,
                repository: config::Repository::InMemory,
                reset_state: config.reset_state,
                transmitter: config.transmitter,
                transport: config.transport,
            },
        ),
        Repository::Persistent(store) => match secrets.store_password {
            None => Err(ConfigError::MissingPassword),
            Some(password) => Ok(
                config::Config {
                    automigrate: config.automigrate,
                    log_level: config.log_level,
                    metrics: config.metrics,
                    repository: config::Repository::Persistent(
                        config::Persistent {
                            name: store.name,
                            host: store.host,
                            port: store.port,
                            user: store.user,
                            password,
                            ssl: store.ssl,
                        },
                    ),
                    reset_state: config.reset_state,
                    transmitter: config.transmitter,
                    transport: config.transport,
                },
            ),
        },
    }
}

pub fn derive_config(config: FileConfig, secrets: EnvConfig) -> (r: Result<
    config::Config,
    ConfigError,
>)
    ensures
        r == derived(config, secrets),
{
    let repository = match config.repository {
        Repository::InMemory => config::Repository::InMemory,
        Repository::Persistent(store) => match secrets.store_password {
            None => {
                return Err(ConfigError::MissingPassword);
            },
            Some(password) => config::Repository::Persistent(
                config::Persistent {
                    name: store.name,
                    host: store.host,
                    port: store.port,
                    user: store.user,
                    password,
                    ssl: store.ssl,
                },
            ),
        },
    };
    Ok(
        config::Config {
            automigrate: config.automigrate,
            log_level: config.log_level,
            metrics: config.metrics,
            repository,
            reset_state: config.reset_state,
            transmitter: config.transmitter,
            transport: config.transport,
        },
    )
}

/// Builds the configuration from the parsed file and from the password that the
/// environment holds, if it holds one.
pub fn load_config(config: FileConfig, store_password: Option<String>) -> (r: Result<
    config::Config,
    ConfigError,
>)
    ensures
        r == derived(config, EnvConfig { store_password }),
{
    derive_config(config, EnvConfig { store_password })
}

} // verus!
