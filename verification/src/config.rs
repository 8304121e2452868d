//! The run's configuration: connection parameters for both engines and the
//! run-wide settings. Loading and validating the configuration file is the
//! surrounding program's job; the core only carries the values.

use vstd::prelude::*;

verus! {

/// Where one database engine lives and how to sign in.
#[derive(Debug, Clone)]
pub struct DatabaseConfig {
    pub host: String,
    pub port: u16,
    pub username: String,
    pub password: String,
    pub database: String,
}

/// The run-wide settings.
#[derive(Debug, Clone)]
pub struct SettingsConfig {
    pub max_packet_bytes: usize,
    pub collation: String,
    pub whitelisted_tables: Vec<String>,
}

/// Both engines' connection parameters and the settings, as one value.
#[derive(Debug)]
pub struct Config {
    mssql_database: DatabaseConfig,
    mysql_database: DatabaseConfig,
    settings: SettingsConfig,
}

impl Config {
    /// The stored source-engine parameters.
    pub closed spec fn spec_mssql(&self) -> DatabaseConfig {
        self.mssql_database
    }

    /// The stored destination-engine parameters.
    pub closed spec fn spec_mysql(&self) -> DatabaseConfig {
        self.mysql_database
    }

    /// The stored settings.
    pub closed spec fn spec_settings(&self) -> SettingsConfig {
        self.settings
    }

    /// Bundles the two connection configurations with the settings.
    pub fn new(
        mssql_database: DatabaseConfig,
        mysql_database: DatabaseConfig,
        settings: SettingsConfig,
    ) -> (r: Config)
        ensures
            r.spec_mssql() == mssql_database,
            r.spec_mysql() == mysql_database,
            r.spec_settings() == settings,
    {
        Config { mssql_database, mysql_database, settings }
    }

    /// The source engine's connection parameters.
    pub fn mssql_database(&self) -> (r: &DatabaseConfig)
        ensures
            *r == self.spec_mssql(),
    {
        &self.mssql_database
    }

    /// The destination engine's connection parameters.
    pub fn mysql_database(&self) -> (r: &DatabaseConfig)
        ensures
            *r == self.spec_mysql(),
    {
        &self.mysql_database
    }

    /// The run-wide settings.
    pub fn settings(&self) -> (r: &SettingsConfig)
        ensures
            *r == self.spec_settings(),
    {
        &self.settings
    }
}

} // verus!
