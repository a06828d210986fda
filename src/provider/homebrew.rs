//! Records the sensor service keeps in its database.
use vstd::prelude::*;

use crate::config::DatabaseConfig;

verus! {

/// Filters of a query of sensor reports.
#[derive(Debug, Clone)]
pub struct FilterParams {
    pub oid: Option<String>,
}

/// How to reach the sensor service's database.
#[derive(Debug, Clone)]
pub struct PostgresServer {
    pub db_name: String,
    pub username: String,
    pub password: String,
    pub address: String,
}

impl PostgresServer {
    /// The server described by a database configuration.
    pub fn from_config(config: &DatabaseConfig) -> (r: PostgresServer)
        ensures
            r.db_name == config.db_name,
            r.username == config.username,
            r.password == config.password,
            r.address == config.address,
    {
        PostgresServer {
            db_name: config.db_name.clone(),
            username: config.username.clone(),
            password: config.password.clone(),
            address: config.address.clone(),
        }
    }
}

} // verus!
