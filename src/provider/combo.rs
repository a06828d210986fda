//! Records the composite service keeps in its database.
use vstd::prelude::*;

use crate::config::DatabaseConfig;
use crate::utils::time::{read_clock_millis, seconds_from_reading};

verus! {

/// Filters of a query of cached snapshots.
#[derive(Debug, Clone)]
pub struct FilterParams {
    pub oid: Option<String>,
}

/// The length of a generated record identifier.
pub const OID_LEN: usize = 15;

/// An ASCII letter or digit.
pub open spec fn ascii_alnum(c: char) -> bool {
    ('a' <= c && c <= 'z') || ('A' <= c && c <= 'Z') || ('0' <= c && c <= '9')
}

/// Relies on rand's `thread_rng` sampled with `distributions::Alphanumeric`,
/// which yields ASCII letters and digits: `len` such characters.
#[verifier::external_body]
fn random_alphanumeric(len: usize) -> (r: String)
    ensures
        r@.len() == len,
        forall|i: int| 0 <= i < len ==> ascii_alnum(#[trigger] r@[i]),
{
    rand::Rng::sample_iter(rand::thread_rng(), &rand::distributions::Alphanumeric).take(len).map(
        char::from,
    ).collect()
}

/// A snapshot of the providers' raw answers, as stored.
#[derive(Debug, Clone)]
pub struct CachedWeatherData {
    pub id: i32,
    pub oid: String,
    pub accuweather: Option<String>,
    pub homebrew: Option<String>,
    pub openweathermap: Option<String>,
    pub timestamp: i64,
}

impl CachedWeatherData {
    /// An empty snapshot with a fresh random identifier of 15 ASCII letters
    /// and digits, stamped with the current time (zero when the clock
    /// cannot be read).
    pub fn new() -> (r: Self)
        ensures
            r.id == 0,
            r.oid@.len() == OID_LEN,
            forall|i: int| 0 <= i < r.oid@.len() ==> ascii_alnum(#[trigger] r.oid@[i]),
            r.accuweather is None && r.homebrew is None && r.openweathermap is None,
    {
        let oid = random_alphanumeric(OID_LEN);
        let timestamp = match seconds_from_reading(read_clock_millis()) {
            Ok(t) => t,
            Err(_) => 0,
        };
        CachedWeatherData {
            id: 0,
            oid,
            accuweather: None,
            homebrew: None,
            openweathermap: None,
            timestamp,
        }
    }

    /// The table the snapshots are stored in.
    pub fn sql_table_name() -> (r: String)
        ensures
            r@ == "cached_weather_data"@,
    {
        String::from_str("cached_weather_data")
    }

    /// The statement that creates the table.
    pub fn sql_build_statement() -> (r: &'static str)
        ensures
            r@ == "CREATE TABLE public.cached_weather_data (
            id serial NOT NULL,
            oid varchar NOT NULL UNIQUE,
            accuweather VARCHAR NULL,
            homebrew VARCHAR NULL,
            openweathermap VARCHAR NULL,
            timestamp BIGINT DEFAULT 0,
            CONSTRAINT cached_weather_data_pkey PRIMARY KEY (id));"@,
    {
        "CREATE TABLE public.cached_weather_data (
            id serial NOT NULL,
            oid varchar NOT NULL UNIQUE,
            accuweather VARCHAR NULL,
            homebrew VARCHAR NULL,
            openweathermap VARCHAR NULL,
            timestamp BIGINT DEFAULT 0,
            CONSTRAINT cached_weather_data_pkey PRIMARY KEY (id));"
    }

    /// The schema migrations, oldest first.
    pub fn migrations() -> (r: Vec<&'static str>)
        ensures
            r@.len() == 1,
            r@[0]@ == ""@,
    {
        vec![""]
    }
}

/// How to reach the composite service's database.
#[derive(Debug, Clone)]
pub struct PostgresServer {
    pub db_name: String,
    pub username: String,
    pub password: String,
    pub address: String,
}

impl PostgresServer {
    /// The server described by a database configuration.
    pub fn from_config(config: &DatabaseConfig) -> (r: PostgresServer)
        ensures
            r.db_name == config.db_name,
            r.username == config.username,
            r.password == config.password,
            r.address == config.address,
    {
        PostgresServer {
            db_name: config.db_name.clone(),
            username: config.username.clone(),
            password: config.password.clone(),
            address: config.address.clone(),
        }
    }
}

} // verus!
