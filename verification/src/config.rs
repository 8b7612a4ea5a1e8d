//! What the programs are started with: where the catalogue is stored, and
//! the port to serve on.

use crate::text::{parse_u16, read_u16};
use vstd::prelude::*;
use vstd::string::StringExecFns;

verus! {

/// How to open the storage.
#[derive(Debug)]
pub struct ConnectOptions {
    /// Where the catalogue is stored.
    pub database_url: String,
    /// Whether every connection holds rows to the rows of other tables that
    /// they name.
    pub foreign_keys: bool,
}

/// Why a program cannot start.
#[derive(Debug)]
pub enum ConfigError {
    /// The environment names no storage.
    NoDatabase,
    /// The environment names a port that is not a number from 0 to 65535;
    /// the text is what it names.
    InvalidPort(String),
}

/// The words for a configuration error.
pub open spec fn config_error_text(error: ConfigError) -> Seq<char> {
    match error {
        ConfigError::NoDatabase =>
            "No database provided: please define `DATABASE_URL` and run again"@,
        ConfigError::InvalidPort(text) => "Invalid port: "@ + text@,
    }
}

impl ConfigError {
    /// Says in words why the program cannot start.
    pub fn message(&self) -> (text: String)
        ensures
            text@ == config_error_text(*self),
    {
        match self {
            ConfigError::NoDatabase =>
                "No database provided: please define `DATABASE_URL` and run again".to_owned(),
            ConfigError::InvalidPort(text) => {
                let mut message = "Invalid port: ".to_owned();
                message.append(text.as_str());
                message
            },
        }
    }
}

impl ConnectOptions {
    /// The options for the storage at `database_url`, as the storage engine
    /// has them by itself.
    pub fn new(database_url: String) -> (options: ConnectOptions)
        ensures
            options.database_url == database_url,
            !options.foreign_keys,
    {
        ConnectOptions { database_url, foreign_keys: false }
    }
}

/// The same options, with the check of references between tables switched on
/// for every connection.
pub fn configure_connect_options(options: ConnectOptions) -> (configured: ConnectOptions)
    ensures
        configured.foreign_keys,
        configured.database_url == options.database_url,
{
    ConnectOptions { database_url: options.database_url, foreign_keys: true }
}

/// The options for the storage that the environment names in `DATABASE_URL`,
/// whose value is `database_url`. Without a value there is nothing to open.
pub fn from_env(database_url: Option<String>) -> (options: Result<ConnectOptions, ConfigError>)
    ensures
        match database_url {
            Some(url) => options matches Ok(o) && o.database_url == url && o.foreign_keys,
            None => options matches Err(error) && error is NoDatabase,
        },
{
    match database_url {
        Some(url) => Ok(configure_connect_options(ConnectOptions::new(url))),
        None => Err(ConfigError::NoDatabase),
    }
}

/// What a port variable is.
pub open spec fn port_view(port: Option<&str>) -> Option<Seq<char>> {
    match port {
        Some(text) => Some(text@),
        None => None,
    }
}

/// The port that a program serves on: `default` where the environment names
/// none, else the number that it names.
pub open spec fn port_of(port: Option<Seq<char>>, default: int) -> Option<int> {
    match port {
        None => Some(default),
        Some(text) => parse_u16(text),
    }
}

/// The port to serve on, from the value of the variable `PORT`.
pub fn port_from_env(port: Option<&str>, default: u16) -> (chosen: Result<u16, ConfigError>)
    ensures
        chosen is Ok <==> port_of(port_view(port), default as int) is Some,
        chosen matches Ok(number) ==> port_of(port_view(port), default as int) == Some(
            number as int,
        ),
        chosen matches Err(error) ==> (error matches ConfigError::InvalidPort(text) && Some(text@)
            == port_view(port)),
{
    match port {
        None => Ok(default),
        Some(text) => match read_u16(text) {
            Some(number) => Ok(number),
            None => Err(ConfigError::InvalidPort(text.to_owned())),
        },
    }
}

} // verus!
