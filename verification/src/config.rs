//! The configuration carried from startup into the engine: listener and
//! upstream addresses, the logging mode, and the raw template values
//! that the template constructors take.

use vstd::prelude::*;
use crate::value::Value;

verus! {

/// An address/port pair for a listener or an upstream.
#[derive(Debug)]
pub struct Http {
    pub address: String,
    pub port: u16,
}

/// Which encoding the log line uses.
#[derive(Debug, PartialEq, Eq, Clone, Copy)]
pub enum LoggingMode {
    /// Log in the plain text format.
    Plain,
    /// Log in the JSON format.
    Json,
}

/// The JSON logging configuration: the structured template source.
#[derive(Debug)]
pub struct JsonLogging {
    pub format: Value,
}

/// The plain logging configuration: the flat template source.
#[derive(Debug)]
pub struct PlainLogging {
    pub format: Value,
}

/// The logging configuration.
#[derive(Debug)]
pub struct Logging {
    pub mode: LoggingMode,
    pub json: JsonLogging,
    pub plain: PlainLogging,
}

/// The configuration for the application.
#[derive(Debug)]
pub struct Config {
    pub http: Http,
    pub proxy: Http,
    pub logging: Logging,
}

} // verus!
