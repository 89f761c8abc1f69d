use vstd::prelude::*;

verus! {

/// A configuration value was present but did not parse as its type.
#[derive(Debug)]
pub struct ConfigParseError {
    pub config_key: String,
}

impl ConfigParseError {
    /// The user-facing description; the offending key is in `config_key`.
    pub fn message(&self) -> (r: &'static str)
        ensures
            r@ == "Couldn't parse value from string for key"@,
    {
        "Couldn't parse value from string for key"
    }
}

/// The configured measurement type names no known probe kind.
#[derive(Debug)]
pub struct InvalidMeasurementTypeError {
    pub type_: String,
}

impl InvalidMeasurementTypeError {
    /// The user-facing description; the rejected name is in `type_`.
    pub fn message(&self) -> (r: &'static str)
        ensures
            r@ == "Couldn't find measurement type"@,
    {
        "Couldn't find measurement type"
    }
}

/// A required configuration key is absent and has no default.
#[derive(Debug)]
pub struct MissingConfigError {
    pub config_key: String,
}

impl MissingConfigError {
    /// The user-facing description; the missing key is in `config_key`.
    pub fn message(&self) -> (r: &'static str)
        ensures
            r@ == "Couldn't find required configuration option"@,
    {
        "Couldn't find required configuration option"
    }
}

/// No cake qdisc sits on the interface the shaper was pointed at.
#[derive(Debug, Default)]
pub struct NoQdiscFoundError;

impl NoQdiscFoundError {
    /// The user-facing description.
    pub fn message(&self) -> (r: &'static str)
        ensures
            r@ == "Couldn't find a CAKE qdisc for interface"@,
    {
        "Couldn't find a CAKE qdisc for interface"
    }
}

/// A received ping packet could not be decoded into a sample.
#[derive(Debug)]
pub struct PingParseError {
    pub msg: String,
}

impl PingParseError {
    /// The user-facing description; detail is in `msg`.
    pub fn message(&self) -> (r: &'static str)
        ensures
            r@ == "Couldn't parse received ping packet"@,
    {
        "Couldn't parse received ping packet"
    }
}

} // verus!
