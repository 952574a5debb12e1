use vstd::prelude::*;

verus! {

/// The ways the controller can fail. Every one of them is fatal for the
/// process except where the caller's documentation says otherwise: fan
/// control failures are treated as unsafe to ignore.
#[derive(Clone, Copy, Debug, PartialEq, Eq, Structural)]
pub enum FanError {
    /// The curve configuration is rejected before the loop starts.
    ConfigInvalid,
    /// The sensor backend could not enumerate any temperature-capable device.
    SensorUnavailable,
    /// Enumeration succeeded but no package-level thermal sensor was found,
    /// or every reading was at the sentinel "no reading" value.
    NoPackageSensorFound,
    /// The startup probe could not reach the BMC.
    BmcUnreachable,
    /// A fan-control command was rejected mid-loop.
    CommandFailed,
}

impl FanError {
    /// A short operator-facing description of the error.
    pub fn describe(&self) -> (r: &'static str)
        ensures
            *self == FanError::ConfigInvalid ==> r@ == "min_temp must be less than max_temp and fan bounds must be percentages"@,
            *self == FanError::SensorUnavailable ==> r@ == "failed to initialize the temperature sensor backend"@,
            *self == FanError::NoPackageSensorFound ==> r@ == "no CPU package temperature sensors found"@,
            *self == FanError::BmcUnreachable ==> r@ == "IPMI device is not accessible"@,
            *self == FanError::CommandFailed ==> r@ == "fan control command failed"@,
    {
        match self {
            FanError::ConfigInvalid => "min_temp must be less than max_temp and fan bounds must be percentages",
            FanError::SensorUnavailable => "failed to initialize the temperature sensor backend",
            FanError::NoPackageSensorFound => "no CPU package temperature sensors found",
            FanError::BmcUnreachable => "IPMI device is not accessible",
            FanError::CommandFailed => "fan control command failed",
        }
    }
}

} // verus!
