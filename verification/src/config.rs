//! Startup configuration and its validation.

use vstd::prelude::*;

verus! {

/// What the monitor is started with.
#[derive(Clone, Debug)]
pub struct Config {
    /// Absolute path of the control group to attach to.
    pub cgroup: String,
    /// Bytes allowed per direction and quota period.
    pub quota: u64,
    /// Length of the quota period in seconds.
    pub quota_period: u64,
    /// Seconds between two samples of the counter.
    pub sample_interval: u64,
}

/// The parameter that makes a configuration unusable.
#[derive(Clone, Copy, Debug, PartialEq, Eq, Structural)]
pub enum ConfigError {
    ZeroQuota,
    ZeroQuotaPeriod,
    ZeroSampleInterval,
}

/// The parameter that [`Config::validate`] reports, if any: the first of
/// quota, quota period and sample interval that is zero.
pub open spec fn first_invalid(quota: u64, quota_period: u64, sample_interval: u64) -> Option<
    ConfigError,
> {
    if quota == 0 {
        Some(ConfigError::ZeroQuota)
    } else if quota_period == 0 {
        Some(ConfigError::ZeroQuotaPeriod)
    } else if sample_interval == 0 {
        Some(ConfigError::ZeroSampleInterval)
    } else {
        None
    }
}

impl Config {
    /// A configuration is valid when quota, quota period and sample interval
    /// are all positive.
    pub open spec fn valid(&self) -> bool {
        self.quota > 0 && self.quota_period > 0 && self.sample_interval > 0
    }

    /// Accepts exactly the valid configurations and names the offending
    /// parameter of the others.
    pub fn validate(&self) -> (r: Result<(), ConfigError>)
        ensures
            r is Ok <==> self.valid(),
            r matches Err(e) ==> first_invalid(self.quota, self.quota_period, self.sample_interval)
                == Some(e),
    {
        if self.quota == 0 {
            Err(ConfigError::ZeroQuota)
        } else if self.quota_period == 0 {
            Err(ConfigError::ZeroQuotaPeriod)
        } else if self.sample_interval == 0 {
            Err(ConfigError::ZeroSampleInterval)
        } else {
            Ok(())
        }
    }
}

impl ConfigError {
    pub open spec fn text(self) -> Seq<char> {
        match self {
            ConfigError::ZeroQuota => "quota must be greater than zero"@,
            ConfigError::ZeroQuotaPeriod => "quota period must be greater than zero"@,
            ConfigError::ZeroSampleInterval => "sample interval must be greater than zero"@,
        }
    }

    /// A description for the operator.
    pub fn message(self) -> (s: &'static str)
        ensures
            s@ == self.text(),
    {
        match self {
            ConfigError::ZeroQuota => "quota must be greater than zero",
            ConfigError::ZeroQuotaPeriod => "quota period must be greater than zero",
            ConfigError::ZeroSampleInterval => "sample interval must be greater than zero",
        }
    }
}

} // verus!
