//! Runtime configuration of the notifier.
//!
//! The surrounding program reads the configuration file and hands the plain
//! values to [`Config::load`], which validates them: both intervals must be
//! strictly positive for the scheduler to make progress.

use vstd::prelude::*;

verus! {

/// Why a configuration was rejected.
#[derive(Clone, Copy, PartialEq, Eq, Structural)]
pub enum ConfigError {
    /// `schedule_interval` was zero.
    ScheduleIntervalZero,
    /// `sleep_interval` was zero.
    SleepIntervalZero,
}

/// Validated runtime configuration.
pub struct Config {
    /// Application identifier for the transport.
    pub api_id: i32,
    /// Application hash for the transport.
    pub api_hash: String,
    /// Path of the persisted session file.
    pub session_file: String,
    /// How far in the future each alert's displayed time is set, in seconds.
    pub schedule_interval: u64,
    /// How long a worker idles between re-arm edits, in seconds.
    pub sleep_interval: u64,
}

impl Config {
    /// Both intervals are strictly positive.
    pub open spec fn valid(self) -> bool {
        self.schedule_interval > 0 && self.sleep_interval > 0
    }

    /// Builds a configuration from plain values, rejecting a zero interval.
    pub fn load(
        api_id: i32,
        api_hash: String,
        session_file: String,
        schedule_interval: u64,
        sleep_interval: u64,
    ) -> (r: Result<Config, ConfigError>)
        ensures
            r is Ok <==> schedule_interval > 0 && sleep_interval > 0,
            r matches Ok(c) ==> c.api_id == api_id && c.api_hash@ == api_hash@
                && c.session_file@ == session_file@
                && c.schedule_interval == schedule_interval
                && c.sleep_interval == sleep_interval && c.valid(),
            schedule_interval == 0 ==> r == Result::<Config, ConfigError>::Err(
                ConfigError::ScheduleIntervalZero,
            ),
            schedule_interval > 0 && sleep_interval == 0 ==> r == Result::<
                Config,
                ConfigError,
            >::Err(ConfigError::SleepIntervalZero),
    {
        if schedule_interval == 0 {
            Err(ConfigError::ScheduleIntervalZero)
        } else if sleep_interval == 0 {
            Err(ConfigError::SleepIntervalZero)
        } else {
            Ok(Config { api_id, api_hash, session_file, schedule_interval, sleep_interval })
        }
    }
}

} // verus!
