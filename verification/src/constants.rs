//! Process-wide constants derived from a validated configuration.
//!
//! One such value is constructed at startup from a
//! [`Config`](crate::config::Config) and passed by reference into the
//! authenticator and the scheduler, instead of living as a hidden global.

use vstd::prelude::*;
use crate::config::Config;

verus! {

/// The configuration values the running process uses.
pub struct Constants {
    /// Application identifier for the transport.
    pub api_id: i32,
    /// Application hash for the transport.
    pub api_hash: String,
    /// Path of the persisted session file.
    pub session_file: String,
    /// How far in the future each alert's displayed time is set, in seconds.
    pub schedule_interval: u64,
    /// How long a worker idles between re-arm edits, in seconds.
    pub sleep_interval: u64,
}

impl Constants {
    /// The intervals are strictly positive, as a valid configuration forces.
    pub open spec fn valid(self) -> bool {
        self.schedule_interval > 0 && self.sleep_interval > 0
    }

    /// Fixes the process constants from a validated configuration.
    pub fn new(config: Config) -> (c: Constants)
        ensures
            c.api_id == config.api_id,
            c.api_hash@ == config.api_hash@,
            c.session_file@ == config.session_file@,
            c.schedule_interval == config.schedule_interval,
            c.sleep_interval == config.sleep_interval,
            config.valid() ==> c.valid(),
    {
        Constants {
            api_id: config.api_id,
            api_hash: config.api_hash,
            session_file: config.session_file,
            schedule_interval: config.schedule_interval,
            sleep_interval: config.sleep_interval,
        }
    }
}

} // verus!
