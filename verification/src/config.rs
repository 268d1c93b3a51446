//! Timing configuration of the consensus engine.

use vstd::prelude::*;

use crate::Timeout;

verus! {

/// Timing knobs, all in milliseconds. An external driver ticks the engine
/// far more often than `min_election_timeout` so that timing resolution
/// stays acceptable.
#[derive(Clone, Copy, PartialEq, Eq, Structural, Debug)]
pub struct RaftConfig {
    pub connection_timeout: Timeout,
    pub min_election_timeout: Timeout,
    pub heartbeat_interval: Timeout,
}

impl RaftConfig {
    /// The stock configuration.
    pub fn default() -> (r: RaftConfig)
        ensures
            r.connection_timeout == 10000,
            r.min_election_timeout == 1000,
            r.heartbeat_interval == 1000,
    {
        RaftConfig {
            connection_timeout: 10000,
            min_election_timeout: 1000,
            heartbeat_interval: 1000,
        }
    }
}

} // verus!
