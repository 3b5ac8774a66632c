//! What the gateway reports about itself.
use vstd::prelude::*;

verus! {

/// System information: version, environment, a fingerprint of the
/// configuration, the number of active tokens and the uptime in seconds.
pub struct SystemInfo {
    pub version: String,
    pub environment: String,
    pub config_hash: String,
    pub active_tokens: usize,
    pub uptime: u64,
}

} // verus!
