//! Server configuration, handed in from the environment by the host
//! program: connection string, token signing secret, the two validity
//! durations (in seconds), and the allowed cross-origin host.

use vstd::prelude::*;

verus! {

pub struct Config {
    pub mongodb_uri: String,
    pub jwt_secret: String,
    pub jwt_duration: i64,
    pub session_duration: i64,
    pub allowed_origins: String,
}

impl Config {
    /// Both validity durations are nonnegative.
    pub open spec fn wf(&self) -> bool {
        0 <= self.jwt_duration && 0 <= self.session_duration
    }
}

} // verus!
