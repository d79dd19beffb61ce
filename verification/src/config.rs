//! The proxy's configuration: bind address, the fixed upstream set, the
//! active health check interval and path, and the per-client request
//! maximum. Immutable for the process lifetime; a configuration without any
//! upstream is rejected at startup.

use vstd::prelude::*;

verus! {

/// Why a configuration was rejected.
pub enum ConfigError {
    NoUpstreams,
}

/// The proxy's startup configuration. The position of an address in
/// `upstream_addresses` is the upstream index used everywhere else.
pub struct Config {
    pub bind: String,
    pub upstream_addresses: Vec<String>,
    pub active_health_check_interval: u64,
    pub active_health_check_path: String,
    pub max_requests_per_minute: usize,
}

impl Config {
    /// A valid configuration names at least one upstream.
    pub open spec fn wf(&self) -> bool {
        self.upstream_addresses@.len() > 0
    }

    /// Active health checking runs only with a positive interval; an
    /// interval of zero disables the checker (a never-firing timer).
    pub open spec fn spec_health_checks_enabled(&self) -> bool {
        self.active_health_check_interval > 0
    }

    /// Build a configuration, rejecting one that names no upstream.
    pub fn new(
        bind: String,
        upstream_addresses: Vec<String>,
        active_health_check_interval: u64,
        active_health_check_path: String,
        max_requests_per_minute: usize,
    ) -> (r: Result<Config, ConfigError>)
        ensures
            r is Err <==> upstream_addresses@.len() == 0,
            r matches Err(e) ==> e is NoUpstreams,
            r matches Ok(c) ==> {
                &&& c.wf()
                &&& c.bind == bind
                &&& c.upstream_addresses == upstream_addresses
                &&& c.active_health_check_interval == active_health_check_interval
                &&& c.active_health_check_path == active_health_check_path
                &&& c.max_requests_per_minute == max_requests_per_minute
            },
    {
        if upstream_addresses.len() == 0 {
            Err(ConfigError::NoUpstreams)
        } else {
            Ok(
                Config {
                    bind,
                    upstream_addresses,
                    active_health_check_interval,
                    active_health_check_path,
                    max_requests_per_minute,
                },
            )
        }
    }

    /// How many upstreams are configured.
    pub fn upstream_count(&self) -> (r: usize)
        ensures
            r == self.upstream_addresses@.len(),
    {
        self.upstream_addresses.len()
    }

    /// Whether the active health checker should run at all.
    pub fn health_checks_enabled(&self) -> (r: bool)
        ensures
            r == self.spec_health_checks_enabled(),
    {
        self.active_health_check_interval > 0
    }
}

} // verus!
