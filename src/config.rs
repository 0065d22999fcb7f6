use vstd::prelude::*;

use crate::candidate::RouteError;

verus! {

/// The recognised options of the gateway; durations in milliseconds.
#[derive(Clone, Debug)]
pub struct GatewayConfig {
    pub backend_base_url: String,
    pub models_url: String,
    pub utilization_url: String,
    pub models_refresh_ms: u64,
    pub utilization_refresh_ms: u64,
    pub control_plane_timeout_ms: u64,
    pub upstream_header_timeout_ms: u64,
    pub upstream_first_body_byte_timeout_ms: u64,
    pub alias_token: String,
}

/// Why a configuration cannot start the gateway.
#[derive(Clone, Copy, Debug, PartialEq, Eq, Structural)]
pub enum ConfigError {
    /// One of the three URLs is empty.
    EmptyUrl,
    /// A refresh interval is zero: the timer would spin.
    ZeroInterval,
    /// A timeout is zero: every fetch or attempt would fail at once.
    ZeroTimeout,
    /// The alias token is empty.
    EmptyAliasToken,
}

/// The first fault of a configuration, checking URLs, then intervals, then
/// timeouts, then the alias token; `None` when it can start the gateway.
pub open spec fn config_fault(c: GatewayConfig) -> Option<ConfigError> {
    if c.backend_base_url@.len() == 0 || c.models_url@.len() == 0 || c.utilization_url@.len() == 0 {
        Some(ConfigError::EmptyUrl)
    } else if c.models_refresh_ms == 0 || c.utilization_refresh_ms == 0 {
        Some(ConfigError::ZeroInterval)
    } else if c.control_plane_timeout_ms == 0 || c.upstream_header_timeout_ms == 0
        || c.upstream_first_body_byte_timeout_ms == 0 {
        Some(ConfigError::ZeroTimeout)
    } else if c.alias_token@.len() == 0 {
        Some(ConfigError::EmptyAliasToken)
    } else {
        None
    }
}

impl GatewayConfig {
    /// Checks the configuration before start-up.
    pub fn validate(&self) -> (r: Result<(), ConfigError>)
        ensures
            r is Ok <==> config_fault(*self) is None,
            r matches Err(e) ==> config_fault(*self) == Some(e),
    {
        if self.backend_base_url.as_str().is_empty() || self.models_url.as_str().is_empty()
            || self.utilization_url.as_str().is_empty() {
            Err(ConfigError::EmptyUrl)
        } else if self.models_refresh_ms == 0 || self.utilization_refresh_ms == 0 {
            Err(ConfigError::ZeroInterval)
        } else if self.control_plane_timeout_ms == 0 || self.upstream_header_timeout_ms == 0
            || self.upstream_first_body_byte_timeout_ms == 0 {
            Err(ConfigError::ZeroTimeout)
        } else if self.alias_token.as_str().is_empty() {
            Err(ConfigError::EmptyAliasToken)
        } else {
            Ok(())
        }
    }
}

/// The status a refused request gets: 503 when the alias has no eligible
/// candidate, 400 for a model field that names no model.
pub fn route_error_status(e: RouteError) -> (r: u16)
    ensures
        r == match e {
            RouteError::NoEligibleCandidate => 503u16,
            RouteError::InvalidModel => 400u16,
        },
{
    match e {
        RouteError::NoEligibleCandidate => 503,
        RouteError::InvalidModel => 400,
    }
}

/// The status of the single terminal failure once every candidate failed.
pub fn exhausted_status() -> (r: u16)
    ensures
        r == 503,
{
    503
}

/// The status of the readiness probe.
pub fn readiness_status(ready: bool) -> (r: u16)
    ensures
        r == if ready {
            200u16
        } else {
            503u16
        },
{
    if ready {
        200
    } else {
        503
    }
}

} // verus!
