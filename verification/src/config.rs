//! Gateway configuration.

use vstd::prelude::*;

verus! {

/// One backend service endpoint.
pub struct ServiceConfig {
    pub service_id: u32,
    pub ip: String,
    pub port: i32,
}

/// Gateway-wide settings.
pub struct Config {
    pub gateway_id: u32,
    pub listen_port: i32,
    pub client_timeout_seconds: i32,
    /// Static cipher key; `None` or an empty string leaves payloads in the
    /// clear.
    pub encode: Option<String>,
    pub services: Vec<ServiceConfig>,
}

} // verus!
