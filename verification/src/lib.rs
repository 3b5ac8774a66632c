//! Token authentication, rate limiting and session renewal for a web gateway
//! in front of a code-execution service.

pub mod auth_handlers;
pub mod auth_middleware;
pub mod clock;
pub mod config;
pub mod filters;
pub mod forge_integration;
pub mod forgecode_client;
pub mod gateway;
pub mod handlers;
pub mod ids;
pub mod integration;
pub mod keyed;
pub mod mock_auth;
pub mod rate_limiting;
pub mod request_monitor;
pub mod security;
pub mod security_laws;
pub mod static_auth;
pub mod text;
pub mod token_manager;
pub mod token_renewal;
pub mod url_token;
pub mod url_token_service;
pub mod url_token_store;
pub mod websocket;

use vstd::prelude::*;

verus! {

/// Settings of the gateway in front of the code-execution service.
pub struct GatewayConfig {
    /// Port to run the gateway server on
    pub port: u16,
    /// Base URL of the code-execution service
    pub forgecode_base_url: String,
    /// Token expiration time in seconds
    pub token_expiration_seconds: u64,
}

impl Default for GatewayConfig {
    /// Port 8080, the service on local port 8081, one-hour tokens.
    fn default() -> (config: Self)
        ensures
            config.port == 8080,
            config.forgecode_base_url@ == "http://localhost:8081"@,
            config.token_expiration_seconds == 3600,
    {
        GatewayConfig {
            port: 8080,
            forgecode_base_url: String::from_str("http://localhost:8081"),
            token_expiration_seconds: 3600,
        }
    }
}

} // verus!
