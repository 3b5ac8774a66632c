//! Settings of the gateway's HTTP server.
use vstd::prelude::*;

verus! {

/// Gateway configuration settings.
pub struct GatewayConfig {
    /// HTTP server bind address
    pub bind_address: String,
    /// HTTP server port
    pub port: u16,
    /// Token expiration time in seconds
    pub token_expiration_seconds: u64,
    /// Allowed CORS origins
    pub allowed_origins: Vec<String>,
    /// Static files directory
    pub static_files_dir: String,
}

impl Default for GatewayConfig {
    /// Every interface, port 8080, one-hour tokens, any origin, files under
    /// `static`.
    fn default() -> (config: Self)
        ensures
            config.bind_address@ == "0.0.0.0"@,
            config.port == 8080,
            config.token_expiration_seconds == 3600,
            config.allowed_origins@.len() == 1,
            config.allowed_origins@[0]@ == "*"@,
            config.static_files_dir@ == "static"@,
    {
        GatewayConfig {
            bind_address: String::from_str("0.0.0.0"),
            port: 8080,
            token_expiration_seconds: 3600,
            allowed_origins: vec![String::from_str("*")],
            static_files_dir: String::from_str("static"),
        }
    }
}

} // verus!
