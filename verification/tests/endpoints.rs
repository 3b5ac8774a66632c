use forge_gateway::auth_handlers::{
    cleanup_text, generate_failure_text, invalid_token_text, refresh_failure_text,
    revoke_failure_text, time_debug_text, token_info_response_at, token_response,
};
use forge_gateway::config::GatewayConfig;
use forge_gateway::forgecode_client::{files_in_directory, CommandRequest, DiscoveredFile};
use forge_gateway::integration::{run_console_command, system_info};
use forge_gateway::security::{AuthError, SecureTokenManager, SecurityConfig};
use forge_gateway::static_auth::{StaticAccess, StaticAuthMiddleware};
use forge_gateway::text::{contains, decimal_text};

#[test]
fn token_response_is_bearer() {
    let r = token_response("abc".to_string(), 60);
    assert_eq!(r.token, "abc");
    assert_eq!(r.expires_in, 60);
    assert_eq!(r.token_type, "Bearer");
}

#[test]
fn failure_bodies() {
    assert_eq!(
        refresh_failure_text(&AuthError::TokenExpired),
        "Token has expired and cannot be refreshed"
    );
    assert_eq!(refresh_failure_text(&AuthError::RefreshLimitExceeded), "Token refresh limit exceeded");
    assert_eq!(refresh_failure_text(&AuthError::InvalidRefreshWindow), "Token cannot be refreshed yet");
    assert_eq!(
        refresh_failure_text(&AuthError::TokenRevoked),
        "Failed to refresh token: Token revoked"
    );
    assert_eq!(
        generate_failure_text(&AuthError::RateLimitExceeded),
        "Failed to generate token: Rate limit exceeded"
    );
    assert_eq!(
        revoke_failure_text(&AuthError::TokenNotFound),
        "Failed to revoke token: Token not found"
    );
    assert_eq!(invalid_token_text(&AuthError::InvalidTokenFormat), "Invalid token: Invalid token format");
    assert_eq!(cleanup_text(12), "Cleaned up 12 expired tokens");
}

#[test]
fn decimal_and_time_text() {
    assert_eq!(decimal_text(0), "0");
    assert_eq!(decimal_text(1_234_567), "1234567");
    assert_eq!(time_debug_text(1_700_000_000_250), "SystemTime { tv_sec: 1700000000, tv_nsec: 250000000 }");
}

#[test]
fn token_info() {
    let mut manager = SecureTokenManager::new(SecurityConfig {
        token_expiration_seconds: 60,
        max_tokens_per_user: 5,
        rate_limit_per_minute: 10,
        refresh_window_percent: 20,
        require_https: false,
        enable_audit_logging: true,
    });
    let (text, _) = manager
        .generate_token_with(vec!["read".to_string()], None, None, 1_000, 5)
        .unwrap();
    let token = manager.validate_token_at(&text, 2_000).unwrap();
    let info = token_info_response_at(&token, 70_000);
    assert_eq!(info.token_id, "00000000-0000-0000-0000-000000000005");
    assert_eq!(info.created_at, "SystemTime { tv_sec: 1, tv_nsec: 0 }");
    assert_eq!(info.expires_at, "SystemTime { tv_sec: 61, tv_nsec: 0 }");
    assert_eq!(info.permissions, vec!["read".to_string()]);
    assert!(info.is_expired);
    assert!(!info.is_revoked);
}

#[test]
fn static_file_access() {
    let service = StaticAuthMiddleware.new_transform(());
    assert_eq!(service.decide("/", false), StaticAccess::Forward);
    assert_eq!(service.decide("/index.html", false), StaticAccess::Forward);
    assert_eq!(service.decide("/auth/login.js", false), StaticAccess::Forward);
    assert_eq!(service.decide("/app.js", false), StaticAccess::Unauthorized);
    assert_eq!(service.decide("/app.js", true), StaticAccess::Forward);
    assert_eq!(service.decide("/authx", false), StaticAccess::Unauthorized);
}

#[test]
fn console_commands() {
    // The console answers even before the code-execution service is set up.
    assert!(run_console_command("help", "1.0").contains("help"));
    assert_eq!(
        run_console_command("show version", "1.2.3"),
        "Executing command: show version\nForgecode Gateway v1.2.3"
    );
    assert_eq!(
        run_console_command("status help", "1"),
        "Executing command: status help\nAvailable commands: help, status, version, config"
    );
    assert_eq!(run_console_command("ls", "1"), "Executing command: ls\nUnknown command: ls");
    assert!(contains("abc", ""));
    assert!(!contains("ab", "abc"));
}

#[test]
fn status_report() {
    let info = system_info(true, "0.1.0", "2024-01-01T00:00:00+00:00");
    assert_eq!(info.service, "forgecode-gateway");
    assert_eq!(info.status, "running");
    assert!(info.forgecode_integrated);
}

#[test]
fn configuration_defaults() {
    let config = GatewayConfig::default();
    assert_eq!(config.bind_address, "0.0.0.0");
    assert_eq!(config.port, 8080);
    assert_eq!(config.allowed_origins, vec!["*".to_string()]);
    assert_eq!(config.static_files_dir, "static");
    let root = forge_gateway::GatewayConfig::default();
    assert_eq!(root.forgecode_base_url, "http://localhost:8081");
    assert_eq!(root.token_expiration_seconds, 3600);
}

#[test]
fn working_directory_choice() {
    let request = CommandRequest { command: "ls".to_string(), working_dir: None };
    assert_eq!(request.working_dir_or("/srv"), "/srv");
    let request = CommandRequest { command: "ls".to_string(), working_dir: Some("/tmp".to_string()) };
    assert_eq!(request.working_dir_or("/srv"), "/tmp");
}

#[test]
fn files_directly_in_a_directory() {
    let files = vec![
        DiscoveredFile { path: "src/main.rs".to_string(), name: "main.rs".to_string() },
        DiscoveredFile { path: "src/auth/mod.rs".to_string(), name: "mod.rs".to_string() },
        DiscoveredFile { path: "src//lib.rs".to_string(), name: "lib.rs".to_string() },
        DiscoveredFile { path: "README.md".to_string(), name: "README.md".to_string() },
    ];
    assert_eq!(files_in_directory(&files, "src"), vec!["main.rs".to_string(), "lib.rs".to_string()]);
    assert_eq!(files_in_directory(&files, "src/auth"), vec!["mod.rs".to_string()]);
}

#[test]
fn blank_permission_refused() {
    let mut manager = SecureTokenManager::new(SecurityConfig {
        token_expiration_seconds: 60,
        max_tokens_per_user: 5,
        rate_limit_per_minute: 10,
        refresh_window_percent: 20,
        require_https: false,
        enable_audit_logging: true,
    });
    let result = manager.generate_token(vec!["read".to_string(), " \t".to_string()], None, None);
    assert_eq!(result.unwrap_err(), AuthError::InvalidTokenFormat);
}

#[test]
fn header_list() {
    let headers = forge_gateway::auth_middleware::security_headers();
    assert_eq!(headers.len(), 5);
    assert_eq!(headers[2], ("x-frame-options".to_string(), "DENY".to_string()));
}

#[test]
fn token_info_replies() {
    let mut manager = SecureTokenManager::new(SecurityConfig {
        token_expiration_seconds: 60,
        max_tokens_per_user: 5,
        rate_limit_per_minute: 10,
        refresh_window_percent: 20,
        require_https: false,
        enable_audit_logging: true,
    });
    let (text, _) = manager
        .generate_token_with(vec!["read".to_string()], None, None, 1_000, 5)
        .unwrap();
    let header = format!("Bearer {}", text);
    let info = forge_gateway::auth_handlers::token_info_reply_at(&mut manager, Some(header.as_str()), 2_000).unwrap();
    assert_eq!(info.token_id, text);
    assert!(!info.is_expired);
    assert_eq!(
        forge_gateway::auth_handlers::token_info_reply_at(&mut manager, None, 2_000).unwrap_err(),
        "Authorization header required"
    );
    assert_eq!(
        forge_gateway::auth_handlers::token_info_reply_at(&mut manager, Some("Basic x"), 2_000).unwrap_err(),
        "Authorization header required"
    );
    assert_eq!(
        forge_gateway::auth_handlers::token_info_reply_at(&mut manager, Some("Bearer nope"), 2_000).unwrap_err(),
        "Invalid token: Invalid token format"
    );
    assert_eq!(
        forge_gateway::auth_handlers::token_info_reply_at(&mut manager, Some(header.as_str()), 70_000).unwrap_err(),
        "Invalid token: Token expired"
    );
}

#[test]
fn whitespace_characters() {
    assert!(forge_gateway::text::char_is_whitespace('\u{3000}'));
    assert!(forge_gateway::text::char_is_whitespace('\t'));
    assert!(!forge_gateway::text::char_is_whitespace('x'));
    assert!(!forge_gateway::text::char_is_whitespace('\u{200b}'));
}
