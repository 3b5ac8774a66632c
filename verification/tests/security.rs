use forge_gateway::auth_handlers::TokenRequest;
use forge_gateway::security::{AuthError, SecureTokenManager, SecurityConfig};

/// Test fixture for creating a secure token manager with default config
fn create_token_manager_fixture() -> SecureTokenManager {
    let config = SecurityConfig {
        token_expiration_seconds: 60, // Short expiration for testing
        max_tokens_per_user: 5,
        rate_limit_per_minute: 10,
        refresh_window_percent: 20,
        require_https: false,
        enable_audit_logging: true,
    };
    SecureTokenManager::new(config)
}

/// Test fixture for creating a valid token request
fn create_token_request_fixture() -> TokenRequest {
    TokenRequest {
        permissions: vec!["read".to_string(), "write".to_string()],
    }
}

const T0: u128 = 1_700_000_000_000;

#[test]
fn tests_test_token_generation() {
    let mut setup = create_token_manager_fixture();
    let request = create_token_request_fixture();

    let actual = setup.generate_token(
        request.permissions.clone(),
        Some("test-agent".to_string()),
        Some("127.0.0.1".to_string()),
    );

    let expected = actual.is_ok();
    assert!(expected, "Token generation should succeed");
}

#[test]
fn tests_test_token_validation() {
    let mut setup = create_token_manager_fixture();
    let request = create_token_request_fixture();

    let (token_str, _) = setup
        .generate_token(
            request.permissions.clone(),
            Some("test-agent".to_string()),
            Some("127.0.0.1".to_string()),
        )
        .expect("Token generation should succeed");

    let actual = setup.validate_token(&token_str);
    let expected = actual.is_ok();
    assert!(expected, "Token validation should succeed for valid token");
}

#[test]
fn tests_test_token_expiration() {
    let mut setup = create_token_manager_fixture();
    let request = create_token_request_fixture();

    // The token is issued at T0 and lives 60 s; it is checked 61 s later.
    let (token_str, _) = setup
        .generate_token_with(
            request.permissions.clone(),
            Some("test-agent".to_string()),
            Some("127.0.0.1".to_string()),
            T0,
            0x1234_5678_9abc_4def_8123_456789abcdef,
        )
        .expect("Token generation should succeed");

    let actual = setup.validate_token_at(&token_str, T0 + 61_000);
    let expected = matches!(actual, Err(AuthError::TokenExpired));
    assert!(expected, "Expired token should be rejected");
}

#[test]
fn test_token_refresh() {
    let mut setup = create_token_manager_fixture();
    let request = create_token_request_fixture();

    let (original_token, _) = setup
        .generate_token(
            request.permissions.clone(),
            Some("test-agent".to_string()),
            Some("127.0.0.1".to_string()),
        )
        .expect("Token generation should succeed");

    let actual = setup.refresh_token(&original_token);
    let expected = actual.is_ok();
    assert!(expected, "Token refresh should succeed");
}

#[test]
fn tests_test_token_revocation() {
    let mut setup = create_token_manager_fixture();
    let request = create_token_request_fixture();

    let (token_str, _) = setup
        .generate_token(
            request.permissions.clone(),
            Some("test-agent".to_string()),
            Some("127.0.0.1".to_string()),
        )
        .expect("Token generation should succeed");

    let revocation_result = setup.revoke_token(&token_str);
    assert!(revocation_result.is_ok(), "Token revocation should succeed");

    let validation_result = setup.validate_token(&token_str);
    let expected = matches!(validation_result, Err(AuthError::TokenRevoked));
    assert!(expected, "Revoked token should be rejected");
}

#[test]
fn tests_test_rate_limiting() {
    let mut setup = create_token_manager_fixture();
    let request = create_token_request_fixture();

    // Generate multiple tokens to trigger rate limiting
    for _ in 0..10 {
        let result = setup.generate_token(
            request.permissions.clone(),
            Some("test-agent".to_string()),
            Some("127.0.0.1".to_string()),
        );
        assert!(result.is_ok(), "Token generation should succeed for first 10 requests");
    }

    // 11th request should be rate limited
    let actual = setup.generate_token(
        request.permissions.clone(),
        Some("test-agent".to_string()),
        Some("127.0.0.1".to_string()),
    );

    let expected = matches!(actual, Err(AuthError::RateLimitExceeded));
    assert!(expected, "Rate limiting should block excessive requests");
}

#[test]
fn test_empty_permissions_rejection() {
    let mut setup = create_token_manager_fixture();

    let actual = setup.generate_token(
        vec!["".to_string()], // Empty permission
        Some("test-agent".to_string()),
        Some("127.0.0.1".to_string()),
    );

    let expected = matches!(actual, Err(AuthError::InvalidTokenFormat));
    assert!(expected, "Empty permissions should be rejected");
}

#[test]
fn test_token_cleanup() {
    let mut setup = create_token_manager_fixture();
    let request = create_token_request_fixture();

    // Generate some tokens at T0; they live 60 s.
    for i in 0..3u128 {
        setup
            .generate_token_with(
                request.permissions.clone(),
                Some("test-agent".to_string()),
                Some("127.0.0.1".to_string()),
                T0,
                0x1000 + i,
            )
            .expect("Token generation should succeed");
    }

    // Clean up once all of them have expired.
    let actual = setup.cleanup_expired_tokens_at(T0 + 61_000);
    let expected = 3;
    assert_eq!(actual, expected, "Should cleanup all expired tokens");
}

#[test]
fn test_secure_token_refresh_limits() {
    let mut setup = create_token_manager_fixture();
    let request = create_token_request_fixture();

    let (original_token, _) = setup
        .generate_token(
            request.permissions.clone(),
            Some("test-agent".to_string()),
            Some("127.0.0.1".to_string()),
        )
        .expect("Token generation should succeed");

    // Refresh token multiple times (up to the limit)
    let mut current_token = original_token;
    for i in 0..5 {
        let result = setup.refresh_token(&current_token);
        assert!(result.is_ok(), "Token refresh should succeed for attempt {}", i + 1);
        (current_token, _) = result.unwrap();
    }

    // 6th refresh should exceed the limit
    let actual = setup.refresh_token(&current_token);
    let expected = matches!(actual, Err(AuthError::RefreshLimitExceeded));
    assert!(expected, "Refresh limit should be enforced");
}

#[test]
fn test_invalid_token_format() {
    let mut setup = create_token_manager_fixture();

    let actual = setup.validate_token("invalid-token-format");
    let expected = matches!(actual, Err(AuthError::InvalidTokenFormat));
    assert!(expected, "Invalid token format should be rejected");
}

#[test]
fn test_nonexistent_token() {
    let mut setup = create_token_manager_fixture();

    let actual = setup.validate_token("00000000-0000-0000-0000-000000000000");
    let expected = matches!(actual, Err(AuthError::TokenNotFound));
    assert!(expected, "Non-existent token should be rejected");
}

// Further cases of the library's own.

#[test]
fn refreshed_token_replaces_the_old_one() {
    let mut setup = create_token_manager_fixture();
    let (old_text, _) = setup
        .generate_token_with(vec!["read".to_string()], None, None, T0, 0xaaaa)
        .unwrap();
    let (new_text, seconds) = setup.refresh_token_at(&old_text, T0 + 1_000, 0xbbbb).unwrap();
    assert_eq!(seconds, 60);
    assert_eq!(new_text, "00000000-0000-0000-0000-00000000bbbb");
    assert!(matches!(
        setup.validate_token_at(&old_text, T0 + 2_000),
        Err(AuthError::TokenRevoked)
    ));
    let new_token = setup.validate_token_at(&new_text, T0 + 2_000).unwrap();
    assert_eq!(new_token.refresh_count, 1);
    assert_eq!(new_token.permissions, vec!["read".to_string()]);
    assert_eq!(new_token.expires_at, T0 + 1_000 + 60_000);
}

#[test]
fn token_valid_up_to_its_expiry() {
    let mut setup = create_token_manager_fixture();
    let (text, _) = setup
        .generate_token_with(vec!["read".to_string()], None, None, T0, 7)
        .unwrap();
    assert!(setup.validate_token_at(&text, T0 + 60_000).is_ok());
    assert!(matches!(
        setup.validate_token_at(&text, T0 + 60_001),
        Err(AuthError::TokenExpired)
    ));
}

#[test]
fn validation_marks_last_use() {
    let mut setup = create_token_manager_fixture();
    let (text, _) = setup
        .generate_token_with(vec!["read".to_string()], None, None, T0, 9)
        .unwrap();
    let token = setup.validate_token_at(&text, T0 + 5_000).unwrap();
    assert_eq!(token.last_used_at, T0);
    let again = setup.validate_token_at(&text, T0 + 6_000).unwrap();
    assert_eq!(again.last_used_at, T0 + 5_000);
}

#[test]
fn revoking_unknown_token_fails() {
    let mut setup = create_token_manager_fixture();
    assert!(matches!(
        setup.revoke_token("00000000-0000-0000-0000-000000000001"),
        Err(AuthError::TokenNotFound)
    ));
    assert!(matches!(
        setup.revoke_token("not a uuid"),
        Err(AuthError::InvalidTokenFormat)
    ));
}

#[test]
fn security_violation_message() {
    let e = AuthError::SecurityViolation("Token used with different User-Agent".to_string());
    assert_eq!(
        e.message(),
        "Security violation: Token used with different User-Agent"
    );
    assert_eq!(AuthError::RefreshLimitExceeded.message(), "Refresh limit exceeded");
}

#[test]
fn security_configs() {
    let dev = forge_gateway::security::default_security_config();
    assert_eq!(dev.token_expiration_seconds, 3600);
    assert!(!dev.require_https);
    let prod = forge_gateway::security::production_security_config();
    assert_eq!(prod.token_expiration_seconds, 900);
    assert_eq!(prod.rate_limit_per_minute, 30);
    assert_eq!(prod.refresh_window_percent, 10);
}
