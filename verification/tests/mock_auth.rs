use forge_gateway::mock_auth::MockAuthSystem;

#[test]
fn test_authentication_positive() {
    let auth = MockAuthSystem::new();

    // Test valid tokens
    assert!(auth.validate_token("valid_token_123"));
    assert!(auth.validate_token("valid_token_456"));
}

#[test]
fn test_authentication_negative() {
    let auth = MockAuthSystem::new();

    // Test invalid tokens
    assert!(!auth.validate_token("invalid_token"));
    assert!(!auth.validate_token(""));
    assert!(!auth.validate_token("token_with_special_chars!@#"));
}

#[test]
fn test_rate_limiting_within_limit() {
    let mut auth = MockAuthSystem::new();

    // First 10 requests should pass
    for i in 0..10 {
        assert!(auth.check_rate_limit("client_1"), "Request {} should pass", i + 1);
    }
}

#[test]
fn test_rate_limiting_exceed_limit() {
    let mut auth = MockAuthSystem::new();

    // First 10 requests should pass
    for _ in 0..10 {
        assert!(auth.check_rate_limit("client_2"));
    }

    // 11th request should be limited
    assert!(!auth.check_rate_limit("client_2"));
}

#[test]
fn test_rate_limit_different_clients() {
    let mut auth = MockAuthSystem::new();

    // Client 1 should be able to make 10 requests
    for _ in 0..10 {
        assert!(auth.check_rate_limit("client_a"));
    }

    // Client 2 should also be able to make 10 requests (separate limit)
    for _ in 0..10 {
        assert!(auth.check_rate_limit("client_b"));
    }

    // Both should now be limited
    assert!(!auth.check_rate_limit("client_a"));
    assert!(!auth.check_rate_limit("client_b"));
}

#[test]
fn test_edge_cases() {
    let mut auth = MockAuthSystem::new();

    // Test very long token
    let long_token = "a".repeat(1000);
    assert!(!auth.validate_token(&long_token));

    // Test token with special characters
    assert!(!auth.validate_token("token!@#$%^&*()"));

    // Test empty client ID for rate limiting
    assert!(auth.check_rate_limit(""));
}
