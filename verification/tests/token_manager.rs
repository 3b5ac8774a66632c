use forge_gateway::token_manager::{AuthError, TokenManager};

const T0: u128 = 1_700_000_000_000;
const HOUR: u128 = 3_600_000;

#[test]
fn basic_token_lifecycle() {
    let mut manager = TokenManager::new("http://localhost:8081".to_string());
    let id = manager
        .generate_token_with(Some("alice".to_string()), vec!["read".to_string()], T0, 77)
        .unwrap();
    assert_eq!(id, 77);
    let token = manager.validate_token_at(77, Some("read"), T0 + HOUR).unwrap();
    assert_eq!(token.user_id, Some("alice".to_string()));
    assert!(matches!(
        manager.validate_token_at(77, Some("write"), T0),
        Err(AuthError::InsufficientPermissions(p)) if p == "write"
    ));
    assert!(matches!(
        manager.validate_token_at(77, None, T0 + HOUR + 1),
        Err(AuthError::TokenExpired)
    ));
    assert!(matches!(manager.renew_token_at(77, T0 + HOUR), Ok(77)));
    assert!(manager.validate_token_at(77, None, T0 + 2 * HOUR).is_ok());
    assert!(manager.revoke_token(77).is_ok());
    assert!(matches!(manager.validate_token_at(77, None, T0), Err(AuthError::TokenNotFound)));
    assert!(matches!(manager.revoke_token(77), Err(AuthError::TokenNotFound)));
}

#[test]
fn empty_permission_refused() {
    let mut manager = TokenManager::new("http://localhost:8081".to_string());
    let result = manager.generate_token_with(None, vec!["".to_string()], T0, 1);
    assert!(matches!(result, Err(AuthError::ServiceUnavailable)));
}

#[test]
fn cleanup_drops_expired_tokens() {
    let mut manager = TokenManager::new("http://localhost:8081".to_string());
    manager.generate_token_with(None, vec![], T0, 1).unwrap();
    manager.generate_token_with(None, vec![], T0 + HOUR, 2).unwrap();
    manager.cleanup_expired_tokens_at(T0 + HOUR + 1);
    assert!(matches!(manager.validate_token_at(1, None, T0), Err(AuthError::TokenNotFound)));
    assert!(manager.validate_token_at(2, None, T0 + HOUR + 1).is_ok());
}

#[test]
fn basic_error_messages() {
    assert_eq!(
        AuthError::InsufficientPermissions("admin".to_string()).message(),
        "Insufficient permissions: admin"
    );
    assert_eq!(AuthError::ServiceUnavailable.message(), "ForgeCode service unavailable");
}
