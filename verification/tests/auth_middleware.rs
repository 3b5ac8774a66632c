use forge_gateway::auth_middleware::{
    authenticate_request_at, bearer_token, extract_plain_token_from_url, extract_token_from_url,
    is_allowed_origin, validate_token_usage,
};
use forge_gateway::security::{AuthError, SecureTokenManager, SecurityConfig};

const T0: u128 = 1_700_000_000_000;
const ID: &str = "00000000-0000-0000-0000-0000000000aa";

fn manager_with_token(ip: Option<&str>, agent: Option<&str>) -> SecureTokenManager {
    let mut manager = SecureTokenManager::new(SecurityConfig {
        token_expiration_seconds: 60,
        max_tokens_per_user: 5,
        rate_limit_per_minute: 10,
        refresh_window_percent: 20,
        require_https: false,
        enable_audit_logging: true,
    });
    manager
        .generate_token_with(
            vec!["read".to_string()],
            agent.map(|a| a.to_string()),
            ip.map(|a| a.to_string()),
            T0,
            0xaa,
        )
        .unwrap();
    manager
}

#[test]
fn url_token_must_be_a_uuid() {
    assert_eq!(extract_token_from_url(""), None);
    assert_eq!(extract_token_from_url("token=abc"), None);
    assert_eq!(
        extract_token_from_url(&format!("x=1&access_token={}", ID)),
        Some(ID.to_string())
    );
    assert_eq!(
        extract_token_from_url(&format!("token=&auth_token={}&token={}", ID, "zzz")),
        Some(ID.to_string())
    );
}

#[test]
fn plain_url_token() {
    assert_eq!(extract_plain_token_from_url("token="), None);
    assert_eq!(extract_plain_token_from_url("a=b&token=x%20y"), Some("x y".to_string()));
}

#[test]
fn bearer_header() {
    assert_eq!(bearer_token("Bearer abc"), Some("abc".to_string()));
    assert_eq!(bearer_token("Basic abc"), None);
    assert_eq!(bearer_token("Bearer"), None);
}

#[test]
fn usage_checks_client() {
    let mut manager = manager_with_token(Some("10.0.0.1"), Some("agent"));
    let token = manager.validate_token_at(ID, T0).unwrap();
    assert!(validate_token_usage(&token, &Some("10.0.0.1".to_string()), &None).is_ok());
    let e = validate_token_usage(&token, &Some("10.0.0.2".to_string()), &None).unwrap_err();
    assert_eq!(
        e,
        AuthError::SecurityViolation("Token used from different IP: 10.0.0.1 -> 10.0.0.2".to_string())
    );
    let e = validate_token_usage(&token, &None, &Some("other".to_string())).unwrap_err();
    assert_eq!(
        e,
        AuthError::SecurityViolation("Token used with different User-Agent".to_string())
    );
}

#[test]
fn url_token_accepted_before_header() {
    let mut manager = manager_with_token(Some("10.0.0.1"), None);
    let query = format!("token={}", ID);
    let result = authenticate_request_at(
        &mut manager,
        &query,
        "garbage",
        &Some("10.0.0.1".to_string()),
        &None,
        T0 + 1,
    );
    assert_eq!(result.unwrap().id, 0xaa);
}

#[test]
fn misused_url_token_falls_back_to_header() {
    let mut manager = manager_with_token(Some("10.0.0.1"), None);
    let query = format!("token={}", ID);
    let result = authenticate_request_at(
        &mut manager,
        &query,
        ID,
        &Some("10.9.9.9".to_string()),
        &None,
        T0 + 1,
    );
    assert!(matches!(result, Err(AuthError::SecurityViolation(_))));
    let result = authenticate_request_at(&mut manager, "", "nonsense", &None, &None, T0 + 1);
    assert_eq!(result.unwrap_err(), AuthError::InvalidTokenFormat);
}

#[test]
fn cors_origins() {
    assert!(is_allowed_origin("http://localhost:3000"));
    assert!(is_allowed_origin("https://example.com"));
    assert!(!is_allowed_origin("http://example.com"));
}

use forge_gateway::auth_middleware::url_token_auth_at;
use forge_gateway::token_manager::TokenManager;

#[test]
fn basic_url_token_auth() {
    let mut manager = TokenManager::new("http://localhost:8081".to_string());
    manager.generate_token_with(None, vec![], 1_000, 0xcd).unwrap();
    let text = "00000000-0000-0000-0000-0000000000cd";
    let query = format!("token={}", text);
    assert_eq!(url_token_auth_at(&manager, &query, None, 2_000).unwrap().id, 0xcd);
    assert_eq!(url_token_auth_at(&manager, "token=bad", Some(text), 2_000).unwrap().id, 0xcd);
    assert!(url_token_auth_at(&manager, "token=bad", None, 2_000).is_none());
    assert!(url_token_auth_at(&manager, "", Some("bad"), 2_000).is_none());
}
