use forge_gateway::token_renewal::RenewalStats;

/// Test RenewalStats initialization
#[test]
fn test_renewal_stats() {
    let stats = RenewalStats::new();

    assert_eq!(stats.total_sessions, 0);
    assert_eq!(stats.successful_renewals, 0);
    assert_eq!(stats.failed_renewals, 0);
    assert_eq!(stats.expired_tokens, 0);
    assert_eq!(stats.missing_tokens, 0);
    assert_eq!(stats.removed_sessions, 0);
    assert_eq!(stats.total_renewal_count, 0);
}

use forge_gateway::security::{SecureTokenManager, SecurityConfig};
use forge_gateway::token_renewal::{RenewalSession, TokenRenewalManager};

#[test]
fn test_renewal_session() {
    let token_id = 0x42u128;
    let now = std::time::SystemTime::now()
        .duration_since(std::time::UNIX_EPOCH)
        .unwrap()
        .as_millis();
    let expires_at = now + 3_600_000;

    let session = RenewalSession::new(token_id, expires_at);

    let after = std::time::SystemTime::now()
        .duration_since(std::time::UNIX_EPOCH)
        .unwrap()
        .as_millis();
    assert_eq!(session.token_id, token_id);
    assert_eq!(session.expires_at, expires_at);
    assert_eq!(session.renewal_count, 0);
    assert!(session.created_at <= after);
    assert!(session.last_renewal <= after);
}

const T0: u128 = 1_700_000_000_000;

fn config() -> SecurityConfig {
    SecurityConfig {
        token_expiration_seconds: 600,
        max_tokens_per_user: 5,
        rate_limit_per_minute: 100,
        refresh_window_percent: 20,
        require_https: false,
        enable_audit_logging: true,
    }
}

#[test]
fn renewal_pass_renews_due_tokens_and_drops_dead_ones() {
    let mut tokens = SecureTokenManager::new(config());
    // Token 1 expires at T0 + 600 s, token 2 as well; token 3 is revoked later.
    tokens.generate_token_with(vec!["read".to_string()], None, None, T0, 1).unwrap();
    tokens.generate_token_with(vec!["read".to_string()], None, None, T0, 2).unwrap();
    tokens.generate_token_with(vec!["read".to_string()], None, None, T0, 3).unwrap();
    let mut renewal = TokenRenewalManager::new(tokens);
    renewal.start_renewal_at(1, T0).unwrap();
    renewal.start_renewal_at(2, T0).unwrap();
    renewal.start_renewal_at(3, T0).unwrap();
    assert!(renewal.start_renewal_at(99, T0).is_err());
    assert!(renewal.stop_renewal(3));
    assert!(!renewal.is_renewal_active(3));
    assert!(!renewal.stop_renewal(3));

    // 6 minutes later both are due (less than 5 minutes left).
    let now = T0 + 360_000;
    let stats = renewal.process_renewals_with(now, &vec![11, 12]);
    assert_eq!(stats.total_sessions, 2);
    assert_eq!(stats.successful_renewals, 2);
    assert_eq!(stats.removed_sessions, 0);
    let sessions = renewal.get_active_sessions();
    assert_eq!(sessions.len(), 2);
    assert_eq!(sessions[0].renewal_count, 1);
    assert_eq!(sessions[0].expires_at, now + 600_000);
    assert_eq!(sessions[0].last_renewal, now);

    // Long after expiry the sessions are dropped.
    let stats = renewal.process_renewals_with(T0 + 10_000_000, &vec![21, 22]);
    assert_eq!(stats.expired_tokens + stats.missing_tokens, 2);
    assert_eq!(stats.removed_sessions, 2);
    assert_eq!(renewal.get_active_sessions().len(), 0);
}

#[test]
fn sessions_not_yet_due_are_left_alone() {
    let mut tokens = SecureTokenManager::new(config());
    tokens.generate_token_with(vec!["read".to_string()], None, None, T0, 1).unwrap();
    let mut renewal = TokenRenewalManager::new(tokens);
    renewal.start_renewal_at(1, T0).unwrap();
    let stats = renewal.process_renewals_with(T0 + 1_000, &vec![5]);
    assert_eq!(stats.total_sessions, 1);
    assert_eq!(stats.successful_renewals, 0);
    assert_eq!(stats.removed_sessions, 0);
    assert_eq!(renewal.get_stats().total_sessions, 1);
}
