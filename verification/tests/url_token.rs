use forge_gateway::url_token::{
    CreateUrlTokenRequest, TokenValidationResult, UrlToken, UrlTokenClaims, UrlTokenId,
};
use forge_gateway::url_token_service::{TokenError, UrlTokenService};
use forge_gateway::url_token_store::{
    InMemoryUrlTokenRepository, StandardTokenGenerator, UrlTokenGenerator,
};

const HOUR: i64 = 3_600_000;

fn now_millis() -> i64 {
    chrono::Utc::now().timestamp_millis()
}

#[test]
fn test_url_token_new() {
    let fixture = UrlToken::new(HOUR, Some("Test token".to_string()));

    assert!(!fixture.token.is_empty());
    assert_eq!(fixture.description, Some("Test token".to_string()));
    assert!(!fixture.revoked);
}

#[test]
fn test_url_token_is_expired() {
    let mut fixture = UrlToken::default_expiration();
    fixture.expires_at = now_millis() - HOUR;

    assert!(fixture.is_expired());
}

#[test]
fn test_url_token_is_valid() {
    let fixture = UrlToken::default_expiration();

    assert!(fixture.is_valid());
}

#[test]
fn test_url_token_revoked_is_not_valid() {
    let mut fixture = UrlToken::default_expiration();
    fixture.revoke();

    assert!(!fixture.is_valid());
}

#[test]
fn test_url_token_id_generate() {
    let actual = UrlTokenId::generate();

    assert!(!actual.to_string().is_empty());
}

#[test]
fn test_url_token_claims_new() {
    let token_id = UrlTokenId::generate();
    let expires_at = now_millis() + HOUR;

    let actual = UrlTokenClaims::new(&token_id, expires_at);

    assert_eq!(actual.sub, token_id.to_string());
    assert_eq!(actual.typ, "url_token");
}

#[test]
fn test_create_url_token_request_default() {
    let fixture = CreateUrlTokenRequest::default();

    assert_eq!(fixture.duration_hours, 24);
    assert_eq!(fixture.description, None);
}

#[test]
fn test_create_url_token_request_setters() {
    let actual = CreateUrlTokenRequest::default()
        .duration_hours(48)
        .description("API access");

    let expected = CreateUrlTokenRequest {
        duration_hours: 48,
        description: Some("API access".to_string()),
    };
    assert_eq!(actual, expected);
}

#[test]
fn test_standard_token_generator_generate_token_string() {
    let fixture = StandardTokenGenerator::default();

    let actual = fixture.generate_token_string();

    assert_eq!(actual.len(), 32);
}

#[test]
fn test_standard_token_generator_generate_token_id() {
    let fixture = StandardTokenGenerator::default();

    let actual = fixture.generate_token_id();

    assert!(!actual.to_string().is_empty());
}

#[test]
fn test_create_token() {
    let mut service = UrlTokenService::new(InMemoryUrlTokenRepository::new());

    let request = CreateUrlTokenRequest::default()
        .duration_hours(24)
        .description("Test token");

    let actual = service.create_token(request).unwrap();

    assert!(!actual.token.is_empty());
    assert!(!actual.id.to_string().is_empty());
}

#[test]
fn test_validate_token_valid() {
    let mut service = UrlTokenService::new(InMemoryUrlTokenRepository::new());

    let request = CreateUrlTokenRequest::default();
    let created = service.create_token(request).unwrap();

    let actual = service.validate_token(&created.token);

    assert!(matches!(actual, TokenValidationResult::Valid(_)));
}

#[test]
fn test_validate_token_not_found() {
    let service = UrlTokenService::new(InMemoryUrlTokenRepository::new());

    let actual = service.validate_token("invalid_token");

    assert_eq!(actual, TokenValidationResult::NotFound);
}

#[test]
fn test_revoke_token() {
    let mut service = UrlTokenService::new(InMemoryUrlTokenRepository::new());

    let request = CreateUrlTokenRequest::default();
    let created = service.create_token(request).unwrap();

    service.revoke_token(&created.id).unwrap();

    let actual = service.validate_token(&created.token);
    assert_eq!(actual, TokenValidationResult::Revoked);
}

#[test]
fn test_list_tokens() {
    let mut service = UrlTokenService::new(InMemoryUrlTokenRepository::new());

    let request = CreateUrlTokenRequest::default().description("Token 1");
    let _ = service.create_token(request).unwrap();

    let actual = service.list_tokens().unwrap();

    assert_eq!(actual.len(), 1);
}

#[test]
fn test_delete_token() {
    let mut service = UrlTokenService::new(InMemoryUrlTokenRepository::new());

    let request = CreateUrlTokenRequest::default();
    let created = service.create_token(request).unwrap();

    service.delete_token(&created.id).unwrap();

    let actual = service.validate_token(&created.token);
    assert_eq!(actual, TokenValidationResult::NotFound);
}

#[test]
fn test_cleanup_expired_tokens() {
    // An expired token, saved straight into the repository.
    let mut token = UrlToken::new(-HOUR, Some("Expired".to_string()));
    token.expires_at = now_millis() - HOUR;
    let repository = InMemoryUrlTokenRepository::from_tokens(vec![token]);
    let mut service = UrlTokenService::new(repository);

    let actual = service.cleanup_expired_tokens().unwrap();

    assert_eq!(actual, 1);
}

// Further cases of the library's own.

#[test]
fn token_created_at_a_given_time() {
    let mut service = UrlTokenService::new(InMemoryUrlTokenRepository::new());
    let id = UrlTokenId::from_string("id-1".to_string());
    let created = service
        .create_token_with(
            CreateUrlTokenRequest::default().duration_hours(2),
            1_000,
            id,
            "abc".to_string(),
        )
        .unwrap();
    assert_eq!(created.expires_at, 1_000 + 2 * HOUR);
    assert_eq!(
        service.validate_token_at("abc", 1_000 + 2 * HOUR),
        TokenValidationResult::Valid(UrlTokenId::from_string("id-1".to_string()))
    );
    assert_eq!(
        service.validate_token_at("abc", 1_001 + 2 * HOUR),
        TokenValidationResult::Expired
    );
}

#[test]
fn cleanup_keeps_live_tokens() {
    let mut service = UrlTokenService::new(InMemoryUrlTokenRepository::new());
    for (i, hours) in [1i64, 3, 5].iter().enumerate() {
        service
            .create_token_with(
                CreateUrlTokenRequest::default().duration_hours(*hours),
                0,
                UrlTokenId::from_string(format!("id-{}", i)),
                format!("tok-{}", i),
            )
            .unwrap();
    }
    assert_eq!(service.cleanup_expired_tokens_at(2 * HOUR + 1).unwrap(), 1);
    assert_eq!(service.list_tokens().unwrap().len(), 2);
    assert_eq!(
        service.validate_token_at("tok-0", 2 * HOUR + 1),
        TokenValidationResult::NotFound
    );
}

#[test]
fn revoking_unknown_url_token_fails() {
    let mut service = UrlTokenService::new(InMemoryUrlTokenRepository::new());
    let result = service.revoke_token(&UrlTokenId::from_string("nope".to_string()));
    assert!(matches!(result, Err(TokenError::TokenNotFound(_))));
}

#[test]
fn expiry_held_to_range() {
    let token = UrlToken::new(i64::MAX, None);
    assert_eq!(token.expires_at, i64::MAX);
    assert!(token.is_valid());
}

#[test]
fn token_description_text() {
    let mut token = UrlToken::new(HOUR, None);
    token.id = UrlTokenId::from_string("abc".to_string());
    token.expires_at = 0;
    assert_eq!(token.describe(), "UrlToken(id=abc, expires_at=1970-01-01 00:00:00 UTC)");
}

use forge_gateway::url_token_service::{expired_ids, revocation_of, validation_reply};
use forge_gateway::url_token_store::InfraError;

fn token_at(id: &str, text: &str, expires_at: i64) -> UrlToken {
    let mut token = UrlToken::new(HOUR, None);
    token.id = UrlTokenId::from_string(id.to_string());
    token.token = text.to_string();
    token.expires_at = expires_at;
    token
}

#[test]
fn validation_replies() {
    let err = Err(InfraError { message: "down".to_string() });
    assert_eq!(validation_reply(err, 0), TokenValidationResult::InvalidFormat);
    assert_eq!(validation_reply(Ok(None), 0), TokenValidationResult::NotFound);
    let live = token_at("a", "t", 100);
    assert_eq!(
        validation_reply(Ok(Some(live)), 100),
        TokenValidationResult::Valid(UrlTokenId::from_string("a".to_string()))
    );
    assert_eq!(validation_reply(Ok(Some(token_at("a", "t", 100))), 101), TokenValidationResult::Expired);
    let mut revoked = token_at("a", "t", 100);
    revoked.revoke();
    assert_eq!(validation_reply(Ok(Some(revoked)), 200), TokenValidationResult::Revoked);
}

#[test]
fn revocation_steps() {
    let id = UrlTokenId::from_string("a".to_string());
    assert!(matches!(
        revocation_of(Err(InfraError { message: "down".to_string() }), &id),
        Err(TokenError::Repository(e)) if e.message == "down"
    ));
    assert!(matches!(revocation_of(Ok(None), &id), Err(TokenError::TokenNotFound(i)) if i == id));
    let revoked = revocation_of(Ok(Some(token_at("a", "t", 5))), &id).unwrap();
    assert!(revoked.revoked);
    assert_eq!(revoked.expires_at, 5);
}

#[test]
fn expired_ids_in_order() {
    let list = vec![token_at("a", "1", 10), token_at("b", "2", 30), token_at("c", "3", 5)];
    let ids = expired_ids(&list, 20);
    assert_eq!(ids, vec![UrlTokenId::from_string("a".to_string()), UrlTokenId::from_string("c".to_string())]);
}

#[test]
fn gateway_token_round_trip() {
    let mut service = UrlTokenService::new(InMemoryUrlTokenRepository::new());
    let token = forge_gateway::gateway::generate_token(&mut service, 2, None).unwrap();
    assert_eq!(token.len(), 32);
    assert!(forge_gateway::gateway::validate_token(&service, &token));
    assert!(!forge_gateway::gateway::validate_token(&service, "nope"));
    let listed = service.list_tokens().unwrap();
    assert_eq!(listed.len(), 1);
    assert_eq!(listed[0].description, Some("".to_string()));
}
