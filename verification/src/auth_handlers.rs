//! The bodies of the token endpoints: what a client is sent back when it asks
//! for, refreshes, revokes or inspects a token.
use vstd::prelude::*;
use vstd::string::StringExecFns;

use crate::auth_middleware::bearer_token;
use crate::ids::{uuid_parse, uuid_text, uuid_to_string};
use crate::security::{
    after_validation, auth_error_text, copy_strings, expired_at, texts, validation, AuthError,
    SecureToken, SecureTokenManager, TokenRecord,
};
use crate::websocket::bearer_of;
use crate::text::{decimal, decimal_text};

verus! {

/// A request for a new token.
#[derive(Debug)]
pub struct TokenRequest {
    pub permissions: Vec<String>,
}

/// A token handed out, with its lifetime in seconds.
#[derive(Debug)]
pub struct TokenResponse {
    pub token: String,
    pub expires_in: u64,
    pub token_type: String,
}

/// A request to refresh a token.
#[derive(Debug)]
pub struct RefreshTokenRequest {
    pub token: String,
}

/// A request to revoke a token.
#[derive(Debug)]
pub struct RevokeTokenRequest {
    pub token: String,
}

/// What a client is told about its token.
#[derive(Debug)]
pub struct TokenInfoResponse {
    pub token_id: String,
    pub created_at: String,
    pub expires_at: String,
    pub permissions: Vec<String>,
    pub is_expired: bool,
    pub is_revoked: bool,
}

/// The reply that hands out a bearer token.
pub fn token_response(token: String, expires_in: u64) -> (response: TokenResponse)
    ensures
        response.token@ == token@,
        response.expires_in == expires_in,
        response.token_type@ == "Bearer"@,
{
    TokenResponse { token, expires_in, token_type: String::from_str("Bearer") }
}

/// `prefix` followed by the text of `e`.
fn prefixed_error(prefix: &str, e: &AuthError) -> (text: String)
    ensures
        text@ == prefix@ + auth_error_text(*e),
{
    let mut text = prefix.to_string();
    text.append(e.message().as_str());
    text
}

/// The body of a failed token request.
pub fn generate_failure_text(e: &AuthError) -> (text: String)
    ensures
        text@ == "Failed to generate token: "@ + auth_error_text(*e),
{
    prefixed_error("Failed to generate token: ", e)
}

/// The text a failed refresh is answered with.
pub open spec fn refresh_failure(e: AuthError) -> Seq<char> {
    match e {
        AuthError::TokenExpired => "Token has expired and cannot be refreshed"@,
        AuthError::RefreshLimitExceeded => "Token refresh limit exceeded"@,
        AuthError::InvalidRefreshWindow => "Token cannot be refreshed yet"@,
        _ => "Failed to refresh token: "@ + auth_error_text(e),
    }
}

/// The body of a failed refresh.
pub fn refresh_failure_text(e: &AuthError) -> (text: String)
    ensures
        text@ == refresh_failure(*e),
{
    match e {
        AuthError::TokenExpired => String::from_str("Token has expired and cannot be refreshed"),
        AuthError::RefreshLimitExceeded => String::from_str("Token refresh limit exceeded"),
        AuthError::InvalidRefreshWindow => String::from_str("Token cannot be refreshed yet"),
        _ => prefixed_error("Failed to refresh token: ", e),
    }
}

/// The body of a failed revocation.
pub fn revoke_failure_text(e: &AuthError) -> (text: String)
    ensures
        text@ == "Failed to revoke token: "@ + auth_error_text(*e),
{
    prefixed_error("Failed to revoke token: ", e)
}

/// The body of a request for token information with a token that fails.
pub fn invalid_token_text(e: &AuthError) -> (text: String)
    ensures
        text@ == "Invalid token: "@ + auth_error_text(*e),
{
    prefixed_error("Invalid token: ", e)
}

/// The body of a cleanup that removed `count` tokens.
pub fn cleanup_text(count: usize) -> (text: String)
    ensures
        text@ == "Cleaned up "@ + decimal(count as nat) + " expired tokens"@,
{
    let mut text = String::from_str("Cleaned up ");
    text.append(decimal_text(count as u128).as_str());
    text.append(" expired tokens");
    text
}

/// How a point in time is shown: the debug form of a system time, in whole
/// seconds and nanoseconds since the Unix epoch.
pub open spec fn time_debug(millis: u128) -> Seq<char> {
    "SystemTime { tv_sec: "@ + decimal((millis / 1000) as nat) + ", tv_nsec: "@ + decimal(
        ((millis % 1000) * 1000000) as nat,
    ) + " }"@
}

/// The debug form of the time `millis` milliseconds after the Unix epoch.
pub fn time_debug_text(millis: u128) -> (text: String)
    ensures
        text@ == time_debug(millis),
{
    let mut text = String::from_str("SystemTime { tv_sec: ");
    text.append(decimal_text(millis / 1000).as_str());
    text.append(", tv_nsec: ");
    text.append(decimal_text((millis % 1000) * 1000000).as_str());
    text.append(" }");
    text
}

/// Whether `info` is what a client is told at time `now` about the token
/// `token`.
pub open spec fn describes(info: TokenInfoResponse, token: TokenRecord, now: u128) -> bool {
    &&& info.token_id@ == uuid_text(token.id)
    &&& info.created_at@ == time_debug(token.created_at)
    &&& info.expires_at@ == time_debug(token.expires_at)
    &&& texts(info.permissions@) == token.permissions
    &&& info.is_expired == expired_at(token, now)
    &&& info.is_revoked == token.is_revoked
}

/// What a client is told at time `now` about its token.
pub fn token_info_response_at(token: &SecureToken, now: u128) -> (info: TokenInfoResponse)
    ensures
        info.token_id@ == uuid_text(token.id),
        info.created_at@ == time_debug(token.created_at),
        info.expires_at@ == time_debug(token.expires_at),
        texts(info.permissions@) == texts(token.permissions@),
        info.is_expired == expired_at(token@, now),
        info.is_revoked == token.is_revoked,
{
    TokenInfoResponse {
        token_id: uuid_to_string(token.id),
        created_at: time_debug_text(token.created_at),
        expires_at: time_debug_text(token.expires_at),
        permissions: copy_strings(&token.permissions),
        is_expired: token.is_expired_at(now),
        is_revoked: token.is_revoked,
    }
}

/// The reply at time `now` to a request for token information with the
/// Authorization header `authorization` (none where it is missing or not
/// text): the token's information, or the text of the refusal. A header that
/// is not `Bearer <token>` is refused as missing; a bearer token that fails
/// validation is refused with the reason.
pub fn token_info_reply_at(
    manager: &mut SecureTokenManager,
    authorization: Option<&str>,
    now: u128,
) -> (reply: Result<TokenInfoResponse, String>)
    requires
        old(manager).wf(),
    ensures
        final(manager).wf(),
        final(manager).config() == old(manager).config(),
        final(manager).rate_log() == old(manager).rate_log(),
        match crate::text::str_text(authorization) {
            Some(h) if bearer_of(h) is Some => match uuid_parse(bearer_of(h)->Some_0) {
                None => {
                    &&& final(manager).tokens() == old(manager).tokens()
                    &&& reply matches Err(m) && m@ == "Invalid token: "@ + auth_error_text(
                        AuthError::InvalidTokenFormat,
                    )
                },
                Some(id) => {
                    &&& final(manager).tokens() == after_validation(old(manager).tokens(), id, now)
                    &&& match validation(old(manager).tokens(), id, now) {
                        Ok(t) => reply matches Ok(info) && describes(info, t, now),
                        Err(e) => reply matches Err(m) && m@ == "Invalid token: "@ + auth_error_text(e),
                    }
                },
            },
            _ => {
                &&& final(manager).tokens() == old(manager).tokens()
                &&& reply matches Err(m) && m@ == "Authorization header required"@
            },
        },
{
    let token_str = match authorization {
        Some(header) => match bearer_token(header) {
            Some(t) => t,
            None => return Err(String::from_str("Authorization header required")),
        },
        None => return Err(String::from_str("Authorization header required")),
    };
    match manager.validate_token_at(token_str.as_str(), now) {
        Ok(token) => Ok(token_info_response_at(&token, now)),
        Err(e) => Err(invalid_token_text(&e)),
    }
}

} // verus!
