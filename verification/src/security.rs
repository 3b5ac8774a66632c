//! Secure token authentication: tokens with a lifetime, a refresh limit and
//! revocation, handed out under a per-client rate limit.
//!
//! Times are milliseconds since the Unix epoch (see `clock`). A token is
//! named by its UUID, held as an integer; clients see its hyphenated text.
use vstd::prelude::*;
use vstd::string::StringExecFns;

use crate::clock::{system_now_millis, MAX_CLOCK_MILLIS, TIME_BOUND};
use crate::ids::{new_random_uuid, parse_uuid, uuid_parse, uuid_text, uuid_to_string};
use crate::keyed::{
    has_key, keyed_map, keys_distinct, lemma_keyed_filter, lemma_keyed_index, lemma_keyed_push,
    lemma_keyed_update, map_keep,
};
use crate::text::{is_blank, trims_to_empty};

verus! {

/// Security configuration for token authentication.
#[derive(Debug, Clone, Copy)]
pub struct SecurityConfig {
    /// Token expiration time in seconds
    pub token_expiration_seconds: u64,
    /// Maximum number of tokens per user/IP
    pub max_tokens_per_user: usize,
    /// Rate limiting: max requests per minute
    pub rate_limit_per_minute: u32,
    /// Token refresh window (percentage of expiration time)
    pub refresh_window_percent: u8,
    /// Require HTTPS for token transmission
    pub require_https: bool,
    /// Enable audit logging
    pub enable_audit_logging: bool,
}

impl Default for SecurityConfig {
    fn default() -> (config: Self)
        ensures
            config.token_expiration_seconds == 3600,
            config.max_tokens_per_user == 10,
            config.rate_limit_per_minute == 60,
            config.refresh_window_percent == 20,
            config.require_https,
            config.enable_audit_logging,
    {
        SecurityConfig {
            token_expiration_seconds: 3600,
            max_tokens_per_user: 10,
            rate_limit_per_minute: 60,
            refresh_window_percent: 20,
            require_https: true,
            enable_audit_logging: true,
        }
    }
}

/// Default security configuration for development.
pub fn default_security_config() -> (config: SecurityConfig)
    ensures
        config.token_expiration_seconds == 3600,
        config.max_tokens_per_user == 10,
        config.rate_limit_per_minute == 60,
        config.refresh_window_percent == 20,
        !config.require_https,
        config.enable_audit_logging,
{
    SecurityConfig {
        token_expiration_seconds: 3600,
        max_tokens_per_user: 10,
        rate_limit_per_minute: 60,
        refresh_window_percent: 20,
        require_https: false,
        enable_audit_logging: true,
    }
}

/// Production security configuration.
pub fn production_security_config() -> (config: SecurityConfig)
    ensures
        config.token_expiration_seconds == 900,
        config.max_tokens_per_user == 5,
        config.rate_limit_per_minute == 30,
        config.refresh_window_percent == 10,
        config.require_https,
        config.enable_audit_logging,
{
    SecurityConfig {
        token_expiration_seconds: 900,
        max_tokens_per_user: 5,
        rate_limit_per_minute: 30,
        refresh_window_percent: 10,
        require_https: true,
        enable_audit_logging: true,
    }
}

/// How many times a freshly issued token may be refreshed.
pub const DEFAULT_MAX_REFRESH_COUNT: u32 = 5;

/// Length of the rate-limiting window, in milliseconds.
pub const RATE_WINDOW_MILLIS: u128 = 60000;

/// Token with security metadata.
#[derive(Debug)]
pub struct SecureToken {
    pub id: u128,
    pub created_at: u128,
    pub expires_at: u128,
    pub last_used_at: u128,
    pub permissions: Vec<String>,
    pub user_agent: Option<String>,
    pub client_ip: Option<String>,
    pub is_revoked: bool,
    pub refresh_count: u32,
    pub max_refresh_count: u32,
}

/// A copy of a list of strings.
pub fn copy_strings(v: &Vec<String>) -> (copy: Vec<String>)
    ensures
        copy@ == v@,
{
    let mut copy: Vec<String> = Vec::new();
    let n = v.len();
    let mut i: usize = 0;
    while i < n
        invariant
            n == v@.len(),
            i <= n,
            copy@ == v@.take(i as int),
        decreases n - i,
    {
        copy.push(v[i].clone());
        proof {
            assert(v@.take(i + 1) =~= v@.take(i as int).push(v@[i as int]));
        }
        i = i + 1;
    }
    assert(v@.take(n as int) =~= v@);
    copy
}

/// A copy of an optional string.
pub fn copy_optional(o: &Option<String>) -> (copy: Option<String>)
    ensures
        copy == *o,
{
    match o {
        Some(s) => Some(s.clone()),
        None => None,
    }
}

/// What a `SecureToken` holds, as plain values.
pub struct TokenRecord {
    pub id: u128,
    pub created_at: u128,
    pub expires_at: u128,
    pub last_used_at: u128,
    pub permissions: Seq<Seq<char>>,
    pub user_agent: Option<Seq<char>>,
    pub client_ip: Option<Seq<char>>,
    pub is_revoked: bool,
    pub refresh_count: u32,
    pub max_refresh_count: u32,
}

/// The text of an optional string.
pub open spec fn optional_text(o: Option<String>) -> Option<Seq<char>> {
    match o {
        Some(s) => Some(s@),
        None => None,
    }
}

/// The texts of a list of strings.
pub open spec fn texts(v: Seq<String>) -> Seq<Seq<char>> {
    v.map_values(|s: String| s@)
}

impl View for SecureToken {
    type V = TokenRecord;

    open spec fn view(&self) -> TokenRecord {
        TokenRecord {
            id: self.id,
            created_at: self.created_at,
            expires_at: self.expires_at,
            last_used_at: self.last_used_at,
            permissions: texts(self.permissions@),
            user_agent: optional_text(self.user_agent),
            client_ip: optional_text(self.client_ip),
            is_revoked: self.is_revoked,
            refresh_count: self.refresh_count,
            max_refresh_count: self.max_refresh_count,
        }
    }
}

impl Clone for SecureToken {
    fn clone(&self) -> (copy: Self)
        ensures
            copy@ == self@,
    {
        SecureToken {
            id: self.id,
            created_at: self.created_at,
            expires_at: self.expires_at,
            last_used_at: self.last_used_at,
            permissions: copy_strings(&self.permissions),
            user_agent: copy_optional(&self.user_agent),
            client_ip: copy_optional(&self.client_ip),
            is_revoked: self.is_revoked,
            refresh_count: self.refresh_count,
            max_refresh_count: self.max_refresh_count,
        }
    }
}

/// The expiry of a token issued at `now` under `config`.
pub open spec fn expiry_of(config: SecurityConfig, now: u128) -> u128 {
    (now + config.token_expiration_seconds * 1000) as u128
}

/// Whether a token has expired at time `now`.
pub open spec fn expired_at(token: TokenRecord, now: u128) -> bool {
    now > token.expires_at
}

/// Whether a token may still be refreshed at time `now`.
pub open spec fn refreshable_at(token: TokenRecord, now: u128) -> bool {
    !token.is_revoked && token.refresh_count < token.max_refresh_count && !expired_at(token, now)
}

/// The length of the refresh window of a token, in milliseconds: the given
/// percentage of its lifetime (of the configured lifetime where the token
/// expires before it was created).
pub open spec fn refresh_window_of(token: TokenRecord, config: SecurityConfig) -> int {
    let lifetime = if token.expires_at >= token.created_at {
        token.expires_at - token.created_at
    } else {
        config.token_expiration_seconds * 1000
    };
    lifetime * config.refresh_window_percent / 100
}

/// Whether `now` lies in the refresh window at the end of the token's life.
pub open spec fn in_refresh_window(token: TokenRecord, config: SecurityConfig, now: u128) -> bool {
    now + refresh_window_of(token, config) > token.expires_at
}

impl SecureToken {
    /// Whether the token has expired at time `now`.
    pub fn is_expired_at(&self, now: u128) -> (expired: bool)
        ensures
            expired == expired_at(self@, now),
    {
        now > self.expires_at
    }

    /// Whether the token has expired, by the system clock.
    pub fn is_expired(&self) -> (expired: bool)
        ensures
            exists|now: u128| now <= MAX_CLOCK_MILLIS && expired == #[trigger] expired_at(self@, now),
    {
        let now = system_now_millis();
        self.is_expired_at(now)
    }

    /// Whether the token may be refreshed at time `now`: not revoked, under
    /// its refresh limit and not expired.
    pub fn can_refresh_at(&self, now: u128) -> (can: bool)
        ensures
            can == refreshable_at(self@, now),
    {
        !self.is_revoked && self.refresh_count < self.max_refresh_count && !self.is_expired_at(now)
    }

    /// Whether the token may be refreshed, by the system clock.
    pub fn can_refresh(&self) -> (can: bool)
        ensures
            exists|now: u128| now <= MAX_CLOCK_MILLIS && can == #[trigger] refreshable_at(self@, now),
    {
        let now = system_now_millis();
        self.can_refresh_at(now)
    }

    /// Whether time `now` lies within the refresh window at the end of the
    /// token's lifetime.
    pub fn is_within_refresh_window_at(&self, config: &SecurityConfig, now: u128) -> (within: bool)
        requires
            self.created_at < TIME_BOUND,
            self.expires_at < TIME_BOUND,
        ensures
            within == in_refresh_window(self@, *config, now),
    {
        let lifetime: u128 = if self.expires_at >= self.created_at {
            self.expires_at - self.created_at
        } else {
            config.token_expiration_seconds as u128 * 1000
        };
        let percent = config.refresh_window_percent as u128;
        assert(lifetime * percent <= lifetime * 255) by (nonlinear_arith)
            requires
                percent <= 255,
        ;
        let window: u128 = lifetime * percent / 100;
        if self.expires_at < window {
            true
        } else {
            now > self.expires_at - window
        }
    }

    /// Whether the system clock lies within the refresh window.
    pub fn is_within_refresh_window(&self, config: &SecurityConfig) -> (within: bool)
        requires
            self.created_at < TIME_BOUND,
            self.expires_at < TIME_BOUND,
        ensures
            exists|now: u128|
                now <= MAX_CLOCK_MILLIS && within == #[trigger] in_refresh_window(self@, *config, now),
    {
        let now = system_now_millis();
        self.is_within_refresh_window_at(config, now)
    }
}

/// Errors of token authentication.
#[derive(Debug, Clone, PartialEq, Eq)]
pub enum AuthError {
    TokenNotFound,
    TokenExpired,
    TokenRevoked,
    InvalidTokenFormat,
    RateLimitExceeded,
    RefreshLimitExceeded,
    InvalidRefreshWindow,
    SecurityViolation(String),
}

/// The text of an authentication error.
pub open spec fn auth_error_text(e: AuthError) -> Seq<char> {
    match e {
        AuthError::TokenNotFound => "Token not found"@,
        AuthError::TokenExpired => "Token expired"@,
        AuthError::TokenRevoked => "Token revoked"@,
        AuthError::InvalidTokenFormat => "Invalid token format"@,
        AuthError::RateLimitExceeded => "Rate limit exceeded"@,
        AuthError::RefreshLimitExceeded => "Refresh limit exceeded"@,
        AuthError::InvalidRefreshWindow => "Invalid refresh window"@,
        AuthError::SecurityViolation(m) => "Security violation: "@ + m@,
    }
}

impl AuthError {
    /// The error's message, as it is shown to clients.
    pub fn message(&self) -> (text: String)
        ensures
            text@ == auth_error_text(*self),
    {
        match self {
            AuthError::TokenNotFound => String::from_str("Token not found"),
            AuthError::TokenExpired => String::from_str("Token expired"),
            AuthError::TokenRevoked => String::from_str("Token revoked"),
            AuthError::InvalidTokenFormat => String::from_str("Invalid token format"),
            AuthError::RateLimitExceeded => String::from_str("Rate limit exceeded"),
            AuthError::RefreshLimitExceeded => String::from_str("Refresh limit exceeded"),
            AuthError::InvalidRefreshWindow => String::from_str("Invalid refresh window"),
            AuthError::SecurityViolation(m) => {
                let mut text = String::from_str("Security violation: ");
                text.append(m.as_str());
                text
            },
        }
    }
}

/// The request times of the last minute, as seen at time `now`.
pub open spec fn recent_requests(times: Seq<u128>, now: u128) -> Seq<u128> {
    times.filter(|t: u128| t + RATE_WINDOW_MILLIS > now)
}

/// One rate-limit check of `identifier` at time `now`, against a limit of
/// `limit` requests per minute: the request log afterwards, and whether the
/// request was let through. Requests older than a minute are forgotten; a
/// request that is let through is logged.
pub open spec fn rate_step(
    log: Map<Seq<char>, Seq<u128>>,
    limit: u32,
    identifier: Seq<char>,
    now: u128,
) -> (Map<Seq<char>, Seq<u128>>, bool) {
    let past = if log.contains_key(identifier) {
        log[identifier]
    } else {
        Seq::empty()
    };
    let recent = recent_requests(past, now);
    if recent.len() >= limit {
        (log.insert(identifier, recent), false)
    } else {
        (log.insert(identifier, recent.push(now)), true)
    }
}

/// The key of a rate-limit entry.
pub open spec fn rate_key() -> spec_fn((String, Vec<u128>)) -> Seq<char> {
    |e: (String, Vec<u128>)| e.0@
}

/// Rate limiting and security tracking.
#[derive(Debug, Clone)]
pub struct RateLimiter {
    requests: Vec<(String, Vec<u128>)>,
    config: SecurityConfig,
}

/// The request times of the last minute, kept in their order.
fn keep_recent(times: &Vec<u128>, now: u128) -> (kept: Vec<u128>)
    ensures
        kept@ == recent_requests(times@, now),
{
    let mut kept: Vec<u128> = Vec::new();
    let n = times.len();
    let mut i: usize = 0;
    while i < n
        invariant
            n == times@.len(),
            i <= n,
            kept@ == recent_requests(times@.take(i as int), now),
        decreases n - i,
    {
        let t = times[i];
        proof {
            reveal_with_fuel(Seq::filter, 1);
            assert(times@.take(i + 1).drop_last() =~= times@.take(i as int));
        }
        if t >= now || now - t < RATE_WINDOW_MILLIS {
            kept.push(t);
        }
        i = i + 1;
    }
    assert(times@.take(n as int) =~= times@);
    kept
}

impl RateLimiter {
    /// Internal consistency: one entry per identifier.
    pub closed spec fn wf(&self) -> bool {
        keys_distinct(self.requests@, rate_key())
    }

    /// The request log: for each identifier seen, its request times.
    pub closed spec fn log(&self) -> Map<Seq<char>, Seq<u128>> {
        Map::new(
            |k: Seq<char>| keyed_map(self.requests@, rate_key()).contains_key(k),
            |k: Seq<char>| keyed_map(self.requests@, rate_key())[k].1@,
        )
    }

    /// The configuration the limiter goes by.
    pub closed spec fn config(&self) -> SecurityConfig {
        self.config
    }

    pub fn new(config: SecurityConfig) -> (limiter: Self)
        ensures
            limiter.wf(),
            limiter.config() == config,
            limiter.log() == Map::<Seq<char>, Seq<u128>>::empty(),
    {
        let limiter = RateLimiter { requests: Vec::new(), config };
        assert(limiter.log() =~= Map::<Seq<char>, Seq<u128>>::empty());
        limiter
    }

    /// Checks and records a request of `identifier` at time `now`.
    pub fn check_rate_limit_at(&mut self, identifier: &str, now: u128) -> (result: Result<(), AuthError>)
        requires
            old(self).wf(),
        ensures
            final(self).wf(),
            final(self).config() == old(self).config(),
            final(self).log() == rate_step(
                old(self).log(),
                old(self).config().rate_limit_per_minute,
                identifier@,
                now,
            ).0,
            result is Ok <==> rate_step(
                old(self).log(),
                old(self).config().rate_limit_per_minute,
                identifier@,
                now,
            ).1,
            result is Err ==> result == Err::<(), AuthError>(AuthError::RateLimitExceeded),
    {
        let ghost old_requests = self.requests@;
        let key = identifier.to_string();
        let n = self.requests.len();
        let mut i: usize = 0;
        while i < n
            invariant
                n == self.requests@.len(),
                self.requests@ == old_requests,
                i <= n,
                key@ == identifier@,
                forall|j: int| 0 <= j < i ==> (#[trigger] self.requests@[j]).0@ != key@,
            ensures
                i <= n,
                self.requests@ == old_requests,
                i < n ==> self.requests@[i as int].0@ == key@,
                forall|j: int| 0 <= j < i ==> (#[trigger] self.requests@[j]).0@ != key@,
            decreases n - i,
        {
            if self.requests[i].0 == key {
                break;
            }
            i = i + 1;
        }
        let limit = self.config.rate_limit_per_minute;
        let ghost step = rate_step(self.log(), limit, identifier@, now);
        if i < n {
            proof {
                lemma_keyed_index(old_requests, rate_key(), i as int);
            }
            let recent = keep_recent(&self.requests[i].1, now);
            let limited = recent.len() >= limit as usize;
            let mut updated = recent;
            if !limited {
                updated.push(now);
            }
            let entry = (key, updated);
            proof {
                lemma_keyed_update(old_requests, rate_key(), i as int, entry);
            }
            self.requests.set(i, entry);
            proof {
                assert(self.log() =~= step.0);
            }
            if limited {
                Err(AuthError::RateLimitExceeded)
            } else {
                Ok(())
            }
        } else {
            proof {
                assert(!has_key(old_requests, rate_key(), key@));
                assert(!self.log().contains_key(identifier@));
                assert(recent_requests(Seq::<u128>::empty(), now) =~= Seq::<u128>::empty()) by {
                    reveal_with_fuel(Seq::filter, 1);
                }
            }
            let limited = 0 >= limit as usize;
            let mut fresh: Vec<u128> = Vec::new();
            if !limited {
                fresh.push(now);
            }
            let entry = (key, fresh);
            proof {
                lemma_keyed_push(old_requests, rate_key(), entry);
            }
            self.requests.push(entry);
            proof {
                assert(self.log() =~= step.0);
            }
            if limited {
                Err(AuthError::RateLimitExceeded)
            } else {
                Ok(())
            }
        }
    }

    /// Checks and records a request of `identifier`, by the system clock.
    pub fn check_rate_limit(&mut self, identifier: &str) -> (result: Result<(), AuthError>)
        requires
            old(self).wf(),
        ensures
            final(self).wf(),
            final(self).config() == old(self).config(),
            exists|now: u128|
                now <= MAX_CLOCK_MILLIS && {
                    let step = #[trigger] rate_step(
                        old(self).log(),
                        old(self).config().rate_limit_per_minute,
                        identifier@,
                        now,
                    );
                    &&& final(self).log() == step.0
                    &&& (result is Ok <==> step.1)
                },
            result is Err ==> result == Err::<(), AuthError>(AuthError::RateLimitExceeded),
    {
        let now = system_now_millis();
        self.check_rate_limit_at(identifier, now)
    }
}


/// The key of a token record.
pub open spec fn record_id() -> spec_fn(TokenRecord) -> u128 {
    |r: TokenRecord| r.id
}

/// Some permission is empty once trimmed.
pub open spec fn has_blank_permission(permissions: Seq<Seq<char>>) -> bool {
    exists|i: int| 0 <= i < permissions.len() && is_blank(#[trigger] permissions[i])
}

/// Whom a request is counted against: the client's address, or "unknown".
pub open spec fn rate_identifier(client_ip: Option<Seq<char>>) -> Seq<char> {
    match client_ip {
        Some(ip) => ip,
        None => "unknown"@,
    }
}

/// The token issued at time `now` under the name `id`.
pub open spec fn issued_record(
    id: u128,
    now: u128,
    config: SecurityConfig,
    permissions: Seq<Seq<char>>,
    user_agent: Option<Seq<char>>,
    client_ip: Option<Seq<char>>,
    refresh_count: u32,
    max_refresh_count: u32,
) -> TokenRecord {
    TokenRecord {
        id,
        created_at: now,
        expires_at: expiry_of(config, now),
        last_used_at: now,
        permissions,
        user_agent,
        client_ip,
        is_revoked: false,
        refresh_count,
        max_refresh_count,
    }
}

/// Issuing a token: the tokens and the request log afterwards, and the token
/// issued or the reason for refusing it. A blank permission is refused before
/// the request is counted; a request over the rate limit is counted and
/// refused.
pub open spec fn issue_outcome(
    tokens: Map<u128, TokenRecord>,
    log: Map<Seq<char>, Seq<u128>>,
    config: SecurityConfig,
    permissions: Seq<Seq<char>>,
    user_agent: Option<Seq<char>>,
    client_ip: Option<Seq<char>>,
    now: u128,
    id: u128,
    refresh_count: u32,
    max_refresh_count: u32,
) -> (Map<u128, TokenRecord>, Map<Seq<char>, Seq<u128>>, Result<TokenRecord, AuthError>) {
    if has_blank_permission(permissions) {
        (tokens, log, Err(AuthError::InvalidTokenFormat))
    } else {
        let step = rate_step(log, config.rate_limit_per_minute, rate_identifier(client_ip), now);
        if !step.1 {
            (tokens, step.0, Err(AuthError::RateLimitExceeded))
        } else {
            let token = issued_record(
                id,
                now,
                config,
                permissions,
                user_agent,
                client_ip,
                refresh_count,
                max_refresh_count,
            );
            (tokens.insert(id, token), step.0, Ok(token))
        }
    }
}

/// Validating the token `id` at time `now`: the token, or why it is refused.
pub open spec fn validation(tokens: Map<u128, TokenRecord>, id: u128, now: u128) -> Result<
    TokenRecord,
    AuthError,
> {
    if !tokens.contains_key(id) {
        Err(AuthError::TokenNotFound)
    } else if tokens[id].is_revoked {
        Err(AuthError::TokenRevoked)
    } else if expired_at(tokens[id], now) {
        Err(AuthError::TokenExpired)
    } else {
        Ok(tokens[id])
    }
}

/// The tokens after validating `id` at time `now`: a token that passes is
/// marked as last used at `now`.
pub open spec fn after_validation(tokens: Map<u128, TokenRecord>, id: u128, now: u128) -> Map<
    u128,
    TokenRecord,
> {
    if validation(tokens, id, now) is Ok {
        tokens.insert(id, TokenRecord { last_used_at: now, ..tokens[id] })
    } else {
        tokens
    }
}

/// The tokens after revoking `id` (unchanged where there is no such token).
pub open spec fn revoked_in(tokens: Map<u128, TokenRecord>, id: u128) -> Map<u128, TokenRecord> {
    if tokens.contains_key(id) {
        tokens.insert(id, TokenRecord { is_revoked: true, ..tokens[id] })
    } else {
        tokens
    }
}

/// Refreshing the token `id` at time `now` under the new name `new_id`: the
/// tokens and the request log afterwards, and the new and the old token or
/// the reason for refusing. The old token must pass validation and be under
/// its refresh limit; the new one carries its permissions and client, counts
/// one more refresh, and the old one is revoked.
pub open spec fn refresh_outcome(
    tokens: Map<u128, TokenRecord>,
    log: Map<Seq<char>, Seq<u128>>,
    config: SecurityConfig,
    id: u128,
    now: u128,
    new_id: u128,
) -> (Map<u128, TokenRecord>, Map<Seq<char>, Seq<u128>>, Result<(TokenRecord, TokenRecord), AuthError>) {
    let validated = after_validation(tokens, id, now);
    match validation(tokens, id, now) {
        Err(e) => (validated, log, Err(e)),
        Ok(old) => if !refreshable_at(old, now) {
            (validated, log, Err(AuthError::RefreshLimitExceeded))
        } else {
            let issued = issue_outcome(
                validated,
                log,
                config,
                old.permissions,
                old.user_agent,
                old.client_ip,
                now,
                new_id,
                (old.refresh_count + 1) as u32,
                old.max_refresh_count,
            );
            match issued.2 {
                Err(e) => (issued.0, issued.1, Err(e)),
                Ok(new) => (revoked_in(issued.0, id), issued.1, Ok((new, old))),
            }
        },
    }
}

/// Whether a token survives a clean-up at time `now`.
pub open spec fn live_at(now: u128) -> spec_fn(TokenRecord) -> bool {
    |r: TokenRecord| !expired_at(r, now) && !r.is_revoked
}

/// An executable result agrees with the expected one, its value read through
/// its view.
pub open spec fn agrees<T: View>(result: Result<T, AuthError>, expected: Result<T::V, AuthError>) -> bool {
    match result {
        Ok(v) => expected == Ok::<T::V, AuthError>(v@),
        Err(e) => expected == Err::<T::V, AuthError>(e),
    }
}

/// A pair of tokens agrees with a pair of records.
pub open spec fn pair_agrees(
    result: Result<(SecureToken, SecureToken), AuthError>,
    expected: Result<(TokenRecord, TokenRecord), AuthError>,
) -> bool {
    match result {
        Ok((new, old)) => expected == Ok::<(TokenRecord, TokenRecord), AuthError>((new@, old@)),
        Err(e) => expected == Err::<(TokenRecord, TokenRecord), AuthError>(e),
    }
}

/// What a client is handed for an issued token: its text, which reads back
/// as the token's name, and its lifetime in seconds.
pub open spec fn handed_out(
    result: Result<(String, u64), AuthError>,
    expected: Result<TokenRecord, AuthError>,
    config: SecurityConfig,
) -> bool {
    match result {
        Ok((text, seconds)) => expected is Ok && text@ == uuid_text(expected->Ok_0.id) && uuid_parse(
            text@,
        ) == Some(expected->Ok_0.id) && seconds == config.token_expiration_seconds,
        Err(e) => expected == Err::<TokenRecord, AuthError>(e),
    }
}

/// The records of a list of tokens.
pub open spec fn views(s: Seq<SecureToken>) -> Seq<TokenRecord> {
    s.map_values(|t: SecureToken| t@)
}

/// Token manager with expiry, refresh limits, revocation and rate limiting.
#[derive(Clone)]
pub struct SecureTokenManager {
    tokens: Vec<SecureToken>,
    rate_limiter: RateLimiter,
    config: SecurityConfig,
}

impl SecureTokenManager {
    /// The tokens held, in the order they were issued.
    pub closed spec fn records(&self) -> Seq<TokenRecord> {
        views(self.tokens@)
    }

    /// The tokens held, by name.
    pub closed spec fn tokens(&self) -> Map<u128, TokenRecord> {
        keyed_map(self.records(), record_id())
    }

    /// The request log of the rate limiter.
    pub closed spec fn rate_log(&self) -> Map<Seq<char>, Seq<u128>> {
        self.rate_limiter.log()
    }

    /// The configuration the manager goes by.
    pub closed spec fn config(&self) -> SecurityConfig {
        self.config
    }

    /// Internal consistency: one token per name, times in range, no blank
    /// permission, and a rate limiter on the same configuration.
    pub closed spec fn wf(&self) -> bool {
        &&& keys_distinct(self.records(), record_id())
        &&& self.rate_limiter.wf()
        &&& self.rate_limiter.config() == self.config
        &&& forall|i: int|
            0 <= i < self.tokens@.len() ==> {
                &&& (#[trigger] self.tokens@[i]).created_at < TIME_BOUND
                &&& self.tokens@[i].expires_at < TIME_BOUND
                &&& !has_blank_permission(self.tokens@[i]@.permissions)
            }
    }

    /// The number of tokens held is the size of the map.
    proof fn lemma_token_count(&self)
        requires
            self.wf(),
        ensures
            self.tokens().dom().finite(),
            self.tokens().len() == self.tokens@.len(),
    {
        crate::keyed::lemma_keyed_len(self.records(), record_id());
    }

    pub fn new(config: SecurityConfig) -> (manager: Self)
        ensures
            manager.wf(),
            manager.config() == config,
            manager.tokens() == Map::<u128, TokenRecord>::empty(),
            manager.rate_log() == Map::<Seq<char>, Seq<u128>>::empty(),
    {
        let manager = SecureTokenManager {
            tokens: Vec::new(),
            rate_limiter: RateLimiter::new(config),
            config,
        };
        assert(manager.tokens() =~= Map::<u128, TokenRecord>::empty());
        manager
    }

    /// Where the token named `id` is stored.
    fn find(&self, id: u128) -> (index: Option<usize>)
        requires
            self.wf(),
        ensures
            match index {
                Some(i) => i < self.tokens@.len() && self.tokens@[i as int].id == id
                    && self.tokens().contains_key(id) && self.tokens()[id] == self.tokens@[i as int]@,
                None => !self.tokens().contains_key(id),
            },
    {
        let n = self.tokens.len();
        let mut i: usize = 0;
        while i < n
            invariant
                self.wf(),
                n == self.tokens@.len(),
                i <= n,
                forall|j: int| 0 <= j < i ==> (#[trigger] self.tokens@[j]).id != id,
            decreases n - i,
        {
            if self.tokens[i].id == id {
                proof {
                    assert(self.records()[i as int] == self.tokens@[i as int]@);
                    lemma_keyed_index(self.records(), record_id(), i as int);
                }
                return Some(i);
            }
            i = i + 1;
        }
        proof {
            if self.tokens().contains_key(id) {
                let j = choose|j: int|
                    0 <= j < self.records().len() && #[trigger] (record_id())(self.records()[j])
                        == id;
                assert(self.records()[j] == self.tokens@[j]@);
            }
        }
        None
    }

    /// Stores `token` under its name, replacing any token of that name.
    fn store(&mut self, token: SecureToken)
        requires
            old(self).wf(),
            token.created_at < TIME_BOUND,
            token.expires_at < TIME_BOUND,
            !has_blank_permission(token@.permissions),
        ensures
            final(self).wf(),
            final(self).tokens() == old(self).tokens().insert(token.id, token@),
            final(self).rate_log() == old(self).rate_log(),
            final(self).config() == old(self).config(),
    {
        let ghost old_records = self.records();
        let ghost token_view = token@;
        match self.find(token.id) {
            Some(i) => {
                proof {
                    lemma_keyed_update(old_records, record_id(), i as int, token_view);
                }
                self.tokens.set(i, token);
                proof {
                    assert(self.records() =~= old_records.update(i as int, token_view));
                }
            },
            None => {
                proof {
                    assert(!has_key(old_records, record_id(), token_view.id));
                    lemma_keyed_push(old_records, record_id(), token_view);
                }
                self.tokens.push(token);
                proof {
                    assert(self.records() =~= old_records.push(token_view));
                }
            },
        }
    }

    /// Whether some permission is blank.
    fn any_blank(permissions: &Vec<String>) -> (blank: bool)
        ensures
            blank == has_blank_permission(texts(permissions@)),
    {
        let n = permissions.len();
        let mut i: usize = 0;
        while i < n
            invariant
                n == permissions@.len(),
                i <= n,
                forall|j: int| 0 <= j < i ==> !is_blank(#[trigger] texts(permissions@)[j]),
            decreases n - i,
        {
            if trims_to_empty(permissions[i].as_str()) {
                assert(is_blank(texts(permissions@)[i as int]));
                return true;
            }
            i = i + 1;
        }
        false
    }

    /// Issues a token under the name `id` at time `now`.
    fn issue(
        &mut self,
        permissions: Vec<String>,
        user_agent: Option<String>,
        client_ip: Option<String>,
        now: u128,
        id: u128,
        refresh_count: u32,
        max_refresh_count: u32,
    ) -> (result: Result<SecureToken, AuthError>)
        requires
            old(self).wf(),
            now <= MAX_CLOCK_MILLIS,
        ensures
            final(self).wf(),
            final(self).config() == old(self).config(),
            ({
                let o = issue_outcome(
                    old(self).tokens(),
                    old(self).rate_log(),
                    old(self).config(),
                    texts(permissions@),
                    optional_text(user_agent),
                    optional_text(client_ip),
                    now,
                    id,
                    refresh_count,
                    max_refresh_count,
                );
                &&& final(self).tokens() == o.0
                &&& final(self).rate_log() == o.1
                &&& agrees(result, o.2)
            }),
    {
        if Self::any_blank(&permissions) {
            return Err(AuthError::InvalidTokenFormat);
        }
        let identifier = match &client_ip {
            Some(ip) => ip.clone(),
            None => "unknown".to_string(),
        };
        let checked = self.rate_limiter.check_rate_limit_at(identifier.as_str(), now);
        if checked.is_err() {
            return Err(AuthError::RateLimitExceeded);
        }
        let expires_at = now + self.config.token_expiration_seconds as u128 * 1000;
        let token = SecureToken {
            id,
            created_at: now,
            expires_at,
            last_used_at: now,
            permissions,
            user_agent,
            client_ip,
            is_revoked: false,
            refresh_count,
            max_refresh_count,
        };
        let issued = token.clone();
        self.store(token);
        Ok(issued)
    }

    /// Issues a token with the given permissions at time `now`, named `id`;
    /// returns its text and its lifetime in seconds.
    pub fn generate_token_with(
        &mut self,
        permissions: Vec<String>,
        user_agent: Option<String>,
        client_ip: Option<String>,
        now: u128,
        id: u128,
    ) -> (result: Result<(String, u64), AuthError>)
        requires
            old(self).wf(),
            now <= MAX_CLOCK_MILLIS,
        ensures
            final(self).wf(),
            final(self).config() == old(self).config(),
            ({
                let o = issue_outcome(
                    old(self).tokens(),
                    old(self).rate_log(),
                    old(self).config(),
                    texts(permissions@),
                    optional_text(user_agent),
                    optional_text(client_ip),
                    now,
                    id,
                    0,
                    DEFAULT_MAX_REFRESH_COUNT,
                );
                &&& final(self).tokens() == o.0
                &&& final(self).rate_log() == o.1
                &&& handed_out(result, o.2, old(self).config())
            }),
    {
        let issued = self.issue(
            permissions,
            user_agent,
            client_ip,
            now,
            id,
            0,
            DEFAULT_MAX_REFRESH_COUNT,
        );
        match issued {
            Ok(token) => Ok((uuid_to_string(token.id), self.config.token_expiration_seconds)),
            Err(e) => Err(e),
        }
    }

    /// Issues a token with the given permissions, named by a random UUID and
    /// dated by the system clock.
    pub fn generate_token(
        &mut self,
        permissions: Vec<String>,
        user_agent: Option<String>,
        client_ip: Option<String>,
    ) -> (result: Result<(String, u64), AuthError>)
        requires
            old(self).wf(),
        ensures
            final(self).wf(),
            final(self).config() == old(self).config(),
            exists|now: u128, id: u128|
                now <= MAX_CLOCK_MILLIS && {
                    let o = #[trigger] issue_outcome(
                        old(self).tokens(),
                        old(self).rate_log(),
                        old(self).config(),
                        texts(permissions@),
                        optional_text(user_agent),
                        optional_text(client_ip),
                        now,
                        id,
                        0,
                        DEFAULT_MAX_REFRESH_COUNT,
                    );
                    &&& final(self).tokens() == o.0
                    &&& final(self).rate_log() == o.1
                    &&& handed_out(result, o.2, old(self).config())
                },
    {
        let now = system_now_millis();
        let id = new_random_uuid();
        self.generate_token_with(permissions, user_agent, client_ip, now, id)
    }

    /// Validates the token named `id` at time `now`; a token that passes is
    /// marked as used at `now`.
    pub fn validate_token_id_at(&mut self, id: u128, now: u128) -> (result: Result<SecureToken, AuthError>)
        requires
            old(self).wf(),
        ensures
            final(self).wf(),
            final(self).config() == old(self).config(),
            final(self).rate_log() == old(self).rate_log(),
            final(self).tokens() == after_validation(old(self).tokens(), id, now),
            agrees(result, validation(old(self).tokens(), id, now)),
    {
        match self.find(id) {
            None => Err(AuthError::TokenNotFound),
            Some(i) => {
                let token = self.tokens[i].clone();
                if token.is_revoked {
                    return Err(AuthError::TokenRevoked);
                }
                if token.is_expired_at(now) {
                    return Err(AuthError::TokenExpired);
                }
                let mut used = token.clone();
                used.last_used_at = now;
                proof {
                    assert(used@ == TokenRecord { last_used_at: now, ..token@ });
                }
                self.store(used);
                Ok(token)
            },
        }
    }

    /// Validates a token given by its text at time `now`.
    pub fn validate_token_at(&mut self, token_str: &str, now: u128) -> (result: Result<SecureToken, AuthError>)
        requires
            old(self).wf(),
        ensures
            final(self).wf(),
            final(self).config() == old(self).config(),
            final(self).rate_log() == old(self).rate_log(),
            (match uuid_parse(token_str@) {
                None => result == Err::<SecureToken, AuthError>(AuthError::InvalidTokenFormat)
                    && final(self).tokens() == old(self).tokens(),
                Some(id) => final(self).tokens() == after_validation(old(self).tokens(), id, now)
                    && agrees(result, validation(old(self).tokens(), id, now)),
            }),
    {
        match parse_uuid(token_str) {
            None => Err(AuthError::InvalidTokenFormat),
            Some(id) => self.validate_token_id_at(id, now),
        }
    }

    /// Validates a token given by its text, by the system clock.
    pub fn validate_token(&mut self, token_str: &str) -> (result: Result<SecureToken, AuthError>)
        requires
            old(self).wf(),
        ensures
            final(self).wf(),
            final(self).config() == old(self).config(),
            final(self).rate_log() == old(self).rate_log(),
            (match uuid_parse(token_str@) {
                None => result == Err::<SecureToken, AuthError>(AuthError::InvalidTokenFormat)
                    && final(self).tokens() == old(self).tokens(),
                Some(id) => exists|now: u128|
                    now <= MAX_CLOCK_MILLIS && final(self).tokens() == #[trigger] after_validation(
                        old(self).tokens(),
                        id,
                        now,
                    ) && agrees(result, validation(old(self).tokens(), id, now)),
            }),
    {
        let now = system_now_millis();
        self.validate_token_at(token_str, now)
    }

    /// The token named `id`.
    pub fn get_token_by_id(&self, id: u128) -> (result: Result<SecureToken, AuthError>)
        requires
            self.wf(),
        ensures
            agrees(
                result,
                if self.tokens().contains_key(id) {
                    Ok::<TokenRecord, AuthError>(self.tokens()[id])
                } else {
                    Err::<TokenRecord, AuthError>(AuthError::TokenNotFound)
                },
            ),
    {
        match self.find(id) {
            Some(i) => Ok(self.tokens[i].clone()),
            None => Err(AuthError::TokenNotFound),
        }
    }

    /// Revokes the token named `id`.
    pub fn revoke_token_id(&mut self, id: u128) -> (result: Result<(), AuthError>)
        requires
            old(self).wf(),
        ensures
            final(self).wf(),
            final(self).config() == old(self).config(),
            final(self).rate_log() == old(self).rate_log(),
            final(self).tokens() == revoked_in(old(self).tokens(), id),
            result is Ok <==> old(self).tokens().contains_key(id),
            result is Err ==> result == Err::<(), AuthError>(AuthError::TokenNotFound),
    {
        match self.find(id) {
            None => Err(AuthError::TokenNotFound),
            Some(i) => {
                let mut revoked = self.tokens[i].clone();
                revoked.is_revoked = true;
                proof {
                    assert(revoked@ == TokenRecord { is_revoked: true, ..self.tokens()[id] });
                }
                self.store(revoked);
                Ok(())
            },
        }
    }

    /// Revokes a token given by its text.
    pub fn revoke_token(&mut self, token_str: &str) -> (result: Result<(), AuthError>)
        requires
            old(self).wf(),
        ensures
            final(self).wf(),
            final(self).config() == old(self).config(),
            final(self).rate_log() == old(self).rate_log(),
            (match uuid_parse(token_str@) {
                None => result == Err::<(), AuthError>(AuthError::InvalidTokenFormat)
                    && final(self).tokens() == old(self).tokens(),
                Some(id) => final(self).tokens() == revoked_in(old(self).tokens(), id) && (
                result is Ok <==> old(self).tokens().contains_key(id)) && (result is Err ==> result
                    == Err::<(), AuthError>(AuthError::TokenNotFound)),
            }),
    {
        match parse_uuid(token_str) {
            None => Err(AuthError::InvalidTokenFormat),
            Some(id) => self.revoke_token_id(id),
        }
    }

    /// Refreshes the token named `id` at time `now`: issues a new token named
    /// `new_id` and revokes the old one. Returns the new and the old token.
    pub fn refresh_token_by_id_at(&mut self, id: u128, now: u128, new_id: u128) -> (result: Result<
        (SecureToken, SecureToken),
        AuthError,
    >)
        requires
            old(self).wf(),
            now <= MAX_CLOCK_MILLIS,
        ensures
            final(self).wf(),
            final(self).config() == old(self).config(),
            ({
                let o = refresh_outcome(
                    old(self).tokens(),
                    old(self).rate_log(),
                    old(self).config(),
                    id,
                    now,
                    new_id,
                );
                &&& final(self).tokens() == o.0
                &&& final(self).rate_log() == o.1
                &&& pair_agrees(result, o.2)
            }),
    {
        let token = match self.validate_token_id_at(id, now) {
            Ok(token) => token,
            Err(e) => return Err(e),
        };
        if !token.can_refresh_at(now) {
            return Err(AuthError::RefreshLimitExceeded);
        }
        let permissions = copy_strings(&token.permissions);
        let user_agent = copy_optional(&token.user_agent);
        let client_ip = copy_optional(&token.client_ip);
        let issued = self.issue(
            permissions,
            user_agent,
            client_ip,
            now,
            new_id,
            token.refresh_count + 1,
            token.max_refresh_count,
        );
        match issued {
            Err(e) => Err(e),
            Ok(new_token) => {
                let revoked = self.revoke_token_id(id);
                proof {
                    assert(revoked is Ok);
                }
                Ok((new_token, token))
            },
        }
    }

    /// Refreshes a token given by its text at time `now`, under the new name
    /// `new_id`; returns the new token's text and lifetime in seconds.
    pub fn refresh_token_at(&mut self, token_str: &str, now: u128, new_id: u128) -> (result: Result<
        (String, u64),
        AuthError,
    >)
        requires
            old(self).wf(),
            now <= MAX_CLOCK_MILLIS,
        ensures
            final(self).wf(),
            final(self).config() == old(self).config(),
            (match uuid_parse(token_str@) {
                None => result == Err::<(String, u64), AuthError>(AuthError::InvalidTokenFormat)
                    && final(self).tokens() == old(self).tokens() && final(self).rate_log() == old(self).rate_log(),
                Some(id) => {
                    let o = refresh_outcome(
                        old(self).tokens(),
                        old(self).rate_log(),
                        old(self).config(),
                        id,
                        now,
                        new_id,
                    );
                    &&& final(self).tokens() == o.0
                    &&& final(self).rate_log() == o.1
                    &&& handed_out(
                        result,
                        match o.2 {
                            Ok((new, _)) => Ok::<TokenRecord, AuthError>(new),
                            Err(e) => Err::<TokenRecord, AuthError>(e),
                        },
                        old(self).config(),
                    )
                },
            }),
    {
        match parse_uuid(token_str) {
            None => Err(AuthError::InvalidTokenFormat),
            Some(id) => match self.refresh_token_by_id_at(id, now, new_id) {
                Ok((new_token, _)) => Ok(
                    (uuid_to_string(new_token.id), self.config.token_expiration_seconds),
                ),
                Err(e) => Err(e),
            },
        }
    }

    /// Refreshes a token given by its text, by the system clock, naming the
    /// new token by a random UUID.
    pub fn refresh_token(&mut self, token_str: &str) -> (result: Result<(String, u64), AuthError>)
        requires
            old(self).wf(),
        ensures
            final(self).wf(),
            final(self).config() == old(self).config(),
            (match uuid_parse(token_str@) {
                None => result == Err::<(String, u64), AuthError>(AuthError::InvalidTokenFormat)
                    && final(self).tokens() == old(self).tokens() && final(self).rate_log() == old(self).rate_log(),
                Some(id) => exists|now: u128, new_id: u128|
                    now <= MAX_CLOCK_MILLIS && {
                        let o = #[trigger] refresh_outcome(
                            old(self).tokens(),
                            old(self).rate_log(),
                            old(self).config(),
                            id,
                            now,
                            new_id,
                        );
                        &&& final(self).tokens() == o.0
                        &&& final(self).rate_log() == o.1
                        &&& handed_out(
                            result,
                            match o.2 {
                                Ok((new, _)) => Ok::<TokenRecord, AuthError>(new),
                                Err(e) => Err::<TokenRecord, AuthError>(e),
                            },
                            old(self).config(),
                        )
                    },
            }),
    {
        let now = system_now_millis();
        let new_id = new_random_uuid();
        self.refresh_token_at(token_str, now, new_id)
    }

    /// Removes the tokens that have expired by time `now` or were revoked;
    /// returns how many were removed.
    pub fn cleanup_expired_tokens_at(&mut self, now: u128) -> (removed: usize)
        requires
            old(self).wf(),
        ensures
            final(self).wf(),
            final(self).config() == old(self).config(),
            final(self).rate_log() == old(self).rate_log(),
            final(self).tokens() == map_keep(old(self).tokens(), live_at(now)),
            final(self).tokens().dom().finite(),
            old(self).tokens().dom().finite(),
            removed == old(self).tokens().len() - final(self).tokens().len(),
    {
        let ghost old_records = self.records();
        let ghost keep = live_at(now);
        proof {
            self.lemma_token_count();
        }
        let initial_count = self.tokens.len();
        let mut kept: Vec<SecureToken> = Vec::new();
        let mut i: usize = 0;
        while i < initial_count
            invariant
                initial_count == self.tokens@.len(),
                old_records == self.records(),
                keep == live_at(now),
                self.wf(),
                i <= initial_count,
                views(kept@) == old_records.take(i as int).filter(keep),
                forall|j: int|
                    0 <= j < kept@.len() ==> {
                        &&& (#[trigger] kept@[j]).created_at < TIME_BOUND
                        &&& kept@[j].expires_at < TIME_BOUND
                        &&& !has_blank_permission(kept@[j]@.permissions)
                    },
            decreases initial_count - i,
        {
            let token = self.tokens[i].clone();
            proof {
                reveal_with_fuel(Seq::filter, 1);
                assert(old_records.take(i + 1).drop_last() =~= old_records.take(i as int));
                assert(old_records[i as int] == token@);
            }
            if !token.is_expired_at(now) && !token.is_revoked {
                let ghost before = kept@;
                kept.push(token);
                proof {
                    assert(keep(token@));
                    assert(views(kept@) =~= views(before).push(token@));
                }
            } else {
                proof {
                    assert(!keep(token@));
                }
            }
            i = i + 1;
        }
        proof {
            assert(old_records.take(initial_count as int) =~= old_records);
            lemma_keyed_filter(old_records, record_id(), keep);
        }
        self.tokens = kept;
        proof {
            self.lemma_token_count();
            old_records.lemma_filter_len(keep);
        }
        initial_count - self.tokens.len()
    }

    /// Removes the tokens that have expired by the system clock or were
    /// revoked; returns how many were removed.
    pub fn cleanup_expired_tokens(&mut self) -> (removed: usize)
        requires
            old(self).wf(),
        ensures
            final(self).wf(),
            final(self).config() == old(self).config(),
            final(self).rate_log() == old(self).rate_log(),
            exists|now: u128|
                now <= MAX_CLOCK_MILLIS && final(self).tokens() == map_keep(
                    old(self).tokens(),
                    #[trigger] live_at(now),
                ),
            final(self).tokens().dom().finite(),
            old(self).tokens().dom().finite(),
            removed == old(self).tokens().len() - final(self).tokens().len(),
    {
        let now = system_now_millis();
        self.cleanup_expired_tokens_at(now)
    }
}

/// Initializes the secure authentication system.
pub fn init_auth_system(config: SecurityConfig) -> (manager: SecureTokenManager)
    ensures
        manager.wf(),
        manager.config() == config,
        manager.tokens() == Map::<u128, TokenRecord>::empty(),
        manager.rate_log() == Map::<Seq<char>, Seq<u128>>::empty(),
{
    SecureTokenManager::new(config)
}

} // verus!
