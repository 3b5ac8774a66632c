//! URL token authentication domain types for gateway access: time-limited
//! tokens that can be passed as query parameters.
//!
//! Times are milliseconds since the Unix epoch, as `i64` (the range of
//! `chrono::DateTime::timestamp_millis`).
use rand::Rng;
use vstd::prelude::*;
use vstd::std_specs::cmp::PartialEqSpecImpl;
use vstd::string::StringExecFns;

use crate::clock::utc_now_millis;
use crate::ids::{new_random_uuid, uuid_text, uuid_to_string};
use crate::text::push_char;

verus! {

/// Unique identifier for a URL token.
#[derive(Debug, Clone)]
pub struct UrlTokenId(String);

impl View for UrlTokenId {
    type V = Seq<char>;

    closed spec fn view(&self) -> Seq<char> {
        self.0@
    }
}

impl PartialEq for UrlTokenId {
    fn eq(&self, other: &Self) -> (equal: bool) {
        self.0 == other.0
    }
}

impl PartialEqSpecImpl for UrlTokenId {
    open spec fn obeys_eq_spec() -> bool {
        true
    }

    open spec fn eq_spec(&self, other: &Self) -> bool {
        self@ == other@
    }
}

impl Eq for UrlTokenId {}

impl UrlTokenId {
    /// The identifier with the given text.
    pub fn from_string(text: String) -> (id: Self)
        ensures
            id@ == text@,
    {
        UrlTokenId(text)
    }

    /// The identifier's text.
    pub fn as_str(&self) -> (text: &str)
        ensures
            text@ == self@,
    {
        self.0.as_str()
    }

    /// The identifier's text, as an owned string.
    pub fn to_string(&self) -> (text: String)
        ensures
            text@ == self@,
    {
        self.0.clone()
    }

    /// A copy of the identifier.
    pub fn duplicate(&self) -> (copy: Self)
        ensures
            copy@ == self@,
    {
        UrlTokenId(self.0.clone())
    }

    /// Generates a new random token ID: the text of a random UUID.
    pub fn generate() -> (id: Self)
        ensures
            exists|u: u128| id@ == #[trigger] uuid_text(u),
            id@.len() == 36,
    {
        let u = new_random_uuid();
        UrlTokenId(uuid_to_string(u))
    }
}

/// Whether `c` is an ASCII letter or digit.
pub open spec fn is_ascii_alphanumeric(c: char) -> bool {
    ||| '0' <= c <= '9'
    ||| 'a' <= c <= 'z'
    ||| 'A' <= c <= 'Z'
}

/// Length of a token string.
pub const TOKEN_STRING_LENGTH: usize = 32;

/// Whether `s` has the shape of a token string: `TOKEN_STRING_LENGTH`
/// ASCII letters and digits.
pub open spec fn is_token_string(s: Seq<char>) -> bool {
    &&& s.len() == TOKEN_STRING_LENGTH
    &&& forall|i: int| 0 <= i < s.len() ==> is_ascii_alphanumeric(#[trigger] s[i])
}

/// One sample of `rand::distributions::Alphanumeric` from `rand::thread_rng`,
/// as a character: rand documents it as uniform over a-z, A-Z and 0-9.
#[verifier::external_body]
fn random_alphanumeric() -> (c: char)
    ensures
        is_ascii_alphanumeric(c),
{
    char::from(rand::thread_rng().sample(rand::distributions::Alphanumeric))
}

/// Generates a random token string of `TOKEN_STRING_LENGTH` ASCII letters
/// and digits.
pub fn generate_token_string() -> (s: String)
    ensures
        is_token_string(s@),
{
    let mut s = String::new();
    let mut i: usize = 0;
    while i < TOKEN_STRING_LENGTH
        invariant
            i <= TOKEN_STRING_LENGTH,
            s@.len() == i,
            forall|j: int| 0 <= j < s@.len() ==> is_ascii_alphanumeric(#[trigger] s@[j]),
        decreases TOKEN_STRING_LENGTH - i,
    {
        let c = random_alphanumeric();
        push_char(&mut s, c);
        i = i + 1;
    }
    s
}

/// `a + b`, held to the range of `i64`.
pub open spec fn clamped_sum(a: i64, b: i64) -> i64 {
    if a + b > i64::MAX {
        i64::MAX
    } else if a + b < i64::MIN {
        i64::MIN
    } else {
        (a + b) as i64
    }
}

/// `a + b`, held to the range of `i64`.
pub fn clamped_add(a: i64, b: i64) -> (sum: i64)
    ensures
        sum == clamped_sum(a, b),
{
    if b > 0 && a > i64::MAX - b {
        i64::MAX
    } else if b < 0 && a < i64::MIN - b {
        i64::MIN
    } else {
        a + b
    }
}

/// A time-limited URL token for gateway authentication.
#[derive(Debug)]
pub struct UrlToken {
    /// Unique identifier for this token
    pub id: UrlTokenId,
    /// The actual token string used in URLs
    pub token: String,
    /// When the token was created
    pub created_at: i64,
    /// When the token expires
    pub expires_at: i64,
    /// Optional description or label for this token
    pub description: Option<String>,
    /// Whether the token has been revoked
    pub revoked: bool,
}

/// What a `UrlToken` holds, as plain values.
pub struct UrlTokenRecord {
    pub id: Seq<char>,
    pub token: Seq<char>,
    pub created_at: i64,
    pub expires_at: i64,
    pub description: Option<Seq<char>>,
    pub revoked: bool,
}

impl View for UrlToken {
    type V = UrlTokenRecord;

    open spec fn view(&self) -> UrlTokenRecord {
        UrlTokenRecord {
            id: self.id@,
            token: self.token@,
            created_at: self.created_at,
            expires_at: self.expires_at,
            description: crate::security::optional_text(self.description),
            revoked: self.revoked,
        }
    }
}

impl Clone for UrlToken {
    fn clone(&self) -> (copy: Self)
        ensures
            copy@ == self@,
    {
        UrlToken {
            id: self.id.duplicate(),
            token: self.token.clone(),
            created_at: self.created_at,
            expires_at: self.expires_at,
            description: crate::security::copy_optional(&self.description),
            revoked: self.revoked,
        }
    }
}

/// Whether a URL token has expired at time `now`.
pub open spec fn url_token_expired(token: UrlTokenRecord, now: i64) -> bool {
    now > token.expires_at
}

/// Whether a URL token is valid at time `now`: not revoked, not expired.
pub open spec fn url_token_valid(token: UrlTokenRecord, now: i64) -> bool {
    !token.revoked && !url_token_expired(token, now)
}

/// Milliseconds in an hour.
pub const MILLIS_PER_HOUR: i64 = 3600000;

/// The default lifetime of a token, in milliseconds (24 hours).
pub const DEFAULT_LIFETIME_MILLIS: i64 = 86400000;

impl UrlToken {
    /// A token named `id` with text `token`, created at `now` and valid for
    /// `duration_millis` (its expiry held to the range of `i64`).
    pub fn new_at(
        duration_millis: i64,
        description: Option<String>,
        now: i64,
        id: UrlTokenId,
        token: String,
    ) -> (url_token: Self)
        ensures
            url_token@ == (UrlTokenRecord {
                id: id@,
                token: token@,
                created_at: now,
                expires_at: clamped_sum(now, duration_millis),
                description: crate::security::optional_text(description),
                revoked: false,
            }),
    {
        let expires_at = clamped_add(now, duration_millis);
        UrlToken { id, token, created_at: now, expires_at, description, revoked: false }
    }

    /// A new token valid for `duration_millis` from now: a generated ID, a
    /// random token string, dated by the clock.
    pub fn new(duration_millis: i64, description: Option<String>) -> (url_token: Self)
        ensures
            url_token.id@.len() == 36,
            exists|u: u128| url_token.id@ == #[trigger] uuid_text(u),
            is_token_string(url_token.token@),
            url_token.expires_at == clamped_sum(url_token.created_at, duration_millis),
            url_token@.description == crate::security::optional_text(description),
            !url_token.revoked,
    {
        let id = UrlTokenId::generate();
        let token = generate_token_string();
        let now = utc_now_millis();
        Self::new_at(duration_millis, description, now, id, token)
    }

    /// A new token valid for 24 hours.
    pub fn default_expiration() -> (url_token: Self)
        ensures
            url_token.id@.len() == 36,
            exists|u: u128| url_token.id@ == #[trigger] uuid_text(u),
            is_token_string(url_token.token@),
            url_token.expires_at == clamped_sum(url_token.created_at, DEFAULT_LIFETIME_MILLIS),
            url_token.description is None,
            !url_token.revoked,
    {
        Self::new(DEFAULT_LIFETIME_MILLIS, None)
    }

    /// Whether the token has expired at time `now`.
    pub fn is_expired_at(&self, now: i64) -> (expired: bool)
        ensures
            expired == url_token_expired(self@, now),
    {
        now > self.expires_at
    }

    /// Whether the token has expired, by the clock.
    pub fn is_expired(&self) -> (expired: bool)
        ensures
            exists|now: i64| expired == #[trigger] url_token_expired(self@, now),
    {
        self.is_expired_at(utc_now_millis())
    }

    /// Whether the token is valid at time `now`: not revoked, not expired.
    pub fn is_valid_at(&self, now: i64) -> (valid: bool)
        ensures
            valid == url_token_valid(self@, now),
    {
        !self.revoked && !self.is_expired_at(now)
    }

    /// Whether the token is valid, by the clock.
    pub fn is_valid(&self) -> (valid: bool)
        ensures
            exists|now: i64| valid == #[trigger] url_token_valid(self@, now),
    {
        self.is_valid_at(utc_now_millis())
    }

    /// Revokes the token.
    pub fn revoke(&mut self)
        ensures
            final(self)@ == (UrlTokenRecord { revoked: true, ..old(self)@ }),
    {
        self.revoked = true;
    }

    /// A human-readable summary: its ID and expiry.
    pub fn describe(&self) -> (text: String)
        ensures
            text@ == "UrlToken(id="@ + self.id@ + ", expires_at="@ + millis_text(self.expires_at)
                + ")"@,
    {
        let when = format_millis(self.expires_at);
        self.describe_with(when.as_str())
    }

    /// The summary of the token, its expiry written as `expiry_text`.
    pub fn describe_with(&self, expiry_text: &str) -> (text: String)
        ensures
            text@ == "UrlToken(id="@ + self.id@ + ", expires_at="@ + expiry_text@ + ")"@,
    {
        let mut text = String::new();
        text.append("UrlToken(id=");
        text.append(self.id.as_str());
        text.append(", expires_at=");
        text.append(expiry_text);
        text.append(")");
        text
    }
}

/// What `chrono` writes for a time (its `Display` of `DateTime<Utc>`).
pub uninterp spec fn millis_text(millis: i64) -> Seq<char>;

/// `chrono::DateTime::<Utc>::from_timestamp_millis` written with its
/// `Display` (the text is empty where chrono cannot represent the time).
#[verifier::external_body]
fn format_millis(millis: i64) -> (text: String)
    ensures
        text@ == millis_text(millis),
{
    match chrono::DateTime::<chrono::Utc>::from_timestamp_millis(millis) {
        Some(time) => time.to_string(),
        None => String::new(),
    }
}

/// Whole seconds of a time in milliseconds, rounded down (as
/// `DateTime::timestamp` counts them).
pub open spec fn floor_seconds(millis: i64) -> int {
    if millis >= 0 {
        millis / 1000
    } else {
        -((-(millis + 1)) / 1000) - 1
    }
}

/// Whole seconds of a time in milliseconds, rounded down.
pub fn seconds_of(millis: i64) -> (seconds: i64)
    ensures
        seconds == floor_seconds(millis),
{
    if millis >= 0 {
        millis / 1000
    } else {
        -((-(millis + 1)) / 1000) - 1
    }
}

/// JWT claims for URL token authentication.
#[derive(Debug, Clone)]
pub struct UrlTokenClaims {
    /// Subject (token ID)
    pub sub: String,
    /// Expiration timestamp
    pub exp: usize,
    /// Issued at timestamp
    pub iat: usize,
    /// Token type
    pub typ: String,
}

impl UrlTokenClaims {
    /// Claims for token `token_id`, which expires at `expires_at`, issued at
    /// `now`. Timestamps are whole seconds, cast to `usize`.
    pub fn new_at(token_id: &UrlTokenId, expires_at: i64, now: i64) -> (claims: Self)
        ensures
            claims.sub@ == token_id@,
            claims.exp == floor_seconds(expires_at) as usize,
            claims.iat == floor_seconds(now) as usize,
            claims.typ@ == "url_token"@,
    {
        let iat = seconds_of(now) as usize;
        let exp = seconds_of(expires_at) as usize;
        UrlTokenClaims { sub: token_id.to_string(), exp, iat, typ: "url_token".to_string() }
    }

    /// Claims issued now, by the clock.
    pub fn new(token_id: &UrlTokenId, expires_at: i64) -> (claims: Self)
        ensures
            claims.sub@ == token_id@,
            claims.exp == floor_seconds(expires_at) as usize,
            exists|now: i64| claims.iat == #[trigger] floor_seconds(now) as usize,
            claims.typ@ == "url_token"@,
    {
        Self::new_at(token_id, expires_at, utc_now_millis())
    }
}

/// Request to create a new URL token.
#[derive(Debug, Clone, PartialEq, Eq)]
pub struct CreateUrlTokenRequest {
    /// Duration in hours for token validity
    pub duration_hours: i64,
    /// Optional description
    pub description: Option<String>,
}

impl Default for CreateUrlTokenRequest {
    fn default() -> (request: Self)
        ensures
            request.duration_hours == 24,
            request.description is None,
    {
        CreateUrlTokenRequest { duration_hours: 24, description: None }
    }
}

impl CreateUrlTokenRequest {
    /// The request with the given duration.
    pub fn duration_hours(self, duration_hours: i64) -> (request: Self)
        ensures
            request.duration_hours == duration_hours,
            request.description == self.description,
    {
        CreateUrlTokenRequest { duration_hours, ..self }
    }

    /// The request with the given description.
    pub fn description(self, description: &str) -> (request: Self)
        ensures
            request.duration_hours == self.duration_hours,
            request.description is Some,
            request.description->Some_0@ == description@,
    {
        CreateUrlTokenRequest { description: Some(description.to_string()), ..self }
    }
}

/// Response after creating a URL token.
#[derive(Debug, Clone)]
pub struct CreateUrlTokenResponse {
    /// The token ID
    pub id: UrlTokenId,
    /// The full token string (shown only once)
    pub token: String,
    /// When the token expires
    pub expires_at: i64,
}

/// Token validation result.
#[derive(Debug, Clone)]
pub enum TokenValidationResult {
    /// Token is valid
    Valid(UrlTokenId),
    /// Token has expired
    Expired,
    /// Token has been revoked
    Revoked,
    /// Token not found
    NotFound,
    /// Invalid token format
    InvalidFormat,
}

impl PartialEq for TokenValidationResult {
    fn eq(&self, other: &Self) -> (equal: bool) {
        match (self, other) {
            (TokenValidationResult::Valid(a), TokenValidationResult::Valid(b)) => a == b,
            (TokenValidationResult::Expired, TokenValidationResult::Expired) => true,
            (TokenValidationResult::Revoked, TokenValidationResult::Revoked) => true,
            (TokenValidationResult::NotFound, TokenValidationResult::NotFound) => true,
            (TokenValidationResult::InvalidFormat, TokenValidationResult::InvalidFormat) => true,
            _ => false,
        }
    }
}

impl PartialEqSpecImpl for TokenValidationResult {
    open spec fn obeys_eq_spec() -> bool {
        true
    }

    open spec fn eq_spec(&self, other: &Self) -> bool {
        match (self, other) {
            (TokenValidationResult::Valid(a), TokenValidationResult::Valid(b)) => a@ == b@,
            (TokenValidationResult::Expired, TokenValidationResult::Expired) => true,
            (TokenValidationResult::Revoked, TokenValidationResult::Revoked) => true,
            (TokenValidationResult::NotFound, TokenValidationResult::NotFound) => true,
            (TokenValidationResult::InvalidFormat, TokenValidationResult::InvalidFormat) => true,
            _ => false,
        }
    }
}

impl Eq for TokenValidationResult {}

} // verus!
