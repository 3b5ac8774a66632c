//! Request authentication: tokens from the query string or the
//! Authorization header, checks that a token is used by the client it was
//! issued to, and the origins allowed to call the authentication endpoints.
//!
//! Times are milliseconds since the Unix epoch (see `clock`).
use vstd::prelude::*;
use vstd::string::StringExecFns;

use crate::clock::{system_now_millis, MAX_CLOCK_MILLIS};
use crate::ids::{parse_uuid, uuid_parse};
use crate::security::{
    after_validation, optional_text, validation, AuthError, SecureToken, SecureTokenManager,
    TokenRecord,
};
use crate::text::{starts_with, str_equal};
use crate::token_manager::{text_accepted, Token, TokenManager};

verus! {

/// The name-value pairs that `url::form_urlencoded::parse` decodes from a
/// query string, in order.
pub uninterp spec fn form_pairs(query: Seq<char>) -> Seq<(Seq<char>, Seq<char>)>;

/// The texts of decoded pairs.
pub open spec fn pair_texts(pairs: Seq<(String, String)>) -> Seq<(Seq<char>, Seq<char>)> {
    pairs.map_values(|p: (String, String)| (p.0@, p.1@))
}

/// `url::form_urlencoded::parse` of the query's bytes, each pair made owned.
#[verifier::external_body]
pub(crate) fn query_pairs(query: &str) -> (pairs: Vec<(String, String)>)
    ensures
        pair_texts(pairs@) == form_pairs(query@),
{
    url::form_urlencoded::parse(query.as_bytes()).into_owned().collect()
}

/// The value of the first pair that `accept` takes.
pub open spec fn first_accepted(
    pairs: Seq<(Seq<char>, Seq<char>)>,
    accept: spec_fn((Seq<char>, Seq<char>)) -> bool,
) -> Option<Seq<char>>
    decreases pairs.len(),
{
    if pairs.len() == 0 {
        None
    } else if accept(pairs[0]) {
        Some(pairs[0].1)
    } else {
        first_accepted(pairs.drop_first(), accept)
    }
}

/// The first accepted pair is the first one that `accept` takes.
pub proof fn lemma_first_accepted(
    pairs: Seq<(Seq<char>, Seq<char>)>,
    accept: spec_fn((Seq<char>, Seq<char>)) -> bool,
    i: int,
)
    requires
        0 <= i <= pairs.len(),
        forall|j: int| 0 <= j < i ==> !accept(#[trigger] pairs[j]),
    ensures
        i == pairs.len() ==> first_accepted(pairs, accept) is None,
        i < pairs.len() && accept(pairs[i]) ==> first_accepted(pairs, accept) == Some(pairs[i].1),
    decreases i,
{
    if i > 0 {
        let rest = pairs.drop_first();
        assert forall|j: int| 0 <= j < i - 1 implies !accept(#[trigger] rest[j]) by {
            assert(rest[j] == pairs[j + 1]);
        }
        lemma_first_accepted(rest, accept, i - 1);
        assert(!accept(pairs[0]));
        if i < pairs.len() {
            assert(rest[i - 1] == pairs[i]);
        }
    }
}

/// A query parameter that carries a secure token: named `token`,
/// `auth_token` or `access_token`, non-empty, and a UUID.
pub open spec fn secure_token_param() -> spec_fn((Seq<char>, Seq<char>)) -> bool {
    |p: (Seq<char>, Seq<char>)|
        (p.0 == "token"@ || p.0 == "auth_token"@ || p.0 == "access_token"@) && p.1.len() > 0
            && uuid_parse(p.1) is Some
}

/// A query parameter named `token` with a non-empty value.
pub open spec fn plain_token_param() -> spec_fn((Seq<char>, Seq<char>)) -> bool {
    |p: (Seq<char>, Seq<char>)| p.0 == "token"@ && p.1.len() > 0
}

/// A query parameter named `token`, whatever its value.
pub open spec fn token_key_param() -> spec_fn((Seq<char>, Seq<char>)) -> bool {
    |p: (Seq<char>, Seq<char>)| p.0 == "token"@
}

/// Which query parameters may carry a token.
#[derive(Debug, Clone, Copy, PartialEq, Eq, Structural)]
pub enum TokenParam {
    /// `token`, `auth_token` or `access_token`, with a UUID as value.
    Secure,
    /// `token`, with a non-empty value.
    Plain,
    /// `token`, with any value.
    Key,
}

/// The test of a query parameter that `rule` stands for.
pub open spec fn accepts(rule: TokenParam) -> spec_fn((Seq<char>, Seq<char>)) -> bool {
    match rule {
        TokenParam::Secure => secure_token_param(),
        TokenParam::Plain => plain_token_param(),
        TokenParam::Key => token_key_param(),
    }
}

/// The token a query string carries, by `accept`: none in an empty query
/// string.
pub open spec fn query_token(query: Seq<char>, accept: spec_fn((Seq<char>, Seq<char>)) -> bool) -> Option<
    Seq<char>,
> {
    if query.len() == 0 {
        None
    } else {
        first_accepted(form_pairs(query), accept)
    }
}

/// Whether a query parameter is accepted by `rule`.
fn param_accepted(rule: TokenParam, name: &str, value: &str) -> (accepted: bool)
    ensures
        accepted == (accepts(rule))((name@, value@)),
{
    match rule {
        TokenParam::Secure => (str_equal(name, "token") || str_equal(name, "auth_token")
            || str_equal(name, "access_token")) && value.unicode_len() > 0 && parse_uuid(
            value,
        ).is_some(),
        TokenParam::Plain => str_equal(name, "token") && value.unicode_len() > 0,
        TokenParam::Key => str_equal(name, "token"),
    }
}

/// The value of the first of the decoded `pairs` that `rule` accepts.
pub fn first_param_in(pairs: &Vec<(String, String)>, rule: TokenParam) -> (token: Option<String>)
    ensures
        match token {
            Some(t) => first_accepted(pair_texts(pairs@), accepts(rule)) == Some(t@),
            None => first_accepted(pair_texts(pairs@), accepts(rule)) is None,
        },
        rule is Secure && token is Some ==> uuid_parse(token->Some_0@) is Some,
{
    let ghost accept = accepts(rule);
    let ghost texts = pair_texts(pairs@);
    let n = pairs.len();
    let mut i: usize = 0;
    while i < n
        invariant
            n == pairs@.len(),
            texts == pair_texts(pairs@),
            accept == accepts(rule),
            i <= n,
            forall|j: int| 0 <= j < i ==> !accept(#[trigger] texts[j]),
        decreases n - i,
    {
        let accepted = param_accepted(rule, pairs[i].0.as_str(), pairs[i].1.as_str());
        assert(texts[i as int] == (pairs@[i as int].0@, pairs@[i as int].1@));
        if accepted {
            assert(accept(texts[i as int]));
            proof {
                lemma_first_accepted(texts, accept, i as int);
            }
            let value = pairs[i].1.clone();
            assert(value@ == texts[i as int].1);
            return Some(value);
        }
        i = i + 1;
    }
    proof {
        lemma_first_accepted(texts, accept, n as int);
    }
    None
}

/// The value of the first parameter of `query` that `rule` accepts.
pub fn first_token_param(query: &str, rule: TokenParam) -> (token: Option<String>)
    ensures
        match token {
            Some(t) => first_accepted(form_pairs(query@), accepts(rule)) == Some(t@),
            None => first_accepted(form_pairs(query@), accepts(rule)) is None,
        },
        rule is Secure && token is Some ==> uuid_parse(token->Some_0@) is Some,
{
    let pairs = query_pairs(query);
    first_param_in(&pairs, rule)
}

/// The first parameter of a non-empty `query` that `rule` accepts.
fn find_token_param(query: &str, rule: TokenParam) -> (token: Option<String>)
    ensures
        match token {
            Some(t) => query_token(query@, accepts(rule)) == Some(t@),
            None => query_token(query@, accepts(rule)) is None,
        },
        rule is Secure && token is Some ==> uuid_parse(token->Some_0@) is Some,
{
    if query.unicode_len() == 0 {
        return None;
    }
    first_token_param(query, rule)
}

/// The secure token carried in a query string: the first parameter named
/// `token`, `auth_token` or `access_token` whose value is a UUID.
pub fn extract_token_from_url(query: &str) -> (token: Option<String>)
    ensures
        match token {
            Some(t) => query_token(query@, secure_token_param()) == Some(t@),
            None => query_token(query@, secure_token_param()) is None,
        },
        token matches Some(t) ==> uuid_parse(t@) is Some,
{
    find_token_param(query, TokenParam::Secure)
}

/// The token carried in a query string: the first non-empty parameter named
/// `token`.
pub fn extract_plain_token_from_url(query: &str) -> (token: Option<String>)
    ensures
        match token {
            Some(t) => query_token(query@, plain_token_param()) == Some(t@),
            None => query_token(query@, plain_token_param()) is None,
        },
{
    find_token_param(query, TokenParam::Plain)
}

/// The text of the token that authenticates a request to the basic token
/// manager at time `now`: the `token` parameter of its query string if that
/// names a valid token, else its bearer token if that does.
pub open spec fn basic_auth_text(
    manager: TokenManager,
    query: Seq<char>,
    bearer: Option<Seq<char>>,
    now: u128,
) -> Option<Seq<char>> {
    let url = query_token(query, plain_token_param());
    if url is Some && text_accepted(manager.tokens(), url->Some_0, now) {
        url
    } else if bearer is Some && text_accepted(manager.tokens(), bearer->Some_0, now) {
        bearer
    } else {
        None
    }
}

/// Authenticates a request to the basic token manager at time `now`; the
/// token it is let in with, or none (the request is refused).
pub fn url_token_auth_at(manager: &TokenManager, query: &str, bearer: Option<&str>, now: u128) -> (token:
    Option<Token>)
    requires
        manager.wf(),
    ensures
        match basic_auth_text(*manager, query@, crate::text::str_text(bearer), now) {
            Some(text) => token matches Some(t) && t@ == manager.tokens()[uuid_parse(text)->Some_0],
            None => token is None,
        },
{
    if let Some(text) = extract_plain_token_from_url(query) {
        if let Some(token) = manager.accepts_text_at(text.as_str(), now) {
            return Some(token);
        }
    }
    match bearer {
        Some(b) => manager.accepts_text_at(b, now),
        None => None,
    }
}

/// Whether a token may be used by a client: where both the token and the
/// request know the client's address (and user agent), they agree.
pub open spec fn usage_allowed(
    token: TokenRecord,
    client_ip: Option<Seq<char>>,
    user_agent: Option<Seq<char>>,
) -> bool {
    &&& (token.client_ip is Some && client_ip is Some) ==> token.client_ip == client_ip
    &&& (token.user_agent is Some && user_agent is Some) ==> token.user_agent == user_agent
}

/// The description of a misuse of a token.
pub open spec fn violation_text(
    token: TokenRecord,
    client_ip: Option<Seq<char>>,
    user_agent: Option<Seq<char>>,
) -> Seq<char> {
    if token.client_ip is Some && client_ip is Some && token.client_ip != client_ip {
        "Token used from different IP: "@ + token.client_ip->Some_0 + " -> "@ + client_ip->Some_0
    } else {
        "Token used with different User-Agent"@
    }
}

/// Checks that a token is used by the client it was issued to.
pub fn validate_token_usage(
    token: &SecureToken,
    client_ip: &Option<String>,
    user_agent: &Option<String>,
) -> (result: Result<(), AuthError>)
    ensures
        result is Ok <==> usage_allowed(token@, optional_text(*client_ip), optional_text(*user_agent)),
        result matches Err(e) ==> e matches AuthError::SecurityViolation(m) && m@ == violation_text(
            token@,
            optional_text(*client_ip),
            optional_text(*user_agent),
        ),
{
    if let (Some(stored_ip), Some(current_ip)) = (&token.client_ip, client_ip) {
        if !str_equal(stored_ip.as_str(), current_ip.as_str()) {
            let mut message = String::from_str("Token used from different IP: ");
            message.append(stored_ip.as_str());
            message.append(" -> ");
            message.append(current_ip.as_str());
            return Err(AuthError::SecurityViolation(message));
        }
    }
    if let (Some(stored_ua), Some(current_ua)) = (&token.user_agent, user_agent) {
        if !str_equal(stored_ua.as_str(), current_ua.as_str()) {
            return Err(AuthError::SecurityViolation(String::from_str("Token used with different User-Agent")));
        }
    }
    Ok(())
}

/// The outcome of authenticating a request at time `now`, as far as the
/// token found in its query string goes: the tokens afterwards, and the
/// token if it is valid and used by its own client.
pub open spec fn url_stage(
    tokens: Map<u128, TokenRecord>,
    query: Seq<char>,
    client_ip: Option<Seq<char>>,
    user_agent: Option<Seq<char>>,
    now: u128,
) -> (Map<u128, TokenRecord>, Option<TokenRecord>) {
    match query_token(query, secure_token_param()) {
        None => (tokens, None),
        Some(text) => {
            let id = uuid_parse(text)->Some_0;
            let after = after_validation(tokens, id, now);
            match validation(tokens, id, now) {
                Ok(t) => if usage_allowed(t, client_ip, user_agent) {
                    (after, Some(t))
                } else {
                    (after, None)
                },
                Err(_) => (after, None),
            }
        },
    }
}

/// Whether authenticating a request at time `now` turns the tokens `before`
/// into `after` with `result`: the token of the query string is taken if it
/// is valid and used by its own client; otherwise the bearer token decides,
/// refused as malformed, by its validation, or for misuse.
pub open spec fn authenticated(
    before: Map<u128, TokenRecord>,
    after: Map<u128, TokenRecord>,
    query: Seq<char>,
    bearer: Seq<char>,
    ip: Option<Seq<char>>,
    ua: Option<Seq<char>>,
    now: u128,
    result: Result<SecureToken, AuthError>,
) -> bool {
    let stage = url_stage(before, query, ip, ua, now);
    match stage.1 {
        Some(t) => {
            &&& after == stage.0
            &&& result matches Ok(token) && token@ == t
        },
        None => match uuid_parse(bearer) {
            None => {
                &&& after == stage.0
                &&& result matches Err(e) && e is InvalidTokenFormat
            },
            Some(id) => {
                &&& after == after_validation(stage.0, id, now)
                &&& match validation(stage.0, id, now) {
                    Err(e) => result == Err::<SecureToken, AuthError>(e),
                    Ok(t) => if usage_allowed(t, ip, ua) {
                        result matches Ok(token) && token@ == t
                    } else {
                        result matches Err(e) && e matches AuthError::SecurityViolation(m)
                            && m@ == violation_text(t, ip, ua)
                    },
                }
            },
        },
    }
}

/// Authenticates a request at time `now`: the token of its query string is
/// tried first, then the bearer token of its Authorization header. A token is
/// accepted only if it is valid and used by the client it was issued to.
pub fn authenticate_request_at(
    manager: &mut SecureTokenManager,
    query: &str,
    bearer: &str,
    client_ip: &Option<String>,
    user_agent: &Option<String>,
    now: u128,
) -> (result: Result<SecureToken, AuthError>)
    requires
        old(manager).wf(),
    ensures
        final(manager).wf(),
        final(manager).config() == old(manager).config(),
        final(manager).rate_log() == old(manager).rate_log(),
        authenticated(
            old(manager).tokens(),
            final(manager).tokens(),
            query@,
            bearer@,
            optional_text(*client_ip),
            optional_text(*user_agent),
            now,
            result,
        ),
{
    if let Some(token_str) = extract_token_from_url(query) {
        match manager.validate_token_at(token_str.as_str(), now) {
            Ok(token_data) => {
                if validate_token_usage(&token_data, client_ip, user_agent).is_ok() {
                    return Ok(token_data);
                }
            },
            Err(_) => {},
        }
    }
    match manager.validate_token_at(bearer, now) {
        Ok(token_data) => {
            match validate_token_usage(&token_data, client_ip, user_agent) {
                Err(e) => Err(e),
                Ok(()) => Ok(token_data),
            }
        },
        Err(e) => Err(e),
    }
}

/// Authenticates a request by the system clock.
pub fn secure_url_token_auth(
    manager: &mut SecureTokenManager,
    query: &str,
    bearer: &str,
    client_ip: &Option<String>,
    user_agent: &Option<String>,
) -> (result: Result<SecureToken, AuthError>)
    requires
        old(manager).wf(),
    ensures
        final(manager).wf(),
        final(manager).config() == old(manager).config(),
        final(manager).rate_log() == old(manager).rate_log(),
        exists|now: u128|
            now <= MAX_CLOCK_MILLIS && #[trigger] authenticated(
                old(manager).tokens(),
                final(manager).tokens(),
                query@,
                bearer@,
                optional_text(*client_ip),
                optional_text(*user_agent),
                now,
                result,
            ),
{
    authenticate_request_at(manager, query, bearer, client_ip, user_agent, system_now_millis())
}

/// The token of an Authorization header of the form `Bearer <token>`.
pub fn bearer_token(header: &str) -> (token: Option<String>)
    ensures
        match token {
            Some(t) => header@.len() >= 7 && header@.subrange(0, 7) == "Bearer "@ && t@
                == header@.subrange(7, header@.len() as int),
            None => !(header@.len() >= 7 && header@.subrange(0, 7) == "Bearer "@),
        },
{
    proof {
        reveal_strlit("Bearer ");
    }
    if starts_with(header, "Bearer ") {
        let n = header.unicode_len();
        Some(header.substring_char(7, n).to_string())
    } else {
        None
    }
}

/// Whether `s` starts with `prefix`.
pub open spec fn has_prefix(s: Seq<char>, prefix: Seq<char>) -> bool {
    prefix.len() <= s.len() && s.subrange(0, prefix.len() as int) == prefix
}

/// Whether a CORS origin may call the authentication endpoints: localhost
/// over HTTP or HTTPS, or any HTTPS origin.
pub open spec fn origin_allowed(origin: Seq<char>) -> bool {
    ||| has_prefix(origin, "http://localhost"@)
    ||| has_prefix(origin, "https://localhost"@)
    ||| has_prefix(origin, "https://"@)
}

/// Whether a CORS origin may call the authentication endpoints.
pub fn is_allowed_origin(origin: &str) -> (allowed: bool)
    ensures
        allowed == origin_allowed(origin@),
{
    starts_with(origin, "http://localhost") || starts_with(origin, "https://localhost")
        || starts_with(origin, "https://")
}

/// The headers sent with every answer of the authentication endpoints.
pub open spec fn security_header_list() -> Seq<(Seq<char>, Seq<char>)> {
    seq![
        ("strict-transport-security"@, "max-age=31536000; includeSubDomains"@),
        ("x-content-type-options"@, "nosniff"@),
        ("x-frame-options"@, "DENY"@),
        ("x-xss-protection"@, "1; mode=block"@),
        ("referrer-policy"@, "strict-origin-when-cross-origin"@),
    ]
}

/// The security headers, as name and value.
pub fn security_headers() -> (headers: Vec<(String, String)>)
    ensures
        headers@.len() == 5,
        forall|k: int|
            0 <= k < 5 ==> (#[trigger] headers@[k]).0@ == security_header_list()[k].0
                && headers@[k].1@ == security_header_list()[k].1,
{
    vec![
        (String::from_str("strict-transport-security"), String::from_str("max-age=31536000; includeSubDomains")),
        (String::from_str("x-content-type-options"), String::from_str("nosniff")),
        (String::from_str("x-frame-options"), String::from_str("DENY")),
        (String::from_str("x-xss-protection"), String::from_str("1; mode=block")),
        (String::from_str("referrer-policy"), String::from_str("strict-origin-when-cross-origin")),
    ]
}

} // verus!
