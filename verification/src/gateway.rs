//! The gateway's own use of the URL token service: issuing a token for a
//! number of hours and checking one.
use vstd::prelude::*;

use crate::security::optional_text;
use crate::url_token::{CreateUrlTokenRequest, TokenValidationResult};
use crate::url_token_service::{
    created_record, creation_outcome, validated_against, TokenError, UrlTokenService,
    MAX_DURATION_HOURS,
};
use crate::url_token_store::UrlTokenRepository;

verus! {

/// The description a token is given: the one asked for, or the empty text.
pub open spec fn description_or_empty(description: Option<String>) -> Seq<char> {
    match description {
        Some(d) => d@,
        None => Seq::empty(),
    }
}

/// Issues a URL token valid for `duration_hours`, described by
/// `description` (empty when none is given); returns its token string.
pub fn generate_token<R: UrlTokenRepository>(
    service: &mut UrlTokenService<R>,
    duration_hours: i64,
    description: Option<String>,
) -> (result: Result<String, TokenError>)
    requires
        old(service).repo().inv(),
        -MAX_DURATION_HOURS <= duration_hours <= MAX_DURATION_HOURS,
    ensures
        final(service).repo().inv(),
        final(service).repo().infallible() == old(service).repo().infallible(),
        old(service).repo().infallible() ==> result is Ok,
        exists|now: i64, id: Seq<char>, token: Seq<char>, response: Result<crate::url_token::CreateUrlTokenResponse, TokenError>|
            {
                &&& #[trigger] creation_outcome(
                    old(service).repo().stored(),
                    final(service).repo().stored(),
                    response,
                    created_record(
                        duration_hours,
                        Some(description_or_empty(description)),
                        now,
                        id,
                        token,
                    ),
                )
                &&& match response {
                    Ok(r) => result matches Ok(t) && t@ == r.token@,
                    Err(e) => result is Err && result->Err_0 == e,
                }
            },
{
    let text = match description {
        Some(d) => d,
        None => String::new(),
    };
    let request = CreateUrlTokenRequest::default().duration_hours(duration_hours).description(
        text.as_str(),
    );
    assert(optional_text(request.description) == Some(description_or_empty(description)));
    let response = service.create_token(request);
    match response {
        Ok(r) => Ok(r.token),
        Err(e) => Err(e),
    }
}

/// Whether a URL token string is valid now.
pub fn validate_token<R: UrlTokenRepository>(service: &UrlTokenService<R>, token: &str) -> (valid: bool)
    requires
        service.repo().inv(),
    ensures
        exists|now: i64, result: TokenValidationResult|
            #[trigger] validated_against(
                result,
                service.repo().stored(),
                service.repo().infallible(),
                token@,
                now,
            ) && valid == (result is Valid),
{
    let result = service.validate_token(token);
    match result {
        TokenValidationResult::Valid(_) => true,
        _ => false,
    }
}

} // verus!
