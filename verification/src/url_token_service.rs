//! The URL token service: creation, validation, revocation and clean-up of
//! URL tokens over a repository.
//!
//! Times are milliseconds since the Unix epoch, as `i64`.
use vstd::prelude::*;

use crate::clock::utc_now_millis;
use crate::ids::uuid_text;
use crate::keyed::{keyed_map, keys_distinct, lemma_keyed_filter, lemma_keyed_index, map_keep};
use crate::url_token::{
    clamped_sum, generate_token_string, is_token_string, url_token_expired, CreateUrlTokenRequest,
    CreateUrlTokenResponse, TokenValidationResult, UrlToken, UrlTokenId, UrlTokenRecord,
    MILLIS_PER_HOUR,
};
use crate::url_token_store::{url_record_id, url_views, InfraError, UrlTokenRepository};

verus! {

/// Error type for URL token operations.
#[derive(Debug, Clone)]
pub enum TokenError {
    /// Token not found
    TokenNotFound(UrlTokenId),
    /// The repository failed
    Repository(InfraError),
}

/// The largest number of hours a `chrono::Duration` can hold.
pub const MAX_DURATION_HOURS: i64 = 2562047788015;

/// What validating a token string finds, given the token the repository
/// returned for it.
pub open spec fn validation_of(found: Option<UrlTokenRecord>, now: i64) -> TokenValidationResult {
    match found {
        None => TokenValidationResult::NotFound,
        Some(t) => if t.revoked {
            TokenValidationResult::Revoked
        } else if url_token_expired(t, now) {
            TokenValidationResult::Expired
        } else {
            TokenValidationResult::Valid(arbitrary())
        },
    }
}

/// Whether a validation result is the one expected for a found token, a
/// valid one naming the token.
pub open spec fn validation_matches(
    result: TokenValidationResult,
    found: Option<UrlTokenRecord>,
    now: i64,
) -> bool {
    match result {
        TokenValidationResult::Valid(id) => validation_of(found, now) is Valid && found->Some_0.id
            == id@,
        TokenValidationResult::Expired => validation_of(found, now) is Expired,
        TokenValidationResult::Revoked => validation_of(found, now) is Revoked,
        TokenValidationResult::NotFound => validation_of(found, now) is NotFound,
        TokenValidationResult::InvalidFormat => false,
    }
}

/// Whether `found` is an answer of the repository to a search for token text
/// `token` among the `stored` tokens: the stored token with that text, none
/// where no stored token has it, or a failure.
pub open spec fn token_lookup(
    stored: Map<Seq<char>, UrlTokenRecord>,
    token: Seq<char>,
    found: Result<Option<UrlTokenRecord>, InfraError>,
) -> bool {
    match found {
        Ok(Some(t)) => t.token == token && stored.contains_key(t.id) && stored[t.id] == t,
        Ok(None) => forall|k: Seq<char>| #[trigger] stored.contains_key(k) ==> stored[k].token != token,
        Err(_) => true,
    }
}

/// Whether `result` is the reply to what the repository answered: the
/// verdict on the token found (`NotFound` where none is), `InvalidFormat`
/// where the repository failed.
pub open spec fn reply_matches(
    result: TokenValidationResult,
    found: Result<Option<UrlTokenRecord>, InfraError>,
    now: i64,
) -> bool {
    match found {
        Ok(f) => validation_matches(result, f, now),
        Err(_) => result is InvalidFormat,
    }
}

/// What a repository's answer holds, as plain values.
pub open spec fn found_view(found: Result<Option<UrlToken>, InfraError>) -> Result<
    Option<UrlTokenRecord>,
    InfraError,
> {
    match found {
        Ok(Some(t)) => Ok(Some(t@)),
        Ok(None) => Ok(None),
        Err(e) => Err(e),
    }
}

/// Whether `result` is what validating `token` at time `now` against the
/// stored tokens gives: the reply to some answer of the repository, which
/// does not fail when the repository is infallible.
pub open spec fn validated_against(
    result: TokenValidationResult,
    stored: Map<Seq<char>, UrlTokenRecord>,
    infallible: bool,
    token: Seq<char>,
    now: i64,
) -> bool {
    exists|found: Result<Option<UrlTokenRecord>, InfraError>|
        {
            &&& #[trigger] token_lookup(stored, token, found)
            &&& infallible ==> found is Ok
            &&& reply_matches(result, found, now)
        }
}

/// The reply of a validation at time `now` to what the repository answered:
/// `InvalidFormat` on a failure, `NotFound` where no token was found, else
/// `Revoked`, `Expired` or `Valid` with the token's ID, in that order.
pub fn validation_reply(found: Result<Option<UrlToken>, InfraError>, now: i64) -> (result:
    TokenValidationResult)
    ensures
        reply_matches(result, found_view(found), now),
{
    match found {
        Err(_) => TokenValidationResult::InvalidFormat,
        Ok(None) => TokenValidationResult::NotFound,
        Ok(Some(token)) => {
            if token.revoked {
                TokenValidationResult::Revoked
            } else if token.is_expired_at(now) {
                TokenValidationResult::Expired
            } else {
                TokenValidationResult::Valid(token.id.duplicate())
            }
        },
    }
}

/// Whether `found` is an answer of the repository to a search for ID `id`
/// among the `stored` tokens.
pub open spec fn id_lookup(
    stored: Map<Seq<char>, UrlTokenRecord>,
    id: Seq<char>,
    found: Result<Option<UrlTokenRecord>, InfraError>,
) -> bool {
    match found {
        Ok(Some(t)) => t.id == id && stored.contains_key(id) && stored[id] == t,
        Ok(None) => !stored.contains_key(id),
        Err(_) => true,
    }
}

/// Whether `result` is the outcome of a revocation, given what the search
/// for the token answered: a failure is passed on, a token not found is
/// reported, and a found token is saved back revoked (which cannot fail
/// where the repository is infallible).
pub open spec fn revocation_matches(
    result: Result<(), TokenError>,
    found: Result<Option<UrlTokenRecord>, InfraError>,
    infallible: bool,
) -> bool {
    match found {
        Err(e) => result == Err::<(), TokenError>(TokenError::Repository(e)),
        Ok(None) => result is Err && result->Err_0 is TokenNotFound,
        Ok(Some(_)) => (infallible ==> result is Ok) && (result is Err ==> result->Err_0 is Repository),
    }
}

/// What to save back when revoking the token `token_id`, given what the
/// repository answered: the token found, revoked; or the error to reply with
/// (the repository's failure, or the token not being found).
pub fn revocation_of(found: Result<Option<UrlToken>, InfraError>, token_id: &UrlTokenId) -> (step:
    Result<UrlToken, TokenError>)
    ensures
        match found {
            Err(e) => step == Err::<UrlToken, TokenError>(TokenError::Repository(e)),
            Ok(None) => step matches Err(TokenError::TokenNotFound(id)) && id@ == token_id@,
            Ok(Some(t)) => step matches Ok(u) && u@ == (UrlTokenRecord { revoked: true, ..t@ }),
        },
{
    match found {
        Err(e) => Err(TokenError::Repository(e)),
        Ok(None) => Err(TokenError::TokenNotFound(token_id.duplicate())),
        Ok(Some(t)) => {
            let mut token = t;
            token.revoke();
            Ok(token)
        },
    }
}

/// Whether `listed` is an answer of the repository to a request for all its
/// tokens: each stored token once, or a failure.
pub open spec fn listing_of(
    stored: Map<Seq<char>, UrlTokenRecord>,
    listed: Result<Seq<UrlTokenRecord>, InfraError>,
) -> bool {
    match listed {
        Ok(l) => keys_distinct(l, url_record_id()) && keyed_map(l, url_record_id()) == stored,
        Err(_) => true,
    }
}

/// The IDs of the expired tokens of a list, in its order.
pub open spec fn expired_id_texts(list: Seq<UrlTokenRecord>, now: i64) -> Seq<Seq<char>> {
    list.filter(expired_fn(now)).map_values(|r: UrlTokenRecord| r.id)
}

/// The IDs of the tokens of `list` that have expired by time `now`, in the
/// order of the list.
pub fn expired_ids(list: &Vec<UrlToken>, now: i64) -> (ids: Vec<UrlTokenId>)
    ensures
        ids@.map_values(|i: UrlTokenId| i@) == expired_id_texts(url_views(list@), now),
{
    let ghost views = url_views(list@);
    let mut ids: Vec<UrlTokenId> = Vec::new();
    let n = list.len();
    let mut i: usize = 0;
    while i < n
        invariant
            n == list@.len(),
            views == url_views(list@),
            i <= n,
            ids@.map_values(|d: UrlTokenId| d@) == expired_id_texts(views.take(i as int), now),
        decreases n - i,
    {
        proof {
            assert(views.take(i + 1) =~= views.take(i as int).push(views[i as int]));
            assert(views[i as int] == list@[i as int]@);
            views.take(i as int).lemma_filter_push(views[i as int], expired_fn(now));
        }
        if list[i].is_expired_at(now) {
            let ghost before = ids@;
            ids.push(list[i].id.duplicate());
            proof {
                assert(ids@.map_values(|d: UrlTokenId| d@) =~= before.map_values(|d: UrlTokenId| d@).push(
                    list@[i as int].id@,
                ));
            }
        }
        proof {
            assert(expired_id_texts(views.take(i + 1), now) =~= if (expired_fn(now))(views[i as int]) {
                expired_id_texts(views.take(i as int), now).push(views[i as int].id)
            } else {
                expired_id_texts(views.take(i as int), now)
            });
        }
        i = i + 1;
    }
    assert(views.take(n as int) =~= views);
    ids
}

/// The token created from a request for `hours` hours with `description`,
/// at time `now`, named `id` with text `token`.
pub open spec fn created_record(
    hours: i64,
    description: Option<Seq<char>>,
    now: i64,
    id: Seq<char>,
    token: Seq<char>,
) -> UrlTokenRecord {
    UrlTokenRecord {
        id,
        token,
        created_at: now,
        expires_at: clamped_sum(now, (hours * MILLIS_PER_HOUR) as i64),
        description,
        revoked: false,
    }
}

/// Whether saving `record` turned the tokens `before` into `after` with
/// `result`: on success the record is stored (replacing only a token with its
/// ID) and the response names it; on failure the repository's error is
/// replied and nothing changes.
pub open spec fn creation_outcome(
    before: Map<Seq<char>, UrlTokenRecord>,
    after: Map<Seq<char>, UrlTokenRecord>,
    result: Result<CreateUrlTokenResponse, TokenError>,
    record: UrlTokenRecord,
) -> bool {
    match result {
        Ok(response) => after == before.insert(record.id, record) && response.id@ == record.id
            && response.token@ == record.token && response.expires_at == record.expires_at,
        Err(e) => e is Repository && after == before,
    }
}

/// Service for managing URL tokens used for web gateway authentication.
pub struct UrlTokenService<R> {
    repository: R,
}

impl<R: UrlTokenRepository> UrlTokenService<R> {
    /// The repository the service works on.
    pub closed spec fn repo(&self) -> R {
        self.repository
    }

    /// Creates a service over `repository`.
    pub fn new(repository: R) -> (service: Self)
        ensures
            service.repo() == repository,
    {
        UrlTokenService { repository }
    }

    /// The repository.
    pub fn repository(&self) -> (repository: &R)
        ensures
            *repository == self.repo(),
    {
        &self.repository
    }

    /// Creates a token from `request` at time `now`, named `id` with text
    /// `token`, and saves it.
    pub fn create_token_with(
        &mut self,
        request: CreateUrlTokenRequest,
        now: i64,
        id: UrlTokenId,
        token: String,
    ) -> (result: Result<CreateUrlTokenResponse, TokenError>)
        requires
            old(self).repo().inv(),
            -MAX_DURATION_HOURS <= request.duration_hours <= MAX_DURATION_HOURS,
        ensures
            final(self).repo().infallible() == old(self).repo().infallible(),
            old(self).repo().infallible() ==> result is Ok,
            final(self).repo().inv(),
            creation_outcome(
                old(self).repo().stored(),
                final(self).repo().stored(),
                result,
                created_record(
                    request.duration_hours,
                    crate::security::optional_text(request.description),
                    now,
                    id@,
                    token@,
                ),
            ),
    {
        let duration = request.duration_hours * MILLIS_PER_HOUR;
        let url_token = UrlToken::new_at(duration, request.description, now, id, token);
        match self.repository.save(&url_token) {
            Err(e) => Err(TokenError::Repository(e)),
            Ok(()) => Ok(
                CreateUrlTokenResponse {
                    id: url_token.id.duplicate(),
                    token: url_token.token.clone(),
                    expires_at: url_token.expires_at,
                },
            ),
        }
    }

    /// Creates and saves a token from `request`: a generated ID, a random
    /// token string, dated by the clock.
    pub fn create_token(&mut self, request: CreateUrlTokenRequest) -> (result: Result<
        CreateUrlTokenResponse,
        TokenError,
    >)
        requires
            old(self).repo().inv(),
            -MAX_DURATION_HOURS <= request.duration_hours <= MAX_DURATION_HOURS,
        ensures
            final(self).repo().infallible() == old(self).repo().infallible(),
            old(self).repo().infallible() ==> result is Ok,
            final(self).repo().inv(),
            ({
                let stored = final(self).repo().stored();
                match result {
                    Ok(response) => {
                        &&& response.id@.len() == 36
                        &&& is_token_string(response.token@)
                        &&& stored.contains_key(response.id@)
                        &&& stored[response.id@].token == response.token@
                        &&& stored[response.id@].expires_at == response.expires_at
                        &&& !stored[response.id@].revoked
                    },
                    Err(e) => e is Repository && stored == old(self).repo().stored(),
                }
            }),
            exists|now: i64, id: Seq<char>, token: Seq<char>|
                {
                    &&& id.len() == 36
                    &&& (exists|u: u128| id == #[trigger] uuid_text(u))
                    &&& is_token_string(token)
                    &&& #[trigger] creation_outcome(
                        old(self).repo().stored(),
                        final(self).repo().stored(),
                        result,
                        created_record(
                            request.duration_hours,
                            crate::security::optional_text(request.description),
                            now,
                            id,
                            token,
                        ),
                    )
                },
    {
        let id = UrlTokenId::generate();
        let token = generate_token_string();
        let now = utc_now_millis();
        self.create_token_with(request, now, id, token)
    }

    /// Validates a token string at time `now`: whether it names a stored
    /// token, and whether that token is revoked or expired. A failing
    /// repository makes the result `InvalidFormat`.
    pub fn validate_token_at(&self, token_str: &str, now: i64) -> (result: TokenValidationResult)
        requires
            self.repo().inv(),
        ensures
            validated_against(result, self.repo().stored(), self.repo().infallible(), token_str@, now),
    {
        let found = self.repository.find_by_token(token_str);
        assert(token_lookup(self.repo().stored(), token_str@, found_view(found)));
        validation_reply(found, now)
    }

    /// Validates a token string by the clock.
    pub fn validate_token(&self, token_str: &str) -> (result: TokenValidationResult)
        requires
            self.repo().inv(),
        ensures
            result matches TokenValidationResult::Valid(id) ==> self.repo().stored().contains_key(id@)
                && self.repo().stored()[id@].token == token_str@ && !self.repo().stored()[id@].revoked,
            result is NotFound ==> forall|k: Seq<char>|
                #[trigger] self.repo().stored().contains_key(k) ==> self.repo().stored()[k].token
                    != token_str@,
            exists|now: i64|
                #[trigger] validated_against(
                    result,
                    self.repo().stored(),
                    self.repo().infallible(),
                    token_str@,
                    now,
                ),
    {
        self.validate_token_at(token_str, utc_now_millis())
    }

    /// Revokes the token with ID `token_id`: the token the repository finds
    /// is saved back revoked.
    pub fn revoke_token(&mut self, token_id: &UrlTokenId) -> (result: Result<(), TokenError>)
        requires
            old(self).repo().inv(),
        ensures
            final(self).repo().inv(),
            final(self).repo().infallible() == old(self).repo().infallible(),
            result is Ok ==> old(self).repo().stored().contains_key(token_id@) && final(self).repo().stored() == old(self).repo().stored().insert(
                token_id@,
                UrlTokenRecord { revoked: true, ..old(self).repo().stored()[token_id@] },
            ),
            result matches Err(TokenError::TokenNotFound(id)) ==> id@ == token_id@ && !old(self).repo().stored().contains_key(token_id@),
            result is Err ==> final(self).repo().stored() == old(self).repo().stored(),
            exists|found: Result<Option<UrlTokenRecord>, InfraError>|
                {
                    &&& #[trigger] id_lookup(old(self).repo().stored(), token_id@, found)
                    &&& old(self).repo().infallible() ==> found is Ok
                    &&& revocation_matches(
                        result,
                        found,
                        old(self).repo().infallible(),
                    )
                },
    {
        let found = self.repository.find_by_id(token_id);
        let ghost seen = found_view(found);
        assert(id_lookup(old(self).repo().stored(), token_id@, seen));
        let token = match revocation_of(found, token_id) {
            Err(e) => return Err(e),
            Ok(t) => t,
        };
        match self.repository.update(&token) {
            Err(e) => Err(TokenError::Repository(e)),
            Ok(()) => Ok(()),
        }
    }

    /// Lists all tokens.
    pub fn list_tokens(&self) -> (result: Result<Vec<UrlToken>, TokenError>)
        requires
            self.repo().inv(),
        ensures
            self.repo().infallible() ==> result is Ok,
            result matches Ok(list) ==> crate::url_token_store::lists_exactly(
                list@,
                self.repo().stored(),
            ),
            result is Err ==> result->Err_0 is Repository,
    {
        match self.repository.list_all() {
            Ok(list) => Ok(list),
            Err(e) => Err(TokenError::Repository(e)),
        }
    }

    /// Deletes the token with ID `token_id`.
    pub fn delete_token(&mut self, token_id: &UrlTokenId) -> (result: Result<(), TokenError>)
        requires
            old(self).repo().inv(),
        ensures
            final(self).repo().infallible() == old(self).repo().infallible(),
            old(self).repo().infallible() ==> result is Ok,
            final(self).repo().inv(),
            result is Ok ==> final(self).repo().stored() == old(self).repo().stored().remove(token_id@),
            result is Err ==> result->Err_0 is Repository && final(self).repo().stored() == old(self).repo().stored(),
    {
        match self.repository.delete(token_id) {
            Ok(()) => Ok(()),
            Err(e) => Err(TokenError::Repository(e)),
        }
    }

    /// Removes the tokens that have expired by time `now`: the repository's
    /// list is read, the IDs of its expired tokens are taken in order
    /// (`expired_ids`) and each is deleted; returns how many there were. On
    /// success exactly the expired tokens are gone.
    pub fn cleanup_expired_tokens_at(&mut self, now: i64) -> (result: Result<usize, TokenError>)
        requires
            old(self).repo().inv(),
        ensures
            final(self).repo().inv(),
            final(self).repo().infallible() == old(self).repo().infallible(),
            old(self).repo().infallible() ==> result is Ok,
            result is Ok ==> final(self).repo().stored() == map_keep(
                old(self).repo().stored(),
                unexpired_fn(now),
            ),
            result is Ok ==> map_keep(old(self).repo().stored(), expired_fn(now)).dom().finite()
                && result->Ok_0 == map_keep(old(self).repo().stored(), expired_fn(now)).len(),
            result is Err ==> result->Err_0 is Repository,
            exists|listed: Result<Seq<UrlTokenRecord>, InfraError>|
                {
                    &&& #[trigger] listing_of(old(self).repo().stored(), listed)
                    &&& match listed {
                        Err(e) => result == Err::<usize, TokenError>(TokenError::Repository(e))
                            && final(self).repo().stored() == old(self).repo().stored(),
                        Ok(l) => result is Ok ==> result->Ok_0 == expired_id_texts(l, now).len(),
                    }
                },
    {
        let ghost old_stored = self.repository.stored();
        let listed = self.repository.list_all();
        let list = match listed {
            Ok(list) => list,
            Err(e) => {
                assert(listing_of(old_stored, Err::<Seq<UrlTokenRecord>, InfraError>(e)));
                return Err(TokenError::Repository(e));
            },
        };
        let ghost views = url_views(list@);
        assert(listing_of(old_stored, Ok::<Seq<UrlTokenRecord>, InfraError>(views)));
        let ghost expired = expired_fn(now);
        let ids = expired_ids(&list, now);
        let ghost texts = ids@.map_values(|i: UrlTokenId| i@);
        let n = ids.len();
        let mut j: usize = 0;
        while j < n
            invariant
                n == ids@.len(),
                texts == ids@.map_values(|i: UrlTokenId| i@),
                self.repository.inv(),
                self.repository.infallible() == old(self).repository.infallible(),
                old_stored == old(self).repository.stored(),
                listing_of(old_stored, Ok::<Seq<UrlTokenRecord>, InfraError>(views)),
                j <= n,
                forall|k: Seq<char>|
                    #[trigger] self.repository.stored().contains_key(k) <==> (old_stored.contains_key(k)
                        && !(exists|m: int| 0 <= m < j && texts[m] == k)),
                forall|k: Seq<char>|
                    #[trigger] self.repository.stored().contains_key(k) ==> self.repository.stored()[k]
                        == old_stored[k],
            decreases n - j,
        {
            match self.repository.delete(&ids[j]) {
                Err(e) => return Err(TokenError::Repository(e)),
                Ok(()) => {},
            }
            proof {
                assert(texts[j as int] == ids@[j as int]@);
                assert forall|k: Seq<char>|
                    #[trigger] self.repository.stored().contains_key(k) <==> (old_stored.contains_key(k)
                        && !(exists|m: int| 0 <= m < j + 1 && texts[m] == k)) by {
                    if exists|m: int| 0 <= m < j + 1 && texts[m] == k {
                        let m = choose|m: int| 0 <= m < j + 1 && texts[m] == k;
                        if m == j {
                            assert(k == texts[j as int]);
                        }
                    }
                }
            }
            j = j + 1;
        }
        proof {
            let filtered = views.filter(expired);
            lemma_keyed_filter(views, url_record_id(), expired);
            crate::keyed::lemma_keyed_len(filtered, url_record_id());
            assert(texts.len() == filtered.len());
            assert forall|m: int| 0 <= m < n implies #[trigger] texts[m] == filtered[m].id by {
                assert(ids@.map_values(|i: UrlTokenId| i@)[m] == ids@[m]@);
            }
            assert forall|k: Seq<char>|
                #[trigger] self.repository.stored().contains_key(k) <==> map_keep(
                    old_stored,
                    unexpired_fn(now),
                ).contains_key(k) by {
                if exists|m: int| 0 <= m < n && texts[m] == k {
                    let m = choose|m: int| 0 <= m < n && texts[m] == k;
                    assert((url_record_id())(filtered[m]) == k);
                    assert(keyed_map(filtered, url_record_id()).contains_key(k));
                } else if old_stored.contains_key(k) && !(unexpired_fn(now))(old_stored[k]) {
                    assert(map_keep(old_stored, expired).contains_key(k));
                    assert(keyed_map(filtered, url_record_id()).contains_key(k));
                    let m = choose|m: int|
                        0 <= m < filtered.len() && #[trigger] (url_record_id())(filtered[m]) == k;
                    assert(texts[m] == k);
                }
            }
            assert(self.repository.stored() =~= map_keep(old_stored, unexpired_fn(now)));
            assert(map_keep(old_stored, expired) =~= map_keep(old_stored, expired_fn(now)));
        }
        Ok(n)
    }

    /// Removes the tokens that have expired by the clock; returns how many
    /// were removed.
    pub fn cleanup_expired_tokens(&mut self) -> (result: Result<usize, TokenError>)
        requires
            old(self).repo().inv(),
        ensures
            final(self).repo().infallible() == old(self).repo().infallible(),
            old(self).repo().infallible() ==> result is Ok,
            final(self).repo().inv(),
            result is Ok ==> exists|now: i64|
                {
                    &&& final(self).repo().stored() == map_keep(
                        old(self).repo().stored(),
                        #[trigger] unexpired_fn(now),
                    )
                    &&& map_keep(old(self).repo().stored(), expired_fn(now)).dom().finite()
                    &&& result->Ok_0 == map_keep(old(self).repo().stored(), expired_fn(now)).len()
                },
            result is Err ==> result->Err_0 is Repository,
    {
        self.cleanup_expired_tokens_at(utc_now_millis())
    }
}

/// Whether a token has expired by time `now`.
pub open spec fn expired_fn(now: i64) -> spec_fn(UrlTokenRecord) -> bool {
    |r: UrlTokenRecord| url_token_expired(r, now)
}

/// Whether a token has not expired by time `now`.
pub open spec fn unexpired_fn(now: i64) -> spec_fn(UrlTokenRecord) -> bool {
    |r: UrlTokenRecord| !url_token_expired(r, now)
}

/// The only stored token with text `token` is the one stored under `id`.
pub open spec fn names_only(stored: Map<Seq<char>, UrlTokenRecord>, id: Seq<char>, token: Seq<char>) -> bool {
    &&& stored.contains_key(id)
    &&& stored[id].id == id
    &&& stored[id].token == token
    &&& forall|k: Seq<char>| #[trigger] stored.contains_key(k) && stored[k].token == token ==> k == id
}

/// Validating the text of a stored token that is neither revoked nor expired
/// answers `Valid` with its ID, when the repository does not fail.
pub proof fn law_created_token_valid(
    result: TokenValidationResult,
    stored: Map<Seq<char>, UrlTokenRecord>,
    id: Seq<char>,
    token: Seq<char>,
    now: i64,
)
    requires
        names_only(stored, id, token),
        !stored[id].revoked,
        now <= stored[id].expires_at,
        validated_against(result, stored, true, token, now),
    ensures
        result matches TokenValidationResult::Valid(v) && v@ == id,
{
    let found = choose|found: Result<Option<UrlTokenRecord>, InfraError>|
        {
            &&& #[trigger] token_lookup(stored, token, found)
            &&& true ==> found is Ok
            &&& reply_matches(result, found, now)
        };
    match found {
        Ok(Some(t)) => {
            assert(stored.contains_key(t.id) && stored[t.id].token == token);
        },
        _ => {
            assert(stored.contains_key(id));
        },
    }
}

/// Validating the text of a revoked token answers `Revoked`, expired or not,
/// when the repository does not fail.
pub proof fn law_revoked_url_token_refused(
    result: TokenValidationResult,
    stored: Map<Seq<char>, UrlTokenRecord>,
    id: Seq<char>,
    token: Seq<char>,
    now: i64,
)
    requires
        names_only(stored, id, token),
        stored[id].revoked,
        validated_against(result, stored, true, token, now),
    ensures
        result is Revoked,
{
    let found = choose|found: Result<Option<UrlTokenRecord>, InfraError>|
        {
            &&& #[trigger] token_lookup(stored, token, found)
            &&& true ==> found is Ok
            &&& reply_matches(result, found, now)
        };
    match found {
        Ok(Some(t)) => {
            assert(stored.contains_key(t.id) && stored[t.id].token == token);
        },
        _ => {
            assert(stored.contains_key(id));
        },
    }
}

/// Validating a text that no stored token has (an unknown or deleted one)
/// answers `NotFound`, when the repository does not fail.
pub proof fn law_unknown_url_token_not_found(
    result: TokenValidationResult,
    stored: Map<Seq<char>, UrlTokenRecord>,
    token: Seq<char>,
    now: i64,
)
    requires
        forall|k: Seq<char>| #[trigger] stored.contains_key(k) ==> stored[k].token != token,
        validated_against(result, stored, true, token, now),
    ensures
        result is NotFound,
{
    let found = choose|found: Result<Option<UrlTokenRecord>, InfraError>|
        {
            &&& #[trigger] token_lookup(stored, token, found)
            &&& true ==> found is Ok
            &&& reply_matches(result, found, now)
        };
    match found {
        Ok(Some(t)) => {
            assert(stored.contains_key(t.id));
        },
        _ => {},
    }
}

/// A clean-up splits the tokens in two: those it keeps, none of them
/// expired, and those it removes, all expired; the count it reports and the
/// tokens left add up to the tokens there were.
pub proof fn law_cleanup_partitions(stored: Map<Seq<char>, UrlTokenRecord>, now: i64)
    requires
        stored.dom().finite(),
    ensures
        forall|k: Seq<char>|
            #[trigger] map_keep(stored, unexpired_fn(now)).contains_key(k) ==> !url_token_expired(
                stored[k],
                now,
            ),
        forall|k: Seq<char>|
            stored.contains_key(k) && !url_token_expired(stored[k], now) ==> #[trigger] map_keep(
                stored,
                unexpired_fn(now),
            ).contains_key(k),
        map_keep(stored, unexpired_fn(now)).len() + map_keep(stored, expired_fn(now)).len()
            == stored.len(),
{
    let kept = map_keep(stored, unexpired_fn(now)).dom();
    let gone = map_keep(stored, expired_fn(now)).dom();
    assert(kept.subset_of(stored.dom()));
    assert(gone.subset_of(stored.dom()));
    vstd::set_lib::lemma_len_subset(kept, stored.dom());
    vstd::set_lib::lemma_len_subset(gone, stored.dom());
    assert(kept + gone =~= stored.dom());
    assert(kept.disjoint(gone));
    vstd::set_lib::lemma_set_disjoint_lens(kept, gone);
}

} // verus!
