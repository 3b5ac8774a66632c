//! The basic token manager: one-hour tokens carrying a user and a list of
//! permissions.
//!
//! Times are milliseconds since the Unix epoch (see `clock`).
use vstd::prelude::*;
use vstd::string::StringExecFns;

use crate::clock::{system_now_millis, MAX_CLOCK_MILLIS, TIME_BOUND};
use crate::ids::{new_random_uuid, parse_uuid, uuid_parse};
use crate::keyed::{
    has_key, keyed_map, keys_distinct, lemma_keyed_filter, lemma_keyed_index, lemma_keyed_push,
    lemma_keyed_update, map_keep,
};
use crate::security::{copy_optional, copy_strings, optional_text, texts};
use crate::text::str_text;

verus! {

/// Lifetime of a token, in milliseconds (one hour).
pub const TOKEN_LIFETIME_MILLIS: u128 = 3600000;

/// An issued token.
#[derive(Debug)]
pub struct Token {
    pub id: u128,
    pub created_at: u128,
    pub expires_at: u128,
    pub user_id: Option<String>,
    pub permissions: Vec<String>,
}

/// What a `Token` holds, as plain values.
pub struct TokenEntry {
    pub id: u128,
    pub created_at: u128,
    pub expires_at: u128,
    pub user_id: Option<Seq<char>>,
    pub permissions: Seq<Seq<char>>,
}

impl View for Token {
    type V = TokenEntry;

    open spec fn view(&self) -> TokenEntry {
        TokenEntry {
            id: self.id,
            created_at: self.created_at,
            expires_at: self.expires_at,
            user_id: optional_text(self.user_id),
            permissions: texts(self.permissions@),
        }
    }
}

impl Clone for Token {
    fn clone(&self) -> (copy: Self)
        ensures
            copy@ == self@,
    {
        Token {
            id: self.id,
            created_at: self.created_at,
            expires_at: self.expires_at,
            user_id: copy_optional(&self.user_id),
            permissions: copy_strings(&self.permissions),
        }
    }
}

/// Errors of the basic token manager.
#[derive(Debug, Clone)]
pub enum AuthError {
    TokenNotFound,
    TokenExpired,
    InvalidTokenFormat,
    InsufficientPermissions(String),
    ServiceUnavailable,
}

/// The text of an error of the basic token manager.
pub open spec fn basic_error_text(e: AuthError) -> Seq<char> {
    match e {
        AuthError::TokenNotFound => "Token not found"@,
        AuthError::TokenExpired => "Token expired"@,
        AuthError::InvalidTokenFormat => "Invalid token format"@,
        AuthError::InsufficientPermissions(m) => "Insufficient permissions: "@ + m@,
        AuthError::ServiceUnavailable => "ForgeCode service unavailable"@,
    }
}

impl AuthError {
    /// The error's message, as it is shown to clients.
    pub fn message(&self) -> (text: String)
        ensures
            text@ == basic_error_text(*self),
    {
        match self {
            AuthError::TokenNotFound => String::from_str("Token not found"),
            AuthError::TokenExpired => String::from_str("Token expired"),
            AuthError::InvalidTokenFormat => String::from_str("Invalid token format"),
            AuthError::InsufficientPermissions(m) => {
                let mut text = String::from_str("Insufficient permissions: ");
                text.append(m.as_str());
                text
            },
            AuthError::ServiceUnavailable => String::from_str("ForgeCode service unavailable"),
        }
    }
}

/// The key of a token entry.
pub open spec fn entry_id() -> spec_fn(TokenEntry) -> u128 {
    |e: TokenEntry| e.id
}

/// The entries of a list of tokens.
pub open spec fn entries(s: Seq<Token>) -> Seq<TokenEntry> {
    s.map_values(|t: Token| t@)
}

/// Whether some permission is the empty text.
pub open spec fn has_empty_permission(permissions: Seq<Seq<char>>) -> bool {
    exists|i: int| 0 <= i < permissions.len() && (#[trigger] permissions[i]).len() == 0
}

/// The outcome of validating token `id` at time `now`, with an optional
/// permission that the token must carry.
pub open spec fn basic_validation(
    tokens: Map<u128, TokenEntry>,
    id: u128,
    required: Option<Seq<char>>,
    now: u128,
) -> Result<TokenEntry, AuthError> {
    if !tokens.contains_key(id) {
        Err(AuthError::TokenNotFound)
    } else if now > tokens[id].expires_at {
        Err(AuthError::TokenExpired)
    } else if required is Some && !tokens[id].permissions.contains(required->Some_0) {
        Err(AuthError::InsufficientPermissions(arbitrary()))
    } else {
        Ok(tokens[id])
    }
}

/// An executable result agrees with the expected one; a refusal for want of
/// a permission names that permission.
pub open spec fn basic_agrees(
    result: Result<Token, AuthError>,
    expected: Result<TokenEntry, AuthError>,
    required: Option<Seq<char>>,
) -> bool {
    match result {
        Ok(t) => expected == Ok::<TokenEntry, AuthError>(t@),
        Err(AuthError::InsufficientPermissions(p)) => expected is Err && expected->Err_0 is InsufficientPermissions
            && required == Some(p@),
        Err(e) => expected == Err::<TokenEntry, AuthError>(e),
    }
}

/// The token issued at time `now` under the name `id`.
pub open spec fn issued_entry(
    id: u128,
    now: u128,
    user_id: Option<Seq<char>>,
    permissions: Seq<Seq<char>>,
) -> TokenEntry {
    TokenEntry {
        id,
        created_at: now,
        expires_at: (now + TOKEN_LIFETIME_MILLIS) as u128,
        user_id,
        permissions,
    }
}

/// Whether a token text names a token that is valid at time `now`.
pub open spec fn text_accepted(tokens: Map<u128, TokenEntry>, text: Seq<char>, now: u128) -> bool {
    match uuid_parse(text) {
        Some(id) => basic_validation(tokens, id, None, now) is Ok,
        None => false,
    }
}

/// Whether renewing token `token_id` at time `now` turned the tokens
/// `before` into `after` with `result`: an unknown token is not found, an
/// expired one is refused, and a live one is given a new hour from `now`.
pub open spec fn renewal_outcome(
    before: Map<u128, TokenEntry>,
    after: Map<u128, TokenEntry>,
    token_id: u128,
    now: u128,
    result: Result<u128, AuthError>,
) -> bool {
    if !before.contains_key(token_id) {
        result is Err && result->Err_0 is TokenNotFound && after == before
    } else if now > before[token_id].expires_at {
        result is Err && result->Err_0 is TokenExpired && after == before
    } else {
        result == Ok::<u128, AuthError>(token_id) && after == before.insert(
            token_id,
            TokenEntry { expires_at: (now + TOKEN_LIFETIME_MILLIS) as u128, ..before[token_id] },
        )
    }
}

/// Whether a token outlives time `now`.
pub open spec fn unexpired_at(now: u128) -> spec_fn(TokenEntry) -> bool {
    |e: TokenEntry| now < e.expires_at
}

/// Basic token manager.
#[derive(Clone)]
pub struct TokenManager {
    tokens: Vec<Token>,
    forgecode_url: String,
}

impl TokenManager {
    /// The tokens held, by name.
    pub closed spec fn tokens(&self) -> Map<u128, TokenEntry> {
        keyed_map(entries(self.tokens@), entry_id())
    }

    /// The address of the code service.
    pub closed spec fn forgecode_url(&self) -> Seq<char> {
        self.forgecode_url@
    }

    /// Internal consistency: one token per name, times in range.
    pub closed spec fn wf(&self) -> bool {
        &&& keys_distinct(entries(self.tokens@), entry_id())
        &&& forall|i: int|
            0 <= i < self.tokens@.len() ==> (#[trigger] self.tokens@[i]).expires_at < TIME_BOUND
    }

    pub fn new(forgecode_url: String) -> (manager: Self)
        ensures
            manager.wf(),
            manager.tokens() == Map::<u128, TokenEntry>::empty(),
            manager.forgecode_url() == forgecode_url@,
    {
        let manager = TokenManager { tokens: Vec::new(), forgecode_url };
        assert(manager.tokens() =~= Map::<u128, TokenEntry>::empty());
        manager
    }

    /// Where the token named `id` is stored.
    fn find(&self, id: u128) -> (index: Option<usize>)
        requires
            self.wf(),
        ensures
            match index {
                Some(i) => i < self.tokens@.len() && self.tokens@[i as int].id == id
                    && self.tokens().contains_key(id) && self.tokens()[id] == self.tokens@[i as int]@,
                None => !self.tokens().contains_key(id),
            },
    {
        let n = self.tokens.len();
        let mut i: usize = 0;
        while i < n
            invariant
                self.wf(),
                n == self.tokens@.len(),
                i <= n,
                forall|j: int| 0 <= j < i ==> (#[trigger] self.tokens@[j]).id != id,
            decreases n - i,
        {
            if self.tokens[i].id == id {
                proof {
                    assert(entries(self.tokens@)[i as int] == self.tokens@[i as int]@);
                    lemma_keyed_index(entries(self.tokens@), entry_id(), i as int);
                }
                return Some(i);
            }
            i = i + 1;
        }
        proof {
            if self.tokens().contains_key(id) {
                let j = choose|j: int|
                    0 <= j < entries(self.tokens@).len() && #[trigger] (entry_id())(
                        entries(self.tokens@)[j],
                    ) == id;
                assert(entries(self.tokens@)[j] == self.tokens@[j]@);
            }
        }
        None
    }

    /// Stores `token` under its name, replacing any token of that name.
    fn store(&mut self, token: Token)
        requires
            old(self).wf(),
            token.expires_at < TIME_BOUND,
        ensures
            final(self).wf(),
            final(self).tokens() == old(self).tokens().insert(token.id, token@),
            final(self).forgecode_url() == old(self).forgecode_url(),
    {
        let ghost old_entries = entries(self.tokens@);
        let ghost entry = token@;
        match self.find(token.id) {
            Some(i) => {
                proof {
                    lemma_keyed_update(old_entries, entry_id(), i as int, entry);
                }
                self.tokens.set(i, token);
                proof {
                    assert(entries(self.tokens@) =~= old_entries.update(i as int, entry));
                }
            },
            None => {
                proof {
                    assert(!has_key(old_entries, entry_id(), entry.id));
                    lemma_keyed_push(old_entries, entry_id(), entry);
                }
                self.tokens.push(token);
                proof {
                    assert(entries(self.tokens@) =~= old_entries.push(entry));
                }
            },
        }
    }

    /// Checks the permissions a token is to carry: none may be empty.
    fn validate_permissions(&self, permissions: &Vec<String>) -> (result: Result<(), AuthError>)
        ensures
            result is Ok <==> !has_empty_permission(texts(permissions@)),
            result is Err ==> result->Err_0 is InvalidTokenFormat,
    {
        let n = permissions.len();
        let mut i: usize = 0;
        while i < n
            invariant
                n == permissions@.len(),
                i <= n,
                forall|j: int| 0 <= j < i ==> (#[trigger] texts(permissions@)[j]).len() != 0,
            decreases n - i,
        {
            if permissions[i].as_str().is_empty() {
                assert(texts(permissions@)[i as int].len() == 0);
                return Err(AuthError::InvalidTokenFormat);
            }
            i = i + 1;
        }
        Ok(())
    }

    /// Issues a one-hour token named `id` at time `now`; permissions may not
    /// be empty texts (the service then reports itself unavailable).
    pub fn generate_token_with(
        &mut self,
        user_id: Option<String>,
        permissions: Vec<String>,
        now: u128,
        id: u128,
    ) -> (result: Result<u128, AuthError>)
        requires
            old(self).wf(),
            now <= MAX_CLOCK_MILLIS,
        ensures
            final(self).wf(),
            final(self).forgecode_url() == old(self).forgecode_url(),
            has_empty_permission(texts(permissions@)) ==> result is Err && result->Err_0 is ServiceUnavailable
                && final(self).tokens() == old(self).tokens(),
            !has_empty_permission(texts(permissions@)) ==> result == Ok::<u128, AuthError>(id)
                && final(self).tokens() == old(self).tokens().insert(
                id,
                issued_entry(id, now, optional_text(user_id), texts(permissions@)),
            ),
    {
        if self.validate_permissions(&permissions).is_err() {
            return Err(AuthError::ServiceUnavailable);
        }
        let token = Token {
            id,
            created_at: now,
            expires_at: now + TOKEN_LIFETIME_MILLIS,
            user_id,
            permissions,
        };
        self.store(token);
        Ok(id)
    }

    /// Issues a one-hour token named by a random UUID, dated by the system
    /// clock.
    pub fn generate_token(&mut self, user_id: Option<String>, permissions: Vec<String>) -> (result: Result<u128, AuthError>)
        requires
            old(self).wf(),
        ensures
            final(self).wf(),
            final(self).forgecode_url() == old(self).forgecode_url(),
            has_empty_permission(texts(permissions@)) ==> result is Err && result->Err_0 is ServiceUnavailable
                && final(self).tokens() == old(self).tokens(),
            !has_empty_permission(texts(permissions@)) ==> result is Ok && exists|now: u128|
                now <= MAX_CLOCK_MILLIS && final(self).tokens() == old(self).tokens().insert(
                    result->Ok_0,
                    #[trigger] issued_entry(
                        result->Ok_0,
                        now,
                        optional_text(user_id),
                        texts(permissions@),
                    ),
                ),
    {
        let now = system_now_millis();
        let id = new_random_uuid();
        let ghost user = optional_text(user_id);
        let ghost perms = texts(permissions@);
        let ghost before = self.tokens();
        let result = self.generate_token_with(user_id, permissions, now, id);
        proof {
            if !has_empty_permission(perms) {
                assert(result->Ok_0 == id);
                assert(self.tokens() == before.insert(id, issued_entry(id, now, user, perms)));
            }
        }
        result
    }

    /// Validates token `token_id` at time `now`, requiring it to carry
    /// `required_permission` where one is given.
    pub fn validate_token_at(
        &self,
        token_id: u128,
        required_permission: Option<&str>,
        now: u128,
    ) -> (result: Result<Token, AuthError>)
        requires
            self.wf(),
        ensures
            basic_agrees(
                result,
                basic_validation(
                    self.tokens(),
                    token_id,
                    str_text(required_permission),
                    now,
                ),
                str_text(required_permission),
            ),
    {
        let i = match self.find(token_id) {
            None => return Err(AuthError::TokenNotFound),
            Some(i) => i,
        };
        let token = self.tokens[i].clone();
        if now > token.expires_at {
            return Err(AuthError::TokenExpired);
        }
        if let Some(permission) = required_permission {
            let wanted = permission.to_string();
            let n = token.permissions.len();
            let mut j: usize = 0;
            while j < n
                invariant
                    n == token.permissions@.len(),
                    j <= n,
                    wanted@ == permission@,
                    self.tokens().contains_key(token_id),
                    token@ == self.tokens()[token_id],
                    required_permission == Some(permission),
                    !(now > token.expires_at),
                    forall|k: int| 0 <= k < j ==> (#[trigger] token.permissions@[k])@ != wanted@,
                decreases n - j,
            {
                if token.permissions[j] == wanted {
                    assert(texts(token.permissions@)[j as int] == permission@);
                    return Ok(token);
                }
                j = j + 1;
            }
            proof {
                if texts(token.permissions@).contains(permission@) {
                    let k = choose|k: int|
                        0 <= k < texts(token.permissions@).len() && texts(token.permissions@)[k]
                            == permission@;
                    assert(token.permissions@[k]@ == permission@);
                }
            }
            return Err(AuthError::InsufficientPermissions(wanted));
        }
        Ok(token)
    }

    /// The token that a token text names, if it is valid at time `now`
    /// (with no permission required).
    pub fn accepts_text_at(&self, text: &str, now: u128) -> (token: Option<Token>)
        requires
            self.wf(),
        ensures
            token is Some <==> text_accepted(self.tokens(), text@, now),
            token matches Some(t) ==> t@ == self.tokens()[uuid_parse(text@)->Some_0],
    {
        match parse_uuid(text) {
            Some(id) => match self.validate_token_at(id, None, now) {
                Ok(token) => Some(token),
                Err(_) => None,
            },
            None => None,
        }
    }

    /// Validates a token by the system clock.
    pub fn validate_token(&self, token_id: u128, required_permission: Option<&str>) -> (result: Result<Token, AuthError>)
        requires
            self.wf(),
        ensures
            exists|now: u128|
                basic_agrees(
                    result,
                    #[trigger] basic_validation(
                        self.tokens(),
                        token_id,
                        str_text(required_permission),
                        now,
                    ),
                    str_text(required_permission),
                ),
    {
        let now = system_now_millis();
        self.validate_token_at(token_id, required_permission, now)
    }

    /// Renews token `token_id` at time `now`: a token that has not expired
    /// gets a fresh one-hour lifetime.
    pub fn renew_token_at(&mut self, token_id: u128, now: u128) -> (result: Result<u128, AuthError>)
        requires
            old(self).wf(),
            now <= MAX_CLOCK_MILLIS,
        ensures
            final(self).wf(),
            final(self).forgecode_url() == old(self).forgecode_url(),
            renewal_outcome(old(self).tokens(), final(self).tokens(), token_id, now, result),
    {
        let i = match self.find(token_id) {
            None => return Err(AuthError::TokenNotFound),
            Some(i) => i,
        };
        let mut token = self.tokens[i].clone();
        if now > token.expires_at {
            return Err(AuthError::TokenExpired);
        }
        token.expires_at = now + TOKEN_LIFETIME_MILLIS;
        self.store(token);
        Ok(token_id)
    }

    /// Renews a token by the system clock.
    pub fn renew_token(&mut self, token_id: u128) -> (result: Result<u128, AuthError>)
        requires
            old(self).wf(),
        ensures
            final(self).wf(),
            final(self).forgecode_url() == old(self).forgecode_url(),
            !old(self).tokens().contains_key(token_id) ==> result is Err && result->Err_0 is TokenNotFound,
            result is Ok ==> result->Ok_0 == token_id && final(self).tokens().dom() == old(self).tokens().dom(),
            result is Err ==> final(self).tokens() == old(self).tokens(),
            exists|now: u128|
                now <= MAX_CLOCK_MILLIS && #[trigger] renewal_outcome(
                    old(self).tokens(),
                    final(self).tokens(),
                    token_id,
                    now,
                    result,
                ),
    {
        let now = system_now_millis();
        let r = self.renew_token_at(token_id, now);
        proof {
            if r is Ok {
                assert(final(self).tokens().dom() =~= old(self).tokens().dom());
            }
        }
        r
    }

    /// Removes token `token_id`.
    pub fn revoke_token(&mut self, token_id: u128) -> (result: Result<(), AuthError>)
        requires
            old(self).wf(),
        ensures
            final(self).wf(),
            final(self).forgecode_url() == old(self).forgecode_url(),
            final(self).tokens() == old(self).tokens().remove(token_id),
            result is Ok <==> old(self).tokens().contains_key(token_id),
            result is Err ==> result->Err_0 is TokenNotFound,
    {
        let ghost old_entries = entries(self.tokens@);
        let ghost other = |e: TokenEntry| e.id != token_id;
        match self.find(token_id) {
            None => {
                proof {
                    assert(self.tokens() =~= old(self).tokens().remove(token_id));
                }
                Err(AuthError::TokenNotFound)
            },
            Some(i) => {
                let mut kept: Vec<Token> = Vec::new();
                let n = self.tokens.len();
                let mut j: usize = 0;
                while j < n
                    invariant
                        n == self.tokens@.len(),
                        old_entries == entries(self.tokens@),
                        other == (|e: TokenEntry| e.id != token_id),
                        self.wf(),
                        j <= n,
                        entries(kept@) == old_entries.take(j as int).filter(other),
                        forall|k: int| 0 <= k < kept@.len() ==> (#[trigger] kept@[k]).expires_at < TIME_BOUND,
                    decreases n - j,
                {
                    let token = self.tokens[j].clone();
                    proof {
                        reveal_with_fuel(Seq::filter, 1);
                        assert(old_entries.take(j + 1).drop_last() =~= old_entries.take(j as int));
                        assert(old_entries[j as int] == token@);
                    }
                    if token.id != token_id {
                        let ghost before = kept@;
                        kept.push(token);
                        proof {
                            assert(entries(kept@) =~= entries(before).push(token@));
                        }
                    }
                    j = j + 1;
                }
                proof {
                    assert(old_entries.take(n as int) =~= old_entries);
                    lemma_keyed_filter(old_entries, entry_id(), other);
                }
                self.tokens = kept;
                proof {
                    assert(self.tokens() =~= old(self).tokens().remove(token_id));
                }
                Ok(())
            },
        }
    }

    /// Removes the tokens whose expiry is not after time `now`.
    pub fn cleanup_expired_tokens_at(&mut self, now: u128)
        requires
            old(self).wf(),
        ensures
            final(self).wf(),
            final(self).forgecode_url() == old(self).forgecode_url(),
            final(self).tokens() == map_keep(old(self).tokens(), unexpired_at(now)),
    {
        let ghost old_entries = entries(self.tokens@);
        let ghost keep = unexpired_at(now);
        let mut kept: Vec<Token> = Vec::new();
        let n = self.tokens.len();
        let mut j: usize = 0;
        while j < n
            invariant
                n == self.tokens@.len(),
                old_entries == entries(self.tokens@),
                keep == unexpired_at(now),
                self.wf(),
                j <= n,
                entries(kept@) == old_entries.take(j as int).filter(keep),
                forall|k: int| 0 <= k < kept@.len() ==> (#[trigger] kept@[k]).expires_at < TIME_BOUND,
            decreases n - j,
        {
            let token = self.tokens[j].clone();
            proof {
                reveal_with_fuel(Seq::filter, 1);
                assert(old_entries.take(j + 1).drop_last() =~= old_entries.take(j as int));
                assert(old_entries[j as int] == token@);
            }
            if now < token.expires_at {
                let ghost before = kept@;
                kept.push(token);
                proof {
                    assert(entries(kept@) =~= entries(before).push(token@));
                }
            }
            j = j + 1;
        }
        proof {
            assert(old_entries.take(n as int) =~= old_entries);
            lemma_keyed_filter(old_entries, entry_id(), keep);
        }
        self.tokens = kept;
    }

    /// Removes the tokens that have expired by the system clock.
    pub fn cleanup_expired_tokens(&mut self)
        requires
            old(self).wf(),
        ensures
            final(self).wf(),
            final(self).forgecode_url() == old(self).forgecode_url(),
            exists|now: u128|
                final(self).tokens() == map_keep(
                    old(self).tokens(),
                    #[trigger] unexpired_at(now),
                ),
    {
        let now = system_now_millis();
        self.cleanup_expired_tokens_at(now)
    }
}

/// A token issued at `now` validates for an hour, for each permission it
/// carries.
pub proof fn law_issued_token_valid_for_an_hour(
    tokens: Map<u128, TokenEntry>,
    id: u128,
    now: u128,
    user_id: Option<Seq<char>>,
    permissions: Seq<Seq<char>>,
    required: Option<Seq<char>>,
    later: u128,
)
    requires
        now <= MAX_CLOCK_MILLIS,
        later <= now + TOKEN_LIFETIME_MILLIS,
        required matches Some(p) ==> permissions.contains(p),
    ensures
        basic_validation(
            tokens.insert(id, issued_entry(id, now, user_id, permissions)),
            id,
            required,
            later,
        ) == Ok::<TokenEntry, AuthError>(issued_entry(id, now, user_id, permissions)),
{
}

/// A token renewed at `now` validates for an hour from then.
pub proof fn law_renewed_token_valid_for_an_hour(
    tokens: Map<u128, TokenEntry>,
    id: u128,
    now: u128,
    later: u128,
)
    requires
        tokens.contains_key(id),
        now <= MAX_CLOCK_MILLIS,
        later <= now + TOKEN_LIFETIME_MILLIS,
    ensures
        basic_validation(
            tokens.insert(
                id,
                TokenEntry { expires_at: (now + TOKEN_LIFETIME_MILLIS) as u128, ..tokens[id] },
            ),
            id,
            None,
            later,
        ) is Ok,
{
}

/// A revoked token is gone: validating it finds nothing.
pub proof fn law_revoked_token_not_found(
    tokens: Map<u128, TokenEntry>,
    id: u128,
    required: Option<Seq<char>>,
    now: u128,
)
    ensures
        basic_validation(tokens.remove(id), id, required, now) == Err::<TokenEntry, AuthError>(
            AuthError::TokenNotFound,
        ),
{
}

/// After a clean-up at `now`, every token left validates then, and every
/// token that validates then is left as it was, but for one that expires at
/// that very moment.
pub proof fn law_cleanup_keeps_unexpired(tokens: Map<u128, TokenEntry>, id: u128, now: u128)
    ensures
        map_keep(tokens, unexpired_at(now)).contains_key(id) ==> basic_validation(
            map_keep(tokens, unexpired_at(now)),
            id,
            None,
            now,
        ) is Ok,
        basic_validation(tokens, id, None, now) is Ok && tokens[id].expires_at != now ==> map_keep(
            tokens,
            unexpired_at(now),
        ).contains_key(id) && map_keep(tokens, unexpired_at(now))[id] == tokens[id],
{
}


/// An expired token stays expired: renewing a token whose expiry has passed
/// by `now` is refused with `TokenExpired` and changes nothing, and a renewal
/// that succeeds was of a stored token still alive at `now`, which then
/// lives a full hour from `now`.
pub proof fn law_expired_token_not_renewed(
    before: Map<u128, TokenEntry>,
    after: Map<u128, TokenEntry>,
    token_id: u128,
    now: u128,
    result: Result<u128, AuthError>,
)
    requires
        renewal_outcome(before, after, token_id, now, result),
        now <= MAX_CLOCK_MILLIS,
    ensures
        before.contains_key(token_id) && now > before[token_id].expires_at ==> result is Err
            && result->Err_0 is TokenExpired && after == before,
        result is Ok ==> before.contains_key(token_id) && now <= before[token_id].expires_at
            && after.contains_key(token_id) && after[token_id].expires_at == now
            + TOKEN_LIFETIME_MILLIS,
{
}

} // verus!
