//! Storage and generation of URL tokens: the repository interface that
//! token services work against, an in-memory repository, and token
//! generators.
use vstd::prelude::*;

use crate::ids::uuid_text;
use crate::keyed::{
    has_key, keyed_map, keys_distinct, lemma_keyed_filter, lemma_keyed_index, lemma_keyed_push,
    lemma_keyed_update,
};
use crate::url_token::{
    generate_token_string, is_token_string, TokenValidationResult, UrlToken, UrlTokenId,
    UrlTokenRecord,
};

verus! {

/// A failure of a repository or codec, with its description.
#[derive(Debug, Clone)]
pub struct InfraError {
    pub message: String,
}

/// The key of a token record.
pub open spec fn url_record_id() -> spec_fn(UrlTokenRecord) -> Seq<char> {
    |r: UrlTokenRecord| r.id
}

/// The records of a list of tokens.
pub open spec fn url_views(s: Seq<UrlToken>) -> Seq<UrlTokenRecord> {
    s.map_values(|t: UrlToken| t@)
}

/// Whether a list of tokens holds exactly the tokens of `stored`, once each.
pub open spec fn lists_exactly(list: Seq<UrlToken>, stored: Map<Seq<char>, UrlTokenRecord>) -> bool {
    keys_distinct(url_views(list), url_record_id()) && keyed_map(url_views(list), url_record_id())
        == stored
}

/// Repository for URL token persistence. A repository holds tokens by ID;
/// any operation may fail, in which case the stored tokens are unchanged,
/// unless the repository is infallible.
pub trait UrlTokenRepository {
    /// Internal consistency of the repository.
    spec fn inv(&self) -> bool;

    /// The tokens stored, by ID.
    spec fn stored(&self) -> Map<Seq<char>, UrlTokenRecord>;

    /// Whether the repository never fails (as one held in memory does).
    spec fn infallible(&self) -> bool;

    /// Saves a token, replacing any token with its ID.
    fn save(&mut self, token: &UrlToken) -> (result: Result<(), InfraError>)
        requires
            old(self).inv(),
        ensures
            old(self).infallible() ==> result is Ok,
            final(self).infallible() == old(self).infallible(),
            final(self).inv(),
            result is Ok ==> final(self).stored() == old(self).stored().insert(token.id@, token@),
            result is Err ==> final(self).stored() == old(self).stored(),
    ;

    /// Finds a token by its ID.
    fn find_by_id(&self, id: &UrlTokenId) -> (result: Result<Option<UrlToken>, InfraError>)
        requires
            self.inv(),
        ensures
            self.infallible() ==> result is Ok,
            result matches Ok(found) ==> match found {
                Some(t) => t.id@ == id@ && self.stored().contains_key(id@) && t@ == self.stored()[id@],
                None => !self.stored().contains_key(id@),
            },
    ;

    /// Finds a token by its token string.
    fn find_by_token(&self, token_str: &str) -> (result: Result<Option<UrlToken>, InfraError>)
        requires
            self.inv(),
        ensures
            self.infallible() ==> result is Ok,
            result matches Ok(found) ==> match found {
                Some(t) => t.token@ == token_str@ && self.stored().contains_key(t.id@)
                    && self.stored()[t.id@] == t@,
                None => forall|k: Seq<char>|
                    #[trigger] self.stored().contains_key(k) ==> self.stored()[k].token
                        != token_str@,
            },
    ;

    /// Lists all tokens (including expired and revoked ones).
    fn list_all(&self) -> (result: Result<Vec<UrlToken>, InfraError>)
        requires
            self.inv(),
        ensures
            self.infallible() ==> result is Ok,
            result matches Ok(list) ==> lists_exactly(list@, self.stored()),
    ;

    /// Deletes the token with the given ID (if there is one).
    fn delete(&mut self, id: &UrlTokenId) -> (result: Result<(), InfraError>)
        requires
            old(self).inv(),
        ensures
            old(self).infallible() ==> result is Ok,
            final(self).infallible() == old(self).infallible(),
            final(self).inv(),
            result is Ok ==> final(self).stored() == old(self).stored().remove(id@),
            result is Err ==> final(self).stored() == old(self).stored(),
    ;

    /// Updates an existing token (e.g. to revoke it).
    fn update(&mut self, token: &UrlToken) -> (result: Result<(), InfraError>)
        requires
            old(self).inv(),
        ensures
            old(self).infallible() ==> result is Ok,
            final(self).infallible() == old(self).infallible(),
            final(self).inv(),
            result is Ok ==> final(self).stored() == old(self).stored().insert(token.id@, token@),
            result is Err ==> final(self).stored() == old(self).stored(),
    ;
}

/// Generator of token strings and token IDs.
pub trait UrlTokenGenerator {
    /// Generates a new token string.
    fn generate_token_string(&self) -> String;

    /// Generates a token ID.
    fn generate_token_id(&self) -> UrlTokenId;
}

/// Standard generator: random alphanumeric strings and UUID identifiers.
#[derive(Debug, Clone, Copy)]
pub struct StandardTokenGenerator;

impl Default for StandardTokenGenerator {
    fn default() -> (generator: Self)
        ensures
            generator == StandardTokenGenerator,
    {
        StandardTokenGenerator
    }
}

impl UrlTokenGenerator for StandardTokenGenerator {
    fn generate_token_string(&self) -> (s: String)
        ensures
            is_token_string(s@),
    {
        generate_token_string()
    }

    fn generate_token_id(&self) -> (id: UrlTokenId)
        ensures
            exists|u: u128| id@ == #[trigger] uuid_text(u),
            id@.len() == 36,
    {
        UrlTokenId::generate()
    }
}

/// Encoder and decoder of token strings.
pub trait TokenCodec {
    /// Encodes a token ID into a token string, signed with `secret`.
    fn encode(&self, token_id: &UrlTokenId, secret: &str) -> Result<String, InfraError>;

    /// Decodes and validates a token string.
    fn decode(&self, token_str: &str, secret: &str) -> TokenValidationResult;
}

/// The tokens held after saving each of `tokens` in turn, a later token
/// replacing an earlier one with its ID.
pub open spec fn saved_all(tokens: Seq<UrlTokenRecord>) -> Map<Seq<char>, UrlTokenRecord>
    decreases tokens.len(),
{
    if tokens.len() == 0 {
        Map::empty()
    } else {
        saved_all(tokens.drop_last()).insert(tokens.last().id, tokens.last())
    }
}

/// A repository that keeps its tokens in memory, in the order they were
/// first saved.
#[derive(Debug, Clone)]
pub struct InMemoryUrlTokenRepository {
    tokens: Vec<UrlToken>,
}

impl InMemoryUrlTokenRepository {
    /// An empty repository.
    pub fn new() -> (repository: Self)
        ensures
            repository.inv(),
            repository.stored() == Map::<Seq<char>, UrlTokenRecord>::empty(),
    {
        let repository = InMemoryUrlTokenRepository { tokens: Vec::new() };
        assert(repository.stored() =~= Map::<Seq<char>, UrlTokenRecord>::empty());
        repository
    }

    /// A repository holding the given tokens (later ones replace earlier
    /// ones with the same ID).
    pub fn from_tokens(tokens: Vec<UrlToken>) -> (repository: Self)
        ensures
            repository.inv(),
            repository.stored() == saved_all(url_views(tokens@)),
    {
        let mut repository = Self::new();
        let n = tokens.len();
        let mut i: usize = 0;
        while i < n
            invariant
                n == tokens@.len(),
                i <= n,
                repository.inv(),
                repository.stored() == saved_all(url_views(tokens@).take(i as int)),
            decreases n - i,
        {
            let token = tokens[i].clone();
            repository.store(token);
            proof {
                let views = url_views(tokens@);
                assert(views.take(i + 1).drop_last() =~= views.take(i as int));
                assert(views.take(i + 1).last() == tokens@[i as int]@);
            }
            i = i + 1;
        }
        assert(url_views(tokens@).take(n as int) =~= url_views(tokens@));
        repository
    }

    /// The tokens held, in the order they were first saved.
    pub fn tokens(&self) -> (tokens: &Vec<UrlToken>)
        requires
            self.inv(),
        ensures
            lists_exactly(tokens@, self.stored()),
    {
        &self.tokens
    }

    /// Where the token with ID `id` is stored.
    fn find(&self, id: &UrlTokenId) -> (index: Option<usize>)
        requires
            self.inv(),
        ensures
            match index {
                Some(i) => i < self.tokens@.len() && self.tokens@[i as int].id@ == id@
                    && self.stored().contains_key(id@) && self.stored()[id@] == self.tokens@[i as int]@,
                None => !self.stored().contains_key(id@),
            },
    {
        let n = self.tokens.len();
        let mut i: usize = 0;
        while i < n
            invariant
                self.inv(),
                n == self.tokens@.len(),
                i <= n,
                forall|j: int| 0 <= j < i ==> (#[trigger] self.tokens@[j]).id@ != id@,
            decreases n - i,
        {
            if self.tokens[i].id == *id {
                proof {
                    assert(url_views(self.tokens@)[i as int] == self.tokens@[i as int]@);
                    lemma_keyed_index(url_views(self.tokens@), url_record_id(), i as int);
                }
                return Some(i);
            }
            i = i + 1;
        }
        proof {
            if self.stored().contains_key(id@) {
                let j = choose|j: int|
                    0 <= j < url_views(self.tokens@).len() && #[trigger] (url_record_id())(
                        url_views(self.tokens@)[j],
                    ) == id@;
                assert(url_views(self.tokens@)[j] == self.tokens@[j]@);
            }
        }
        None
    }

    /// Stores `token` under its ID, replacing any token with that ID.
    fn store(&mut self, token: UrlToken)
        requires
            old(self).inv(),
        ensures
            final(self).inv(),
            final(self).stored() == old(self).stored().insert(token.id@, token@),
    {
        let ghost old_views = url_views(self.tokens@);
        let ghost view = token@;
        match self.find(&token.id) {
            Some(i) => {
                proof {
                    lemma_keyed_update(old_views, url_record_id(), i as int, view);
                }
                self.tokens.set(i, token);
                proof {
                    assert(url_views(self.tokens@) =~= old_views.update(i as int, view));
                }
            },
            None => {
                proof {
                    assert(!has_key(old_views, url_record_id(), view.id));
                    lemma_keyed_push(old_views, url_record_id(), view);
                }
                self.tokens.push(token);
                proof {
                    assert(url_views(self.tokens@) =~= old_views.push(view));
                }
            },
        }
    }
}

impl UrlTokenRepository for InMemoryUrlTokenRepository {
    closed spec fn inv(&self) -> bool {
        keys_distinct(url_views(self.tokens@), url_record_id())
    }

    closed spec fn stored(&self) -> Map<Seq<char>, UrlTokenRecord> {
        keyed_map(url_views(self.tokens@), url_record_id())
    }

    open spec fn infallible(&self) -> bool {
        true
    }

    fn save(&mut self, token: &UrlToken) -> (result: Result<(), InfraError>)
        ensures
            result is Ok,
    {
        self.store(token.clone());
        Ok(())
    }

    fn find_by_id(&self, id: &UrlTokenId) -> (result: Result<Option<UrlToken>, InfraError>)
        ensures
            result is Ok,
    {
        match self.find(id) {
            Some(i) => Ok(Some(self.tokens[i].clone())),
            None => Ok(None),
        }
    }

    fn find_by_token(&self, token_str: &str) -> (result: Result<Option<UrlToken>, InfraError>)
        ensures
            result is Ok,
    {
        let wanted = token_str.to_string();
        let n = self.tokens.len();
        let mut i: usize = 0;
        while i < n
            invariant
                self.inv(),
                n == self.tokens@.len(),
                i <= n,
                wanted@ == token_str@,
                forall|j: int| 0 <= j < i ==> (#[trigger] self.tokens@[j]).token@ != token_str@,
            decreases n - i,
        {
            if self.tokens[i].token == wanted {
                proof {
                    assert(url_views(self.tokens@)[i as int] == self.tokens@[i as int]@);
                    lemma_keyed_index(url_views(self.tokens@), url_record_id(), i as int);
                }
                return Ok(Some(self.tokens[i].clone()));
            }
            i = i + 1;
        }
        proof {
            assert forall|k: Seq<char>| #[trigger] self.stored().contains_key(k) implies self.stored()[k].token
                != token_str@ by {
                let j = choose|j: int|
                    0 <= j < url_views(self.tokens@).len() && #[trigger] (url_record_id())(
                        url_views(self.tokens@)[j],
                    ) == k;
                assert(url_views(self.tokens@)[j] == self.tokens@[j]@);
                lemma_keyed_index(url_views(self.tokens@), url_record_id(), j);
            }
        }
        Ok(None)
    }

    fn list_all(&self) -> (result: Result<Vec<UrlToken>, InfraError>)
        ensures
            result is Ok,
    {
        let mut list: Vec<UrlToken> = Vec::new();
        let n = self.tokens.len();
        let mut i: usize = 0;
        while i < n
            invariant
                n == self.tokens@.len(),
                i <= n,
                url_views(list@) == url_views(self.tokens@).take(i as int),
            decreases n - i,
        {
            let ghost before = list@;
            list.push(self.tokens[i].clone());
            proof {
                assert(url_views(list@) =~= url_views(before).push(self.tokens@[i as int]@));
                assert(url_views(self.tokens@).take(i + 1) =~= url_views(self.tokens@).take(
                    i as int,
                ).push(self.tokens@[i as int]@));
            }
            i = i + 1;
        }
        assert(url_views(self.tokens@).take(n as int) =~= url_views(self.tokens@));
        Ok(list)
    }

    fn delete(&mut self, id: &UrlTokenId) -> (result: Result<(), InfraError>)
        ensures
            result is Ok,
    {
        let ghost old_views = url_views(self.tokens@);
        let ghost other = |r: UrlTokenRecord| r.id != id@;
        let mut kept: Vec<UrlToken> = Vec::new();
        let n = self.tokens.len();
        let mut j: usize = 0;
        while j < n
            invariant
                n == self.tokens@.len(),
                old_views == url_views(self.tokens@),
                other == (|r: UrlTokenRecord| r.id != id@),
                j <= n,
                url_views(kept@) == old_views.take(j as int).filter(other),
            decreases n - j,
        {
            let token = self.tokens[j].clone();
            proof {
                reveal_with_fuel(Seq::filter, 1);
                assert(old_views.take(j + 1).drop_last() =~= old_views.take(j as int));
                assert(old_views[j as int] == token@);
            }
            if !(token.id == *id) {
                let ghost before = kept@;
                kept.push(token);
                proof {
                    assert(url_views(kept@) =~= url_views(before).push(token@));
                }
            }
            j = j + 1;
        }
        proof {
            assert(old_views.take(n as int) =~= old_views);
            lemma_keyed_filter(old_views, url_record_id(), other);
        }
        self.tokens = kept;
        proof {
            assert(self.stored() =~= old(self).stored().remove(id@));
        }
        Ok(())
    }

    fn update(&mut self, token: &UrlToken) -> (result: Result<(), InfraError>)
        ensures
            result is Ok,
    {
        self.save(token)
    }
}

} // verus!
