//! Automatic renewal of tokens shortly before they expire.
//!
//! Times are milliseconds since the Unix epoch (see `clock`).
use vstd::prelude::*;

use crate::clock::{system_now_millis, MAX_CLOCK_MILLIS};
use crate::ids::new_random_uuid;
use crate::keyed::{has_key, keyed_map, keys_distinct, lemma_keyed_index, lemma_keyed_push};
use crate::security::{
    expired_at, refresh_outcome, AuthError, SecureTokenManager, SecurityConfig, TokenRecord,
};

verus! {

/// How long before a session's expiry its token is renewed, in milliseconds.
pub const RENEWAL_WINDOW_MILLIS: u128 = 300000;

/// Individual renewal session.
#[derive(Debug, Clone, Copy)]
pub struct RenewalSession {
    /// Token ID being renewed
    pub token_id: u128,
    /// Current expiration time
    pub expires_at: u128,
    /// Last renewal time
    pub last_renewal: u128,
    /// Number of successful renewals
    pub renewal_count: u32,
    /// Session creation time
    pub created_at: u128,
}

/// Renewal session information for API responses.
#[derive(Debug, Clone, Copy)]
pub struct RenewalSessionInfo {
    pub token_id: u128,
    pub expires_at: u128,
    pub last_renewal: u128,
    pub renewal_count: u32,
    pub created_at: u128,
}

/// The information shown of a session.
pub open spec fn info_of(s: RenewalSession) -> RenewalSessionInfo {
    RenewalSessionInfo {
        token_id: s.token_id,
        expires_at: s.expires_at,
        last_renewal: s.last_renewal,
        renewal_count: s.renewal_count,
        created_at: s.created_at,
    }
}

impl RenewalSession {
    /// A session for `token_id`, which expires at `expires_at`, started at
    /// time `now`.
    pub fn new_at(token_id: u128, expires_at: u128, now: u128) -> (session: Self)
        ensures
            session == (RenewalSession {
                token_id,
                expires_at,
                last_renewal: now,
                renewal_count: 0,
                created_at: now,
            }),
    {
        RenewalSession { token_id, expires_at, last_renewal: now, renewal_count: 0, created_at: now }
    }

    /// A session for `token_id` started now, by the system clock.
    pub fn new(token_id: u128, expires_at: u128) -> (session: Self)
        ensures
            session.token_id == token_id,
            session.expires_at == expires_at,
            session.renewal_count == 0,
            session.last_renewal == session.created_at,
    {
        Self::new_at(token_id, expires_at, system_now_millis())
    }

    /// The information shown of this session.
    pub fn to_info(&self) -> (info: RenewalSessionInfo)
        ensures
            info == info_of(*self),
    {
        RenewalSessionInfo {
            token_id: self.token_id,
            expires_at: self.expires_at,
            last_renewal: self.last_renewal,
            renewal_count: self.renewal_count,
            created_at: self.created_at,
        }
    }
}

/// Renewal statistics.
#[derive(Debug, Clone, Copy)]
pub struct RenewalStats {
    pub total_sessions: usize,
    pub successful_renewals: u32,
    pub failed_renewals: u32,
    pub expired_tokens: u32,
    pub missing_tokens: u32,
    pub removed_sessions: u32,
    pub total_renewal_count: u32,
}

/// Statistics with every count zero.
pub open spec fn zero_stats() -> RenewalStats {
    RenewalStats {
        total_sessions: 0,
        successful_renewals: 0,
        failed_renewals: 0,
        expired_tokens: 0,
        missing_tokens: 0,
        removed_sessions: 0,
        total_renewal_count: 0,
    }
}

impl RenewalStats {
    /// Empty statistics.
    pub fn new() -> (stats: Self)
        ensures
            stats == zero_stats(),
    {
        RenewalStats {
            total_sessions: 0,
            successful_renewals: 0,
            failed_renewals: 0,
            expired_tokens: 0,
            missing_tokens: 0,
            removed_sessions: 0,
            total_renewal_count: 0,
        }
    }
}

/// What happened to one session during a renewal pass.
pub enum SessionOutcome {
    /// Its token no longer exists; the session is removed.
    Missing,
    /// Its token has expired or was revoked; the session is removed.
    Expired,
    /// The session is not yet due for renewal.
    NotDue,
    /// The token was renewed; the new token expires at the given time.
    Renewed(u128),
    /// Renewal failed; the session is removed if it has no refreshes left.
    Failed(bool),
}

/// Handling one session at time `now`, naming a renewed token `new_id`: what
/// happened, and the tokens and request log afterwards. A session is due for
/// renewal once its expiry is less than `RENEWAL_WINDOW_MILLIS` away.
pub open spec fn session_step(
    session: RenewalSession,
    tokens: Map<u128, TokenRecord>,
    log: Map<Seq<char>, Seq<u128>>,
    config: SecurityConfig,
    now: u128,
    new_id: u128,
) -> (SessionOutcome, Map<u128, TokenRecord>, Map<Seq<char>, Seq<u128>>) {
    let id = session.token_id;
    if !tokens.contains_key(id) {
        (SessionOutcome::Missing, tokens, log)
    } else if expired_at(tokens[id], now) || tokens[id].is_revoked {
        (SessionOutcome::Expired, tokens, log)
    } else if now + RENEWAL_WINDOW_MILLIS <= session.expires_at {
        (SessionOutcome::NotDue, tokens, log)
    } else {
        let r = refresh_outcome(tokens, log, config, id, now, new_id);
        match r.2 {
            Ok((new, _)) => (SessionOutcome::Renewed(new.expires_at), r.0, r.1),
            Err(e) => (SessionOutcome::Failed(e is RefreshLimitExceeded), r.0, r.1),
        }
    }
}

/// Whether a session is removed after the given outcome.
pub open spec fn removed_after(outcome: SessionOutcome) -> bool {
    match outcome {
        SessionOutcome::Missing => true,
        SessionOutcome::Expired => true,
        SessionOutcome::NotDue => false,
        SessionOutcome::Renewed(_) => false,
        SessionOutcome::Failed(no_refreshes_left) => no_refreshes_left,
    }
}

/// The session after the given outcome (when it is kept).
pub open spec fn session_after(session: RenewalSession, outcome: SessionOutcome, now: u128) -> RenewalSession {
    match outcome {
        SessionOutcome::Renewed(expires_at) => RenewalSession {
            expires_at,
            last_renewal: now,
            renewal_count: (session.renewal_count + 1) as u32,
            ..session
        },
        _ => session,
    }
}

/// The statistics after counting one session with the given outcome.
pub open spec fn count_outcome(stats: RenewalStats, outcome: SessionOutcome) -> RenewalStats {
    let counted = RenewalStats { total_sessions: (stats.total_sessions + 1) as usize, ..stats };
    let removed = if removed_after(outcome) {
        RenewalStats { removed_sessions: (counted.removed_sessions + 1) as u32, ..counted }
    } else {
        counted
    };
    match outcome {
        SessionOutcome::Missing => RenewalStats {
            missing_tokens: (removed.missing_tokens + 1) as u32,
            ..removed
        },
        SessionOutcome::Expired => RenewalStats {
            expired_tokens: (removed.expired_tokens + 1) as u32,
            ..removed
        },
        SessionOutcome::NotDue => removed,
        SessionOutcome::Renewed(_) => RenewalStats {
            successful_renewals: (removed.successful_renewals + 1) as u32,
            ..removed
        },
        SessionOutcome::Failed(_) => RenewalStats {
            failed_renewals: (removed.failed_renewals + 1) as u32,
            ..removed
        },
    }
}

/// The state of a renewal pass.
pub struct PassState {
    pub tokens: Map<u128, TokenRecord>,
    pub log: Map<Seq<char>, Seq<u128>>,
    pub stats: RenewalStats,
    pub kept: Seq<RenewalSession>,
}

/// A renewal pass over the first `k` sessions at time `now`, the `i`-th
/// renewal naming its new token `new_ids[i]`.
pub open spec fn pass_upto(
    sessions: Seq<RenewalSession>,
    k: int,
    tokens: Map<u128, TokenRecord>,
    log: Map<Seq<char>, Seq<u128>>,
    config: SecurityConfig,
    now: u128,
    new_ids: Seq<u128>,
) -> PassState
    decreases k,
{
    if k <= 0 {
        PassState { tokens, log, stats: zero_stats(), kept: Seq::empty() }
    } else {
        let before = pass_upto(sessions, k - 1, tokens, log, config, now, new_ids);
        let session = sessions[k - 1];
        let step = session_step(session, before.tokens, before.log, config, now, new_ids[k - 1]);
        PassState {
            tokens: step.1,
            log: step.2,
            stats: count_outcome(before.stats, step.0),
            kept: if removed_after(step.0) {
                before.kept
            } else {
                before.kept.push(session_after(session, step.0, now))
            },
        }
    }
}

/// The key of a session.
pub open spec fn session_key() -> spec_fn(RenewalSession) -> u128 {
    |s: RenewalSession| s.token_id
}

/// The sum of the sessions' renewal counts.
pub open spec fn renewal_total(sessions: Seq<RenewalSession>) -> int
    decreases sessions.len(),
{
    if sessions.len() == 0 {
        0
    } else {
        renewal_total(sessions.drop_last()) + sessions.last().renewal_count
    }
}

/// Whether starting the renewal of token `token_id` at time `now` turned the
/// renewal manager `before` into `after` with `result`: an unknown token is
/// not found, an expired or revoked one is refused as expired, and otherwise
/// the token gets a fresh session (replacing any earlier one in its place)
/// that expires with it, has had no renewal yet and starts at `now`.
pub open spec fn renewal_started(
    before: TokenRenewalManager,
    after: TokenRenewalManager,
    token_id: u128,
    now: u128,
    result: Result<(), AuthError>,
) -> bool {
    let tokens = before.manager().tokens();
    if !tokens.contains_key(token_id) {
        result == Err::<(), AuthError>(AuthError::TokenNotFound)
            && after.session_map() == before.session_map()
            && after.sessions() == before.sessions()
    } else if expired_at(tokens[token_id], now) || tokens[token_id].is_revoked {
        result == Err::<(), AuthError>(AuthError::TokenExpired)
            && after.session_map() == before.session_map()
            && after.sessions() == before.sessions()
    } else {
        let session = RenewalSession {
            token_id,
            expires_at: tokens[token_id].expires_at,
            last_renewal: now,
            renewal_count: 0,
            created_at: now,
        };
        &&& result is Ok
        &&& after.session_map() == before.session_map().insert(token_id, session)
        &&& if before.session_map().contains_key(token_id) {
            exists|i: int|
                0 <= i < before.sessions().len()
                    && #[trigger] before.sessions()[i].token_id == token_id
                    && after.sessions() == before.sessions().update(i, session)
        } else {
            after.sessions() == before.sessions().push(session)
        }
    }
}

/// Token renewal manager for handling automatic token refresh.
pub struct TokenRenewalManager {
    renewal_sessions: Vec<RenewalSession>,
    token_manager: SecureTokenManager,
}

impl TokenRenewalManager {
    /// The sessions, in the order they were started.
    pub closed spec fn sessions(&self) -> Seq<RenewalSession> {
        self.renewal_sessions@
    }

    /// The sessions, by token.
    pub closed spec fn session_map(&self) -> Map<u128, RenewalSession> {
        keyed_map(self.renewal_sessions@, session_key())
    }

    /// The token manager renewals go through.
    pub closed spec fn manager(&self) -> SecureTokenManager {
        self.token_manager
    }

    /// Internal consistency: one session per token, and a consistent token
    /// manager.
    pub closed spec fn wf(&self) -> bool {
        keys_distinct(self.renewal_sessions@, session_key()) && self.token_manager.wf()
    }

    /// The two views of the sessions agree: one session per token, and the
    /// map holds each session under its token.
    pub proof fn lemma_session_views(&self)
        requires
            self.wf(),
        ensures
            keys_distinct(self.sessions(), session_key()),
            self.session_map() == keyed_map(self.sessions(), session_key()),
    {
    }

    /// Creates a renewal manager with no sessions.
    pub fn new(token_manager: SecureTokenManager) -> (manager: Self)
        requires
            token_manager.wf(),
        ensures
            manager.wf(),
            manager.sessions() == Seq::<RenewalSession>::empty(),
            manager.manager() == token_manager,
    {
        TokenRenewalManager { renewal_sessions: Vec::new(), token_manager }
    }

    /// The token manager.
    pub fn token_manager(&self) -> (manager: &SecureTokenManager)
        ensures
            *manager == self.manager(),
    {
        &self.token_manager
    }

    /// The token manager, to issue, validate and revoke tokens through; the
    /// sessions are left as they are.
    pub fn token_manager_mut(&mut self) -> (manager: &mut SecureTokenManager)
        ensures
            *manager == old(self).manager(),
            final(self).manager() == *final(manager),
            final(self).sessions() == old(self).sessions(),
            old(self).wf() ==> manager.wf(),
            old(self).wf() && final(manager).wf() ==> final(self).wf(),
    {
        &mut self.token_manager
    }

    /// Where the session of `token_id` is stored.
    fn find(&self, token_id: u128) -> (index: Option<usize>)
        requires
            self.wf(),
        ensures
            match index {
                Some(i) => i < self.sessions().len() && self.sessions()[i as int].token_id
                    == token_id && self.session_map().contains_key(token_id)
                    && self.session_map()[token_id] == self.sessions()[i as int],
                None => !self.session_map().contains_key(token_id),
            },
    {
        let n = self.renewal_sessions.len();
        let mut i: usize = 0;
        while i < n
            invariant
                self.wf(),
                n == self.renewal_sessions@.len(),
                i <= n,
                forall|j: int| 0 <= j < i ==> (#[trigger] self.renewal_sessions@[j]).token_id
                    != token_id,
            decreases n - i,
        {
            if self.renewal_sessions[i].token_id == token_id {
                proof {
                    lemma_keyed_index(self.renewal_sessions@, session_key(), i as int);
                }
                return Some(i);
            }
            i = i + 1;
        }
        None
    }

    /// Starts automatic renewal of token `token_id` at time `now`. A token
    /// that does not exist is refused as missing; one that has expired or
    /// was revoked, as expired. A session already running for the token is
    /// started afresh.
    pub fn start_renewal_at(&mut self, token_id: u128, now: u128) -> (result: Result<(), AuthError>)
        requires
            old(self).wf(),
        ensures
            final(self).wf(),
            final(self).manager() == old(self).manager(),
            renewal_started(*old(self), *final(self), token_id, now, result),
    {
        let token = match self.token_manager.get_token_by_id(token_id) {
            Ok(token) => token,
            Err(e) => return Err(e),
        };
        if token.is_expired_at(now) || token.is_revoked {
            return Err(AuthError::TokenExpired);
        }
        let session = RenewalSession::new_at(token_id, token.expires_at, now);
        let ghost old_sessions = self.renewal_sessions@;
        match self.find(token_id) {
            Some(i) => {
                proof {
                    crate::keyed::lemma_keyed_update(old_sessions, session_key(), i as int, session);
                }
                self.renewal_sessions.set(i, session);
            },
            None => {
                proof {
                    assert(!has_key(old_sessions, session_key(), token_id));
                    lemma_keyed_push(old_sessions, session_key(), session);
                }
                self.renewal_sessions.push(session);
            },
        }
        Ok(())
    }

    /// Starts automatic renewal of token `token_id`, by the system clock.
    pub fn start_renewal(&mut self, token_id: u128) -> (result: Result<(), AuthError>)
        requires
            old(self).wf(),
        ensures
            final(self).wf(),
            final(self).manager() == old(self).manager(),
            result is Ok ==> old(self).manager().tokens().contains_key(token_id)
                && final(self).session_map().contains_key(token_id),
            result is Err ==> final(self).session_map() == old(self).session_map(),
            !old(self).manager().tokens().contains_key(token_id) ==> result == Err::<
                (),
                AuthError,
            >(AuthError::TokenNotFound),
            exists|now: u128|
                now <= MAX_CLOCK_MILLIS && #[trigger] renewal_started(
                    *old(self),
                    *final(self),
                    token_id,
                    now,
                    result,
                ),
    {
        let now = system_now_millis();
        self.start_renewal_at(token_id, now)
    }

    /// Stops automatic renewal of token `token_id`; whether a session was
    /// running.
    pub fn stop_renewal(&mut self, token_id: u128) -> (stopped: bool)
        requires
            old(self).wf(),
        ensures
            final(self).wf(),
            final(self).manager() == old(self).manager(),
            stopped == old(self).session_map().contains_key(token_id),
            final(self).session_map() == old(self).session_map().remove(token_id),
            stopped ==> exists|i: int|
                0 <= i < old(self).sessions().len()
                    && #[trigger] old(self).sessions()[i].token_id == token_id
                    && final(self).sessions() == old(self).sessions().remove(i),
            !stopped ==> final(self).sessions() == old(self).sessions(),
    {
        let ghost old_sessions = self.renewal_sessions@;
        match self.find(token_id) {
            None => {
                assert(self.session_map() =~= self.session_map().remove(token_id));
                false
            },
            Some(i) => {
                let _ = self.renewal_sessions.remove(i);
                proof {
                    let s = self.renewal_sessions@;
                    assert(s =~= old_sessions.remove(i as int));
                    assert forall|a: int, b: int|
                        #![trigger s[a].token_id, s[b].token_id]
                        0 <= a < s.len() && 0 <= b < s.len() && a != b implies s[a].token_id
                        != s[b].token_id by {
                        let oa = if a < i { a } else { a + 1 };
                        let ob = if b < i { b } else { b + 1 };
                        assert(s[a] == old_sessions[oa] && s[b] == old_sessions[ob]);
                        assert((session_key())(old_sessions[oa]) != (session_key())(old_sessions[ob]));
                    }
                    assert(keys_distinct(s, session_key()));
                    let m1 = keyed_map(s, session_key());
                    let m2 = keyed_map(old_sessions, session_key()).remove(token_id);
                    assert forall|k: u128| m1.contains_key(k) <==> m2.contains_key(k) by {
                        if m1.contains_key(k) {
                            let a = choose|a: int| 0 <= a < s.len() && #[trigger] (session_key())(s[a]) == k;
                            let oa = if a < i { a } else { a + 1 };
                            assert(s[a] == old_sessions[oa]);
                            assert((session_key())(old_sessions[oa]) == k);
                            assert(k != token_id);
                        }
                        if m2.contains_key(k) {
                            let b = choose|b: int| 0 <= b < old_sessions.len() && #[trigger] (session_key())(old_sessions[b]) == k;
                            assert(b != i);
                            let sb = if b < i { b } else { b - 1 };
                            assert(s[sb] == old_sessions[b]);
                            assert((session_key())(s[sb]) == k);
                        }
                    }
                    assert forall|k: u128| #[trigger] m1.contains_key(k) implies m1[k] == m2[k] by {
                        let a = choose|a: int| 0 <= a < s.len() && #[trigger] (session_key())(s[a]) == k;
                        let oa = if a < i { a } else { a + 1 };
                        assert(s[a] == old_sessions[oa]);
                        lemma_keyed_index(s, session_key(), a);
                        lemma_keyed_index(old_sessions, session_key(), oa);
                    }
                    assert(m1 =~= m2);
                }
                true
            },
        }
    }

    /// Whether token `token_id` has automatic renewal enabled.
    pub fn is_renewal_active(&self, token_id: u128) -> (active: bool)
        requires
            self.wf(),
        ensures
            active == self.session_map().contains_key(token_id),
    {
        self.find(token_id).is_some()
    }

    /// The information of all sessions, in the order they were started.
    pub fn get_active_sessions(&self) -> (infos: Vec<RenewalSessionInfo>)
        ensures
            infos@ == self.sessions().map_values(|s: RenewalSession| info_of(s)),
    {
        let mut infos: Vec<RenewalSessionInfo> = Vec::new();
        let n = self.renewal_sessions.len();
        let mut i: usize = 0;
        while i < n
            invariant
                n == self.renewal_sessions@.len(),
                i <= n,
                infos@ == self.renewal_sessions@.take(i as int).map_values(
                    |s: RenewalSession| info_of(s),
                ),
            decreases n - i,
        {
            infos.push(self.renewal_sessions[i].to_info());
            proof {
                assert(self.renewal_sessions@.take(i + 1) =~= self.renewal_sessions@.take(
                    i as int,
                ).push(self.renewal_sessions@[i as int]));
                assert(infos@ =~= self.renewal_sessions@.take(i + 1).map_values(
                    |s: RenewalSession| info_of(s),
                ));
            }
            i = i + 1;
        }
        assert(self.renewal_sessions@.take(n as int) =~= self.renewal_sessions@);
        infos
    }

    /// Statistics of the running sessions: how many there are and how many
    /// renewals they have had in all.
    pub fn get_stats(&self) -> (stats: RenewalStats)
        requires
            renewal_total(self.sessions()) <= u32::MAX,
        ensures
            stats == (RenewalStats {
                total_sessions: self.sessions().len() as usize,
                total_renewal_count: renewal_total(self.sessions()) as u32,
                ..zero_stats()
            }),
    {
        let mut stats = RenewalStats::new();
        let n = self.renewal_sessions.len();
        let mut i: usize = 0;
        while i < n
            invariant
                n == self.renewal_sessions@.len(),
                i <= n,
                renewal_total(self.renewal_sessions@) <= u32::MAX,
                0 <= renewal_total(self.renewal_sessions@.take(i as int)) <= u32::MAX,
                stats == (RenewalStats {
                    total_sessions: i,
                    total_renewal_count: renewal_total(self.renewal_sessions@.take(i as int)) as u32,
                    ..zero_stats()
                }),
            decreases n - i,
        {
            proof {
                assert(self.renewal_sessions@.take(i + 1).drop_last() =~= self.renewal_sessions@.take(
                    i as int,
                ));
                lemma_renewal_total_prefix(self.renewal_sessions@, i as int + 1);
                lemma_renewal_total_nonneg(self.renewal_sessions@.take(i + 1));
                assert(self.renewal_sessions@.take(i + 1).last() == self.renewal_sessions@[i as int]);
                assert(renewal_total(self.renewal_sessions@.take(i + 1)) == renewal_total(
                    self.renewal_sessions@.take(i as int),
                ) + self.renewal_sessions@[i as int].renewal_count);
            }
            stats.total_sessions = stats.total_sessions + 1;
            stats.total_renewal_count = stats.total_renewal_count
                + self.renewal_sessions[i].renewal_count;
            i = i + 1;
        }
        assert(self.renewal_sessions@.take(n as int) =~= self.renewal_sessions@);
        stats
    }
}

/// A renewal total is never negative.
pub proof fn lemma_renewal_total_nonneg(s: Seq<RenewalSession>)
    ensures
        renewal_total(s) >= 0,
    decreases s.len(),
{
    if s.len() > 0 {
        lemma_renewal_total_nonneg(s.drop_last());
    }
}

/// The renewal total of a prefix is at most that of the whole.
pub proof fn lemma_renewal_total_prefix(s: Seq<RenewalSession>, k: int)
    requires
        0 <= k <= s.len(),
    ensures
        renewal_total(s.take(k)) <= renewal_total(s),
    decreases s.len() - k,
{
    if k == s.len() {
        assert(s.take(k) =~= s);
    } else {
        lemma_renewal_total_prefix(s, k + 1);
        assert(s.take(k + 1).drop_last() =~= s.take(k));
    }
}


/// Counts one session with the given outcome.
fn count_outcome_exec(stats: RenewalStats, outcome: &SessionOutcome) -> (counted: RenewalStats)
    requires
        stats.total_sessions < usize::MAX,
        stats.successful_renewals < u32::MAX,
        stats.failed_renewals < u32::MAX,
        stats.expired_tokens < u32::MAX,
        stats.missing_tokens < u32::MAX,
        stats.removed_sessions < u32::MAX,
    ensures
        counted == count_outcome(stats, *outcome),
{
    let mut counted = stats;
    counted.total_sessions = counted.total_sessions + 1;
    let removed = match outcome {
        SessionOutcome::Missing => true,
        SessionOutcome::Expired => true,
        SessionOutcome::NotDue => false,
        SessionOutcome::Renewed(_) => false,
        SessionOutcome::Failed(no_refreshes_left) => *no_refreshes_left,
    };
    if removed {
        counted.removed_sessions = counted.removed_sessions + 1;
    }
    match outcome {
        SessionOutcome::Missing => {
            counted.missing_tokens = counted.missing_tokens + 1;
        },
        SessionOutcome::Expired => {
            counted.expired_tokens = counted.expired_tokens + 1;
        },
        SessionOutcome::NotDue => {},
        SessionOutcome::Renewed(_) => {
            counted.successful_renewals = counted.successful_renewals + 1;
        },
        SessionOutcome::Failed(_) => {
            counted.failed_renewals = counted.failed_renewals + 1;
        },
    }
    counted
}

impl TokenRenewalManager {
    /// One renewal pass at time `now`: every session's token is checked,
    /// tokens due for renewal are refreshed (the `i`-th refresh naming its new
    /// token `new_ids[i]`), and sessions whose token is gone, expired,
    /// revoked or out of refreshes are removed.
    pub fn process_renewals_with(&mut self, now: u128, new_ids: &Vec<u128>) -> (stats: RenewalStats)
        requires
            old(self).wf(),
            now <= MAX_CLOCK_MILLIS,
            new_ids@.len() >= old(self).sessions().len(),
            old(self).sessions().len() < u32::MAX,
            forall|j: int|
                0 <= j < old(self).sessions().len() ==> (#[trigger] old(self).sessions()[j]).renewal_count
                    < u32::MAX,
        ensures
            final(self).wf(),
            final(self).manager().config() == old(self).manager().config(),
            ({
                let pass = pass_upto(
                    old(self).sessions(),
                    old(self).sessions().len() as int,
                    old(self).manager().tokens(),
                    old(self).manager().rate_log(),
                    old(self).manager().config(),
                    now,
                    new_ids@,
                );
                &&& final(self).sessions() == pass.kept
                &&& final(self).manager().tokens() == pass.tokens
                &&& final(self).manager().rate_log() == pass.log
                &&& stats == pass.stats
            }),
    {
        let ghost sessions = self.renewal_sessions@;
        let ghost tokens0 = self.token_manager.tokens();
        let ghost log0 = self.token_manager.rate_log();
        let ghost config = self.token_manager.config();
        let n = self.renewal_sessions.len();
        let mut kept: Vec<RenewalSession> = Vec::new();
        let ghost mut origins: Seq<int> = Seq::empty();
        let mut stats = RenewalStats::new();
        let mut i: usize = 0;
        while i < n
            invariant
                n == sessions.len(),
                n < u32::MAX,
                self.renewal_sessions@ == sessions,
                keys_distinct(sessions, session_key()),
                self.token_manager.wf(),
                self.token_manager.config() == config,
                now <= MAX_CLOCK_MILLIS,
                new_ids@.len() >= n,
                forall|j: int| 0 <= j < n ==> (#[trigger] sessions[j]).renewal_count < u32::MAX,
                i <= n,
                ({
                    let pass = pass_upto(sessions, i as int, tokens0, log0, config, now, new_ids@);
                    &&& self.token_manager.tokens() == pass.tokens
                    &&& self.token_manager.rate_log() == pass.log
                    &&& stats == pass.stats
                    &&& kept@ == pass.kept
                }),
                stats.total_sessions == i,
                stats.successful_renewals <= i,
                stats.failed_renewals <= i,
                stats.expired_tokens <= i,
                stats.missing_tokens <= i,
                stats.removed_sessions <= i,
                origins.len() == kept@.len(),
                forall|a: int| 0 <= a < origins.len() ==> 0 <= #[trigger] origins[a] < i,
                forall|a: int, b: int|
                    0 <= a < b < origins.len() ==> #[trigger] origins[a] < #[trigger] origins[b],
                forall|a: int|
                    0 <= a < kept@.len() ==> (#[trigger] kept@[a]).token_id
                        == sessions[origins[a]].token_id,
            decreases n - i,
        {
            let session = self.renewal_sessions[i];
            let outcome = match self.token_manager.get_token_by_id(session.token_id) {
                Err(_) => SessionOutcome::Missing,
                Ok(token) => {
                    if token.is_expired_at(now) || token.is_revoked {
                        SessionOutcome::Expired
                    } else if session.expires_at < now + RENEWAL_WINDOW_MILLIS {
                        match self.token_manager.refresh_token_by_id_at(
                            session.token_id,
                            now,
                            new_ids[i],
                        ) {
                            Ok((new_token, _)) => SessionOutcome::Renewed(new_token.expires_at),
                            Err(e) => SessionOutcome::Failed(
                                matches!(e, AuthError::RefreshLimitExceeded),
                            ),
                        }
                    } else {
                        SessionOutcome::NotDue
                    }
                },
            };
            stats = count_outcome_exec(stats, &outcome);
            let removed = match outcome {
                SessionOutcome::Missing => true,
                SessionOutcome::Expired => true,
                SessionOutcome::NotDue => false,
                SessionOutcome::Renewed(_) => false,
                SessionOutcome::Failed(no_refreshes_left) => no_refreshes_left,
            };
            if !removed {
                let updated = match outcome {
                    SessionOutcome::Renewed(expires_at) => RenewalSession {
                        expires_at,
                        last_renewal: now,
                        renewal_count: session.renewal_count + 1,
                        ..session
                    },
                    _ => session,
                };
                kept.push(updated);
                proof {
                    origins = origins.push(i as int);
                }
            }
            i = i + 1;
        }
        proof {
            assert(keys_distinct(kept@, session_key())) by {
                assert forall|a: int, b: int|
                    #![trigger (session_key())(kept@[a]), (session_key())(kept@[b])]
                    0 <= a < kept@.len() && 0 <= b < kept@.len() && a != b implies (session_key())(
                        kept@[a],
                    ) != (session_key())(kept@[b]) by {
                    if a < b {
                        assert(origins[a] < origins[b]);
                    } else {
                        assert(origins[b] < origins[a]);
                    }
                    assert((session_key())(sessions[origins[a]]) != (session_key())(
                        sessions[origins[b]],
                    ));
                }
            }
        }
        self.renewal_sessions = kept;
        stats
    }

    /// One renewal pass by the system clock, naming renewed tokens by random
    /// UUIDs.
    pub fn process_renewals(&mut self) -> (stats: RenewalStats)
        requires
            old(self).wf(),
            old(self).sessions().len() < u32::MAX,
            forall|j: int|
                0 <= j < old(self).sessions().len() ==> (#[trigger] old(self).sessions()[j]).renewal_count
                    < u32::MAX,
        ensures
            final(self).wf(),
            final(self).manager().config() == old(self).manager().config(),
            exists|now: u128, new_ids: Seq<u128>|
                now <= MAX_CLOCK_MILLIS && {
                    let pass = #[trigger] pass_upto(
                        old(self).sessions(),
                        old(self).sessions().len() as int,
                        old(self).manager().tokens(),
                        old(self).manager().rate_log(),
                        old(self).manager().config(),
                        now,
                        new_ids,
                    );
                    &&& final(self).sessions() == pass.kept
                    &&& final(self).manager().tokens() == pass.tokens
                    &&& final(self).manager().rate_log() == pass.log
                    &&& stats == pass.stats
                },
    {
        let n = self.renewal_sessions.len();
        let mut new_ids: Vec<u128> = Vec::new();
        let mut i: usize = 0;
        while i < n
            invariant
                i <= n,
                new_ids@.len() == i,
            decreases n - i,
        {
            new_ids.push(new_random_uuid());
            i = i + 1;
        }
        let now = system_now_millis();
        self.process_renewals_with(now, &new_ids)
    }
}

/// Every session of a renewal pass is accounted for: the pass counts each
/// session once and either keeps or removes it; each is renewed, failed,
/// expired, missing or not yet due; sessions whose token expired or went
/// missing are removed, and only those and failed ones are.
pub proof fn law_pass_accounts_for_every_session(
    sessions: Seq<RenewalSession>,
    k: int,
    tokens: Map<u128, TokenRecord>,
    log: Map<Seq<char>, Seq<u128>>,
    config: SecurityConfig,
    now: u128,
    new_ids: Seq<u128>,
)
    requires
        0 <= k <= sessions.len(),
        sessions.len() < u32::MAX,
    ensures
        ({
            let pass = pass_upto(sessions, k, tokens, log, config, now, new_ids);
            &&& pass.stats.total_sessions == k
            &&& pass.stats.removed_sessions + pass.kept.len() == k
            &&& pass.stats.successful_renewals + pass.stats.failed_renewals
                + pass.stats.expired_tokens + pass.stats.missing_tokens <= k
            &&& pass.stats.expired_tokens + pass.stats.missing_tokens <= pass.stats.removed_sessions
            &&& pass.stats.removed_sessions <= pass.stats.expired_tokens + pass.stats.missing_tokens
                + pass.stats.failed_renewals
        }),
    decreases k,
{
    if k > 0 {
        law_pass_accounts_for_every_session(sessions, k - 1, tokens, log, config, now, new_ids);
    }
}


/// Renewal is only started for a token that is alive: a token that has
/// expired by `now` or was revoked is refused with `TokenExpired` and no
/// session changes, and a renewal that starts names a stored token that is
/// neither expired nor revoked at `now`.
pub proof fn law_renewal_needs_live_token(
    before: TokenRenewalManager,
    after: TokenRenewalManager,
    token_id: u128,
    now: u128,
    result: Result<(), AuthError>,
)
    requires
        renewal_started(before, after, token_id, now, result),
    ensures
        ({
            let tokens = before.manager().tokens();
            &&& tokens.contains_key(token_id) && (now > tokens[token_id].expires_at
                || tokens[token_id].is_revoked) ==> result == Err::<(), AuthError>(
                AuthError::TokenExpired,
            ) && after.session_map() == before.session_map() && after.sessions()
                == before.sessions()
            &&& result is Ok ==> tokens.contains_key(token_id) && now <= tokens[token_id].expires_at
                && !tokens[token_id].is_revoked
            &&& result is Ok ==> after.session_map().contains_key(token_id)
                && after.session_map()[token_id].expires_at == tokens[token_id].expires_at
                && after.session_map()[token_id].renewal_count == 0
        }),
{
}

} // verus!
