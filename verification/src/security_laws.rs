//! What holds of secure tokens and of the per-client rate limit over several
//! operations, stated over the models that the operations' contracts use.
use vstd::prelude::*;

use crate::clock::MAX_CLOCK_MILLIS;
use crate::filters::{lemma_filter_nested, lemma_filter_shorter};
use crate::keyed::map_keep;
use crate::security::{
    after_validation, expired_at, issue_outcome, live_at, rate_step, recent_requests,
    refresh_outcome, refreshable_at, revoked_in, validation, AuthError, SecurityConfig,
    TokenRecord, RATE_WINDOW_MILLIS,
};

verus! {

/// The request times logged for `identifier`.
pub open spec fn logged(log: Map<Seq<char>, Seq<u128>>, identifier: Seq<char>) -> Seq<u128> {
    if log.contains_key(identifier) {
        log[identifier]
    } else {
        Seq::empty()
    }
}

/// Checks of `identifier` at each of `times` in turn, against a limit of
/// `limit` requests per minute: the request log afterwards and how many of
/// the requests were let through.
pub open spec fn rate_run(
    log: Map<Seq<char>, Seq<u128>>,
    limit: u32,
    identifier: Seq<char>,
    times: Seq<u128>,
) -> (Map<Seq<char>, Seq<u128>>, nat)
    decreases times.len(),
{
    if times.len() == 0 {
        (log, 0)
    } else {
        let before = rate_run(log, limit, identifier, times.drop_last());
        let step = rate_step(before.0, limit, identifier, times.last());
        (step.0, before.1 + if step.1 {
            1nat
        } else {
            0nat
        })
    }
}

/// The logged times at or after `start`.
spec fn logged_since(times: Seq<u128>, start: u128) -> Seq<u128> {
    times.filter(|t: u128| t >= start)
}

/// In a run of checks that all fall in the minute from `start` on, every
/// request let through stays logged, and no more than `limit` get through.
proof fn lemma_rate_run(
    log: Map<Seq<char>, Seq<u128>>,
    limit: u32,
    identifier: Seq<char>,
    times: Seq<u128>,
    start: u128,
)
    requires
        forall|i: int| 0 <= i < times.len() ==> start <= #[trigger] times[i] && times[i] < start
            + RATE_WINDOW_MILLIS,
    ensures
        rate_run(log, limit, identifier, times).1 <= logged_since(
            logged(rate_run(log, limit, identifier, times).0, identifier),
            start,
        ).len(),
        rate_run(log, limit, identifier, times).1 <= limit,
    decreases times.len(),
{
    if times.len() > 0 {
        let earlier = times.drop_last();
        assert forall|i: int| 0 <= i < earlier.len() implies start <= #[trigger] earlier[i]
            && earlier[i] < start + RATE_WINDOW_MILLIS by {
            assert(earlier[i] == times[i]);
        }
        lemma_rate_run(log, limit, identifier, earlier, start);
        let before = rate_run(log, limit, identifier, earlier);
        let now = times.last();
        assert(start <= now && now < start + RATE_WINDOW_MILLIS) by {
            assert(now == times[times.len() - 1]);
        }
        let past = logged(before.0, identifier);
        let recent = recent_requests(past, now);
        let fresh = |t: u128| t + RATE_WINDOW_MILLIS > now;
        let kept = |t: u128| t >= start;
        assert forall|t: u128| #[trigger] kept(t) implies fresh(t) by {}
        lemma_filter_nested(past, fresh, kept);
        lemma_filter_shorter(recent, kept);
        assert(logged_since(recent, start) == logged_since(past, start));
        if recent.len() < limit {
            recent.lemma_filter_push(now, kept);
            assert(logged(rate_step(before.0, limit, identifier, now).0, identifier) == recent.push(
                now,
            ));
        } else {
            assert(logged(rate_step(before.0, limit, identifier, now).0, identifier) == recent);
        }
    }
}

/// Within one minute, no client gets more than `limit` requests through:
/// of checks of one identifier that all fall in the minute after the first,
/// at most `limit` are let through, whatever was logged before.
pub proof fn law_rate_limit_per_minute(
    log: Map<Seq<char>, Seq<u128>>,
    limit: u32,
    identifier: Seq<char>,
    times: Seq<u128>,
)
    requires
        times.len() > 0,
        forall|i: int| 0 <= i < times.len() ==> times[0] <= #[trigger] times[i] && times[i]
            < times[0] + RATE_WINDOW_MILLIS,
    ensures
        rate_run(log, limit, identifier, times).1 <= limit,
{
    lemma_rate_run(log, limit, identifier, times, times[0]);
}

/// A client with no request in the last minute gets its request through,
/// whenever the limit is at least one.
pub proof fn law_quiet_client_passes(
    log: Map<Seq<char>, Seq<u128>>,
    limit: u32,
    identifier: Seq<char>,
    now: u128,
)
    requires
        limit >= 1,
        forall|i: int|
            0 <= i < logged(log, identifier).len() ==> #[trigger] logged(log, identifier)[i]
                + RATE_WINDOW_MILLIS <= now,
    ensures
        rate_step(log, limit, identifier, now).1,
{
    let past = logged(log, identifier);
    let fresh = |t: u128| t + RATE_WINDOW_MILLIS > now;
    past.lemma_all_neg_filter_empty(fresh);
}

/// A token that is issued validates at every moment from its issue up to its
/// expiry.
pub proof fn law_issued_token_valid_until_expiry(
    tokens: Map<u128, TokenRecord>,
    log: Map<Seq<char>, Seq<u128>>,
    config: SecurityConfig,
    permissions: Seq<Seq<char>>,
    user_agent: Option<Seq<char>>,
    client_ip: Option<Seq<char>>,
    now: u128,
    id: u128,
    max_refresh_count: u32,
    later: u128,
)
    requires
        issue_outcome(tokens, log, config, permissions, user_agent, client_ip, now, id, 0, max_refresh_count).2 is Ok,
        later <= issue_outcome(
            tokens,
            log,
            config,
            permissions,
            user_agent,
            client_ip,
            now,
            id,
            0,
            max_refresh_count,
        ).2->Ok_0.expires_at,
    ensures
        ({
            let o = issue_outcome(
                tokens,
                log,
                config,
                permissions,
                user_agent,
                client_ip,
                now,
                id,
                0,
                max_refresh_count,
            );
            validation(o.0, id, later) == Ok::<TokenRecord, AuthError>(o.2->Ok_0)
        }),
{
}

/// A token past its expiry is refused as expired, unless it was revoked.
pub proof fn law_expired_token_refused(tokens: Map<u128, TokenRecord>, id: u128, now: u128)
    requires
        tokens.contains_key(id),
        !tokens[id].is_revoked,
        expired_at(tokens[id], now),
    ensures
        validation(tokens, id, now) == Err::<TokenRecord, AuthError>(AuthError::TokenExpired),
{
}

/// A revoked token is refused from then on, and revoking touches no other
/// token.
pub proof fn law_revoked_token_refused(
    tokens: Map<u128, TokenRecord>,
    id: u128,
    other: u128,
    now: u128,
)
    requires
        tokens.contains_key(id),
    ensures
        validation(revoked_in(tokens, id), id, now) == Err::<TokenRecord, AuthError>(
            AuthError::TokenRevoked,
        ),
        other != id ==> validation(revoked_in(tokens, other), id, now) == validation(
            tokens,
            id,
            now,
        ),
{
}

/// Validating a token changes nothing but its time of last use: validating
/// it again at the same moment gives the same verdict, and every other token
/// is untouched.
pub proof fn law_validation_repeatable(
    tokens: Map<u128, TokenRecord>,
    id: u128,
    other: u128,
    now: u128,
)
    ensures
        validation(after_validation(tokens, id, now), id, now) is Ok == validation(
            tokens,
            id,
            now,
        ) is Ok,
        validation(after_validation(tokens, id, now), id, now) is Err ==> validation(
            after_validation(tokens, id, now),
            id,
            now,
        ) == validation(tokens, id, now),
        other != id ==> after_validation(tokens, id, now).contains_key(other) == tokens.contains_key(
            other,
        ) && (tokens.contains_key(other) ==> after_validation(tokens, id, now)[other]
            == tokens[other]),
{
}

/// A refresh hands out a token that carries the old one's permissions and
/// client, counts one refresh more within the same limit and is valid at
/// once, while the old token is revoked and refused from then on.
pub proof fn law_refresh_replaces_token(
    tokens: Map<u128, TokenRecord>,
    log: Map<Seq<char>, Seq<u128>>,
    config: SecurityConfig,
    id: u128,
    now: u128,
    new_id: u128,
    later: u128,
)
    requires
        new_id != id,
        now <= MAX_CLOCK_MILLIS,
        refresh_outcome(tokens, log, config, id, now, new_id).2 is Ok,
    ensures
        ({
            let o = refresh_outcome(tokens, log, config, id, now, new_id);
            let (new, old) = o.2->Ok_0;
            &&& new.refresh_count == old.refresh_count + 1
            &&& new.refresh_count <= new.max_refresh_count
            &&& new.max_refresh_count == old.max_refresh_count
            &&& new.permissions == old.permissions
            &&& new.client_ip == old.client_ip
            &&& new.user_agent == old.user_agent
            &&& validation(o.0, new_id, now) == Ok::<TokenRecord, AuthError>(new)
            &&& validation(o.0, id, later) == Err::<TokenRecord, AuthError>(AuthError::TokenRevoked)
        }),
{
}

/// A token that has used up its refreshes cannot be refreshed: the refresh
/// is refused with the limit error, or with the reason the token fails
/// validation.
pub proof fn law_refresh_limit(
    tokens: Map<u128, TokenRecord>,
    log: Map<Seq<char>, Seq<u128>>,
    config: SecurityConfig,
    id: u128,
    now: u128,
    new_id: u128,
)
    requires
        tokens.contains_key(id),
        tokens[id].refresh_count >= tokens[id].max_refresh_count,
    ensures
        refresh_outcome(tokens, log, config, id, now, new_id).2 == match validation(tokens, id, now) {
            Ok(_) => Err::<(TokenRecord, TokenRecord), AuthError>(AuthError::RefreshLimitExceeded),
            Err(e) => Err::<(TokenRecord, TokenRecord), AuthError>(e),
        },
{
}

/// After a clean-up at `now`, every token left validates then, and every
/// token that validated then is left as it was.
pub proof fn law_cleanup_keeps_exactly_valid(tokens: Map<u128, TokenRecord>, id: u128, now: u128)
    ensures
        map_keep(tokens, live_at(now)).contains_key(id) ==> validation(
            map_keep(tokens, live_at(now)),
            id,
            now,
        ) is Ok,
        validation(tokens, id, now) is Ok ==> map_keep(tokens, live_at(now)).contains_key(id)
            && map_keep(tokens, live_at(now))[id] == tokens[id],
{
}

/// Revoking is idempotent and touches nothing but the revoked flag of the
/// one token: the same tokens are held, and only that token changes.
pub proof fn law_revoke_idempotent(tokens: Map<u128, TokenRecord>, id: u128)
    ensures
        revoked_in(revoked_in(tokens, id), id) == revoked_in(tokens, id),
        revoked_in(tokens, id).dom() == tokens.dom(),
        tokens.contains_key(id) ==> revoked_in(tokens, id)[id] == (TokenRecord {
            is_revoked: true,
            ..tokens[id]
        }),
        forall|k: u128| k != id && #[trigger] tokens.contains_key(k) ==> revoked_in(tokens, id)[k] == tokens[k],
{
    if tokens.contains_key(id) {
        assert(revoked_in(revoked_in(tokens, id), id) =~= revoked_in(tokens, id));
        assert(revoked_in(tokens, id).dom() =~= tokens.dom());
    }
}


/// Requests are counted per client: issuing a token for a client with
/// address `ip` reads and writes only that address's request log. Its
/// verdict is the same under any two logs that agree on `ip`, and every
/// other client's log is left exactly as it was.
pub proof fn law_rate_limit_per_client(
    tokens: Map<u128, TokenRecord>,
    log: Map<Seq<char>, Seq<u128>>,
    other_log: Map<Seq<char>, Seq<u128>>,
    config: SecurityConfig,
    permissions: Seq<Seq<char>>,
    user_agent: Option<Seq<char>>,
    ip: Seq<char>,
    now: u128,
    id: u128,
    refresh_count: u32,
    max_refresh_count: u32,
    key: Seq<char>,
)
    requires
        log.contains_key(ip) == other_log.contains_key(ip),
        log.contains_key(ip) ==> log[ip] == other_log[ip],
    ensures
        issue_outcome(tokens, log, config, permissions, user_agent, Some(ip), now, id, refresh_count, max_refresh_count).2
            == issue_outcome(tokens, other_log, config, permissions, user_agent, Some(ip), now, id, refresh_count, max_refresh_count).2,
        key != ip ==> {
            let after = issue_outcome(
                tokens,
                log,
                config,
                permissions,
                user_agent,
                Some(ip),
                now,
                id,
                refresh_count,
                max_refresh_count,
            ).1;
            &&& after.contains_key(key) == log.contains_key(key)
            &&& log.contains_key(key) ==> after[key] == log[key]
        },
{
}

/// A client that has made no request in the last minute gets a token for
/// well-formed permissions, whatever other clients did, as long as the limit
/// allows at least one request.
pub proof fn law_quiet_client_issued(
    tokens: Map<u128, TokenRecord>,
    log: Map<Seq<char>, Seq<u128>>,
    config: SecurityConfig,
    permissions: Seq<Seq<char>>,
    user_agent: Option<Seq<char>>,
    ip: Seq<char>,
    now: u128,
    id: u128,
)
    requires
        config.rate_limit_per_minute >= 1,
        !crate::security::has_blank_permission(permissions),
        !log.contains_key(ip),
    ensures
        issue_outcome(tokens, log, config, permissions, user_agent, Some(ip), now, id, 0, 5).2 is Ok,
{
    let fresh = |t: u128| t + RATE_WINDOW_MILLIS > now;
    assert(Seq::<u128>::empty().filter(fresh) =~= Seq::<u128>::empty());
}

} // verus!
