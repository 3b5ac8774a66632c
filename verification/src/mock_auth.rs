//! A stand-in authentication system with a fixed set of valid tokens and a
//! per-client request limit, for exercising the gateway without a token
//! store.
//!
//! Times are milliseconds since the Unix epoch (see `clock`).
use vstd::prelude::*;

use crate::clock::system_now_millis;
use crate::keyed::{has_key, keyed_map, keys_distinct, lemma_keyed_index, lemma_keyed_push, lemma_keyed_update};
use crate::rate_limiting::elapsed;
use crate::security::rate_key;

verus! {

/// Requests a client may make per window.
pub const MOCK_REQUESTS_PER_WINDOW: usize = 10;

/// Length of the window, in milliseconds.
pub const MOCK_WINDOW_MILLIS: u128 = 60000;

/// The request times younger than the window at time `now`.
pub open spec fn young_requests(times: Seq<u128>, now: u128) -> Seq<u128> {
    times.filter(|t: u128| elapsed(now, t) < MOCK_WINDOW_MILLIS)
}

/// One check of `client` at time `now`: the log afterwards and whether the
/// request is allowed. A request is allowed while fewer than
/// `MOCK_REQUESTS_PER_WINDOW` requests of the client are younger than the
/// window, and is then logged.
pub open spec fn mock_step(log: Map<Seq<char>, Seq<u128>>, client: Seq<char>, now: u128) -> (
    Map<Seq<char>, Seq<u128>>,
    bool,
) {
    let past = if log.contains_key(client) {
        log[client]
    } else {
        Seq::empty()
    };
    let recent = young_requests(past, now);
    if recent.len() < MOCK_REQUESTS_PER_WINDOW {
        (log.insert(client, recent.push(now)), true)
    } else {
        (log.insert(client, recent), false)
    }
}

/// The key of a valid-token entry.
pub open spec fn token_entry_key() -> spec_fn((String, bool)) -> Seq<char> {
    |e: (String, bool)| e.0@
}

/// Mock authentication system for testing.
pub struct MockAuthSystem {
    valid_tokens: Vec<(String, bool)>,
    rate_limit_store: Vec<(String, Vec<u128>)>,
}

/// The request times younger than the window, in their order.
fn keep_young(times: &Vec<u128>, now: u128) -> (kept: Vec<u128>)
    ensures
        kept@ == young_requests(times@, now),
{
    let mut kept: Vec<u128> = Vec::new();
    let n = times.len();
    let mut i: usize = 0;
    while i < n
        invariant
            n == times@.len(),
            i <= n,
            kept@ == young_requests(times@.take(i as int), now),
        decreases n - i,
    {
        let t = times[i];
        proof {
            reveal_with_fuel(Seq::filter, 1);
            assert(times@.take(i + 1).drop_last() =~= times@.take(i as int));
        }
        let age: u128 = if now >= t {
            now - t
        } else {
            0
        };
        if age < MOCK_WINDOW_MILLIS {
            kept.push(t);
        }
        i = i + 1;
    }
    assert(times@.take(n as int) =~= times@);
    kept
}

impl MockAuthSystem {
    /// Internal consistency: one entry per token and per client.
    pub closed spec fn wf(&self) -> bool {
        keys_distinct(self.valid_tokens@, token_entry_key()) && keys_distinct(
            self.rate_limit_store@,
            rate_key(),
        )
    }

    /// The known tokens and whether each is valid.
    pub closed spec fn tokens(&self) -> Map<Seq<char>, bool> {
        Map::new(
            |k: Seq<char>| keyed_map(self.valid_tokens@, token_entry_key()).contains_key(k),
            |k: Seq<char>| keyed_map(self.valid_tokens@, token_entry_key())[k].1,
        )
    }

    /// The request log of each client.
    pub closed spec fn log(&self) -> Map<Seq<char>, Seq<u128>> {
        Map::new(
            |k: Seq<char>| keyed_map(self.rate_limit_store@, rate_key()).contains_key(k),
            |k: Seq<char>| keyed_map(self.rate_limit_store@, rate_key())[k].1@,
        )
    }

    /// A system knowing two valid tokens and no requests.
    pub fn new() -> (auth: Self)
        ensures
            auth.wf(),
            auth.tokens() == map!["valid_token_123"@ => true, "valid_token_456"@ => true],
            auth.log() == Map::<Seq<char>, Seq<u128>>::empty(),
    {
        let mut tokens: Vec<(String, bool)> = Vec::new();
        let first = ("valid_token_123".to_string(), true);
        let second = ("valid_token_456".to_string(), true);
        proof {
            reveal_strlit("valid_token_123");
            reveal_strlit("valid_token_456");
            assert(first.0@[14] != second.0@[14]);
            lemma_keyed_push(tokens@, token_entry_key(), first);
        }
        tokens.push(first);
        proof {
            assert(!has_key(tokens@, token_entry_key(), second.0@)) by {
                if has_key(tokens@, token_entry_key(), second.0@) {
                    let i = choose|i: int|
                        0 <= i < tokens@.len() && #[trigger] (token_entry_key())(tokens@[i])
                            == second.0@;
                    assert(i == 0);
                }
            }
            lemma_keyed_push(tokens@, token_entry_key(), second);
        }
        tokens.push(second);
        let auth = MockAuthSystem { valid_tokens: tokens, rate_limit_store: Vec::new() };
        proof {
            assert(tokens@ =~= seq![].push(first).push(second));
            assert(auth.tokens() =~= map!["valid_token_123"@ => true, "valid_token_456"@ => true]);
            assert(auth.log() =~= Map::<Seq<char>, Seq<u128>>::empty());
        }
        auth
    }

    /// Whether `token` is a known, valid token.
    pub fn validate_token(&self, token: &str) -> (valid: bool)
        requires
            self.wf(),
        ensures
            valid == (self.tokens().contains_key(token@) && self.tokens()[token@]),
    {
        let n = self.valid_tokens.len();
        let mut i: usize = 0;
        while i < n
            invariant
                self.wf(),
                n == self.valid_tokens@.len(),
                i <= n,
                forall|j: int| 0 <= j < i ==> (#[trigger] self.valid_tokens@[j]).0@ != token@,
            decreases n - i,
        {
            if crate::text::str_equal(self.valid_tokens[i].0.as_str(), token) {
                proof {
                    lemma_keyed_index(self.valid_tokens@, token_entry_key(), i as int);
                }
                return self.valid_tokens[i].1;
            }
            i = i + 1;
        }
        false
    }

    /// Checks and records a request of `client_id` at time `now`; whether it
    /// is allowed.
    pub fn check_rate_limit_at(&mut self, client_id: &str, now: u128) -> (allowed: bool)
        requires
            old(self).wf(),
        ensures
            final(self).wf(),
            final(self).tokens() == old(self).tokens(),
            (final(self).log(), allowed) == mock_step(old(self).log(), client_id@, now),
    {
        let ghost old_store = self.rate_limit_store@;
        let key = client_id.to_string();
        let n = self.rate_limit_store.len();
        let mut i: usize = 0;
        while i < n
            invariant
                n == self.rate_limit_store@.len(),
                self.rate_limit_store@ == old_store,
                i <= n,
                key@ == client_id@,
                forall|j: int| 0 <= j < i ==> (#[trigger] self.rate_limit_store@[j]).0@ != key@,
            ensures
                i <= n,
                self.rate_limit_store@ == old_store,
                i < n ==> self.rate_limit_store@[i as int].0@ == key@,
                forall|j: int| 0 <= j < i ==> (#[trigger] self.rate_limit_store@[j]).0@ != key@,
            decreases n - i,
        {
            if self.rate_limit_store[i].0 == key {
                break;
            }
            i = i + 1;
        }
        let ghost step = mock_step(self.log(), client_id@, now);
        if i < n {
            proof {
                lemma_keyed_index(old_store, rate_key(), i as int);
            }
            let mut recent = keep_young(&self.rate_limit_store[i].1, now);
            let allowed = recent.len() < MOCK_REQUESTS_PER_WINDOW;
            if allowed {
                recent.push(now);
            }
            let entry = (key, recent);
            proof {
                lemma_keyed_update(old_store, rate_key(), i as int, entry);
            }
            self.rate_limit_store.set(i, entry);
            proof {
                assert(self.log() =~= step.0);
            }
            allowed
        } else {
            proof {
                assert(!has_key(old_store, rate_key(), key@));
                assert(!self.log().contains_key(client_id@));
                assert(young_requests(Seq::<u128>::empty(), now) =~= Seq::<u128>::empty()) by {
                    reveal_with_fuel(Seq::filter, 1);
                }
            }
            let mut fresh: Vec<u128> = Vec::new();
            fresh.push(now);
            let entry = (key, fresh);
            proof {
                lemma_keyed_push(old_store, rate_key(), entry);
            }
            self.rate_limit_store.push(entry);
            proof {
                assert(self.log() =~= step.0);
            }
            true
        }
    }

    /// Checks and records a request of `client_id`, by the system clock.
    pub fn check_rate_limit(&mut self, client_id: &str) -> (allowed: bool)
        requires
            old(self).wf(),
        ensures
            final(self).wf(),
            final(self).tokens() == old(self).tokens(),
            exists|now: u128|
                (final(self).log(), allowed) == #[trigger] mock_step(old(self).log(), client_id@, now),
    {
        let now = system_now_millis();
        self.check_rate_limit_at(client_id, now)
    }
}

/// Checks of `client` at each of `times` in turn: the log afterwards and how
/// many of the requests were allowed.
pub open spec fn mock_run(log: Map<Seq<char>, Seq<u128>>, client: Seq<char>, times: Seq<u128>) -> (
    Map<Seq<char>, Seq<u128>>,
    nat,
)
    decreases times.len(),
{
    if times.len() == 0 {
        (log, 0)
    } else {
        let before = mock_run(log, client, times.drop_last());
        let step = mock_step(before.0, client, times.last());
        (step.0, before.1 + if step.1 {
            1nat
        } else {
            0nat
        })
    }
}

/// The times logged for `client`.
pub open spec fn client_log(log: Map<Seq<char>, Seq<u128>>, client: Seq<char>) -> Seq<u128> {
    if log.contains_key(client) {
        log[client]
    } else {
        Seq::empty()
    }
}

/// In a run of checks inside one window from `start` on, every allowed
/// request stays logged and no more than the allowance gets through.
proof fn lemma_mock_run(log: Map<Seq<char>, Seq<u128>>, client: Seq<char>, times: Seq<u128>, start: u128)
    requires
        forall|i: int|
            0 <= i < times.len() ==> start <= #[trigger] times[i] && times[i] < start
                + MOCK_WINDOW_MILLIS,
    ensures
        mock_run(log, client, times).1 <= client_log(mock_run(log, client, times).0, client).filter(
            |t: u128| t >= start,
        ).len(),
        mock_run(log, client, times).1 <= MOCK_REQUESTS_PER_WINDOW,
    decreases times.len(),
{
    if times.len() > 0 {
        let earlier = times.drop_last();
        assert forall|i: int| 0 <= i < earlier.len() implies start <= #[trigger] earlier[i]
            && earlier[i] < start + MOCK_WINDOW_MILLIS by {
            assert(earlier[i] == times[i]);
        }
        lemma_mock_run(log, client, earlier, start);
        let before = mock_run(log, client, earlier);
        let now = times.last();
        assert(start <= now && now < start + MOCK_WINDOW_MILLIS) by {
            assert(now == times[times.len() - 1]);
        }
        let past = client_log(before.0, client);
        let recent = young_requests(past, now);
        let young = |t: u128| elapsed(now, t) < MOCK_WINDOW_MILLIS;
        let kept = |t: u128| t >= start;
        assert forall|t: u128| #[trigger] kept(t) implies young(t) by {}
        crate::filters::lemma_filter_nested(past, young, kept);
        crate::filters::lemma_filter_shorter(recent, kept);
        if recent.len() < MOCK_REQUESTS_PER_WINDOW {
            recent.lemma_filter_push(now, kept);
        }
    }
}

/// No client gets more than `MOCK_REQUESTS_PER_WINDOW` requests through in
/// one window: of checks that all fall in the window after the first, at most
/// that many are allowed, whatever was logged before.
pub proof fn law_mock_rate_limit(log: Map<Seq<char>, Seq<u128>>, client: Seq<char>, times: Seq<u128>)
    requires
        times.len() > 0,
        forall|i: int|
            0 <= i < times.len() ==> times[0] <= #[trigger] times[i] && times[i] < times[0]
                + MOCK_WINDOW_MILLIS,
    ensures
        mock_run(log, client, times).1 <= MOCK_REQUESTS_PER_WINDOW,
{
    lemma_mock_run(log, client, times, times[0]);
}

} // verus!
