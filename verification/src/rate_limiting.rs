//! Rate limiting of gateway requests, by client address and by token, over
//! a sliding time window.
//!
//! Times are milliseconds since the Unix epoch (see `clock`).
use vstd::prelude::*;

use crate::clock::{system_now_millis, MAX_CLOCK_MILLIS};
use crate::text::str_text;
use crate::keyed::{
    has_key, keyed_map, keys_distinct, lemma_keyed_filter, lemma_keyed_index, lemma_keyed_push,
    lemma_keyed_update, map_keep,
};

verus! {

/// Rate limiting configuration.
#[derive(Debug, Clone, Copy)]
pub struct RateLimitConfig {
    /// Maximum requests per window
    pub max_requests: u32,
    /// Time window in seconds
    pub window_seconds: u64,
    /// Whether to rate limit by IP address
    pub limit_by_ip: bool,
    /// Whether to rate limit by token
    pub limit_by_token: bool,
}

impl Default for RateLimitConfig {
    fn default() -> (config: Self)
        ensures
            config.max_requests == 1000,
            config.window_seconds == 60,
            config.limit_by_ip,
            config.limit_by_token,
    {
        RateLimitConfig { max_requests: 1000, window_seconds: 60, limit_by_ip: true, limit_by_token: true }
    }
}

/// The window length in milliseconds.
pub open spec fn window_millis(config: RateLimitConfig) -> int {
    config.window_seconds * 1000
}

/// Time elapsed from `earlier` to `now`, zero where `earlier` is later.
pub open spec fn elapsed(now: u128, earlier: u128) -> int {
    if now >= earlier {
        now - earlier
    } else {
        0
    }
}

/// The request times still inside the window at time `now`.
pub open spec fn in_window(times: Seq<u128>, config: RateLimitConfig, now: u128) -> Seq<u128> {
    times.filter(|t: u128| elapsed(now, t) <= window_millis(config))
}

/// The state of one client's rate limiting: its request times and the start
/// of its current window.
pub struct WindowState {
    pub requests: Seq<u128>,
    pub window_start: u128,
}

/// One rate-limit check at time `now`: the state afterwards and whether the
/// request is limited. A window that has run out is started afresh at `now`;
/// requests outside the window are forgotten; a request that is not limited
/// is recorded.
pub open spec fn window_step(state: WindowState, config: RateLimitConfig, now: u128) -> (
    WindowState,
    bool,
) {
    let restarted = elapsed(now, state.window_start) > window_millis(config);
    let start = if restarted {
        now
    } else {
        state.window_start
    };
    let past = if restarted {
        Seq::empty()
    } else {
        state.requests
    };
    let recent = in_window(past, config, now);
    if recent.len() >= config.max_requests {
        (WindowState { requests: recent, window_start: start }, true)
    } else {
        (WindowState { requests: recent.push(now), window_start: start }, false)
    }
}

/// Rate limiting data for a single client.
#[derive(Debug)]
pub struct RateLimitData {
    requests: Vec<u128>,
    window_start: u128,
}

impl Clone for RateLimitData {
    fn clone(&self) -> (copy: Self)
        ensures
            copy@ == self@,
    {
        let requests = self.requests.clone();
        assert(requests@ =~= self.requests@);
        RateLimitData { requests, window_start: self.window_start }
    }
}

impl View for RateLimitData {
    type V = WindowState;

    closed spec fn view(&self) -> WindowState {
        WindowState { requests: self.requests@, window_start: self.window_start }
    }
}

impl RateLimitData {
    /// Data with no requests and a window starting at `now`.
    pub fn new_at(now: u128) -> (data: Self)
        ensures
            data@ == (WindowState { requests: Seq::empty(), window_start: now }),
    {
        RateLimitData { requests: Vec::new(), window_start: now }
    }

    /// Data with no requests and a window starting now, by the system clock.
    pub fn new() -> (data: Self)
        ensures
            data@.requests == Seq::<u128>::empty(),
            data@.window_start <= MAX_CLOCK_MILLIS,
    {
        Self::new_at(system_now_millis())
    }

    /// Checks and records a request at time `now`; whether it is limited.
    pub fn is_rate_limited_at(&mut self, config: &RateLimitConfig, now: u128) -> (limited: bool)
        ensures
            (final(self)@, limited) == window_step(old(self)@, *config, now),
    {
        let window: u128 = config.window_seconds as u128 * 1000;
        let since_start: u128 = if now >= self.window_start {
            now - self.window_start
        } else {
            0
        };
        if since_start > window {
            self.requests = Vec::new();
            self.window_start = now;
        }
        let ghost past = self.requests@;
        let mut kept: Vec<u128> = Vec::new();
        let n = self.requests.len();
        let mut i: usize = 0;
        while i < n
            invariant
                n == self.requests@.len(),
                past == self.requests@,
                window == config.window_seconds * 1000,
                i <= n,
                kept@ == in_window(past.take(i as int), *config, now),
            decreases n - i,
        {
            let t = self.requests[i];
            proof {
                reveal_with_fuel(Seq::filter, 1);
                assert(past.take(i + 1).drop_last() =~= past.take(i as int));
            }
            let age: u128 = if now >= t {
                now - t
            } else {
                0
            };
            if age <= window {
                kept.push(t);
            }
            i = i + 1;
        }
        proof {
            assert(past.take(n as int) =~= past);
            if since_start > window {
                assert(past =~= Seq::<u128>::empty());
            }
        }
        self.requests = kept;
        if self.requests.len() >= config.max_requests as usize {
            return true;
        }
        self.requests.push(now);
        false
    }

    /// Checks and records a request by the system clock; whether it is
    /// limited.
    pub fn is_rate_limited(&mut self, config: &RateLimitConfig) -> (limited: bool)
        ensures
            exists|now: u128| (final(self)@, limited) == #[trigger] window_step(old(self)@, *config, now),
    {
        let now = system_now_millis();
        self.is_rate_limited_at(config, now)
    }
}

/// The key of a client's entry.
pub open spec fn client_key() -> spec_fn((String, RateLimitData)) -> Seq<char> {
    |e: (String, RateLimitData)| e.0@
}

/// The states of a table of clients, by client.
pub open spec fn table_view(table: Seq<(String, RateLimitData)>) -> Map<Seq<char>, WindowState> {
    Map::new(
        |k: Seq<char>| keyed_map(table, client_key()).contains_key(k),
        |k: Seq<char>| keyed_map(table, client_key())[k].1@,
    )
}

/// One check of client `key` in a table at time `now`: a client seen for the
/// first time starts with no requests and a window starting at `now`.
pub open spec fn table_step(
    table: Map<Seq<char>, WindowState>,
    config: RateLimitConfig,
    key: Seq<char>,
    now: u128,
) -> (Map<Seq<char>, WindowState>, bool) {
    let state = if table.contains_key(key) {
        table[key]
    } else {
        WindowState { requests: Seq::empty(), window_start: now }
    };
    let step = window_step(state, config, now);
    (table.insert(key, step.0), step.1)
}

/// A check against the store at time `now`: both tables afterwards, and
/// whether the request is limited (by address, by token, or both).
pub open spec fn store_step(
    ips: Map<Seq<char>, WindowState>,
    tokens: Map<Seq<char>, WindowState>,
    config: RateLimitConfig,
    ip: Seq<char>,
    token_id: Option<Seq<char>>,
    now: u128,
) -> (Map<Seq<char>, WindowState>, Map<Seq<char>, WindowState>, bool) {
    let by_ip = if config.limit_by_ip {
        table_step(ips, config, ip, now)
    } else {
        (ips, false)
    };
    let by_token = if config.limit_by_token && token_id is Some {
        table_step(tokens, config, token_id->Some_0, now)
    } else {
        (tokens, false)
    };
    (by_ip.0, by_token.0, by_ip.1 || by_token.1)
}

/// Whether a client's data is recent enough to keep at time `now`: its
/// window started at most two windows ago.
pub open spec fn fresh_at(config: RateLimitConfig, now: u128) -> spec_fn(WindowState) -> bool {
    |s: WindowState| elapsed(now, s.window_start) <= 2 * window_millis(config)
}

/// Checks client `key` in `table` at time `now`.
fn check_in_table(
    table: &mut Vec<(String, RateLimitData)>,
    config: &RateLimitConfig,
    key: &str,
    now: u128,
) -> (limited: bool)
    requires
        keys_distinct(old(table)@, client_key()),
    ensures
        keys_distinct(final(table)@, client_key()),
        (table_view(final(table)@), limited) == table_step(
            table_view(old(table)@),
            *config,
            key@,
            now,
        ),
{
    let ghost old_table = table@;
    let owned = key.to_string();
    let n = table.len();
    let mut i: usize = 0;
    while i < n
        invariant
            n == table@.len(),
            table@ == old_table,
            i <= n,
            owned@ == key@,
            forall|j: int| 0 <= j < i ==> (#[trigger] table@[j]).0@ != owned@,
        ensures
            i <= n,
            table@ == old_table,
            i < n ==> table@[i as int].0@ == owned@,
            forall|j: int| 0 <= j < i ==> (#[trigger] table@[j]).0@ != owned@,
        decreases n - i,
    {
        if table[i].0 == owned {
            break;
        }
        i = i + 1;
    }
    if i < n {
        proof {
            lemma_keyed_index(old_table, client_key(), i as int);
        }
        let mut data = table[i].1.clone();
        let limited = data.is_rate_limited_at(config, now);
        let entry = (owned, data);
        proof {
            lemma_keyed_update(old_table, client_key(), i as int, entry);
        }
        table.set(i, entry);
        proof {
            assert(table_view(table@) =~= table_view(old_table).insert(key@, entry.1@));
        }
        limited
    } else {
        proof {
            assert(!has_key(old_table, client_key(), owned@));
        }
        let mut data = RateLimitData::new_at(now);
        let limited = data.is_rate_limited_at(config, now);
        let entry = (owned, data);
        proof {
            lemma_keyed_push(old_table, client_key(), entry);
        }
        table.push(entry);
        proof {
            assert(table_view(table@) =~= table_view(old_table).insert(key@, entry.1@));
        }
        limited
    }
}


/// The client entries of `table` still fresh at time `now`, in their order.
fn keep_fresh(table: Vec<(String, RateLimitData)>, config: &RateLimitConfig, now: u128) -> (kept: Vec<(String, RateLimitData)>)
    requires
        keys_distinct(table@, client_key()),
    ensures
        keys_distinct(kept@, client_key()),
        table_view(kept@) == map_keep(table_view(table@), fresh_at(*config, now)),
{
    let ghost keep = |e: (String, RateLimitData)| (fresh_at(*config, now))(e.1@);
    let limit: u128 = 2 * (config.window_seconds as u128 * 1000);
    let mut kept: Vec<(String, RateLimitData)> = Vec::new();
    let mut rest = table;
    let ghost initial = rest@;
    let mut reversed: Vec<(String, RateLimitData)> = Vec::new();
    // Take the entries off the back, then put the kept ones back in order.
    while rest.len() > 0
        invariant
            initial.len() == rest@.len() + reversed@.len(),
            forall|j: int| 0 <= j < rest@.len() ==> rest@[j] == initial[j],
            forall|j: int|
                0 <= j < reversed@.len() ==> reversed@[j] == initial[initial.len() - 1 - j],
        decreases rest.len(),
    {
        let e = rest.pop().unwrap();
        reversed.push(e);
    }
    let n = reversed.len();
    assert(n == initial.len());
    let mut i: usize = 0;
    while i < n
        invariant
            n == initial.len(),
            i <= n,
            keep == (|e: (String, RateLimitData)| (fresh_at(*config, now))(e.1@)),
            limit == 2 * (config.window_seconds * 1000),
            forall|j: int|
                0 <= j < reversed@.len() ==> reversed@[j] == initial[initial.len() - 1 - j],
            reversed@.len() + i == n,
            kept@ == initial.take(i as int).filter(keep),
        decreases n - i,
    {
        let e = reversed.pop().unwrap();
        proof {
            assert(e == initial[i as int]);
            reveal_with_fuel(Seq::filter, 1);
            assert(initial.take(i + 1).drop_last() =~= initial.take(i as int));
        }
        let start = e.1.window_start;
        let age: u128 = if now >= start {
            now - start
        } else {
            0
        };
        if age <= limit {
            proof {
                assert(keep(e));
            }
            kept.push(e);
        } else {
            proof {
                assert(!keep(e));
            }
        }
        i = i + 1;
    }
    proof {
        assert(initial.take(n as int) =~= initial);
        lemma_keyed_filter(initial, client_key(), keep);
        assert(table_view(kept@) =~= map_keep(table_view(initial), fresh_at(*config, now)));
    }
    kept
}

/// Rate limiting storage.
#[derive(Debug)]
pub struct RateLimitStore {
    ip_limits: Vec<(String, RateLimitData)>,
    token_limits: Vec<(String, RateLimitData)>,
    config: RateLimitConfig,
}

impl RateLimitStore {
    /// Internal consistency: one entry per client in each table.
    pub closed spec fn wf(&self) -> bool {
        &&& keys_distinct(self.ip_limits@, client_key())
        &&& keys_distinct(self.token_limits@, client_key())
    }

    /// The state of each client address.
    pub closed spec fn ip_states(&self) -> Map<Seq<char>, WindowState> {
        table_view(self.ip_limits@)
    }

    /// The state of each token.
    pub closed spec fn token_states(&self) -> Map<Seq<char>, WindowState> {
        table_view(self.token_limits@)
    }

    /// The configuration the store goes by.
    pub closed spec fn config(&self) -> RateLimitConfig {
        self.config
    }

    pub fn new(config: RateLimitConfig) -> (store: Self)
        ensures
            store.wf(),
            store.config() == config,
            store.ip_states() == Map::<Seq<char>, WindowState>::empty(),
            store.token_states() == Map::<Seq<char>, WindowState>::empty(),
    {
        let store = RateLimitStore { ip_limits: Vec::new(), token_limits: Vec::new(), config };
        assert(store.ip_states() =~= Map::<Seq<char>, WindowState>::empty());
        assert(store.token_states() =~= Map::<Seq<char>, WindowState>::empty());
        store
    }

    /// Checks a request from address `ip`, carrying token `token_id`, at time
    /// `now`; whether it is limited.
    pub fn check_rate_limit_at(&mut self, ip: &str, token_id: Option<&str>, now: u128) -> (limited: bool)
        requires
            old(self).wf(),
        ensures
            final(self).wf(),
            final(self).config() == old(self).config(),
            ({
                let step = store_step(
                    old(self).ip_states(),
                    old(self).token_states(),
                    old(self).config(),
                    ip@,
                    str_text(token_id),
                    now,
                );
                &&& final(self).ip_states() == step.0
                &&& final(self).token_states() == step.1
                &&& limited == step.2
            }),
    {
        let mut is_limited = false;
        if self.config.limit_by_ip {
            if check_in_table(&mut self.ip_limits, &self.config, ip, now) {
                is_limited = true;
            }
        }
        if self.config.limit_by_token {
            if let Some(token_id) = token_id {
                if check_in_table(&mut self.token_limits, &self.config, token_id, now) {
                    is_limited = true;
                }
            }
        }
        is_limited
    }

    /// Checks a request by the system clock; whether it is limited.
    pub fn check_rate_limit(&mut self, ip: &str, token_id: Option<&str>) -> (limited: bool)
        requires
            old(self).wf(),
        ensures
            final(self).wf(),
            final(self).config() == old(self).config(),
            exists|now: u128|
                {
                    let step = #[trigger] store_step(
                        old(self).ip_states(),
                        old(self).token_states(),
                        old(self).config(),
                        ip@,
                        str_text(token_id),
                        now,
                    );
                    &&& final(self).ip_states() == step.0
                    &&& final(self).token_states() == step.1
                    &&& limited == step.2
                },
    {
        let now = system_now_millis();
        self.check_rate_limit_at(ip, token_id, now)
    }

    /// Forgets the clients whose window started more than two windows before
    /// time `now`.
    pub fn cleanup_old_data_at(&mut self, now: u128)
        requires
            old(self).wf(),
        ensures
            final(self).wf(),
            final(self).config() == old(self).config(),
            final(self).ip_states() == map_keep(old(self).ip_states(), fresh_at(old(self).config(), now)),
            final(self).token_states() == map_keep(
                old(self).token_states(),
                fresh_at(old(self).config(), now),
            ),
    {
        let mut ips: Vec<(String, RateLimitData)> = Vec::new();
        std::mem::swap(&mut ips, &mut self.ip_limits);
        self.ip_limits = keep_fresh(ips, &self.config, now);
        let mut tokens: Vec<(String, RateLimitData)> = Vec::new();
        std::mem::swap(&mut tokens, &mut self.token_limits);
        self.token_limits = keep_fresh(tokens, &self.config, now);
    }

    /// Forgets stale clients, by the system clock.
    pub fn cleanup_old_data(&mut self)
        requires
            old(self).wf(),
        ensures
            final(self).wf(),
            final(self).config() == old(self).config(),
            exists|now: u128|
                final(self).ip_states() == map_keep(
                    old(self).ip_states(),
                    #[trigger] fresh_at(old(self).config(), now),
                ) && final(self).token_states() == map_keep(
                    old(self).token_states(),
                    fresh_at(old(self).config(), now),
                ),
    {
        let now = system_now_millis();
        self.cleanup_old_data_at(now)
    }
}

/// The address a request is counted against: the one the connection reports,
/// or "unknown".
pub open spec fn request_address(ip: Option<Seq<char>>) -> Seq<char> {
    match ip {
        Some(a) => a,
        None => "unknown"@,
    }
}

/// Rate limiting middleware factory.
#[derive(Debug)]
pub struct RateLimitMiddleware {
    store: RateLimitStore,
}

impl RateLimitMiddleware {
    /// The store the middleware checks against.
    pub closed spec fn store(&self) -> RateLimitStore {
        self.store
    }

    pub fn new(store: RateLimitStore) -> (middleware: Self)
        ensures
            middleware.store() == store,
    {
        RateLimitMiddleware { store }
    }

    /// The middleware wrapped around `service`.
    pub fn new_transform<S>(self, service: S) -> (wrapped: RateLimitMiddlewareService<S>)
        ensures
            wrapped.inner() == service,
            wrapped.store() == self.store(),
    {
        RateLimitMiddlewareService { service, store: self.store }
    }
}

/// Rate limiting middleware service: a service behind the rate limit.
#[derive(Debug)]
pub struct RateLimitMiddlewareService<S> {
    service: S,
    store: RateLimitStore,
}

impl<S> RateLimitMiddlewareService<S> {
    /// The wrapped service.
    pub closed spec fn inner(&self) -> S {
        self.service
    }

    /// The wrapped service.
    pub fn service(&self) -> (service: &S)
        ensures
            *service == self.inner(),
    {
        &self.service
    }
    /// The store the service checks against.
    pub closed spec fn store(&self) -> RateLimitStore {
        self.store
    }

    /// Decides, at time `now`, whether a request from address `ip` (where the
    /// connection reports one) carrying token `token_id` may pass on to the
    /// service.
    pub fn allow_request_at(&mut self, ip: Option<&str>, token_id: Option<&str>, now: u128) -> (allowed: bool)
        requires
            old(self).store().wf(),
        ensures
            final(self).store().wf(),
            final(self).inner() == old(self).inner(),
            final(self).store().config() == old(self).store().config(),
            ({
                let address = request_address(str_text(ip));
                let step = store_step(
                    old(self).store().ip_states(),
                    old(self).store().token_states(),
                    old(self).store().config(),
                    address,
                    str_text(token_id),
                    now,
                );
                &&& final(self).store().ip_states() == step.0
                &&& final(self).store().token_states() == step.1
                &&& allowed == !step.2
            }),
    {
        let address = match ip {
            Some(a) => a.to_string(),
            None => "unknown".to_string(),
        };
        !self.store.check_rate_limit_at(address.as_str(), token_id, now)
    }

    /// Decides by the system clock whether a request may pass.
    pub fn allow_request(&mut self, ip: Option<&str>, token_id: Option<&str>) -> (allowed: bool)
        requires
            old(self).store().wf(),
        ensures
            final(self).store().wf(),
            final(self).inner() == old(self).inner(),
            final(self).store().config() == old(self).store().config(),
            exists|now: u128|
                {
                    let step = #[trigger] store_step(
                        old(self).store().ip_states(),
                        old(self).store().token_states(),
                        old(self).store().config(),
                        request_address(str_text(ip)),
                        str_text(token_id),
                        now,
                    );
                    &&& final(self).store().ip_states() == step.0
                    &&& final(self).store().token_states() == step.1
                    &&& allowed == !step.2
                },
    {
        let now = system_now_millis();
        self.allow_request_at(ip, token_id, now)
    }
}

/// Checks of one client at each of `times` in turn: its state afterwards and
/// how many of the requests were let through.
pub open spec fn window_run(state: WindowState, config: RateLimitConfig, times: Seq<u128>) -> (
    WindowState,
    nat,
)
    decreases times.len(),
{
    if times.len() == 0 {
        (state, 0)
    } else {
        let before = window_run(state, config, times.drop_last());
        let step = window_step(before.0, config, times.last());
        (step.0, before.1 + if step.1 {
            0nat
        } else {
            1nat
        })
    }
}

/// Within the current window, every request let through stays recorded, the
/// window is not restarted, and no more than the maximum get through.
proof fn lemma_window_run(state: WindowState, config: RateLimitConfig, times: Seq<u128>)
    requires
        forall|i: int|
            0 <= i < times.len() ==> state.window_start <= #[trigger] times[i] && times[i]
                <= state.window_start + window_millis(config),
    ensures
        window_run(state, config, times).0.window_start == state.window_start,
        window_run(state, config, times).1 <= window_run(state, config, times).0.requests.filter(
            |t: u128| t >= state.window_start,
        ).len(),
        window_run(state, config, times).1 <= config.max_requests,
    decreases times.len(),
{
    if times.len() > 0 {
        let earlier = times.drop_last();
        assert forall|i: int| 0 <= i < earlier.len() implies state.window_start
            <= #[trigger] earlier[i] && earlier[i] <= state.window_start + window_millis(config) by {
            assert(earlier[i] == times[i]);
        }
        lemma_window_run(state, config, earlier);
        let before = window_run(state, config, earlier);
        let now = times.last();
        assert(state.window_start <= now && now <= state.window_start + window_millis(config)) by {
            assert(now == times[times.len() - 1]);
        }
        let past = before.0.requests;
        let recent = in_window(past, config, now);
        let fresh = |t: u128| elapsed(now, t) <= window_millis(config);
        let kept = |t: u128| t >= state.window_start;
        assert forall|t: u128| #[trigger] kept(t) implies fresh(t) by {}
        crate::filters::lemma_filter_nested(past, fresh, kept);
        crate::filters::lemma_filter_shorter(recent, kept);
        if recent.len() < config.max_requests {
            recent.lemma_filter_push(now, kept);
        }
    }
}

/// Within one window, no client gets more than the maximum number of
/// requests through: of checks that all fall in the client's current window,
/// at most `max_requests` are let through.
pub proof fn law_window_limit(state: WindowState, config: RateLimitConfig, times: Seq<u128>)
    requires
        forall|i: int|
            0 <= i < times.len() ==> state.window_start <= #[trigger] times[i] && times[i]
                <= state.window_start + window_millis(config),
    ensures
        window_run(state, config, times).1 <= config.max_requests,
{
    lemma_window_run(state, config, times);
}

/// Checks against the store from address `ip` at each of `times` in turn,
/// the `i`-th carrying token `token_ids[i]`: both tables afterwards and how
/// many of the requests were let through.
pub open spec fn store_run(
    ips: Map<Seq<char>, WindowState>,
    tokens: Map<Seq<char>, WindowState>,
    config: RateLimitConfig,
    ip: Seq<char>,
    token_ids: Seq<Option<Seq<char>>>,
    times: Seq<u128>,
) -> (Map<Seq<char>, WindowState>, Map<Seq<char>, WindowState>, nat)
    decreases times.len(),
{
    if times.len() == 0 {
        (ips, tokens, 0)
    } else {
        let before = store_run(ips, tokens, config, ip, token_ids, times.drop_last());
        let step = store_step(
            before.0,
            before.1,
            config,
            ip,
            token_ids[times.len() - 1],
            times.last(),
        );
        (step.0, step.1, before.2 + if step.2 {
            0nat
        } else {
            1nat
        })
    }
}

/// The state of address `ip` before a run of checks whose first comes at
/// `first`: its entry, or a fresh window starting then.
pub open spec fn address_state(ips: Map<Seq<char>, WindowState>, ip: Seq<char>, first: u128) -> WindowState {
    if ips.contains_key(ip) {
        ips[ip]
    } else {
        WindowState { requests: Seq::empty(), window_start: first }
    }
}

/// Limiting by address, the address's state goes through the checks of a
/// run as a single client's would, and no request gets through that the
/// address's window would refuse.
proof fn lemma_store_run(
    ips: Map<Seq<char>, WindowState>,
    tokens: Map<Seq<char>, WindowState>,
    config: RateLimitConfig,
    ip: Seq<char>,
    token_ids: Seq<Option<Seq<char>>>,
    times: Seq<u128>,
)
    requires
        config.limit_by_ip,
        times.len() > 0,
    ensures
        ({
            let run = store_run(ips, tokens, config, ip, token_ids, times);
            let single = window_run(address_state(ips, ip, times[0]), config, times);
            &&& run.0.contains_key(ip)
            &&& run.0[ip] == single.0
            &&& run.2 <= single.1
        }),
    decreases times.len(),
{
    let start = address_state(ips, ip, times[0]);
    let earlier = times.drop_last();
    if times.len() == 1 {
        assert(window_run(start, config, earlier) == (start, 0nat));
        assert(store_run(ips, tokens, config, ip, token_ids, earlier) == (ips, tokens, 0nat));
        assert(times.last() == times[0]);
    } else {
        assert(earlier[0] == times[0]);
        lemma_store_run(ips, tokens, config, ip, token_ids, earlier);
        let before = store_run(ips, tokens, config, ip, token_ids, earlier);
        let single = window_run(start, config, earlier);
        assert(before.0.contains_key(ip));
        assert(address_state(before.0, ip, times.last()) == single.0);
    }
}

/// Limiting by address, no address gets more than the maximum number of
/// requests through in one window, whatever tokens the requests carry: of
/// checks from one address that all fall in its current window (or, for an
/// address not seen before, in the window its first request opens), at most
/// `max_requests` are let through.
pub proof fn law_address_limit(
    ips: Map<Seq<char>, WindowState>,
    tokens: Map<Seq<char>, WindowState>,
    config: RateLimitConfig,
    ip: Seq<char>,
    token_ids: Seq<Option<Seq<char>>>,
    times: Seq<u128>,
)
    requires
        config.limit_by_ip,
        times.len() > 0,
        forall|i: int|
            0 <= i < times.len() ==> address_state(ips, ip, times[0]).window_start <= #[trigger] times[i]
                && times[i] <= address_state(ips, ip, times[0]).window_start + window_millis(config),
    ensures
        store_run(ips, tokens, config, ip, token_ids, times).2 <= config.max_requests,
{
    lemma_store_run(ips, tokens, config, ip, token_ids, times);
    lemma_window_run(address_state(ips, ip, times[0]), config, times);
}

/// A client whose data was cleared out at `now` is checked at any later time
/// just as it would have been with its data kept: same verdict, same state.
pub proof fn law_cleared_client_unchanged(
    table: Map<Seq<char>, WindowState>,
    config: RateLimitConfig,
    key: Seq<char>,
    now: u128,
    later: u128,
)
    requires
        now <= later,
    ensures
        table_step(map_keep(table, fresh_at(config, now)), config, key, later).1 == table_step(
            table,
            config,
            key,
            later,
        ).1,
        table_step(map_keep(table, fresh_at(config, now)), config, key, later).0[key] == table_step(
            table,
            config,
            key,
            later,
        ).0[key],
{
    let cleaned = map_keep(table, fresh_at(config, now));
    let fresh_window = |t: u128| elapsed(later, t) <= window_millis(config);
    assert(Seq::<u128>::empty().filter(fresh_window) =~= Seq::<u128>::empty());
    if table.contains_key(key) && !cleaned.contains_key(key) {
        assert(!(fresh_at(config, now))(table[key]));
        assert(elapsed(later, table[key].window_start) > window_millis(config));
    }
}

/// Clearing out stale data never changes a later check of the store: at any
/// time from the clean-up on, a request gets the same verdict, and the
/// address and token it is counted against end in the same state, whether
/// or not the clean-up ran.
pub proof fn law_cleanup_invisible(
    ips: Map<Seq<char>, WindowState>,
    tokens: Map<Seq<char>, WindowState>,
    config: RateLimitConfig,
    ip: Seq<char>,
    token_id: Option<Seq<char>>,
    now: u128,
    later: u128,
)
    requires
        now <= later,
    ensures
        ({
            let kept = store_step(
                map_keep(ips, fresh_at(config, now)),
                map_keep(tokens, fresh_at(config, now)),
                config,
                ip,
                token_id,
                later,
            );
            let full = store_step(ips, tokens, config, ip, token_id, later);
            &&& kept.2 == full.2
            &&& config.limit_by_ip ==> kept.0[ip] == full.0[ip]
            &&& config.limit_by_token && token_id is Some ==> kept.1[token_id->Some_0]
                == full.1[token_id->Some_0]
        }),
{
    law_cleared_client_unchanged(ips, config, ip, now, later);
    if token_id is Some {
        law_cleared_client_unchanged(tokens, config, token_id->Some_0, now, later);
    }
}


/// With address limiting switched off, the address table is never touched
/// and never limits: a request without a token (or with token limiting off
/// too) is never limited, and otherwise only its token can limit it.
pub proof fn law_address_limit_off(
    ips: Map<Seq<char>, WindowState>,
    tokens: Map<Seq<char>, WindowState>,
    config: RateLimitConfig,
    ip: Seq<char>,
    other_ip: Seq<char>,
    token_id: Option<Seq<char>>,
    now: u128,
)
    requires
        !config.limit_by_ip,
    ensures
        store_step(ips, tokens, config, ip, token_id, now).0 == ips,
        store_step(ips, tokens, config, ip, token_id, now).2 == store_step(
            ips,
            tokens,
            config,
            other_ip,
            token_id,
            now,
        ).2,
        (token_id is None || !config.limit_by_token) ==> !store_step(
            ips,
            tokens,
            config,
            ip,
            token_id,
            now,
        ).2,
{
}

/// With token limiting switched off, or for a request without a token, the
/// token table is never touched.
pub proof fn law_token_limit_off(
    ips: Map<Seq<char>, WindowState>,
    tokens: Map<Seq<char>, WindowState>,
    config: RateLimitConfig,
    ip: Seq<char>,
    token_id: Option<Seq<char>>,
    now: u128,
)
    requires
        !config.limit_by_token || token_id is None,
    ensures
        store_step(ips, tokens, config, ip, token_id, now).1 == tokens,
{
}

} // verus!
