//! The request log and request counters of the monitoring service.
//!
//! Times are milliseconds since the service started.
use vstd::prelude::*;

use crate::keyed::{
    has_key, keyed_map, keys_distinct, lemma_keyed_filter, lemma_keyed_index, lemma_keyed_len,
    lemma_keyed_push, lemma_keyed_update,
};
use crate::text::str_equal;

verus! {

/// How many entries the log keeps after a successful request.
pub const MAX_REQUEST_LOGS: usize = 1000;

/// One request, as the log keeps it.
#[derive(Debug)]
pub struct RequestLog {
    pub timestamp: u128,
    pub endpoint: String,
    pub method: String,
    pub status_code: u16,
    pub duration_ms: u64,
    pub client_ip: String,
}

/// What a `RequestLog` holds, as plain values.
pub struct LogRecord {
    pub timestamp: u128,
    pub endpoint: Seq<char>,
    pub method: Seq<char>,
    pub status_code: u16,
    pub duration_ms: u64,
    pub client_ip: Seq<char>,
}

impl View for RequestLog {
    type V = LogRecord;

    open spec fn view(&self) -> LogRecord {
        LogRecord {
            timestamp: self.timestamp,
            endpoint: self.endpoint@,
            method: self.method@,
            status_code: self.status_code,
            duration_ms: self.duration_ms,
            client_ip: self.client_ip@,
        }
    }
}

impl Clone for RequestLog {
    fn clone(&self) -> (copy: Self)
        ensures
            copy@ == self@,
    {
        RequestLog {
            timestamp: self.timestamp,
            endpoint: self.endpoint.clone(),
            method: self.method.clone(),
            status_code: self.status_code,
            duration_ms: self.duration_ms,
            client_ip: self.client_ip.clone(),
        }
    }
}

/// The records of a list of log entries.
pub open spec fn records(s: Seq<RequestLog>) -> Seq<LogRecord> {
    s.map_values(|l: RequestLog| l@)
}

/// The entry of a request: a `GET` at `now`.
pub open spec fn entry_of(
    now: u128,
    endpoint: Seq<char>,
    status_code: u16,
    duration_ms: u64,
    client_ip: Seq<char>,
) -> LogRecord {
    LogRecord {
        timestamp: now,
        endpoint,
        method: "GET"@,
        status_code,
        duration_ms,
        client_ip,
    }
}

/// The log after a successful request: the entry is added, and the oldest
/// entry goes once the log holds more than its limit.
pub open spec fn after_success(log: Seq<LogRecord>, entry: LogRecord) -> Seq<LogRecord> {
    let grown = log.push(entry);
    if grown.len() > MAX_REQUEST_LOGS {
        grown.drop_first()
    } else {
        grown
    }
}

/// The last `limit` entries of a log, newest first.
pub open spec fn newest(log: Seq<LogRecord>, limit: nat) -> Seq<LogRecord> {
    let n = if limit < log.len() {
        limit as int
    } else {
        log.len() as int
    };
    Seq::new(n as nat, |k: int| log[log.len() - 1 - k])
}

/// The request log.
pub struct RequestLogBook {
    logs: Vec<RequestLog>,
}

impl RequestLogBook {
    /// The entries, oldest first.
    pub closed spec fn entries(&self) -> Seq<LogRecord> {
        records(self.logs@)
    }

    /// An empty log.
    pub fn new() -> (book: Self)
        ensures
            book.entries() == Seq::<LogRecord>::empty(),
    {
        let book = RequestLogBook { logs: Vec::new() };
        assert(book.entries() =~= Seq::<LogRecord>::empty());
        book
    }

    /// Logs a request answered with success at time `now`.
    pub fn record_success(&mut self, now: u128, endpoint: &str, duration_ms: u64, client_ip: &str)
        ensures
            final(self).entries() == after_success(
                old(self).entries(),
                entry_of(now, endpoint@, 200, duration_ms, client_ip@),
            ),
    {
        let entry = RequestLog {
            timestamp: now,
            endpoint: endpoint.to_string(),
            method: String::from_str("GET"),
            status_code: 200,
            duration_ms,
            client_ip: client_ip.to_string(),
        };
        let ghost before = self.logs@;
        self.logs.push(entry);
        assert(records(self.logs@) =~= records(before).push(entry@));
        if self.logs.len() > MAX_REQUEST_LOGS {
            let ghost grown = self.logs@;
            self.logs.remove(0);
            assert(records(self.logs@) =~= records(grown).drop_first());
        }
    }

    /// Logs a failed request at time `now`; the log keeps growing.
    pub fn record_failure(&mut self, now: u128, endpoint: &str, client_ip: &str)
        ensures
            final(self).entries() == old(self).entries().push(
                entry_of(now, endpoint@, 500, 0, client_ip@),
            ),
    {
        let entry = RequestLog {
            timestamp: now,
            endpoint: endpoint.to_string(),
            method: String::from_str("GET"),
            status_code: 500,
            duration_ms: 0,
            client_ip: client_ip.to_string(),
        };
        let ghost before = self.logs@;
        self.logs.push(entry);
        assert(records(self.logs@) =~= records(before).push(entry@));
    }

    /// The last `limit` entries, newest first.
    pub fn get_request_logs(&self, limit: usize) -> (logs: Vec<RequestLog>)
        ensures
            records(logs@) == newest(self.entries(), limit as nat),
    {
        let n = self.logs.len();
        let count = if limit < n {
            limit
        } else {
            n
        };
        let mut logs: Vec<RequestLog> = Vec::new();
        let mut k: usize = 0;
        while k < count
            invariant
                n == self.logs@.len(),
                count <= n,
                count == (if limit < n {
                    limit
                } else {
                    n
                }),
                k <= count,
                logs@.len() == k,
                forall|j: int| 0 <= j < k ==> #[trigger] logs@[j]@ == self.logs@[n - 1 - j]@,
            decreases count - k,
        {
            let entry = self.logs[n - 1 - k].clone();
            logs.push(entry);
            k = k + 1;
        }
        assert(records(logs@) =~= newest(self.entries(), limit as nat));
        logs
    }
}

/// The counting part of the gateway's metrics: requests by outcome, open
/// connections and the last error.
pub struct RequestCounters {
    pub total_requests: u64,
    pub successful_requests: u64,
    pub failed_requests: u64,
    pub active_connections: u64,
    pub last_error: Option<String>,
}

impl RequestCounters {
    /// Every request counted is counted once as a success or a failure.
    pub open spec fn wf(&self) -> bool {
        self.total_requests == self.successful_requests + self.failed_requests
    }

    /// No request yet.
    pub fn new() -> (counters: Self)
        ensures
            counters.wf(),
            counters.total_requests == 0,
            counters.active_connections == 0,
            counters.last_error is None,
    {
        RequestCounters {
            total_requests: 0,
            successful_requests: 0,
            failed_requests: 0,
            active_connections: 0,
            last_error: None,
        }
    }

    /// Counts a successful request.
    pub fn record_success(&mut self)
        requires
            old(self).wf(),
            old(self).total_requests < u64::MAX,
        ensures
            final(self).wf(),
            final(self).total_requests == old(self).total_requests + 1,
            final(self).successful_requests == old(self).successful_requests + 1,
            final(self).failed_requests == old(self).failed_requests,
            final(self).active_connections == old(self).active_connections,
            final(self).last_error == old(self).last_error,
    {
        self.total_requests = self.total_requests + 1;
        self.successful_requests = self.successful_requests + 1;
    }

    /// Counts a failed request and keeps its error.
    pub fn record_failure(&mut self, error: &str)
        requires
            old(self).wf(),
            old(self).total_requests < u64::MAX,
        ensures
            final(self).wf(),
            final(self).total_requests == old(self).total_requests + 1,
            final(self).successful_requests == old(self).successful_requests,
            final(self).failed_requests == old(self).failed_requests + 1,
            final(self).active_connections == old(self).active_connections,
            final(self).last_error matches Some(e) && e@ == error@,
    {
        self.total_requests = self.total_requests + 1;
        self.failed_requests = self.failed_requests + 1;
        self.last_error = Some(error.to_string());
    }

    /// Counts a request by its status: below 400 a success, else a failure.
    pub fn record_performance(&mut self, status_code: u16)
        requires
            old(self).wf(),
            old(self).total_requests < u64::MAX,
        ensures
            final(self).wf(),
            final(self).total_requests == old(self).total_requests + 1,
            final(self).successful_requests == old(self).successful_requests + if status_code < 400 {
                1int
            } else {
                0int
            },
            final(self).failed_requests == old(self).failed_requests + if status_code < 400 {
                0int
            } else {
                1int
            },
            final(self).active_connections == old(self).active_connections,
            final(self).last_error == old(self).last_error,
    {
        self.total_requests = self.total_requests + 1;
        if status_code < 400 {
            self.successful_requests = self.successful_requests + 1;
        } else {
            self.failed_requests = self.failed_requests + 1;
        }
    }

    /// Sets the number of open connections.
    pub fn update_connections(&mut self, count: u64)
        ensures
            final(self).active_connections == count,
            final(self).total_requests == old(self).total_requests,
            final(self).successful_requests == old(self).successful_requests,
            final(self).failed_requests == old(self).failed_requests,
            final(self).last_error == old(self).last_error,
    {
        self.active_connections = count;
    }
}

/// The connections as plain values: identifier and opening time.
pub open spec fn connection_views(s: Seq<(String, u128)>) -> Seq<(Seq<char>, u128)> {
    s.map_values(|e: (String, u128)| (e.0@, e.1))
}

/// The key of a connection: its identifier.
pub open spec fn connection_key() -> spec_fn((Seq<char>, u128)) -> Seq<char> {
    |e: (Seq<char>, u128)| e.0
}

/// The open WebSocket connections, each with the time it was opened.
pub struct WebSocketMonitor {
    connections: Vec<(String, u128)>,
}

impl WebSocketMonitor {
    /// One entry per connection.
    pub closed spec fn wf(&self) -> bool {
        keys_distinct(connection_views(self.connections@), connection_key())
    }

    /// The open connections: identifier to opening time.
    pub closed spec fn open_connections(&self) -> Map<Seq<char>, u128> {
        Map::new(
            |k: Seq<char>| keyed_map(connection_views(self.connections@), connection_key()).contains_key(k),
            |k: Seq<char>| keyed_map(connection_views(self.connections@), connection_key())[k].1,
        )
    }

    /// No connection open.
    pub fn new() -> (monitor: Self)
        ensures
            monitor.wf(),
            monitor.open_connections() == Map::<Seq<char>, u128>::empty(),
    {
        let monitor = WebSocketMonitor { connections: Vec::new() };
        assert(monitor.open_connections() =~= Map::<Seq<char>, u128>::empty());
        monitor
    }

    /// The number of open connections is the size of the map.
    proof fn lemma_count(&self)
        requires
            self.wf(),
        ensures
            self.open_connections().dom().finite(),
            self.open_connections().len() == self.connections@.len(),
    {
        let views = connection_views(self.connections@);
        lemma_keyed_len(views, connection_key());
        assert(self.open_connections().dom() =~= keyed_map(views, connection_key()).dom());
    }

    /// Where connection `id` is held.
    fn find(&self, id: &str) -> (index: Option<usize>)
        requires
            self.wf(),
        ensures
            match index {
                Some(i) => i < self.connections@.len() && self.connections@[i as int].0@ == id@,
                None => !self.open_connections().contains_key(id@),
            },
    {
        let n = self.connections.len();
        let mut i: usize = 0;
        while i < n
            invariant
                n == self.connections@.len(),
                i <= n,
                forall|j: int| 0 <= j < i ==> (#[trigger] self.connections@[j]).0@ != id@,
            decreases n - i,
        {
            if str_equal(self.connections[i].0.as_str(), id) {
                return Some(i);
            }
            i = i + 1;
        }
        proof {
            let views = connection_views(self.connections@);
            if has_key(views, connection_key(), id@) {
                let j = choose|j: int| 0 <= j < views.len() && #[trigger] (connection_key())(views[j]) == id@;
                assert(views[j].0 == self.connections@[j].0@);
            }
        }
        None
    }

    /// Records that connection `id` opened at time `now`; returns how many
    /// connections are open.
    pub fn connection_opened_at(&mut self, id: &str, now: u128) -> (count: u64)
        requires
            old(self).wf(),
        ensures
            final(self).wf(),
            final(self).open_connections() == old(self).open_connections().insert(id@, now),
            count == final(self).open_connections().len(),
    {
        let ghost views = connection_views(self.connections@);
        let entry = (id.to_string(), now);
        let ghost view = (id@, now);
        match self.find(id) {
            Some(i) => {
                proof {
                    assert(views[i as int].0 == id@);
                    lemma_keyed_update(views, connection_key(), i as int, view);
                }
                self.connections.set(i, entry);
                proof {
                    assert(connection_views(self.connections@) =~= views.update(i as int, view));
                }
            },
            None => {
                proof {
                    assert(!has_key(views, connection_key(), id@));
                    lemma_keyed_push(views, connection_key(), view);
                }
                self.connections.push(entry);
                proof {
                    assert(connection_views(self.connections@) =~= views.push(view));
                }
            },
        }
        assert(self.open_connections() =~= old(self).open_connections().insert(id@, now));
        proof {
            self.lemma_count();
        }
        self.connections.len() as u64
    }

    /// Records that connection `id` closed; returns how many connections are
    /// open.
    pub fn connection_closed(&mut self, id: &str) -> (count: u64)
        requires
            old(self).wf(),
        ensures
            final(self).wf(),
            final(self).open_connections() == old(self).open_connections().remove(id@),
            count == final(self).open_connections().len(),
    {
        let ghost views = connection_views(self.connections@);
        let ghost other = |e: (Seq<char>, u128)| e.0 != id@;
        let mut kept: Vec<(String, u128)> = Vec::new();
        let n = self.connections.len();
        let mut j: usize = 0;
        while j < n
            invariant
                n == self.connections@.len(),
                views == connection_views(self.connections@),
                other == (|e: (Seq<char>, u128)| e.0 != id@),
                j <= n,
                connection_views(kept@) == views.take(j as int).filter(other),
            decreases n - j,
        {
            let entry = (self.connections[j].0.clone(), self.connections[j].1);
            proof {
                reveal_with_fuel(Seq::filter, 1);
                assert(views.take(j + 1).drop_last() =~= views.take(j as int));
                assert(views[j as int] == (entry.0@, entry.1));
            }
            if !str_equal(entry.0.as_str(), id) {
                let ghost before = kept@;
                kept.push(entry);
                proof {
                    assert(connection_views(kept@) =~= connection_views(before).push((entry.0@, entry.1)));
                }
            }
            j = j + 1;
        }
        proof {
            assert(views.take(n as int) =~= views);
            lemma_keyed_filter(views, connection_key(), other);
        }
        self.connections = kept;
        assert(self.open_connections() =~= old(self).open_connections().remove(id@));
        proof {
            self.lemma_count();
        }
        self.connections.len() as u64
    }

    /// How many connections are open.
    pub fn get_connection_count(&self) -> (count: usize)
        requires
            self.wf(),
        ensures
            count == self.open_connections().len(),
    {
        proof {
            self.lemma_count();
        }
        self.connections.len()
    }
}

} // verus!
