use vstd::prelude::*;

use std::collections::VecDeque;

use crate::error::{spec_status, ProxyError};
use crate::models::{
    logs_view, stats_view, EventView, LogQuery, LogView, MetricsView, RequestLog, SummaryMetrics,
    WsMessage,
};
use crate::text::str_equals;

verus! {

/// How many logs the store keeps; older ones are evicted first.
pub const LOG_CAPACITY: usize = 100;

/// How many logs a metrics snapshot carries.
pub const SNAPSHOT_LOGS: usize = 50;

/// How many events the dashboard channel buffers for each subscriber.
pub const CHANNEL_CAPACITY: usize = 100;

/// The number of `/` in `s`.
pub open spec fn slash_count(s: Seq<char>) -> nat
    decreases s.len(),
{
    if s.len() == 0 {
        0
    } else {
        slash_count(s.drop_last()) + if s.last() == '/' {
            1nat
        } else {
            0nat
        }
    }
}

/// Whether `path[i]` is the second `/` of `path`.
pub open spec fn is_second_slash(path: Seq<char>, i: int) -> bool {
    0 <= i < path.len() && path[i] == '/' && slash_count(path.subrange(0, i)) == 1
}

/// The key a request path is counted under: the path up to (not including)
/// its second `/`, that is its first two segments; the whole path when it
/// has fewer than two `/`.
pub open spec fn route_key(path: Seq<char>) -> Seq<char> {
    if exists|i: int| is_second_slash(path, i) {
        path.subrange(0, choose|i: int| is_second_slash(path, i))
    } else {
        path
    }
}

proof fn lemma_slash_count_monotone(s: Seq<char>, a: int, b: int)
    requires
        0 <= a <= b <= s.len(),
    ensures
        slash_count(s.subrange(0, a)) <= slash_count(s.subrange(0, b)),
    decreases b - a,
{
    if a < b {
        lemma_slash_count_monotone(s, a, b - 1);
        assert(s.subrange(0, b).drop_last() == s.subrange(0, b - 1));
    }
}

proof fn lemma_second_slash_unique(path: Seq<char>, i: int, j: int)
    requires
        is_second_slash(path, i),
        is_second_slash(path, j),
    ensures
        i == j,
{
    if i < j {
        lemma_slash_count_monotone(path, i + 1, j);
        assert(path.subrange(0, i + 1).drop_last() == path.subrange(0, i));
    } else if j < i {
        lemma_slash_count_monotone(path, j + 1, i);
        assert(path.subrange(0, j + 1).drop_last() == path.subrange(0, j));
    }
}

/// The part of `path` before its second `/`, if it has one.
pub fn extract_route_path(path: &str) -> (r: Option<&str>)
    ensures
        r is None <==> !exists|i: int| is_second_slash(path@, i),
        r matches Some(s) ==> s@ == route_key(path@),
{
    let n = path.unicode_len();
    let mut slashes: usize = 0;
    let mut i: usize = 0;
    while i < n
        invariant
            n == path@.len(),
            i <= n,
            slashes == slash_count(path@.subrange(0, i as int)),
            slashes <= 1,
            forall|j: int| 0 <= j < i ==> !is_second_slash(path@, j),
        decreases n - i,
    {
        assert(path@.subrange(0, i + 1).drop_last() == path@.subrange(0, i as int));
        if path.get_char(i) == '/' {
            slashes = slashes + 1;
            if slashes == 2 {
                assert(is_second_slash(path@, i as int));
                proof {
                    let k = choose|k: int| is_second_slash(path@, k);
                    lemma_second_slash_unique(path@, i as int, k);
                }
                return Some(path.substring_char(0, i));
            }
        }
        i = i + 1;
    }
    None
}

/// The key that `path` is counted under.
pub fn route_key_of(path: &str) -> (r: String)
    ensures
        r@ == route_key(path@),
{
    match extract_route_path(path) {
        Some(s) => s.to_owned(),
        None => path.to_owned(),
    }
}

/// The mathematical value of a [`MetricsStore`].
pub struct StoreView {
    pub total_requests: nat,
    pub total_errors: nat,
    pub active_connections: nat,
    /// Stored logs, oldest first.
    pub logs: Seq<LogView>,
    /// Request count per route key, in order of first appearance.
    pub route_stats: Seq<(Seq<char>, int)>,
}

/// The state of a store that has seen no request.
pub open spec fn empty_store() -> StoreView {
    StoreView {
        total_requests: 0,
        total_errors: 0,
        active_connections: 0,
        logs: Seq::empty(),
        route_stats: Seq::empty(),
    }
}

/// Appends `l` to the log buffer, evicting the oldest log first when the
/// buffer is full.
pub open spec fn push_bounded(logs: Seq<LogView>, l: LogView) -> Seq<LogView> {
    if logs.len() >= LOG_CAPACITY {
        logs.drop_first().push(l)
    } else {
        logs.push(l)
    }
}

/// Whether `key` has an entry in `stats`.
pub open spec fn has_key(stats: Seq<(Seq<char>, int)>, key: Seq<char>) -> bool {
    exists|i: int| 0 <= i < stats.len() && (#[trigger] stats[i]).0 == key
}

/// Counts one more request under `key`: its entry goes up by one, or a new
/// entry with count one is appended.
pub open spec fn bump(stats: Seq<(Seq<char>, int)>, key: Seq<char>) -> Seq<(Seq<char>, int)> {
    if has_key(stats, key) {
        let i = choose|i: int| 0 <= i < stats.len() && (#[trigger] stats[i]).0 == key;
        stats.update(i, (key, stats[i].1 + 1))
    } else {
        stats.push((key, 1))
    }
}

/// The effect of recording one completed request.
pub open spec fn step(m: StoreView, l: LogView) -> StoreView {
    StoreView {
        total_requests: m.total_requests + 1,
        total_errors: m.total_errors + if l.status >= 400 {
            1nat
        } else {
            0nat
        },
        active_connections: m.active_connections,
        logs: push_bounded(m.logs, l),
        route_stats: bump(m.route_stats, route_key(l.path)),
    }
}

/// The state of a fresh store after recording `logs`, in order.
pub open spec fn replay(logs: Seq<LogView>) -> StoreView
    decreases logs.len(),
{
    if logs.len() == 0 {
        empty_store()
    } else {
        step(replay(logs.drop_last()), logs.last())
    }
}

/// Whether each route key has at most one entry.
pub open spec fn unique_keys(stats: Seq<(Seq<char>, int)>) -> bool {
    forall|i: int, j: int|
        0 <= i < j < stats.len() ==> (#[trigger] stats[i]).0 != (#[trigger] stats[j]).0
}

/// Whether every count lies in `0..=bound`.
pub open spec fn counts_within(stats: Seq<(Seq<char>, int)>, bound: int) -> bool {
    forall|i: int| 0 <= i < stats.len() ==> 0 <= (#[trigger] stats[i]).1 <= bound
}

/// The invariant of every reachable store state: errors never outnumber
/// requests, the buffer is bounded, each route key has one entry, and no
/// route count exceeds the request count.
pub open spec fn inv(m: StoreView) -> bool {
    &&& m.total_errors <= m.total_requests
    &&& m.logs.len() <= LOG_CAPACITY
    &&& unique_keys(m.route_stats)
    &&& counts_within(m.route_stats, m.total_requests as int)
}

/// The snapshot of a store with value `m`: its counters, its 50 most recent
/// logs newest first, and all of its route counts.
pub open spec fn snapshot(m: StoreView) -> MetricsView {
    MetricsView {
        total_requests: m.total_requests,
        total_errors: m.total_errors,
        active_connections: m.active_connections,
        recent_logs: newest_first(m.logs, SNAPSHOT_LOGS as nat),
        route_stats: m.route_stats,
    }
}

/// The `k` most recent of `logs` (oldest first), newest first.
pub open spec fn newest_first(logs: Seq<LogView>, k: nat) -> Seq<LogView> {
    let n = if k < logs.len() {
        k as int
    } else {
        logs.len() as int
    };
    Seq::new(n as nat, |j: int| logs[logs.len() - 1 - j])
}

/// The number of logs in `logs` whose status is 400 or above.
pub open spec fn error_count(logs: Seq<LogView>) -> nat
    decreases logs.len(),
{
    if logs.len() == 0 {
        0
    } else {
        error_count(logs.drop_last()) + if logs.last().status >= 400 {
            1nat
        } else {
            0nat
        }
    }
}

/// The last `LOG_CAPACITY` of `logs` (all of them when there are fewer), in
/// arrival order.
pub open spec fn latest(logs: Seq<LogView>) -> Seq<LogView> {
    if logs.len() > LOG_CAPACITY {
        logs.subrange(logs.len() - LOG_CAPACITY, logs.len() as int)
    } else {
        logs
    }
}

/// Recording a request keeps the store invariant.
pub proof fn lemma_step_keeps_inv(m: StoreView, l: LogView)
    requires
        inv(m),
    ensures
        inv(step(m, l)),
{
    let key = route_key(l.path);
    let s = m.route_stats;
    let t = bump(s, key);
    if has_key(s, key) {
        let i = choose|i: int| 0 <= i < s.len() && (#[trigger] s[i]).0 == key;
        assert forall|a: int, b: int| 0 <= a < b < t.len() implies (#[trigger] t[a]).0 != (
        #[trigger] t[b]).0 by {
            assert(t[a].0 == s[a].0 && t[b].0 == s[b].0);
        }
        assert forall|a: int| 0 <= a < t.len() implies 0 <= (#[trigger] t[a]).1 <= m.total_requests
            + 1 by {
            assert(a != i ==> t[a] == s[a]);
        }
    } else {
        assert forall|a: int, b: int| 0 <= a < b < t.len() implies (#[trigger] t[a]).0 != (
        #[trigger] t[b]).0 by {
            if b == s.len() {
                assert(s[a].0 != key);
            }
        }
        assert forall|a: int| 0 <= a < t.len() implies 0 <= (#[trigger] t[a]).1 <= m.total_requests
            + 1 by {
            if a < s.len() {
                assert(t[a] == s[a]);
            }
        }
    }
}

/// Counter invariant: after every sequence of recorded requests, errors
/// never outnumber requests (and the whole store invariant holds).
pub proof fn lemma_replay_keeps_inv(logs: Seq<LogView>)
    ensures
        inv(replay(logs)),
        replay(logs).total_errors <= replay(logs).total_requests,
    decreases logs.len(),
{
    if logs.len() > 0 {
        lemma_replay_keeps_inv(logs.drop_last());
        lemma_step_keeps_inv(replay(logs.drop_last()), logs.last());
    }
}

/// No lost updates: after `n` recorded requests a fresh store counts exactly
/// `n` requests, and exactly the errors among them.
pub proof fn lemma_replay_counts(logs: Seq<LogView>)
    ensures
        replay(logs).total_requests == logs.len(),
        replay(logs).total_errors == error_count(logs),
    decreases logs.len(),
{
    if logs.len() > 0 {
        lemma_replay_counts(logs.drop_last());
    }
}

/// Ring buffer bound: after any sequence of recorded requests the store
/// holds exactly the last 100 of them (all when fewer), in arrival order.
pub proof fn lemma_replay_keeps_latest(logs: Seq<LogView>)
    ensures
        replay(logs).logs == latest(logs),
        replay(logs).logs.len() == if logs.len() > LOG_CAPACITY {
            LOG_CAPACITY as nat
        } else {
            logs.len()
        },
    decreases logs.len(),
{
    if logs.len() > 0 {
        let prev = logs.drop_last();
        lemma_replay_keeps_latest(prev);
        let n = logs.len() as int;
        if prev.len() >= LOG_CAPACITY {
            assert(latest(prev).drop_first().push(logs.last()) =~= logs.subrange(
                n - LOG_CAPACITY,
                n,
            ));
        } else {
            assert(prev.push(logs.last()) =~= logs);
        }
    } else {
        assert(replay(logs).logs =~= logs);
    }
}

/// Snapshot shape: a snapshot of `k` logs holds `min(k, stored)` logs,
/// newest first.
pub proof fn lemma_newest_first_shape(logs: Seq<LogView>, k: nat)
    ensures
        newest_first(logs, k).len() == if k < logs.len() {
            k
        } else {
            logs.len()
        },
        forall|j: int|
            0 <= j < newest_first(logs, k).len() ==> #[trigger] newest_first(logs, k)[j]
                == logs[logs.len() - 1 - j],
{
}

/// Declares tokio's `broadcast::Sender`, the publishing handle of the
/// dashboard channel; its contents stay opaque.
#[verifier::external_type_specification]
#[verifier::external_body]
#[verifier::reject_recursive_types(T)]
pub struct ExBroadcastSender<T>(tokio::sync::broadcast::Sender<T>);

/// Declares tokio's `broadcast::Receiver`, a subscriber of the dashboard
/// channel; its contents stay opaque.
#[verifier::external_type_specification]
#[verifier::external_body]
#[verifier::reject_recursive_types(T)]
pub struct ExBroadcastReceiver<T>(tokio::sync::broadcast::Receiver<T>);

/// Relies on tokio's `broadcast::channel`: a new channel buffering
/// `capacity` events for each subscriber. It panics when `capacity` is zero
/// or above `usize::MAX / 2`.
#[verifier::external_body]
fn open_channel(capacity: usize) -> (r: (
    tokio::sync::broadcast::Sender<WsMessage>,
    tokio::sync::broadcast::Receiver<WsMessage>,
))
    requires
        0 < capacity <= usize::MAX / 2,
{
    tokio::sync::broadcast::channel(capacity)
}

/// Relies on tokio's `broadcast::Sender::send`: hands `msg` to every current
/// subscriber without waiting; with none subscribed the event is dropped.
#[verifier::external_body]
fn publish(tx: &tokio::sync::broadcast::Sender<WsMessage>, msg: WsMessage) {
    let _ = tx.send(msg);
}

/// Relies on tokio's `Clone` for `broadcast::Sender`: another handle on the
/// same channel, holding the same shared state.
#[verifier::external_body]
fn clone_sender(tx: &tokio::sync::broadcast::Sender<WsMessage>) -> (r:
    tokio::sync::broadcast::Sender<WsMessage>)
    ensures
        r == *tx,
{
    tx.clone()
}

/// The dashboard event that announces `log`.
pub fn new_log_event(log: RequestLog) -> (r: WsMessage)
    ensures
        r@ == EventView::NewLog(log@),
{
    WsMessage::NewLog { log }
}

/// Aggregates what every request leaves behind: counters, a bounded buffer
/// of recent logs, per-route counts, and the channel that feeds dashboards.
pub struct MetricsStore {
    request_logs: VecDeque<RequestLog>,
    total_requests: u64,
    total_errors: u64,
    active_connections: u64,
    route_stats: Vec<(String, u64)>,
    broadcaster: tokio::sync::broadcast::Sender<WsMessage>,
    /// Every event handed to the dashboard channel, oldest first.
    events: Ghost<Seq<EventView>>,
}

impl View for MetricsStore {
    type V = StoreView;

    closed spec fn view(&self) -> StoreView {
        StoreView {
            total_requests: self.total_requests as nat,
            total_errors: self.total_errors as nat,
            active_connections: self.active_connections as nat,
            logs: logs_view(self.request_logs@),
            route_stats: stats_view(self.route_stats@),
        }
    }
}

impl MetricsStore {
    /// Every event handed to the dashboard channel so far, oldest first.
    pub closed spec fn events(&self) -> Seq<EventView> {
        self.events@
    }

    /// The publishing handle of the store's dashboard channel.
    pub closed spec fn channel(&self) -> tokio::sync::broadcast::Sender<WsMessage> {
        self.broadcaster
    }

    /// The store invariant, on the store's value.
    pub open spec fn wf(&self) -> bool {
        inv(self@)
    }

    /// A store that has seen no request, with the receiving end of its
    /// dashboard channel.
    pub fn new() -> (r: (Self, tokio::sync::broadcast::Receiver<WsMessage>))
        ensures
            r.0@ == empty_store(),
            r.0.wf(),
            r.0.events() == Seq::<EventView>::empty(),
    {
        let (tx, rx) = open_channel(CHANNEL_CAPACITY);
        let store = MetricsStore {
            request_logs: VecDeque::new(),
            total_requests: 0,
            total_errors: 0,
            active_connections: 0,
            route_stats: Vec::new(),
            broadcaster: tx,
            events: Ghost(Seq::empty()),
        };
        assert(logs_view(store.request_logs@) == Seq::<LogView>::empty());
        assert(stats_view(store.route_stats@) == Seq::<(Seq<char>, int)>::empty());
        (store, rx)
    }

    /// The number of requests recorded so far.
    pub fn total_requests(&self) -> (r: u64)
        ensures
            r == self@.total_requests,
    {
        self.total_requests
    }

    /// The number of open dashboard connections.
    pub fn active_connections(&self) -> (r: u64)
        ensures
            r == self@.active_connections,
    {
        self.active_connections
    }

    /// Records one completed request: counts it (and counts it as an error
    /// when its status is 400 or above), appends it to the log buffer,
    /// counts it under its route key, and announces it to dashboards.
    pub fn add_request(&mut self, log: RequestLog)
        requires
            old(self).wf(),
            old(self)@.total_requests < u64::MAX,
        ensures
            final(self).wf(),
            final(self)@ == step(old(self)@, log@),
            final(self).events() == old(self).events().push(EventView::NewLog(log@)),
    {
        let ghost m0 = self@;
        let ghost l0 = log@;
        self.total_requests = self.total_requests + 1;
        if log.status >= 400 {
            self.total_errors = self.total_errors + 1;
        }
        let key = route_key_of(log.path.as_str());
        let announced = new_log_event(log.duplicate());
        self.push_log(log);
        self.count_route(key);
        self.announce(announced);
        assert(self@.logs == push_bounded(m0.logs, l0));
    }

    /// Records the outcome of a forwarded request that completed at
    /// `timestamp_millis` and took `response_time_millis`: logged with the
    /// backend's status on success, with the status of the failure otherwise.
    pub fn record_outcome(
        &mut self,
        method: String,
        path: String,
        outcome: &Result<u16, ProxyError>,
        response_time_millis: i64,
        client_ip: String,
        timestamp_millis: i64,
    )
        requires
            old(self).wf(),
            old(self)@.total_requests < u64::MAX,
        ensures
            final(self).wf(),
            exists|l: LogView|
                {
                    &&& l.timestamp_millis == timestamp_millis
                    &&& l.method == method@
                    &&& l.path == path@
                    &&& l.status == match outcome {
                        Ok(s) => *s,
                        Err(e) => spec_status(*e),
                    }
                    &&& l.response_time_millis == response_time_millis
                    &&& l.client_ip == client_ip@
                    &&& final(self)@ == step(old(self)@, l)
                    &&& final(self).events() == old(self).events().push(EventView::NewLog(l))
                },
    {
        let status = crate::proxy::outcome_status(outcome);
        let log = RequestLog::new(
            method,
            path,
            status,
            response_time_millis,
            client_ip,
            timestamp_millis,
        );
        let ghost l = log@;
        self.add_request(log);
    }

    /// Hands `msg` to the dashboard channel and records that it did.
    fn announce(&mut self, msg: WsMessage)
        ensures
            final(self).events() == old(self).events().push(msg@),
            final(self).request_logs == old(self).request_logs,
            final(self).total_requests == old(self).total_requests,
            final(self).total_errors == old(self).total_errors,
            final(self).active_connections == old(self).active_connections,
            final(self).route_stats == old(self).route_stats,
    {
        let ghost v = msg@;
        publish(&self.broadcaster, msg);
        self.events = Ghost(self.events@.push(v));
    }

    /// The `k` most recent logs, newest first.
    pub fn newest_logs(&self, k: usize) -> (r: Vec<RequestLog>)
        ensures
            logs_view(r@) == newest_first(self@.logs, k as nat),
    {
        let n = self.request_logs.len();
        let m = if k < n {
            k
        } else {
            n
        };
        let ghost v = logs_view(self.request_logs@);
        let mut out: Vec<RequestLog> = Vec::new();
        let mut j: usize = 0;
        while j < m
            invariant
                m <= n,
                n == self.request_logs@.len(),
                v == logs_view(self.request_logs@),
                j <= m,
                logs_view(out@) == Seq::new(j as nat, |t: int| v[n - 1 - t]),
            decreases m - j,
        {
            let l = self.request_logs[n - 1 - j].duplicate();
            let ghost before = out@;
            out.push(l);
            assert(logs_view(out@) =~= logs_view(before).push(l@));
            assert(logs_view(out@) =~= Seq::new((j + 1) as nat, |t: int| v[n - 1 - t]));
            j = j + 1;
        }
        assert(newest_first(v, k as nat) =~= Seq::new(m as nat, |t: int| v[n - 1 - t]));
        out
    }

    /// The logs a listing with parameters `query` returns: the `limit` most
    /// recent (50 when no limit is given) of the snapshot's 50, newest first.
    pub fn logs_for(&self, query: &LogQuery) -> (r: Vec<RequestLog>)
        ensures
            logs_view(r@) == newest_first(
                self@.logs,
                match query.limit {
                    Some(n) => if n < SNAPSHOT_LOGS {
                        n as nat
                    } else {
                        SNAPSHOT_LOGS as nat
                    },
                    None => crate::models::DEFAULT_LOG_LIMIT as nat,
                },
            ),
    {
        let limit = query.effective_limit();
        let k = if limit < SNAPSHOT_LOGS {
            limit
        } else {
            SNAPSHOT_LOGS
        };
        self.newest_logs(k)
    }

    /// A copy of the per-route counts.
    fn copy_stats(&self) -> (r: Vec<(String, u64)>)
        ensures
            stats_view(r@) == stats_view(self.route_stats@),
    {
        let mut out: Vec<(String, u64)> = Vec::new();
        let mut i: usize = 0;
        while i < self.route_stats.len()
            invariant
                i <= self.route_stats@.len(),
                stats_view(out@) == stats_view(self.route_stats@).subrange(0, i as int),
            decreases self.route_stats@.len() - i,
        {
            let key = self.route_stats[i].0.clone();
            let c = self.route_stats[i].1;
            let ghost before = out@;
            out.push((key, c));
            assert(stats_view(out@) =~= stats_view(before).push((key@, c as int)));
            assert(stats_view(out@) =~= stats_view(self.route_stats@).subrange(0, i + 1));
            i = i + 1;
        }
        assert(stats_view(self.route_stats@).subrange(0, i as int) =~= stats_view(
            self.route_stats@,
        ));
        out
    }

    /// A snapshot of the store: the counters, the 50 most recent logs newest
    /// first, and every per-route count.
    pub fn get_metrics(&self) -> (r: SummaryMetrics)
        ensures
            r@ == snapshot(self@),
            r.total_requests == self@.total_requests,
            r.total_errors == self@.total_errors,
            r.active_connections == self@.active_connections,
            logs_view(r.recent_logs@) == newest_first(self@.logs, SNAPSHOT_LOGS as nat),
            stats_view(r.route_stats@) == self@.route_stats,
    {
        SummaryMetrics {
            total_requests: self.total_requests,
            total_errors: self.total_errors,
            active_connections: self.active_connections,
            recent_logs: self.newest_logs(SNAPSHOT_LOGS),
            route_stats: self.copy_stats(),
        }
    }

    /// The periodic dashboard event: a snapshot of the store.
    pub fn metrics_update(&self) -> (r: WsMessage)
        ensures
            r@ == EventView::MetricsUpdate(snapshot(self@)),
    {
        WsMessage::MetricsUpdate { metrics: self.get_metrics() }
    }

    /// Announces a snapshot of the store to dashboards; the store's value
    /// is unchanged.
    pub fn publish_metrics(&mut self)
        requires
            old(self).wf(),
        ensures
            final(self).wf(),
            final(self)@ == old(self)@,
            final(self).events() == old(self).events().push(
                EventView::MetricsUpdate(snapshot(old(self)@)),
            ),
    {
        let msg = self.metrics_update();
        self.announce(msg);
    }

    /// A handle on the dashboard channel, from which new subscribers are made.
    pub fn get_broadcaster(&self) -> (r: tokio::sync::broadcast::Sender<WsMessage>)
        ensures
            r == self.channel(),
    {
        clone_sender(&self.broadcaster)
    }

    /// Counts one more open dashboard connection.
    pub fn increment_connections(&mut self)
        requires
            old(self).wf(),
            old(self)@.active_connections < u64::MAX,
        ensures
            final(self).wf(),
            final(self)@ == (StoreView {
                active_connections: old(self)@.active_connections + 1,
                ..old(self)@
            }),
            final(self).events() == old(self).events(),
    {
        self.active_connections = self.active_connections + 1;
    }

    /// Counts one dashboard connection fewer.
    pub fn decrement_connections(&mut self)
        requires
            old(self).wf(),
            old(self)@.active_connections > 0,
        ensures
            final(self).wf(),
            final(self)@ == (StoreView {
                active_connections: (old(self)@.active_connections - 1) as nat,
                ..old(self)@
            }),
            final(self).events() == old(self).events(),
    {
        self.active_connections = self.active_connections - 1;
    }

    fn push_log(&mut self, log: RequestLog)
        requires
            old(self).request_logs@.len() <= LOG_CAPACITY,
        ensures
            final(self).request_logs@.len() <= LOG_CAPACITY,
            logs_view(final(self).request_logs@) == push_bounded(
                logs_view(old(self).request_logs@),
                log@,
            ),
            final(self).total_requests == old(self).total_requests,
            final(self).total_errors == old(self).total_errors,
            final(self).active_connections == old(self).active_connections,
            final(self).route_stats == old(self).route_stats,
            final(self).events == old(self).events,
    {
        let ghost v0 = logs_view(self.request_logs@);
        if self.request_logs.len() >= LOG_CAPACITY {
            self.request_logs.pop_front();
            assert(logs_view(self.request_logs@) =~= v0.drop_first());
        }
        self.request_logs.push_back(log);
        assert(logs_view(self.request_logs@) == push_bounded(v0, log@));
    }

    fn count_route(&mut self, key: String)
        requires
            unique_keys(stats_view(old(self).route_stats@)),
            counts_within(stats_view(old(self).route_stats@), old(self).total_requests - 1),
            old(self).total_requests >= 1,
        ensures
            stats_view(final(self).route_stats@) == bump(stats_view(old(self).route_stats@), key@),
            unique_keys(stats_view(final(self).route_stats@)),
            counts_within(stats_view(final(self).route_stats@), final(self).total_requests as int),
            final(self).request_logs == old(self).request_logs,
            final(self).total_requests == old(self).total_requests,
            final(self).total_errors == old(self).total_errors,
            final(self).active_connections == old(self).active_connections,
            final(self).events == old(self).events,
    {
        let ghost s0 = stats_view(self.route_stats@);
        let mut i: usize = 0;
        while i < self.route_stats.len()
            invariant
                i <= self.route_stats@.len(),
                s0 == stats_view(old(self).route_stats@),
                unique_keys(s0),
                counts_within(s0, old(self).total_requests - 1),
                s0 == stats_view(self.route_stats@),
                self.request_logs == old(self).request_logs,
                self.total_requests == old(self).total_requests,
                self.total_errors == old(self).total_errors,
                self.active_connections == old(self).active_connections,
                self.events == old(self).events,
                forall|j: int| 0 <= j < i ==> (#[trigger] s0[j]).0 != key@,
            decreases self.route_stats@.len() - i,
        {
            if str_equals(self.route_stats[i].0.as_str(), key.as_str()) {
                let c = self.route_stats[i].1;
                assert(s0[i as int].0 == key@);
                assert(s0[i as int].1 == c as int);
                proof {
                    let k = choose|k: int| 0 <= k < s0.len() && (#[trigger] s0[k]).0 == key@;
                    if k != i {
                        assert(s0[k].0 != s0[i as int].0);
                    }
                }
                self.route_stats.set(i, (key, c + 1));
                assert(stats_view(self.route_stats@) == s0.update(i as int, (key@, s0[i as int].1 + 1)));
                assert(bump(s0, key@) == s0.update(i as int, (key@, s0[i as int].1 + 1)));
                return;
            }
            i = i + 1;
        }
        assert(!has_key(s0, key@));
        self.route_stats.push((key, 1));
        assert(stats_view(self.route_stats@) == s0.push((key@, 1)));
        assert(unique_keys(s0.push((key@, 1)))) by {
            assert forall|a: int, b: int| 0 <= a < b < s0.len() + 1 implies (#[trigger] s0.push(
                (key@, 1),
            )[a]).0 != (#[trigger] s0.push((key@, 1))[b]).0 by {
                if b == s0.len() {
                    assert(s0[a].0 != key@);
                }
            }
        }
    }
}

} // verus!
