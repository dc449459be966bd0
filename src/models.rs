use vstd::prelude::*;

verus! {

/// One completed request, as the dashboard sees it. Times are whole
/// milliseconds: `timestamp_millis` since the Unix epoch, `response_time_millis`
/// from start to finish.
#[derive(Clone, Debug)]
pub struct RequestLog {
    pub timestamp_millis: i64,
    pub method: String,
    pub path: String,
    pub status: u16,
    pub response_time_millis: i64,
    pub client_ip: String,
}

/// The mathematical value of a [`RequestLog`].
pub struct LogView {
    pub timestamp_millis: i64,
    pub method: Seq<char>,
    pub path: Seq<char>,
    pub status: u16,
    pub response_time_millis: i64,
    pub client_ip: Seq<char>,
}

impl View for RequestLog {
    type V = LogView;

    open spec fn view(&self) -> LogView {
        LogView {
            timestamp_millis: self.timestamp_millis,
            method: self.method@,
            path: self.path@,
            status: self.status,
            response_time_millis: self.response_time_millis,
            client_ip: self.client_ip@,
        }
    }
}

/// The values of a sequence of logs.
pub open spec fn logs_view(logs: Seq<RequestLog>) -> Seq<LogView> {
    logs.map_values(|l: RequestLog| l@)
}

/// The values of a sequence of (route key, count) pairs.
pub open spec fn stats_view(stats: Seq<(String, u64)>) -> Seq<(Seq<char>, int)> {
    stats.map_values(|p: (String, u64)| (p.0@, p.1 as int))
}

impl RequestLog {
    /// A log of a request that completed at `timestamp_millis`.
    pub fn new(
        method: String,
        path: String,
        status: u16,
        response_time_millis: i64,
        client_ip: String,
        timestamp_millis: i64,
    ) -> (r: Self)
        ensures
            r.timestamp_millis == timestamp_millis,
            r.method == method,
            r.path == path,
            r.status == status,
            r.response_time_millis == response_time_millis,
            r.client_ip == client_ip,
    {
        RequestLog {
            timestamp_millis,
            method,
            path,
            status,
            response_time_millis,
            client_ip,
        }
    }

    /// A copy of this log.
    pub fn duplicate(&self) -> (r: Self)
        ensures
            r@ == self@,
    {
        RequestLog {
            timestamp_millis: self.timestamp_millis,
            method: self.method.clone(),
            path: self.path.clone(),
            status: self.status,
            response_time_millis: self.response_time_millis,
            client_ip: self.client_ip.clone(),
        }
    }
}

/// A snapshot of the store: counters, the most recent logs newest first, and
/// the request count of each route key in order of first appearance.
#[derive(Clone, Debug)]
pub struct SummaryMetrics {
    pub total_requests: u64,
    pub total_errors: u64,
    pub active_connections: u64,
    pub recent_logs: Vec<RequestLog>,
    pub route_stats: Vec<(String, u64)>,
}

/// The mathematical value of a [`SummaryMetrics`].
pub struct MetricsView {
    pub total_requests: nat,
    pub total_errors: nat,
    pub active_connections: nat,
    pub recent_logs: Seq<LogView>,
    pub route_stats: Seq<(Seq<char>, int)>,
}

impl View for SummaryMetrics {
    type V = MetricsView;

    open spec fn view(&self) -> MetricsView {
        MetricsView {
            total_requests: self.total_requests as nat,
            total_errors: self.total_errors as nat,
            active_connections: self.active_connections as nat,
            recent_logs: logs_view(self.recent_logs@),
            route_stats: stats_view(self.route_stats@),
        }
    }
}

/// An event pushed to dashboard subscribers.
#[derive(Clone, Debug)]
pub enum WsMessage {
    NewLog { log: RequestLog },
    MetricsUpdate { metrics: SummaryMetrics },
}

/// The mathematical value of a [`WsMessage`].
pub enum EventView {
    NewLog(LogView),
    MetricsUpdate(MetricsView),
}

impl View for WsMessage {
    type V = EventView;

    open spec fn view(&self) -> EventView {
        match self {
            WsMessage::NewLog { log } => EventView::NewLog(log@),
            WsMessage::MetricsUpdate { metrics } => EventView::MetricsUpdate(metrics@),
        }
    }
}

/// The number of logs a log listing returns when it names no limit.
pub const DEFAULT_LOG_LIMIT: usize = 50;

/// The parameters of a log listing.
#[derive(Clone, Copy, Debug)]
pub struct LogQuery {
    pub limit: Option<usize>,
}

impl LogQuery {
    /// The number of logs asked for: the given limit, or the default one.
    pub fn effective_limit(&self) -> (r: usize)
        ensures
            r == match self.limit {
                Some(n) => n,
                None => DEFAULT_LOG_LIMIT,
            },
    {
        match self.limit {
            Some(n) => n,
            None => DEFAULT_LOG_LIMIT,
        }
    }
}

} // verus!
