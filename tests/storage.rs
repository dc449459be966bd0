use gateway_api::models::{LogQuery, RequestLog, WsMessage};
use gateway_api::proxy::resolve_target;
use gateway_api::router::Route;
use gateway_api::error::ProxyError;
use gateway_api::storage::{extract_route_path, new_log_event, route_key_of, MetricsStore};

fn log(path: &str, status: u16) -> RequestLog {
    RequestLog::new("GET".to_string(), path.to_string(), status, 5, "127.0.0.1".to_string(), 1_700_000_000_000)
}

#[test]
fn ring_buffer_keeps_last_hundred() {
    let (mut store, _rx) = MetricsStore::new();
    for i in 1..=150u16 {
        store.add_request(log(&format!("/p/{}", i), 200 + i));
    }
    let all = store.newest_logs(1000);
    assert_eq!(all.len(), 100);
    // newest first: 150, 149, ..., 51
    for (j, l) in all.iter().enumerate() {
        assert_eq!(l.status, 200 + 150 - j as u16);
    }
    assert_eq!(all.last().unwrap().path, "/p/51");
}

#[test]
fn errors_never_exceed_requests() {
    let (mut store, _rx) = MetricsStore::new();
    for s in [200u16, 404, 500, 302, 399, 400] {
        store.add_request(log("/a", s));
        let m = store.get_metrics();
        assert!(m.total_errors <= m.total_requests);
    }
    let m = store.get_metrics();
    assert_eq!(m.total_requests, 6);
    assert_eq!(m.total_errors, 3);
}

#[test]
fn snapshot_is_newest_first_and_bounded() {
    let (mut store, _rx) = MetricsStore::new();
    assert_eq!(store.get_metrics().recent_logs.len(), 0);
    for i in 0..3u16 {
        store.add_request(log("/a", 200 + i));
    }
    let m = store.get_metrics();
    assert_eq!(m.recent_logs.iter().map(|l| l.status).collect::<Vec<_>>(), vec![202, 201, 200]);
    for i in 0..80u16 {
        store.add_request(log("/a", 300 + i));
    }
    let m = store.get_metrics();
    assert_eq!(m.recent_logs.len(), 50);
    assert_eq!(m.recent_logs[0].status, 379);
    assert_eq!(m.recent_logs[49].status, 330);
}

#[test]
fn every_add_is_counted() {
    let (mut store, _rx) = MetricsStore::new();
    let n = 37u64;
    for _ in 0..n {
        store.add_request(log("/x", 200));
    }
    assert_eq!(store.total_requests(), n);
    assert_eq!(store.get_metrics().total_requests, n);
}

#[test]
fn route_stats_by_first_two_segments() {
    let (mut store, _rx) = MetricsStore::new();
    store.add_request(log("/api/users/1", 200));
    store.add_request(log("/api/users/2", 200));
    store.add_request(log("/api/orders", 200));
    store.add_request(log("/health", 200));
    store.add_request(log("/api/orders/9", 500));
    let m = store.get_metrics();
    assert_eq!(
        m.route_stats,
        vec![
            ("/api".to_string(), 4),
            ("/health".to_string(), 1),
        ]
    );
}

#[test]
fn route_key_extraction() {
    assert_eq!(extract_route_path("/api/users/1"), Some("/api"));
    assert_eq!(extract_route_path("/api"), None);
    assert_eq!(extract_route_path("a/b/c"), Some("a/b"));
    assert_eq!(extract_route_path(""), None);
    assert_eq!(route_key_of("/health"), "/health");
    assert_eq!(route_key_of("/v1/x/y"), "/v1");
}

#[test]
fn log_listing_honours_limit() {
    let (mut store, _rx) = MetricsStore::new();
    for i in 0..70u16 {
        store.add_request(log("/a", 200 + i));
    }
    let some = store.logs_for(&LogQuery { limit: Some(3) });
    assert_eq!(some.iter().map(|l| l.status).collect::<Vec<_>>(), vec![269, 268, 267]);
    assert_eq!(store.logs_for(&LogQuery { limit: None }).len(), 50);
    assert_eq!(store.logs_for(&LogQuery { limit: Some(500) }).len(), 50);
    assert_eq!(store.logs_for(&LogQuery { limit: Some(60) }).len(), 50);
    assert_eq!(LogQuery { limit: None }.effective_limit(), 50);
}

#[test]
fn connections_go_up_and_down() {
    let (mut store, _rx) = MetricsStore::new();
    store.increment_connections();
    store.increment_connections();
    store.decrement_connections();
    assert_eq!(store.get_metrics().active_connections, 1);
}

#[test]
fn new_log_is_announced() {
    let (mut store, mut rx) = MetricsStore::new();
    store.add_request(log("/api/foo", 201));
    match rx.try_recv() {
        Ok(WsMessage::NewLog { log }) => {
            assert_eq!(log.path, "/api/foo");
            assert_eq!(log.status, 201);
        }
        other => panic!("unexpected {:?}", other),
    }
    store.publish_metrics();
    match rx.try_recv() {
        Ok(WsMessage::MetricsUpdate { metrics }) => assert_eq!(metrics.total_requests, 1),
        other => panic!("unexpected {:?}", other),
    }
    let tx = store.get_broadcaster();
    let mut rx2 = tx.subscribe();
    store.add_request(log("/b", 200));
    assert!(rx2.try_recv().is_ok());
    assert!(tx.same_channel(&store.get_broadcaster()));
}

#[test]
fn log_fields_are_kept() {
    let l = RequestLog::new("POST".to_string(), "/p".to_string(), 418, 12, "10.0.0.1".to_string(), 1_700_000_000_123);
    assert_eq!(l.method, "POST");
    assert_eq!(l.response_time_millis, 12);
    assert_eq!(l.client_ip, "10.0.0.1");
    assert_eq!(l.timestamp_millis, 1_700_000_000_123);
    let d = l.duplicate();
    assert_eq!(d.path, "/p");
    assert_eq!(d.timestamp_millis, l.timestamp_millis);
}

#[test]
fn end_to_end_forward_and_record() {
    let routes = vec![Route {
        path: "/api".to_string(),
        backend_url: "http://backend-a".to_string(),
    }];
    let target = resolve_target(&routes, "/api/foo", Some("x=1")).unwrap();
    assert_eq!(target, "http://backend-a/foo?x=1");
    let (mut store, _rx) = MetricsStore::new();
    // the backend answered 201
    store.record_outcome(
        "GET".to_string(),
        "/api/foo".to_string(),
        &Ok(201),
        3,
        "127.0.0.1".to_string(),
        1_700_000_000_000,
    );
    let m = store.get_metrics();
    assert_eq!(m.total_requests, 1);
    assert_eq!(m.recent_logs.len(), 1);
    assert_eq!(m.recent_logs[0].path, "/api/foo");
    assert_eq!(m.recent_logs[0].status, 201);
    assert_eq!(m.recent_logs[0].method, "GET");
    assert_eq!(m.recent_logs[0].client_ip, "127.0.0.1");
}

#[test]
fn outcome_is_recorded_with_its_status() {
    let (mut store, mut rx) = MetricsStore::new();
    store.record_outcome("GET".to_string(), "/api/foo".to_string(), &Ok(204), 7, "1.2.3.4".to_string(), 10);
    store.record_outcome(
        "POST".to_string(),
        "/nowhere".to_string(),
        &Err(ProxyError::RouteNotFound("/nowhere".to_string())),
        1,
        "1.2.3.4".to_string(),
        11,
    );
    let m = store.get_metrics();
    assert_eq!(m.total_requests, 2);
    assert_eq!(m.total_errors, 1);
    assert_eq!(m.recent_logs[0].status, 404);
    assert_eq!(m.recent_logs[0].method, "POST");
    assert_eq!(m.recent_logs[1].status, 204);
    assert_eq!(m.recent_logs[1].path, "/api/foo");
    assert_eq!(m.recent_logs[1].client_ip, "1.2.3.4");
    assert_eq!(m.recent_logs[1].timestamp_millis, 10);
    assert_eq!(m.recent_logs[0].timestamp_millis, 11);
    assert!(matches!(rx.try_recv(), Ok(WsMessage::NewLog { .. })));
    assert!(matches!(rx.try_recv(), Ok(WsMessage::NewLog { .. })));
}

#[test]
fn dashboard_events_carry_their_values() {
    let (mut store, _rx) = MetricsStore::new();
    store.add_request(log("/a/b", 500));
    match store.metrics_update() {
        WsMessage::MetricsUpdate { metrics } => {
            assert_eq!(metrics.total_requests, 1);
            assert_eq!(metrics.total_errors, 1);
            assert_eq!(metrics.recent_logs[0].path, "/a/b");
        }
        other => panic!("unexpected {:?}", other),
    }
    match new_log_event(log("/z", 201)) {
        WsMessage::NewLog { log } => assert_eq!(log.status, 201),
        other => panic!("unexpected {:?}", other),
    }
}
