use gateway_api::error::ProxyError;
use gateway_api::proxy::{backend_target, filter_headers, is_hop_by_hop, outcome_status, resolve_target};
use gateway_api::router::Route;

fn route(path: &str, backend_url: &str) -> Route {
    Route {
        path: path.to_string(),
        backend_url: backend_url.to_string(),
    }
}

#[test]
fn target_strips_prefix_and_keeps_query() {
    let routes = vec![route("/api", "http://backend-a")];
    let t = resolve_target(&routes, "/api/foo", Some("x=1"));
    assert_eq!(t.unwrap(), "http://backend-a/foo?x=1");
}

#[test]
fn target_without_query() {
    let r = route("/v1/users", "http://users");
    assert_eq!(backend_target(&r, "/v1/users/42", None), "http://users/42");
    assert_eq!(backend_target(&r, "/v1/users", None), "http://users");
}

#[test]
fn unmatched_path_is_route_not_found() {
    let routes = vec![route("/api", "http://backend-a")];
    match resolve_target(&routes, "/other", None) {
        Err(ProxyError::RouteNotFound(p)) => assert_eq!(p, "/other"),
        other => panic!("unexpected {:?}", other),
    }
}

#[test]
fn hop_by_hop_names() {
    for n in [
        "host",
        "connection",
        "keep-alive",
        "proxy-authenticate",
        "proxy-authorization",
        "te",
        "trailers",
        "transfer-encoding",
        "upgrade",
    ] {
        assert!(is_hop_by_hop(n), "{}", n);
    }
    assert!(!is_hop_by_hop("content-type"));
    assert!(!is_hop_by_hop("authorization"));
    assert!(!is_hop_by_hop("hosts"));
}

#[test]
fn filter_keeps_end_to_end_headers_in_order() {
    let hs = vec![
        ("host".to_string(), b"example.com".to_vec()),
        ("accept".to_string(), b"*/*".to_vec()),
        ("connection".to_string(), b"keep-alive".to_vec()),
        ("x-trace".to_string(), b"abc".to_vec()),
        ("upgrade".to_string(), b"websocket".to_vec()),
    ];
    let kept = filter_headers(hs);
    assert_eq!(
        kept,
        vec![
            ("accept".to_string(), b"*/*".to_vec()),
            ("x-trace".to_string(), b"abc".to_vec()),
        ]
    );
}

#[test]
fn error_statuses_and_messages() {
    let cases = [
        (ProxyError::RouteNotFound("/x".to_string()), 404, "Route not found: /x"),
        (ProxyError::BackendError("down".to_string()), 502, "Backend error: down"),
        (ProxyError::BodyError("cut".to_string()), 400, "Body error: cut"),
        (ProxyError::ResponseError("bad".to_string()), 500, "Response error: bad"),
        (ProxyError::RateLimitExceeded("slow".to_string()), 429, "Rate limit exceeded: slow"),
    ];
    for (e, status, msg) in cases {
        assert_eq!(e.status_code(), status);
        assert_eq!(e.message(), msg);
        assert_eq!(e.is_client_error(), status < 500);
    }
}

#[test]
fn outcome_status_of_success_and_failure() {
    assert_eq!(outcome_status(&Ok(201)), 201);
    assert_eq!(outcome_status(&Err(ProxyError::BackendError("x".to_string()))), 502);
}
